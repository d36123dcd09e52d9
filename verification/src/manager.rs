use vstd::prelude::*;

use crate::interfaces::services::{
    fault_of, Actuator, Authenticate, AuthenticateResult, Detector, Locker, ServiceError,
};

verus! {

/// Discriminated manager error, naming the capability at the origin of the
/// failure and preserving the cause.
#[derive(Debug, PartialEq, Eq)]
pub enum ManagerError<
    DetectError: ServiceError,
    AuthenticateError: ServiceError,
    ActError: ServiceError,
    LockError: ServiceError,
> {
    General,
    Detector(DetectError),
    Authenticate(AuthenticateError),
    Actuate(ActError),
    Lock(LockError),
}

/// Timeout and cooldown configuration of the manager; immutable after
/// construction. Both durations are in seconds.
#[derive(Clone, Copy, Debug, PartialEq, Eq)]
pub struct ManagerConfig {
    /// Bound on how long one authorization may stay open; none leaves the
    /// authenticator unbounded.
    pub authorize_timeout: Option<u64>,
    /// Cooldown between a denied attempt and the next one.
    pub reauthorize_timeout: u64,
}

/// Where the daemon loop stands between two capability calls.
#[derive(Clone, Copy, Debug, PartialEq, Eq, Structural)]
pub enum DaemonPhase {
    /// Awaiting the lock signal.
    WaitLock,
    /// Acknowledging the observed lock to the user.
    ConfirmLock,
    /// About to run the one-shot protocol.
    Attempt,
    /// Waiting out the cooldown after a denied attempt.
    Cooldown,
}

/// Composes the four capabilities and the configuration into the
/// access-control protocol.
pub struct Manager<Detect, Auth, Act, Lock> where
    Detect: Detector,
    Auth: Authenticate<Device = Detect::Device>,
    Act: Actuator,
    Lock: Locker,
{
    locker: Lock,
    detector: Detect,
    auth: Auth,
    act: Act,
    config: ManagerConfig,
}

impl<Detect, Auth, Act, Lock> Manager<Detect, Auth, Act, Lock> where
    Detect: Detector,
    Auth: Authenticate<Device = Detect::Device>,
    Act: Actuator,
    Lock: Locker,
{
    /// The detector this manager drives.
    pub closed spec fn detector(&self) -> Detect {
        self.detector
    }

    /// The authenticator this manager drives.
    pub closed spec fn auth(&self) -> Auth {
        self.auth
    }

    /// The actuator this manager drives.
    pub closed spec fn act(&self) -> Act {
        self.act
    }

    /// The locker this manager drives.
    pub closed spec fn locker(&self) -> Lock {
        self.locker
    }

    /// The configuration this manager was built with.
    pub closed spec fn config(&self) -> ManagerConfig {
        self.config
    }

    pub fn new(detector: Detect, auth: Auth, act: Act, locker: Lock, config: ManagerConfig) -> (r:
        Self)
        ensures
            r.detector() == detector,
            r.auth() == auth,
            r.act() == act,
            r.locker() == locker,
            r.config() == config,
    {
        Self { locker, detector, auth, act, config }
    }

    /// What one protocol attempt guarantees, relating the manager before
    /// the attempt, the manager after it, and the outcome:
    /// - the configuration and the locker are untouched;
    /// - a reported decision is exactly the answer the authenticator gave,
    ///   for exactly the device the detector yielded, asked with the
    ///   configured authorization timeout; the actuator was driven exactly
    ///   once on Allow, with success, and never on Deny;
    /// - a detector failure carries the detector's own error, with nothing
    ///   else consulted; an authentication failure carries the
    ///   authenticator's own error, with no actuation; an actuation fault
    ///   carries the actuator's own error, after an Allow answer and
    ///   exactly one actuation;
    /// - no attempt reports a lock fault or a general fault.
    pub open spec fn run_post(
        pre: Self,
        post: Self,
        r: Result<
            AuthenticateResult,
            ManagerError<
                Detect::DetectorError,
                Auth::AuthenticateError,
                Act::ActuatorError,
                Lock::LockerError,
            >,
        >,
    ) -> bool {
        &&& post.config() == pre.config()
        &&& post.locker() == pre.locker()
        &&& match r {
            Ok(res) => exists|d: Detect::Device|
                #![trigger pre.detector().detected().push(Ok(d))]
                {
                    &&& post.detector().detected() == pre.detector().detected().push(Ok(d))
                    &&& post.auth().requests() == pre.auth().requests().push(
                        (d, pre.config().authorize_timeout, Ok(res)),
                    )
                    &&& (res == AuthenticateResult::Allow ==> post.act().opens()
                        == pre.act().opens().push(None))
                    &&& (res == AuthenticateResult::Deny ==> post.act().opens()
                        == pre.act().opens())
                },
            Err(e) => match e {
                ManagerError::Detector(de) => {
                    &&& post.detector().detected() == pre.detector().detected().push(Err(de))
                    &&& post.auth().requests() == pre.auth().requests()
                    &&& post.act().opens() == pre.act().opens()
                },
                ManagerError::Authenticate(ae) => exists|d: Detect::Device|
                    #![trigger pre.detector().detected().push(Ok(d))]
                    {
                        &&& post.detector().detected() == pre.detector().detected().push(Ok(d))
                        &&& post.auth().requests() == pre.auth().requests().push(
                            (d, pre.config().authorize_timeout, Err(ae)),
                        )
                        &&& post.act().opens() == pre.act().opens()
                    },
                ManagerError::Actuate(ace) => exists|d: Detect::Device|
                    #![trigger pre.detector().detected().push(Ok(d))]
                    {
                        &&& post.detector().detected() == pre.detector().detected().push(Ok(d))
                        &&& post.auth().requests() == pre.auth().requests().push(
                            (d, pre.config().authorize_timeout, Ok(AuthenticateResult::Allow)),
                        )
                        &&& post.act().opens() == pre.act().opens().push(Some(ace))
                    },
                ManagerError::Lock(_) => false,
                ManagerError::General => false,
            },
        }
    }

    /// One-shot protocol: wait for a device, request approval for it, and
    /// on Allow drive the actuator once; on Deny report without actuating.
    /// The first capability failure aborts the attempt with an error naming
    /// its origin.
    pub fn run(&mut self) -> (r: Result<
        AuthenticateResult,
        ManagerError<
            Detect::DetectorError,
            Auth::AuthenticateError,
            Act::ActuatorError,
            Lock::LockerError,
        >,
    >)
        ensures
            Self::run_post(*old(self), *final(self), r),
    {
        let device = match self.detector.wait_for_device() {
            Ok(d) => d,
            Err(e) => {
                return Err(ManagerError::Detector(e));
            },
        };
        let ghost detected_device = device;
        let authentication = match self.auth.authenticate(&device, self.config.authorize_timeout) {
            Ok(a) => a,
            Err(e) => {
                proof {
                    assert(self.detector().detected() == old(self).detector().detected().push(
                        Ok(detected_device),
                    ));
                }
                return Err(ManagerError::Authenticate(e));
            },
        };
        proof {
            assert(self.detector().detected() == old(self).detector().detected().push(
                Ok(detected_device),
            ));
            assert(self.auth().requests() == old(self).auth().requests().push(
                (detected_device, old(self).config().authorize_timeout, Ok(authentication)),
            ));
        }
        match authentication {
            AuthenticateResult::Allow => {
                let opened = self.act.open();
                proof {
                    assert(self.detector().detected() == old(self).detector().detected().push(
                        Ok(detected_device),
                    ));
                    assert(self.act().opens() == old(self).act().opens().push(fault_of(opened)));
                }
                match opened {
                    Ok(()) => Ok(AuthenticateResult::Allow),
                    Err(e) => Err(ManagerError::Actuate(e)),
                }
            },
            AuthenticateResult::Deny => Ok(AuthenticateResult::Deny),
        }
    }

    /// One transition of the daemon loop: performs the capability call the
    /// given phase stands for and names the next phase. The `Cooldown`
    /// phase performs no call; the caller waits out
    /// `config.reauthorize_timeout` seconds before stepping on. Any
    /// capability error aborts the loop.
    pub fn daemon_step(&mut self, phase: DaemonPhase) -> (r: Result<
        DaemonPhase,
        ManagerError<
            Detect::DetectorError,
            Auth::AuthenticateError,
            Act::ActuatorError,
            Lock::LockerError,
        >,
    >)
        ensures
            final(self).config() == old(self).config(),
            match phase {
                DaemonPhase::WaitLock => {
                    &&& final(self).locker().confirms() == old(self).locker().confirms()
                    &&& final(self).detector() == old(self).detector()
                    &&& final(self).auth() == old(self).auth()
                    &&& final(self).act() == old(self).act()
                    &&& match r {
                        Ok(p) => p == DaemonPhase::ConfirmLock && final(self).locker().waits()
                            == old(self).locker().waits().push(None),
                        Err(e) => (e matches ManagerError::Lock(le) && final(self).locker().waits()
                            == old(self).locker().waits().push(Some(le))),
                    }
                },
                DaemonPhase::ConfirmLock => {
                    &&& final(self).locker().waits() == old(self).locker().waits()
                    &&& final(self).detector() == old(self).detector()
                    &&& final(self).auth() == old(self).auth()
                    &&& final(self).act() == old(self).act()
                    &&& match r {
                        Ok(p) => p == DaemonPhase::Attempt && final(self).locker().confirms()
                            == old(self).locker().confirms().push(None),
                        Err(e) => (e matches ManagerError::Lock(le)
                            && final(self).locker().confirms() == old(
                            self,
                        ).locker().confirms().push(Some(le))),
                    }
                },
                DaemonPhase::Attempt => match r {
                    Ok(p) => {
                        &&& (p == DaemonPhase::WaitLock || p == DaemonPhase::Cooldown)
                        &&& (p == DaemonPhase::WaitLock ==> Self::run_post(
                            *old(self),
                            *final(self),
                            Ok(AuthenticateResult::Allow),
                        ))
                        &&& (p == DaemonPhase::Cooldown ==> Self::run_post(
                            *old(self),
                            *final(self),
                            Ok(AuthenticateResult::Deny),
                        ))
                    },
                    Err(e) => Self::run_post(*old(self), *final(self), Err(e)),
                },
                DaemonPhase::Cooldown => {
                    &&& *final(self) == *old(self)
                    &&& r matches Ok(DaemonPhase::Attempt)
                },
            },
    {
        match phase {
            DaemonPhase::WaitLock => {
                let waited = self.locker.wait_for_lock();
                proof {
                    assert(self.locker().waits() == old(self).locker().waits().push(
                        fault_of(waited),
                    ));
                }
                match waited {
                    Ok(()) => Ok(DaemonPhase::ConfirmLock),
                    Err(e) => Err(ManagerError::Lock(e)),
                }
            },
            DaemonPhase::ConfirmLock => {
                let confirmed = self.locker.confirm_lock();
                proof {
                    assert(self.locker().confirms() == old(self).locker().confirms().push(
                        fault_of(confirmed),
                    ));
                }
                match confirmed {
                    Ok(()) => Ok(DaemonPhase::Attempt),
                    Err(e) => Err(ManagerError::Lock(e)),
                }
            },
            DaemonPhase::Attempt => match self.run() {
                Ok(AuthenticateResult::Allow) => Ok(DaemonPhase::WaitLock),
                Ok(AuthenticateResult::Deny) => Ok(DaemonPhase::Cooldown),
                Err(e) => Err(e),
            },
            DaemonPhase::Cooldown => Ok(DaemonPhase::Attempt),
        }
    }
}

} // verus!
