use vstd::prelude::*;

verus! {

/// Marker for the error type of a capability; every capability-local error
/// kind implements it.
pub trait ServiceError {
}

/// Outcome of one authentication attempt; produced fresh per attempt.
#[derive(Clone, Copy, Debug, PartialEq, Eq, Structural)]
pub enum AuthenticateResult {
    Allow,
    Deny,
}

/// An opaque, comparable key identifying a device within a registry.
///
/// The mathematical identity of a key is its view; `same_identity` is the
/// executable comparison deciding view equality.
pub trait DeviceIdentity: View + Sized {
    fn same_identity(&self, other: &Self) -> (b: bool)
        ensures
            b <==> self@ == other@,
    ;
}

impl DeviceIdentity for String {
    fn same_identity(&self, other: &Self) -> (b: bool) {
        *self == *other
    }
}

/// A device from which a registry identity can be derived, for registration
/// without naming the identity separately.
pub trait HasIdentity<Ident: DeviceIdentity>: Sized {
    /// The identity of this device, as a mathematical value.
    spec fn ident_view(&self) -> <Ident as View>::V;

    fn identity(&self) -> (i: Ident)
        ensures
            i@ == self.ident_view(),
    ;
}

/// The ghost history of a detector's waits, in order: for each call, the
/// device it yielded or the error it reported.
///
/// An unverified adapter carries such a history only formally: its body
/// for the history is never inspected and never runs.
pub type DetectionLog<Device, Error> = Seq<Result<Device, Error>>;

/// The ghost log of an authenticator's requests, in order: for each call,
/// the candidate device, the timeout handed over, and the answer or error
/// it resolved to.
pub type RequestLog<Device, Error> = Seq<(Device, Option<u64>, Result<AuthenticateResult, Error>)>;

/// The ghost log of a capability's parameterless calls, in order: for each
/// call, the fault it reported, or nothing on success.
pub type ActionLog<Error> = Seq<Option<Error>>;

/// The fault a parameterless call reported, or nothing on success.
pub open spec fn fault_of<Error>(r: Result<(), Error>) -> Option<Error> {
    match r {
        Ok(_) => None,
        Err(e) => Some(e),
    }
}

/// Waits until a device satisfying policy appears.
///
/// `detected()` is the abstract history of this detector's waits; every
/// call appends exactly its own outcome.
pub trait Detector {
    type Device;

    type DetectorError: ServiceError;

    spec fn detected(&self) -> DetectionLog<Self::Device, Self::DetectorError>;

    /// Suspends until a matching device is found; yields a device or fails,
    /// never a "not found" outcome.
    fn wait_for_device(&mut self) -> (r: Result<Self::Device, Self::DetectorError>)
        ensures
            final(self).detected() == old(self).detected().push(r),
    ;
}

/// Requests approval for a candidate device, optionally bounded by a
/// timeout in seconds.
///
/// `requests()` is the abstract log of every authentication request made
/// through this authenticator: what was asked, and what came back.
pub trait Authenticate {
    type Device;

    type AuthenticateError: ServiceError;

    spec fn requests(&self) -> RequestLog<Self::Device, Self::AuthenticateError>;

    /// Resolves to Allow or Deny. When a timeout is supplied the adapter
    /// must resolve to Deny on expiry rather than suspend indefinitely.
    fn authenticate(&mut self, device: &Self::Device, timeout: Option<u64>) -> (r: Result<
        AuthenticateResult,
        Self::AuthenticateError,
    >)
        ensures
            final(self).requests() == old(self).requests().push((*device, timeout, r)),
    ;
}

/// Performs the physical open action.
///
/// `opens()` logs every actuation and its outcome; every call of `open`
/// actuates exactly once, whether or not it reports a fault.
pub trait Actuator {
    type ActuatorError: ServiceError;

    spec fn opens(&self) -> ActionLog<Self::ActuatorError>;

    fn open(&mut self) -> (r: Result<(), Self::ActuatorError>)
        ensures
            final(self).opens() == old(self).opens().push(fault_of(r)),
    ;
}

/// Waits for a re-lock signal and confirms it back to the user.
///
/// `waits()` and `confirms()` log the two interactions separately, each
/// call appending exactly its own outcome.
pub trait Locker {
    type LockerError: ServiceError;

    spec fn waits(&self) -> ActionLog<Self::LockerError>;

    spec fn confirms(&self) -> ActionLog<Self::LockerError>;

    /// Suspends until a lock signal is observed.
    fn wait_for_lock(&mut self) -> (r: Result<(), Self::LockerError>)
        ensures
            final(self).waits() == old(self).waits().push(fault_of(r)),
            final(self).confirms() == old(self).confirms(),
    ;

    /// Acknowledges the lock to the user.
    fn confirm_lock(&mut self) -> (r: Result<(), Self::LockerError>)
        ensures
            final(self).confirms() == old(self).confirms().push(fault_of(r)),
            final(self).waits() == old(self).waits(),
    ;
}

/// The table reached from `m` by registering the given (identity, device)
/// pairs in order; a later pair for an identity overrides an earlier one.
pub open spec fn insert_all<IV, D>(m: Map<IV, D>, pairs: Seq<(IV, D)>) -> Map<IV, D>
    decreases pairs.len(),
{
    if pairs.len() == 0 {
        m
    } else {
        insert_all(m, pairs.drop_last()).insert(pairs.last().0, pairs.last().1)
    }
}

/// Holds the known-device identities; answers membership and lookup
/// queries.
///
/// `table()` is the mapping from identity to device; `device_seq()` is the
/// snapshot sequence `list` reports, and the contract of `list` states how
/// the two cohere.
pub trait Registry: Sized {
    type Ident: DeviceIdentity;

    type Device;

    type RegistryError: ServiceError;

    spec fn table(&self) -> Map<<Self::Ident as View>::V, Self::Device>;

    spec fn device_seq(&self) -> Seq<Self::Device>;

    /// The registered identities, parallel to `device_seq`.
    spec fn key_seq(&self) -> Seq<<Self::Ident as View>::V>;

    /// The error reported when an identity to unregister is absent.
    spec fn not_found_error() -> Self::RegistryError;

    /// Registers a new device: insert or replace; always succeeds.
    fn register_device_with(&mut self, ident: Self::Ident, device: Self::Device) -> (r: Result<
        (),
        Self::RegistryError,
    >)
        ensures
            r matches Ok(()),
            final(self).table() == old(self).table().insert(ident@, device),
    ;

    /// Registers a new device, deriving the identity from the device.
    /// Prefer this method if there are no naming conflicts.
    fn register_device(&mut self, device: Self::Device) -> (r: Result<(), Self::RegistryError>) where
        Self::Device: HasIdentity<Self::Ident>

        ensures
            r matches Ok(()),
            final(self).table() == old(self).table().insert(device.ident_view(), device),
    {
        let ident = device.identity();
        self.register_device_with(ident, device)
    }

    /// Imports a list of devices, registering each in order; an identity
    /// can be derived from each device.
    fn from_list(&mut self, devices: Vec<Self::Device>) -> (r: Result<
        (),
        Self::RegistryError,
    >) where Self::Device: HasIdentity<Self::Ident>
        ensures
            r matches Ok(()),
            final(self).table() == insert_all(
                old(self).table(),
                devices@.map_values(|d: Self::Device| (d.ident_view(), d)),
            ),
    {
        let ghost pairs = devices@.map_values(|d: Self::Device| (d.ident_view(), d));
        let ghost m0 = self.table();
        let mut rest = devices;
        while rest.len() > 0
            invariant
                rest@.len() <= pairs.len(),
                pairs == pairs.take(pairs.len() - rest@.len()).add(
                    rest@.map_values(|d: Self::Device| (d.ident_view(), d)),
                ),
                self.table() == insert_all(m0, pairs.take(pairs.len() - rest@.len())),
            decreases rest@.len(),
        {
            let ghost done = pairs.len() - rest@.len();
            let device = rest.remove(0);
            proof {
                assert(pairs[done] == (device.ident_view(), device)) by {
                    assert(pairs.take(done).add(
                        rest@.insert(0, device).map_values(
                            |d: Self::Device| (d.ident_view(), d),
                        ),
                    )[done] == (device.ident_view(), device));
                }
                assert(pairs.take(done + 1).drop_last() =~= pairs.take(done));
                assert(pairs == pairs.take(done + 1).add(
                    rest@.map_values(|d: Self::Device| (d.ident_view(), d)),
                )) by {
                    assert(pairs =~= pairs.take(done + 1).add(
                        rest@.map_values(|d: Self::Device| (d.ident_view(), d)),
                    ));
                }
            }
            let r = self.register_device(device);
            match r {
                Ok(()) => (),
                Err(e) => {
                    return Err(e);
                },
            }
        }
        proof {
            assert(pairs.take(pairs.len() as int) =~= pairs);
        }
        Ok(())
    }

    /// Imports (identity, device) pairs, registering each in order.
    fn from_map(&mut self, devices: Vec<(Self::Ident, Self::Device)>) -> (r: Result<
        (),
        Self::RegistryError,
    >)
        ensures
            r matches Ok(()),
            final(self).table() == insert_all(
                old(self).table(),
                devices@.map_values(|p: (Self::Ident, Self::Device)| (p.0@, p.1)),
            ),
    {
        let ghost pairs = devices@.map_values(|p: (Self::Ident, Self::Device)| (p.0@, p.1));
        let ghost m0 = self.table();
        let mut rest = devices;
        while rest.len() > 0
            invariant
                rest@.len() <= pairs.len(),
                pairs == pairs.take(pairs.len() - rest@.len()).add(
                    rest@.map_values(|p: (Self::Ident, Self::Device)| (p.0@, p.1)),
                ),
                self.table() == insert_all(m0, pairs.take(pairs.len() - rest@.len())),
            decreases rest@.len(),
        {
            let ghost done = pairs.len() - rest@.len();
            let (ident, device) = rest.remove(0);
            proof {
                assert(pairs[done] == (ident@, device)) by {
                    assert(pairs.take(done).add(
                        rest@.insert(0, (ident, device)).map_values(
                            |p: (Self::Ident, Self::Device)| (p.0@, p.1),
                        ),
                    )[done] == (ident@, device));
                }
                assert(pairs.take(done + 1).drop_last() =~= pairs.take(done));
                assert(pairs == pairs.take(done + 1).add(
                    rest@.map_values(|p: (Self::Ident, Self::Device)| (p.0@, p.1)),
                )) by {
                    assert(pairs =~= pairs.take(done + 1).add(
                        rest@.map_values(|p: (Self::Ident, Self::Device)| (p.0@, p.1)),
                    ));
                }
            }
            let r = self.register_device_with(ident, device);
            match r {
                Ok(()) => (),
                Err(e) => {
                    return Err(e);
                },
            }
        }
        proof {
            assert(pairs.take(pairs.len() as int) =~= pairs);
        }
        Ok(())
    }

    /// Unregisters an existing device with a given identity; fails if the
    /// identity is unknown, leaving the registry unchanged.
    fn unregister_device(&mut self, ident: &Self::Ident) -> (r: Result<(), Self::RegistryError>)
        ensures
            old(self).table().contains_key(ident@) ==> (r matches Ok(()) && final(self).table()
                == old(self).table().remove(ident@)),
            !old(self).table().contains_key(ident@) ==> (r == Err::<(), Self::RegistryError>(
                Self::not_found_error(),
            ) && final(self).table() == old(self).table()),
    ;

    /// Checks whether a device is registered; returns the device or nothing.
    fn check(&self, ident: &Self::Ident) -> (r: Option<&Self::Device>)
        ensures
            match r {
                Some(d) => self.table().contains_key(ident@) && *d == self.table()[ident@],
                None => !self.table().contains_key(ident@),
            },
    ;

    /// Lists all registered devices, order unspecified: the devices listed
    /// are exactly the devices registered, one per registered identity.
    fn list(&self) -> (r: Vec<&Self::Device>)
        ensures
            r@.map_values(|d: &Self::Device| *d) == self.device_seq(),
            self.table().dom().finite(),
            self.key_seq().len() == self.device_seq().len(),
            self.device_seq().len() == self.table().dom().len(),
            forall|i: int| #![trigger self.key_seq()[i]]
                0 <= i < self.device_seq().len() ==> self.table().contains_key(self.key_seq()[i])
                    && self.table()[self.key_seq()[i]] == self.device_seq()[i],
            forall|k: <Self::Ident as View>::V| #[trigger]
                self.table().contains_key(k) ==> self.key_seq().contains(k),
    ;
}

/// A registry whose devices carry their own identity, so that a whole list
/// can be imported without naming identities.
pub trait RegistryKnownType: Registry where Self::Device: HasIdentity<Self::Ident> {
    fn import_list(&mut self, devices: Vec<Self::Device>) -> (r: Result<
        (),
        Self::RegistryError,
    >)
        ensures
            r matches Ok(()),
            final(self).table() == insert_all(
                old(self).table(),
                devices@.map_values(|d: Self::Device| (d.ident_view(), d)),
            ),
    ;
}

impl<R: Registry> RegistryKnownType for R where R::Device: HasIdentity<R::Ident> {
    fn import_list(&mut self, devices: Vec<R::Device>) -> (r: Result<(), R::RegistryError>) {
        self.from_list(devices)
    }
}

/// Law: after `register`, `check` of that identity returns that device.
///
/// `after` is a registry as `register_device_with` leaves it, and `checked`
/// is an answer as `check` gives it on `after`; the answer is exactly the
/// registered device.
pub proof fn lemma_register_then_check<R: Registry>(
    before: R,
    after: R,
    ident: R::Ident,
    device: R::Device,
    checked: Option<&R::Device>,
)
    requires
        after.table() == before.table().insert(ident@, device),
        match checked {
            Some(d) => after.table().contains_key(ident@) && *d == after.table()[ident@],
            None => !after.table().contains_key(ident@),
        },
    ensures
        checked matches Some(d) && *d == device,
{
}

/// Law: after `unregister`, `check` of that identity returns nothing.
///
/// `after` is a registry as a successful `unregister_device` leaves it, and
/// `checked` is an answer as `check` gives it on `after`.
pub proof fn lemma_unregister_then_check<R: Registry>(
    before: R,
    after: R,
    ident: R::Ident,
    checked: Option<&R::Device>,
)
    requires
        after.table() == before.table().remove(ident@),
        match checked {
            Some(d) => after.table().contains_key(ident@) && *d == after.table()[ident@],
            None => !after.table().contains_key(ident@),
        },
    ensures
        checked matches None,
{
}

/// Law: re-registering the same identity retains only the most recent
/// device; registering `first` and then `second` under one identity leaves
/// the registry as if only `second` had been registered.
pub proof fn lemma_reregister_retains_latest<R: Registry>(
    r0: R,
    r1: R,
    r2: R,
    ident: R::Ident,
    first: R::Device,
    second: R::Device,
)
    requires
        r1.table() == r0.table().insert(ident@, first),
        r2.table() == r1.table().insert(ident@, second),
    ensures
        r2.table() == r0.table().insert(ident@, second),
{
    assert(r0.table().insert(ident@, first).insert(ident@, second) =~= r0.table().insert(
        ident@,
        second,
    ));
}

/// Law: `check` is idempotent between mutations; two answers meeting its
/// contract on one registry state and one identity are the same answer.
pub proof fn lemma_check_idempotent<R: Registry>(
    reg: &R,
    ident: &R::Ident,
    first: Option<&R::Device>,
    second: Option<&R::Device>,
)
    requires
        match first {
            Some(d) => reg.table().contains_key(ident@) && *d == reg.table()[ident@],
            None => !reg.table().contains_key(ident@),
        },
        match second {
            Some(d) => reg.table().contains_key(ident@) && *d == reg.table()[ident@],
            None => !reg.table().contains_key(ident@),
        },
    ensures
        first == second,
{
}

/// Law: `list` is idempotent between mutations; two snapshots meeting its
/// contract on one registry state list the same devices.
pub proof fn lemma_list_idempotent<R: Registry>(
    reg: &R,
    first: Seq<&R::Device>,
    second: Seq<&R::Device>,
)
    requires
        first.map_values(|d: &R::Device| *d) == reg.device_seq(),
        second.map_values(|d: &R::Device| *d) == reg.device_seq(),
    ensures
        first == second,
{
    assert(first =~= second) by {
        assert(first.map_values(|d: &R::Device| *d).len() == first.len());
        assert(second.map_values(|d: &R::Device| *d).len() == second.len());
        assert forall|i: int| 0 <= i < first.len() implies first[i] == second[i] by {
            assert(first.map_values(|d: &R::Device| *d)[i] == *first[i]);
            assert(second.map_values(|d: &R::Device| *d)[i] == *second[i]);
        }
    }
}

} // verus!
