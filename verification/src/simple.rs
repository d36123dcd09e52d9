pub mod authenticator;
pub mod device;
pub mod locker;
