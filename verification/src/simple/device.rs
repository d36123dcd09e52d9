use vstd::prelude::*;

use crate::interfaces::services::{DeviceIdentity, HasIdentity};

verus! {

/// A device identified by the plain text line that announces it; it serves
/// as its own registry identity.
#[derive(Debug, Clone, Hash, PartialEq, Eq)]
pub struct SimpleDevice(pub String);

impl View for SimpleDevice {
    type V = Seq<char>;

    open spec fn view(&self) -> Seq<char> {
        self.0@
    }
}

impl DeviceIdentity for SimpleDevice {
    fn same_identity(&self, other: &Self) -> (b: bool) {
        self.0 == other.0
    }
}

impl HasIdentity<SimpleDevice> for SimpleDevice {
    open spec fn ident_view(&self) -> Seq<char> {
        self.0@
    }

    fn identity(&self) -> (i: SimpleDevice) {
        SimpleDevice(self.0.clone())
    }
}

} // verus!
