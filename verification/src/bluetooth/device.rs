use vstd::prelude::*;

use crate::interfaces::services::HasIdentity;

verus! {

/// The registry identity of a Bluetooth device: its address.
pub type Address = String;

/// A device as a Bluetooth scan reports it: a display name, the address
/// that identifies it, and the signal-strength reference the scan matched
/// it against.
#[derive(Debug, Clone, PartialEq, Eq)]
pub struct BluetoothDevice {
    name: String,
    address: Address,
    rssi_reference: u64,
}

impl BluetoothDevice {
    /// The display name, as a mathematical value.
    pub closed spec fn spec_name(&self) -> Seq<char> {
        self.name@
    }

    /// The address, as a mathematical value.
    pub closed spec fn spec_address(&self) -> Seq<char> {
        self.address@
    }

    /// The signal-strength reference.
    pub closed spec fn spec_rssi_reference(&self) -> u64 {
        self.rssi_reference
    }

    pub fn new(name: String, address: Address, rssi_reference: u64) -> (r: Self)
        ensures
            r.spec_name() == name@,
            r.spec_address() == address@,
            r.spec_rssi_reference() == rssi_reference,
    {
        BluetoothDevice { name, address, rssi_reference }
    }

    /// The address this device is registered under.
    pub fn address(&self) -> (r: &Address)
        ensures
            r@ == self.spec_address(),
    {
        &self.address
    }
}

impl HasIdentity<Address> for BluetoothDevice {
    open spec fn ident_view(&self) -> Seq<char> {
        self.spec_address()
    }

    fn identity(&self) -> (i: Address) {
        self.address.clone()
    }
}

} // verus!
