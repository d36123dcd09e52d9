use vstd::prelude::*;

use crate::interfaces::services::{DeviceIdentity, Registry as RegistryTrait, ServiceError};

verus! {

/// In-memory registry: owns a mapping from device identity to device.
/// Keys are unique; an identity is re-registered by overwriting.
pub struct Registry<Ident: DeviceIdentity, Device> {
    devices: Vec<(Ident, Device)>,
}

/// Error kind of the in-memory registry.
#[derive(Debug, PartialEq, Eq)]
pub enum RegistryError {
    /// The identity to unregister is not registered.
    NotFoundError,
    /// A bulk-load source handed over an entry that could not be read.
    Parse(String),
}

impl ServiceError for RegistryError {

}

/// The key of the entry at index `i`, as a mathematical value.
spec fn key_at<I: View, D>(s: Seq<(I, D)>, i: int) -> <I as View>::V {
    s[i].0@
}

/// No two entries share a key.
spec fn distinct_keys<I: View, D>(s: Seq<(I, D)>) -> bool {
    forall|i: int, j: int|
        0 <= i < j < s.len() ==> #[trigger] key_at(s, i) != #[trigger] key_at(s, j)
}

/// The mapping an association list stands for; a later entry for a key
/// overrides an earlier one.
spec fn assoc_table<I: View, D>(s: Seq<(I, D)>) -> Map<<I as View>::V, D>
    decreases s.len(),
{
    if s.len() == 0 {
        Map::empty()
    } else {
        assoc_table(s.drop_last()).insert(s.last().0@, s.last().1)
    }
}

proof fn lem_contains<I: View, D>(s: Seq<(I, D)>, k: <I as View>::V)
    ensures
        assoc_table(s).contains_key(k) <==> exists|i: int|
            0 <= i < s.len() && #[trigger] key_at(s, i) == k,
    decreases s.len(),
{
    if s.len() == 0 {
    } else {
        let sub = s.drop_last();
        lem_contains(sub, k);
        if s.last().0@ == k {
            assert(key_at(s, s.len() - 1) == k);
        } else {
            if assoc_table(s).contains_key(k) {
                let i = choose|i: int| 0 <= i < sub.len() && #[trigger] key_at(sub, i) == k;
                assert(key_at(s, i) == k);
            }
            if exists|i: int| 0 <= i < s.len() && #[trigger] key_at(s, i) == k {
                let i = choose|i: int| 0 <= i < s.len() && #[trigger] key_at(s, i) == k;
                assert(i < s.len() - 1);
                assert(key_at(sub, i) == k);
            }
        }
    }
}

proof fn lem_at<I: View, D>(s: Seq<(I, D)>, i: int)
    requires
        distinct_keys(s),
        0 <= i < s.len(),
    ensures
        assoc_table(s).contains_key(key_at(s, i)),
        assoc_table(s)[key_at(s, i)] == s[i].1,
    decreases s.len(),
{
    if i == s.len() - 1 {
    } else {
        let sub = s.drop_last();
        assert(distinct_keys(sub)) by {
            assert forall|a: int, b: int| 0 <= a < b < sub.len() implies #[trigger] key_at(sub, a)
                != #[trigger] key_at(sub, b) by {
                assert(key_at(s, a) != key_at(s, b));
            }
        }
        lem_at(sub, i);
        assert(key_at(sub, i) == key_at(s, i));
        assert(key_at(s, i) != key_at(s, s.len() - 1));
    }
}

proof fn lem_push<I: View, D>(s: Seq<(I, D)>, p: (I, D))
    ensures
        assoc_table(s.push(p)) == assoc_table(s).insert(p.0@, p.1),
{
    assert(s.push(p).drop_last() =~= s);
    assert(s.push(p).last() == p);
}

proof fn lem_remove<I: View, D>(s: Seq<(I, D)>, i: int)
    requires
        distinct_keys(s),
        0 <= i < s.len(),
    ensures
        assoc_table(s.remove(i)) == assoc_table(s).remove(key_at(s, i)),
    decreases s.len(),
{
    let k = key_at(s, i);
    let sub = s.drop_last();
    assert(distinct_keys(sub)) by {
        assert forall|a: int, b: int| 0 <= a < b < sub.len() implies #[trigger] key_at(sub, a)
            != #[trigger] key_at(sub, b) by {
            assert(key_at(s, a) != key_at(s, b));
        }
    }
    if i == s.len() - 1 {
        assert(s.remove(i) =~= sub);
        // no other entry holds k, so removing k from the sub-table changes nothing
        lem_contains(sub, k);
        assert forall|j: int| 0 <= j < sub.len() implies #[trigger] key_at(sub, j) != k by {
            assert(key_at(s, j) != key_at(s, i));
        }
        assert(!assoc_table(sub).contains_key(k));
        assert(assoc_table(sub) =~= assoc_table(sub).insert(k, s.last().1).remove(k));
    } else {
        lem_remove(sub, i);
        assert(s.remove(i).drop_last() =~= sub.remove(i));
        assert(s.remove(i).last() == s.last());
        assert(key_at(sub, i) == k);
        assert(key_at(s, s.len() - 1) != k);
        assert(assoc_table(s.remove(i)) == assoc_table(sub).remove(k).insert(
            s.last().0@,
            s.last().1,
        ));
        assert(assoc_table(sub).remove(k).insert(s.last().0@, s.last().1) =~= assoc_table(
            sub,
        ).insert(s.last().0@, s.last().1).remove(k));
    }
}

proof fn lem_dom<I: View, D>(s: Seq<(I, D)>)
    requires
        distinct_keys(s),
    ensures
        assoc_table(s).dom().finite(),
        assoc_table(s).dom().len() == s.len(),
    decreases s.len(),
{
    if s.len() == 0 {
    } else {
        let sub = s.drop_last();
        assert(distinct_keys(sub)) by {
            assert forall|a: int, b: int| 0 <= a < b < sub.len() implies #[trigger] key_at(sub, a)
                != #[trigger] key_at(sub, b) by {
                assert(key_at(s, a) != key_at(s, b));
            }
        }
        lem_dom(sub);
        lem_contains(sub, s.last().0@);
        assert forall|j: int| 0 <= j < sub.len() implies #[trigger] key_at(sub, j) != s.last().0@
            by {
            assert(key_at(s, j) != key_at(s, s.len() - 1));
        }
        assert(!assoc_table(sub).contains_key(s.last().0@));
        assert(assoc_table(s).dom() =~= assoc_table(sub).dom().insert(s.last().0@));
    }
}

impl<Ident: DeviceIdentity, Device> Registry<Ident, Device> {
    #[verifier::type_invariant]
    spec fn wf(self) -> bool {
        distinct_keys(self.devices@)
    }

    /// Creates an empty registry.
    pub fn new() -> (r: Self)
        ensures
            r.table() == Map::<<Ident as View>::V, Device>::empty(),
            r.device_seq() == Seq::<Device>::empty(),
    {
        let r = Registry { devices: Vec::new() };
        proof {
            assert(r.device_seq() =~= Seq::<Device>::empty());
        }
        r
    }

    /// The index holding the given identity, if any.
    fn find_index(&self, ident: &Ident) -> (r: Option<usize>)
        ensures
            match r {
                Some(i) => i < self.devices@.len() && key_at(self.devices@, i as int) == ident@,
                None => forall|j: int|
                    0 <= j < self.devices@.len() ==> #[trigger] key_at(self.devices@, j) != ident@,
            },
    {
        let mut i: usize = 0;
        while i < self.devices.len()
            invariant
                i <= self.devices@.len(),
                forall|j: int| 0 <= j < i ==> #[trigger] key_at(self.devices@, j) != ident@,
            decreases self.devices@.len() - i,
        {
            if self.devices[i].0.same_identity(ident) {
                return Some(i);
            }
            i = i + 1;
        }
        None
    }
}

impl<Ident: DeviceIdentity, Device> RegistryTrait for Registry<Ident, Device> {
    type Ident = Ident;

    type Device = Device;

    type RegistryError = RegistryError;

    closed spec fn table(&self) -> Map<<Ident as View>::V, Device> {
        assoc_table(self.devices@)
    }

    closed spec fn device_seq(&self) -> Seq<Device> {
        self.devices@.map_values(|p: (Ident, Device)| p.1)
    }

    closed spec fn key_seq(&self) -> Seq<<Ident as View>::V> {
        self.devices@.map_values(|p: (Ident, Device)| p.0@)
    }

    open spec fn not_found_error() -> RegistryError {
        RegistryError::NotFoundError
    }

    fn register_device_with(&mut self, ident: Ident, device: Device) -> (r: Result<
        (),
        RegistryError,
    >) {
        proof {
            use_type_invariant(&*self);
        }
        let ghost s0 = self.devices@;
        let found = self.find_index(&ident);
        let mut devices: Vec<(Ident, Device)> = Vec::new();
        core::mem::swap(&mut devices, &mut self.devices);
        if let Some(i) = found {
            let _replaced = devices.remove(i);
            proof {
                lem_remove(s0, i as int);
                assert(distinct_keys(devices@)) by {
                    assert forall|a: int, b: int|
                        0 <= a < b < devices@.len() implies #[trigger] key_at(devices@, a)
                        != #[trigger] key_at(devices@, b) by {
                        if b < i {
                            assert(key_at(s0, a) != key_at(s0, b));
                        } else if a < i {
                            assert(key_at(s0, a) != key_at(s0, b + 1));
                        } else {
                            assert(key_at(s0, a + 1) != key_at(s0, b + 1));
                        }
                    }
                }
                assert forall|j: int| 0 <= j < devices@.len() implies #[trigger] key_at(
                    devices@,
                    j,
                ) != ident@ by {
                    if j < i {
                        assert(key_at(s0, j) != key_at(s0, i as int));
                    } else {
                        assert(key_at(s0, j + 1) != key_at(s0, i as int));
                    }
                }
                assert(assoc_table(devices@) =~= assoc_table(s0).remove(ident@));
            }
        }
        let ghost rm = devices@;
        proof {
            lem_push(rm, (ident, device));
        }
        devices.push((ident, device));
        proof {
            assert(distinct_keys(devices@)) by {
                assert forall|a: int, b: int|
                    0 <= a < b < devices@.len() implies #[trigger] key_at(devices@, a)
                    != #[trigger] key_at(devices@, b) by {
                    assert(key_at(devices@, a) == key_at(rm, a));
                    if b < devices@.len() - 1 {
                        assert(key_at(devices@, b) == key_at(rm, b));
                    } else {
                        assert(key_at(devices@, b) == ident@);
                    }
                }
            }
        }
        core::mem::swap(&mut devices, &mut self.devices);
        proof {
            assert(self.table() =~= old(self).table().insert(ident@, device));
        }
        Ok(())
    }

    fn unregister_device(&mut self, ident: &Ident) -> (r: Result<(), RegistryError>) {
        proof {
            use_type_invariant(&*self);
        }
        let ghost s0 = self.devices@;
        proof {
            lem_contains(s0, ident@);
        }
        match self.find_index(ident) {
            Some(i) => {
                let mut devices: Vec<(Ident, Device)> = Vec::new();
                core::mem::swap(&mut devices, &mut self.devices);
                let _removed = devices.remove(i);
                proof {
                    lem_remove(s0, i as int);
                    assert(distinct_keys(devices@)) by {
                        assert forall|a: int, b: int|
                            0 <= a < b < devices@.len() implies #[trigger] key_at(devices@, a)
                            != #[trigger] key_at(devices@, b) by {
                            if b < i {
                                assert(key_at(s0, a) != key_at(s0, b));
                            } else if a < i {
                                assert(key_at(s0, a) != key_at(s0, b + 1));
                            } else {
                                assert(key_at(s0, a + 1) != key_at(s0, b + 1));
                            }
                        }
                    }
                }
                core::mem::swap(&mut devices, &mut self.devices);
                Ok(())
            },
            None => Err(RegistryError::NotFoundError),
        }
    }

    fn check(&self, ident: &Ident) -> (r: Option<&Device>) {
        proof {
            use_type_invariant(self);
            lem_contains(self.devices@, ident@);
        }
        match self.find_index(ident) {
            Some(i) => {
                proof {
                    lem_at(self.devices@, i as int);
                }
                Some(&self.devices[i].1)
            },
            None => None,
        }
    }

    fn list(&self) -> (r: Vec<&Device>) {
        let mut out: Vec<&Device> = Vec::new();
        let mut i: usize = 0;
        while i < self.devices.len()
            invariant
                i <= self.devices@.len(),
                out@.len() == i,
                forall|j: int| 0 <= j < i ==> #[trigger] out@[j] == &self.devices@[j].1,
            decreases self.devices@.len() - i,
        {
            out.push(&self.devices[i].1);
            i = i + 1;
        }
        proof {
            assert(out@.map_values(|d: &Device| *d) =~= self.device_seq());
            use_type_invariant(self);
            let s = self.devices@;
            lem_dom(s);
            assert forall|i: int| #![trigger self.key_seq()[i]]
                0 <= i < self.device_seq().len() implies self.table().contains_key(
                self.key_seq()[i],
            ) && self.table()[self.key_seq()[i]] == self.device_seq()[i] by {
                lem_at(s, i);
                assert(self.key_seq()[i] == key_at(s, i));
                assert(self.device_seq()[i] == s[i].1);
            }
            assert forall|k: <Ident as View>::V| #[trigger]
                self.table().contains_key(k) implies self.key_seq().contains(k) by {
                lem_contains(s, k);
                let i = choose|i: int| 0 <= i < s.len() && #[trigger] key_at(s, i) == k;
                assert(self.key_seq()[i] == k);
            }
        }
        out
    }
}

} // verus!
