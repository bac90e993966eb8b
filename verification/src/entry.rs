use vstd::prelude::*;
use crate::clock::time_since_epoch;

verus! {

/// A single credential in the vault.
#[derive(Debug)]
pub struct Entry {
    pub name: String,
    pub pass: String,
    pub desc: String,
    /// Milliseconds since the Unix epoch when the entry was made.
    pub when: u128,
}

impl Clone for Entry {
    fn clone(&self) -> (e: Self)
        ensures
            e == *self,
    {
        Entry { name: self.name.clone(), pass: self.pass.clone(), desc: self.desc.clone(), when: self.when }
    }
}

/// The milliseconds in `secs` seconds and `nanos` nanoseconds, whole milliseconds only.
pub open spec fn epoch_millis(secs: u64, nanos: u32) -> int {
    secs * 1000 + nanos / 1_000_000
}

/// The whole milliseconds in `secs` seconds and `nanos` nanoseconds.
pub fn millis_of(secs: u64, nanos: u32) -> (ms: u128)
    ensures
        ms == epoch_millis(secs, nanos),
{
    secs as u128 * 1000 + (nanos / 1_000_000) as u128
}

impl Entry {
    /// An entry made now, stamped with the milliseconds since the Unix epoch; `None` when the
    /// clock reads earlier than the epoch.
    pub fn new(name: String, pass: String, desc: String) -> (r: Option<Entry>)
        ensures
            r matches Some(e) ==> {
                &&& e.name == name
                &&& e.pass == pass
                &&& e.desc == desc
                &&& exists|secs: u64, nanos: u32| nanos < 1_000_000_000 && e.when == #[trigger] epoch_millis(secs, nanos)
            },
    {
        let reading = time_since_epoch();
        Entry::from_reading(name, pass, desc, reading)
    }

    /// An entry made at the clock reading `reading`, given as whole seconds and nanoseconds
    /// since the Unix epoch, and stamped with that reading's whole milliseconds; `None` when
    /// there is no reading.
    pub fn from_reading(name: String, pass: String, desc: String, reading: Option<(u64, u32)>) -> (r: Option<Entry>)
        ensures
            match reading {
                Some((secs, nanos)) => r matches Some(e) && e.name == name && e.pass == pass && e.desc == desc
                    && e.when == epoch_millis(secs, nanos),
                None => r is None,
            },
    {
        match reading {
            Some((secs, nanos)) => {
                let timestamp = millis_of(secs, nanos);
                Some(Entry::new_at(name, pass, desc, timestamp))
            },
            None => None,
        }
    }

    /// An entry made at `when` (milliseconds since the Unix epoch).
    pub fn new_at(name: String, pass: String, desc: String, when: u128) -> (e: Entry)
        ensures
            e == (Entry { name, pass, desc, when }),
    {
        Entry { name, pass, desc, when }
    }
}

} // verus!
