//! Named property tables.
//!
//! Both the global object of a context and every script object carry a table
//! mapping property names to values. A table is a sequence of slots searched
//! front to back; setting a property inserts a new slot at the front, so the
//! newest binding of a name is the one that lookup sees.

use vstd::prelude::*;

verus! {

/// A script-visible property value: the null value, an integer, or a
/// reference to a script object in the owning context's heap.
#[derive(Debug, Clone, Copy, PartialEq, Eq, Structural)]
pub enum PropValue {
    /// The engine's null-equivalent value.
    Null,
    /// A numeric value.
    Int(i64),
    /// A reference to the script object with this heap index.
    Obj(usize),
}

/// Property attribute flags, as an engine records them for each property of
/// an object.
#[derive(Debug, Clone, Copy, PartialEq, Eq, Structural)]
pub struct PropAttributes {
    /// The property may be overwritten.
    pub writable: bool,
    /// The property shows up in enumeration.
    pub enumerable: bool,
    /// The property may be reconfigured or removed.
    pub configurable: bool,
}

impl PropAttributes {
    /// The flags a global built-in class is registered with: writable,
    /// non-enumerable, configurable.
    pub fn builtin() -> (r: PropAttributes)
        ensures
            r == (PropAttributes { writable: true, enumerable: false, configurable: true }),
    {
        PropAttributes { writable: true, enumerable: false, configurable: true }
    }

    /// The flags of a plain writable property: writable only.
    pub fn writable_only() -> (r: PropAttributes)
        ensures
            r == (PropAttributes { writable: true, enumerable: false, configurable: false }),
    {
        PropAttributes { writable: true, enumerable: false, configurable: false }
    }
}

/// One named property: its name, value, and attribute flags.
#[derive(Debug, Clone)]
pub struct PropSlot {
    /// The property name.
    pub name: String,
    /// The property value.
    pub value: PropValue,
    /// The property attribute flags.
    pub attrs: PropAttributes,
}

/// The first slot of `s` whose name reads `name`, if any.
pub open spec fn spec_lookup(s: Seq<PropSlot>, name: Seq<char>) -> Option<PropSlot>
    decreases s.len(),
{
    if s.len() == 0 {
        None
    } else if s[0].name@ == name {
        Some(s[0])
    } else {
        spec_lookup(s.drop_first(), name)
    }
}

/// The value of the first slot of `s` named `name`, if any.
pub open spec fn spec_lookup_value(s: Seq<PropSlot>, name: Seq<char>) -> Option<PropValue> {
    match spec_lookup(s, name) {
        Some(slot) => Some(slot.value),
        None => None,
    }
}

/// A table of named properties.
pub struct PropTable {
    /// The slots, searched front to back.
    pub slots: Vec<PropSlot>,
}

impl PropTable {
    /// An empty table.
    pub fn new() -> (r: PropTable)
        ensures
            r.slots@ == Seq::<PropSlot>::empty(),
    {
        PropTable { slots: Vec::new() }
    }

    /// Looks `name` up and returns the value bound to it, if any.
    pub fn get(&self, name: &String) -> (r: Option<PropValue>)
        ensures
            r == spec_lookup_value(self.slots@, name@),
    {
        let mut j: usize = 0;
        proof {
            assert(self.slots@.skip(0) =~= self.slots@);
        }
        loop
            invariant
                j <= self.slots@.len(),
                spec_lookup(self.slots@, name@) == spec_lookup(
                    self.slots@.skip(j as int),
                    name@,
                ),
            decreases self.slots@.len() - j,
        {
            if j == self.slots.len() {
                proof {
                    assert(self.slots@.skip(j as int).len() == 0);
                }
                return None;
            }
            proof {
                assert(self.slots@.skip(j as int)[0] == self.slots@[j as int]);
            }
            if self.slots[j].name == *name {
                return Some(self.slots[j].value);
            }
            proof {
                assert(self.slots@.skip(j as int).drop_first() =~= self.slots@.skip(
                    j as int + 1,
                ));
            }
            j = j + 1;
        }
    }

    /// Binds `name` to `value` with the given attributes. The new binding
    /// shadows any earlier one of the same name; every other name keeps its
    /// value.
    pub fn set(&mut self, name: String, value: PropValue, attrs: PropAttributes)
        ensures
            spec_lookup_value(final(self).slots@, name@) == Some(value),
            spec_lookup(final(self).slots@, name@) matches Some(slot) && slot.attrs == attrs,
            forall|other: Seq<char>|
                other != name@ ==> #[trigger] spec_lookup(final(self).slots@, other)
                    == spec_lookup(old(self).slots@, other),
            final(self).slots@.len() == old(self).slots@.len() + 1,
    {
        let slot = PropSlot { name, value, attrs };
        self.slots.insert(0, slot);
        proof {
            assert(self.slots@.drop_first() =~= old(self).slots@);
        }
    }
}

} // verus!
