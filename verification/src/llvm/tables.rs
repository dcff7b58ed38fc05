//! Hash tables keyed by typed registers and by lists of numbers, kept in
//! `hashbrown` maps.
//!
//! The functions of [`Table`] and [`ListTable`] are not proved: each
//! contract repeats what `hashbrown` documents of the method that the
//! function calls. [`RegMap`] is proved on top of them.
use vstd::prelude::*;
use super::ir::Reg;

verus! {

/// A table from keys to numbers.
#[verifier::external_body]
pub struct Table {
    map: hashbrown::HashMap<(u32, u32), u64>,
}

/// What a table holds.
pub uninterp spec fn entries(t: Table) -> Map<(u32, u32), u64>;

/// The table that holds nothing.
pub open spec fn empty() -> Map<(u32, u32), u64> {
    Map::empty()
}

impl Table {
    /// `HashMap::new` makes an empty map.
    #[verifier::external_body]
    pub(crate) fn new() -> (r: Table)
        ensures
            entries(r) == empty(),
    {
        Table { map: hashbrown::HashMap::new() }
    }

    /// `HashMap::get` finds the value stored under a key, if there is one.
    #[verifier::external_body]
    pub(crate) fn get(&self, key: (u32, u32)) -> (r: Option<u64>)
        ensures
            r == (if entries(*self).contains_key(key) {
                Some(entries(*self)[key])
            } else {
                None
            }),
    {
        self.map.get(&key).copied()
    }

    /// `HashMap::insert` stores a value under a key, in place of the
    /// value that was there, which it returns.
    #[verifier::external_body]
    pub(crate) fn insert(&mut self, key: (u32, u32), value: u64) -> (r: Option<u64>)
        ensures
            entries(*final(self)) == entries(*old(self)).insert(key, value),
            r == (if entries(*old(self)).contains_key(key) {
                Some(entries(*old(self))[key])
            } else {
                None
            }),
    {
        self.map.insert(key, value)
    }
}

/// A table from lists of numbers to numbers.
#[verifier::external_body]
pub struct ListTable {
    map: hashbrown::HashMap<Vec<u32>, u64>,
}

/// What a table of lists holds.
pub uninterp spec fn list_entries(t: ListTable) -> Map<Seq<u32>, u64>;

/// The table of lists that holds nothing.
pub open spec fn no_lists() -> Map<Seq<u32>, u64> {
    Map::empty()
}

impl ListTable {
    /// `HashMap::new` makes an empty map.
    #[verifier::external_body]
    pub(crate) fn new() -> (r: ListTable)
        ensures
            list_entries(r) == no_lists(),
    {
        ListTable { map: hashbrown::HashMap::new() }
    }

    /// `HashMap::get` finds the value stored under a key, if there is one;
    /// two lists are one key where they hold the same numbers in the same
    /// order.
    #[verifier::external_body]
    pub(crate) fn get(&self, key: &Vec<u32>) -> (r: Option<u64>)
        ensures
            r == (if list_entries(*self).contains_key(key@) {
                Some(list_entries(*self)[key@])
            } else {
                None
            }),
    {
        self.map.get(key).copied()
    }

    /// `HashMap::insert` stores a value under a key, in place of the
    /// value that was there, which it returns.
    #[verifier::external_body]
    pub(crate) fn insert(&mut self, key: Vec<u32>, value: u64) -> (r: Option<u64>)
        ensures
            list_entries(*final(self)) == list_entries(*old(self)).insert(key@, value),
            r == (if list_entries(*old(self)).contains_key(key@) {
                Some(list_entries(*old(self))[key@])
            } else {
                None
            }),
    {
        self.map.insert(key, value)
    }
}

/// The key under which a register is kept: its number and the tag of its
/// type.
pub open spec fn key(r: Reg) -> (u32, u32) {
    (r.0, r.1.spec_tag())
}

/// Two registers with one key are the same register.
pub proof fn lemma_key(a: Reg, b: Reg)
    ensures
        key(a) == key(b) <==> a == b,
{
}

/// A table from typed registers to numbers.
pub struct RegMap {
    table: Table,
}

impl View for RegMap {
    type V = Map<Reg, u64>;

    closed spec fn view(&self) -> Map<Reg, u64> {
        Map::new(
            |r: Reg| entries(self.table).contains_key(key(r)),
            |r: Reg| entries(self.table)[key(r)],
        )
    }
}

impl RegMap {
    /// An empty table.
    pub fn new() -> (r: RegMap)
        ensures
            r@ == Map::<Reg, u64>::empty(),
    {
        let r = RegMap { table: Table::new() };
        assert(r@ =~= Map::<Reg, u64>::empty());
        r
    }

    /// The number kept for `reg`.
    pub fn get(&self, reg: Reg) -> (r: Option<u64>)
        ensures
            r == (if self@.contains_key(reg) {
                Some(self@[reg])
            } else {
                None
            }),
    {
        self.table.get((reg.0, reg.1.tag()))
    }

    /// Whether a number is kept for `reg`.
    pub fn contains(&self, reg: Reg) -> (r: bool)
        ensures
            r == self@.contains_key(reg),
    {
        self.table.get((reg.0, reg.1.tag())).is_some()
    }

    /// Keeps `value` for `reg`, and returns what was kept for it before.
    pub fn insert(&mut self, reg: Reg, value: u64) -> (r: Option<u64>)
        ensures
            final(self)@ == old(self)@.insert(reg, value),
            r == (if old(self)@.contains_key(reg) {
                Some(old(self)@[reg])
            } else {
                None
            }),
    {
        let r = self.table.insert((reg.0, reg.1.tag()), value);
        proof {
            assert forall|other: Reg| key(other) == key(reg) <==> other == reg by {
                lemma_key(other, reg);
            }
            assert(self@ =~= old(self)@.insert(reg, value));
        }
        r
    }
}

} // verus!
