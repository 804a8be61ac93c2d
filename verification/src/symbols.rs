//! The assembler's symbol table: case-sensitive names bound to 16-bit
//! values, where a later binding of a name replaces an earlier one.

use vstd::prelude::*;

verus! {

/// One binding of the table.
pub struct Symbol {
    pub name: String,
    pub value: u16,
}

/// The bindings in the order they were made. Lookups read the latest
/// binding of a name.
pub struct SymbolTable {
    entries: Vec<Symbol>,
}

/// The map that a sequence of bindings stands for: later bindings win.
pub open spec fn bindings(entries: Seq<Symbol>) -> Map<Seq<char>, u16>
    decreases entries.len(),
{
    if entries.len() == 0 {
        Map::empty()
    } else {
        bindings(entries.drop_last()).insert(entries.last().name@, entries.last().value)
    }
}

/// What a lookup of `name` in the map `m` gives.
pub open spec fn lookup(m: Map<Seq<char>, u16>, name: Seq<char>) -> Option<u16> {
    if m.contains_key(name) {
        Some(m[name])
    } else {
        None
    }
}

impl View for SymbolTable {
    type V = Map<Seq<char>, u16>;

    closed spec fn view(&self) -> Map<Seq<char>, u16> {
        bindings(self.entries@)
    }
}

impl SymbolTable {
    /// An empty table.
    pub fn new() -> (t: SymbolTable)
        ensures
            t@ == Map::<Seq<char>, u16>::empty(),
    {
        SymbolTable { entries: Vec::new() }
    }

    /// Binds `name` to `value`, replacing any earlier binding.
    pub fn insert(&mut self, name: String, value: u16)
        ensures
            final(self)@ == old(self)@.insert(name@, value),
    {
        let ghost before = self.entries@;
        self.entries.push(Symbol { name, value });
        assert(self.entries@.drop_last() =~= before);
    }

    /// The value bound to `name`, if any.
    pub fn get(&self, name: &String) -> (r: Option<u16>)
        ensures
            r == lookup(self@, name@),
    {
        let mut i: usize = self.entries.len();
        assert(self.entries@.take(i as int) =~= self.entries@);
        while i > 0
            invariant
                i <= self.entries.len(),
                lookup(self@, name@) == lookup(bindings(self.entries@.take(i as int)), name@),
            decreases i,
        {
            let ghost prefix = self.entries@.take(i as int);
            assert(prefix.drop_last() =~= self.entries@.take(i - 1));
            assert(prefix.last() == self.entries@[i - 1]);
            if self.entries[i - 1].name == *name {
                return Some(self.entries[i - 1].value);
            }
            i -= 1;
        }
        None
    }
}

} // verus!
