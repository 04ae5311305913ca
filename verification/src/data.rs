//! The session state threaded through every evaluation: the persistent
//! name-to-address table, the function table, and the heap. All three are
//! append-only across successive top-level statements; a name, once
//! bound, is never rebound.

use vstd::prelude::*;
use crate::error::RuntimeError;
use crate::error::RuntimeErrorV;
use crate::instr::FunctionTable;
use crate::runtime::Heap;
use crate::runtime::HeapAddress;

verus! {

/// The names bound so far, as a map from name to heap address; a later
/// entry for a name would win, but entries are never overwritten.
pub open spec fn names_view(es: Seq<(Seq<char>, u64)>) -> Map<Seq<char>, u64>
    decreases es,
{
    if es.len() == 0 {
        Map::empty()
    } else {
        names_view(es.drop_last()).insert(es.last().0, es.last().1)
    }
}

/// A name is in the map exactly when some entry carries it.
pub proof fn lemma_names_view_contains(es: Seq<(Seq<char>, u64)>, name: Seq<char>)
    ensures
        names_view(es).contains_key(name) <==> exists|i: int|
            0 <= i < es.len() && es[i].0 == name,
    decreases es,
{
    if es.len() > 0 {
        lemma_names_view_contains(es.drop_last(), name);
        if es.last().0 == name {
            assert(es[es.len() - 1].0 == name);
        } else {
            if exists|i: int| 0 <= i < es.drop_last().len() && es.drop_last()[i].0 == name {
                let i = choose|i: int|
                    0 <= i < es.drop_last().len() && es.drop_last()[i].0 == name;
                assert(es[i].0 == name);
            }
            if exists|i: int| 0 <= i < es.len() && es[i].0 == name {
                let i = choose|i: int| 0 <= i < es.len() && es[i].0 == name;
                assert(es.drop_last()[i].0 == name);
            }
        }
    }
}

/// The value of a name is the one of its last entry.
pub proof fn lemma_names_view_at(es: Seq<(Seq<char>, u64)>, i: int)
    requires
        0 <= i < es.len(),
        forall|j: int| i < j < es.len() ==> es[j].0 != es[i].0,
    ensures
        names_view(es).contains_key(es[i].0),
        names_view(es)[es[i].0] == es[i].1,
    decreases es,
{
    if i == es.len() - 1 {
        lemma_names_view_contains(es, es[i].0);
    } else {
        lemma_names_view_at(es.drop_last(), i);
        assert(es.drop_last()[i] == es[i]);
        assert(es.last().0 != es[i].0);
    }
}

/// The persistent table mapping each bound name to the heap address its
/// value sits at. Append-only: rebinding a present name is an error.
pub struct NameTable {
    entries: Vec<(String, HeapAddress)>,
}

impl View for NameTable {
    type V = Map<Seq<char>, u64>;

    closed spec fn view(&self) -> Map<Seq<char>, u64> {
        names_view(
            Seq::new(self.entries@.len(), |i: int| (self.entries@[i].0@, self.entries@[i].1.0)),
        )
    }
}

impl NameTable {
    /// An empty table.
    pub fn new() -> (r: NameTable)
        ensures
            r@ == Map::<Seq<char>, u64>::empty(),
    {
        let r = NameTable { entries: Vec::new() };
        proof {
            assert(Seq::new(r.entries@.len(), |i: int| (r.entries@[i].0@, r.entries@[i].1.0))
                =~= Seq::<(Seq<char>, u64)>::empty());
            assert(r@ =~= Map::<Seq<char>, u64>::empty());
        }
        r
    }

    /// The address a name is bound to, or nothing for an unbound name.
    pub fn lookup(&self, name: &String) -> (r: Option<HeapAddress>)
        ensures
            match r {
                Some(a) => self@.contains_key(name@) && a.0 == self@[name@],
                None => !self@.contains_key(name@),
            },
    {
        let ghost es = Seq::new(
            self.entries@.len(),
            |i: int| (self.entries@[i].0@, self.entries@[i].1.0),
        );
        let mut i: usize = self.entries.len();
        while i > 0
            invariant
                i <= self.entries@.len(),
                es == Seq::new(
                    self.entries@.len(),
                    |j: int| (self.entries@[j].0@, self.entries@[j].1.0),
                ),
                forall|j: int| i <= j < es.len() ==> es[j].0 != name@,
            decreases i,
        {
            i = i - 1;
            if self.entries[i].0 == *name {
                proof {
                    lemma_names_view_at(es, i as int);
                }
                return Some(self.entries[i].1);
            }
        }
        proof {
            lemma_names_view_contains(es, name@);
        }
        None
    }

    /// Whether a name is bound.
    pub fn contains(&self, name: &String) -> (r: bool)
        ensures
            r == self@.contains_key(name@),
    {
        match self.lookup(name) {
            Some(_) => true,
            None => false,
        }
    }

    /// Binds a name to an address; a name already bound is an error and
    /// the table is unchanged.
    pub fn set(&mut self, name: String, address: HeapAddress) -> (r: Result<(), RuntimeError>)
        ensures
            match r {
                Ok(()) => !old(self)@.contains_key(name@) && final(self)@ == old(self)@.insert(
                    name@,
                    address.0,
                ),
                Err(e) => old(self)@.contains_key(name@) && final(self)@ == old(self)@ && e@
                    == RuntimeErrorV::CannotSetBoundVariable(name@),
            },
    {
        if self.contains(&name) {
            return Err(RuntimeError::CannotSetBoundVariable(name));
        }
        let ghost es = Seq::new(
            self.entries@.len(),
            |i: int| (self.entries@[i].0@, self.entries@[i].1.0),
        );
        self.entries.push((name, address));
        proof {
            let es2 = Seq::new(
                self.entries@.len(),
                |i: int| (self.entries@[i].0@, self.entries@[i].1.0),
            );
            assert(es2.drop_last() =~= es);
            assert(self@ =~= old(self)@.insert(es2.last().0, es2.last().1));
        }
        Ok(())
    }
}

/// The session: the name-to-address table, the function table, and the
/// heap, all persisting across top-level statements.
pub struct Context {
    pub address_map: NameTable,
    pub functions: FunctionTable,
    pub heap: Heap,
}

impl Context {
    /// A fresh session with nothing bound, no functions, and an empty
    /// heap.
    pub fn new() -> (r: Context)
        ensures
            r.address_map@ == Map::<Seq<char>, u64>::empty(),
            r.functions@.len() == 0,
            r.heap@.len() == 0,
    {
        Context { address_map: NameTable::new(), functions: FunctionTable::new(), heap: Heap::new() }
    }
}

} // verus!
