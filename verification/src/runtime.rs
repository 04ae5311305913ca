//! The runtime value domain and the session heap: a monotonically
//! addressed arena of runtime values. Addresses are assigned from a
//! strictly increasing counter and are never reused or reclaimed.

use vstd::prelude::*;
use crate::error::DynamicError;
use crate::error::DynamicErrorV;
use crate::instr::Func;
use crate::numbers::Num;
use crate::numbers::NumV;

verus! {

/// The identifier of one value slot in the session's heap arena.
#[derive(Debug, Clone, Copy, Hash, PartialEq, Eq, Structural)]
pub struct HeapAddress(pub u64);

/// A value the execution engine and the heap operate on.
#[derive(Debug, PartialEq)]
pub enum RuntimeData {
    /// An indirection to a heap slot.
    Address(HeapAddress),
    /// A first-class function reference.
    Function(Func),
    /// An IEEE-754 double: bit pattern plus its fixed display text.
    Number(Num),
    String(String),
    Symbol(String),
    List(Vec<RuntimeData>),
    Tuple(Vec<RuntimeData>),
}

/// The mathematical value of a runtime value.
#[verifier::ext_equal]
pub enum DataV {
    Address(u64),
    Function(Func),
    Number(NumV),
    String(Seq<char>),
    Symbol(Seq<char>),
    List(Seq<DataV>),
    Tuple(Seq<DataV>),
}

/// The mathematical value of a runtime value.
pub open spec fn data_view(d: RuntimeData) -> DataV
    decreases d,
{
    match d {
        RuntimeData::Address(a) => DataV::Address(a.0),
        RuntimeData::Function(f) => DataV::Function(f),
        RuntimeData::Number(n) => DataV::Number(n@),
        RuntimeData::String(s) => DataV::String(s@),
        RuntimeData::Symbol(s) => DataV::Symbol(s@),
        RuntimeData::List(vs) => DataV::List(datas_view(vs@)),
        RuntimeData::Tuple(vs) => DataV::Tuple(datas_view(vs@)),
    }
}

/// The mathematical values of a sequence of runtime values, in order.
pub open spec fn datas_view(vs: Seq<RuntimeData>) -> Seq<DataV>
    decreases vs,
{
    if vs.len() == 0 {
        Seq::empty()
    } else {
        seq![data_view(vs[0])] + datas_view(vs.subrange(1, vs.len() as int))
    }
}

/// The view of a value sequence is its elementwise view.
pub proof fn lemma_datas_view(vs: Seq<RuntimeData>)
    ensures
        datas_view(vs).len() == vs.len(),
        forall|i: int| 0 <= i < vs.len() ==> datas_view(vs)[i] == data_view(vs[i]),
    decreases vs,
{
    if vs.len() > 0 {
        lemma_datas_view(vs.subrange(1, vs.len() as int));
    }
}

/// Appending one value appends its view.
pub proof fn lemma_datas_view_push(vs: Seq<RuntimeData>, v: RuntimeData)
    ensures
        datas_view(vs.push(v)) == datas_view(vs).push(data_view(v)),
{
    lemma_datas_view(vs.push(v));
    lemma_datas_view(vs);
    assert(datas_view(vs.push(v)) =~= datas_view(vs).push(data_view(v)));
}

/// Updating one value updates its view.
pub proof fn lemma_datas_view_update(vs: Seq<RuntimeData>, i: int, v: RuntimeData)
    requires
        0 <= i < vs.len(),
    ensures
        datas_view(vs.update(i, v)) == datas_view(vs).update(i, data_view(v)),
{
    lemma_datas_view(vs.update(i, v));
    lemma_datas_view(vs);
    assert(datas_view(vs.update(i, v)) =~= datas_view(vs).update(i, data_view(v)));
}

impl View for RuntimeData {
    type V = DataV;

    open spec fn view(&self) -> DataV {
        data_view(*self)
    }
}

impl RuntimeData {
    /// A copy with the same value.
    pub fn dup(&self) -> (r: RuntimeData)
        ensures
            r@ == self@,
        decreases *self,
    {
        match self {
            RuntimeData::Address(a) => RuntimeData::Address(*a),
            RuntimeData::Function(f) => RuntimeData::Function(*f),
            RuntimeData::Number(n) => RuntimeData::Number(n.dup()),
            RuntimeData::String(s) => RuntimeData::String(s.clone()),
            RuntimeData::Symbol(s) => RuntimeData::Symbol(s.clone()),
            RuntimeData::List(vs) => {
                let r = RuntimeData::List(dup_datas(vs));
                assert(r@ =~= self@);
                r
            },
            RuntimeData::Tuple(vs) => {
                let r = RuntimeData::Tuple(dup_datas(vs));
                assert(r@ =~= self@);
                r
            },
        }
    }
}

/// Copies every value of a vector, order and values kept.
fn dup_datas(vs: &Vec<RuntimeData>) -> (r: Vec<RuntimeData>)
    ensures
        datas_view(r@) == datas_view(vs@),
        r@.len() == vs@.len(),
    decreases vs@,
{
    let mut r: Vec<RuntimeData> = Vec::new();
    let mut i: usize = 0;
    while i < vs.len()
        invariant
            i <= vs.len(),
            r@.len() == i,
            forall|j: int| 0 <= j < i ==> data_view(#[trigger] r@[j]) == data_view(vs@[j]),
        decreases vs.len() - i,
    {
        r.push(vs[i].dup());
        i = i + 1;
    }
    proof {
        lemma_datas_view(r@);
        lemma_datas_view(vs@);
        assert(datas_view(r@) =~= datas_view(vs@));
    }
    r
}

/// The heap a sequence of insertions leaves behind: the values appended
/// in order.
pub open spec fn heap_after(h: Seq<DataV>, vs: Seq<DataV>) -> Seq<DataV> {
    h + vs
}

/// The address the k-th of a sequence of insertions returns: the heap's
/// length at that moment, as `insert_new` ensures.
pub open spec fn kth_address(h: Seq<DataV>, k: int) -> int {
    h.len() + k
}

/// Heap addresses are never reused within a session: the k-th of N
/// sequential insertions happens on the heap extended by the first k
/// values and returns that heap's length, so the N addresses handed out
/// are strictly increasing and pairwise distinct.
pub proof fn lemma_addresses_never_reused(h: Seq<DataV>, vs: Seq<DataV>, i: int, j: int)
    requires
        0 <= i < j < vs.len(),
    ensures
        kth_address(h, i) == heap_after(h, vs.subrange(0, i)).len(),
        kth_address(h, j) == heap_after(h, vs.subrange(0, j)).len(),
        kth_address(h, i) < kth_address(h, j),
{
}

/// The arena of runtime values. A slot's address is its position in the
/// arena; new addresses grow strictly, and no address is ever reclaimed.
pub struct Heap {
    slots: Vec<RuntimeData>,
}

impl View for Heap {
    type V = Seq<DataV>;

    closed spec fn view(&self) -> Seq<DataV> {
        datas_view(self.slots@)
    }
}

impl Heap {
    /// An empty heap; the first address assigned will be zero.
    pub fn new() -> (r: Heap)
        ensures
            r@ == Seq::<DataV>::empty(),
    {
        let r = Heap { slots: Vec::new() };
        proof {
            assert(r@ =~= Seq::<DataV>::empty());
        }
        r
    }

    /// How many addresses have been assigned; also the next fresh address.
    pub fn len(&self) -> (r: usize)
        ensures
            r == self@.len(),
    {
        proof {
            lemma_datas_view(self.slots@);
        }
        self.slots.len()
    }

    /// The value at an address, or nothing for an address never assigned.
    pub fn get(&self, address: HeapAddress) -> (r: Option<&RuntimeData>)
        ensures
            match r {
                Some(d) => address.0 < self@.len() && d@ == self@[address.0 as int],
                None => address.0 >= self@.len(),
            },
    {
        proof {
            lemma_datas_view(self.slots@);
        }
        if address.0 < self.slots.len() as u64 {
            Some(&self.slots[address.0 as usize])
        } else {
            None
        }
    }

    /// Stores a value at the next fresh address and returns that address.
    /// Every address handed out earlier is smaller than the new one, and
    /// no earlier slot changes.
    pub fn insert_new(&mut self, data: RuntimeData) -> (r: HeapAddress)
        ensures
            final(self)@ == old(self)@.push(data@),
            r.0 == old(self)@.len(),
    {
        proof {
            lemma_datas_view(self.slots@);
            lemma_datas_view_push(self.slots@, data);
        }
        let ret = HeapAddress(self.slots.len() as u64);
        self.slots.push(data);
        ret
    }

    /// Overwrites the slot at an already-assigned address; an address never
    /// assigned leaves the heap unchanged.
    pub fn insert(&mut self, address: HeapAddress, data: RuntimeData)
        ensures
            address.0 < old(self)@.len() ==> final(self)@ == old(self)@.update(
                address.0 as int,
                data@,
            ),
            address.0 >= old(self)@.len() ==> final(self)@ == old(self)@,
    {
        proof {
            lemma_datas_view(self.slots@);
            if address.0 < self.slots@.len() {
                lemma_datas_view_update(self.slots@, address.0 as int, data);
            }
        }
        if address.0 < self.slots.len() as u64 {
            self.slots.set(address.0 as usize, data);
        }
    }

    /// Appends a value to the list stored at an address. The slot must hold
    /// a list; a missing address or another shape is a dynamic error and
    /// leaves the heap unchanged.
    pub fn push_into_list(&mut self, address: HeapAddress, item: RuntimeData) -> (r: Result<
        (),
        DynamicError,
    >)
        ensures
            match r {
                Ok(()) => {
                    &&& address.0 < old(self)@.len()
                    &&& old(self)@[address.0 as int] is List
                    &&& final(self)@ == old(self)@.update(
                        address.0 as int,
                        DataV::List(old(self)@[address.0 as int]->List_0.push(item@)),
                    )
                },
                Err(e) => {
                    &&& final(self)@ == old(self)@
                    &&& if address.0 >= old(self)@.len() {
                        e@ == DynamicErrorV::CannotFindHeapAddress
                    } else {
                        !(old(self)@[address.0 as int] is List) && e@
                            == (DynamicErrorV::TypeMismatch {
                            expected: "RuntimeData::List"@,
                            observed: "?"@,
                        })
                    }
                },
            },
    {
        proof {
            lemma_datas_view(self.slots@);
        }
        if address.0 >= self.slots.len() as u64 {
            return Err(DynamicError::CannotFindHeapAddress);
        }
        let idx: usize = address.0 as usize;
        let ghost pre = self.slots@;
        self.slots.push(RuntimeData::Symbol(String::new()));
        let elem = self.slots.swap_remove(idx);
        match elem {
            RuntimeData::List(mut items) => {
                let ghost old_items = items@;
                items.push(item);
                self.slots.set(idx, RuntimeData::List(items));
                proof {
                    assert(self.slots@ =~= pre.update(
                        idx as int,
                        RuntimeData::List(items),
                    ));
                    lemma_datas_view_update(pre, idx as int, RuntimeData::List(items));
                    lemma_datas_view_push(old_items, item);
                    lemma_datas_view(pre);
                    assert(datas_view(self.slots@) =~= datas_view(pre).update(
                        address.0 as int,
                        DataV::List(datas_view(pre)[address.0 as int]->List_0.push(item@)),
                    ));
                }
                Ok(())
            },
            other => {
                self.slots.set(idx, other);
                proof {
                    assert(self.slots@ =~= pre);
                }
                Err(
                    DynamicError::TypeMismatch {
                        expected: "RuntimeData::List".to_owned(),
                        observed: "?".to_owned(),
                    },
                )
            },
        }
    }

    /// Appends a value to the tuple stored at an address. The slot must
    /// hold a tuple; a missing address or another shape is a dynamic error
    /// and leaves the heap unchanged.
    pub fn push_into_tuple(&mut self, address: HeapAddress, item: RuntimeData) -> (r: Result<
        (),
        DynamicError,
    >)
        ensures
            match r {
                Ok(()) => {
                    &&& address.0 < old(self)@.len()
                    &&& old(self)@[address.0 as int] is Tuple
                    &&& final(self)@ == old(self)@.update(
                        address.0 as int,
                        DataV::Tuple(old(self)@[address.0 as int]->Tuple_0.push(item@)),
                    )
                },
                Err(e) => {
                    &&& final(self)@ == old(self)@
                    &&& if address.0 >= old(self)@.len() {
                        e@ == DynamicErrorV::CannotFindHeapAddress
                    } else {
                        !(old(self)@[address.0 as int] is Tuple) && e@
                            == (DynamicErrorV::TypeMismatch {
                            expected: "RuntimeData::Tuple"@,
                            observed: "?"@,
                        })
                    }
                },
            },
    {
        proof {
            lemma_datas_view(self.slots@);
        }
        if address.0 >= self.slots.len() as u64 {
            return Err(DynamicError::CannotFindHeapAddress);
        }
        let idx: usize = address.0 as usize;
        let ghost pre = self.slots@;
        self.slots.push(RuntimeData::Symbol(String::new()));
        let elem = self.slots.swap_remove(idx);
        match elem {
            RuntimeData::Tuple(mut items) => {
                let ghost old_items = items@;
                items.push(item);
                self.slots.set(idx, RuntimeData::Tuple(items));
                proof {
                    assert(self.slots@ =~= pre.update(
                        idx as int,
                        RuntimeData::Tuple(items),
                    ));
                    lemma_datas_view_update(pre, idx as int, RuntimeData::Tuple(items));
                    lemma_datas_view_push(old_items, item);
                    lemma_datas_view(pre);
                    assert(datas_view(self.slots@) =~= datas_view(pre).update(
                        address.0 as int,
                        DataV::Tuple(datas_view(pre)[address.0 as int]->Tuple_0.push(item@)),
                    ));
                }
                Ok(())
            },
            other => {
                self.slots.set(idx, other);
                proof {
                    assert(self.slots@ =~= pre);
                }
                Err(
                    DynamicError::TypeMismatch {
                        expected: "RuntimeData::Tuple".to_owned(),
                        observed: "?".to_owned(),
                    },
                )
            },
        }
    }
}

} // verus!
