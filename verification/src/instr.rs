//! The instruction vocabulary the compiler emits and the execution engine
//! honors: register loads, call-argument pops, returns, and a fixed set of
//! native hook kinds carrying plain operands (heap insertion, list/tuple
//! append, heap loads, and pattern-match-and-bind), dispatched by the
//! engine through a match.

use vstd::prelude::*;
use crate::ast::Pat;
use crate::ast::PatV;
use crate::ast::pat_view;
use crate::runtime::HeapAddress;
use crate::runtime::RuntimeData;
use crate::runtime::DataV;
use crate::runtime::data_view;

verus! {

/// A virtual register, scoped to one compiled instruction sequence.
#[derive(Debug, Clone, Copy, Hash, PartialEq, Eq, Structural)]
pub struct Symbol(pub usize);

impl DeepView for Symbol {
    type V = Symbol;

    open spec fn deep_view(&self) -> Symbol {
        *self
    }
}

/// The identifier of one compiled function's instruction sequence in the
/// function table.
#[derive(Debug, Clone, Copy, Hash, PartialEq, Eq, Structural)]
pub struct Func(pub usize);

/// What a register holds: a runtime value or a function reference.
#[derive(Debug, PartialEq)]
pub enum Data {
    Value(RuntimeData),
    Func(Func),
}

/// The mathematical value of a register's content.
#[verifier::ext_equal]
pub enum RegV {
    Value(DataV),
    Func(Func),
}

impl View for Data {
    type V = RegV;

    open spec fn view(&self) -> RegV {
        match self {
            Data::Value(v) => RegV::Value(v@),
            Data::Func(f) => RegV::Func(*f),
        }
    }
}

impl DeepView for Data {
    type V = RegV;

    open spec fn deep_view(&self) -> RegV {
        self@
    }
}

impl Data {
    /// A copy with the same value.
    pub fn dup(&self) -> (r: Data)
        ensures
            r@ == self@,
    {
        match self {
            Data::Value(v) => Data::Value(v.dup()),
            Data::Func(f) => Data::Func(*f),
        }
    }
}

/// One instruction over symbolic registers.
#[derive(Debug)]
pub enum Instr {
    /// Load an immediate value into a register.
    LoadValue(Symbol, RuntimeData),
    /// Load a function reference into a register.
    LoadFunc(Symbol, Func),
    /// Pop the next call argument into a register.
    PopParam(Symbol),
    /// Return a register's content as the call's result.
    Return(Symbol),
    /// Hook: load the value at a heap address into a register; a stored
    /// function value loads as a function reference.
    LoadFromHeap(HeapAddress, Symbol),
    /// Hook: insert the first register's value into the heap at a fresh
    /// address and store that address into the second register.
    InsertIntoHeap(Symbol, Symbol),
    /// Hook: append the first register's value to the heap list whose
    /// address is held by the second register.
    PushIntoListInHeap(Symbol, Symbol),
    /// Hook: append the first register's value to the heap tuple whose
    /// address is held by the second register.
    PushIntoTupleInHeap(Symbol, Symbol),
    /// Hook: resolve the `data` register's value through the heap, match it
    /// against the pattern, and on success store each captured name's value
    /// at a fresh heap address, writing that address into the register the
    /// name maps to; store the symbol value `true` or `false` into `result`.
    PatternMatch { data: Symbol, pattern: Pat, result: Symbol, var_to_sym: Vec<(String, Symbol)> },
    /// Hook: abort the call with a panic unless the register holds the
    /// symbol value `true`.
    PanicOnFalse(Symbol, String),
}

/// The mathematical value of one instruction.
#[verifier::ext_equal]
pub enum InstrV {
    LoadValue(Symbol, DataV),
    LoadFunc(Symbol, Func),
    PopParam(Symbol),
    Return(Symbol),
    LoadFromHeap(HeapAddress, Symbol),
    InsertIntoHeap(Symbol, Symbol),
    PushIntoListInHeap(Symbol, Symbol),
    PushIntoTupleInHeap(Symbol, Symbol),
    PatternMatch { data: Symbol, pattern: PatV, result: Symbol, var_to_sym: Seq<(Seq<char>, Symbol)> },
    PanicOnFalse(Symbol, Seq<char>),
}

/// The mathematical value of one instruction.
pub open spec fn instr_view(i: Instr) -> InstrV {
    match i {
        Instr::LoadValue(s, v) => InstrV::LoadValue(s, data_view(v)),
        Instr::LoadFunc(s, f) => InstrV::LoadFunc(s, f),
        Instr::PopParam(s) => InstrV::PopParam(s),
        Instr::Return(s) => InstrV::Return(s),
        Instr::LoadFromHeap(a, s) => InstrV::LoadFromHeap(a, s),
        Instr::InsertIntoHeap(s, t) => InstrV::InsertIntoHeap(s, t),
        Instr::PushIntoListInHeap(s, t) => InstrV::PushIntoListInHeap(s, t),
        Instr::PushIntoTupleInHeap(s, t) => InstrV::PushIntoTupleInHeap(s, t),
        Instr::PatternMatch { data, pattern, result, var_to_sym } => InstrV::PatternMatch {
            data,
            pattern: pat_view(pattern),
            result,
            var_to_sym: var_to_sym.deep_view(),
        },
        Instr::PanicOnFalse(s, msg) => InstrV::PanicOnFalse(s, msg@),
    }
}

/// The mathematical values of an instruction sequence, in order.
pub open spec fn instrs_view(is: Seq<Instr>) -> Seq<InstrV>
    decreases is,
{
    if is.len() == 0 {
        Seq::empty()
    } else {
        seq![instr_view(is[0])] + instrs_view(is.subrange(1, is.len() as int))
    }
}

/// The view of an instruction sequence is its elementwise view.
pub proof fn lemma_instrs_view(is: Seq<Instr>)
    ensures
        instrs_view(is).len() == is.len(),
        forall|i: int| 0 <= i < is.len() ==> instrs_view(is)[i] == instr_view(is[i]),
    decreases is,
{
    if is.len() > 0 {
        lemma_instrs_view(is.subrange(1, is.len() as int));
    }
}

/// Appending one instruction appends its view.
pub proof fn lemma_instrs_view_push(is: Seq<Instr>, i: Instr)
    ensures
        instrs_view(is.push(i)) == instrs_view(is).push(instr_view(i)),
    decreases is,
{
    lemma_instrs_view(is.push(i));
    lemma_instrs_view(is);
    assert(instrs_view(is.push(i)) =~= instrs_view(is).push(instr_view(i)));
}

/// Concatenating instruction sequences concatenates their views.
pub proof fn lemma_instrs_view_add(a: Seq<Instr>, b: Seq<Instr>)
    ensures
        instrs_view(a + b) == instrs_view(a) + instrs_view(b),
{
    lemma_instrs_view(a + b);
    lemma_instrs_view(a);
    lemma_instrs_view(b);
    assert(instrs_view(a + b) =~= instrs_view(a) + instrs_view(b));
}

impl View for Instr {
    type V = InstrV;

    open spec fn view(&self) -> InstrV {
        instr_view(*self)
    }
}

/// The views of a table's function bodies, in order.
pub open spec fn table_view(ts: Seq<Vec<Instr>>) -> Seq<Seq<InstrV>>
    decreases ts,
{
    if ts.len() == 0 {
        Seq::empty()
    } else {
        seq![instrs_view(ts[0]@)] + table_view(ts.subrange(1, ts.len() as int))
    }
}

/// The view of a table is its elementwise view.
pub proof fn lemma_table_view(ts: Seq<Vec<Instr>>)
    ensures
        table_view(ts).len() == ts.len(),
        forall|i: int| 0 <= i < ts.len() ==> table_view(ts)[i] == instrs_view(ts[i]@),
    decreases ts,
{
    if ts.len() > 0 {
        lemma_table_view(ts.subrange(1, ts.len() as int));
    }
}

/// That many empty instruction sequences.
pub open spec fn empty_bodies(n: int) -> Seq<Seq<InstrV>>
    decreases n,
{
    if n <= 0 {
        Seq::empty()
    } else {
        empty_bodies(n - 1).push(Seq::empty())
    }
}

/// What inserting a body at a function id does to a table: an id already
/// present is overwritten; an id past the end extends the table, any gap
/// filled with empty bodies.
pub open spec fn table_insert(t: Seq<Seq<InstrV>>, f: int, body: Seq<InstrV>) -> Seq<Seq<InstrV>> {
    if f < t.len() {
        t.update(f, body)
    } else {
        t + empty_bodies(f - t.len()) + seq![body]
    }
}

/// The length of a padding sequence is its count.
pub proof fn lemma_empty_bodies_len(n: int)
    ensures
        n >= 0 ==> empty_bodies(n).len() == n,
        n <= 0 ==> empty_bodies(n).len() == 0,
    decreases n,
{
    if n > 0 {
        lemma_empty_bodies_len(n - 1);
    }
}

/// The table of compiled functions: one instruction sequence per function
/// id, the id being the position. The distinguished entry function has id
/// zero.
pub struct FunctionTable {
    bodies: Vec<Vec<Instr>>,
}

impl View for FunctionTable {
    type V = Seq<Seq<InstrV>>;

    closed spec fn view(&self) -> Seq<Seq<InstrV>> {
        table_view(self.bodies@)
    }
}

impl FunctionTable {
    /// An empty table.
    pub fn new() -> (r: FunctionTable)
        ensures
            r@ == Seq::<Seq<InstrV>>::empty(),
    {
        let r = FunctionTable { bodies: Vec::new() };
        proof {
            assert(r@ =~= Seq::<Seq<InstrV>>::empty());
        }
        r
    }

    /// How many function ids are present.
    pub fn len(&self) -> (r: usize)
        ensures
            r == self@.len(),
    {
        proof {
            lemma_table_view(self.bodies@);
        }
        self.bodies.len()
    }

    /// The largest function id present, or zero for an empty table; fresh
    /// ids are allocated above it.
    pub fn max_func(&self) -> (r: usize)
        ensures
            self@.len() == 0 ==> r == 0,
            self@.len() > 0 ==> r == self@.len() - 1,
    {
        proof {
            lemma_table_view(self.bodies@);
        }
        if self.bodies.len() == 0 {
            0
        } else {
            self.bodies.len() - 1
        }
    }

    /// The body of a function id, or nothing for an id never inserted.
    pub fn get(&self, f: Func) -> (r: Option<&Vec<Instr>>)
        ensures
            match r {
                Some(body) => f.0 < self@.len() && instrs_view(body@) == self@[f.0 as int],
                None => f.0 >= self@.len(),
            },
    {
        proof {
            lemma_table_view(self.bodies@);
        }
        if f.0 < self.bodies.len() {
            Some(&self.bodies[f.0])
        } else {
            None
        }
    }

    /// Stores a body under a function id; an id past the end extends the
    /// table, any gap filled with empty bodies.
    pub fn insert(&mut self, f: Func, body: Vec<Instr>)
        ensures
            final(self)@ == table_insert(old(self)@, f.0 as int, instrs_view(body@)),
    {
        proof {
            lemma_table_view(self.bodies@);
        }
        let ghost t0 = self@;
        if f.0 < self.bodies.len() {
            self.bodies.set(f.0, body);
            proof {
                lemma_table_view(self.bodies@);
                assert(self@ =~= t0.update(f.0 as int, instrs_view(body@)));
            }
        } else {
            proof {
                assert(table_view(self.bodies@) =~= t0 + empty_bodies(
                    self.bodies@.len() - t0.len(),
                ));
            }
            while self.bodies.len() < f.0
                invariant
                    old(self)@.len() <= self.bodies@.len() <= f.0,
                    t0.len() == old(self)@.len(),
                    table_view(self.bodies@) == t0 + empty_bodies(self.bodies@.len() - t0.len()),
                decreases f.0 - self.bodies.len(),
            {
                let ghost pre = self.bodies@;
                self.bodies.push(Vec::new());
                proof {
                    lemma_table_view(pre);
                    lemma_table_view(self.bodies@);
                    assert(instrs_view(Seq::<Instr>::empty()) == Seq::<InstrV>::empty());
                    assert(table_view(self.bodies@) =~= table_view(pre).push(
                        Seq::<InstrV>::empty(),
                    ));
                    assert(table_view(self.bodies@) =~= t0 + empty_bodies(
                        self.bodies@.len() - t0.len(),
                    ));
                }
            }
            let ghost pre = self.bodies@;
            self.bodies.push(body);
            proof {
                lemma_table_view(pre);
                lemma_table_view(self.bodies@);
                assert(table_view(self.bodies@) =~= table_view(pre).push(instrs_view(body@)));
                assert(self@ =~= table_insert(t0, f.0 as int, instrs_view(body@)));
            }
        }
    }
}

/// The instruction that resolves `data`'s value through the heap, matches
/// it against `pattern`, binds each captured name's value at a fresh heap
/// address into the register `var_to_sym` maps the name to, and stores the
/// symbol value `true` or `false` into `result`.
pub fn pattern_match(
    data: Symbol,
    pattern: Pat,
    result: Symbol,
    var_to_sym: Vec<(String, Symbol)>,
) -> (r: Instr)
    ensures
        r@ == (InstrV::PatternMatch {
            data,
            pattern: pat_view(pattern),
            result,
            var_to_sym: var_to_sym.deep_view(),
        }),
{
    Instr::PatternMatch { data, pattern, result, var_to_sym }
}

/// The instruction that aborts the call with a panic unless `result` holds
/// the symbol value `true`.
pub fn panic_on_false(result: Symbol, message: String) -> (r: Instr)
    ensures
        r@ == InstrV::PanicOnFalse(result, message@),
{
    Instr::PanicOnFalse(result, message)
}

/// The instruction that loads the value at a heap address into a register.
pub fn load_from_heap(address: HeapAddress, sym: Symbol) -> (r: Instr)
    ensures
        r@ == InstrV::LoadFromHeap(address, sym),
{
    Instr::LoadFromHeap(address, sym)
}

/// The instruction that inserts a register's value into the heap at a
/// fresh address, storing that address into a register.
pub fn insert_into_heap(symbol_to_insert: Symbol, return_symbol_for_address: Symbol) -> (r: Instr)
    ensures
        r@ == InstrV::InsertIntoHeap(symbol_to_insert, return_symbol_for_address),
{
    Instr::InsertIntoHeap(symbol_to_insert, return_symbol_for_address)
}

/// The instruction that appends a register's value to the heap tuple whose
/// address another register holds.
pub fn push_into_tuple_in_heap(item: Symbol, tuple_address: Symbol) -> (r: Instr)
    ensures
        r@ == InstrV::PushIntoTupleInHeap(item, tuple_address),
{
    Instr::PushIntoTupleInHeap(item, tuple_address)
}

/// The instruction that appends a register's value to the heap list whose
/// address another register holds.
pub fn push_into_list_in_heap(item: Symbol, list_address: Symbol) -> (r: Instr)
    ensures
        r@ == InstrV::PushIntoListInHeap(item, list_address),
{
    Instr::PushIntoListInHeap(item, list_address)
}

} // verus!
