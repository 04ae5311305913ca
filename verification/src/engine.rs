//! The execution engine: runs the entry function's instruction sequence
//! against a fresh register file and the session heap, dispatching each
//! instruction kind — register loads, call-argument pops, returns, and
//! the native hooks — through a match, and propagating any error a hook
//! raises.

use vstd::prelude::*;
use crate::error::DynamicError;
use crate::error::DynamicErrorV;
use crate::error::EvalError;
use crate::error::EvalErrorV;
use crate::instr::Data;
use crate::instr::Func;
use crate::instr::FunctionTable;
use crate::instr::Instr;
use crate::instr::InstrV;
use crate::instr::RegV;
use crate::instr::Symbol;
use crate::instr::instrs_view;
use crate::instr::lemma_instrs_view;
use crate::pattern_matcher::MatchResult;
use crate::pattern_matcher::MatchResultV;
use crate::pattern_matcher::pattern_match;
use crate::pattern_matcher::pm;
use crate::runtime::DataV;
use crate::runtime::Heap;
use crate::runtime::HeapAddress;
use crate::runtime::RuntimeData;

verus! {

/// The register file ("locals") of one call.
pub struct Locals {
    regs: Vec<Option<Data>>,
}

impl View for Locals {
    type V = Map<Symbol, RegV>;

    closed spec fn view(&self) -> Map<Symbol, RegV> {
        Map::new(
            |s: Symbol| s.0 < self.regs@.len() && self.regs@[s.0 as int] is Some,
            |s: Symbol| self.regs@[s.0 as int]->0@,
        )
    }
}

impl Locals {
    /// A register file with nothing written.
    pub fn new() -> (r: Locals)
        ensures
            r@ == Map::<Symbol, RegV>::empty(),
    {
        let r = Locals { regs: Vec::new() };
        proof {
            assert(r@ =~= Map::<Symbol, RegV>::empty());
        }
        r
    }

    /// The content of a register, or nothing if it was never written.
    pub fn get(&self, s: Symbol) -> (r: Option<&Data>)
        ensures
            match r {
                Some(d) => self@.contains_key(s) && d@ == self@[s],
                None => !self@.contains_key(s),
            },
    {
        if s.0 < self.regs.len() {
            match &self.regs[s.0] {
                Some(d) => Some(d),
                None => None,
            }
        } else {
            None
        }
    }

    /// Writes a register.
    pub fn set(&mut self, s: Symbol, d: Data)
        ensures
            final(self)@ == old(self)@.insert(s, d@),
    {
        let ghost m0 = self@;
        while self.regs.len() <= s.0
            invariant
                self@ == m0,
            decreases s.0 + 1 - self.regs.len(),
        {
            let ghost pre = self.regs@;
            self.regs.push(None);
            proof {
                assert(self@ =~= m0);
            }
        }
        self.regs.set(s.0, Some(d));
        proof {
            assert(self@ =~= m0.insert(s, d@));
        }
    }
}

/// The outcome of running an instruction sequence: a produced result (or
/// none) or an error, together with the heap as it stands after.
#[verifier::ext_equal]
pub enum RunOutcome {
    Done(Option<RegV>, Seq<DataV>),
    Failed(EvalErrorV, Seq<DataV>),
}

/// Resolves a register's content for pattern matching: a function
/// reference becomes a function value, and a heap address loads its
/// pointee.
pub open spec fn resolve_for_match(reg: RegV, heap: Seq<DataV>) -> Result<DataV, DynamicErrorV> {
    match reg {
        RegV::Func(f) => Ok(DataV::Function(f)),
        RegV::Value(DataV::Address(a)) => if a < heap.len() {
            Ok(heap[a as int])
        } else {
            Err(DynamicErrorV::CannotFindHeapAddress)
        },
        RegV::Value(v) => Ok(v),
    }
}

/// The register a name maps to, if any.
pub open spec fn sym_for(var_to_sym: Seq<(Seq<char>, Symbol)>, name: Seq<char>) -> Option<Symbol>
    decreases var_to_sym,
{
    if var_to_sym.len() == 0 {
        None
    } else if var_to_sym[0].0 == name {
        Some(var_to_sym[0].1)
    } else {
        sym_for(var_to_sym.subrange(1, var_to_sym.len() as int), name)
    }
}

/// Binds matched names in order: each captured value is stored at a fresh
/// heap address, and that address is written into the register its name
/// maps to. A name that maps to no register is a dynamic error; the heap
/// as grown so far is kept.
pub open spec fn bind_env(
    env: Seq<(Seq<char>, DataV)>,
    var_to_sym: Seq<(Seq<char>, Symbol)>,
    locals: Map<Symbol, RegV>,
    heap: Seq<DataV>,
) -> Result<(Map<Symbol, RegV>, Seq<DataV>), (DynamicErrorV, Seq<DataV>)>
    decreases env,
{
    if env.len() == 0 {
        Ok((locals, heap))
    } else {
        match sym_for(var_to_sym, env[0].0) {
            None => Err((DynamicErrorV::CannotFindLocal, heap)),
            Some(sym) => bind_env(
                env.subrange(1, env.len() as int),
                var_to_sym,
                locals.insert(sym, RegV::Value(DataV::Address(heap.len() as u64))),
                heap.push(env[0].1),
            ),
        }
    }
}

/// What running an instruction sequence yields, given the registers, the
/// remaining call arguments and the heap: each instruction either carries
/// the state forward, stops with the produced result, or stops with an
/// error. A sequence that ends without a return produces no result.
pub open spec fn step_instrs(
    code: Seq<InstrV>,
    locals: Map<Symbol, RegV>,
    params: Seq<RegV>,
    heap: Seq<DataV>,
) -> RunOutcome
    decreases code.len(),
{
    if code.len() == 0 {
        RunOutcome::Done(None, heap)
    } else {
        let rest = code.subrange(1, code.len() as int);
        match code[0] {
            InstrV::LoadValue(s, v) => step_instrs(
                rest,
                locals.insert(s, RegV::Value(v)),
                params,
                heap,
            ),
            InstrV::LoadFunc(s, f) => step_instrs(rest, locals.insert(s, RegV::Func(f)), params, heap),
            InstrV::PopParam(s) => if params.len() == 0 {
                RunOutcome::Failed(
                    EvalErrorV::Dynamic(DynamicErrorV::Panic("missing call argument"@)),
                    heap,
                )
            } else {
                step_instrs(
                    rest,
                    locals.insert(s, params[0]),
                    params.subrange(1, params.len() as int),
                    heap,
                )
            },
            InstrV::Return(s) => if locals.contains_key(s) {
                RunOutcome::Done(Some(locals[s]), heap)
            } else {
                RunOutcome::Failed(EvalErrorV::Dynamic(DynamicErrorV::CannotFindLocal), heap)
            },
            InstrV::LoadFromHeap(a, s) => if a.0 < heap.len() {
                let reg = match heap[a.0 as int] {
                    DataV::Function(f) => RegV::Func(f),
                    v => RegV::Value(v),
                };
                step_instrs(rest, locals.insert(s, reg), params, heap)
            } else {
                RunOutcome::Failed(EvalErrorV::Dynamic(DynamicErrorV::CannotFindHeapAddress), heap)
            },
            InstrV::InsertIntoHeap(src, dst) => if !locals.contains_key(src) {
                RunOutcome::Failed(EvalErrorV::Dynamic(DynamicErrorV::CannotFindLocal), heap)
            } else {
                let v = match locals[src] {
                    RegV::Value(v) => v,
                    RegV::Func(f) => DataV::Function(f),
                };
                step_instrs(
                    rest,
                    locals.insert(dst, RegV::Value(DataV::Address(heap.len() as u64))),
                    params,
                    heap.push(v),
                )
            },
            InstrV::PushIntoListInHeap(item, addr) => if !locals.contains_key(item) {
                RunOutcome::Failed(EvalErrorV::Dynamic(DynamicErrorV::CannotFindLocal), heap)
            } else if locals[item] is Func {
                RunOutcome::Failed(
                    EvalErrorV::Dynamic(
                        DynamicErrorV::TypeMismatch {
                            expected: "Data::Value"@,
                            observed: "Data::Func"@,
                        },
                    ),
                    heap,
                )
            } else if !locals.contains_key(addr) {
                RunOutcome::Failed(EvalErrorV::Dynamic(DynamicErrorV::CannotFindLocal), heap)
            } else {
                match locals[addr] {
                    RegV::Value(DataV::Address(a)) => if a >= heap.len() {
                        RunOutcome::Failed(
                            EvalErrorV::Dynamic(DynamicErrorV::CannotFindHeapAddress),
                            heap,
                        )
                    } else {
                        match heap[a as int] {
                            DataV::List(items) => step_instrs(
                                rest,
                                locals,
                                params,
                                heap.update(
                                    a as int,
                                    DataV::List(items.push(locals[item]->Value_0)),
                                ),
                            ),
                            _ => RunOutcome::Failed(
                                EvalErrorV::Dynamic(
                                    DynamicErrorV::TypeMismatch {
                                        expected: "RuntimeData::List"@,
                                        observed: "?"@,
                                    },
                                ),
                                heap,
                            ),
                        }
                    },
                    RegV::Value(_) => RunOutcome::Failed(
                        EvalErrorV::Dynamic(
                            DynamicErrorV::TypeMismatch {
                                expected: "Data::Value(RuntimeData::Address"@,
                                observed: "Data::Value(?)"@,
                            },
                        ),
                        heap,
                    ),
                    RegV::Func(_) => RunOutcome::Failed(
                        EvalErrorV::Dynamic(
                            DynamicErrorV::TypeMismatch {
                                expected: "Data::Value(RuntimeData::Address)"@,
                                observed: "Data::Func"@,
                            },
                        ),
                        heap,
                    ),
                }
            },
            InstrV::PushIntoTupleInHeap(item, addr) => if !locals.contains_key(item) {
                RunOutcome::Failed(EvalErrorV::Dynamic(DynamicErrorV::CannotFindLocal), heap)
            } else if locals[item] is Func {
                RunOutcome::Failed(
                    EvalErrorV::Dynamic(
                        DynamicErrorV::TypeMismatch {
                            expected: "Data::Value"@,
                            observed: "Data::Func"@,
                        },
                    ),
                    heap,
                )
            } else if !locals.contains_key(addr) {
                RunOutcome::Failed(EvalErrorV::Dynamic(DynamicErrorV::CannotFindLocal), heap)
            } else {
                match locals[addr] {
                    RegV::Value(DataV::Address(a)) => if a >= heap.len() {
                        RunOutcome::Failed(
                            EvalErrorV::Dynamic(DynamicErrorV::CannotFindHeapAddress),
                            heap,
                        )
                    } else {
                        match heap[a as int] {
                            DataV::Tuple(items) => step_instrs(
                                rest,
                                locals,
                                params,
                                heap.update(
                                    a as int,
                                    DataV::Tuple(items.push(locals[item]->Value_0)),
                                ),
                            ),
                            _ => RunOutcome::Failed(
                                EvalErrorV::Dynamic(
                                    DynamicErrorV::TypeMismatch {
                                        expected: "RuntimeData::Tuple"@,
                                        observed: "?"@,
                                    },
                                ),
                                heap,
                            ),
                        }
                    },
                    RegV::Value(_) => RunOutcome::Failed(
                        EvalErrorV::Dynamic(
                            DynamicErrorV::TypeMismatch {
                                expected: "Data::Value(RuntimeData::Address"@,
                                observed: "Data::Value(?)"@,
                            },
                        ),
                        heap,
                    ),
                    RegV::Func(_) => RunOutcome::Failed(
                        EvalErrorV::Dynamic(
                            DynamicErrorV::TypeMismatch {
                                expected: "Data::Value(RuntimeData::Address)"@,
                                observed: "Data::Func"@,
                            },
                        ),
                        heap,
                    ),
                }
            },
            InstrV::PatternMatch { data, pattern, result, var_to_sym } => if !locals.contains_key(
                data,
            ) {
                RunOutcome::Failed(EvalErrorV::Dynamic(DynamicErrorV::CannotFindLocal), heap)
            } else {
                match resolve_for_match(locals[data], heap) {
                    Err(e) => RunOutcome::Failed(EvalErrorV::Dynamic(e), heap),
                    Ok(v) => match pm(pattern, v) {
                        MatchResultV::Fatal(e) => RunOutcome::Failed(EvalErrorV::Runtime(e), heap),
                        MatchResultV::NoMatch => step_instrs(
                            rest,
                            locals.insert(result, RegV::Value(DataV::Symbol("false"@))),
                            params,
                            heap,
                        ),
                        MatchResultV::Env(env) => match bind_env(env, var_to_sym, locals, heap) {
                            Err((e, heap2)) => RunOutcome::Failed(EvalErrorV::Dynamic(e), heap2),
                            Ok((locals2, heap2)) => step_instrs(
                                rest,
                                locals2.insert(result, RegV::Value(DataV::Symbol("true"@))),
                                params,
                                heap2,
                            ),
                        },
                    },
                }
            },
            InstrV::PanicOnFalse(s, msg) => if !locals.contains_key(s) {
                RunOutcome::Failed(EvalErrorV::Dynamic(DynamicErrorV::CannotFindLocal), heap)
            } else if locals[s] == RegV::Value(DataV::Symbol("true"@)) {
                step_instrs(rest, locals, params, heap)
            } else {
                RunOutcome::Failed(EvalErrorV::Dynamic(DynamicErrorV::Panic(msg)), heap)
            },
        }
    }
}

/// What running the function table against a heap yields: the entry
/// function (id zero) runs with fresh registers and no call arguments; a
/// table without an entry produces no result.
pub open spec fn run_spec(table: Seq<Seq<InstrV>>, heap: Seq<DataV>) -> RunOutcome {
    if table.len() == 0 {
        RunOutcome::Done(None, heap)
    } else {
        step_instrs(table[0], Map::empty(), Seq::empty(), heap)
    }
}

/// Binding matched names never shrinks the heap.
pub proof fn lemma_bind_env_heap_len(
    env: Seq<(Seq<char>, DataV)>,
    var_to_sym: Seq<(Seq<char>, Symbol)>,
    locals: Map<Symbol, RegV>,
    heap: Seq<DataV>,
)
    ensures
        match bind_env(env, var_to_sym, locals, heap) {
            Ok((l2, h2)) => h2.len() >= heap.len(),
            Err((e, h2)) => h2.len() >= heap.len(),
        },
    decreases env,
{
    if env.len() > 0 {
        match sym_for(var_to_sym, env[0].0) {
            None => {},
            Some(sym) => {
                lemma_bind_env_heap_len(
                    env.subrange(1, env.len() as int),
                    var_to_sym,
                    locals.insert(sym, RegV::Value(DataV::Address(heap.len() as u64))),
                    heap.push(env[0].1),
                );
            },
        }
    }
}

/// Running instructions never shrinks the heap: a slot may be rewritten
/// by an append hook, but no address is ever reclaimed.
pub proof fn lemma_step_instrs_heap_len(
    code: Seq<InstrV>,
    locals: Map<Symbol, RegV>,
    params: Seq<RegV>,
    heap: Seq<DataV>,
)
    ensures
        match step_instrs(code, locals, params, heap) {
            RunOutcome::Done(out, h2) => h2.len() >= heap.len(),
            RunOutcome::Failed(e, h2) => h2.len() >= heap.len(),
        },
    decreases code.len(),
{
    if code.len() > 0 {
        let rest = code.subrange(1, code.len() as int);
        match code[0] {
            InstrV::LoadValue(s, v) => {
                lemma_step_instrs_heap_len(rest, locals.insert(s, RegV::Value(v)), params, heap);
            },
            InstrV::LoadFunc(s, f) => {
                lemma_step_instrs_heap_len(rest, locals.insert(s, RegV::Func(f)), params, heap);
            },
            InstrV::PopParam(s) => {
                if params.len() > 0 {
                    lemma_step_instrs_heap_len(
                        rest,
                        locals.insert(s, params[0]),
                        params.subrange(1, params.len() as int),
                        heap,
                    );
                }
            },
            InstrV::Return(s) => {},
            InstrV::LoadFromHeap(a, s) => {
                if a.0 < heap.len() {
                    let reg = match heap[a.0 as int] {
                        DataV::Function(f) => RegV::Func(f),
                        v => RegV::Value(v),
                    };
                    lemma_step_instrs_heap_len(rest, locals.insert(s, reg), params, heap);
                }
            },
            InstrV::InsertIntoHeap(src, dst) => {
                if locals.contains_key(src) {
                    let v = match locals[src] {
                        RegV::Value(v) => v,
                        RegV::Func(f) => DataV::Function(f),
                    };
                    lemma_step_instrs_heap_len(
                        rest,
                        locals.insert(dst, RegV::Value(DataV::Address(heap.len() as u64))),
                        params,
                        heap.push(v),
                    );
                }
            },
            InstrV::PushIntoListInHeap(item, addr) => {
                if locals.contains_key(item) && !(locals[item] is Func) && locals.contains_key(
                    addr,
                ) {
                    match locals[addr] {
                        RegV::Value(DataV::Address(a)) => {
                            if a < heap.len() {
                                match heap[a as int] {
                                    DataV::List(items) => {
                                        lemma_step_instrs_heap_len(
                                            rest,
                                            locals,
                                            params,
                                            heap.update(
                                                a as int,
                                                DataV::List(items.push(locals[item]->Value_0)),
                                            ),
                                        );
                                    },
                                    _ => {},
                                }
                            }
                        },
                        _ => {},
                    }
                }
            },
            InstrV::PushIntoTupleInHeap(item, addr) => {
                if locals.contains_key(item) && !(locals[item] is Func) && locals.contains_key(
                    addr,
                ) {
                    match locals[addr] {
                        RegV::Value(DataV::Address(a)) => {
                            if a < heap.len() {
                                match heap[a as int] {
                                    DataV::Tuple(items) => {
                                        lemma_step_instrs_heap_len(
                                            rest,
                                            locals,
                                            params,
                                            heap.update(
                                                a as int,
                                                DataV::Tuple(items.push(locals[item]->Value_0)),
                                            ),
                                        );
                                    },
                                    _ => {},
                                }
                            }
                        },
                        _ => {},
                    }
                }
            },
            InstrV::PatternMatch { data, pattern, result, var_to_sym } => {
                if locals.contains_key(data) {
                    match resolve_for_match(locals[data], heap) {
                        Err(e) => {},
                        Ok(v) => match pm(pattern, v) {
                            MatchResultV::Fatal(e) => {},
                            MatchResultV::NoMatch => {
                                lemma_step_instrs_heap_len(
                                    rest,
                                    locals.insert(result, RegV::Value(DataV::Symbol("false"@))),
                                    params,
                                    heap,
                                );
                            },
                            MatchResultV::Env(env) => {
                                lemma_bind_env_heap_len(env, var_to_sym, locals, heap);
                                match bind_env(env, var_to_sym, locals, heap) {
                                    Err((e, heap2)) => {},
                                    Ok((locals2, heap2)) => {
                                        lemma_step_instrs_heap_len(
                                            rest,
                                            locals2.insert(
                                                result,
                                                RegV::Value(DataV::Symbol("true"@)),
                                            ),
                                            params,
                                            heap2,
                                        );
                                    },
                                }
                            },
                        },
                    }
                }
            },
            InstrV::PanicOnFalse(s, msg) => {
                if locals.contains_key(s) && locals[s] == RegV::Value(DataV::Symbol("true"@)) {
                    lemma_step_instrs_heap_len(rest, locals, params, heap);
                }
            },
        }
    }
}

/// Running the table never shrinks the heap.
pub proof fn lemma_run_spec_heap_len(table: Seq<Seq<InstrV>>, heap: Seq<DataV>)
    ensures
        match run_spec(table, heap) {
            RunOutcome::Done(out, h2) => h2.len() >= heap.len(),
            RunOutcome::Failed(e, h2) => h2.len() >= heap.len(),
        },
{
    if table.len() > 0 {
        lemma_step_instrs_heap_len(table[0], Map::empty(), Seq::empty(), heap);
    }
}

/// Runs the entry function against the heap and returns its produced
/// result, if any; the heap keeps every slot the run inserted, also when
/// the run stops with an error.
#[verifier::loop_isolation(false)]
pub fn run(functions: &FunctionTable, heap: &mut Heap) -> (r: Result<Option<Data>, EvalError>)
    ensures
        match r {
            Ok(out) => run_spec(functions@, old(heap)@) == RunOutcome::Done(
                out.deep_view(),
                final(heap)@,
            ),
            Err(e) => run_spec(functions@, old(heap)@) == RunOutcome::Failed(e@, final(heap)@),
        },
{
    let code = match functions.get(Func(0)) {
        None => {
            return Ok(None);
        },
        Some(c) => c,
    };
    let ghost cv = functions@[0];
    proof {
        lemma_instrs_view(code@);
    }
    let mut locals = Locals::new();
    let mut params: Vec<Data> = Vec::new();
    let mut pc: usize = 0;
    proof {
        assert(cv.subrange(0, cv.len() as int) =~= cv);
        assert(params.deep_view() =~= Seq::<RegV>::empty());
    }
    while pc < code.len()
        invariant
            pc <= code@.len(),
            cv == instrs_view(code@),
            cv.len() == code@.len(),
            forall|i: int| 0 <= i < code@.len() ==> cv[i] == crate::instr::instr_view(code@[i]),
            run_spec(functions@, old(heap)@) == step_instrs(
                cv.subrange(pc as int, cv.len() as int),
                locals@,
                params.deep_view(),
                heap@,
            ),
        decreases code.len() - pc,
    {
        let ghost rest_now = cv.subrange(pc as int, cv.len() as int);
        let ghost rest_next = cv.subrange(pc + 1, cv.len() as int);
        proof {
            assert(rest_now.len() > 0);
            assert(rest_now[0] == cv[pc as int]);
            assert(rest_now.subrange(1, rest_now.len() as int) =~= rest_next);
        }
        match &code[pc] {
            Instr::LoadValue(s, v) => {
                locals.set(*s, Data::Value(v.dup()));
            },
            Instr::LoadFunc(s, f) => {
                locals.set(*s, Data::Func(*f));
            },
            Instr::PopParam(s) => {
                if params.len() == 0 {
                    return Err(
                        EvalError::Dynamic(DynamicError::Panic("missing call argument".to_owned())),
                    );
                }
                let ghost params0 = params.deep_view();
                let d = params.remove(0);
                locals.set(*s, d);
                proof {
                    assert(params.deep_view() =~= params0.subrange(1, params0.len() as int));
                }
            },
            Instr::Return(s) => {
                match locals.get(*s) {
                    Some(d) => {
                        let out = d.dup();
                        return Ok(Some(out));
                    },
                    None => {
                        return Err(EvalError::Dynamic(DynamicError::CannotFindLocal));
                    },
                }
            },
            Instr::LoadFromHeap(a, s) => {
                match heap.get(*a) {
                    None => {
                        return Err(EvalError::Dynamic(DynamicError::CannotFindHeapAddress));
                    },
                    Some(d) => {
                        let reg = match d {
                            RuntimeData::Function(f) => Data::Func(*f),
                            other => Data::Value(other.dup()),
                        };
                        locals.set(*s, reg);
                    },
                }
            },
            Instr::InsertIntoHeap(src, dst) => {
                match locals.get(*src) {
                    None => {
                        return Err(EvalError::Dynamic(DynamicError::CannotFindLocal));
                    },
                    Some(d) => {
                        let v = match d {
                            Data::Value(v) => v.dup(),
                            Data::Func(f) => RuntimeData::Function(*f),
                        };
                        let addr = heap.insert_new(v);
                        locals.set(*dst, Data::Value(RuntimeData::Address(addr)));
                    },
                }
            },
            Instr::PushIntoListInHeap(item, addr) => {
                let item_value = match locals.get(*item) {
                    None => {
                        return Err(EvalError::Dynamic(DynamicError::CannotFindLocal));
                    },
                    Some(Data::Func(_)) => {
                        return Err(
                            EvalError::Dynamic(
                                DynamicError::TypeMismatch {
                                    expected: "Data::Value".to_owned(),
                                    observed: "Data::Func".to_owned(),
                                },
                            ),
                        );
                    },
                    Some(Data::Value(v)) => v.dup(),
                };
                let address = match locals.get(*addr) {
                    None => {
                        return Err(EvalError::Dynamic(DynamicError::CannotFindLocal));
                    },
                    Some(Data::Value(RuntimeData::Address(a))) => a.0,
                    Some(Data::Value(_)) => {
                        return Err(
                            EvalError::Dynamic(
                                DynamicError::TypeMismatch {
                                    expected: "Data::Value(RuntimeData::Address".to_owned(),
                                    observed: "Data::Value(?)".to_owned(),
                                },
                            ),
                        );
                    },
                    Some(Data::Func(_)) => {
                        return Err(
                            EvalError::Dynamic(
                                DynamicError::TypeMismatch {
                                    expected: "Data::Value(RuntimeData::Address)".to_owned(),
                                    observed: "Data::Func".to_owned(),
                                },
                            ),
                        );
                    },
                };
                match heap.push_into_list(HeapAddress(address), item_value) {
                    Ok(()) => {},
                    Err(e) => {
                        return Err(EvalError::Dynamic(e));
                    },
                }
            },
            Instr::PushIntoTupleInHeap(item, addr) => {
                let item_value = match locals.get(*item) {
                    None => {
                        return Err(EvalError::Dynamic(DynamicError::CannotFindLocal));
                    },
                    Some(Data::Func(_)) => {
                        return Err(
                            EvalError::Dynamic(
                                DynamicError::TypeMismatch {
                                    expected: "Data::Value".to_owned(),
                                    observed: "Data::Func".to_owned(),
                                },
                            ),
                        );
                    },
                    Some(Data::Value(v)) => v.dup(),
                };
                let address = match locals.get(*addr) {
                    None => {
                        return Err(EvalError::Dynamic(DynamicError::CannotFindLocal));
                    },
                    Some(Data::Value(RuntimeData::Address(a))) => a.0,
                    Some(Data::Value(_)) => {
                        return Err(
                            EvalError::Dynamic(
                                DynamicError::TypeMismatch {
                                    expected: "Data::Value(RuntimeData::Address".to_owned(),
                                    observed: "Data::Value(?)".to_owned(),
                                },
                            ),
                        );
                    },
                    Some(Data::Func(_)) => {
                        return Err(
                            EvalError::Dynamic(
                                DynamicError::TypeMismatch {
                                    expected: "Data::Value(RuntimeData::Address)".to_owned(),
                                    observed: "Data::Func".to_owned(),
                                },
                            ),
                        );
                    },
                };
                match heap.push_into_tuple(HeapAddress(address), item_value) {
                    Ok(()) => {},
                    Err(e) => {
                        return Err(EvalError::Dynamic(e));
                    },
                }
            },
            Instr::PatternMatch { data, pattern, result, var_to_sym } => {
                let resolved: RuntimeData = match locals.get(*data) {
                    None => {
                        return Err(EvalError::Dynamic(DynamicError::CannotFindLocal));
                    },
                    Some(Data::Func(f)) => RuntimeData::Function(*f),
                    Some(Data::Value(RuntimeData::Address(a))) => {
                        match heap.get(*a) {
                            None => {
                                return Err(
                                    EvalError::Dynamic(DynamicError::CannotFindHeapAddress),
                                );
                            },
                            Some(pointee) => pointee.dup(),
                        }
                    },
                    Some(Data::Value(v)) => v.dup(),
                };
                match pattern_match(pattern, &resolved) {
                    MatchResult::Fatal(e) => {
                        return Err(EvalError::Runtime(e));
                    },
                    MatchResult::NoMatch => {
                        locals.set(*result, Data::Value(RuntimeData::Symbol("false".to_owned())));
                    },
                    MatchResult::Env(bounds) => {
                        let ghost env_v = bounds.deep_view();
                        let ghost vts_v = var_to_sym.deep_view();
                        let ghost locals0 = locals@;
                        let ghost heap0 = heap@;
                        let mut bi: usize = 0;
                        proof {
                            assert(env_v.subrange(0, env_v.len() as int) =~= env_v);
                        }
                        while bi < bounds.len()
                            invariant
                                bi <= bounds@.len(),
                                env_v == bounds.deep_view(),
                                vts_v == var_to_sym.deep_view(),
                                bind_env(env_v, vts_v, locals0, heap0) == bind_env(
                                    env_v.subrange(bi as int, env_v.len() as int),
                                    vts_v,
                                    locals@,
                                    heap@,
                                ),
                            decreases bounds.len() - bi,
                        {
                            let ghost env_rest = env_v.subrange(bi as int, env_v.len() as int);
                            proof {
                                assert(env_rest.len() > 0);
                                assert(env_rest[0] == env_v[bi as int]);
                                assert(env_rest.subrange(1, env_rest.len() as int) =~= env_v.subrange(
                                    bi + 1,
                                    env_v.len() as int,
                                ));
                            }
                            let sym = match find_sym(var_to_sym, &bounds[bi].name) {
                                None => {
                                    proof {
                                        assert(env_rest[0].0 == bounds@[bi as int].name@);
                                        assert(bind_env(env_rest, vts_v, locals@, heap@) == Err::<
                                            (Map<Symbol, RegV>, Seq<DataV>),
                                            (DynamicErrorV, Seq<DataV>),
                                        >((DynamicErrorV::CannotFindLocal, heap@)));
                                    }
                                    return Err(EvalError::Dynamic(DynamicError::CannotFindLocal));
                                },
                                Some(sym) => sym,
                            };
                            let value = bounds[bi].data.dup();
                            let address = heap.insert_new(value);
                            locals.set(sym, Data::Value(RuntimeData::Address(address)));
                            bi = bi + 1;
                        }
                        locals.set(*result, Data::Value(RuntimeData::Symbol("true".to_owned())));
                    },
                }
            },
            Instr::PanicOnFalse(s, msg) => {
                match locals.get(*s) {
                    None => {
                        return Err(EvalError::Dynamic(DynamicError::CannotFindLocal));
                    },
                    Some(Data::Value(RuntimeData::Symbol(sym))) => {
                        if !(*sym == "true".to_owned()) {
                            return Err(EvalError::Dynamic(DynamicError::Panic(msg.clone())));
                        }
                        proof {
                            reveal_strlit("true");
                        }
                    },
                    Some(_) => {
                        return Err(EvalError::Dynamic(DynamicError::Panic(msg.clone())));
                    },
                }
            },
        }
        pc = pc + 1;
    }
    proof {
        assert(cv.subrange(code@.len() as int, cv.len() as int).len() == 0);
    }
    Ok(None)
}

/// Looks up the register a name maps to.
fn find_sym(var_to_sym: &Vec<(String, Symbol)>, name: &String) -> (r: Option<Symbol>)
    ensures
        r == sym_for(var_to_sym.deep_view(), name@),
{
    let ghost vts = var_to_sym.deep_view();
    let mut i: usize = 0;
    proof {
        assert(vts.subrange(0, vts.len() as int) =~= vts);
    }
    while i < var_to_sym.len()
        invariant
            i <= var_to_sym@.len(),
            vts == var_to_sym.deep_view(),
            sym_for(vts, name@) == sym_for(vts.subrange(i as int, vts.len() as int), name@),
        decreases var_to_sym.len() - i,
    {
        let ghost rest = vts.subrange(i as int, vts.len() as int);
        proof {
            assert(rest.len() > 0);
            assert(rest[0] == vts[i as int]);
            assert(rest.subrange(1, rest.len() as int) =~= vts.subrange(
                i + 1,
                vts.len() as int,
            ));
        }
        if var_to_sym[i].0 == *name {
            return Some(var_to_sym[i].1);
        }
        i = i + 1;
    }
    None
}

} // verus!
