//! The compiler: lowers a literal (including nested lists, tuples and
//! lambdas) into an instruction sequence over fresh symbolic registers.
//! It reads the session's name table, inserts new entries into the
//! function table for lambdas, and never repeats a symbol or function id
//! within one compiled unit.

use vstd::prelude::*;
use crate::ast::Expr;
use crate::ast::Lambda;
use crate::ast::Lit;
use crate::ast::Pat;
use crate::ast::pat_view;
use crate::ast::pats_view;
use crate::ast::pat_binds;
use crate::ast::pats_binds;
use crate::ast::top_binds;
use crate::ast::lemma_pats_view;
use crate::ast::lemma_pats_binds_snoc;
use crate::ast::lemma_pats_binds_split;
use crate::data::NameTable;
use crate::error::StaticError;
use crate::error::StaticErrorV;
use crate::instr::Func;
use crate::instr::FunctionTable;
use crate::instr::Instr;
use crate::instr::InstrV;
use crate::instr::Symbol;
use crate::instr::instrs_view;
use crate::instr::lemma_instrs_view;
use crate::instr::lemma_instrs_view_push;
use crate::instr::lemma_instrs_view_add;
use crate::instr::table_insert;
use crate::instr;
use crate::runtime::DataV;
use crate::runtime::HeapAddress;
use crate::runtime::RuntimeData;
use crate::strings::lex_le;
use crate::strings::str_le;

verus! {

/// Monotonically increasing counters for fresh symbols and function ids,
/// local to one compilation.
struct C {
    sym_count: usize,
    func_count: usize,
}

impl C {
    /// Counters starting above the given function id, with no symbol yet.
    fn new(func_count: usize) -> (r: C)
        ensures
            r.sym_count == 0,
            r.func_count == func_count,
    {
        C { sym_count: 0, func_count }
    }

    /// The next fresh symbol.
    fn symbol(&mut self) -> (r: Symbol)
        requires
            old(self).sym_count < usize::MAX,
        ensures
            final(self).sym_count == old(self).sym_count + 1,
            final(self).func_count == old(self).func_count,
            r == Symbol((old(self).sym_count + 1) as usize),
    {
        self.sym_count = self.sym_count + 1;
        Symbol(self.sym_count)
    }

    /// The next fresh function id.
    fn func(&mut self) -> (r: Func)
        requires
            old(self).func_count < usize::MAX,
        ensures
            final(self).func_count == old(self).func_count + 1,
            final(self).sym_count == old(self).sym_count,
            r == Func((old(self).func_count + 1) as usize),
    {
        self.func_count = self.func_count + 1;
        Func(self.func_count)
    }
}

/// The state one compilation step threads: the symbol and function-id
/// counters and the function table.
#[verifier::ext_equal]
pub struct CompSt {
    pub syms: int,
    pub funcs: int,
    pub table: Seq<Seq<InstrV>>,
}

/// A size measure of a literal that bounds the fresh symbols and function
/// ids its compilation allocates: at most twice the size in symbols and
/// the size in function ids.
pub open spec fn lit_size(l: Lit) -> int
    decreases l,
{
    match l {
        Lit::Number(_) => 1,
        Lit::String(_) => 1,
        Lit::Symbol(_) => 1,
        Lit::Variable(_) => 1,
        Lit::List(xs) => 1 + lits_size(xs@),
        Lit::Tuple(xs) => 1 + lits_size(xs@),
        Lit::Lambda(lam) => 2 + 2 * lam.params@.len() + pats_binds(pats_view(lam.params@)).len() as int,
    }
}

/// The total size of a sequence of literals.
pub open spec fn lits_size(xs: Seq<Lit>) -> int
    decreases xs,
{
    if xs.len() == 0 {
        0
    } else {
        lit_size(xs[0]) + lits_size(xs.subrange(1, xs.len() as int))
    }
}

/// Sizes are positive.
pub proof fn lemma_lit_size_pos(l: Lit)
    ensures
        lit_size(l) >= 1,
    decreases l,
{
    match l {
        Lit::List(xs) => lemma_lits_size_nonneg(xs@),
        Lit::Tuple(xs) => lemma_lits_size_nonneg(xs@),
        Lit::Number(_) => {},
        Lit::String(_) => {},
        Lit::Symbol(_) => {},
        Lit::Variable(_) => {},
        Lit::Lambda(_) => {},
    }
}

/// Sequence sizes are not negative.
pub proof fn lemma_lits_size_nonneg(xs: Seq<Lit>)
    ensures
        lits_size(xs) >= 0,
    decreases xs,
{
    if xs.len() > 0 {
        lemma_lit_size_pos(xs[0]);
        lemma_lits_size_nonneg(xs.subrange(1, xs.len() as int));
    }
}

/// Sequence sizes are sums of positive element sizes.
pub proof fn lemma_lits_size_parts(xs: Seq<Lit>)
    ensures
        lits_size(xs) >= 0,
        forall|i: int|
            0 <= i < xs.len() ==> lits_size(xs.subrange(i, xs.len() as int)) == lit_size(xs[i])
                + lits_size(xs.subrange(i + 1, xs.len() as int)),
        forall|i: int| 0 <= i <= xs.len() ==> lits_size(xs.subrange(i, xs.len() as int)) >= 0,
        forall|i: int| 0 <= i <= xs.len() ==> lits_size(xs.subrange(i, xs.len() as int)) <= lits_size(xs),
    decreases xs.len(),
{
    if xs.len() > 0 {
        let tail = xs.subrange(1, xs.len() as int);
        lemma_lits_size_parts(tail);
        lemma_lit_size_pos(xs[0]);
        assert forall|i: int| 1 <= i < xs.len() implies lits_size(xs.subrange(i, xs.len() as int))
            == lit_size(xs[i]) + lits_size(xs.subrange(i + 1, xs.len() as int)) by {
            assert(xs.subrange(i, xs.len() as int) =~= tail.subrange(i - 1, tail.len() as int));
            assert(xs.subrange(i + 1, xs.len() as int) =~= tail.subrange(i, tail.len() as int));
            assert(tail[i - 1] == xs[i]);
        }
        assert forall|i: int| 1 <= i <= xs.len() implies lits_size(xs.subrange(i, xs.len() as int))
            >= 0 && lits_size(xs.subrange(i, xs.len() as int)) <= lits_size(xs) by {
            assert(xs.subrange(i, xs.len() as int) =~= tail.subrange(i - 1, tail.len() as int));
        }
        assert(xs.subrange(0, xs.len() as int) =~= xs);
    } else {
        assert(xs.subrange(0, xs.len() as int) =~= xs);
    }
}

/// Whether a name occurs at two different positions of the list.
pub open spec fn is_duplicated(names: Seq<Seq<char>>, n: Seq<char>) -> bool {
    exists|i: int, j: int| 0 <= i < j < names.len() && names[i] == n && names[j] == n
}

/// The lexicographically smallest name that occurs more than once, if
/// any: what sorting the flattened names and scanning adjacent pairs for
/// equality reports. Computed by folding the positions from `j` up,
/// keeping the smallest duplicated name seen.
pub open spec fn min_dup_from(names: Seq<Seq<char>>, j: int) -> Option<Seq<char>>
    decreases names.len() - j,
{
    if j < 0 || j >= names.len() {
        None
    } else {
        let rest = min_dup_from(names, j + 1);
        if is_duplicated(names, names[j]) {
            match rest {
                None => Some(names[j]),
                Some(m) => if lex_le(names[j], m) {
                    Some(names[j])
                } else {
                    Some(m)
                },
            }
        } else {
            rest
        }
    }
}

/// The lexicographically smallest duplicated name of the list, if any.
pub open spec fn min_dup(names: Seq<Seq<char>>) -> Option<Seq<char>> {
    min_dup_from(names, 0)
}

/// The instructions that pop the next `k` call arguments into the symbols
/// numbered upward from `base + 1`.
pub open spec fn pop_instrs(base: int, k: int) -> Seq<InstrV> {
    Seq::new(if k >= 0 { k as nat } else { 0 }, |i: int| InstrV::PopParam(Symbol((base + 1 + i) as usize)))
}

/// The parameter-binding instructions of a lambda body: for each formal
/// pattern, in declaration order, a pattern-match-and-bind of the popped
/// argument held by the symbol numbered `pre_top` counting down, then an
/// abort unless it matched. Returns the instructions and the symbol
/// counter after.
pub open spec fn param_binds_spec(params: Seq<Pat>, pre_top: int, syms: int) -> (Seq<InstrV>, int)
    decreases params,
{
    if params.len() == 0 {
        (Seq::empty(), syms)
    } else {
        let result = Symbol((syms + 1) as usize);
        let binds = pat_binds(pat_view(params[0]));
        let vts = Seq::new(binds.len(), |j: int| (binds[j], Symbol((syms + 2 + j) as usize)));
        let syms1 = syms + 1 + binds.len();
        let (rest, syms2) = param_binds_spec(
            params.subrange(1, params.len() as int),
            pre_top - 1,
            syms1,
        );
        (
            seq![
                InstrV::PatternMatch {
                    data: Symbol(pre_top as usize),
                    pattern: pat_view(params[0]),
                    result,
                    var_to_sym: vts,
                },
                InstrV::PanicOnFalse(result, Seq::empty()),
            ] + rest,
            syms2,
        )
    }
}

/// The instructions that append each item symbol's value, in order, to
/// the heap list at the address the given symbol holds.
pub open spec fn push_list_instrs(syms: Seq<Symbol>, addr: Symbol) -> Seq<InstrV> {
    Seq::new(syms.len(), |i: int| InstrV::PushIntoListInHeap(syms[i], addr))
}

/// The instructions that append each item symbol's value, in order, to
/// the heap tuple at the address the given symbol holds.
pub open spec fn push_tuple_instrs(syms: Seq<Symbol>, addr: Symbol) -> Seq<InstrV> {
    Seq::new(syms.len(), |i: int| InstrV::PushIntoTupleInHeap(syms[i], addr))
}

/// What compiling a literal yields, given the name table and the state:
/// the symbol that will hold the literal's value, the emitted instruction
/// sequence, and the state after — or the static error that aborts the
/// compilation, with the state as it stands then.
pub open spec fn compile_lit_spec(l: Lit, names: Map<Seq<char>, u64>, st: CompSt) -> Result<
    (Symbol, Seq<InstrV>, CompSt),
    (StaticErrorV, CompSt),
>
    decreases l,
{
    match l {
        Lit::Number(n) => {
            let s = Symbol((st.syms + 1) as usize);
            Ok(
                (
                    s,
                    seq![InstrV::LoadValue(s, DataV::Number(n@))],
                    CompSt { syms: st.syms + 1, funcs: st.funcs, table: st.table },
                ),
            )
        },
        Lit::String(x) => {
            let s = Symbol((st.syms + 1) as usize);
            Ok(
                (
                    s,
                    seq![InstrV::LoadValue(s, DataV::String(x@))],
                    CompSt { syms: st.syms + 1, funcs: st.funcs, table: st.table },
                ),
            )
        },
        Lit::Symbol(x) => {
            let s = Symbol((st.syms + 1) as usize);
            Ok(
                (
                    s,
                    seq![InstrV::LoadValue(s, DataV::Symbol(x@))],
                    CompSt { syms: st.syms + 1, funcs: st.funcs, table: st.table },
                ),
            )
        },
        Lit::Variable(x) => {
            if !names.contains_key(x@) {
                Err((StaticErrorV::VariableNotDefined(x@), st))
            } else {
                let s = Symbol((st.syms + 1) as usize);
                Ok(
                    (
                        s,
                        seq![InstrV::LoadFromHeap(HeapAddress(names[x@]), s)],
                        CompSt { syms: st.syms + 1, funcs: st.funcs, table: st.table },
                    ),
                )
            }
        },
        Lit::List(xs) => {
            match compile_lits_spec(xs@, names, st) {
                Err(p) => Err(p),
                Ok((item_syms, progs, st1)) => {
                    let ret_sym = Symbol((st1.syms + 1) as usize);
                    let ret_addr = Symbol((st1.syms + 2) as usize);
                    Ok(
                        (
                            ret_addr,
                            seq![
                                InstrV::LoadValue(ret_sym, DataV::List(Seq::empty())),
                                InstrV::InsertIntoHeap(ret_sym, ret_addr),
                            ] + progs + push_list_instrs(item_syms, ret_addr),
                            CompSt { syms: st1.syms + 2, funcs: st1.funcs, table: st1.table },
                        ),
                    )
                },
            }
        },
        Lit::Tuple(xs) => {
            match compile_lits_spec(xs@, names, st) {
                Err(p) => Err(p),
                Ok((item_syms, progs, st1)) => {
                    let ret_sym = Symbol((st1.syms + 1) as usize);
                    let ret_addr = Symbol((st1.syms + 2) as usize);
                    Ok(
                        (
                            ret_addr,
                            seq![
                                InstrV::LoadValue(ret_sym, DataV::Tuple(Seq::empty())),
                                InstrV::InsertIntoHeap(ret_sym, ret_addr),
                            ] + progs + push_tuple_instrs(item_syms, ret_addr),
                            CompSt { syms: st1.syms + 2, funcs: st1.funcs, table: st1.table },
                        ),
                    )
                },
            }
        },
        Lit::Lambda(lam) => {
            let all_names = top_binds(*lam.body) + pats_binds(pats_view(lam.params@));
            match min_dup(all_names) {
                Some(n) => Err((StaticErrorV::DuplicateVariableDefinitions(n), st)),
                None => {
                    let k = lam.params@.len() as int;
                    let pops = pop_instrs(st.syms, k);
                    let (bind_instrs, syms2) = param_binds_spec(
                        lam.params@,
                        st.syms + k,
                        st.syms + k,
                    );
                    let func_id = st.funcs + 1;
                    let body = pops + bind_instrs;
                    let addr_sym = Symbol((syms2 + 1) as usize);
                    Ok(
                        (
                            addr_sym,
                            seq![InstrV::LoadFunc(addr_sym, Func(func_id as usize))],
                            CompSt {
                                syms: syms2 + 1,
                                funcs: func_id,
                                table: table_insert(st.table, func_id, body),
                            },
                        ),
                    )
                },
            }
        },
    }
}

/// What compiling each literal of a sequence yields, threading the state:
/// the symbols holding the values, the concatenation of the emitted
/// sequences, and the state after — or the first error, with the state as
/// it stands then.
pub open spec fn compile_lits_spec(xs: Seq<Lit>, names: Map<Seq<char>, u64>, st: CompSt) -> Result<
    (Seq<Symbol>, Seq<InstrV>, CompSt),
    (StaticErrorV, CompSt),
>
    decreases xs,
{
    if xs.len() == 0 {
        Ok((Seq::empty(), Seq::empty(), st))
    } else {
        match compile_lit_spec(xs[0], names, st) {
            Err(p) => Err(p),
            Ok((sym, prog, st1)) => {
                match compile_lits_spec(xs.subrange(1, xs.len() as int), names, st1) {
                    Err(p) => Err(p),
                    Ok((syms, progs, st2)) => Ok((seq![sym] + syms, prog + progs, st2)),
                }
            },
        }
    }
}

/// The compiler state a compilation of one expression starts from: no
/// symbol yet, function ids above the largest one present.
pub open spec fn start_state(table: Seq<Seq<InstrV>>) -> CompSt {
    CompSt {
        syms: 0,
        funcs: if table.len() == 0 {
            0int
        } else {
            table.len() - 1
        },
        table,
    }
}

/// The size measure of an expression.
pub open spec fn expr_size(e: Expr) -> int {
    match e {
        Expr::Literal(l) => lit_size(l),
        Expr::Call(_, _) => 0,
    }
}

/// What compiling an expression yields: the instruction sequence ending
/// in a return of the expression's value, and the function table after —
/// or the static error, with the table as it stands then. A call
/// expression is an explicitly unimplemented kind.
pub open spec fn compile_spec(
    e: Expr,
    names: Map<Seq<char>, u64>,
    table: Seq<Seq<InstrV>>,
) -> Result<(Seq<InstrV>, Seq<Seq<InstrV>>), (StaticErrorV, Seq<Seq<InstrV>>)> {
    match e {
        Expr::Call(_, _) => Err((StaticErrorV::Todo, table)),
        Expr::Literal(lit) => match compile_lit_spec(lit, names, start_state(table)) {
            Err((err, st)) => Err((err, st.table)),
            Ok((sym, prog, st)) => Ok((prog.push(InstrV::Return(sym)), st.table)),
        },
    }
}

/// Compiles one expression against the session's name table, inserting
/// any lambda bodies into the function table, and returns the entry
/// instruction sequence.
pub fn compile(input: &Expr, address_map: &NameTable, functions: &mut FunctionTable) -> (r: Result<
    Vec<Instr>,
    StaticError,
>)
    requires
        2 * expr_size(*input) + 2 <= usize::MAX,
        old(functions)@.len() + expr_size(*input) <= usize::MAX,
    ensures
        old(functions)@.len() <= final(functions)@.len(),
        final(functions)@.len() <= old(functions)@.len() + expr_size(*input) + 1,
        match r {
            Ok(prog) => compile_spec(*input, address_map@, old(functions)@) == Ok::<
                (Seq<InstrV>, Seq<Seq<InstrV>>),
                (StaticErrorV, Seq<Seq<InstrV>>),
            >((instrs_view(prog@), final(functions)@)),
            Err(e) => compile_spec(*input, address_map@, old(functions)@) == Err::<
                (Seq<InstrV>, Seq<Seq<InstrV>>),
                (StaticErrorV, Seq<Seq<InstrV>>),
            >((e@, final(functions)@)),
        },
{
    let func = functions.max_func();
    let mut c = C::new(func);
    match input {
        Expr::Literal(lit) => {
            proof {
                lemma_lit_size_pos(*lit);
            }
            match compile_literal(&mut c, lit, address_map, functions) {
                Err(e) => Err(e),
                Ok((sym, mut prog)) => {
                    let ghost prev = prog@;
                    let ghost prog_v = instrs_view(prog@);
                    prog.push(Instr::Return(sym));
                    proof {
                        lemma_instrs_view_push(prev, Instr::Return(sym));
                        assert(prog@ =~= prev.push(Instr::Return(sym)));
                        assert(instrs_view(prog@) == prog_v.push(InstrV::Return(sym)));
                    }
                    Ok(prog)
                },
            }
        },
        Expr::Call(_, _) => Err(StaticError::Todo),
    }
}

/// Compiles one literal, threading the counters, and returns the symbol
/// that will hold its value together with the emitted instructions.
#[verifier::loop_isolation(false)]
#[verifier::rlimit(50)]
fn compile_literal(
    c: &mut C,
    input: &Lit,
    address_map: &NameTable,
    functions: &mut FunctionTable,
) -> (r: Result<(Symbol, Vec<Instr>), StaticError>)
    requires
        old(c).sym_count + 2 * lit_size(*input) <= usize::MAX,
        old(c).func_count + lit_size(*input) <= usize::MAX,
        lit_size(*input) >= 1,
        old(functions)@.len() <= old(c).func_count + 1,
    ensures
        old(functions)@.len() <= final(functions)@.len(),
        final(functions)@.len() <= final(c).func_count + 1,
        ({
            let st0 = CompSt {
                syms: old(c).sym_count as int,
                funcs: old(c).func_count as int,
                table: old(functions)@,
            };
            let st1 = CompSt {
                syms: final(c).sym_count as int,
                funcs: final(c).func_count as int,
                table: final(functions)@,
            };
            match r {
                Ok((sym, prog)) => compile_lit_spec(*input, address_map@, st0) == Ok::<
                    (Symbol, Seq<InstrV>, CompSt),
                    (StaticErrorV, CompSt),
                >((sym, instrs_view(prog@), st1)),
                Err(e) => compile_lit_spec(*input, address_map@, st0) == Err::<
                    (Symbol, Seq<InstrV>, CompSt),
                    (StaticErrorV, CompSt),
                >((e@, st1)),
            }
        }),
        old(c).sym_count <= final(c).sym_count <= old(c).sym_count + 2 * lit_size(*input),
        old(c).func_count <= final(c).func_count <= old(c).func_count + lit_size(*input),
    decreases *input,
{
    match input {
        Lit::Number(n) => {
            let s = c.symbol();
            let mut prog: Vec<Instr> = Vec::new();
            prog.push(Instr::LoadValue(s, RuntimeData::Number(n.dup())));
            proof {
                lemma_instrs_view(prog@);
                assert(instrs_view(prog@) =~= seq![
                    InstrV::LoadValue(s, DataV::Number(n@)),
                ]);
            }
            Ok((s, prog))
        },
        Lit::String(x) => {
            let s = c.symbol();
            let mut prog: Vec<Instr> = Vec::new();
            prog.push(Instr::LoadValue(s, RuntimeData::String(x.clone())));
            proof {
                lemma_instrs_view(prog@);
                assert(instrs_view(prog@) =~= seq![InstrV::LoadValue(s, DataV::String(x@))]);
            }
            Ok((s, prog))
        },
        Lit::Symbol(x) => {
            let s = c.symbol();
            let mut prog: Vec<Instr> = Vec::new();
            prog.push(Instr::LoadValue(s, RuntimeData::Symbol(x.clone())));
            proof {
                lemma_instrs_view(prog@);
                assert(instrs_view(prog@) =~= seq![InstrV::LoadValue(s, DataV::Symbol(x@))]);
            }
            Ok((s, prog))
        },
        Lit::Variable(x) => {
            match address_map.lookup(x) {
                None => Err(StaticError::VariableNotDefined(x.clone())),
                Some(address) => {
                    let s = c.symbol();
                    let mut prog: Vec<Instr> = Vec::new();
                    prog.push(instr::load_from_heap(address, s));
                    proof {
                        lemma_instrs_view(prog@);
                        assert(address == HeapAddress(address_map@[x@]));
                        assert(instrs_view(prog@) =~= seq![
                            InstrV::LoadFromHeap(HeapAddress(address_map@[x@]), s),
                        ]);
                    }
                    Ok((s, prog))
                },
            }
        },
        Lit::List(xs) => {
            match compile_elements(c, xs, address_map, functions) {
                Err(e) => Err(e),
                Ok((item_syms, mut prog)) => {
                    let ghost st1 = CompSt {
                        syms: c.sym_count as int,
                        funcs: c.func_count as int,
                        table: functions@,
                    };
                    let ghost progs_v = instrs_view(prog@);
                    let ret_sym = c.symbol();
                    let ret_addr = c.symbol();
                    let mut ret: Vec<Instr> = Vec::new();
                    ret.push(Instr::LoadValue(ret_sym, RuntimeData::List(Vec::new())));
                    ret.push(instr::insert_into_heap(ret_sym, ret_addr));
                    let ghost head_v = instrs_view(ret@);
                    proof {
                        lemma_instrs_view(ret@);
                        assert(head_v =~= seq![
                            InstrV::LoadValue(ret_sym, DataV::List(Seq::empty())),
                            InstrV::InsertIntoHeap(ret_sym, ret_addr),
                        ]);
                    }
                    let ghost prev_ret = ret@;
                    let ghost prog0 = prog@;
                    ret.append(&mut prog);
                    proof {
                        lemma_instrs_view_add(prev_ret, prog0);
                        assert(ret@ =~= prev_ret + prog0);
                        assert(instrs_view(ret@) == head_v + progs_v);
                    }
                    let ghost mid_v = instrs_view(ret@);
                    let mut i: usize = 0;
                    while i < item_syms.len()
                        invariant
                            i <= item_syms@.len(),
                            instrs_view(ret@) == mid_v + push_list_instrs(
                                item_syms@.subrange(0, i as int),
                                ret_addr,
                            ),
                        decreases item_syms@.len() - i,
                    {
                        let ghost pre = ret@;
                        ret.push(instr::push_into_list_in_heap(item_syms[i], ret_addr));
                        proof {
                            lemma_instrs_view_push(pre, Instr::PushIntoListInHeap(item_syms@[i as int], ret_addr));
                            assert(instrs_view(ret@) =~= mid_v + push_list_instrs(
                                item_syms@.subrange(0, i + 1),
                                ret_addr,
                            ));
                        }
                        i = i + 1;
                    }
                    proof {
                        assert(item_syms@.subrange(0, item_syms@.len() as int) =~= item_syms@);
                        assert(instrs_view(ret@) =~= head_v + progs_v + push_list_instrs(
                            item_syms@,
                            ret_addr,
                        ));
                    }
                    Ok((ret_addr, ret))
                },
            }
        },
        Lit::Tuple(xs) => {
            match compile_elements(c, xs, address_map, functions) {
                Err(e) => Err(e),
                Ok((item_syms, mut prog)) => {
                    let ghost st1 = CompSt {
                        syms: c.sym_count as int,
                        funcs: c.func_count as int,
                        table: functions@,
                    };
                    let ghost progs_v = instrs_view(prog@);
                    let ret_sym = c.symbol();
                    let ret_addr = c.symbol();
                    let mut ret: Vec<Instr> = Vec::new();
                    ret.push(Instr::LoadValue(ret_sym, RuntimeData::Tuple(Vec::new())));
                    ret.push(instr::insert_into_heap(ret_sym, ret_addr));
                    let ghost head_v = instrs_view(ret@);
                    proof {
                        lemma_instrs_view(ret@);
                        assert(head_v =~= seq![
                            InstrV::LoadValue(ret_sym, DataV::Tuple(Seq::empty())),
                            InstrV::InsertIntoHeap(ret_sym, ret_addr),
                        ]);
                    }
                    let ghost prev_ret = ret@;
                    let ghost prog0 = prog@;
                    ret.append(&mut prog);
                    proof {
                        lemma_instrs_view_add(prev_ret, prog0);
                        assert(ret@ =~= prev_ret + prog0);
                        assert(instrs_view(ret@) == head_v + progs_v);
                    }
                    let ghost mid_v = instrs_view(ret@);
                    let mut i: usize = 0;
                    while i < item_syms.len()
                        invariant
                            i <= item_syms@.len(),
                            instrs_view(ret@) == mid_v + push_tuple_instrs(
                                item_syms@.subrange(0, i as int),
                                ret_addr,
                            ),
                        decreases item_syms@.len() - i,
                    {
                        let ghost pre = ret@;
                        ret.push(instr::push_into_tuple_in_heap(item_syms[i], ret_addr));
                        proof {
                            lemma_instrs_view_push(pre, Instr::PushIntoTupleInHeap(item_syms@[i as int], ret_addr));
                            assert(instrs_view(ret@) =~= mid_v + push_tuple_instrs(
                                item_syms@.subrange(0, i + 1),
                                ret_addr,
                            ));
                        }
                        i = i + 1;
                    }
                    proof {
                        assert(item_syms@.subrange(0, item_syms@.len() as int) =~= item_syms@);
                        assert(instrs_view(ret@) =~= head_v + progs_v + push_tuple_instrs(
                            item_syms@,
                            ret_addr,
                        ));
                    }
                    Ok((ret_addr, ret))
                },
            }
        },
        Lit::Lambda(lam) => compile_lambda(c, lam, functions, Ghost(address_map@)),
    }
}

/// Compiles each element literal in order, returning their symbols and
/// the concatenation of their instruction sequences.
#[verifier::loop_isolation(false)]
#[verifier::rlimit(100)]
fn compile_elements(
    c: &mut C,
    xs: &Vec<Lit>,
    address_map: &NameTable,
    functions: &mut FunctionTable,
) -> (r: Result<(Vec<Symbol>, Vec<Instr>), StaticError>)
    requires
        old(c).sym_count + 2 * lits_size(xs@) <= usize::MAX,
        old(c).func_count + lits_size(xs@) <= usize::MAX,
        old(functions)@.len() <= old(c).func_count + 1,
    ensures
        old(functions)@.len() <= final(functions)@.len(),
        final(functions)@.len() <= final(c).func_count + 1,
        ({
            let st0 = CompSt {
                syms: old(c).sym_count as int,
                funcs: old(c).func_count as int,
                table: old(functions)@,
            };
            let st1 = CompSt {
                syms: final(c).sym_count as int,
                funcs: final(c).func_count as int,
                table: final(functions)@,
            };
            match r {
                Ok((syms, prog)) => compile_lits_spec(xs@, address_map@, st0) == Ok::<
                    (Seq<Symbol>, Seq<InstrV>, CompSt),
                    (StaticErrorV, CompSt),
                >((syms@, instrs_view(prog@), st1)),
                Err(e) => compile_lits_spec(xs@, address_map@, st0) == Err::<
                    (Seq<Symbol>, Seq<InstrV>, CompSt),
                    (StaticErrorV, CompSt),
                >((e@, st1)),
            }
        }),
        old(c).sym_count <= final(c).sym_count <= old(c).sym_count + 2 * lits_size(xs@),
        old(c).func_count <= final(c).func_count <= old(c).func_count + lits_size(xs@),
    decreases xs@,
{
    let ghost st0 = CompSt {
        syms: old(c).sym_count as int,
        funcs: old(c).func_count as int,
        table: old(functions)@,
    };
    proof {
        lemma_lits_size_parts(xs@);
        assert(xs@.subrange(0, xs@.len() as int) =~= xs@);
    }
    let mut item_syms: Vec<Symbol> = Vec::new();
    let mut prog: Vec<Instr> = Vec::new();
    let mut i: usize = 0;
    proof {
        assert(instrs_view(prog@) =~= Seq::<InstrV>::empty());
    }
    while i < xs.len()
        invariant
            i <= xs@.len(),
            old(functions)@.len() <= functions@.len(),
            functions@.len() <= c.func_count + 1,
            c.sym_count + 2 * lits_size(xs@.subrange(i as int, xs@.len() as int)) <= usize::MAX,
            c.func_count + lits_size(xs@.subrange(i as int, xs@.len() as int)) <= usize::MAX,
            old(c).sym_count <= c.sym_count <= old(c).sym_count + 2 * (lits_size(xs@) - lits_size(
                xs@.subrange(i as int, xs@.len() as int),
            )),
            old(c).func_count <= c.func_count <= old(c).func_count + (lits_size(xs@) - lits_size(
                xs@.subrange(i as int, xs@.len() as int),
            )),
            compile_lits_spec(xs@, address_map@, st0) == (match compile_lits_spec(
                xs@.subrange(i as int, xs@.len() as int),
                address_map@,
                CompSt { syms: c.sym_count as int, funcs: c.func_count as int, table: functions@ },
            ) {
                Err(p) => Err::<(Seq<Symbol>, Seq<InstrV>, CompSt), (StaticErrorV, CompSt)>(p),
                Ok((syms2, progs2, st2)) => Ok(
                    (item_syms@ + syms2, instrs_view(prog@) + progs2, st2),
                ),
            }),
        decreases xs@.len() - i,
    {
        let ghost remaining = xs@.subrange(i as int, xs@.len() as int);
        proof {
            assert(remaining[0] == xs@[i as int]);
            assert(remaining.subrange(1, remaining.len() as int) =~= xs@.subrange(
                i + 1,
                xs@.len() as int,
            ));
            lemma_lit_size_pos(xs@[i as int]);
        }
        match compile_literal(c, &xs[i], address_map, functions) {
            Err(e) => {
                return Err(e);
            },
            Ok((sym, mut sub)) => {
                let ghost prev_items = item_syms@;
                let ghost prog_v = instrs_view(prog@);
                let ghost sub_v = instrs_view(sub@);
                item_syms.push(sym);
                let ghost prev_prog = prog@;
                let ghost sub0 = sub@;
                prog.append(&mut sub);
                i = i + 1;
                proof {
                    lemma_instrs_view_add(prev_prog, sub0);
                    assert(prog@ =~= prev_prog + sub0);
                    assert(instrs_view(prog@) == prog_v + sub_v);
                    let next = compile_lits_spec(
                        xs@.subrange(i as int, xs@.len() as int),
                        address_map@,
                        CompSt {
                            syms: c.sym_count as int,
                            funcs: c.func_count as int,
                            table: functions@,
                        },
                    );
                    if next is Ok {
                        let t = next->Ok_0;
                        assert((prev_items + (seq![sym] + t.0)) =~= (item_syms@ + t.0));
                        assert((prog_v + (sub_v + t.1)) =~= (instrs_view(prog@) + t.1));
                    }
                }
            },
        }
    }
    proof {
        assert(xs@.subrange(xs@.len() as int, xs@.len() as int).len() == 0);
        assert(item_syms@ + Seq::<Symbol>::empty() =~= item_syms@);
        assert(instrs_view(prog@) + Seq::<InstrV>::empty() =~= instrs_view(prog@));
    }
    Ok((item_syms, prog))
}

/// Checks that no name is bound more than once across the union of the
/// lambda body's top-level `let` names and every parameter pattern's
/// bindable names — flattened, ordered, and checked for a repeat; the
/// reported name is the lexicographically smallest one that repeats, as
/// sorting the names and scanning adjacent pairs gives it.
#[verifier::loop_isolation(false)]
pub fn lambda_variables_are_unique(lambda: &Lambda) -> (r: Result<(), StaticError>)
    ensures
        ({
            let names = top_binds(*lambda.body) + pats_binds(pats_view(lambda.params@));
            match r {
                Ok(()) => min_dup(names) is None,
                Err(e) => min_dup(names) is Some && e@
                    == StaticErrorV::DuplicateVariableDefinitions(min_dup(names)->0),
            }
        }),
{
    let ghost names = top_binds(*lambda.body) + pats_binds(pats_view(lambda.params@));
    let mut all: Vec<String> = lambda.body.variables_to_bind();
    let mut pi: usize = 0;
    while pi < lambda.params.len()
        invariant
            pi <= lambda.params@.len(),
            all.deep_view() == top_binds(*lambda.body) + pats_binds(
                pats_view(lambda.params@).subrange(0, pi as int),
            ),
        decreases lambda.params@.len() - pi,
    {
        proof {
            lemma_pats_view(lambda.params@);
            lemma_pats_binds_snoc(pats_view(lambda.params@), pi as int);
        }
        let mut v = lambda.params[pi].variables_to_bind();
        let ghost all_v = all.deep_view();
        let ghost v_v = v.deep_view();
        all.append(&mut v);
        proof {
            assert(all.deep_view() =~= all_v + v_v);
            assert(all_v + v_v =~= top_binds(*lambda.body) + pats_binds(
                pats_view(lambda.params@).subrange(0, pi + 1),
            ));
        }
        pi = pi + 1;
    }
    proof {
        assert(pats_view(lambda.params@).subrange(0, pats_view(lambda.params@).len() as int)
            =~= pats_view(lambda.params@));
        lemma_pats_view(lambda.params@);
        assert(all.deep_view() == names);
    }
    let mut cur: Option<String> = None;
    let mut j: usize = all.len();
    while j > 0
        invariant
            j <= all@.len(),
            all.deep_view() == names,
            match cur {
                None => min_dup_from(names, j as int) is None,
                Some(c) => min_dup_from(names, j as int) == Some(c@),
            },
        decreases j,
    {
        j = j - 1;
        let mut dup = false;
        let mut q: usize = 0;
        while q < all.len()
            invariant
                q <= all@.len(),
                j < all@.len(),
                all.deep_view() == names,
                dup ==> is_duplicated(names, names[j as int]),
                !dup ==> forall|x: int| 0 <= x < q && x != j ==> names[x] != names[j as int],
            decreases all@.len() - q,
        {
            if q != j {
                if all[q] == all[j] {
                    proof {
                        if q < j {
                            assert(names[q as int] == names[j as int]);
                        } else {
                            assert(names[j as int] == names[q as int]);
                        }
                    }
                    dup = true;
                }
            }
            q = q + 1;
        }
        proof {
            if !dup {
                assert(!is_duplicated(names, names[j as int])) by {
                    if is_duplicated(names, names[j as int]) {
                        let (i0, j0) = choose|i0: int, j0: int|
                            0 <= i0 < j0 < names.len() && names[i0] == names[j as int]
                                && names[j0] == names[j as int];
                        if i0 != j {
                            assert(names[i0] != names[j as int]);
                        } else {
                            assert(names[j0] != names[j as int]);
                        }
                    }
                };
            }
        }
        if dup {
            let replace = match &cur {
                None => true,
                Some(m) => str_le(&all[j], m),
            };
            if replace {
                cur = Some(all[j].clone());
            }
        }
    }
    match cur {
        None => Ok(()),
        Some(n) => Err(StaticError::DuplicateVariableDefinitions(n)),
    }
}

/// Compiles a lambda literal: checks its names are unique, emits the
/// parameter-popping and parameter-binding body into a fresh function
/// table entry, and yields a symbol loaded with the function reference.
#[verifier::loop_isolation(false)]
#[verifier::rlimit(100)]
fn compile_lambda(
    c: &mut C,
    lam: &Lambda,
    functions: &mut FunctionTable,
    names: Ghost<Map<Seq<char>, u64>>,
) -> (r: Result<(Symbol, Vec<Instr>), StaticError>)
    requires
        old(c).sym_count + 2 * (2 + 2 * lam.params@.len() + pats_binds(
            pats_view(lam.params@),
        ).len()) <= usize::MAX,
        old(c).func_count + 1 <= usize::MAX,
        old(functions)@.len() <= old(c).func_count + 1,
    ensures
        old(functions)@.len() <= final(functions)@.len(),
        final(functions)@.len() <= final(c).func_count + 1,
        ({
            let st0 = CompSt {
                syms: old(c).sym_count as int,
                funcs: old(c).func_count as int,
                table: old(functions)@,
            };
            let st1 = CompSt {
                syms: final(c).sym_count as int,
                funcs: final(c).func_count as int,
                table: final(functions)@,
            };
            match r {
                Ok((sym, prog)) => compile_lit_spec(Lit::Lambda(*lam), names@, st0) == Ok::<
                    (Symbol, Seq<InstrV>, CompSt),
                    (StaticErrorV, CompSt),
                >((sym, instrs_view(prog@), st1)),
                Err(e) => compile_lit_spec(Lit::Lambda(*lam), names@, st0) == Err::<
                    (Symbol, Seq<InstrV>, CompSt),
                    (StaticErrorV, CompSt),
                >((e@, st1)),
            }
        }),
        old(c).sym_count <= final(c).sym_count <= old(c).sym_count + 2 * (2 + 2
            * lam.params@.len() + pats_binds(pats_view(lam.params@)).len()),
        old(c).func_count <= final(c).func_count <= old(c).func_count + 1,
{
    let ghost all_binds = pats_binds(pats_view(lam.params@));
    match lambda_variables_are_unique(lam) {
        Err(e) => {
            return Err(e);
        },
        Ok(()) => {},
    }
    let k = lam.params.len();
    let ghost base = old(c).sym_count as int;
    let mut func_body: Vec<Instr> = Vec::new();
    let mut pre: Vec<Symbol> = Vec::new();
    proof {
        lemma_pats_view(lam.params@);
        assert(instrs_view(func_body@) =~= pop_instrs(base, 0));
    }
    let mut i: usize = 0;
    while i < k
        invariant
            i <= k,
            c.sym_count as int == base + i,
            c.func_count == old(c).func_count,
            pre@.len() == i,
            forall|j: int| 0 <= j < i ==> pre@[j] == Symbol((base + 1 + j) as usize),
            instrs_view(func_body@) == pop_instrs(base, i as int),
            functions@ == old(functions)@,
        decreases k - i,
    {
        let s = c.symbol();
        pre.push(s);
        let ghost fb = func_body@;
        func_body.push(Instr::PopParam(s));
        i = i + 1;
        proof {
            lemma_instrs_view_push(fb, Instr::PopParam(s));
            assert(instrs_view(func_body@) =~= pop_instrs(base, i as int));
        }
    }
    let ghost pops_v = instrs_view(func_body@);
    let ghost built0: Seq<InstrV> = Seq::empty();
    let ghost mut built_v = built0;
    let mut pi: usize = 0;
    proof {
        assert(lam.params@.subrange(0, k as int) =~= lam.params@);
        assert(pats_view(lam.params@).subrange(0, 0) =~= Seq::<crate::ast::PatV>::empty());
        assert(pats_binds(Seq::<crate::ast::PatV>::empty()) == Seq::<Seq<char>>::empty());
        assert(pats_view(lam.params@).subrange(0, k as int) =~= pats_view(lam.params@));
        assert(pops_v + built_v =~= instrs_view(func_body@));
    }
    while pi < k
        invariant
            pi <= k,
            k == lam.params@.len(),
            pre@.len() == k,
            forall|j: int| 0 <= j < k ==> pre@[j] == Symbol((base + 1 + j) as usize),
            functions@ == old(functions)@,
            c.func_count == old(c).func_count,
            c.sym_count as int == base + k + pi + pats_binds(
                pats_view(lam.params@).subrange(0, pi as int),
            ).len(),
            pats_binds(pats_view(lam.params@).subrange(0, pi as int)).len() + pats_binds(
                pats_view(lam.params@).subrange(pi as int, k as int),
            ).len() == all_binds.len(),
            instrs_view(func_body@) == pops_v + built_v,
            param_binds_spec(lam.params@, base + k, base + k) == ({
                let (rest, s2) = param_binds_spec(
                    lam.params@.subrange(pi as int, k as int),
                    base + k - pi,
                    c.sym_count as int,
                );
                (built_v + rest, s2)
            }),
        decreases k - pi,
    {
        let ghost params_v = pats_view(lam.params@);
        proof {
            lemma_pats_view(lam.params@);
            lemma_pats_binds_split(params_v, pi as int);
            lemma_pats_binds_snoc(params_v, pi as int);
            lemma_pats_binds_split(params_v, pi + 1);
            assert(lam.params@.subrange(pi as int, k as int)[0] == lam.params@[pi as int]);
            assert(lam.params@.subrange(pi as int, k as int).subrange(
                1,
                (k - pi) as int,
            ) =~= lam.params@.subrange(pi + 1, k as int));
        }
        let result = c.symbol();
        let binds: Vec<String> = {
            let p: &Pat = &lam.params[pi];
            p.variables_to_bind()
        };
        let ghost binds_v = pat_binds(pat_view(lam.params@[pi as int]));
        let ghost syms0 = c.sym_count as int;
        let mut vts: Vec<(String, Symbol)> = Vec::new();
        let mut bj: usize = 0;
        while bj < binds.len()
            invariant
                bj <= binds@.len(),
                binds.deep_view() == binds_v,
                c.sym_count as int == syms0 + bj,
                c.func_count == old(c).func_count,
                syms0 + binds_v.len() < usize::MAX,
                vts@.len() == bj,
                forall|j: int|
                    0 <= j < bj ==> vts.deep_view()[j] == (
                        binds_v[j],
                        Symbol((syms0 + 1 + j) as usize),
                    ),
            decreases binds@.len() - bj,
        {
            let s = c.symbol();
            let ghost prev_vts = vts@;
            let ghost prev_dv = vts.deep_view();
            let pair = (binds[bj].clone(), s);
            let ghost pair_g = pair;
            vts.push(pair);
            bj = bj + 1;
            proof {
                assert(binds.deep_view()[bj - 1] == binds_v[bj - 1]);
                assert forall|j: int| 0 <= j < bj implies vts.deep_view()[j] == (
                    binds_v[j],
                    Symbol((syms0 + 1 + j) as usize),
                ) by {
                    assert(vts.deep_view()[j] == vts@[j].deep_view());
                    if j < bj - 1 {
                        assert(vts@[j] == prev_vts[j]);
                        assert(prev_dv[j] == prev_vts[j].deep_view());
                        assert(prev_dv[j] == (binds_v[j], Symbol((syms0 + 1 + j) as usize)));
                    } else {
                        assert(vts@[j] == pair_g);
                        assert(pair_g.deep_view() == (binds_v[j], Symbol((syms0 + 1 + j) as usize)));
                    }
                }
            }
        }
        proof {
            assert(vts.deep_view() =~= Seq::new(
                binds_v.len(),
                |j: int| (binds_v[j], Symbol((syms0 + 1 + j) as usize)),
            ));
        }
        let data_sym = pre[k - 1 - pi];
        let pattern_copy = {
            let p: &Pat = &lam.params[pi];
            p.dup()
        };
        let ghost fb = func_body@;
        func_body.push(instr::pattern_match(data_sym, pattern_copy, result, vts));
        proof {
            lemma_instrs_view_push(
                fb,
                func_body@.last(),
            );
        }
        let ghost fb2 = func_body@;
        func_body.push(instr::panic_on_false(result, String::new()));
        pi = pi + 1;
        proof {
            lemma_instrs_view_push(fb2, func_body@.last());
            let prev_built = built_v;
            let step2 = seq![
                InstrV::PatternMatch {
                    data: Symbol((base + k - (pi - 1)) as usize),
                    pattern: pat_view(lam.params@[pi - 1]),
                    result,
                    var_to_sym: Seq::new(
                        binds_v.len(),
                        |j: int| (binds_v[j], Symbol((syms0 + 1 + j) as usize)),
                    ),
                },
                InstrV::PanicOnFalse(result, Seq::empty()),
            ];
            built_v = prev_built + step2;
            assert(instrs_view(func_body@) =~= pops_v + built_v);
            assert(lam.params@.subrange(pi - 1, k as int).subrange(
                1,
                (k - (pi - 1)) as int,
            ) =~= lam.params@.subrange(pi as int, k as int));
            let rest_pair = param_binds_spec(
                lam.params@.subrange(pi as int, k as int),
                base + k - pi,
                c.sym_count as int,
            );
            assert((prev_built + (step2 + rest_pair.0)) =~= (built_v + rest_pair.0));
        }
    }
    proof {
        assert(lam.params@.subrange(k as int, k as int).len() == 0);
        assert(pats_view(lam.params@).subrange(0, k as int) =~= pats_view(lam.params@));
        lemma_pats_view(lam.params@);
        assert(built_v + Seq::<InstrV>::empty() =~= built_v);
    }
    let func_address = c.func();
    let ghost t_before = functions@;
    functions.insert(func_address, func_body);
    proof {
        if func_address.0 as int >= t_before.len() {
            crate::instr::lemma_empty_bodies_len(func_address.0 - t_before.len());
        }
        assert(functions@.len() <= func_address.0 + 1);
        assert(t_before.len() <= functions@.len());
    }
    let func_address_sym = c.symbol();
    let mut prog: Vec<Instr> = Vec::new();
    prog.push(Instr::LoadFunc(func_address_sym, func_address));
    proof {
        lemma_instrs_view(prog@);
        assert(instrs_view(prog@) =~= seq![InstrV::LoadFunc(func_address_sym, func_address)]);
    }
    Ok((func_address_sym, prog))
}

} // verus!
