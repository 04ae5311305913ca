//! The session evaluator: drives one top-level form at a time. Each
//! `let` compiles its expression, runs it through the engine, matches the
//! result against the `let`'s pattern, and commits the captured bindings
//! into the session; a trailing expression compiles, runs, and renders.
//! The session is never rolled back on error: bindings committed by
//! earlier `let`s of the same form remain in effect.

use vstd::prelude::*;
use crate::ast::Expr;
use crate::ast::Lit;
use crate::ast::Let;
use crate::ast::Top;
use crate::compiler::compile;
use crate::compiler::compile_spec;
use crate::compiler::compile_lit_spec;
use crate::compiler::CompSt;
use crate::compiler::expr_size;
use crate::compiler::lemma_lit_size_pos;
use crate::data::Context;
use crate::display::print_data;
use crate::display::render_spec;
use crate::engine::RunOutcome;
use crate::engine::lemma_run_spec_heap_len;
use crate::engine::resolve_for_match;
use crate::engine::run;
use crate::engine::run_spec;
use crate::engine::step_instrs;
use crate::error::EvalError;
use crate::error::EvalErrorV;
use crate::error::RuntimeError;
use crate::error::RuntimeErrorV;
use crate::instr::Data;
use crate::instr::Symbol;
use crate::instr::Func;
use crate::instr::InstrV;
use crate::instr::RegV;
use crate::instr::table_insert;
use crate::pattern_matcher::MatchResult;
use crate::pattern_matcher::pattern_match;
use crate::pattern_matcher::pm;
use crate::runtime::DataV;
use crate::numbers::NumV;
use crate::runtime::RuntimeData;

verus! {

/// The mathematical value of a session: its names, function table, and
/// heap.
#[verifier::ext_equal]
pub struct SessionV {
    pub names: Map<Seq<char>, u64>,
    pub table: Seq<Seq<InstrV>>,
    pub heap: Seq<DataV>,
}

/// The outcome of evaluating a top-level form: an optional display text,
/// or the error that aborted it — either way with the session as it
/// stands after, since nothing is rolled back.
#[verifier::ext_equal]
pub enum EvalOut {
    Done(Option<Seq<char>>, SessionV),
    Failed(EvalErrorV, SessionV),
}

/// The total size measure of a top-level form's expressions.
pub open spec fn top_size(t: Top) -> int {
    lets_sizes(t.lets@) + (match t.expr {
        Some(e) => expr_size(e),
        None => 0int,
    })
}

/// The total size measure of the expressions of a sequence of `let`s.
pub open spec fn lets_sizes(ls: Seq<Let>) -> int
    decreases ls,
{
    if ls.len() == 0 {
        0
    } else {
        expr_size(ls[0].expr) + lets_sizes(ls.subrange(1, ls.len() as int))
    }
}

/// An expression's size is not negative.
pub proof fn lemma_expr_size_nonneg(e: Expr)
    ensures
        expr_size(e) >= 0,
{
    match e {
        Expr::Literal(l) => lemma_lit_size_pos(l),
        Expr::Call(_, _) => {},
    }
}

/// Partial sums of `let` sizes are bounded by the total.
pub proof fn lemma_lets_sizes_parts(ls: Seq<Let>)
    ensures
        lets_sizes(ls) >= 0,
        forall|i: int|
            0 <= i < ls.len() ==> lets_sizes(ls.subrange(i, ls.len() as int)) == expr_size(
                ls[i].expr,
            ) + lets_sizes(ls.subrange(i + 1, ls.len() as int)),
        forall|i: int| 0 <= i <= ls.len() ==> lets_sizes(ls.subrange(i, ls.len() as int)) >= 0,
        forall|i: int|
            0 <= i <= ls.len() ==> lets_sizes(ls.subrange(i, ls.len() as int)) <= lets_sizes(ls),
    decreases ls.len(),
{
    if ls.len() > 0 {
        let tail = ls.subrange(1, ls.len() as int);
        lemma_lets_sizes_parts(tail);
        lemma_expr_size_nonneg(ls[0].expr);
        assert forall|i: int| 1 <= i < ls.len() implies lets_sizes(ls.subrange(i, ls.len() as int))
            == expr_size(ls[i].expr) + lets_sizes(ls.subrange(i + 1, ls.len() as int)) by {
            assert(ls.subrange(i, ls.len() as int) =~= tail.subrange(i - 1, tail.len() as int));
            assert(ls.subrange(i + 1, ls.len() as int) =~= tail.subrange(i, tail.len() as int));
            assert(tail[i - 1] == ls[i]);
        }
        assert forall|i: int| 1 <= i <= ls.len() implies lets_sizes(ls.subrange(i, ls.len() as int))
            >= 0 && lets_sizes(ls.subrange(i, ls.len() as int)) <= lets_sizes(ls) by {
            assert(ls.subrange(i, ls.len() as int) =~= tail.subrange(i - 1, tail.len() as int));
        }
        assert(ls.subrange(0, ls.len() as int) =~= ls);
    } else {
        assert(ls.subrange(0, ls.len() as int) =~= ls);
    }
}

/// Commits captured bindings in order: each value is stored at a fresh
/// heap address and its name bound to that address. A name already bound
/// is an error; bindings committed before it are kept, never rolled
/// back.
pub open spec fn commit_env(
    env: Seq<(Seq<char>, DataV)>,
    names: Map<Seq<char>, u64>,
    heap: Seq<DataV>,
) -> Result<(Map<Seq<char>, u64>, Seq<DataV>), (RuntimeErrorV, Map<Seq<char>, u64>, Seq<DataV>)>
    decreases env,
{
    if env.len() == 0 {
        Ok((names, heap))
    } else if names.contains_key(env[0].0) {
        Err((RuntimeErrorV::CannotSetBoundVariable(env[0].0), names, heap))
    } else {
        commit_env(
            env.subrange(1, env.len() as int),
            names.insert(env[0].0, heap.len() as u64),
            heap.push(env[0].1),
        )
    }
}

/// What compiling and running one expression against the session yields:
/// the engine's result (or none) and the session after, or the error that
/// stopped it and the session as it stands then. The compiled sequence
/// is installed as the entry function, overwriting the previous one.
pub open spec fn run_expr_spec(e: Expr, s: SessionV) -> Result<
    (Option<RegV>, SessionV),
    (EvalErrorV, SessionV),
> {
    match compile_spec(e, s.names, s.table) {
        Err((err, t2)) => Err(
            (EvalErrorV::Static(err), SessionV { names: s.names, table: t2, heap: s.heap }),
        ),
        Ok((prog, t2)) => {
            let t3 = table_insert(t2, 0, prog);
            match run_spec(t3, s.heap) {
                RunOutcome::Failed(e2, h2) => Err(
                    (e2, SessionV { names: s.names, table: t3, heap: h2 }),
                ),
                RunOutcome::Done(out, h2) => Ok(
                    (out, SessionV { names: s.names, table: t3, heap: h2 }),
                ),
            }
        },
    }
}

/// What evaluating a top-level form yields: each `let` in order compiles,
/// runs, has its result resolved through the heap and matched against its
/// pattern, and commits the captured bindings — a run that produces no
/// result skips to the next `let` unchanged; a failed match is an error.
/// After all `let`s, a trailing expression compiles, runs, and renders
/// its value; without one the form produces no output.
pub open spec fn eval_spec(lets: Seq<Let>, expr: Option<Expr>, s: SessionV) -> EvalOut
    decreases lets,
{
    if lets.len() > 0 {
        match run_expr_spec(lets[0].expr, s) {
            Err((e, s2)) => EvalOut::Failed(e, s2),
            Ok((None, s2)) => eval_spec(lets.subrange(1, lets.len() as int), expr, s2),
            Ok((Some(reg), s2)) => {
                match resolve_for_match(reg, s2.heap) {
                    Err(de) => EvalOut::Failed(EvalErrorV::Dynamic(de), s2),
                    Ok(val) => match pm(lets[0].pattern@, val) {
                        crate::pattern_matcher::MatchResultV::Fatal(re) => EvalOut::Failed(
                            EvalErrorV::Runtime(re),
                            s2,
                        ),
                        crate::pattern_matcher::MatchResultV::NoMatch => EvalOut::Failed(
                            EvalErrorV::Runtime(RuntimeErrorV::PatternMatchFailed),
                            s2,
                        ),
                        crate::pattern_matcher::MatchResultV::Env(env) => {
                            match commit_env(env, s2.names, s2.heap) {
                                Err((re, n2, h2)) => EvalOut::Failed(
                                    EvalErrorV::Runtime(re),
                                    SessionV { names: n2, table: s2.table, heap: h2 },
                                ),
                                Ok((n2, h2)) => eval_spec(
                                    lets.subrange(1, lets.len() as int),
                                    expr,
                                    SessionV { names: n2, table: s2.table, heap: h2 },
                                ),
                            }
                        },
                    },
                }
            },
        }
    } else {
        match expr {
            None => EvalOut::Done(None, s),
            Some(e) => match run_expr_spec(e, s) {
                Err((err, s2)) => EvalOut::Failed(err, s2),
                Ok((None, s2)) => EvalOut::Done(None, s2),
                Ok((Some(reg), s2)) => {
                    let val = match reg {
                        RegV::Func(f) => DataV::Function(f),
                        RegV::Value(v) => v,
                    };
                    EvalOut::Done(Some(render_spec(val, s2.heap, s2.heap.len() as int)), s2)
                },
            },
        }
    }
}

/// Evaluates one top-level form against the session: its `let`s in
/// order, then its trailing expression if any. The session is never
/// rolled back: what an earlier `let` committed stays committed, every
/// name bound before keeps its address, and the heap never shrinks.
#[verifier::loop_isolation(false)]
#[verifier::rlimit(100)]
pub fn eval(input: Top, context: &mut Context) -> (r: Result<Option<String>, EvalError>)
    requires
        2 * top_size(input) + 2 <= usize::MAX,
        old(context).functions@.len() + 2 * top_size(input) + 2 * input.lets@.len() + 4 <= usize::MAX,
    ensures
        ({
            let s0 = SessionV {
                names: old(context).address_map@,
                table: old(context).functions@,
                heap: old(context).heap@,
            };
            let s1 = SessionV {
                names: final(context).address_map@,
                table: final(context).functions@,
                heap: final(context).heap@,
            };
            match r {
                Ok(out) => eval_spec(input.lets@, input.expr, s0) == EvalOut::Done(
                    out.deep_view(),
                    s1,
                ),
                Err(e) => eval_spec(input.lets@, input.expr, s0) == EvalOut::Failed(e@, s1),
            }
        }),
        old(context).heap@.len() <= final(context).heap@.len(),
        forall|n: Seq<char>|
            #[trigger] old(context).address_map@.contains_key(n)
                ==> final(context).address_map@.contains_key(n)
                && final(context).address_map@[n] == old(context).address_map@[n],
{
    let ghost s0 = SessionV {
        names: old(context).address_map@,
        table: old(context).functions@,
        heap: old(context).heap@,
    };
    let ghost lets_v = input.lets@;
    let ghost len0 = old(context).functions@.len() as int;
    proof {
        lemma_lets_sizes_parts(lets_v);
        assert(lets_v.subrange(0, lets_v.len() as int) =~= lets_v);
        match &input.expr {
            Some(e) => lemma_expr_size_nonneg(*e),
            None => {},
        }
    }
    let mut i: usize = 0;
    while i < input.lets.len()
        invariant
            i <= lets_v.len(),
            eval_spec(lets_v, input.expr, s0) == eval_spec(
                lets_v.subrange(i as int, lets_v.len() as int),
                input.expr,
                SessionV {
                    names: context.address_map@,
                    table: context.functions@,
                    heap: context.heap@,
                },
            ),
            context.functions@.len() <= len0 + (lets_sizes(lets_v) - lets_sizes(
                lets_v.subrange(i as int, lets_v.len() as int),
            )) + 2 * (i as int) + 2,
            old(context).heap@.len() <= context.heap@.len(),
            forall|n: Seq<char>|
                #[trigger] old(context).address_map@.contains_key(n)
                    ==> context.address_map@.contains_key(n)
                    && context.address_map@[n] == old(context).address_map@[n],
        decreases lets_v.len() - i,
    {
        let ghost rest = lets_v.subrange(i as int, lets_v.len() as int);
        let ghost s_head = SessionV {
            names: context.address_map@,
            table: context.functions@,
            heap: context.heap@,
        };
        proof {
            assert(rest[0] == lets_v[i as int]);
            assert(rest.subrange(1, rest.len() as int) =~= lets_v.subrange(
                i + 1,
                lets_v.len() as int,
            ));
            lemma_expr_size_nonneg(lets_v[i as int].expr);
        }
        let program = match compile(
            &input.lets[i].expr,
            &context.address_map,
            &mut context.functions,
        ) {
            Err(e) => {
                return Err(EvalError::Static(e));
            },
            Ok(p) => p,
        };
        context.functions.insert(Func(0), program);
        let ghost pre_run_heap = context.heap@;
        proof {
            lemma_run_spec_heap_len(context.functions@, context.heap@);
        }
        let result = match run(&context.functions, &mut context.heap) {
            Err(e) => {
                return Err(e);
            },
            Ok(res) => res,
        };
        let ghost s_run = SessionV {
            names: s_head.names,
            table: context.functions@,
            heap: context.heap@,
        };
        let ghost result_v = result.deep_view();
        proof {
            assert(run_expr_spec(lets_v[i as int].expr, s_head) == Ok::<
                (Option<RegV>, SessionV),
                (EvalErrorV, SessionV),
            >((result_v, s_run)));
        }
        match result {
            None => {},
            Some(reg) => {
                let ghost reg_v = reg@;
                let resolved: RuntimeData = match reg {
                    Data::Func(f) => RuntimeData::Function(f),
                    Data::Value(RuntimeData::Address(a)) => {
                        match context.heap.get(a) {
                            None => {
                                return Err(
                                    EvalError::Dynamic(
                                        crate::error::DynamicError::CannotFindHeapAddress,
                                    ),
                                );
                            },
                            Some(pointee) => pointee.dup(),
                        }
                    },
                    Data::Value(v) => v,
                };
                proof {
                    assert(resolve_for_match(reg_v, s_run.heap) == Ok::<DataV, crate::error::DynamicErrorV>(resolved@));
                }
                match pattern_match(&input.lets[i].pattern, &resolved) {
                    MatchResult::Fatal(e) => {
                        return Err(EvalError::Runtime(e));
                    },
                    MatchResult::NoMatch => {
                        return Err(EvalError::Runtime(RuntimeError::PatternMatchFailed));
                    },
                    MatchResult::Env(bounds) => {
                        let ghost env_v = bounds.deep_view();
                        let ghost names0 = context.address_map@;
                        let ghost heap0 = context.heap@;
                        let mut bi: usize = 0;
                        proof {
                            assert(env_v.subrange(0, env_v.len() as int) =~= env_v);
                        }
                        while bi < bounds.len()
                            invariant
                                bi <= bounds@.len(),
                                env_v == bounds.deep_view(),
                                context.functions@ == s_run.table,
                                commit_env(env_v, names0, heap0) == commit_env(
                                    env_v.subrange(bi as int, env_v.len() as int),
                                    context.address_map@,
                                    context.heap@,
                                ),
                                heap0.len() <= context.heap@.len(),
                                forall|n: Seq<char>|
                                    #[trigger] names0.contains_key(n)
                                        ==> context.address_map@.contains_key(n)
                                        && context.address_map@[n] == names0[n],
                            decreases bounds@.len() - bi,
                        {
                            let ghost env_rest = env_v.subrange(bi as int, env_v.len() as int);
                            proof {
                                assert(env_rest[0] == env_v[bi as int]);
                                assert(env_rest.subrange(1, env_rest.len() as int)
                                    =~= env_v.subrange(bi + 1, env_v.len() as int));
                            }
                            let b = bounds[bi].dup();
                            if context.address_map.contains(&b.name) {
                                proof {
                                    assert(commit_env(
                                        env_rest,
                                        context.address_map@,
                                        context.heap@,
                                    ) == Err::<
                                        (Map<Seq<char>, u64>, Seq<DataV>),
                                        (RuntimeErrorV, Map<Seq<char>, u64>, Seq<DataV>),
                                    >((
                                        RuntimeErrorV::CannotSetBoundVariable(
                                            env_v[bi as int].0,
                                        ),
                                        context.address_map@,
                                        context.heap@,
                                    )));
                                }
                                return Err(
                                    EvalError::Runtime(
                                        RuntimeError::CannotSetBoundVariable(b.name),
                                    ),
                                );
                            }
                            let address = context.heap.insert_new(b.data);
                            match context.address_map.set(b.name, address) {
                                Ok(()) => {},
                                Err(e) => {
                                    return Err(EvalError::Runtime(e));
                                },
                            }
                            bi = bi + 1;
                        }
                        proof {
                            assert(env_v.subrange(env_v.len() as int, env_v.len() as int).len()
                                == 0);
                            assert(commit_env(env_v, names0, heap0) == Ok::<
                                (Map<Seq<char>, u64>, Seq<DataV>),
                                (RuntimeErrorV, Map<Seq<char>, u64>, Seq<DataV>),
                            >((context.address_map@, context.heap@)));
                        }
                    },
                }
            },
        }
        i = i + 1;
        proof {
            assert(eval_spec(lets_v, input.expr, s0) == eval_spec(
                lets_v.subrange(i as int, lets_v.len() as int),
                input.expr,
                SessionV {
                    names: context.address_map@,
                    table: context.functions@,
                    heap: context.heap@,
                },
            ));
        }
    }
    proof {
        assert(lets_v.subrange(lets_v.len() as int, lets_v.len() as int).len() == 0);
    }
    match &input.expr {
        None => Ok(None),
        Some(e) => {
            let program = match compile(e, &context.address_map, &mut context.functions) {
                Err(err) => {
                    return Err(EvalError::Static(err));
                },
                Ok(p) => p,
            };
            context.functions.insert(Func(0), program);
            proof {
                lemma_run_spec_heap_len(context.functions@, context.heap@);
            }
            let result = match run(&context.functions, &mut context.heap) {
                Err(err) => {
                    return Err(err);
                },
                Ok(res) => res,
            };
            match result {
                None => Ok(None),
                Some(Data::Value(v)) => {
                    let depth = context.heap.len();
                    Ok(Some(print_data(&v, &context.heap, depth)))
                },
                Some(Data::Func(f)) => {
                    let depth = context.heap.len();
                    Ok(Some(print_data(&RuntimeData::Function(f), &context.heap, depth)))
                },
            }
        },
    }
}


/// The display text of a scalar literal: its number's fixed text, its
/// string re-quoted, or its symbol's name.
pub open spec fn scalar_text(l: Lit) -> Seq<char> {
    match l {
        Lit::Number(n) => n@.text,
        Lit::String(x) => seq!['"'] + x@ + seq!['"'],
        Lit::Symbol(x) => x@,
        _ => Seq::empty(),
    }
}

/// Rendering round-trip for scalar literals: compiling a top-level form
/// whose trailing expression is a number, string or symbol literal,
/// executing it, and rendering the result reproduces the literal's
/// textual form exactly (strings re-quoted); the session's names and
/// heap are untouched.
pub proof fn lemma_scalar_round_trip(l: Lit, s: SessionV)
    requires
        l is Number || l is String || l is Symbol,
    ensures
        ({
            let out = eval_spec(Seq::empty(), Some(Expr::Literal(l)), s);
            &&& out matches EvalOut::Done(t, s2)
            &&& out->Done_0 == Some(scalar_text(l))
            &&& out->Done_1.names == s.names
            &&& out->Done_1.heap == s.heap
        }),
{
    let st0 = crate::compiler::start_state(s.table);
    let sym = Symbol(1);
    let v: DataV = match l {
        Lit::Number(n) => DataV::Number(n@),
        Lit::String(x) => DataV::String(x@),
        Lit::Symbol(x) => DataV::Symbol(x@),
        _ => DataV::Number(NumV { bits: 0, text: Seq::empty() }),
    };
    assert(compile_lit_spec(l, s.names, st0) == Ok::<(Symbol, Seq<InstrV>, CompSt), (
        crate::error::StaticErrorV,
        CompSt,
    )>((
        sym,
        seq![InstrV::LoadValue(sym, v)],
        CompSt { syms: 1, funcs: st0.funcs, table: s.table },
    )));
    let prog = seq![InstrV::LoadValue(sym, v)].push(InstrV::Return(sym));
    assert(compile_spec(Expr::Literal(l), s.names, s.table) == Ok::<
        (Seq<InstrV>, Seq<Seq<InstrV>>),
        (crate::error::StaticErrorV, Seq<Seq<InstrV>>),
    >((prog, s.table)));
    let t3 = table_insert(s.table, 0, prog);
    if s.table.len() == 0 {
        assert(t3 =~= Seq::empty() + crate::instr::empty_bodies(0) + seq![prog]);
        assert(crate::instr::empty_bodies(0) == Seq::<Seq<InstrV>>::empty());
        assert(t3[0] == prog);
    } else {
        assert(t3[0] == prog);
    }
    assert(t3.len() > 0);
    let l0 = Map::<Symbol, RegV>::empty();
    let l1 = l0.insert(sym, RegV::Value(v));
    assert(prog.subrange(1, 2) =~= seq![InstrV::Return(sym)]);
    assert(seq![InstrV::Return(sym)].subrange(1, 1) =~= Seq::<InstrV>::empty());
    assert(step_instrs(prog, l0, Seq::empty(), s.heap) == step_instrs(
        seq![InstrV::Return(sym)],
        l1,
        Seq::empty(),
        s.heap,
    ));
    assert(l1.contains_key(sym));
    assert(step_instrs(seq![InstrV::Return(sym)], l1, Seq::empty(), s.heap)
        == RunOutcome::Done(Some(RegV::Value(v)), s.heap));
    assert(run_spec(t3, s.heap) == RunOutcome::Done(Some(RegV::Value(v)), s.heap));
    let s2 = SessionV { names: s.names, table: t3, heap: s.heap };
    assert(run_expr_spec(Expr::Literal(l), s) == Ok::<(Option<RegV>, SessionV), (
        EvalErrorV,
        SessionV,
    )>((Some(RegV::Value(v)), s2)));
    assert(render_spec(v, s.heap, s.heap.len() as int) == scalar_text(l));
}


/// Compiling a top-level expression that is a two-element number list and
/// executing it allocates exactly one new heap address — the container's,
/// one past the old heap end — whose slot ends holding the two numbers in
/// source order; the compiled program's result is that address, and the
/// session's names are untouched.
pub proof fn lemma_list_pair_round_trip(l: Lit, s: SessionV)
    requires
        l matches Lit::List(xs) && xs@.len() == 2 && xs@[0] is Number && xs@[1] is Number,
        s.heap.len() <= u64::MAX,
    ensures
        ({
            let xs = l->List_0;
            let contents = seq![
                DataV::Number(xs@[0]->Number_0@),
                DataV::Number(xs@[1]->Number_0@),
            ];
            let out = run_expr_spec(Expr::Literal(l), s);
            &&& out is Ok
            &&& out->Ok_0.0 == Some(RegV::Value(DataV::Address(s.heap.len() as u64)))
            &&& out->Ok_0.1.heap == s.heap.push(DataV::List(contents))
            &&& out->Ok_0.1.names == s.names
        }),
{
    let st0 = crate::compiler::start_state(s.table);
    let xs = l->List_0;
    let na = DataV::Number(xs@[0]->Number_0@);
    let nb = DataV::Number(xs@[1]->Number_0@);
    let s1 = Symbol(1);
    let s2 = Symbol(2);
    let s3 = Symbol(3);
    let s4 = Symbol(4);

    // The compiler's trace: both elements, then the container.
    let st1 = CompSt { syms: 1, funcs: st0.funcs, table: st0.table };
    let st2 = CompSt { syms: 2, funcs: st0.funcs, table: st0.table };
    assert(compile_lit_spec(xs@[0], s.names, st0) == Ok::<(Symbol, Seq<InstrV>, CompSt), (
        crate::error::StaticErrorV,
        CompSt,
    )>((s1, seq![InstrV::LoadValue(s1, na)], st1)));
    let tail = xs@.subrange(1, 2);
    assert(tail[0] == xs@[1]);
    assert(compile_lit_spec(tail[0], s.names, st1) == Ok::<(Symbol, Seq<InstrV>, CompSt), (
        crate::error::StaticErrorV,
        CompSt,
    )>((s2, seq![InstrV::LoadValue(s2, nb)], st2)));
    assert(tail.subrange(1, 1).len() == 0);
    assert(crate::compiler::compile_lits_spec(tail.subrange(1, 1), s.names, st2)
        == Ok::<(Seq<Symbol>, Seq<InstrV>, CompSt), (crate::error::StaticErrorV, CompSt)>((
        Seq::empty(),
        Seq::empty(),
        st2,
    )));
    assert(tail.subrange(1, tail.len() as int) =~= tail.subrange(1, 1));
    assert(seq![s2] + Seq::<Symbol>::empty() =~= seq![s2]);
    assert(seq![InstrV::LoadValue(s2, nb)] + Seq::<InstrV>::empty() =~= seq![
        InstrV::LoadValue(s2, nb),
    ]);
    assert(xs@.subrange(1, xs@.len() as int) =~= tail);
    assert(seq![s1] + seq![s2] =~= seq![s1, s2]);
    assert(seq![InstrV::LoadValue(s1, na)] + seq![InstrV::LoadValue(s2, nb)] =~= seq![
        InstrV::LoadValue(s1, na),
        InstrV::LoadValue(s2, nb),
    ]);
    assert(crate::compiler::compile_lits_spec(tail, s.names, st1) == Ok::<
        (Seq<Symbol>, Seq<InstrV>, CompSt),
        (crate::error::StaticErrorV, CompSt),
    >((seq![s2], seq![InstrV::LoadValue(s2, nb)], st2)));
    assert(crate::compiler::compile_lits_spec(xs@, s.names, st0) == Ok::<
        (Seq<Symbol>, Seq<InstrV>, CompSt),
        (crate::error::StaticErrorV, CompSt),
    >((seq![s1, s2], seq![InstrV::LoadValue(s1, na), InstrV::LoadValue(s2, nb)], st2)));

    let body6 = seq![
        InstrV::LoadValue(s3, DataV::List(Seq::empty())),
        InstrV::InsertIntoHeap(s3, s4),
        InstrV::LoadValue(s1, na),
        InstrV::LoadValue(s2, nb),
        InstrV::PushIntoListInHeap(s1, s4),
        InstrV::PushIntoListInHeap(s2, s4),
    ];
    assert(crate::compiler::push_list_instrs(seq![s1, s2], s4) =~= seq![
        InstrV::PushIntoListInHeap(s1, s4),
        InstrV::PushIntoListInHeap(s2, s4),
    ]);
    assert(seq![
        InstrV::LoadValue(s3, DataV::List(Seq::empty())),
        InstrV::InsertIntoHeap(s3, s4),
    ] + seq![InstrV::LoadValue(s1, na), InstrV::LoadValue(s2, nb)] + crate::compiler::push_list_instrs(
        seq![s1, s2],
        s4,
    ) =~= body6);
    assert(compile_lit_spec(l, s.names, st0) == Ok::<(Symbol, Seq<InstrV>, CompSt), (
        crate::error::StaticErrorV,
        CompSt,
    )>((s4, body6, CompSt { syms: 4, funcs: st0.funcs, table: st0.table })));

    let prog = body6.push(InstrV::Return(s4));
    assert(compile_spec(Expr::Literal(l), s.names, s.table) == Ok::<
        (Seq<InstrV>, Seq<Seq<InstrV>>),
        (crate::error::StaticErrorV, Seq<Seq<InstrV>>),
    >((prog, s.table)));

    // The entry function is installed at id zero.
    let t3 = table_insert(s.table, 0, prog);
    if s.table.len() == 0 {
        assert(t3 =~= Seq::empty() + crate::instr::empty_bodies(0) + seq![prog]);
        assert(crate::instr::empty_bodies(0) == Seq::<Seq<InstrV>>::empty());
        assert(t3[0] == prog);
    } else {
        assert(t3[0] == prog);
    }
    assert(t3.len() > 0);

    // The engine's trace: one insertion for the container, then the two
    // in-place appends.
    let a0 = s.heap.len() as u64;
    let l0 = Map::<Symbol, RegV>::empty();
    let l1 = l0.insert(s3, RegV::Value(DataV::List(Seq::empty())));
    let l2 = l1.insert(s4, RegV::Value(DataV::Address(a0)));
    let l3 = l2.insert(s1, RegV::Value(na));
    let l4 = l3.insert(s2, RegV::Value(nb));
    let h1 = s.heap.push(DataV::List(Seq::empty()));
    let h2 = h1.update(a0 as int, DataV::List(Seq::empty().push(na)));
    let h3 = h2.update(a0 as int, DataV::List(Seq::empty().push(na).push(nb)));
    let p1 = prog.subrange(1, 7);
    let p2 = prog.subrange(2, 7);
    let p3 = prog.subrange(3, 7);
    let p4 = prog.subrange(4, 7);
    let p5 = prog.subrange(5, 7);
    let p6 = prog.subrange(6, 7);
    assert(prog.len() == 7);
    assert(p1.subrange(1, p1.len() as int) =~= p2);
    assert(p2.subrange(1, p2.len() as int) =~= p3);
    assert(p3.subrange(1, p3.len() as int) =~= p4);
    assert(p4.subrange(1, p4.len() as int) =~= p5);
    assert(p5.subrange(1, p5.len() as int) =~= p6);
    assert(p6.subrange(1, p6.len() as int).len() == 0);
    let params = Seq::<RegV>::empty();
    assert(step_instrs(prog, l0, params, s.heap) == step_instrs(p1, l1, params, s.heap));
    assert(step_instrs(p1, l1, params, s.heap) == step_instrs(p2, l2, params, h1));
    assert(step_instrs(p2, l2, params, h1) == step_instrs(p3, l3, params, h1));
    assert(step_instrs(p3, l3, params, h1) == step_instrs(p4, l4, params, h1));
    assert(h1[a0 as int] == DataV::List(Seq::empty()));
    assert(step_instrs(p4, l4, params, h1) == step_instrs(p5, l4, params, h2));
    assert(h2[a0 as int] == DataV::List(Seq::empty().push(na)));
    assert(step_instrs(p5, l4, params, h2) == step_instrs(p6, l4, params, h3));
    assert(l4.contains_key(s4));
    assert(step_instrs(p6, l4, params, h3) == RunOutcome::Done(
        Some(RegV::Value(DataV::Address(a0))),
        h3,
    ));
    assert(run_spec(t3, s.heap) == RunOutcome::Done(Some(RegV::Value(DataV::Address(a0))), h3));
    assert(Seq::empty().push(na).push(nb) =~= seq![na, nb]);
    assert(h3 =~= s.heap.push(DataV::List(seq![na, nb])));
}

} // verus!
