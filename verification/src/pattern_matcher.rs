//! The structural pattern-matching engine: matches a pattern tree against
//! a runtime value and yields variable bindings, a failed match, or a
//! fatal inconsistency. A pure function; callers resolve heap
//! indirections before calling.
//!
//! A name bound twice inside one pattern is a programmer error, not a
//! failed match: any merge step that would insert a name already present
//! aborts the whole match with a fatal error.

use vstd::prelude::*;
use crate::ast::Pat;
use crate::ast::PatV;
use crate::ast::pat_view;
use crate::ast::pats_view;
use crate::ast::lemma_pats_view;
use crate::error::RuntimeError;
use crate::error::RuntimeErrorV;
use crate::numbers::num_eq;
use crate::numbers::number_eq;
use crate::runtime::RuntimeData;
use crate::runtime::DataV;
use crate::runtime::data_view;
use crate::runtime::datas_view;
use crate::runtime::lemma_datas_view;

verus! {

/// One binding a match produced: a captured name and the value bound to
/// it.
#[derive(Debug, PartialEq)]
pub struct BoundData {
    pub name: String,
    pub data: RuntimeData,
}

impl DeepView for BoundData {
    type V = (Seq<char>, DataV);

    open spec fn deep_view(&self) -> (Seq<char>, DataV) {
        (self.name@, self.data@)
    }
}

impl BoundData {
    /// A copy with the same name and value.
    pub fn dup(&self) -> (r: BoundData)
        ensures
            r.deep_view() == self.deep_view(),
    {
        BoundData { name: self.name.clone(), data: self.data.dup() }
    }
}

/// The outcome of a match: bound names in the order they were captured, a
/// failed match, or a fatal inconsistency.
#[derive(Debug, PartialEq)]
pub enum MatchResult {
    Env(Vec<BoundData>),
    NoMatch,
    Fatal(RuntimeError),
}

/// The mathematical value of a match outcome.
#[verifier::ext_equal]
pub enum MatchResultV {
    Env(Seq<(Seq<char>, DataV)>),
    NoMatch,
    Fatal(RuntimeErrorV),
}

impl View for MatchResult {
    type V = MatchResultV;

    open spec fn view(&self) -> MatchResultV {
        match self {
            MatchResult::Env(env) => MatchResultV::Env(env.deep_view()),
            MatchResult::NoMatch => MatchResultV::NoMatch,
            MatchResult::Fatal(e) => MatchResultV::Fatal(e@),
        }
    }
}

/// Whether a binding environment already binds a name.
pub open spec fn env_has(env: Seq<(Seq<char>, DataV)>, name: Seq<char>) -> bool {
    exists|i: int| 0 <= i < env.len() && env[i].0 == name
}

/// Merges new bindings into an accumulated environment, left to right,
/// keeping order; the first name already present aborts with a fatal
/// error naming it.
pub open spec fn env_merge(
    acc: Seq<(Seq<char>, DataV)>,
    env: Seq<(Seq<char>, DataV)>,
) -> MatchResultV
    decreases env,
{
    if env.len() == 0 {
        MatchResultV::Env(acc)
    } else if env_has(acc, env[0].0) {
        MatchResultV::Fatal(RuntimeErrorV::CannotSetBoundVariable(env[0].0))
    } else {
        env_merge(acc.push(env[0]), env.subrange(1, env.len() as int))
    }
}

/// What matching a pattern against a value yields. The rules, in effect
/// order: a wildcard matches anything with no bindings; a variable matches
/// anything and binds it; number, string and symbol patterns match on
/// exact value equality (IEEE-754 equality for numbers, so NaN never
/// matches); an at-pattern matches when its sub-pattern does and
/// additionally binds the whole value; a tuple pattern matches a tuple of
/// equal arity elementwise; a list pattern without rest matches a list of
/// equal length elementwise; a list pattern with rest matches a list at
/// least as long as its element patterns, the trailing elements collected
/// into a new list matched against the rest pattern; every other pairing
/// is no match. Bindings merge left to right; a duplicate name is fatal.
pub open spec fn pm(p: PatV, v: DataV) -> MatchResultV
    decreases p,
{
    match p {
        PatV::Wild => MatchResultV::Env(Seq::empty()),
        PatV::Variable(x) => MatchResultV::Env(seq![(x, v)]),
        PatV::Number(a) => match v {
            DataV::Number(n) => if num_eq(a, n.bits) {
                MatchResultV::Env(Seq::empty())
            } else {
                MatchResultV::NoMatch
            },
            _ => MatchResultV::NoMatch,
        },
        PatV::String(a) => match v {
            DataV::String(b) => if a == b {
                MatchResultV::Env(Seq::empty())
            } else {
                MatchResultV::NoMatch
            },
            _ => MatchResultV::NoMatch,
        },
        PatV::Symbol(a) => match v {
            DataV::Symbol(b) => if a == b {
                MatchResultV::Env(Seq::empty())
            } else {
                MatchResultV::NoMatch
            },
            _ => MatchResultV::NoMatch,
        },
        PatV::At(x, sub) => match pm(*sub, v) {
            MatchResultV::NoMatch => MatchResultV::NoMatch,
            MatchResultV::Fatal(e) => MatchResultV::Fatal(e),
            MatchResultV::Env(env) => if env_has(env, x) {
                MatchResultV::Fatal(RuntimeErrorV::CannotSetBoundVariable(x))
            } else {
                MatchResultV::Env(env.push((x, v)))
            },
        },
        PatV::Tuple(ps) => match v {
            DataV::Tuple(vs) => if ps.len() != vs.len() {
                MatchResultV::NoMatch
            } else {
                pm_elems(ps, vs, Seq::empty())
            },
            _ => MatchResultV::NoMatch,
        },
        PatV::List(ps, None) => match v {
            DataV::List(vs) => if ps.len() != vs.len() {
                MatchResultV::NoMatch
            } else {
                pm_elems(ps, vs, Seq::empty())
            },
            _ => MatchResultV::NoMatch,
        },
        PatV::List(ps, Some(rest)) => match v {
            DataV::List(vs) => if ps.len() > vs.len() {
                MatchResultV::NoMatch
            } else {
                match pm_elems(ps, vs, Seq::empty()) {
                    MatchResultV::NoMatch => MatchResultV::NoMatch,
                    MatchResultV::Fatal(e) => MatchResultV::Fatal(e),
                    MatchResultV::Env(head_env) => match pm(
                        *rest,
                        DataV::List(vs.subrange(ps.len() as int, vs.len() as int)),
                    ) {
                        MatchResultV::NoMatch => MatchResultV::NoMatch,
                        MatchResultV::Fatal(e) => MatchResultV::Fatal(e),
                        MatchResultV::Env(rest_env) => env_merge(head_env, rest_env),
                    },
                }
            },
            _ => MatchResultV::NoMatch,
        },
    }
}

/// Matches element patterns against the first values of a sequence, in
/// order, merging each element's bindings into the accumulated
/// environment. Values beyond the element patterns are not consulted.
pub open spec fn pm_elems(
    ps: Seq<PatV>,
    vs: Seq<DataV>,
    acc: Seq<(Seq<char>, DataV)>,
) -> MatchResultV
    decreases ps,
{
    if ps.len() == 0 {
        MatchResultV::Env(acc)
    } else {
        match pm(ps[0], vs[0]) {
            MatchResultV::NoMatch => MatchResultV::NoMatch,
            MatchResultV::Fatal(e) => MatchResultV::Fatal(e),
            MatchResultV::Env(env) => match env_merge(acc, env) {
                MatchResultV::NoMatch => MatchResultV::NoMatch,
                MatchResultV::Fatal(e) => MatchResultV::Fatal(e),
                MatchResultV::Env(acc2) => pm_elems(
                    ps.subrange(1, ps.len() as int),
                    vs.subrange(1, vs.len() as int),
                    acc2,
                ),
            },
        }
    }
}

/// Matching is structurally total: every (pattern, value) pair yields
/// exactly one of bindings, no-match, or fatal.
pub proof fn lemma_match_total(p: PatV, v: DataV)
    ensures
        pm(p, v) is Env || pm(p, v) is NoMatch || pm(p, v) is Fatal,
{
}

/// A wildcard matches any value with empty bindings.
pub proof fn lemma_wildcard_matches_any(v: DataV)
    ensures
        pm(PatV::Wild, v) == MatchResultV::Env(Seq::<(Seq<char>, DataV)>::empty()),
{
}

/// A variable pattern matches any value unconditionally, binding exactly
/// that value to its name.
pub proof fn lemma_variable_matches_any(x: Seq<char>, v: DataV)
    ensures
        pm(PatV::Variable(x), v) == MatchResultV::Env(seq![(x, v)]),
{
}

/// Whether a binding with this name is already present.
fn env_contains_name(env: &Vec<BoundData>, name: &String) -> (r: bool)
    ensures
        r == env_has(env.deep_view(), name@),
{
    let mut i: usize = 0;
    while i < env.len()
        invariant
            i <= env.len(),
            forall|j: int| 0 <= j < i ==> env.deep_view()[j].0 != name@,
        decreases env.len() - i,
    {
        if env[i].name == *name {
            proof {
                assert(env.deep_view()[i as int].0 == name@);
            }
            return true;
        }
        i = i + 1;
    }
    false
}

/// Merges new bindings into the accumulated environment, in order; the
/// first duplicate name aborts with the fatal error naming it.
fn merge_into(acc: &mut Vec<BoundData>, env: Vec<BoundData>) -> (r: Result<(), RuntimeError>)
    ensures
        match r {
            Ok(()) => env_merge(old(acc).deep_view(), env.deep_view()) == MatchResultV::Env(
                final(acc).deep_view(),
            ),
            Err(e) => env_merge(old(acc).deep_view(), env.deep_view()) == MatchResultV::Fatal(e@),
        },
{
    let ghost env_v = env.deep_view();
    proof {
        assert(env_v.skip(0) =~= env_v);
    }
    let mut i: usize = 0;
    while i < env.len()
        invariant
            i <= env.len(),
            env_v == env.deep_view(),
            env_merge(old(acc).deep_view(), env_v) == env_merge(
                acc.deep_view(),
                env_v.skip(i as int),
            ),
        decreases env.len() - i,
    {
        let ghost acc_v = acc.deep_view();
        proof {
            assert(env_v.skip(i as int).len() > 0);
            assert(env_v.skip(i as int)[0] == env_v[i as int]);
        }
        if env_contains_name(acc, &env[i].name) {
            proof {
                assert(env_merge(acc_v, env_v.skip(i as int)) == MatchResultV::Fatal(
                    RuntimeErrorV::CannotSetBoundVariable(env_v[i as int].0),
                ));
            }
            return Err(RuntimeError::CannotSetBoundVariable(env[i].name.clone()));
        }
        acc.push(env[i].dup());
        i = i + 1;
        proof {
            assert(acc.deep_view() =~= acc_v.push(env_v[i - 1]));
            assert(env_v.skip(i - 1).subrange(1, env_v.skip(i - 1).len() as int) =~= env_v.skip(
                i as int,
            ));
        }
    }
    proof {
        assert(env_v.skip(env.len() as int).len() == 0);
    }
    Ok(())
}

/// Matches a pattern against a runtime value. Pure: no side effects and
/// no heap access; the result is exactly what the matching rules give for
/// the pair of mathematical values.
pub fn pattern_match(pattern: &Pat, data: &RuntimeData) -> (r: MatchResult)
    ensures
        r@ == pm(pattern@, data@),
    decreases *pattern,
{
    match (pattern, data) {
        (Pat::Wild, _) => {
            let r = MatchResult::Env(Vec::new());
            proof {
                assert(r@ =~= pm(pattern@, data@));
            }
            r
        },
        (Pat::Variable(a), b) => {
            let mut env: Vec<BoundData> = Vec::new();
            env.push(BoundData { name: a.clone(), data: b.dup() });
            proof {
                assert(env.deep_view() =~= seq![(a@, b@)]);
            }
            MatchResult::Env(env)
        },
        (Pat::Number(a), RuntimeData::Number(b)) => {
            if number_eq(*a, b.bits) {
                let r = MatchResult::Env(Vec::new());
                proof {
                    assert(r@ =~= pm(pattern@, data@));
                }
                r
            } else {
                proof {
                    assert(pm(pattern@, data@) is NoMatch);
                }
                MatchResult::NoMatch
            }
        },
        (Pat::String(a), RuntimeData::String(b)) => {
            if *a == *b {
                let r = MatchResult::Env(Vec::new());
                proof {
                    assert(r@ =~= pm(pattern@, data@));
                }
                r
            } else {
                proof {
                    assert(pm(pattern@, data@) is NoMatch);
                }
                MatchResult::NoMatch
            }
        },
        (Pat::Symbol(a), RuntimeData::Symbol(b)) => {
            if *a == *b {
                let r = MatchResult::Env(Vec::new());
                proof {
                    assert(r@ =~= pm(pattern@, data@));
                }
                r
            } else {
                proof {
                    assert(pm(pattern@, data@) is NoMatch);
                }
                MatchResult::NoMatch
            }
        },
        (Pat::At(name, pat), b) => {
            match pattern_match(pat, b) {
                MatchResult::NoMatch => MatchResult::NoMatch,
                MatchResult::Fatal(e) => MatchResult::Fatal(e),
                MatchResult::Env(mut env) => {
                    if env_contains_name(&env, name) {
                        MatchResult::Fatal(RuntimeError::CannotSetBoundVariable(name.clone()))
                    } else {
                        let ghost env_v = env.deep_view();
                        env.push(BoundData { name: name.clone(), data: b.dup() });
                        proof {
                            assert(env.deep_view() =~= env_v.push((name@, b@)));
                        }
                        MatchResult::Env(env)
                    }
                },
            }
        },
        (Pat::Tuple(a), RuntimeData::Tuple(b)) => {
            proof {
                lemma_pats_view(a@);
                lemma_datas_view(b@);
            }
            if a.len() != b.len() {
                MatchResult::NoMatch
            } else {
                match_elems(a, b)
            }
        },
        (Pat::List(a, None), RuntimeData::List(b)) => {
            proof {
                lemma_pats_view(a@);
                lemma_datas_view(b@);
            }
            if a.len() != b.len() {
                MatchResult::NoMatch
            } else {
                match_elems(a, b)
            }
        },
        (Pat::List(a, Some(rest)), RuntimeData::List(b)) => {
            proof {
                lemma_pats_view(a@);
                lemma_datas_view(b@);
            }
            if a.len() > b.len() {
                MatchResult::NoMatch
            } else {
                match match_elems(a, b) {
                    MatchResult::NoMatch => MatchResult::NoMatch,
                    MatchResult::Fatal(e) => MatchResult::Fatal(e),
                    MatchResult::Env(head_env) => {
                        let mut rest_items: Vec<RuntimeData> = Vec::new();
                        let mut i: usize = a.len();
                        while i < b.len()
                            invariant
                                a@.len() <= i <= b@.len(),
                                datas_view(rest_items@) == datas_view(b@).subrange(
                                    a@.len() as int,
                                    i as int,
                                ),
                            decreases b.len() - i,
                        {
                            let ghost pre_rest = rest_items@;
                            let item = b[i].dup();
                            let ghost item_g = item;
                            rest_items.push(item);
                            i = i + 1;
                            proof {
                                lemma_datas_view(b@);
                                crate::runtime::lemma_datas_view_push(pre_rest, item_g);
                                assert(datas_view(rest_items@) =~= datas_view(b@).subrange(
                                    a@.len() as int,
                                    i as int,
                                ));
                            }
                        }
                        let rest_value = RuntimeData::List(rest_items);
                        proof {
                            assert(rest_value@ == DataV::List(
                                datas_view(b@).subrange(a@.len() as int, b@.len() as int),
                            ));
                        }
                        match pattern_match(rest, &rest_value) {
                            MatchResult::NoMatch => MatchResult::NoMatch,
                            MatchResult::Fatal(e) => MatchResult::Fatal(e),
                            MatchResult::Env(rest_env) => {
                                let mut all = head_env;
                                match merge_into(&mut all, rest_env) {
                                    Ok(()) => MatchResult::Env(all),
                                    Err(e) => MatchResult::Fatal(e),
                                }
                            },
                        }
                    },
                }
            }
        },
        _ => {
            proof {
                assert(pm(pattern@, data@) is NoMatch);
            }
            MatchResult::NoMatch
        },
    }
}

/// Matches element patterns against the first values of a vector, in
/// order, starting from an empty environment.
fn match_elems(ps: &Vec<Pat>, vs: &Vec<RuntimeData>) -> (r: MatchResult)
    requires
        ps@.len() <= vs@.len(),
    ensures
        r@ == pm_elems(pats_view(ps@), datas_view(vs@), Seq::empty()),
    decreases ps@,
{
    let ghost psv = pats_view(ps@);
    let ghost vsv = datas_view(vs@);
    proof {
        lemma_pats_view(ps@);
        lemma_datas_view(vs@);
    }
    let mut acc: Vec<BoundData> = Vec::new();
    proof {
        assert(psv.skip(0) =~= psv);
        assert(vsv.skip(0) =~= vsv);
        assert(acc.deep_view() =~= Seq::<(Seq<char>, DataV)>::empty());
    }
    let mut i: usize = 0;
    while i < ps.len()
        invariant
            i <= ps@.len(),
            ps@.len() <= vs@.len(),
            psv == pats_view(ps@),
            vsv == datas_view(vs@),
            psv.len() == ps@.len(),
            vsv.len() == vs@.len(),
            forall|j: int| 0 <= j < ps@.len() ==> psv[j] == pat_view(ps@[j]),
            forall|j: int| 0 <= j < vs@.len() ==> vsv[j] == data_view(vs@[j]),
            pm_elems(psv, vsv, Seq::empty()) == pm_elems(
                psv.skip(i as int),
                vsv.skip(i as int),
                acc.deep_view(),
            ),
        decreases ps.len() - i,
    {
        let ghost acc_v = acc.deep_view();
        proof {
            assert(psv.skip(i as int).len() > 0);
            assert(psv.skip(i as int)[0] == psv[i as int]);
            assert(vsv.skip(i as int)[0] == vsv[i as int]);
        }
        match pattern_match(&ps[i], &vs[i]) {
            MatchResult::NoMatch => {
                return MatchResult::NoMatch;
            },
            MatchResult::Fatal(e) => {
                return MatchResult::Fatal(e);
            },
            MatchResult::Env(env) => {
                match merge_into(&mut acc, env) {
                    Ok(()) => {
                        i = i + 1;
                        proof {
                            assert(psv.skip(i - 1).subrange(1, psv.skip(i - 1).len() as int)
                                =~= psv.skip(i as int));
                            assert(vsv.skip(i - 1).subrange(1, vsv.skip(i - 1).len() as int)
                                =~= vsv.skip(i as int));
                        }
                    },
                    Err(e) => {
                        return MatchResult::Fatal(e);
                    },
                }
            },
        }
    }
    proof {
        assert(psv.skip(ps@.len() as int).len() == 0);
    }
    MatchResult::Env(acc)
}

} // verus!
