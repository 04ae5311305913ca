//! Abstract syntax produced by the front end and consumed by the compiler:
//! literals, patterns, expressions and top-level forms.
//!
//! Numbers are carried as IEEE-754 bit patterns with a fixed display text
//! (see `numbers`), so that the core stays in integer arithmetic; the front
//! end converts.

use vstd::prelude::*;
use crate::numbers::Num;

verus! {

/// Source span of a token, in character offsets.
#[derive(Debug, Clone, Copy)]
pub struct TMeta {
    pub start: usize,
    pub end: usize,
}

/// A lambda literal: formal parameter patterns and a boxed body block.
#[derive(Debug)]
pub struct Lambda {
    pub params: Vec<Pat>,
    pub body: Box<Top>,
}

/// A constructible value prior to compilation.
#[derive(Debug)]
pub enum Lit {
    /// An IEEE-754 double: bit pattern plus its fixed display text.
    Number(Num),
    String(String),
    Symbol(String),
    /// A name reference, resolved against the session's name table.
    Variable(String),
    List(Vec<Lit>),
    Tuple(Vec<Lit>),
    Lambda(Lambda),
}

/// A structural match/destructure shape, possibly capturing names.
#[derive(Debug)]
pub enum Pat {
    Wild,
    /// Bit pattern of an IEEE-754 double; matches by IEEE-754 equality.
    Number(u64),
    String(String),
    Symbol(String),
    /// Ordered element patterns, plus an optional rest pattern that the
    /// trailing elements are collected into.
    List(Vec<Pat>, Option<Box<Pat>>),
    /// Arity-exact ordered element patterns.
    Tuple(Vec<Pat>),
    /// Unconditional capture of the matched value under a name.
    Variable(String),
    /// Binds the whole matched value to the name, in addition to whatever
    /// the sub-pattern binds.
    At(String, Box<Pat>),
}

/// The mathematical value of a pattern.
#[verifier::ext_equal]
pub enum PatV {
    Wild,
    Number(u64),
    String(Seq<char>),
    Symbol(Seq<char>),
    List(Seq<PatV>, Option<Box<PatV>>),
    Tuple(Seq<PatV>),
    Variable(Seq<char>),
    At(Seq<char>, Box<PatV>),
}

/// The mathematical value of a pattern tree.
pub open spec fn pat_view(p: Pat) -> PatV
    decreases p,
{
    match p {
        Pat::Wild => PatV::Wild,
        Pat::Number(bits) => PatV::Number(bits),
        Pat::String(s) => PatV::String(s@),
        Pat::Symbol(s) => PatV::Symbol(s@),
        Pat::Variable(s) => PatV::Variable(s@),
        Pat::At(s, sub) => PatV::At(s@, Box::new(pat_view(*sub))),
        Pat::Tuple(ps) => PatV::Tuple(pats_view(ps@)),
        Pat::List(ps, None) => PatV::List(pats_view(ps@), None),
        Pat::List(ps, Some(rest)) => PatV::List(pats_view(ps@), Some(Box::new(pat_view(*rest)))),
    }
}

/// The mathematical values of a sequence of patterns, in order.
pub open spec fn pats_view(ps: Seq<Pat>) -> Seq<PatV>
    decreases ps,
{
    if ps.len() == 0 {
        Seq::empty()
    } else {
        seq![pat_view(ps[0])] + pats_view(ps.subrange(1, ps.len() as int))
    }
}

/// The view of a pattern sequence is its elementwise view.
pub proof fn lemma_pats_view(ps: Seq<Pat>)
    ensures
        pats_view(ps).len() == ps.len(),
        forall|i: int| 0 <= i < ps.len() ==> pats_view(ps)[i] == pat_view(ps[i]),
    decreases ps,
{
    if ps.len() > 0 {
        lemma_pats_view(ps.subrange(1, ps.len() as int));
    }
}

impl View for Pat {
    type V = PatV;

    open spec fn view(&self) -> PatV {
        pat_view(*self)
    }
}

/// An expression of a top-level form.
#[derive(Debug)]
pub enum Expr {
    Literal(Lit),
    Call(Box<Expr>, Vec<Expr>),
}

/// One `let pattern = expr;` binding.
#[derive(Debug)]
pub struct Let {
    pub pattern: Pat,
    pub expr: Expr,
}

/// A top-level form: ordered `let` bindings plus an optional trailing
/// expression.
#[derive(Debug)]
pub struct Top {
    pub lets: Vec<Let>,
    pub expr: Option<Expr>,
}

/// The names a pattern binds, in depth-first order with a node's own name
/// before its sub-pattern's names. Nested lambda bodies cannot occur inside
/// a pattern, so every `Variable`/`At` name in the tree is included.
pub open spec fn pat_binds(p: PatV) -> Seq<Seq<char>>
    decreases p,
{
    match p {
        PatV::Wild => Seq::empty(),
        PatV::Number(_) => Seq::empty(),
        PatV::String(_) => Seq::empty(),
        PatV::Symbol(_) => Seq::empty(),
        PatV::Variable(x) => seq![x],
        PatV::At(x, sub) => seq![x] + pat_binds(*sub),
        PatV::Tuple(ps) => pats_binds(ps),
        PatV::List(ps, None) => pats_binds(ps),
        PatV::List(ps, Some(rest)) => pats_binds(ps) + pat_binds(*rest),
    }
}

/// The names a sequence of patterns binds, element order kept.
pub open spec fn pats_binds(ps: Seq<PatV>) -> Seq<Seq<char>>
    decreases ps,
{
    if ps.len() == 0 {
        Seq::empty()
    } else {
        pat_binds(ps[0]) + pats_binds(ps.subrange(1, ps.len() as int))
    }
}

/// The names a top-level form binds at its own scope: the names of every
/// `let` pattern, in order. Names inside nested lambda bodies are out of
/// this scope and are not included.
pub open spec fn top_binds(t: Top) -> Seq<Seq<char>> {
    lets_binds(t.lets@)
}

/// The names bound by a sequence of `let`s, in order.
pub open spec fn lets_binds(ls: Seq<Let>) -> Seq<Seq<char>>
    decreases ls,
{
    if ls.len() == 0 {
        Seq::empty()
    } else {
        pat_binds(ls[0].pattern@) + lets_binds(ls.subrange(1, ls.len() as int))
    }
}

impl Pat {
    /// Every name this pattern binds, in depth-first order.
    pub fn variables_to_bind(&self) -> (r: Vec<String>)
        ensures
            r.deep_view() == pat_binds(self@),
    {
        let mut acc: Vec<String> = Vec::new();
        collect_pat_binds(self, &mut acc);
        assert(acc.deep_view() =~= pat_binds(self@));
        acc
    }

    /// A copy with the same value.
    pub fn dup(&self) -> (r: Pat)
        ensures
            r@ == self@,
        decreases *self,
    {
        match self {
            Pat::Wild => Pat::Wild,
            Pat::Number(bits) => Pat::Number(*bits),
            Pat::String(s) => Pat::String(s.clone()),
            Pat::Symbol(s) => Pat::Symbol(s.clone()),
            Pat::Variable(s) => Pat::Variable(s.clone()),
            Pat::At(s, sub) => {
                let r = Pat::At(s.clone(), Box::new(sub.dup()));
                assert(r@ =~= self@);
                r
            },
            Pat::Tuple(ps) => {
                let r = Pat::Tuple(dup_pats(ps));
                assert(r@ =~= self@);
                r
            },
            Pat::List(ps, None) => {
                let r = Pat::List(dup_pats(ps), None);
                assert(r@ =~= self@);
                r
            },
            Pat::List(ps, Some(rest)) => {
                let r = Pat::List(dup_pats(ps), Some(Box::new(rest.dup())));
                assert(r@ =~= self@);
                r
            },
        }
    }
}

/// Copies every pattern of a vector, order and values kept.
fn dup_pats(ps: &Vec<Pat>) -> (r: Vec<Pat>)
    ensures
        pats_view(r@) == pats_view(ps@),
        r@.len() == ps@.len(),
    decreases ps@,
{
    let mut r: Vec<Pat> = Vec::new();
    let mut i: usize = 0;
    while i < ps.len()
        invariant
            i <= ps.len(),
            r@.len() == i,
            forall|j: int| 0 <= j < i ==> pat_view(#[trigger] r@[j]) == pat_view(ps@[j]),
        decreases ps.len() - i,
    {
        r.push(ps[i].dup());
        i = i + 1;
    }
    proof {
        lemma_pats_view(r@);
        lemma_pats_view(ps@);
        assert(pats_view(r@) =~= pats_view(ps@));
    }
    r
}

impl Top {
    /// Every name this form's `let` patterns bind at top scope, in order.
    pub fn variables_to_bind(&self) -> (r: Vec<String>)
        ensures
            r.deep_view() == top_binds(*self),
    {
        let mut acc: Vec<String> = Vec::new();
        let mut i: usize = 0;
        while i < self.lets.len()
            invariant
                i <= self.lets.len(),
                acc.deep_view() == lets_binds(self.lets@.subrange(0, i as int)),
            decreases self.lets.len() - i,
        {
            proof {
                lemma_lets_binds_snoc(self.lets@, i as int);
            }
            collect_pat_binds(&self.lets[i].pattern, &mut acc);
            i = i + 1;
        }
        proof {
            assert(self.lets@.subrange(0, self.lets@.len() as int) =~= self.lets@);
        }
        acc
    }
}

/// Appends the names bound by `p` to `acc`, in depth-first order.
fn collect_pat_binds(p: &Pat, acc: &mut Vec<String>)
    ensures
        final(acc).deep_view() == old(acc).deep_view() + pat_binds(p@),
    decreases *p,
{
    match p {
        Pat::Wild => {
            assert(acc.deep_view() =~= acc.deep_view() + pat_binds(p@));
        },
        Pat::Number(_) => {
            assert(acc.deep_view() =~= acc.deep_view() + pat_binds(p@));
        },
        Pat::String(_) => {
            assert(acc.deep_view() =~= acc.deep_view() + pat_binds(p@));
        },
        Pat::Symbol(_) => {
            assert(acc.deep_view() =~= acc.deep_view() + pat_binds(p@));
        },
        Pat::Variable(x) => {
            acc.push(x.clone());
            assert(acc.deep_view() =~= old(acc).deep_view() + pat_binds(p@));
        },
        Pat::At(x, sub) => {
            acc.push(x.clone());
            collect_pat_binds(sub, acc);
            assert(acc.deep_view() =~= old(acc).deep_view() + pat_binds(p@));
        },
        Pat::Tuple(ps) => {
            collect_pats_binds(ps, acc);
            assert(acc.deep_view() =~= old(acc).deep_view() + pat_binds(p@));
        },
        Pat::List(ps, None) => {
            collect_pats_binds(ps, acc);
            assert(acc.deep_view() =~= old(acc).deep_view() + pat_binds(p@));
        },
        Pat::List(ps, Some(rest)) => {
            collect_pats_binds(ps, acc);
            collect_pat_binds(rest, acc);
            assert(acc.deep_view() =~= old(acc).deep_view() + pat_binds(p@));
        },
    }
}

/// Appends the names bound by each pattern of `ps` to `acc`, element order
/// kept.
fn collect_pats_binds(ps: &Vec<Pat>, acc: &mut Vec<String>)
    ensures
        final(acc).deep_view() == old(acc).deep_view() + pats_binds(pats_view(ps@)),
    decreases ps@,
{
    proof {
        lemma_pats_view(ps@);
    }
    let mut i: usize = 0;
    while i < ps.len()
        invariant
            i <= ps.len(),
            acc.deep_view() == old(acc).deep_view() + pats_binds(
                pats_view(ps@).subrange(0, i as int),
            ),
        decreases ps.len() - i,
    {
        proof {
            lemma_pats_view(ps@);
            lemma_pats_binds_snoc(pats_view(ps@), i as int);
            assert(pats_view(ps@)[i as int] == pat_view(ps@[i as int]));
        }
        collect_pat_binds(&ps[i], acc);
        i = i + 1;
    }
    proof {
        assert(pats_view(ps@).subrange(0, pats_view(ps@).len() as int) =~= pats_view(ps@));
    }
}

/// Splitting a prefix of patterns one element later appends that element's
/// names.
pub proof fn lemma_pats_binds_snoc(ps: Seq<PatV>, i: int)
    requires
        0 <= i < ps.len(),
    ensures
        pats_binds(ps.subrange(0, i + 1)) == pats_binds(ps.subrange(0, i)) + pat_binds(ps[i]),
    decreases i,
{
    let pre = ps.subrange(0, i + 1);
    if i == 0 {
        assert(pre[0] == ps[0]);
        assert(pre.subrange(1, pre.len() as int) =~= Seq::<PatV>::empty());
        assert(pats_binds(Seq::<PatV>::empty()) == Seq::<Seq<char>>::empty());
        assert(pats_binds(ps.subrange(0, 0)) =~= Seq::<Seq<char>>::empty());
        assert(pats_binds(pre) =~= pats_binds(ps.subrange(0, 0)) + pat_binds(ps[0]));
    } else {
        lemma_pats_binds_snoc(ps.subrange(1, ps.len() as int), i - 1);
        let tail = ps.subrange(1, ps.len() as int);
        assert(pre.subrange(1, pre.len() as int) =~= tail.subrange(0, i));
        assert(ps.subrange(0, i).subrange(1, i) =~= tail.subrange(0, i - 1));
        assert(tail.subrange(0, i - 1 + 1) =~= tail.subrange(0, i));
        assert(tail[i - 1] == ps[i]);
        assert(pats_binds(pre) =~= pats_binds(ps.subrange(0, i)) + pat_binds(ps[i]));
    }
}

/// The names of a pattern sequence are those of any prefix followed by
/// those of the rest.
pub proof fn lemma_pats_binds_split(ps: Seq<PatV>, i: int)
    requires
        0 <= i <= ps.len(),
    ensures
        pats_binds(ps) == pats_binds(ps.subrange(0, i)) + pats_binds(
            ps.subrange(i, ps.len() as int),
        ),
    decreases i,
{
    if i == 0 {
        assert(pats_binds(ps.subrange(0, 0)) == Seq::<Seq<char>>::empty());
        assert(ps.subrange(0, ps.len() as int) =~= ps);
        assert(pats_binds(ps) =~= pats_binds(ps.subrange(0, 0)) + pats_binds(
            ps.subrange(0, ps.len() as int),
        ));
    } else {
        lemma_pats_binds_split(ps, i - 1);
        lemma_pats_binds_snoc(ps, i - 1);
        assert(ps.subrange(i - 1, ps.len() as int)[0] == ps[i - 1]);
        assert(ps.subrange(i - 1, ps.len() as int).subrange(
            1,
            ps.subrange(i - 1, ps.len() as int).len() as int,
        ) =~= ps.subrange(i, ps.len() as int));
        assert(pats_binds(ps) =~= pats_binds(ps.subrange(0, i)) + pats_binds(
            ps.subrange(i, ps.len() as int),
        ));
    }
}

/// Splitting a prefix of `let`s one element later appends that `let`'s
/// pattern names.
pub proof fn lemma_lets_binds_snoc(ls: Seq<Let>, i: int)
    requires
        0 <= i < ls.len(),
    ensures
        lets_binds(ls.subrange(0, i + 1)) == lets_binds(ls.subrange(0, i)) + pat_binds(
            ls[i].pattern@,
        ),
    decreases i,
{
    let pre = ls.subrange(0, i + 1);
    if i == 0 {
        assert(pre[0] == ls[0]);
        assert(pre.subrange(1, pre.len() as int) =~= Seq::<Let>::empty());
        assert(lets_binds(Seq::<Let>::empty()) == Seq::<Seq<char>>::empty());
        assert(lets_binds(ls.subrange(0, 0)) =~= Seq::<Seq<char>>::empty());
        assert(lets_binds(pre) =~= lets_binds(ls.subrange(0, 0)) + pat_binds(ls[0].pattern@));
    } else {
        lemma_lets_binds_snoc(ls.subrange(1, ls.len() as int), i - 1);
        let tail = ls.subrange(1, ls.len() as int);
        assert(pre.subrange(1, pre.len() as int) =~= tail.subrange(0, i));
        assert(ls.subrange(0, i).subrange(1, i) =~= tail.subrange(0, i - 1));
        assert(tail.subrange(0, i - 1 + 1) =~= tail.subrange(0, i));
        assert(tail[i - 1] == ls[i]);
        assert(lets_binds(pre) =~= lets_binds(ls.subrange(0, i)) + pat_binds(ls[i].pattern@));
    }
}

} // verus!
