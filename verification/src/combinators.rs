use vstd::prelude::*;
use crate::lexical::{Pattern, PatternV, pat_len};
use crate::transforms::{TransformKind, spec_apply, apply_transform};
use crate::values::{ParseValue, ValueV, value_view, value_view_seq, lemma_value_view_seq};

verus! {

broadcast use vstd::std_specs::vec::group_vec_axioms, crate::values::lemma_value_view_seq;

/// A grammar rule that a `Forward` combinator names, so that mutually
/// recursive rules need no infinite combinator tree: the rule's combinator
/// is built afresh when the reference is reached.
#[derive(Clone, Copy, Debug)]
pub enum RuleId {
    Statement,
    Expression,
}

/// A combinator: a tree describing how to consume a prefix of the input.
///
/// - `Pattern` matches a fixed lexical pattern at the cursor.
/// - `Sequence` runs both parts in order.
/// - `Ignore` matches like its part but reports no result.
/// - `Alternative` is ordered choice: the first part that matches wins, and
///   a failed first part costs no input.
/// - `BoundedRepeat` demands a minimum number of repetitions and then takes
///   up to the optional maximum of further ones; `None` means unbounded.
/// - `Transform` maps a successful result through a fallible conversion;
///   when the conversion fails the whole combinator fails with no input
///   consumed.
/// - `Forward` defers to a named rule.
#[derive(Debug)]
pub enum Combinator {
    Pattern(Pattern),
    Sequence(Box<Combinator>, Box<Combinator>),
    Ignore(Box<Combinator>),
    Alternative(Box<Combinator>, Box<Combinator>),
    BoundedRepeat(Box<Combinator>, u64, Option<u64>),
    Transform(Box<Combinator>, TransformKind),
    Forward(RuleId),
}

/// The mathematical model of a combinator.
pub enum CombinatorV {
    Pattern(PatternV),
    Sequence(Box<CombinatorV>, Box<CombinatorV>),
    Ignore(Box<CombinatorV>),
    Alternative(Box<CombinatorV>, Box<CombinatorV>),
    BoundedRepeat(Box<CombinatorV>, nat, Option<nat>),
    Transform(Box<CombinatorV>, TransformKind),
    Forward(RuleId),
}

pub open spec fn opt_nat(o: Option<u64>) -> Option<nat> {
    match o {
        Option::Some(k) => Option::Some(k as nat),
        Option::None => Option::None,
    }
}

pub open spec fn comb_view(c: Combinator) -> CombinatorV
    decreases c,
{
    match c {
        Combinator::Pattern(p) => CombinatorV::Pattern(p@),
        Combinator::Sequence(a, b) => CombinatorV::Sequence(
            Box::new(comb_view(*a)),
            Box::new(comb_view(*b)),
        ),
        Combinator::Ignore(a) => CombinatorV::Ignore(Box::new(comb_view(*a))),
        Combinator::Alternative(a, b) => CombinatorV::Alternative(
            Box::new(comb_view(*a)),
            Box::new(comb_view(*b)),
        ),
        Combinator::BoundedRepeat(a, min, extra) => CombinatorV::BoundedRepeat(
            Box::new(comb_view(*a)),
            min as nat,
            opt_nat(extra),
        ),
        Combinator::Transform(a, t) => CombinatorV::Transform(Box::new(comb_view(*a)), t),
        Combinator::Forward(r) => CombinatorV::Forward(r),
    }
}

impl View for Combinator {
    type V = CombinatorV;

    open spec fn view(&self) -> CombinatorV {
        comb_view(*self)
    }
}

pub open spec fn is_ignore(c: CombinatorV) -> bool {
    c is Ignore
}

// ---------------------------------------------------------------------------
// Spec-level constructors for combinator trees.
// ---------------------------------------------------------------------------
pub open spec fn pat_v(p: PatternV) -> CombinatorV {
    CombinatorV::Pattern(p)
}

pub open spec fn seq_v(a: CombinatorV, b: CombinatorV) -> CombinatorV {
    CombinatorV::Sequence(Box::new(a), Box::new(b))
}

pub open spec fn ignore_v(a: CombinatorV) -> CombinatorV {
    CombinatorV::Ignore(Box::new(a))
}

pub open spec fn alt_v(a: CombinatorV, b: CombinatorV) -> CombinatorV {
    CombinatorV::Alternative(Box::new(a), Box::new(b))
}

pub open spec fn rep_v(a: CombinatorV, min: nat, extra: Option<nat>) -> CombinatorV {
    CombinatorV::BoundedRepeat(Box::new(a), min, extra)
}

pub open spec fn map_v(a: CombinatorV, t: TransformKind) -> CombinatorV {
    CombinatorV::Transform(Box::new(a), t)
}

pub open spec fn fwd_v(r: RuleId) -> CombinatorV {
    CombinatorV::Forward(r)
}

impl Combinator {
    /// A combinator that matches the given lexical pattern.
    pub fn pattern(p: Pattern) -> (r: Combinator)
        ensures
            r@ == pat_v(p@),
    {
        Combinator::Pattern(p)
    }

    /// A reference to a named rule, resolved when reached.
    pub fn forward(rule: RuleId) -> (r: Combinator)
        ensures
            r@ == fwd_v(rule),
    {
        Combinator::Forward(rule)
    }

    /// Sequencing: this combinator, then `r`, both in order.
    pub fn and(self, r: Combinator) -> (out: Combinator)
        ensures
            out@ == seq_v(self@, r@),
    {
        Combinator::Sequence(Box::new(self), Box::new(r))
    }

    /// Matches like this combinator but reports no result.
    pub fn ignore(self) -> (out: Combinator)
        ensures
            out@ == ignore_v(self@),
    {
        Combinator::Ignore(Box::new(self))
    }

    /// Ordered choice: this combinator, or on failure `r` against the same
    /// input.
    pub fn or(self, r: Combinator) -> (out: Combinator)
        ensures
            out@ == alt_v(self@, r@),
    {
        Combinator::Alternative(Box::new(self), Box::new(r))
    }

    /// A bounded repetition: `min` repetitions are mandatory, then up to
    /// `extra` more are taken; `None` puts no bound on them.
    pub fn repeat_range(self, min: u64, extra: Option<u64>) -> (out: Combinator)
        ensures
            out@ == rep_v(self@, min as nat, opt_nat(extra)),
    {
        Combinator::BoundedRepeat(Box::new(self), min, extra)
    }

    /// At most one repetition.
    pub fn optional(self) -> (out: Combinator)
        ensures
            out@ == rep_v(self@, 0, opt_nat(Some(1))),
    {
        Combinator::BoundedRepeat(Box::new(self), 0, Some(1))
    }

    /// Maps a successful result through a fallible conversion.
    pub fn map(self, t: TransformKind) -> (out: Combinator)
        ensures
            out@ == map_v(self@, t),
    {
        Combinator::Transform(Box::new(self), t)
    }
}

/// The result a sequence reports: an ignored side is left out of the pair,
/// and a sequence of two ignored sides reports empty text.
pub open spec fn seq_value(a: CombinatorV, b: CombinatorV, lv: ValueV, rv: ValueV) -> ValueV {
    if is_ignore(a) && is_ignore(b) {
        ValueV::Text(Seq::empty())
    } else if is_ignore(a) {
        rv
    } else if is_ignore(b) {
        lv
    } else {
        ValueV::List(seq![lv, rv])
    }
}

/// The countdown that bounds the optional repetitions: the given maximum, or
/// what is left of the input when no maximum was given, since an unbounded
/// repetition stops as soon as a repetition consumes nothing.
pub open spec fn rep_measure(extra: Option<nat>, s: Seq<char>, pos: int) -> nat {
    match extra {
        Option::Some(k) => k,
        Option::None => {
            if pos < s.len() {
                (s.len() - pos) as nat
            } else {
                0nat
            }
        },
    }
}

/// What one attempt of a combinator yields at `pos`: the result value and
/// the new cursor, or nothing, with no input consumed, when it fails.
///
/// `fuel` bounds the nesting depth of `Forward` references; each rule entry
/// spends one unit, and a reference at zero fails.
pub open spec fn run(c: CombinatorV, s: Seq<char>, pos: int, fuel: nat) -> Option<(ValueV, int)>
    decreases fuel, c, 0nat, 0nat,
{
    match c {
        CombinatorV::Pattern(p) => match pat_len(p, s, pos) {
            Option::Some(n) => Option::Some(
                (ValueV::Text(s.subrange(pos, pos + n)), pos + n),
            ),
            Option::None => Option::None,
        },
        CombinatorV::Sequence(a, b) => match run(*a, s, pos, fuel) {
            Option::None => Option::None,
            Option::Some((lv, p1)) => match run(*b, s, p1, fuel) {
                Option::None => Option::None,
                Option::Some((rv, p2)) => Option::Some((seq_value(*a, *b, lv, rv), p2)),
            },
        },
        CombinatorV::Ignore(a) => match run(*a, s, pos, fuel) {
            Option::None => Option::None,
            Option::Some((_, p)) => Option::Some((ValueV::Text(Seq::empty()), p)),
        },
        CombinatorV::Alternative(a, b) => match run(*a, s, pos, fuel) {
            Option::Some(r) => Option::Some(r),
            Option::None => run(*b, s, pos, fuel),
        },
        CombinatorV::BoundedRepeat(sub, min, extra) => match run_rep_min(*sub, s, pos, fuel, min) {
            Option::None => Option::None,
            Option::Some((vs1, p1)) => {
                let (vs2, p2) = run_rep_extra(*sub, s, p1, fuel, extra);
                Option::Some((ValueV::List(vs1 + vs2), p2))
            },
        },
        CombinatorV::Transform(sub, t) => match run(*sub, s, pos, fuel) {
            Option::None => Option::None,
            Option::Some((v, p)) => match spec_apply(t, v) {
                Option::Some(v2) => Option::Some((v2, p)),
                Option::None => Option::None,
            },
        },
        CombinatorV::Forward(rid) => {
            if fuel == 0 {
                Option::None
            } else {
                run(crate::grammar::rule_body_v(rid), s, pos, (fuel - 1) as nat)
            }
        },
    }
}

/// The mandatory repetitions: all `min` must match in order, else the whole
/// repetition fails.
pub open spec fn run_rep_min(sub: CombinatorV, s: Seq<char>, pos: int, fuel: nat, min: nat) -> Option<
    (Seq<ValueV>, int),
>
    decreases fuel, sub, min, 1nat,
{
    if min == 0 {
        Option::Some((Seq::empty(), pos))
    } else {
        match run(sub, s, pos, fuel) {
            Option::None => Option::None,
            Option::Some((v, p)) => match run_rep_min(sub, s, p, fuel, (min - 1) as nat) {
                Option::None => Option::None,
                Option::Some((vs, p2)) => Option::Some((seq![v] + vs, p2)),
            },
        }
    }
}

/// The optional repetitions: stop at the first failure without propagating
/// it, at the maximum when one was given, and, when none was given, at a
/// repetition that consumes nothing.
pub open spec fn run_rep_extra(sub: CombinatorV, s: Seq<char>, pos: int, fuel: nat, extra: Option<
    nat,
>) -> (Seq<ValueV>, int)
    decreases fuel, sub, rep_measure(extra, s, pos), 1nat,
{
    if extra == Option::<nat>::Some(0nat) {
        (Seq::empty(), pos)
    } else {
        match run(sub, s, pos, fuel) {
            Option::None => (Seq::empty(), pos),
            Option::Some((v, p)) => {
                if extra is None && (p <= pos || p > s.len()) {
                    (Seq::empty(), pos)
                } else {
                    let next = match extra {
                        Option::Some(k) => Option::Some((k - 1) as nat),
                        Option::None => Option::None,
                    };
                    let (vs, p2) = run_rep_extra(sub, s, p, fuel, next);
                    (seq![v] + vs, p2)
                }
            },
        }
    }
}

proof fn lemma_wf_pair(lv: ValueV, rv: ValueV, c: Seq<ValueV>)
    requires
        c == seq![lv, rv],
        crate::values::value_wf(lv),
        crate::values::value_wf(rv),
    ensures
        forall|i: int| 0 <= i < c.len() ==> crate::values::value_wf(#[trigger] c[i]),
{
    assert forall|i: int| 0 <= i < c.len() implies crate::values::value_wf(#[trigger] c[i]) by {
        if i == 0 {
            assert(c[i] == lv);
        } else {
            assert(c[i] == rv);
        }
    }
}

proof fn lemma_wf_cons(v: ValueV, vs: Seq<ValueV>, c: Seq<ValueV>)
    requires
        c == seq![v] + vs,
        crate::values::value_wf(v),
        forall|i: int| 0 <= i < vs.len() ==> crate::values::value_wf(#[trigger] vs[i]),
    ensures
        forall|i: int| 0 <= i < c.len() ==> crate::values::value_wf(#[trigger] c[i]),
{
    assert forall|i: int| 0 <= i < c.len() implies crate::values::value_wf(#[trigger] c[i]) by {
        if i == 0 {
            assert(c[i] == v);
        } else {
            assert(c[i] == vs[i - 1]);
        }
    }
}

proof fn lemma_wf_concat(a: Seq<ValueV>, b: Seq<ValueV>, c: Seq<ValueV>)
    requires
        c == a + b,
        forall|i: int| 0 <= i < a.len() ==> crate::values::value_wf(#[trigger] a[i]),
        forall|i: int| 0 <= i < b.len() ==> crate::values::value_wf(#[trigger] b[i]),
    ensures
        forall|i: int| 0 <= i < c.len() ==> crate::values::value_wf(#[trigger] c[i]),
{
    assert forall|i: int| 0 <= i < c.len() implies crate::values::value_wf(#[trigger] c[i]) by {
        if i < a.len() {
            assert(c[i] == a[i]);
        } else {
            assert(c[i] == b[i - a.len()]);
        }
    }
}

/// Whatever combinator ran, a successful result is well shaped: every
/// syntax tree fragment in it satisfies the grammar's shape invariant.
pub proof fn lemma_run_wf(c: CombinatorV, s: Seq<char>, pos: int, fuel: nat)
    ensures
        run(c, s, pos, fuel) matches Some(p) ==> crate::values::value_wf(p.0),
    decreases fuel, c, 0nat, 0nat,
{
    match c {
        CombinatorV::Pattern(_) => {},
        CombinatorV::Sequence(a, b) => {
            lemma_run_wf(*a, s, pos, fuel);
            match run(*a, s, pos, fuel) {
                Some((lv, p1)) => {
                    lemma_run_wf(*b, s, p1, fuel);
                    match run(*b, s, p1, fuel) {
                        Some((rv, p2)) => {
                            let out = seq_value(*a, *b, lv, rv);
                            if !is_ignore(*a) && !is_ignore(*b) {
                                assert(out == ValueV::List(seq![lv, rv]));
                                lemma_wf_pair(lv, rv, seq![lv, rv]);
                            }
                        },
                        None => {},
                    }
                },
                None => {},
            }
        },
        CombinatorV::Ignore(a) => {
            lemma_run_wf(*a, s, pos, fuel);
        },
        CombinatorV::Alternative(a, b) => {
            lemma_run_wf(*a, s, pos, fuel);
            lemma_run_wf(*b, s, pos, fuel);
        },
        CombinatorV::BoundedRepeat(sub, min, extra) => {
            lemma_rep_min_wf(*sub, s, pos, fuel, min);
            match run_rep_min(*sub, s, pos, fuel, min) {
                Some((vs1, p1)) => {
                    lemma_rep_extra_wf(*sub, s, p1, fuel, extra);
                    let (vs2, p2) = run_rep_extra(*sub, s, p1, fuel, extra);
                    lemma_wf_concat(vs1, vs2, vs1 + vs2);
                },
                None => {},
            }
        },
        CombinatorV::Transform(sub, t) => {
            lemma_run_wf(*sub, s, pos, fuel);
            match run(*sub, s, pos, fuel) {
                Some((v, p)) => {
                    crate::transforms::lemma_spec_apply_wf(t, v);
                },
                None => {},
            }
        },
        CombinatorV::Forward(rid) => {
            if fuel > 0 {
                lemma_run_wf(crate::grammar::rule_body_v(rid), s, pos, (fuel - 1) as nat);
            }
        },
    }
}

proof fn lemma_rep_min_wf(sub: CombinatorV, s: Seq<char>, pos: int, fuel: nat, min: nat)
    ensures
        run_rep_min(sub, s, pos, fuel, min) matches Some(p) ==> forall|i: int|
            0 <= i < p.0.len() ==> crate::values::value_wf(#[trigger] p.0[i]),
    decreases fuel, sub, min, 1nat,
{
    if min > 0 {
        lemma_run_wf(sub, s, pos, fuel);
        match run(sub, s, pos, fuel) {
            Some((v, p)) => {
                lemma_rep_min_wf(sub, s, p, fuel, (min - 1) as nat);
                match run_rep_min(sub, s, p, fuel, (min - 1) as nat) {
                    Some((vs, p2)) => {
                        lemma_wf_cons(v, vs, seq![v] + vs);
                    },
                    None => {},
                }
            },
            None => {},
        }
    }
}

proof fn lemma_rep_extra_wf(sub: CombinatorV, s: Seq<char>, pos: int, fuel: nat, extra: Option<
    nat,
>)
    ensures
        forall|i: int|
            0 <= i < run_rep_extra(sub, s, pos, fuel, extra).0.len()
                ==> crate::values::value_wf(#[trigger] run_rep_extra(sub, s, pos, fuel, extra).0[i]),
    decreases fuel, sub, rep_measure(extra, s, pos), 1nat,
{
    if extra != Option::<nat>::Some(0nat) {
        lemma_run_wf(sub, s, pos, fuel);
        match run(sub, s, pos, fuel) {
            Some((v, p)) => {
                if !(extra is None && (p <= pos || p > s.len())) {
                    let next = match extra {
                        Option::Some(k) => Option::Some((k - 1) as nat),
                        Option::None => Option::None,
                    };
                    lemma_rep_extra_wf(sub, s, p, fuel, next);
                    let (vs, p2) = run_rep_extra(sub, s, p, fuel, next);
                    lemma_wf_cons(v, vs, seq![v] + vs);
                }
            },
            None => {},
        }
    }
}

fn is_ignore_exec(c: &Combinator) -> (r: bool)
    ensures
        r == is_ignore(c@),
{
    match c {
        Combinator::Ignore(_) => true,
        _ => false,
    }
}

/// Runs a combinator at `pos`; the executable counterpart of `run`.
pub fn run_comb(c: &Combinator, s: &str, n: usize, pos: usize, fuel: u64) -> (r: Option<
    (ParseValue, usize),
>)
    requires
        n == s@.len(),
        pos <= n,
    ensures
        (r is Some <==> run(c@, s@, pos as int, fuel as nat) is Some),
        r matches Some(p) ==> run(c@, s@, pos as int, fuel as nat) == Some((p.0@, p.1 as int))
            && pos <= p.1 <= n,
    decreases fuel, *c, 0nat, 0nat,
{
    match c {
        Combinator::Pattern(p) => match crate::lexical::pattern_match(p, s, n, pos) {
            Some(l) => {
                let text = s.substring_char(pos, pos + l).to_owned();
                Some((ParseValue::Text(text), pos + l))
            },
            None => None,
        },
        Combinator::Sequence(a, b) => match run_comb(&**a, s, n, pos, fuel) {
            None => None,
            Some((lv, p1)) => match run_comb(&**b, s, n, p1, fuel) {
                None => None,
                Some((rv, p2)) => {
                    let ia = is_ignore_exec(&**a);
                    let ib = is_ignore_exec(&**b);
                    if ia && ib {
                        Some((ParseValue::Text(String::new()), p2))
                    } else if ia {
                        Some((rv, p2))
                    } else if ib {
                        Some((lv, p2))
                    } else {
                        let mut items: Vec<ParseValue> = Vec::new();
                        items.push(lv);
                        items.push(rv);
                        proof {
                            lemma_value_view_seq(items@);
                            assert(value_view_seq(items@) =~= seq![
                                value_view(items@[0]),
                                value_view(items@[1]),
                            ]);
                        }
                        Some((ParseValue::List(items), p2))
                    }
                },
            },
        },
        Combinator::Ignore(a) => match run_comb(&**a, s, n, pos, fuel) {
            None => None,
            Some(p) => Some((ParseValue::Text(String::new()), p.1)),
        },
        Combinator::Alternative(a, b) => match run_comb(&**a, s, n, pos, fuel) {
            Some(p) => Some(p),
            None => run_comb(&**b, s, n, pos, fuel),
        },
        Combinator::BoundedRepeat(sub, min, extra) => match rep_min_exec(
            &**sub,
            s,
            n,
            pos,
            fuel,
            *min,
        ) {
            None => None,
            Some((vs1, p1)) => {
                let (vs2, p2) = rep_extra_exec(&**sub, s, n, p1, fuel, *extra);
                let ghost vs1v = vs1@;
                let ghost vs2v = vs2@;
                let mut combined = vs1;
                let mut tail = vs2;
                combined.append(&mut tail);
                proof {
                    assert(combined@ =~= vs1v + vs2v);
                    crate::values::lemma_value_view_seq_concat(vs1v, vs2v);
                }
                Some((ParseValue::List(combined), p2))
            },
        },
        Combinator::Transform(sub, t) => match run_comb(&**sub, s, n, pos, fuel) {
            None => None,
            Some((v, p)) => match apply_transform(*t, v) {
                Some(v2) => Some((v2, p)),
                None => None,
            },
        },
        Combinator::Forward(rid) => {
            if fuel == 0 {
                None
            } else {
                let g = crate::grammar::build_rule(*rid);
                run_comb(&g, s, n, pos, fuel - 1)
            }
        },
    }
}

/// The mandatory repetitions; the executable counterpart of `run_rep_min`.
fn rep_min_exec(sub: &Combinator, s: &str, n: usize, pos: usize, fuel: u64, min: u64) -> (r: Option<
    (Vec<ParseValue>, usize),
>)
    requires
        n == s@.len(),
        pos <= n,
    ensures
        (r is Some <==> run_rep_min(sub@, s@, pos as int, fuel as nat, min as nat) is Some),
        r matches Some(p) ==> run_rep_min(sub@, s@, pos as int, fuel as nat, min as nat) == Some(
            (value_view_seq(p.0@), p.1 as int),
        ) && pos <= p.1 <= n,
    decreases fuel, *sub, min, 1nat,
{
    if min == 0 {
        proof {
            assert(value_view_seq(Seq::<ParseValue>::empty()) =~= Seq::<ValueV>::empty());
        }
        Some((Vec::new(), pos))
    } else {
        match run_comb(sub, s, n, pos, fuel) {
            None => None,
            Some((v, p)) => match rep_min_exec(sub, s, n, p, fuel, min - 1) {
                None => None,
                Some((vs, p2)) => {
                    let ghost vsv = vs@;
                    let ghost vv = v@;
                    let mut out = vs;
                    out.insert(0, v);
                    proof {
                        assert(out@ =~= seq![out@[0]] + vsv);
                        crate::values::lemma_value_view_seq_concat(seq![out@[0]], vsv);
                        lemma_value_view_seq(seq![out@[0]]);
                        assert(value_view_seq(seq![out@[0]]) =~= seq![vv]);
                    }
                    Some((out, p2))
                },
            },
        }
    }
}

/// The optional repetitions; the executable counterpart of `run_rep_extra`.
fn rep_extra_exec(sub: &Combinator, s: &str, n: usize, pos: usize, fuel: u64, extra: Option<
    u64,
>) -> (r: (Vec<ParseValue>, usize))
    requires
        n == s@.len(),
        pos <= n,
    ensures
        run_rep_extra(sub@, s@, pos as int, fuel as nat, opt_nat(extra)) == (
            value_view_seq(r.0@),
            r.1 as int,
        ),
        pos <= r.1 <= n,
    decreases fuel, *sub, rep_measure(opt_nat(extra), s@, pos as int), 1nat,
{
    let at_cap = match extra {
        Some(k) => k == 0,
        None => false,
    };
    proof {
        assert(value_view_seq(Seq::<ParseValue>::empty()) =~= Seq::<ValueV>::empty());
    }
    if at_cap {
        (Vec::new(), pos)
    } else {
        match run_comb(sub, s, n, pos, fuel) {
            None => (Vec::new(), pos),
            Some((v, p)) => {
                let unbounded = matches!(extra, None);
                if unbounded && p <= pos {
                    (Vec::new(), pos)
                } else {
                    let next = match extra {
                        Some(k) => Some(k - 1),
                        None => None,
                    };
                    let (vs, p2) = rep_extra_exec(sub, s, n, p, fuel, next);
                    let ghost vsv = vs@;
                    let ghost vv = v@;
                    let mut out = vs;
                    out.insert(0, v);
                    proof {
                        assert(out@ =~= seq![out@[0]] + vsv);
                        crate::values::lemma_value_view_seq_concat(seq![out@[0]], vsv);
                        lemma_value_view_seq(seq![out@[0]]);
                        assert(value_view_seq(seq![out@[0]]) =~= seq![vv]);
                    }
                    (out, p2)
                }
            },
        }
    }
}

} // verus!
