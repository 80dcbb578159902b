//! The mathematical semantics: a fuel-indexed evaluation function over the
//! ghost model of the interpreter state. The executable evaluator is proved
//! to return exactly what these functions say, state included.
//!
//! Fuel bounds the number of nested evaluation steps; when it runs out the
//! result is an error value. The executable entry points use the largest
//! 64-bit fuel, which no physically runnable program exhausts.
use vstd::prelude::*;

use crate::ast::{DeclS, ExprS, FrameS, MatchS, ThunkCellS, ValueS};
use crate::ops::{apply_binop_s, apply_unary_s, type_name_s, val_eq_s};

verus! {

broadcast use vstd::seq::group_seq_axioms;

/// Ghost model of the whole interpreter state: the two arenas.
pub struct StateS {
    pub frames: Seq<FrameS>,
    pub thunks: Seq<ThunkCellS>,
}

/// An environment reference is valid when it points into the frame arena.
pub open spec fn wf_env(nf: int, env: Option<int>) -> bool {
    match env {
        Some(i) => 0 <= i < nf,
        None => true,
    }
}

/// A value is well formed when every environment, frame and thunk index in
/// it points into the arenas.
pub open spec fn wf_value(nf: int, nt: int, v: ValueS) -> bool
    decreases v,
{
    match v {
        ValueS::Tuple(vs) => forall|i: int| 0 <= i < vs.len() ==> wf_value(nf, nt, #[trigger] vs[i]),
        ValueS::Boxed(b) => wf_value(nf, nt, *b),
        ValueS::Function(p, body, env) => wf_match(nf, nt, p) && wf_expr(nf, nt, *body)
            && wf_env(nf, env),
        ValueS::Thunk(id) => 0 <= id < nt,
        _ => true,
    }
}

/// A pattern is well formed when the values embedded in it are.
pub open spec fn wf_match(nf: int, nt: int, p: MatchS) -> bool
    decreases p,
{
    match p {
        MatchS::Value(v) => wf_value(nf, nt, *v),
        MatchS::Tuple(ps) => forall|i: int| 0 <= i < ps.len() ==> wf_match(nf, nt, #[trigger] ps[i]),
        _ => true,
    }
}

/// An expression is well formed when the values embedded in it are.
pub open spec fn wf_expr(nf: int, nt: int, e: ExprS) -> bool
    decreases e,
{
    match e {
        ExprS::Unary(_, a) => wf_expr(nf, nt, *a),
        ExprS::Binary(a, _, b) => wf_expr(nf, nt, *a) && wf_expr(nf, nt, *b),
        ExprS::Literal(v) => wf_value(nf, nt, v),
        ExprS::If(c, t, els) => wf_expr(nf, nt, *c) && wf_expr(nf, nt, *t) && wf_expr(nf, nt, *els),
        ExprS::Variable(_) => true,
        ExprS::Let(p, v, b) => wf_match(nf, nt, p) && wf_expr(nf, nt, *v) && wf_expr(nf, nt, *b),
        ExprS::Fn_(p, b) => wf_match(nf, nt, p) && wf_expr(nf, nt, *b),
        ExprS::FnApp(f, a) => wf_expr(nf, nt, *f) && wf_expr(nf, nt, *a),
        ExprS::Match(s, arms) => wf_expr(nf, nt, *s) && forall|i: int| 0 <= i < arms.len()
            ==> wf_match(nf, nt, (#[trigger] arms[i]).0) && wf_expr(nf, nt, arms[i].1),
        ExprS::Delayed(p, v, b) => wf_match(nf, nt, p) && wf_expr(nf, nt, *v) && wf_expr(
            nf,
            nt,
            *b,
        ),
        ExprS::Boxed(e) => wf_expr(nf, nt, *e),
    }
}

/// A thunk cell is well formed when its expression, site and environment are.
pub open spec fn wf_thunk(nf: int, nt: int, t: ThunkCellS) -> bool {
    match t {
        ThunkCellS::Unevaluated(e, site, captured) => wf_expr(nf, nt, e) && 0 <= site < nf
            && wf_env(nf, captured),
        ThunkCellS::Evaluating => true,
        ThunkCellS::Forced(v) => wf_value(nf, nt, v),
    }
}

/// Arena invariant: frame parents point strictly downward (so lookup along a
/// parent chain terminates), and every stored value and thunk is well formed.
pub open spec fn wf_state(st: StateS) -> bool {
    &&& forall|i: int| 0 <= i < st.frames.len() ==> wf_value(
        st.frames.len() as int,
        st.thunks.len() as int,
        (#[trigger] st.frames[i]).value,
    )
    &&& forall|i: int| 0 <= i < st.frames.len() ==> match (#[trigger] st.frames[i]).parent {
        Some(p) => 0 <= p < i,
        None => true,
    }
    &&& forall|j: int| 0 <= j < st.thunks.len() ==> wf_thunk(
        st.frames.len() as int,
        st.thunks.len() as int,
        #[trigger] st.thunks[j],
    )
}

/// Well-formedness only mentions arena sizes as upper bounds, so it is
/// preserved when the arenas grow.
pub proof fn lemma_wf_value_mono(nf: int, nt: int, nf2: int, nt2: int, v: ValueS)
    requires
        wf_value(nf, nt, v),
        nf <= nf2,
        nt <= nt2,
    ensures
        wf_value(nf2, nt2, v),
    decreases v,
{
    match v {
        ValueS::Tuple(vs) => {
            assert forall|i: int| 0 <= i < vs.len() implies wf_value(nf2, nt2, #[trigger] vs[i]) by {
                lemma_wf_value_mono(nf, nt, nf2, nt2, vs[i]);
            }
        },
        ValueS::Boxed(b) => lemma_wf_value_mono(nf, nt, nf2, nt2, *b),
        ValueS::Function(p, body, _) => {
            lemma_wf_match_mono(nf, nt, nf2, nt2, p);
            lemma_wf_expr_mono(nf, nt, nf2, nt2, *body);
        },
        _ => {},
    }
}

/// Well-formedness of a pattern is preserved when the arenas grow.
pub proof fn lemma_wf_match_mono(nf: int, nt: int, nf2: int, nt2: int, p: MatchS)
    requires
        wf_match(nf, nt, p),
        nf <= nf2,
        nt <= nt2,
    ensures
        wf_match(nf2, nt2, p),
    decreases p,
{
    match p {
        MatchS::Value(v) => lemma_wf_value_mono(nf, nt, nf2, nt2, *v),
        MatchS::Tuple(ps) => {
            assert forall|i: int| 0 <= i < ps.len() implies wf_match(nf2, nt2, #[trigger] ps[i]) by {
                lemma_wf_match_mono(nf, nt, nf2, nt2, ps[i]);
            }
        },
        _ => {},
    }
}

/// Well-formedness of an expression is preserved when the arenas grow.
pub proof fn lemma_wf_expr_mono(nf: int, nt: int, nf2: int, nt2: int, e: ExprS)
    requires
        wf_expr(nf, nt, e),
        nf <= nf2,
        nt <= nt2,
    ensures
        wf_expr(nf2, nt2, e),
    decreases e,
{
    match e {
        ExprS::Unary(_, a) => lemma_wf_expr_mono(nf, nt, nf2, nt2, *a),
        ExprS::Binary(a, _, b) => {
            lemma_wf_expr_mono(nf, nt, nf2, nt2, *a);
            lemma_wf_expr_mono(nf, nt, nf2, nt2, *b);
        },
        ExprS::Literal(v) => lemma_wf_value_mono(nf, nt, nf2, nt2, v),
        ExprS::If(c, t, els) => {
            lemma_wf_expr_mono(nf, nt, nf2, nt2, *c);
            lemma_wf_expr_mono(nf, nt, nf2, nt2, *t);
            lemma_wf_expr_mono(nf, nt, nf2, nt2, *els);
        },
        ExprS::Variable(_) => {},
        ExprS::Let(p, v, b) => {
            lemma_wf_match_mono(nf, nt, nf2, nt2, p);
            lemma_wf_expr_mono(nf, nt, nf2, nt2, *v);
            lemma_wf_expr_mono(nf, nt, nf2, nt2, *b);
        },
        ExprS::Fn_(p, b) => {
            lemma_wf_match_mono(nf, nt, nf2, nt2, p);
            lemma_wf_expr_mono(nf, nt, nf2, nt2, *b);
        },
        ExprS::FnApp(f, a) => {
            lemma_wf_expr_mono(nf, nt, nf2, nt2, *f);
            lemma_wf_expr_mono(nf, nt, nf2, nt2, *a);
        },
        ExprS::Match(s, arms) => {
            lemma_wf_expr_mono(nf, nt, nf2, nt2, *s);
            assert forall|i: int| 0 <= i < arms.len() implies wf_match(
                nf2,
                nt2,
                (#[trigger] arms[i]).0,
            ) && wf_expr(nf2, nt2, arms[i].1) by {
                lemma_wf_match_mono(nf, nt, nf2, nt2, arms[i].0);
                lemma_wf_expr_mono(nf, nt, nf2, nt2, arms[i].1);
            }
        },
        ExprS::Delayed(p, v, b) => {
            lemma_wf_match_mono(nf, nt, nf2, nt2, p);
            lemma_wf_expr_mono(nf, nt, nf2, nt2, *v);
            lemma_wf_expr_mono(nf, nt, nf2, nt2, *b);
        },
        ExprS::Boxed(e) => lemma_wf_expr_mono(nf, nt, nf2, nt2, *e),
    }
}

/// Well-formedness of a thunk cell is preserved when the arenas grow.
pub proof fn lemma_wf_thunk_mono(nf: int, nt: int, nf2: int, nt2: int, t: ThunkCellS)
    requires
        wf_thunk(nf, nt, t),
        nf <= nf2,
        nt <= nt2,
    ensures
        wf_thunk(nf2, nt2, t),
{
    match t {
        ThunkCellS::Unevaluated(e, _, _) => lemma_wf_expr_mono(nf, nt, nf2, nt2, e),
        ThunkCellS::Evaluating => {},
        ThunkCellS::Forced(v) => lemma_wf_value_mono(nf, nt, nf2, nt2, v),
    }
}

/// Pushing a well-formed frame whose parent is a valid environment keeps the
/// state well formed.
pub proof fn lemma_wf_state_push_frame(st: StateS, f: FrameS)
    requires
        wf_state(st),
        wf_value(st.frames.len() as int, st.thunks.len() as int, f.value),
        wf_env(st.frames.len() as int, f.parent),
    ensures
        wf_state(StateS { frames: st.frames.push(f), thunks: st.thunks }),
{
    let nf = st.frames.len() as int;
    let nt = st.thunks.len() as int;
    let st2 = StateS { frames: st.frames.push(f), thunks: st.thunks };
    assert forall|i: int| 0 <= i < st2.frames.len() implies wf_value(
        nf + 1,
        nt,
        (#[trigger] st2.frames[i]).value,
    ) by {
        if i < nf {
            lemma_wf_value_mono(nf, nt, nf + 1, nt, st.frames[i].value);
        } else {
            lemma_wf_value_mono(nf, nt, nf + 1, nt, f.value);
        }
    }
    assert forall|j: int| 0 <= j < st2.thunks.len() implies wf_thunk(
        nf + 1,
        nt,
        #[trigger] st2.thunks[j],
    ) by {
        lemma_wf_thunk_mono(nf, nt, nf + 1, nt, st.thunks[j]);
    }
}

/// Overwriting a frame's value with a well-formed one keeps the state well
/// formed.
pub proof fn lemma_wf_state_set_value(st: StateS, i: int, v: ValueS)
    requires
        wf_state(st),
        0 <= i < st.frames.len(),
        wf_value(st.frames.len() as int, st.thunks.len() as int, v),
    ensures
        wf_state(
            StateS {
                frames: st.frames.update(
                    i,
                    FrameS { name: st.frames[i].name, value: v, parent: st.frames[i].parent },
                ),
                thunks: st.thunks,
            },
        ),
{
}

/// Pushing a well-formed thunk cell keeps the state well formed.
pub proof fn lemma_wf_state_push_thunk(st: StateS, t: ThunkCellS)
    requires
        wf_state(st),
        wf_thunk(st.frames.len() as int, st.thunks.len() as int, t),
    ensures
        wf_state(StateS { frames: st.frames, thunks: st.thunks.push(t) }),
{
    let nf = st.frames.len() as int;
    let nt = st.thunks.len() as int;
    let st2 = StateS { frames: st.frames, thunks: st.thunks.push(t) };
    assert forall|i: int| 0 <= i < st2.frames.len() implies wf_value(
        nf,
        nt + 1,
        (#[trigger] st2.frames[i]).value,
    ) by {
        lemma_wf_value_mono(nf, nt, nf, nt + 1, st.frames[i].value);
    }
    assert forall|j: int| 0 <= j < st2.thunks.len() implies wf_thunk(
        nf,
        nt + 1,
        #[trigger] st2.thunks[j],
    ) by {
        if j < nt {
            lemma_wf_thunk_mono(nf, nt, nf, nt + 1, st.thunks[j]);
        } else {
            lemma_wf_thunk_mono(nf, nt, nf, nt + 1, t);
        }
    }
}

/// Overwriting a thunk cell with a well-formed one keeps the state well
/// formed.
pub proof fn lemma_wf_state_set_thunk(st: StateS, id: int, t: ThunkCellS)
    requires
        wf_state(st),
        0 <= id < st.thunks.len(),
        wf_thunk(st.frames.len() as int, st.thunks.len() as int, t),
    ensures
        wf_state(StateS { frames: st.frames, thunks: st.thunks.update(id, t) }),
{
}

/// A well-formed `Match` expression has well-formed patterns and bodies in
/// every arm.
pub proof fn lemma_wf_match_arm(
    nf: int,
    nt: int,
    e: ExprS,
    k: int,
)
    requires
        wf_expr(nf, nt, e),
        e is Match,
        0 <= k < e->Match_1.len(),
    ensures
        wf_match(nf, nt, e->Match_1[k].0),
        wf_expr(nf, nt, e->Match_1[k].1),
{
    match e {
        ExprS::Match(sb, arms) => {
            assert(wf_match(nf, nt, (arms[k]).0) && wf_expr(nf, nt, arms[k].1));
        },
        _ => {},
    }
}

/// Index of the innermost frame along the parent chain from `env` whose name
/// matches, if any. Recursion is guarded so the function is total even on
/// malformed chains; under `wf_state` the guard never cuts a chain short.
pub open spec fn lookup_s(frames: Seq<FrameS>, env: Option<int>, name: Seq<char>) -> Option<int>
    decreases (match env {
        Some(i) => i + 1,
        None => 0,
    }),
{
    match env {
        None => None,
        Some(i) => if frames[i].name == name {
            Some(i)
        } else {
            match frames[i].parent {
                Some(p) => if 0 <= p < i {
                    lookup_s(frames, Some(p), name)
                } else {
                    None
                },
                None => None,
            }
        },
    }
}

/// The ordered bindings a pattern produces against a value, or `None` when
/// the pattern does not match.
pub open spec fn match_pat_s(p: MatchS, v: ValueS) -> Option<Seq<(Seq<char>, ValueS)>>
    decreases p, 0int,
{
    match p {
        MatchS::Ident(n) => Some(seq![(n, v)]),
        MatchS::Wildcard => Some(Seq::empty()),
        MatchS::Value(expected) => if val_eq_s(*expected, v) {
            Some(Seq::empty())
        } else {
            None
        },
        MatchS::Tuple(ps) => match v {
            ValueS::Tuple(vs) => if ps.len() == vs.len() {
                match_tuple_s(ps, vs, 0)
            } else {
                None
            },
            _ => None,
        },
    }
}

/// Left-to-right fold of the component matches of a tuple pattern.
pub open spec fn match_tuple_s(ps: Seq<MatchS>, vs: Seq<ValueS>, i: int) -> Option<
    Seq<(Seq<char>, ValueS)>,
>
    decreases ps, ps.len() - i,
{
    if !(0 <= i < ps.len()) {
        Some(Seq::empty())
    } else {
        match match_pat_s(ps[i], vs[i]) {
            Some(bs) => match match_tuple_s(ps, vs, i + 1) {
                Some(rest) => Some(bs + rest),
                None => None,
            },
            None => None,
        }
    }
}

/// Every value a successful match binds is a component of the scrutinee, so
/// binding preserves well-formedness.
pub proof fn lemma_match_pat_wf(
    nf: int,
    nt: int,
    p: MatchS,
    v: ValueS,
    bs: Seq<(Seq<char>, ValueS)>,
)
    requires
        wf_value(nf, nt, v),
        match_pat_s(p, v) == Some(bs),
    ensures
        forall|j: int| 0 <= j < bs.len() ==> wf_value(nf, nt, (#[trigger] bs[j]).1),
    decreases p, 0int,
{
    match p {
        MatchS::Tuple(ps) => match v {
            ValueS::Tuple(vs) => {
                if ps.len() == vs.len() {
                    lemma_match_tuple_wf(nf, nt, ps, vs, 0, bs);
                }
            },
            _ => {},
        },
        _ => {},
    }
}

/// Component version of `lemma_match_pat_wf`.
pub proof fn lemma_match_tuple_wf(
    nf: int,
    nt: int,
    ps: Seq<MatchS>,
    vs: Seq<ValueS>,
    i: int,
    bs: Seq<(Seq<char>, ValueS)>,
)
    requires
        forall|k: int| 0 <= k < vs.len() ==> wf_value(nf, nt, #[trigger] vs[k]),
        ps.len() == vs.len(),
        match_tuple_s(ps, vs, i) == Some(bs),
    ensures
        forall|j: int| 0 <= j < bs.len() ==> wf_value(nf, nt, (#[trigger] bs[j]).1),
    decreases ps, ps.len() - i,
{
    if 0 <= i < ps.len() {
        match match_pat_s(ps[i], vs[i]) {
            Some(bh) => {
                lemma_match_pat_wf(nf, nt, ps[i], vs[i], bh);
                match match_tuple_s(ps, vs, i + 1) {
                    Some(rest) => {
                        lemma_match_tuple_wf(nf, nt, ps, vs, i + 1, rest);
                        assert forall|j: int| 0 <= j < bs.len() implies wf_value(
                            nf,
                            nt,
                            (#[trigger] bs[j]).1,
                        ) by {
                            if j < bh.len() {
                                assert(bs[j] == bh[j]);
                            } else {
                                assert(bs[j] == rest[j - bh.len()]);
                            }
                        }
                    },
                    None => {},
                }
            },
            None => {},
        }
    }
}

/// Push one frame per binding, left to right; each later binding shadows
/// earlier ones and the last frame becomes the new environment.
pub open spec fn push_bindings_s(
    st: StateS,
    env: Option<int>,
    bs: Seq<(Seq<char>, ValueS)>,
) -> (StateS, Option<int>)
    decreases bs.len(),
{
    if bs.len() == 0 {
        (st, env)
    } else {
        let st1 = StateS {
            frames: st.frames.push(FrameS { name: bs[0].0, value: bs[0].1, parent: env }),
            thunks: st.thunks,
        };
        push_bindings_s(st1, Some(st.frames.len() as int), bs.subrange(1, bs.len() as int))
    }
}

/// Index of the first arm from `i` on whose pattern matches `v`, or the
/// number of arms when none does.
pub open spec fn first_match_idx(arms: Seq<(MatchS, ExprS)>, v: ValueS, i: int) -> int
    decreases arms.len() - i,
{
    if !(0 <= i < arms.len()) {
        arms.len() as int
    } else if match_pat_s(arms[i].0, v) is Some {
        i
    } else {
        first_match_idx(arms, v, i + 1)
    }
}

/// Message of the error returned when a variable is not in scope.
pub open spec fn msg_not_declared(name: Seq<char>) -> Seq<char> {
    "Variable '"@ + name + "' is not declared"@
}

/// Message of the placeholder installed before a declaration is filled in.
pub open spec fn msg_uninitialized(name: Seq<char>) -> Seq<char> {
    "'"@ + name + "' has not been initialized"@
}

/// What evaluating an expression returns, and the state it leaves behind.
///
/// Every nested evaluation step consumes one unit of fuel; at zero the result
/// is an error value and the state is unchanged.
pub open spec fn eval_s(st: StateS, e: ExprS, env: Option<int>, fuel: nat) -> (StateS, ValueS)
    decreases fuel,
{
    if fuel == 0 {
        (st, ValueS::Error("evaluation budget exhausted"@))
    } else {
        let f = (fuel - 1) as nat;
        match e {
            ExprS::Unary(op, a) => {
                let (s1, va) = eval_s(st, *a, env, f);
                (s1, apply_unary_s(op, va))
            },
            ExprS::Binary(a, op, b) => {
                let (s1, va) = eval_s(st, *a, env, f);
                let (s2, vb) = eval_s(s1, *b, env, f);
                (s2, apply_binop_s(op, va, vb))
            },
            ExprS::Literal(v) => (st, v),
            ExprS::If(c, t, els) => {
                let (s1, vc) = eval_s(st, *c, env, f);
                match vc {
                    ValueS::Bool(true) => eval_s(s1, *t, env, f),
                    ValueS::Bool(false) => eval_s(s1, *els, env, f),
                    ValueS::Error(_) => (s1, vc),
                    _ => (s1, ValueS::Error("If condition must return a boolean"@)),
                }
            },
            ExprS::Variable(name) => match lookup_s(st.frames, env, name) {
                Some(i) => force_s(st, st.frames[i].value, Some(env), f),
                None => (st, ValueS::Error(msg_not_declared(name))),
            },
            ExprS::Let(p, vx, body) => {
                let (s1, vv) = eval_s(st, *vx, env, f);
                match match_pat_s(p, vv) {
                    Some(bs) => {
                        let (s2, env2) = push_bindings_s(s1, env, bs);
                        eval_s(s2, *body, env2, f)
                    },
                    None => (s1, ValueS::Error("Value didn't match the pattern"@)),
                }
            },
            ExprS::Fn_(p, body) => (st, ValueS::Function(p, body, env)),
            ExprS::FnApp(fe, ae) => {
                let (s1, vf) = eval_s(st, *fe, env, f);
                match vf {
                    ValueS::Function(p, fbody, fenv) => {
                        let (s2, va) = eval_s(s1, *ae, env, f);
                        match match_pat_s(p, va) {
                            Some(bs) => {
                                let (s3, env3) = push_bindings_s(s2, fenv, bs);
                                eval_s(s3, *fbody, env3, f)
                            },
                            None => (s2, ValueS::Error("Value didn't match the pattern"@)),
                        }
                    },
                    ValueS::Int(idx) => if idx < 0 {
                        (s1, ValueS::Error("Cannot have a negative index of a tuple"@))
                    } else {
                        let (s2, va) = eval_s(s1, *ae, env, f);
                        match va {
                            ValueS::Tuple(xs) => if idx < xs.len() {
                                (s2, xs[idx as int])
                            } else {
                                (s2, ValueS::Error("Tuple index out of range"@))
                            },
                            ValueS::Error(_) => (s2, va),
                            _ => (s2, ValueS::Error(
                                "Can't index type '"@ + type_name_s(va) + "'"@,
                            )),
                        }
                    },
                    ValueS::Error(_) => (s1, vf),
                    _ => (s1, ValueS::Error(
                        "Can't apply argument to type '"@ + type_name_s(vf) + "'"@,
                    )),
                }
            },
            ExprS::Match(sx, arms) => {
                let (s1, vs) = eval_s(st, *sx, env, f);
                let k = first_match_idx(arms, vs, 0);
                if k < arms.len() {
                    match match_pat_s(arms[k].0, vs) {
                        Some(bs) => {
                            let (s2, env2) = push_bindings_s(s1, env, bs);
                            eval_s(s2, arms[k].1, env2, f)
                        },
                        None => (s1, ValueS::Error("Value didn't match any patterns"@)),
                    }
                } else {
                    (s1, ValueS::Error("Value didn't match any patterns"@))
                }
            },
            ExprS::Delayed(p, vx, body) => match p {
                MatchS::Ident(name) => {
                    let site = st.frames.len() as int;
                    let tid = st.thunks.len() as int;
                    let st1 = StateS {
                        frames: st.frames.push(
                            FrameS {
                                name: name,
                                value: ValueS::Error("Value not yet initialized"@),
                                parent: env,
                            },
                        ),
                        thunks: st.thunks.push(ThunkCellS::Unevaluated(*vx, site, env)),
                    };
                    let st2 = StateS {
                        frames: st1.frames.update(
                            site,
                            FrameS { name: name, value: ValueS::Thunk(tid), parent: env },
                        ),
                        thunks: st1.thunks,
                    };
                    eval_s(st2, *body, Some(site), f)
                },
                _ => (st, ValueS::Error("Delayed binding requires an identifier pattern"@)),
            },
            ExprS::Boxed(ex) => {
                let (s1, v) = eval_s(st, *ex, env, f);
                (s1, ValueS::Boxed(Box::new(v)))
            },
        }
    }
}

/// Forcing a value: thunks are evaluated once and memoized, everything else
/// is returned as it is.
///
/// An unevaluated thunk's expression is evaluated in the context environment
/// supplied at the forcing site (the use site of the variable), falling back
/// to the environment captured at creation when none is given; the result is
/// written back both into the thunk cell and into the frame owning the
/// thunk. A thunk already being forced yields the cyclic-use error.
pub open spec fn force_s(st: StateS, v: ValueS, ctx: Option<Option<int>>, fuel: nat) -> (
    StateS,
    ValueS,
)
    decreases fuel,
{
    match v {
        ValueS::Thunk(id) => match st.thunks[id] {
            ThunkCellS::Unevaluated(tx, site, captured) => if fuel == 0 {
                (st, ValueS::Error("evaluation budget exhausted"@))
            } else {
                let eenv = match ctx {
                    Some(c) => c,
                    None => captured,
                };
                let st1 = StateS {
                    frames: st.frames,
                    thunks: st.thunks.update(id, ThunkCellS::Evaluating),
                };
                let (s2, r) = eval_s(st1, tx, eenv, (fuel - 1) as nat);
                let s3 = StateS {
                    frames: s2.frames.update(
                        site,
                        FrameS {
                            name: s2.frames[site].name,
                            value: r,
                            parent: s2.frames[site].parent,
                        },
                    ),
                    thunks: s2.thunks.update(id, ThunkCellS::Forced(r)),
                };
                (s3, r)
            },
            ThunkCellS::Evaluating => (st, ValueS::Error("cyclic use of delayed value"@)),
            ThunkCellS::Forced(u) => (st, u),
        },
        _ => (st, v),
    }
}

/// Phase one of declaration binding: from declaration `i` on, push one frame
/// per declaration, each initialized to its placeholder error and chained on
/// the previous one; the result is the final environment.
pub open spec fn phase1_s(st: StateS, decls: Seq<DeclS>, i: int, env: Option<int>) -> (
    StateS,
    Option<int>,
)
    decreases decls.len() - i,
{
    if !(0 <= i < decls.len()) {
        (st, env)
    } else {
        match decls[i] {
            DeclS::Expression(name, _) => {
                let st1 = StateS {
                    frames: st.frames.push(
                        FrameS {
                            name: name,
                            value: ValueS::Error(msg_uninitialized(name)),
                            parent: env,
                        },
                    ),
                    thunks: st.thunks,
                };
                phase1_s(st1, decls, i + 1, Some(st.frames.len() as int))
            },
        }
    }
}

/// Phase two of declaration binding: install into the frame of declaration
/// `i` (at index `base + i`) either a closure over the whole declarations
/// environment, for function declarations, or a fresh thunk that will
/// evaluate the right-hand side on first demand and memoize it.
pub open spec fn phase2_s(st: StateS, decls: Seq<DeclS>, i: int, base: int, etop: Option<int>)
    -> StateS
    decreases decls.len() - i,
{
    if !(0 <= i < decls.len()) {
        st
    } else {
        match decls[i] {
            DeclS::Expression(_, e) => {
                let idx = base + i;
                let st1 = match e {
                    ExprS::Fn_(p, body) => StateS {
                        frames: st.frames.update(
                            idx,
                            FrameS {
                                name: st.frames[idx].name,
                                value: ValueS::Function(p, body, etop),
                                parent: st.frames[idx].parent,
                            },
                        ),
                        thunks: st.thunks,
                    },
                    _ => StateS {
                        frames: st.frames.update(
                            idx,
                            FrameS {
                                name: st.frames[idx].name,
                                value: ValueS::Thunk(st.thunks.len() as int),
                                parent: st.frames[idx].parent,
                            },
                        ),
                        thunks: st.thunks.push(ThunkCellS::Unevaluated(e, idx, etop)),
                    },
                };
                phase2_s(st1, decls, i + 1, base, etop)
            },
        }
    }
}

/// Binding a declaration list: allocate all frames, then install all values.
pub open spec fn env_from_decls_s(st: StateS, decls: Seq<DeclS>) -> (StateS, Option<int>) {
    let (st1, etop) = phase1_s(st, decls, 0, None);
    (phase2_s(st1, decls, 0, st.frames.len() as int, etop), etop)
}

/// The expression on the right-hand side of a declaration.
pub open spec fn decl_expr(d: DeclS) -> ExprS {
    match d {
        DeclS::Expression(_, e) => e,
    }
}

/// Every declaration's right-hand side is well formed.
pub open spec fn wf_decls(nf: int, nt: int, decls: Seq<DeclS>) -> bool {
    forall|i: int| 0 <= i < decls.len() ==> wf_expr(nf, nt, decl_expr(#[trigger] decls[i]))
}

/// A program is well formed when its expressions are, with respect to the
/// empty arenas: an abstract syntax tree never holds a closure or a thunk.
pub open spec fn wf_prog(p: crate::ast::ProgS) -> bool {
    match p {
        crate::ast::ProgS::Binary(main, decls) => wf_expr(0, 0, main) && wf_decls(0, 0, decls),
        crate::ast::ProgS::Library(_) => true,
    }
}

/// The fuel the executable entry points run with.
pub open spec fn default_fuel() -> nat {
    u64::MAX as nat
}

/// What running a whole program returns: a binary binds its declarations and
/// evaluates `main` in the resulting environment; a library is refused.
pub open spec fn run_prog_s(p: crate::ast::ProgS) -> Result<ValueS, Seq<char>> {
    match p {
        crate::ast::ProgS::Binary(main, decls) => {
            let st0 = StateS { frames: Seq::empty(), thunks: Seq::empty() };
            let (st1, env) = env_from_decls_s(st0, decls);
            Ok(eval_s(st1, main, env, default_fuel()).1)
        },
        crate::ast::ProgS::Library(_) => Err("No 'main' found in file"@),
    }
}

} // verus!
