//! Laws of the evaluator, stated over the specification semantics and proved
//! once and for all.
use vstd::prelude::*;

use crate::ast::{BinOp, ExprS, MatchS, UnaryOp, ValueS};
use crate::ops::{apply_binop_s, apply_unary_s, val_eq_s};
use crate::semantics::{
    eval_s, first_match_idx, lookup_s, match_pat_s, push_bindings_s, StateS,
};

verus! {

broadcast use vstd::seq::group_seq_axioms;

/// A literal evaluates to the embedded value and leaves the state unchanged.
pub proof fn lemma_literal(st: StateS, v: ValueS, env: Option<int>, fuel: nat)
    requires
        fuel >= 1,
    ensures
        eval_s(st, ExprS::Literal(v), env, fuel) == (st, v),
{
}

/// A conditional on a true literal evaluates to its `then` branch, one on a
/// false literal to its `else` branch, each with one step of fuel spent on
/// the condition.
pub proof fn lemma_if_totality(st: StateS, b: bool, t: ExprS, e: ExprS, env: Option<int>, fuel: nat)
    requires
        fuel >= 2,
    ensures
        eval_s(
            st,
            ExprS::If(Box::new(ExprS::Literal(ValueS::Bool(b))), Box::new(t), Box::new(e)),
            env,
            fuel,
        ) == (if b {
            eval_s(st, t, env, (fuel - 1) as nat)
        } else {
            eval_s(st, e, env, (fuel - 1) as nat)
        }),
{
    reveal_with_fuel(eval_s, 3);
}

/// A conditional whose condition evaluates to anything but a boolean or an
/// error yields the type-mismatch error; an error condition propagates.
pub proof fn lemma_if_condition(st: StateS, c: ExprS, t: ExprS, e: ExprS, env: Option<int>, fuel: nat)
    requires
        fuel >= 1,
    ensures
        ({
            let (s1, vc) = eval_s(st, c, env, (fuel - 1) as nat);
            &&& (vc is Error ==> eval_s(
                st,
                ExprS::If(Box::new(c), Box::new(t), Box::new(e)),
                env,
                fuel,
            ) == (s1, vc))
            &&& (!(vc is Bool) && !(vc is Error) ==> eval_s(
                st,
                ExprS::If(Box::new(c), Box::new(t), Box::new(e)),
                env,
                fuel,
            ) == (s1, ValueS::Error("If condition must return a boolean"@)))
        }),
{
}

/// An error operand propagates through every binary operator, the left one
/// first, and through every unary operator.
pub proof fn lemma_error_propagation(op: BinOp, uop: UnaryOp, a: ValueS, b: ValueS, m: Seq<char>)
    ensures
        apply_binop_s(op, ValueS::Error(m), b) == ValueS::Error(m),
        !(a is Error) ==> apply_binop_s(op, a, ValueS::Error(m)) == ValueS::Error(m),
        apply_unary_s(uop, ValueS::Error(m)) == ValueS::Error(m),
{
}

/// Functions and thunks are equal to nothing, not even to themselves;
/// structural equality is symmetric on everything else too.
pub proof fn lemma_functions_never_equal(a: ValueS, b: ValueS)
    ensures
        a is Function ==> !val_eq_s(a, b) && !val_eq_s(b, a),
        a is Thunk ==> !val_eq_s(a, b) && !val_eq_s(b, a),
{
}

/// Structural equality is symmetric.
pub proof fn lemma_val_eq_sym(a: ValueS, b: ValueS)
    ensures
        val_eq_s(a, b) == val_eq_s(b, a),
    decreases a,
{
    match (a, b) {
        (ValueS::Tuple(xs), ValueS::Tuple(ys)) => {
            if xs.len() == ys.len() {
                assert forall|i: int| 0 <= i < xs.len() implies val_eq_s(
                    #[trigger] xs[i],
                    ys[i],
                ) == val_eq_s(ys[i], xs[i]) by {
                    lemma_val_eq_sym(xs[i], ys[i]);
                }
            }
        },
        (ValueS::Boxed(x), ValueS::Boxed(y)) => {
            lemma_val_eq_sym(*x, *y);
        },
        _ => {},
    }
}

/// Structural equality is reflexive on values without functions or thunks.
pub open spec fn first_order(v: ValueS) -> bool
    decreases v,
{
    match v {
        ValueS::Tuple(vs) => forall|i: int| 0 <= i < vs.len() ==> first_order(#[trigger] vs[i]),
        ValueS::Boxed(b) => first_order(*b),
        ValueS::Function(_, _, _) => false,
        ValueS::Thunk(_) => false,
        _ => true,
    }
}

/// A value built of primitives, tuples, boxes and errors equals itself.
pub proof fn lemma_val_eq_refl(a: ValueS)
    requires
        first_order(a),
    ensures
        val_eq_s(a, a),
    decreases a,
{
    match a {
        ValueS::Tuple(vs) => {
            assert forall|i: int| 0 <= i < vs.len() implies val_eq_s(
                #[trigger] vs[i],
                vs[i],
            ) by {
                lemma_val_eq_refl(vs[i]);
            }
        },
        ValueS::Boxed(b) => {
            lemma_val_eq_refl(*b);
        },
        _ => {},
    }
}

/// The first-match index is least: no arm before it matches, and it matches
/// when it is in range.
pub proof fn lemma_first_match_least(arms: Seq<(MatchS, ExprS)>, v: ValueS, i: int)
    requires
        0 <= i <= arms.len(),
    ensures
        i <= first_match_idx(arms, v, i) <= arms.len(),
        forall|j: int| i <= j < first_match_idx(arms, v, i) ==> match_pat_s(
            (#[trigger] arms[j]).0,
            v,
        ) is None,
        first_match_idx(arms, v, i) < arms.len() ==> match_pat_s(
            arms[first_match_idx(arms, v, i)].0,
            v,
        ) is Some,
    decreases arms.len() - i,
{
    if i < arms.len() {
        if match_pat_s(arms[i].0, v) is None {
            lemma_first_match_least(arms, v, i + 1);
        }
    }
}

/// Match arms are tried top to bottom and the first matching arm wins: when
/// no arm before `k` matches the scrutinee and arm `k` does, the match
/// evaluates arm `k`'s body in the environment extended with its bindings.
pub proof fn lemma_match_order(
    st: StateS,
    sx: ExprS,
    arms: Seq<(MatchS, ExprS)>,
    env: Option<int>,
    fuel: nat,
    k: int,
    bs: Seq<(Seq<char>, ValueS)>,
)
    requires
        fuel >= 1,
        0 <= k < arms.len(),
        match_pat_s(arms[k].0, eval_s(st, sx, env, (fuel - 1) as nat).1) == Some(bs),
        forall|j: int| 0 <= j < k ==> match_pat_s(
            (#[trigger] arms[j]).0,
            eval_s(st, sx, env, (fuel - 1) as nat).1,
        ) is None,
    ensures
        ({
            let (s1, v) = eval_s(st, sx, env, (fuel - 1) as nat);
            let (s2, env2) = push_bindings_s(s1, env, bs);
            eval_s(st, ExprS::Match(Box::new(sx), arms), env, fuel) == eval_s(
                s2,
                arms[k].1,
                env2,
                (fuel - 1) as nat,
            )
        }),
{
    let v = eval_s(st, sx, env, (fuel - 1) as nat).1;
    lemma_first_match_skip(arms, v, 0, k);
}

/// If no arm in `[i, k)` matches, the first match from `i` is the first
/// match from `k`; if arm `k` matches, that is `k` itself.
proof fn lemma_first_match_skip(arms: Seq<(MatchS, ExprS)>, v: ValueS, i: int, k: int)
    requires
        0 <= i <= k < arms.len(),
        forall|j: int| i <= j < k ==> match_pat_s((#[trigger] arms[j]).0, v) is None,
        match_pat_s(arms[k].0, v) is Some,
    ensures
        first_match_idx(arms, v, i) == k,
    decreases k - i,
{
    if i < k {
        lemma_first_match_skip(arms, v, i + 1, k);
    }
}

/// When no arm matches the scrutinee, the match yields the no-match error.
pub proof fn lemma_match_no_arm(
    st: StateS,
    sx: ExprS,
    arms: Seq<(MatchS, ExprS)>,
    env: Option<int>,
    fuel: nat,
)
    requires
        fuel >= 1,
        forall|j: int| 0 <= j < arms.len() ==> match_pat_s(
            (#[trigger] arms[j]).0,
            eval_s(st, sx, env, (fuel - 1) as nat).1,
        ) is None,
    ensures
        eval_s(st, ExprS::Match(Box::new(sx), arms), env, fuel) == (
            eval_s(st, sx, env, (fuel - 1) as nat).0,
            ValueS::Error("Value didn't match any patterns"@),
        ),
{
    let v = eval_s(st, sx, env, (fuel - 1) as nat).1;
    lemma_first_match_least(arms, v, 0);
    assert(first_match_idx(arms, v, 0) == arms.len()) by {
        if first_match_idx(arms, v, 0) < arms.len() {
            assert(match_pat_s(arms[first_match_idx(arms, v, 0)].0, v) is Some);
        }
    }
}

/// Lookup returns the innermost binding: a frame pushed for `name` shadows
/// every older binding of `name`.
pub proof fn lemma_lookup_shadowing(frames: Seq<crate::ast::FrameS>, f: crate::ast::FrameS)
    ensures
        lookup_s(frames.push(f), Some(frames.len() as int), f.name) == Some(
            frames.len() as int,
        ),
{
    assert(frames.push(f)[frames.len() as int] == f);
}


/// Forcing a thunk that is already memoized returns the memoized value and
/// changes nothing, whatever the context and fuel.
pub proof fn lemma_forced_returns_memoized(
    st: StateS,
    id: int,
    v0: ValueS,
    ctx: Option<Option<int>>,
    fuel: nat,
)
    requires
        0 <= id < st.thunks.len(),
        st.thunks[id] == crate::ast::ThunkCellS::Forced(v0),
    ensures
        crate::semantics::force_s(st, ValueS::Thunk(id), ctx, fuel) == (st, v0),
{
}

/// What evaluation guarantees of the state it leaves behind: it stays well
/// formed, the arenas only grow, and every thunk that was already memoized
/// keeps its memoized value — a thunk is forced at most once.
pub open spec fn stable_post(pre: StateS, post: StateS) -> bool {
    &&& crate::semantics::wf_state(post)
    &&& post.frames.len() >= pre.frames.len()
    &&& post.thunks.len() >= pre.thunks.len()
    &&& forall|id: int| 0 <= id < pre.thunks.len() && (#[trigger] pre.thunks[id]) is Forced
        ==> post.thunks[id] == pre.thunks[id]
}

/// Stability composes: two evaluation steps in a row preserve every thunk
/// that was memoized before the first.
proof fn lemma_stable_trans(a: StateS, b: StateS, c: StateS)
    requires
        stable_post(a, b),
        stable_post(b, c),
    ensures
        stable_post(a, c),
{
    assert forall|id: int| 0 <= id < a.thunks.len() && (#[trigger] a.thunks[id]) is Forced
        implies c.thunks[id] == a.thunks[id] by {
        assert(b.thunks[id] == a.thunks[id]);
        assert(c.thunks[id] == b.thunks[id]);
    }
}

/// Binding a list of name/value pairs changes no thunk cell and keeps the
/// state well formed.
proof fn lemma_push_bindings_stable(st: StateS, env: Option<int>, bs: Seq<(Seq<char>, ValueS)>)
    requires
        crate::semantics::wf_state(st),
        crate::semantics::wf_env(st.frames.len() as int, env),
        forall|j: int| 0 <= j < bs.len() ==> crate::semantics::wf_value(
            st.frames.len() as int,
            st.thunks.len() as int,
            (#[trigger] bs[j]).1,
        ),
    ensures
        push_bindings_s(st, env, bs).0.thunks == st.thunks,
        push_bindings_s(st, env, bs).0.frames.len() >= st.frames.len(),
        crate::semantics::wf_state(push_bindings_s(st, env, bs).0),
        crate::semantics::wf_env(
            push_bindings_s(st, env, bs).0.frames.len() as int,
            push_bindings_s(st, env, bs).1,
        ),
    decreases bs.len(),
{
    if bs.len() > 0 {
        let f = crate::ast::FrameS { name: bs[0].0, value: bs[0].1, parent: env };
        crate::semantics::lemma_wf_state_push_frame(st, f);
        let st1 = StateS { frames: st.frames.push(f), thunks: st.thunks };
        let rest = bs.subrange(1, bs.len() as int);
        assert forall|j: int| 0 <= j < rest.len() implies crate::semantics::wf_value(
            st1.frames.len() as int,
            st1.thunks.len() as int,
            (#[trigger] rest[j]).1,
        ) by {
            assert(rest[j] == bs[j + 1]);
            crate::semantics::lemma_wf_value_mono(
                st.frames.len() as int,
                st.thunks.len() as int,
                st1.frames.len() as int,
                st1.thunks.len() as int,
                bs[j + 1].1,
            );
        }
        lemma_push_bindings_stable(st1, Some(st.frames.len() as int), rest);
    }
}

/// A name looked up along a well-formed parent chain is a frame index.
proof fn lemma_lookup_in_range(frames: Seq<crate::ast::FrameS>, env: Option<int>, name: Seq<char>)
    requires
        crate::semantics::wf_env(frames.len() as int, env),
    ensures
        match lookup_s(frames, env, name) {
            Some(i) => 0 <= i < frames.len(),
            None => true,
        },
    decreases (match env {
        Some(i) => i + 1,
        None => 0,
    }),
{
    match env {
        Some(i) => {
            if frames[i].name != name {
                match frames[i].parent {
                    Some(p) => {
                        if 0 <= p < i {
                            lemma_lookup_in_range(frames, Some(p), name);
                        }
                    },
                    None => {},
                }
            }
        },
        None => {},
    }
}

/// An operator applied to well-formed operands yields a well-formed value.
proof fn lemma_apply_binop_wf(nf: int, nt: int, op: BinOp, a: ValueS, b: ValueS)
    requires
        crate::semantics::wf_value(nf, nt, a),
        crate::semantics::wf_value(nf, nt, b),
    ensures
        crate::semantics::wf_value(nf, nt, apply_binop_s(op, a, b)),
{
}

/// Delayed memoization: evaluation leaves every already-memoized thunk
/// untouched, so a thunk's expression is evaluated at most once; the state
/// also stays well formed and the arenas only grow.
#[verifier::rlimit(100)]
#[verifier::spinoff_prover]
pub proof fn lemma_eval_stable(st: StateS, e: ExprS, env: Option<int>, fuel: nat)
    requires
        crate::semantics::wf_state(st),
        crate::semantics::wf_expr(st.frames.len() as int, st.thunks.len() as int, e),
        crate::semantics::wf_env(st.frames.len() as int, env),
    ensures
        stable_post(st, eval_s(st, e, env, fuel).0),
        crate::semantics::wf_value(
            eval_s(st, e, env, fuel).0.frames.len() as int,
            eval_s(st, e, env, fuel).0.thunks.len() as int,
            eval_s(st, e, env, fuel).1,
        ),
    decreases fuel, 1int,
{
    let nf = st.frames.len() as int;
    let nt = st.thunks.len() as int;
    if fuel == 0 {
    } else {
        let f = (fuel - 1) as nat;
        match e {
            ExprS::Literal(_) => {},
            ExprS::Fn_(_, _) => {},
            ExprS::Unary(op, a) => {
                lemma_eval_stable(st, *a, env, f);
            },
            ExprS::Binary(a, op, b) => {
                lemma_eval_stable(st, *a, env, f);
                let s1 = eval_s(st, *a, env, f).0;
                crate::semantics::lemma_wf_expr_mono(
                    nf,
                    nt,
                    s1.frames.len() as int,
                    s1.thunks.len() as int,
                    *b,
                );
                lemma_eval_stable(s1, *b, env, f);
                let s2 = eval_s(s1, *b, env, f).0;
                lemma_stable_trans(st, s1, s2);
                crate::semantics::lemma_wf_value_mono(
                    s1.frames.len() as int,
                    s1.thunks.len() as int,
                    s2.frames.len() as int,
                    s2.thunks.len() as int,
                    eval_s(st, *a, env, f).1,
                );
                lemma_apply_binop_wf(
                    s2.frames.len() as int,
                    s2.thunks.len() as int,
                    op,
                    eval_s(st, *a, env, f).1,
                    eval_s(s1, *b, env, f).1,
                );
            },
            ExprS::If(c, t, els) => {
                lemma_eval_stable(st, *c, env, f);
                let s1 = eval_s(st, *c, env, f).0;
                crate::semantics::lemma_wf_expr_mono(
                    nf,
                    nt,
                    s1.frames.len() as int,
                    s1.thunks.len() as int,
                    *t,
                );
                crate::semantics::lemma_wf_expr_mono(
                    nf,
                    nt,
                    s1.frames.len() as int,
                    s1.thunks.len() as int,
                    *els,
                );
                match eval_s(st, *c, env, f).1 {
                    ValueS::Bool(true) => {
                        lemma_eval_stable(s1, *t, env, f);
                        lemma_stable_trans(st, s1, eval_s(s1, *t, env, f).0);
                    },
                    ValueS::Bool(false) => {
                        lemma_eval_stable(s1, *els, env, f);
                        lemma_stable_trans(st, s1, eval_s(s1, *els, env, f).0);
                    },
                    _ => {},
                }
            },
            ExprS::Variable(name) => {
                lemma_lookup_in_range(st.frames, env, name);
                match lookup_s(st.frames, env, name) {
                    Some(i) => {
                        assert(crate::semantics::wf_value(nf, nt, st.frames[i].value));
                        lemma_force_stable(st, st.frames[i].value, Some(env), f);
                    },
                    None => {},
                }
            },
            ExprS::Let(p, vx, body) => {
                lemma_eval_stable(st, *vx, env, f);
                let (s1, vv) = eval_s(st, *vx, env, f);
                match match_pat_s(p, vv) {
                    Some(bs) => {
                        crate::semantics::lemma_match_pat_wf(
                            s1.frames.len() as int,
                            s1.thunks.len() as int,
                            p,
                            vv,
                            bs,
                        );
                        lemma_push_bindings_stable(s1, env, bs);
                        let (s2, env2) = push_bindings_s(s1, env, bs);
                        assert(stable_post(s1, s2));
                        lemma_stable_trans(st, s1, s2);
                        crate::semantics::lemma_wf_expr_mono(
                            nf,
                            nt,
                            s2.frames.len() as int,
                            s2.thunks.len() as int,
                            *body,
                        );
                        lemma_eval_stable(s2, *body, env2, f);
                        lemma_stable_trans(st, s2, eval_s(s2, *body, env2, f).0);
                    },
                    None => {},
                }
            },
            ExprS::FnApp(fe, ae) => {
                lemma_eval_stable(st, *fe, env, f);
                let (s1, vf) = eval_s(st, *fe, env, f);
                match vf {
                    ValueS::Function(p, fbody, fenv) => {
                        crate::semantics::lemma_wf_expr_mono(
                            nf,
                            nt,
                            s1.frames.len() as int,
                            s1.thunks.len() as int,
                            *ae,
                        );
                        lemma_eval_stable(s1, *ae, env, f);
                        let (s2, va) = eval_s(s1, *ae, env, f);
                        lemma_stable_trans(st, s1, s2);
                        match match_pat_s(p, va) {
                            Some(bs) => {
                                crate::semantics::lemma_match_pat_wf(
                                    s2.frames.len() as int,
                                    s2.thunks.len() as int,
                                    p,
                                    va,
                                    bs,
                                );
                                lemma_push_bindings_stable(s2, fenv, bs);
                                let (s3, env3) = push_bindings_s(s2, fenv, bs);
                                assert(stable_post(s2, s3));
                                lemma_stable_trans(st, s2, s3);
                                crate::semantics::lemma_wf_expr_mono(
                                    s1.frames.len() as int,
                                    s1.thunks.len() as int,
                                    s3.frames.len() as int,
                                    s3.thunks.len() as int,
                                    *fbody,
                                );
                                lemma_eval_stable(s3, *fbody, env3, f);
                                lemma_stable_trans(st, s3, eval_s(s3, *fbody, env3, f).0);
                            },
                            None => {},
                        }
                    },
                    ValueS::Int(idx) => {
                        if idx >= 0 {
                            crate::semantics::lemma_wf_expr_mono(
                                nf,
                                nt,
                                s1.frames.len() as int,
                                s1.thunks.len() as int,
                                *ae,
                            );
                            lemma_eval_stable(s1, *ae, env, f);
                            lemma_stable_trans(st, s1, eval_s(s1, *ae, env, f).0);
                        }
                    },
                    _ => {},
                }
            },
            ExprS::Match(sx, arms) => {
                lemma_eval_stable(st, *sx, env, f);
                let (s1, v) = eval_s(st, *sx, env, f);
                let k = crate::semantics::first_match_idx(arms, v, 0);
                lemma_first_match_least(arms, v, 0);
                if k < arms.len() {
                    match match_pat_s(arms[k].0, v) {
                        Some(bs) => {
                            crate::semantics::lemma_match_pat_wf(
                                s1.frames.len() as int,
                                s1.thunks.len() as int,
                                arms[k].0,
                                v,
                                bs,
                            );
                            lemma_push_bindings_stable(s1, env, bs);
                            let (s2, env2) = push_bindings_s(s1, env, bs);
                            assert(stable_post(s1, s2));
                            lemma_stable_trans(st, s1, s2);
                            crate::semantics::lemma_wf_match_arm(
                                nf,
                                nt,
                                ExprS::Match(Box::new(*sx), arms),
                                k,
                            );
                            crate::semantics::lemma_wf_expr_mono(
                                nf,
                                nt,
                                s2.frames.len() as int,
                                s2.thunks.len() as int,
                                arms[k].1,
                            );
                            lemma_eval_stable(s2, arms[k].1, env2, f);
                            lemma_stable_trans(st, s2, eval_s(s2, arms[k].1, env2, f).0);
                        },
                        None => {},
                    }
                }
            },
            ExprS::Delayed(p, vx, body) => {
                match p {
                    MatchS::Ident(name) => {
                        let site = st.frames.len() as int;
                        let tid = st.thunks.len() as int;
                        let f0 = crate::ast::FrameS {
                            name: name,
                            value: ValueS::Error("Value not yet initialized"@),
                            parent: env,
                        };
                        crate::semantics::lemma_wf_state_push_frame(st, f0);
                        let sta = StateS { frames: st.frames.push(f0), thunks: st.thunks };
                        crate::semantics::lemma_wf_expr_mono(
                            nf,
                            nt,
                            sta.frames.len() as int,
                            sta.thunks.len() as int,
                            *vx,
                        );
                        crate::semantics::lemma_wf_state_push_thunk(
                            sta,
                            crate::ast::ThunkCellS::Unevaluated(*vx, site, env),
                        );
                        let st1 = StateS {
                            frames: st.frames.push(f0),
                            thunks: st.thunks.push(
                                crate::ast::ThunkCellS::Unevaluated(*vx, site, env),
                            ),
                        };
                        crate::semantics::lemma_wf_state_set_value(
                            st1,
                            site,
                            ValueS::Thunk(tid),
                        );
                        let st2 = StateS {
                            frames: st1.frames.update(
                                site,
                                crate::ast::FrameS {
                                    name: name,
                                    value: ValueS::Thunk(tid),
                                    parent: env,
                                },
                            ),
                            thunks: st1.thunks,
                        };
                        assert(st2.frames =~= st1.frames.update(
                            site,
                            crate::ast::FrameS {
                                name: st1.frames[site].name,
                                value: ValueS::Thunk(tid),
                                parent: st1.frames[site].parent,
                            },
                        ));
                        assert forall|id0: int| 0 <= id0 < st.thunks.len() && (
                        #[trigger] st.thunks[id0]) is Forced implies st2.thunks[id0]
                            == st.thunks[id0] by {
                            assert(st2.thunks[id0] == st.thunks.push(
                                crate::ast::ThunkCellS::Unevaluated(*vx, site, env),
                            )[id0]);
                        }
                        assert(stable_post(st, st2));
                        crate::semantics::lemma_wf_expr_mono(
                            nf,
                            nt,
                            st2.frames.len() as int,
                            st2.thunks.len() as int,
                            *body,
                        );
                        lemma_eval_stable(st2, *body, Some(site), f);
                        lemma_stable_trans(st, st2, eval_s(st2, *body, Some(site), f).0);
                    },
                    _ => {},
                }
            },
            ExprS::Boxed(ex) => {
                lemma_eval_stable(st, *ex, env, f);
            },
        }
    }
}

/// Forcing counterpart of `lemma_eval_stable`.
#[verifier::rlimit(100)]
#[verifier::spinoff_prover]
pub proof fn lemma_force_stable(st: StateS, v: ValueS, ctx: Option<Option<int>>, fuel: nat)
    requires
        crate::semantics::wf_state(st),
        crate::semantics::wf_value(st.frames.len() as int, st.thunks.len() as int, v),
        match ctx {
            Some(c) => crate::semantics::wf_env(st.frames.len() as int, c),
            None => true,
        },
    ensures
        stable_post(st, crate::semantics::force_s(st, v, ctx, fuel).0),
        crate::semantics::wf_value(
            crate::semantics::force_s(st, v, ctx, fuel).0.frames.len() as int,
            crate::semantics::force_s(st, v, ctx, fuel).0.thunks.len() as int,
            crate::semantics::force_s(st, v, ctx, fuel).1,
        ),
    decreases fuel, 0int,
{
    let nf = st.frames.len() as int;
    let nt = st.thunks.len() as int;
    match v {
        ValueS::Thunk(id) => {
            match st.thunks[id] {
                crate::ast::ThunkCellS::Unevaluated(tx, site, captured) => {
                    if fuel > 0 {
                        let eenv = match ctx {
                            Some(c) => c,
                            None => captured,
                        };
                        crate::semantics::lemma_wf_state_set_thunk(
                            st,
                            id,
                            crate::ast::ThunkCellS::Evaluating,
                        );
                        let st1 = StateS {
                            frames: st.frames,
                            thunks: st.thunks.update(id, crate::ast::ThunkCellS::Evaluating),
                        };
                        lemma_eval_stable(st1, tx, eenv, (fuel - 1) as nat);
                        let (s2, r) = eval_s(st1, tx, eenv, (fuel - 1) as nat);
                        crate::semantics::lemma_wf_state_set_value(s2, site, r);
                        let s2b = StateS {
                            frames: s2.frames.update(
                                site,
                                crate::ast::FrameS {
                                    name: s2.frames[site].name,
                                    value: r,
                                    parent: s2.frames[site].parent,
                                },
                            ),
                            thunks: s2.thunks,
                        };
                        crate::semantics::lemma_wf_state_set_thunk(
                            s2b,
                            id,
                            crate::ast::ThunkCellS::Forced(r),
                        );
                        let s3 = StateS {
                            frames: s2b.frames,
                            thunks: s2b.thunks.update(id, crate::ast::ThunkCellS::Forced(r)),
                        };
                        assert forall|id0: int| 0 <= id0 < st.thunks.len() && (
                        #[trigger] st.thunks[id0]) is Forced implies s3.thunks[id0]
                            == st.thunks[id0] by {
                            assert(id0 != id);
                            assert(st1.thunks[id0] == st.thunks[id0]);
                            assert(s2.thunks[id0] == st1.thunks[id0]);
                            assert(s3.thunks[id0] == s2.thunks[id0]);
                        }
                        assert(stable_post(st, s3));
                    }
                },
                _ => {},
            }
        },
        _ => {},
    }
}

} // verus!
