//! The executable interpreter: the arena of environment frames and thunk
//! cells, the pattern matcher, the evaluator and the declaration binder.
//! Every function returns exactly what the corresponding specification
//! function in `semantics` says, final state included.
use vstd::prelude::*;

use crate::ast::{
    arms_view, env_view, matches_view, values_view, Decl, Expr, Frame, FrameS, Match, Prog, ThunkCell,
    ThunkCellS, Value, ValueS,
};
use crate::ops::error;
use crate::semantics::{
    lookup_s, match_pat_s, match_tuple_s, push_bindings_s, wf_env, wf_state, wf_value, StateS,
};
use vstd::pervasive::VecAdditionalExecFns;

verus! {

broadcast use vstd::seq::group_seq_axioms, vstd::std_specs::vec::group_vec_axioms,
    crate::ast::lemma_values_view, crate::ast::lemma_matches_view, crate::ast::lemma_arms_view;

/// The interpreter: the arena of environment frames and the arena of thunk
/// cells. Environments, closures and thunks refer into the arenas by index.
pub struct Interp {
    pub frames: Vec<Frame>,
    pub thunks: Vec<ThunkCell>,
}

impl View for Interp {
    type V = StateS;

    open spec fn view(&self) -> StateS {
        StateS {
            frames: Seq::new(self.frames@.len(), |i: int| self.frames@[i]@),
            thunks: Seq::new(self.thunks@.len(), |i: int| self.thunks@[i]@),
        }
    }
}

impl Interp {
    /// A fresh interpreter with empty arenas.
    pub fn new() -> (r: Interp)
        ensures
            r@ == (StateS { frames: Seq::<FrameS>::empty(), thunks: Seq::<ThunkCellS>::empty() }),
            wf_state(r@),
    {
        let r = Interp { frames: Vec::new(), thunks: Vec::new() };
        proof {
            assert(r@.frames =~= Seq::<FrameS>::empty());
            assert(r@.thunks =~= Seq::<ThunkCellS>::empty());
        }
        r
    }
}

/// Append one frame to the arena and return its index.
fn push_frame(st: &mut Interp, name: String, value: Value, parent: Option<usize>) -> (idx: usize)
    ensures
        final(st)@.frames == old(st)@.frames.push(
            FrameS { name: name@, value: value@, parent: env_view(parent) },
        ),
        final(st)@.thunks == old(st)@.thunks,
        idx == old(st)@.frames.len(),
{
    let idx = st.frames.len();
    let ghost fs = FrameS { name: name@, value: value@, parent: env_view(parent) };
    st.frames.push(Frame { name, value, parent });
    proof {
        assert(st@.frames =~= old(st)@.frames.push(fs));
        assert(st@.thunks =~= old(st)@.thunks);
    }
    idx
}

/// Overwrite the value stored in an existing frame.
fn set_frame_value(st: &mut Interp, i: usize, value: Value)
    requires
        i < old(st)@.frames.len(),
    ensures
        final(st)@.frames == old(st)@.frames.update(
            i as int,
            FrameS {
                name: old(st)@.frames[i as int].name,
                value: value@,
                parent: old(st)@.frames[i as int].parent,
            },
        ),
        final(st)@.thunks == old(st)@.thunks,
{
    let name = st.frames[i].name.clone();
    let parent = st.frames[i].parent;
    let ghost fs = FrameS {
        name: old(st)@.frames[i as int].name,
        value: value@,
        parent: old(st)@.frames[i as int].parent,
    };
    st.frames.set(i, Frame { name, value, parent });
    proof {
        assert(st@.frames =~= old(st)@.frames.update(i as int, fs));
        assert(st@.thunks =~= old(st)@.thunks);
    }
}

/// Append one thunk cell to the arena and return its index.
fn push_thunk(st: &mut Interp, cell: ThunkCell) -> (tid: usize)
    ensures
        final(st)@.thunks == old(st)@.thunks.push(cell@),
        final(st)@.frames == old(st)@.frames,
        tid == old(st)@.thunks.len(),
{
    let tid = st.thunks.len();
    let ghost cs = cell@;
    st.thunks.push(cell);
    proof {
        assert(st@.thunks =~= old(st)@.thunks.push(cs));
        assert(st@.frames =~= old(st)@.frames);
    }
    tid
}

/// Overwrite an existing thunk cell.
fn set_thunk(st: &mut Interp, id: usize, cell: ThunkCell)
    requires
        id < old(st)@.thunks.len(),
    ensures
        final(st)@.thunks == old(st)@.thunks.update(id as int, cell@),
        final(st)@.frames == old(st)@.frames,
{
    let ghost cs = cell@;
    st.thunks.set(id, cell);
    proof {
        assert(st@.thunks =~= old(st)@.thunks.update(id as int, cs));
        assert(st@.frames =~= old(st)@.frames);
    }
}

/// Replace an existing thunk cell with the `Evaluating` sentinel and hand the
/// previous cell out.
fn take_thunk(st: &mut Interp, id: usize) -> (cell: ThunkCell)
    requires
        id < old(st)@.thunks.len(),
    ensures
        cell@ == old(st)@.thunks[id as int],
        final(st)@.thunks == old(st)@.thunks.update(id as int, ThunkCellS::Evaluating),
        final(st)@.frames == old(st)@.frames,
{
    let mut cell = ThunkCell::Evaluating;
    st.thunks.set_and_swap(id, &mut cell);
    proof {
        assert(st@.thunks =~= old(st)@.thunks.update(id as int, ThunkCellS::Evaluating));
        assert(st@.frames =~= old(st)@.frames);
    }
    cell
}

/// Walk the parent chain and return the index of the innermost frame bound
/// to `name`, if any.
fn lookup(st: &Interp, env: Option<usize>, name: &String) -> (r: Option<usize>)
    requires
        wf_state(st@),
        wf_env(st@.frames.len() as int, env_view(env)),
    ensures
        env_view(r) == lookup_s(st@.frames, env_view(env), name@),
        match r {
            Some(i) => i < st@.frames.len(),
            None => true,
        },
    decreases (match env {
        Some(i) => i as int + 1,
        None => 0int,
    }),
{
    match env {
        None => None,
        Some(i) => {
            if st.frames[i].name.eq(name) {
                Some(i)
            } else {
                let parent = st.frames[i].parent;
                lookup(st, parent, name)
            }
        },
    }
}

/// Model of a binding list produced by the pattern matcher.
pub open spec fn binds_view(s: Seq<(String, Value)>) -> Seq<(Seq<char>, ValueS)> {
    Seq::new(s.len(), |i: int| (s[i].0@, s[i].1@))
}

/// Match a pattern against a value: the ordered bindings it produces, or
/// `None` when the pattern does not match.
#[verifier::loop_isolation(false)]
pub fn match_pat(p: &Match, v: &Value) -> (r: Option<Vec<(String, Value)>>)
    ensures
        match r {
            Some(bs) => match_pat_s(p@, v@) == Some(binds_view(bs@)),
            None => match_pat_s(p@, v@) is None,
        },
    decreases *p,
{
    match p {
        Match::Ident(n) => {
            let mut bs: Vec<(String, Value)> = Vec::new();
            bs.push((n.clone(), v.dup()));
            proof {
                assert(binds_view(bs@) =~= seq![(n@, v@)]);
            }
            Some(bs)
        },
        Match::Wildcard => {
            let bs: Vec<(String, Value)> = Vec::new();
            proof {
                assert(binds_view(bs@) =~= Seq::<(Seq<char>, ValueS)>::empty());
            }
            Some(bs)
        },
        Match::Value(expected) => {
            if crate::ops::val_eq(&**expected, v) {
                let bs: Vec<(String, Value)> = Vec::new();
                proof {
                    assert(binds_view(bs@) =~= Seq::<(Seq<char>, ValueS)>::empty());
                }
                Some(bs)
            } else {
                None
            }
        },
        Match::Tuple(ps) => match v {
            Value::Tuple(vs) => {
                let ghost psv = matches_view(ps@);
                let ghost vsv = values_view(vs@);
                proof {
                    crate::ast::lemma_matches_view(ps@);
                    crate::ast::lemma_values_view(vs@);
                }
                if ps.len() != vs.len() {
                    return None;
                }
                let mut acc: Vec<(String, Value)> = Vec::new();
                let mut i: usize = 0;
                while i < ps.len()
                    invariant
                        i <= ps.len(),
                        match_tuple_s(psv, vsv, 0) == (match match_tuple_s(psv, vsv, i as int) {
                            Some(rest) => Some(binds_view(acc@) + rest),
                            None => None::<Seq<(Seq<char>, ValueS)>>,
                        }),
                    decreases ps.len() - i,
                {
                    match match_pat(&ps[i], &vs[i]) {
                        Some(bsi) => {
                            let ghost acc0 = acc@;
                            let ghost bs0 = bsi@;
                            let mut bsi = bsi;
                            acc.append(&mut bsi);
                            proof {
                                assert(psv[i as int] == crate::ast::match_view(ps@[i as int]));
                                assert(vsv[i as int] == crate::ast::value_view(vs@[i as int]));
                                assert(binds_view(acc@) =~= binds_view(acc0) + binds_view(bs0));
                                match match_tuple_s(psv, vsv, i + 1) {
                                    Some(rest) => {
                                        assert(binds_view(acc0) + binds_view(bs0) + rest
                                            =~= binds_view(acc0) + (binds_view(bs0) + rest));
                                    },
                                    None => {},
                                }
                            }
                            i = i + 1;
                        },
                        None => {
                            proof {
                                assert(psv[i as int] == crate::ast::match_view(ps@[i as int]));
                                assert(vsv[i as int] == crate::ast::value_view(vs@[i as int]));
                            }
                            return None;
                        },
                    }
                }
                proof {
                    assert(match_tuple_s(psv, vsv, i as int) == Some(
                        Seq::<(Seq<char>, ValueS)>::empty(),
                    ));
                    assert(binds_view(acc@) + Seq::<(Seq<char>, ValueS)>::empty() =~= binds_view(
                        acc@,
                    ));
                }
                Some(acc)
            },
            _ => None,
        },
    }
}

/// Find the first arm whose pattern matches the scrutinee, together with the
/// bindings that match produces.
#[verifier::loop_isolation(false)]
fn find_arm(v: &Value, arms: &Vec<(Match, Expr)>) -> (r: Option<(usize, Vec<(String, Value)>)>)
    ensures
        match r {
            Some(pair) => pair.0 < arms@.len() && pair.0 as int == crate::semantics::first_match_idx(
                arms_view(arms@),
                v@,
                0,
            ) && match_pat_s(arms_view(arms@)[pair.0 as int].0, v@) == Some(binds_view(pair.1@)),
            None => crate::semantics::first_match_idx(arms_view(arms@), v@, 0) == arms@.len(),
        },
{
    let ghost armsv = arms_view(arms@);
    let mut i: usize = 0;
    while i < arms.len()
        invariant
            i <= arms.len(),
            crate::semantics::first_match_idx(armsv, v@, 0) == crate::semantics::first_match_idx(
                armsv,
                v@,
                i as int,
            ),
        decreases arms.len() - i,
    {
        proof {
            assert(armsv[i as int] == (
                crate::ast::match_view(arms@[i as int].0),
                crate::ast::expr_view(arms@[i as int].1),
            ));
        }
        match match_pat(&arms[i].0, v) {
            Some(bs) => {
                return Some((i, bs));
            },
            None => {},
        }
        i = i + 1;
    }
    None
}

/// Push one frame per binding on top of `env`, left to right, and return the
/// resulting environment.
#[verifier::loop_isolation(false)]
fn push_bindings(st: &mut Interp, env: Option<usize>, bs: &Vec<(String, Value)>) -> (r: Option<
    usize,
>)
    requires
        wf_state(old(st)@),
        wf_env(old(st)@.frames.len() as int, env_view(env)),
        forall|j: int| 0 <= j < bs@.len() ==> wf_value(
            old(st)@.frames.len() as int,
            old(st)@.thunks.len() as int,
            (#[trigger] bs@[j]).1@,
        ),
    ensures
        final(st)@ == push_bindings_s(old(st)@, env_view(env), binds_view(bs@)).0,
        env_view(r) == push_bindings_s(old(st)@, env_view(env), binds_view(bs@)).1,
        wf_state(final(st)@),
        wf_env(final(st)@.frames.len() as int, env_view(r)),
        final(st)@.thunks == old(st)@.thunks,
        final(st)@.frames.len() >= old(st)@.frames.len(),
{
    let ghost bsv = binds_view(bs@);
    proof {
        assert(bsv.subrange(0, bsv.len() as int) =~= bsv);
    }
    let mut cur: Option<usize> = env;
    let mut i: usize = 0;
    while i < bs.len()
        invariant
            i <= bs.len(),
            push_bindings_s(old(st)@, env_view(env), bsv) == push_bindings_s(
                st@,
                env_view(cur),
                bsv.subrange(i as int, bsv.len() as int),
            ),
            wf_state(st@),
            wf_env(st@.frames.len() as int, env_view(cur)),
            st@.thunks == old(st)@.thunks,
            st@.frames.len() >= old(st)@.frames.len(),
        decreases bs.len() - i,
    {
        let name = bs[i].0.clone();
        let value = bs[i].1.dup();
        let ghost pre = st@;
        proof {
            crate::semantics::lemma_wf_value_mono(
                old(st)@.frames.len() as int,
                old(st)@.thunks.len() as int,
                st@.frames.len() as int,
                st@.thunks.len() as int,
                bs@[i as int].1@,
            );
            crate::semantics::lemma_wf_state_push_frame(
                st@,
                FrameS { name: name@, value: value@, parent: env_view(cur) },
            );
        }
        let idx = push_frame(st, name, value, cur);
        proof {
            assert(bsv.subrange(i as int, bsv.len() as int)[0] == bsv[i as int]);
            assert(bsv.subrange(i as int, bsv.len() as int).subrange(
                1,
                bsv.subrange(i as int, bsv.len() as int).len() as int,
            ) =~= bsv.subrange(i + 1, bsv.len() as int));
        }
        cur = Some(idx);
        i = i + 1;
    }
    proof {
        assert(bsv.subrange(i as int, bsv.len() as int) =~= Seq::<(Seq<char>, ValueS)>::empty());
    }
    cur
}

/// Model of an optional forcing context.
pub open spec fn ctx_view(c: Option<Option<usize>>) -> Option<Option<int>> {
    match c {
        Some(e) => Some(env_view(e)),
        None => None,
    }
}

/// Force a value: evaluate a thunk once and memoize the result, return
/// anything else unchanged. The context is the environment of the use site;
/// a thunk's expression is evaluated there (and in its captured environment
/// when no context is given).
pub fn eval_value(st: &mut Interp, v: Value, ctx: Option<Option<usize>>, fuel: u64) -> (r: Value)
    requires
        wf_state(old(st)@),
        wf_value(old(st)@.frames.len() as int, old(st)@.thunks.len() as int, v@),
        match ctx {
            Some(c) => wf_env(old(st)@.frames.len() as int, env_view(c)),
            None => true,
        },
    ensures
        final(st)@ == crate::semantics::force_s(old(st)@, v@, ctx_view(ctx), fuel as nat).0,
        r@ == crate::semantics::force_s(old(st)@, v@, ctx_view(ctx), fuel as nat).1,
        wf_state(final(st)@),
        wf_value(final(st)@.frames.len() as int, final(st)@.thunks.len() as int, r@),
        final(st)@.frames.len() >= old(st)@.frames.len(),
        final(st)@.thunks.len() >= old(st)@.thunks.len(),
    decreases fuel, 0int,
{
    match v {
        Value::Thunk(id) => {
            match &st.thunks[id] {
                ThunkCell::Forced(u) => {
                    return u.dup();
                },
                ThunkCell::Evaluating => {
                    return error("cyclic use of delayed value");
                },
                ThunkCell::Unevaluated(_, _, _) => {},
            }
            if fuel == 0 {
                return error("evaluation budget exhausted");
            }
            let cell = take_thunk(st, id);
            match cell {
                ThunkCell::Unevaluated(texpr, site, captured) => {
                    let eenv = match ctx {
                        Some(c) => c,
                        None => captured,
                    };
                    proof {
                        crate::semantics::lemma_wf_state_set_thunk(
                            old(st)@,
                            id as int,
                            ThunkCellS::Evaluating,
                        );
                    }
                    let r = eval_expr_fuel(st, &texpr, eenv, fuel - 1);
                    proof {
                        crate::semantics::lemma_wf_state_set_value(st@, site as int, r@);
                    }
                    set_frame_value(st, site, r.dup());
                    proof {
                        crate::semantics::lemma_wf_state_set_thunk(
                            st@,
                            id as int,
                            ThunkCellS::Forced(r@),
                        );
                    }
                    set_thunk(st, id, ThunkCell::Forced(r.dup()));
                    r
                },
                _ => {
                    proof {
                        assert(false);
                    }
                    vstd::pervasive::unreached()
                },
            }
        },
        _ => v,
    }
}

/// The contract every evaluation function meets: the state and result are
/// exactly what `eval_s` says of the given expression, the state stays well
/// formed and only grows, and the result is well formed in it.
pub open spec fn eval_post(
    pre: StateS,
    post: StateS,
    e: crate::ast::ExprS,
    env: Option<int>,
    fuel: nat,
    r: ValueS,
) -> bool {
    &&& post == crate::semantics::eval_s(pre, e, env, fuel).0
    &&& r == crate::semantics::eval_s(pre, e, env, fuel).1
    &&& wf_state(post)
    &&& wf_value(post.frames.len() as int, post.thunks.len() as int, r)
    &&& post.frames.len() >= pre.frames.len()
    &&& post.thunks.len() >= pre.thunks.len()
}

/// Evaluate a `Let`: bind the pattern against the evaluated value, then
/// evaluate the body in the extended environment.
fn eval_let_expr(st: &mut Interp, p: &Match, vx: &Expr, body: &Expr, env: Option<usize>, fuel: u64)
    -> (r: Value)
    requires
        wf_state(old(st)@),
        crate::semantics::wf_expr(
            old(st)@.frames.len() as int,
            old(st)@.thunks.len() as int,
            crate::ast::ExprS::Let(p@, Box::new(vx@), Box::new(body@)),
        ),
        wf_env(old(st)@.frames.len() as int, env_view(env)),
        fuel >= 1,
    ensures
        eval_post(
            old(st)@,
            final(st)@,
            crate::ast::ExprS::Let(p@, Box::new(vx@), Box::new(body@)),
            env_view(env),
            fuel as nat,
            r@,
        ),
    decreases fuel, 0int,
{
    let ghost nf0 = old(st)@.frames.len() as int;
    let ghost nt0 = old(st)@.thunks.len() as int;
    let vv = eval_expr_fuel(st, vx, env, fuel - 1);
    match match_pat(p, &vv) {
        Some(bs) => {
            proof {
                crate::semantics::lemma_match_pat_wf(
                    st@.frames.len() as int,
                    st@.thunks.len() as int,
                    p@,
                    vv@,
                    binds_view(bs@),
                );
                assert forall|j: int| 0 <= j < bs@.len() implies wf_value(
                    st@.frames.len() as int,
                    st@.thunks.len() as int,
                    (#[trigger] bs@[j]).1@,
                ) by {
                    assert(binds_view(bs@)[j].1 == bs@[j].1@);
                }
            }
            let env2 = push_bindings(st, env, &bs);
            proof {
                crate::semantics::lemma_wf_expr_mono(
                    nf0,
                    nt0,
                    st@.frames.len() as int,
                    st@.thunks.len() as int,
                    body@,
                );
            }
            eval_expr_fuel(st, body, env2, fuel - 1)
        },
        None => error("Value didn't match the pattern"),
    }
}

/// Evaluate an application: apply a closure, index a tuple by an integer, or
/// produce the appropriate error.
#[verifier::rlimit(100)]
fn eval_fnapp_expr(st: &mut Interp, fe: &Expr, ae: &Expr, env: Option<usize>, fuel: u64) -> (r:
    Value)
    requires
        wf_state(old(st)@),
        crate::semantics::wf_expr(
            old(st)@.frames.len() as int,
            old(st)@.thunks.len() as int,
            crate::ast::ExprS::FnApp(Box::new(fe@), Box::new(ae@)),
        ),
        wf_env(old(st)@.frames.len() as int, env_view(env)),
        fuel >= 1,
    ensures
        eval_post(
            old(st)@,
            final(st)@,
            crate::ast::ExprS::FnApp(Box::new(fe@), Box::new(ae@)),
            env_view(env),
            fuel as nat,
            r@,
        ),
    decreases fuel, 0int,
{
    let ghost nf0 = old(st)@.frames.len() as int;
    let ghost nt0 = old(st)@.thunks.len() as int;
    let vf = eval_expr_fuel(st, fe, env, fuel - 1);
    match vf {
        Value::Function(p, fbody, fenv) => {
            let ghost nf1 = st@.frames.len() as int;
            let ghost nt1 = st@.thunks.len() as int;
            proof {
                crate::semantics::lemma_wf_expr_mono(nf0, nt0, nf1, nt1, ae@);
            }
            let va = eval_expr_fuel(st, ae, env, fuel - 1);
            match match_pat(&p, &va) {
                Some(bs) => {
                    proof {
                        crate::semantics::lemma_match_pat_wf(
                            st@.frames.len() as int,
                            st@.thunks.len() as int,
                            p@,
                            va@,
                            binds_view(bs@),
                        );
                        assert forall|j: int| 0 <= j < bs@.len() implies wf_value(
                            st@.frames.len() as int,
                            st@.thunks.len() as int,
                            (#[trigger] bs@[j]).1@,
                        ) by {
                            assert(binds_view(bs@)[j].1 == bs@[j].1@);
                        }
                    }
                    let env3 = push_bindings(st, fenv, &bs);
                    proof {
                        crate::semantics::lemma_wf_expr_mono(
                            nf1,
                            nt1,
                            st@.frames.len() as int,
                            st@.thunks.len() as int,
                            (*fbody)@,
                        );
                    }
                    eval_expr_fuel(st, &*fbody, env3, fuel - 1)
                },
                None => error("Value didn't match the pattern"),
            }
        },
        Value::Int(idx) => {
            if idx < 0 {
                error("Cannot have a negative index of a tuple")
            } else {
                proof {
                    crate::semantics::lemma_wf_expr_mono(
                        nf0,
                        nt0,
                        st@.frames.len() as int,
                        st@.thunks.len() as int,
                        ae@,
                    );
                }
                let va = eval_expr_fuel(st, ae, env, fuel - 1);
                match va {
                    Value::Tuple(xs) => {
                        proof {
                            crate::ast::lemma_values_view(xs@);
                        }
                        if (idx as u64) < (xs.len() as u64) {
                            let k = idx as usize;
                            xs[k].dup()
                        } else {
                            error("Tuple index out of range")
                        }
                    },
                    Value::Error(_) => va,
                    _ => crate::ops::error3("Can't index type '", va.type_(), "'"),
                }
            }
        },
        Value::Error(_) => vf,
        _ => crate::ops::error3("Can't apply argument to type '", vf.type_(), "'"),
    }
}

/// Evaluate a `Match`: try the arms top to bottom and evaluate the body of
/// the first arm whose pattern matches the scrutinee.
fn eval_match_expr(
    st: &mut Interp,
    sx: &Expr,
    arms: &Vec<(Match, Expr)>,
    env: Option<usize>,
    fuel: u64,
) -> (r: Value)
    requires
        wf_state(old(st)@),
        crate::semantics::wf_expr(
            old(st)@.frames.len() as int,
            old(st)@.thunks.len() as int,
            crate::ast::ExprS::Match(Box::new(sx@), arms_view(arms@)),
        ),
        wf_env(old(st)@.frames.len() as int, env_view(env)),
        fuel >= 1,
    ensures
        eval_post(
            old(st)@,
            final(st)@,
            crate::ast::ExprS::Match(Box::new(sx@), arms_view(arms@)),
            env_view(env),
            fuel as nat,
            r@,
        ),
    decreases fuel, 0int,
{
    let ghost nf0 = old(st)@.frames.len() as int;
    let ghost nt0 = old(st)@.thunks.len() as int;
    let vs = eval_expr_fuel(st, sx, env, fuel - 1);
    match find_arm(&vs, arms) {
        Some((k, bs)) => {
            proof {
                crate::semantics::lemma_match_pat_wf(
                    st@.frames.len() as int,
                    st@.thunks.len() as int,
                    arms_view(arms@)[k as int].0,
                    vs@,
                    binds_view(bs@),
                );
                assert forall|j: int| 0 <= j < bs@.len() implies wf_value(
                    st@.frames.len() as int,
                    st@.thunks.len() as int,
                    (#[trigger] bs@[j]).1@,
                ) by {
                    assert(binds_view(bs@)[j].1 == bs@[j].1@);
                }
            }
            let env2 = push_bindings(st, env, &bs);
            proof {
                crate::ast::lemma_arms_view(arms@);
                crate::semantics::lemma_wf_match_arm(
                    nf0,
                    nt0,
                    crate::ast::ExprS::Match(Box::new(sx@), arms_view(arms@)),
                    k as int,
                );
                assert(arms_view(arms@)[k as int].1 == arms@[k as int].1@);
                crate::semantics::lemma_wf_expr_mono(
                    nf0,
                    nt0,
                    st@.frames.len() as int,
                    st@.thunks.len() as int,
                    arms@[k as int].1@,
                );
            }
            eval_expr_fuel(st, &arms[k].1, env2, fuel - 1)
        },
        None => error("Value didn't match any patterns"),
    }
}

/// Evaluate a `Delayed`: install a fresh memoizing thunk under the bound
/// name and evaluate the body; the thunk's expression is only evaluated when
/// the name is first used.
fn eval_delayed_expr(
    st: &mut Interp,
    p: &Match,
    vx: &Expr,
    body: &Expr,
    env: Option<usize>,
    fuel: u64,
) -> (r: Value)
    requires
        wf_state(old(st)@),
        crate::semantics::wf_expr(
            old(st)@.frames.len() as int,
            old(st)@.thunks.len() as int,
            crate::ast::ExprS::Delayed(p@, Box::new(vx@), Box::new(body@)),
        ),
        wf_env(old(st)@.frames.len() as int, env_view(env)),
        fuel >= 1,
    ensures
        eval_post(
            old(st)@,
            final(st)@,
            crate::ast::ExprS::Delayed(p@, Box::new(vx@), Box::new(body@)),
            env_view(env),
            fuel as nat,
            r@,
        ),
    decreases fuel, 0int,
{
    let ghost nf0 = old(st)@.frames.len() as int;
    let ghost nt0 = old(st)@.thunks.len() as int;
    match p {
        Match::Ident(name) => {
            let placeholder = error("Value not yet initialized");
            proof {
                crate::semantics::lemma_wf_state_push_frame(
                    st@,
                    FrameS { name: name@, value: placeholder@, parent: env_view(env) },
                );
            }
            let site = push_frame(st, name.clone(), placeholder, env);
            proof {
                crate::semantics::lemma_wf_expr_mono(
                    nf0,
                    nt0,
                    st@.frames.len() as int,
                    st@.thunks.len() as int,
                    vx@,
                );
                crate::semantics::lemma_wf_state_push_thunk(
                    st@,
                    ThunkCellS::Unevaluated(vx@, site as int, env_view(env)),
                );
            }
            let tid = push_thunk(st, ThunkCell::Unevaluated(vx.dup(), site, env));
            proof {
                crate::semantics::lemma_wf_state_set_value(
                    st@,
                    site as int,
                    ValueS::Thunk(tid as int),
                );
            }
            set_frame_value(st, site, Value::Thunk(tid));
            proof {
                crate::semantics::lemma_wf_expr_mono(
                    nf0,
                    nt0,
                    st@.frames.len() as int,
                    st@.thunks.len() as int,
                    body@,
                );
            }
            eval_expr_fuel(st, body, Some(site), fuel - 1)
        },
        _ => error("Delayed binding requires an identifier pattern"),
    }
}

/// Evaluate an expression in an environment, with a fuel bound on nested
/// evaluation steps.
#[verifier::rlimit(100)]
pub fn eval_expr_fuel(st: &mut Interp, expr: &Expr, env: Option<usize>, fuel: u64) -> (r: Value)
    requires
        wf_state(old(st)@),
        crate::semantics::wf_expr(
            old(st)@.frames.len() as int,
            old(st)@.thunks.len() as int,
            expr@,
        ),
        wf_env(old(st)@.frames.len() as int, env_view(env)),
    ensures
        eval_post(old(st)@, final(st)@, expr@, env_view(env), fuel as nat, r@),
    decreases fuel, 1int,
{
    let ghost nf0 = old(st)@.frames.len() as int;
    let ghost nt0 = old(st)@.thunks.len() as int;
    if fuel == 0 {
        return error("evaluation budget exhausted");
    }
    match expr {
        Expr::Literal(v) => v.dup(),
        Expr::Unary(op, a) => {
            let va = eval_expr_fuel(st, &**a, env, fuel - 1);
            crate::ops::apply_unary(*op, va)
        },
        Expr::Binary(a, op, b) => {
            let va = eval_expr_fuel(st, &**a, env, fuel - 1);
            proof {
                crate::semantics::lemma_wf_expr_mono(
                    nf0,
                    nt0,
                    st@.frames.len() as int,
                    st@.thunks.len() as int,
                    (**b)@,
                );
            }
            let vb = eval_expr_fuel(st, &**b, env, fuel - 1);
            crate::ops::apply_binop(*op, va, vb)
        },
        Expr::If(c, t, els) => {
            let vc = eval_expr_fuel(st, &**c, env, fuel - 1);
            match vc {
                Value::Bool(bv) => {
                    proof {
                        crate::semantics::lemma_wf_expr_mono(
                            nf0,
                            nt0,
                            st@.frames.len() as int,
                            st@.thunks.len() as int,
                            (**t)@,
                        );
                        crate::semantics::lemma_wf_expr_mono(
                            nf0,
                            nt0,
                            st@.frames.len() as int,
                            st@.thunks.len() as int,
                            (**els)@,
                        );
                    }
                    if bv {
                        eval_expr_fuel(st, &**t, env, fuel - 1)
                    } else {
                        eval_expr_fuel(st, &**els, env, fuel - 1)
                    }
                },
                Value::Error(_) => vc,
                _ => error("If condition must return a boolean"),
            }
        },
        Expr::Variable(ident) => {
            match lookup(st, env, ident) {
                Some(idx) => {
                    let v = st.frames[idx].value.dup();
                    proof {
                        assert(st@.frames[idx as int] == st.frames@[idx as int]@);
                        assert(wf_value(
                            st@.frames.len() as int,
                            st@.thunks.len() as int,
                            st@.frames[idx as int].value,
                        ));
                    }
                    eval_value(st, v, Some(env), fuel - 1)
                },
                None => crate::ops::error3("Variable '", ident.as_str(), "' is not declared"),
            }
        },
        Expr::Let(p, vx, body) => eval_let_expr(st, p, &**vx, &**body, env, fuel),
        Expr::Fn_(p, body) => Value::Function(p.dup(), Box::new((**body).dup()), env),
        Expr::FnApp(fe, ae) => eval_fnapp_expr(st, &**fe, &**ae, env, fuel),
        Expr::Match(sx, arms) => eval_match_expr(st, &**sx, arms, env, fuel),
        Expr::Delayed(p, vx, body) => eval_delayed_expr(st, p, &**vx, &**body, env, fuel),
        Expr::Boxed(ex) => {
            let v = eval_expr_fuel(st, &**ex, env, fuel - 1);
            Value::Boxed(Box::new(v))
        },
    }
}

/// Phase one of declaration binding: allocate one frame per declaration, each
/// holding its placeholder error, chained left to right on the empty
/// environment given; returns the final environment and the frame indices.
#[verifier::loop_isolation(false)]
fn unfilled_env(st: &mut Interp, decls: &Vec<Decl>) -> (r: (Option<usize>, Vec<usize>))
    requires
        wf_state(old(st)@),
    ensures
        final(st)@ == crate::semantics::phase1_s(old(st)@, crate::ast::decls_view(decls@), 0, None).0,
        env_view(r.0) == crate::semantics::phase1_s(
            old(st)@,
            crate::ast::decls_view(decls@),
            0,
            None,
        ).1,
        wf_state(final(st)@),
        wf_env(final(st)@.frames.len() as int, env_view(r.0)),
        r.1@.len() == decls@.len(),
        forall|j: int| 0 <= j < r.1@.len() ==> (#[trigger] r.1@[j]) as int == old(
            st,
        )@.frames.len() + j,
        final(st)@.thunks == old(st)@.thunks,
        final(st)@.frames.len() == old(st)@.frames.len() + decls@.len(),
{
    let ghost dv = crate::ast::decls_view(decls@);
    let mut cur: Option<usize> = None;
    let mut idxs: Vec<usize> = Vec::new();
    let mut i: usize = 0;
    while i < decls.len()
        invariant
            i <= decls.len(),
            crate::semantics::phase1_s(old(st)@, dv, 0, None) == crate::semantics::phase1_s(
                st@,
                dv,
                i as int,
                env_view(cur),
            ),
            wf_state(st@),
            wf_env(st@.frames.len() as int, env_view(cur)),
            st@.thunks == old(st)@.thunks,
            st@.frames.len() == old(st)@.frames.len() + i,
            idxs@.len() == i,
            forall|j: int| 0 <= j < i ==> (#[trigger] idxs@[j]) as int == old(st)@.frames.len()
                + j,
        decreases decls.len() - i,
    {
        match &decls[i] {
            Decl::Expression(name, _) => {
                let placeholder = crate::ops::error3(
                    "'",
                    name.as_str(),
                    "' has not been initialized",
                );
                proof {
                    crate::semantics::lemma_wf_state_push_frame(
                        st@,
                        FrameS {
                            name: name@,
                            value: placeholder@,
                            parent: env_view(cur),
                        },
                    );
                }
                let idx = push_frame(st, name.clone(), placeholder, cur);
                idxs.push(idx);
                cur = Some(idx);
            },
        }
        i = i + 1;
    }
    (cur, idxs)
}

/// Phase two of declaration binding: install into each allocated frame either
/// a closure over the whole declarations environment (for function
/// declarations) or a memoizing thunk for anything else.
#[verifier::loop_isolation(false)]
fn fill_decl_env(
    st: &mut Interp,
    decls: &Vec<Decl>,
    idxs: &Vec<usize>,
    etop: Option<usize>,
    Ghost(base): Ghost<int>,
)
    requires
        wf_state(old(st)@),
        wf_env(old(st)@.frames.len() as int, env_view(etop)),
        crate::semantics::wf_decls(
            old(st)@.frames.len() as int,
            old(st)@.thunks.len() as int,
            crate::ast::decls_view(decls@),
        ),
        idxs@.len() == decls@.len(),
        forall|j: int| 0 <= j < idxs@.len() ==> (#[trigger] idxs@[j]) as int == base + j,
        base >= 0,
        base + decls@.len() <= old(st)@.frames.len(),
    ensures
        final(st)@ == crate::semantics::phase2_s(
            old(st)@,
            crate::ast::decls_view(decls@),
            0,
            base,
            env_view(etop),
        ),
        wf_state(final(st)@),
        final(st)@.frames.len() == old(st)@.frames.len(),
        final(st)@.thunks.len() >= old(st)@.thunks.len(),
{
    let ghost dv = crate::ast::decls_view(decls@);
    let ghost nf0 = old(st)@.frames.len() as int;
    let ghost nt0 = old(st)@.thunks.len() as int;
    let mut j: usize = 0;
    while j < decls.len()
        invariant
            j <= decls.len(),
            crate::semantics::phase2_s(old(st)@, dv, 0, base, env_view(etop))
                == crate::semantics::phase2_s(st@, dv, j as int, base, env_view(etop)),
            wf_state(st@),
            st@.frames.len() == nf0,
            st@.thunks.len() >= nt0,
        decreases decls.len() - j,
    {
        let idx = idxs[j];
        proof {
            assert(crate::semantics::wf_expr(nf0, nt0, crate::semantics::decl_expr(dv[j as int])));
        }
        match &decls[j] {
            Decl::Expression(_, e) => {
                match e {
                    Expr::Fn_(p, body) => {
                        let f = Value::Function(p.dup(), Box::new((**body).dup()), etop);
                        proof {
                            crate::semantics::lemma_wf_expr_mono(
                                nf0,
                                nt0,
                                st@.frames.len() as int,
                                st@.thunks.len() as int,
                                e@,
                            );
                            crate::semantics::lemma_wf_state_set_value(st@, idx as int, f@);
                        }
                        set_frame_value(st, idx, f);
                    },
                    _ => {
                        proof {
                            crate::semantics::lemma_wf_expr_mono(
                                nf0,
                                nt0,
                                st@.frames.len() as int,
                                st@.thunks.len() as int,
                                e@,
                            );
                            crate::semantics::lemma_wf_state_push_thunk(
                                st@,
                                ThunkCellS::Unevaluated(e@, idx as int, env_view(etop)),
                            );
                        }
                        let tid = push_thunk(st, ThunkCell::Unevaluated(e.dup(), idx, etop));
                        proof {
                            crate::semantics::lemma_wf_state_set_value(
                                st@,
                                idx as int,
                                ValueS::Thunk(tid as int),
                            );
                        }
                        set_frame_value(st, idx, Value::Thunk(tid));
                    },
                }
            },
        }
        j = j + 1;
    }
}

/// Bind a list of top-level declarations: allocate all their frames, then
/// install closures and thunks, so that the declarations can refer to each
/// other in any order. Returns the resulting environment.
pub fn env_from_decls(st: &mut Interp, decls: &Vec<Decl>) -> (r: Option<usize>)
    requires
        wf_state(old(st)@),
        crate::semantics::wf_decls(
            old(st)@.frames.len() as int,
            old(st)@.thunks.len() as int,
            crate::ast::decls_view(decls@),
        ),
    ensures
        final(st)@ == crate::semantics::env_from_decls_s(
            old(st)@,
            crate::ast::decls_view(decls@),
        ).0,
        env_view(r) == crate::semantics::env_from_decls_s(
            old(st)@,
            crate::ast::decls_view(decls@),
        ).1,
        wf_state(final(st)@),
        wf_env(final(st)@.frames.len() as int, env_view(r)),
        final(st)@.frames.len() >= old(st)@.frames.len(),
        final(st)@.thunks.len() >= old(st)@.thunks.len(),
{
    let ghost nf0 = old(st)@.frames.len() as int;
    let ghost nt0 = old(st)@.thunks.len() as int;
    let ghost dv = crate::ast::decls_view(decls@);
    let (etop, idxs) = unfilled_env(st, decls);
    proof {
        assert forall|i: int| 0 <= i < dv.len() implies crate::semantics::wf_expr(
            st@.frames.len() as int,
            st@.thunks.len() as int,
            crate::semantics::decl_expr(#[trigger] dv[i]),
        ) by {
            crate::semantics::lemma_wf_expr_mono(
                nf0,
                nt0,
                st@.frames.len() as int,
                st@.thunks.len() as int,
                crate::semantics::decl_expr(dv[i]),
            );
        }
    }
    fill_decl_env(st, decls, &idxs, etop, Ghost(nf0));
    etop
}

/// Extend `parent` with every binding the pattern produces against the
/// value, or report the non-match.
pub fn associate(st: &mut Interp, pattern: &Match, value: Value, parent: Option<usize>) -> (r:
    Result<Option<usize>, String>)
    requires
        wf_state(old(st)@),
        wf_value(old(st)@.frames.len() as int, old(st)@.thunks.len() as int, value@),
        wf_env(old(st)@.frames.len() as int, env_view(parent)),
    ensures
        match (r, match_pat_s(pattern@, value@)) {
            (Ok(env2), Some(bs)) => final(st)@ == push_bindings_s(
                old(st)@,
                env_view(parent),
                bs,
            ).0 && env_view(env2) == push_bindings_s(old(st)@, env_view(parent), bs).1,
            (Err(m), None) => final(st)@ == old(st)@ && m@ == "Value didn't match the pattern"@,
            _ => false,
        },
        wf_state(final(st)@),
        match r {
            Ok(env2) => wf_env(final(st)@.frames.len() as int, env_view(env2)),
            Err(_) => true,
        },
{
    match match_pat(pattern, &value) {
        Some(bs) => {
            proof {
                crate::semantics::lemma_match_pat_wf(
                    st@.frames.len() as int,
                    st@.thunks.len() as int,
                    pattern@,
                    value@,
                    binds_view(bs@),
                );
                assert forall|j: int| 0 <= j < bs@.len() implies wf_value(
                    st@.frames.len() as int,
                    st@.thunks.len() as int,
                    (#[trigger] bs@[j]).1@,
                ) by {
                    assert(binds_view(bs@)[j].1 == bs@[j].1@);
                }
            }
            Ok(push_bindings(st, parent, &bs))
        },
        None => Err("Value didn't match the pattern".to_owned()),
    }
}

/// A fresh, empty environment.
pub fn new_env() -> (r: Option<usize>)
    ensures
        r == None::<usize>,
{
    None
}

/// Evaluate an expression in an environment, with the default fuel.
pub fn eval_expr(st: &mut Interp, expr: &Expr, env: Option<usize>) -> (r: Value)
    requires
        wf_state(old(st)@),
        crate::semantics::wf_expr(
            old(st)@.frames.len() as int,
            old(st)@.thunks.len() as int,
            expr@,
        ),
        wf_env(old(st)@.frames.len() as int, env_view(env)),
    ensures
        eval_post(
            old(st)@,
            final(st)@,
            expr@,
            env_view(env),
            crate::semantics::default_fuel(),
            r@,
        ),
{
    eval_expr_fuel(st, expr, env, u64::MAX)
}

/// Run a whole program: a binary binds its declarations and evaluates `main`
/// in the resulting environment; a library is refused.
pub fn run_prog(prog: Prog) -> (r: Result<Value, String>)
    requires
        crate::semantics::wf_prog(prog@),
    ensures
        match r {
            Ok(v) => crate::semantics::run_prog_s(prog@) == Ok::<ValueS, Seq<char>>(v@),
            Err(m) => crate::semantics::run_prog_s(prog@) == Err::<ValueS, Seq<char>>(m@),
        },
{
    match prog {
        Prog::Binary(main, decls) => {
            let mut st = Interp::new();
            let env = env_from_decls(&mut st, &decls);
            proof {
                crate::semantics::lemma_wf_expr_mono(
                    0,
                    0,
                    st@.frames.len() as int,
                    st@.thunks.len() as int,
                    main@,
                );
            }
            let v = eval_expr_fuel(&mut st, &main, env, u64::MAX);
            Ok(v)
        },
        Prog::Library(_) => Err("No 'main' found in file".to_owned()),
    }
}

} // verus!
