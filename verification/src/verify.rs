//! The two verification passes. `type_pass` synthesizes a function's type
//! signature by interpreting its constructor opcodes on the compile-time
//! stack; `definition_pass` re-interprets the whole opcode list against
//! that signature, tracking the symbolic run-time stack and the live
//! region set while emitting layout-resolved opcodes; `go` runs both
//! passes over a whole program. Every function is proved to return
//! exactly what the spec-level interpreter in `sem` describes.

use vstd::prelude::*;
use crate::header::{
    CTStackVal, Error, ForwardDec, Id, Kind, Label, OpCode1, OpCode2, Quantification, Region,
    Stmt1, Stmt2, Type,
};
use crate::model::{
    cv, cvs, lemma_stack_prefix_mono, lemma_sum_sizes_components, lemma_sum_sizes_is_prefix,
    lemma_sum_sizes_prefix_mono, lemma_tvf_index, lemma_tvf_len, lemma_tvs_index, lemma_tvs_len,
    has_rid, has_tid, lemma_ws_fields_iff, lemma_ws_list_iff, stack_prefix_size, sum_sizes,
    sum_sizes_prefix, sv, tv, tvf, tvs, type_eq_v, well_scoped, ws_fields, ws_list, CTValV,
    ErrorV, TypeV,
};
use crate::equiv::{dup_types, lemma_component_le_sum, substitute_t, type_eq, type_size};
use crate::sem::{
    body_run, body_step, clear_flags, ct_step, find_rgn, init_core, is_ct_op, live_rgn,
    lookup_ctr, lookup_sig, pop_flagged, pop_types, pos_at, remove_rgn, rgns_of, sig_run,
    spec_app, spec_definition_pass, spec_free, spec_get, spec_go, spec_handle_call, spec_init,
    sig_shape, spec_malloc, spec_pack, spec_proj, spec_setup, spec_type_pass, tbv, BodyState,
    CtCore, fd_view, fds_view, present_args, run_decs, run_stmts, s1_view, s1s_view, s2_view,
    s2s_view,
};

verus! {

broadcast use lemma_tvf_len, lemma_tvf_index, lemma_tvs_len, lemma_tvs_index;

/// A core whose compile-time stack is the given one and whose other
/// components are immaterial: used to state what a stack-only handler
/// does, since the constructor steps read and write nothing else.
pub open spec fn cts_core(cts: Seq<CTValV>) -> CtCore {
    CtCore { cts: cts, quants: Seq::empty(), fresh: 0, uniq: false }
}

/// Whether a region with this `Id` is in the live region list.
#[verifier::loop_isolation(false)]
fn rgn_is_live(rgn_vars: &Vec<Region>, id: Id) -> (b: bool)
    ensures
        b == live_rgn(rgn_vars@, id),
{
    let mut k: usize = 0;
    while k < rgn_vars.len()
        invariant
            k <= rgn_vars.len(),
            forall|j: int| 0 <= j < k ==> rgn_vars@[j].id != id,
        decreases rgn_vars.len() - k,
    {
        if rgn_vars[k].id == id {
            return true;
        }
        k = k + 1;
    }
    false
}

/// The first region of this `Id` in the live region list, if any.
#[verifier::loop_isolation(false)]
fn find_region(rgn_vars: &Vec<Region>, id: Id) -> (r: Option<Region>)
    ensures
        r == find_rgn(rgn_vars@, id),
{
    let mut k: usize = 0;
    proof {
        assert(rgn_vars@.skip(0) =~= rgn_vars@);
    }
    while k < rgn_vars.len()
        invariant
            k <= rgn_vars.len(),
            find_rgn(rgn_vars@, id) == find_rgn(rgn_vars@.skip(k as int), id),
        decreases rgn_vars.len() - k,
    {
        proof {
            assert(rgn_vars@.skip(k as int).drop_first() =~= rgn_vars@.skip(k as int + 1));
        }
        if rgn_vars[k].id == id {
            return Some(rgn_vars[k]);
        }
        k = k + 1;
    }
    None
}

/// The live region list with every region of this `Id` removed.
#[verifier::loop_isolation(false)]
fn remove_region(rgn_vars: &Vec<Region>, id: Id) -> (out: Vec<Region>)
    ensures
        out@ == remove_rgn(rgn_vars@, id),
{
    let mut out: Vec<Region> = Vec::new();
    let mut k: usize = 0;
    proof {
        assert(rgn_vars@.skip(0) =~= rgn_vars@);
        assert(out@ + remove_rgn(rgn_vars@, id) =~= remove_rgn(rgn_vars@, id));
    }
    while k < rgn_vars.len()
        invariant
            k <= rgn_vars.len(),
            out@ + remove_rgn(rgn_vars@.skip(k as int), id) == remove_rgn(rgn_vars@, id),
        decreases rgn_vars.len() - k,
    {
        proof {
            assert(rgn_vars@.skip(k as int).drop_first() =~= rgn_vars@.skip(k as int + 1));
        }
        if rgn_vars[k].id != id {
            proof {
                assert(out@ + (seq![rgn_vars@[k as int]] + remove_rgn(
                    rgn_vars@.skip(k as int + 1),
                    id,
                )) =~= out@.push(rgn_vars@[k as int]) + remove_rgn(rgn_vars@.skip(k as int + 1), id));
            }
            out.push(rgn_vars[k]);
        }
        k = k + 1;
    }
    proof {
        assert(rgn_vars@.skip(rgn_vars@.len() as int) =~= Seq::<Region>::empty());
        assert(out@ + Seq::<Region>::empty() =~= out@);
    }
    out
}

/// The summed size of a tuple's components, or `None` where it does not
/// fit in a machine word's range.
#[verifier::loop_isolation(false)]
fn fields_size(ts: &Vec<(bool, Type)>) -> (r: Option<usize>)
    ensures
        match r {
            Some(s) => s as nat == sum_sizes(tvf(ts@)),
            None => sum_sizes(tvf(ts@)) > usize::MAX,
        },
{
    let ghost fs = tvf(ts@);
    let mut total: usize = 0;
    let mut i: usize = 0;
    while i < ts.len()
        invariant
            i <= ts.len(),
            fs == tvf(ts@),
            fs.len() == ts@.len(),
            total as nat == sum_sizes_prefix(fs, i as int),
        decreases ts.len() - i,
    {
        proof {
            assert(fs[i as int] == (ts@[i as int].0, tv(ts@[i as int].1)));
        }
        match type_size(&ts[i].1) {
            None => {
                proof {
                    lemma_component_le_sum(fs, i as int);
                    lemma_sum_sizes_is_prefix(fs);
                }
                return None;
            },
            Some(s) => {
                if s > usize::MAX - total {
                    proof {
                        lemma_component_le_sum(fs, i as int);
                        lemma_sum_sizes_is_prefix(fs);
                    }
                    return None;
                }
                total = total + s;
            },
        }
        i = i + 1;
    }
    proof {
        lemma_sum_sizes_is_prefix(fs);
    }
    Some(total)
}

/// The offset of component `i` of a tuple: the summed sizes of the
/// components before it, or `None` where that does not fit.
#[verifier::loop_isolation(false)]
fn fields_offset(ts: &Vec<(bool, Type)>, i: usize) -> (r: Option<usize>)
    requires
        i <= ts@.len(),
    ensures
        match r {
            Some(s) => s as nat == sum_sizes_prefix(tvf(ts@), i as int),
            None => sum_sizes_prefix(tvf(ts@), i as int) > usize::MAX,
        },
{
    let ghost fs = tvf(ts@);
    let mut offset: usize = 0;
    let mut j: usize = 0;
    while j < i
        invariant
            j <= i,
            i <= ts@.len(),
            fs == tvf(ts@),
            fs.len() == ts@.len(),
            offset as nat == sum_sizes_prefix(fs, j as int),
        decreases i - j,
    {
        proof {
            assert(fs[j as int] == (ts@[j as int].0, tv(ts@[j as int].1)));
        }
        match type_size(&ts[j].1) {
            None => {
                proof {
                    lemma_sum_sizes_prefix_mono(fs, j as int + 1, i as int);
                }
                return None;
            },
            Some(s) => {
                if s > usize::MAX - offset {
                    proof {
                        lemma_sum_sizes_prefix_mono(fs, j as int + 1, i as int);
                    }
                    return None;
                }
                offset = offset + s;
            },
        }
        j = j + 1;
    }
    Some(offset)
}

/// A copy of a tuple's components with every initialization flag cleared.
#[verifier::loop_isolation(false)]
fn clear_fields(ts: &Vec<(bool, Type)>) -> (out: Vec<(bool, Type)>)
    ensures
        tvf(out@) == clear_flags(tvf(ts@)),
{
    let mut out: Vec<(bool, Type)> = Vec::new();
    let mut i: usize = 0;
    while i < ts.len()
        invariant
            i <= ts.len(),
            out@.len() == i,
            forall|j: int| 0 <= j < i ==> out@[j].0 == false && tv(out@[j].1) == tv(ts@[j].1),
        decreases ts.len() - i,
    {
        out.push((false, ts[i].1.duplicate()));
        i = i + 1;
    }
    proof {
        assert(tvf(out@) =~= clear_flags(tvf(ts@)));
    }
    out
}

/// Interpret the `handle` opcode: pop a region, push its handle type.
pub fn handle_handle(pos: u32, op: OpCode1, compile_time_stack: &mut Vec<CTStackVal>) -> (r:
    Result<(), Error>)
    requires
        op == OpCode1::Handle,
    ensures
        ({
            let res = ct_step(cts_core(cvs(old(compile_time_stack)@)), op, pos, 0);
            match r {
                Ok(u) => res matches Ok(c2) && cvs(final(compile_time_stack)@) == c2.cts,
                Err(e) => res == Err::<CtCore, ErrorV>(e@),
            }
        }),
{
    let ghost cts0 = cvs(old(compile_time_stack)@);
    match compile_time_stack.pop() {
        Some(CTStackVal::Region(rg)) => {
            compile_time_stack.push(CTStackVal::Type(Type::Handle(rg)));
            proof {
                assert(cvs(compile_time_stack@) =~= cts0.drop_last().push(
                    CTValV::Type(TypeV::Handle(rg)),
                ));
            }
            Ok(())
        },
        Some(ctval) => Err(Error::KindError(pos, op, Kind::Region, ctval)),
        None => Err(Error::TypeErrorEmptyCTStack(pos, op)),
    }
}

/// Interpret the `tuple` opcode: pop `n` types, push the tuple type with
/// every component born initialized.
#[verifier::loop_isolation(false)]
pub fn handle_tuple(n: u8, pos: u32, op: OpCode1, compile_time_stack: &mut Vec<CTStackVal>) -> (r:
    Result<(), Error>)
    requires
        op == OpCode1::Tuple(n),
    ensures
        ({
            let res = ct_step(cts_core(cvs(old(compile_time_stack)@)), op, pos, 0);
            match r {
                Ok(u) => res matches Ok(c2) && cvs(final(compile_time_stack)@) == c2.cts,
                Err(e) => res == Err::<CtCore, ErrorV>(e@),
            }
        }),
{
    let ghost cts0 = cvs(old(compile_time_stack)@);
    let mut ts: Vec<(bool, Type)> = Vec::new();
    let n2 = n as usize;
    let mut k: usize = 0;
    proof {
        assert(tvf(ts@) =~= Seq::<(bool, TypeV)>::empty());
    }
    while k < n2
        invariant
            k <= n2,
            n2 == n as usize,
            pop_flagged(cts0, n as int, Seq::empty(), pos, op) == pop_flagged(
                cvs(compile_time_stack@),
                n2 - k,
                tvf(ts@),
                pos,
                op,
            ),
        decreases n2 - k,
    {
        let ghost prev = cvs(compile_time_stack@);
        match compile_time_stack.pop() {
            Some(CTStackVal::Type(t)) => {
                proof {
                    assert(cvs(compile_time_stack@) =~= prev.drop_last());
                    assert(ts@.push((true, t)).drop_last() =~= ts@);
                    assert(tvf(ts@.push((true, t))) =~= tvf(ts@).push((true, tv(t))));
                }
                ts.push((true, t));
            },
            Some(ctval) => {
                return Err(Error::KindError(pos, op, Kind::Type, ctval));
            },
            None => {
                return Err(Error::TypeErrorEmptyCTStack(pos, op));
            },
        }
        k = k + 1;
    }
    let ghost base = cvs(compile_time_stack@);
    let ghost fsv = tvf(ts@);
    compile_time_stack.push(CTStackVal::Type(Type::Tuple(ts)));
    proof {
        assert(cvs(compile_time_stack@) =~= base.push(CTValV::Type(TypeV::Tuple(fsv))));
    }
    Ok(())
}

/// Interpret the `some` opcode: pop a size, mint a fresh type variable of
/// that size and open an existential frame over it.
pub fn handle_some(
    pos: u32,
    op: OpCode1,
    compile_time_stack: &mut Vec<CTStackVal>,
    fresh_id: &mut u32,
    label: Label,
    quantification_stack: &mut Vec<Quantification>,
) -> (r: Result<(), Error>)
    requires
        op == OpCode1::Exist,
        *old(fresh_id) < u32::MAX,
    ensures
        ({
            let res = ct_step(
                CtCore {
                    cts: cvs(old(compile_time_stack)@),
                    quants: old(quantification_stack)@,
                    fresh: *old(fresh_id) as int,
                    uniq: false,
                },
                op,
                pos,
                label,
            );
            match r {
                Ok(u) => res matches Ok(c2) && cvs(final(compile_time_stack)@) == c2.cts
                    && final(quantification_stack)@ == c2.quants && *final(fresh_id) as int == c2.fresh,
                Err(e) => res == Err::<CtCore, ErrorV>(e@),
            }
        }),
{
    let ghost cts0 = cvs(old(compile_time_stack)@);
    match compile_time_stack.pop() {
        Some(CTStackVal::Size(s)) => {
            let id = Id(label, *fresh_id);
            *fresh_id = *fresh_id + 1;
            compile_time_stack.push(CTStackVal::Type(Type::Var(id, s)));
            quantification_stack.push(Quantification::Exist(id, s));
            proof {
                assert(cvs(compile_time_stack@) =~= cts0.drop_last().push(
                    CTValV::Type(TypeV::Var(id, s)),
                ));
            }
            Ok(())
        },
        Some(ctval) => Err(Error::KindError(pos, op, Kind::Size, ctval)),
        None => Err(Error::TypeErrorEmptyCTStack(pos, op)),
    }
}

/// Interpret the `all` opcode: pop a size, mint a fresh type variable of
/// that size and open a universal frame over it.
pub fn handle_all(
    pos: u32,
    op: OpCode1,
    compile_time_stack: &mut Vec<CTStackVal>,
    fresh_id: &mut u32,
    label: Label,
    quantification_stack: &mut Vec<Quantification>,
) -> (r: Result<(), Error>)
    requires
        op == OpCode1::All,
        *old(fresh_id) < u32::MAX,
    ensures
        ({
            let res = ct_step(
                CtCore {
                    cts: cvs(old(compile_time_stack)@),
                    quants: old(quantification_stack)@,
                    fresh: *old(fresh_id) as int,
                    uniq: false,
                },
                op,
                pos,
                label,
            );
            match r {
                Ok(u) => res matches Ok(c2) && cvs(final(compile_time_stack)@) == c2.cts
                    && final(quantification_stack)@ == c2.quants && *final(fresh_id) as int == c2.fresh,
                Err(e) => res == Err::<CtCore, ErrorV>(e@),
            }
        }),
{
    let ghost cts0 = cvs(old(compile_time_stack)@);
    match compile_time_stack.pop() {
        Some(CTStackVal::Size(s)) => {
            let id = Id(label, *fresh_id);
            *fresh_id = *fresh_id + 1;
            compile_time_stack.push(CTStackVal::Type(Type::Var(id, s)));
            quantification_stack.push(Quantification::Forall(id, s));
            proof {
                assert(cvs(compile_time_stack@) =~= cts0.drop_last().push(
                    CTValV::Type(TypeV::Var(id, s)),
                ));
            }
            Ok(())
        },
        Some(ctval) => Err(Error::KindError(pos, op, Kind::Size, ctval)),
        None => Err(Error::TypeErrorEmptyCTStack(pos, op)),
    }
}

/// Interpret the `region` opcode: mint a fresh region variable, unique
/// if so marked (the mark is consumed), and open a region frame over it.
pub fn handle_rgn(
    next_region_is_unique: &mut bool,
    label: Label,
    fresh_id: &mut u32,
    compile_time_stack: &mut Vec<CTStackVal>,
    quantification_stack: &mut Vec<Quantification>,
) -> (r: Result<(), Error>)
    requires
        *old(fresh_id) < u32::MAX,
    ensures
        ({
            let res = ct_step(
                CtCore {
                    cts: cvs(old(compile_time_stack)@),
                    quants: old(quantification_stack)@,
                    fresh: *old(fresh_id) as int,
                    uniq: *old(next_region_is_unique),
                },
                OpCode1::Rgn,
                0,
                label,
            );
            r is Ok && (res matches Ok(c2) && cvs(final(compile_time_stack)@) == c2.cts
                && final(quantification_stack)@ == c2.quants && *final(fresh_id) as int == c2.fresh
                && *final(next_region_is_unique) == c2.uniq)
        }),
{
    let ghost cts0 = cvs(old(compile_time_stack)@);
    let id = Id(label, *fresh_id);
    let rg = Region { unique: *next_region_is_unique, id: id };
    *next_region_is_unique = false;
    *fresh_id = *fresh_id + 1;
    compile_time_stack.push(CTStackVal::Region(rg));
    quantification_stack.push(Quantification::Region(rg));
    proof {
        assert(cvs(compile_time_stack@) =~= cts0.push(CTValV::Region(rg)));
    }
    Ok(())
}

/// Interpret the `end` opcode: close the innermost quantifier frame,
/// checking that the slot under the body type is exactly the frame's
/// variable or region.
pub fn handle_end(
    pos: u32,
    op: OpCode1,
    compile_time_stack: &mut Vec<CTStackVal>,
    quantification_stack: &mut Vec<Quantification>,
) -> (r: Result<(), Error>)
    requires
        op == OpCode1::End,
    ensures
        ({
            let res = ct_step(
                CtCore {
                    cts: cvs(old(compile_time_stack)@),
                    quants: old(quantification_stack)@,
                    fresh: 0,
                    uniq: false,
                },
                op,
                pos,
                0,
            );
            match r {
                Ok(u) => res matches Ok(c2) && cvs(final(compile_time_stack)@) == c2.cts
                    && final(quantification_stack)@ == c2.quants,
                Err(e) => res == Err::<CtCore, ErrorV>(e@),
            }
        }),
{
    let ghost cts0 = cvs(old(compile_time_stack)@);
    match quantification_stack.pop() {
        None => Err(Error::TypeErrorEmptyQuantificationStack(pos, op)),
        Some(Quantification::Exist(id, s)) => match compile_time_stack.pop() {
            Some(CTStackVal::Type(t)) => match compile_time_stack.pop() {
                Some(CTStackVal::Type(Type::Var(id2, _s2))) => if id2 == id {
                    let ghost bodyv = tv(t);
                    compile_time_stack.push(CTStackVal::Type(Type::Exists(id, s, Box::new(t))));
                    proof {
                        assert(cvs(compile_time_stack@) =~= cts0.drop_last().drop_last().push(
                            CTValV::Type(TypeV::Exists(id, s, Box::new(bodyv))),
                        ));
                    }
                    Ok(())
                } else {
                    Err(Error::TypeErrorSpecificTypeVarExpected(pos, op, id, id2))
                },
                Some(CTStackVal::Type(t2)) => Err(Error::TypeErrorTypeVarExpected(pos, op, id, t2)),
                Some(ctval) => Err(Error::KindError(pos, op, Kind::Type, ctval)),
                None => Err(Error::TypeErrorEmptyCTStack(pos, op)),
            },
            Some(ctval) => Err(Error::KindError(pos, op, Kind::Type, ctval)),
            None => Err(Error::TypeErrorEmptyCTStack(pos, op)),
        },
        Some(Quantification::Forall(id, s)) => match compile_time_stack.pop() {
            Some(CTStackVal::Type(t)) => match compile_time_stack.pop() {
                Some(CTStackVal::Type(Type::Var(id2, _s2))) => if id2 == id {
                    let ghost bodyv = tv(t);
                    compile_time_stack.push(CTStackVal::Type(Type::Forall(id, s, Box::new(t))));
                    proof {
                        assert(cvs(compile_time_stack@) =~= cts0.drop_last().drop_last().push(
                            CTValV::Type(TypeV::Forall(id, s, Box::new(bodyv))),
                        ));
                    }
                    Ok(())
                } else {
                    Err(Error::TypeErrorSpecificTypeVarExpected(pos, op, id, id2))
                },
                Some(CTStackVal::Type(t2)) => Err(Error::TypeErrorTypeVarExpected(pos, op, id, t2)),
                Some(ctval) => Err(Error::KindError(pos, op, Kind::Type, ctval)),
                None => Err(Error::TypeErrorEmptyCTStack(pos, op)),
            },
            Some(ctval) => Err(Error::KindError(pos, op, Kind::Type, ctval)),
            None => Err(Error::TypeErrorEmptyCTStack(pos, op)),
        },
        Some(Quantification::Region(rg)) => match compile_time_stack.pop() {
            Some(CTStackVal::Type(t)) => match compile_time_stack.pop() {
                Some(CTStackVal::Region(r2)) => if r2.id == rg.id {
                    let ghost bodyv = tv(t);
                    let caps: Vec<Region> = Vec::new();
                    proof {
                        assert(caps@ =~= Seq::<Region>::empty());
                    }
                    compile_time_stack.push(
                        CTStackVal::Type(Type::ForallRegion(rg, Box::new(t), caps)),
                    );
                    proof {
                        assert(cvs(compile_time_stack@) =~= cts0.drop_last().drop_last().push(
                            CTValV::Type(
                                TypeV::ForallRegion(rg, Box::new(bodyv), Seq::empty()),
                            ),
                        ));
                    }
                    Ok(())
                } else {
                    Err(Error::RegionError(pos, op, rg, r2))
                },
                Some(ctval) => Err(Error::KindError(pos, op, Kind::Region, ctval)),
                None => Err(Error::TypeErrorEmptyCTStack(pos, op)),
            },
            Some(ctval) => Err(Error::KindError(pos, op, Kind::Type, ctval)),
            None => Err(Error::TypeErrorEmptyCTStack(pos, op)),
        },
    }
}

/// Interpret the `func` opcode: pop `n` types and push the function type
/// over them, top of stack first.
#[verifier::loop_isolation(false)]
pub fn handle_func(n: u8, pos: u32, op: OpCode1, compile_time_stack: &mut Vec<CTStackVal>) -> (r:
    Result<(), Error>)
    requires
        op == OpCode1::Func(n),
    ensures
        ({
            let res = ct_step(cts_core(cvs(old(compile_time_stack)@)), op, pos, 0);
            match r {
                Ok(u) => res matches Ok(c2) && cvs(final(compile_time_stack)@) == c2.cts,
                Err(e) => res == Err::<CtCore, ErrorV>(e@),
            }
        }),
{
    let ghost cts0 = cvs(old(compile_time_stack)@);
    let mut ts: Vec<Type> = Vec::new();
    let n2 = n as usize;
    let mut k: usize = 0;
    proof {
        assert(tvs(ts@) =~= Seq::<TypeV>::empty());
    }
    while k < n2
        invariant
            k <= n2,
            n2 == n as usize,
            pop_types(cts0, n as int, Seq::empty(), pos, op) == pop_types(
                cvs(compile_time_stack@),
                n2 - k,
                tvs(ts@),
                pos,
                op,
            ),
        decreases n2 - k,
    {
        let ghost prev = cvs(compile_time_stack@);
        match compile_time_stack.pop() {
            Some(CTStackVal::Type(t)) => {
                proof {
                    assert(cvs(compile_time_stack@) =~= prev.drop_last());
                    assert(ts@.push(t).drop_last() =~= ts@);
                    assert(tvs(ts@.push(t)) =~= tvs(ts@).push(tv(t)));
                }
                ts.push(t);
            },
            Some(ctval) => {
                return Err(Error::KindError(pos, op, Kind::Type, ctval));
            },
            None => {
                return Err(Error::TypeErrorEmptyCTStack(pos, op));
            },
        }
        k = k + 1;
    }
    let ghost base = cvs(compile_time_stack@);
    let ghost tsv = tvs(ts@);
    compile_time_stack.push(CTStackVal::Type(Type::Func(ts)));
    proof {
        assert(cvs(compile_time_stack@) =~= base.push(CTValV::Type(TypeV::Func(tsv))));
    }
    Ok(())
}

/// Interpret the `ct_get` opcode: copy the i-th-from-top compile-time
/// slot onto the top.
pub fn handle_ctget(pos: u32, i: u8, compile_time_stack: &mut Vec<CTStackVal>) -> (r: Result<
    (),
    Error,
>)
    ensures
        ({
            let res = ct_step(cts_core(cvs(old(compile_time_stack)@)), OpCode1::CTGet(i), pos, 0);
            match r {
                Ok(u) => res matches Ok(c2) && cvs(final(compile_time_stack)@) == c2.cts,
                Err(e) => res == Err::<CtCore, ErrorV>(e@),
            }
        }),
{
    let ghost cts0 = cvs(old(compile_time_stack)@);
    if (i as usize) < compile_time_stack.len() {
        let idx = compile_time_stack.len() - 1 - (i as usize);
        let v = compile_time_stack[idx].duplicate();
        compile_time_stack.push(v);
        proof {
            assert(cvs(compile_time_stack@) =~= cts0.push(cts0[cts0.len() - 1 - i]));
        }
        Ok(())
    } else {
        Err(Error::TypeErrorCTGetOutOfRange(pos, i, compile_time_stack.len()))
    }
}

/// Interpret the `ptr` opcode: pop a type and a region, push the pointer
/// type into that region.
pub fn handle_ptr(pos: u32, op: OpCode1, compile_time_stack: &mut Vec<CTStackVal>) -> (r: Result<
    (),
    Error,
>)
    requires
        op == OpCode1::Ptr,
    ensures
        ({
            let res = ct_step(cts_core(cvs(old(compile_time_stack)@)), op, pos, 0);
            match r {
                Ok(u) => res matches Ok(c2) && cvs(final(compile_time_stack)@) == c2.cts,
                Err(e) => res == Err::<CtCore, ErrorV>(e@),
            }
        }),
{
    let ghost cts0 = cvs(old(compile_time_stack)@);
    match compile_time_stack.pop() {
        Some(CTStackVal::Type(t)) => match compile_time_stack.pop() {
            Some(CTStackVal::Region(rg)) => {
                let ghost bodyv = tv(t);
                compile_time_stack.push(CTStackVal::Type(Type::Ptr(Box::new(t), rg)));
                proof {
                    assert(cvs(compile_time_stack@) =~= cts0.drop_last().drop_last().push(
                        CTValV::Type(TypeV::Ptr(Box::new(bodyv), rg)),
                    ));
                }
                Ok(())
            },
            Some(ctval) => Err(Error::KindError(pos, op, Kind::Region, ctval)),
            None => Err(Error::TypeErrorEmptyCTStack(pos, op)),
        },
        Some(ctval) => Err(Error::KindError(pos, op, Kind::Type, ctval)),
        None => Err(Error::TypeErrorEmptyCTStack(pos, op)),
    }
}

/// Whether the type-variable environment binds this identifier.
#[verifier::loop_isolation(false)]
fn tenv_has_id(tenv: &Vec<(Id, usize)>, id: Id) -> (b: bool)
    ensures
        b == has_tid(tenv@, id),
{
    let mut k: usize = 0;
    while k < tenv.len()
        invariant
            k <= tenv.len(),
            forall|j: int| 0 <= j < k ==> tenv@[j].0 != id,
        decreases tenv.len() - k,
    {
        if tenv[k].0 == id {
            return true;
        }
        k = k + 1;
    }
    false
}

/// Whether the type-variable environment holds exactly this binding.
#[verifier::loop_isolation(false)]
fn tenv_has_binding(tenv: &Vec<(Id, usize)>, id: Id, s: usize) -> (b: bool)
    ensures
        b == tenv@.contains((id, s)),
{
    let mut k: usize = 0;
    while k < tenv.len()
        invariant
            k <= tenv.len(),
            forall|j: int| 0 <= j < k ==> tenv@[j] != (id, s),
        decreases tenv.len() - k,
    {
        if tenv[k].0 == id && tenv[k].1 == s {
            return true;
        }
        k = k + 1;
    }
    false
}

/// Whether the region environment binds this region identifier.
#[verifier::loop_isolation(false)]
fn renv_has_id(renv: &Vec<Region>, id: Id) -> (b: bool)
    ensures
        b == has_rid(renv@, id),
{
    let mut k: usize = 0;
    while k < renv.len()
        invariant
            k <= renv.len(),
            forall|j: int| 0 <= j < k ==> renv@[j].id != id,
        decreases renv.len() - k,
    {
        if renv[k].id == id {
            return true;
        }
        k = k + 1;
    }
    false
}

/// Whether the region environment holds exactly this region.
#[verifier::loop_isolation(false)]
fn renv_has_region(renv: &Vec<Region>, r: Region) -> (b: bool)
    ensures
        b == renv@.contains(r),
{
    let mut k: usize = 0;
    while k < renv.len()
        invariant
            k <= renv.len(),
            forall|j: int| 0 <= j < k ==> renv@[j] != r,
        decreases renv.len() - k,
    {
        if renv[k] == r {
            return true;
        }
        k = k + 1;
    }
    false
}

/// Decide well-scopedness of a type under the environments of enclosing
/// binders; the environments are restored before returning.
#[verifier::loop_isolation(false)]
fn closed_type(t: &Type, tenv: &mut Vec<(Id, usize)>, renv: &mut Vec<Region>) -> (b: bool)
    ensures
        final(tenv)@ == old(tenv)@,
        final(renv)@ == old(renv)@,
        b == well_scoped(t@, old(tenv)@, old(renv)@),
    decreases t,
{
    match t {
        Type::I32 => true,
        Type::Handle(r0) => renv_has_region(renv, *r0),
        Type::Var(id, s) => tenv_has_binding(tenv, *id, *s),
        Type::Ptr(b0, r0) => {
            if !renv_has_region(renv, *r0) {
                return false;
            }
            closed_type(&**b0, tenv, renv)
        },
        Type::Tuple(ts) => {
            proof {
                lemma_ws_fields_iff(tvf(ts@), old(tenv)@, old(renv)@);
            }
            let mut j: usize = 0;
            while j < ts.len()
                invariant
                    j <= ts.len(),
                    tenv@ == old(tenv)@,
                    renv@ == old(renv)@,
                    forall|k: int| 0 <= k < j ==> well_scoped(tv(ts@[k].1), old(tenv)@, old(renv)@),
                decreases ts.len() - j,
            {
                if !closed_type(&ts[j].1, tenv, renv) {
                    proof {
                        assert(!well_scoped(tv(ts@[j as int].1), old(tenv)@, old(renv)@));
                        assert(tvf(ts@)[j as int] == (ts@[j as int].0, tv(ts@[j as int].1)));
                        assert(tvf(ts@)[j as int].1 == tv(ts@[j as int].1));
                        assert(0 <= j < tvf(ts@).len() && !well_scoped(
                            tvf(ts@)[j as int].1,
                            old(tenv)@,
                            old(renv)@,
                        ));
                        assert(!(forall|k: int|
                            0 <= k < tvf(ts@).len() ==> well_scoped(
                                #[trigger] tvf(ts@)[k].1,
                                old(tenv)@,
                                old(renv)@,
                            )));
                    }
                    return false;
                }
                j = j + 1;
            }
            proof {
                assert forall|k: int| 0 <= k < tvf(ts@).len() implies well_scoped(
                    #[trigger] tvf(ts@)[k].1,
                    old(tenv)@,
                    old(renv)@,
                ) by {
                    assert(tvf(ts@)[k] == (ts@[k].0, tv(ts@[k].1)));
                }
            }
            true
        },
        Type::Func(ts) => {
            proof {
                lemma_ws_list_iff(tvs(ts@), old(tenv)@, old(renv)@);
            }
            let mut j: usize = 0;
            while j < ts.len()
                invariant
                    j <= ts.len(),
                    tenv@ == old(tenv)@,
                    renv@ == old(renv)@,
                    forall|k: int| 0 <= k < j ==> well_scoped(tv(ts@[k]), old(tenv)@, old(renv)@),
                decreases ts.len() - j,
            {
                if !closed_type(&ts[j], tenv, renv) {
                    proof {
                        assert(tvs(ts@)[j as int] == tv(ts@[j as int]));
                        assert(!(forall|k: int|
                            0 <= k < tvs(ts@).len() ==> well_scoped(
                                #[trigger] tvs(ts@)[k],
                                old(tenv)@,
                                old(renv)@,
                            )));
                    }
                    return false;
                }
                j = j + 1;
            }
            proof {
                assert forall|k: int| 0 <= k < tvs(ts@).len() implies well_scoped(
                    #[trigger] tvs(ts@)[k],
                    old(tenv)@,
                    old(renv)@,
                ) by {
                    assert(tvs(ts@)[k] == tv(ts@[k]));
                }
            }
            true
        },
        Type::Exists(id, s, b0) => {
            if tenv_has_id(tenv, *id) {
                return false;
            }
            tenv.push((*id, *s));
            let inner = closed_type(&**b0, tenv, renv);
            tenv.pop();
            proof {
                assert(tenv@ =~= old(tenv)@);
            }
            inner
        },
        Type::Forall(id, s, b0) => {
            if tenv_has_id(tenv, *id) {
                return false;
            }
            tenv.push((*id, *s));
            let inner = closed_type(&**b0, tenv, renv);
            tenv.pop();
            proof {
                assert(tenv@ =~= old(tenv)@);
            }
            inner
        },
        Type::ForallRegion(r0, b0, _caps) => {
            if renv_has_id(renv, r0.id) {
                return false;
            }
            renv.push(*r0);
            let inner = closed_type(&**b0, tenv, renv);
            renv.pop();
            proof {
                assert(renv@ =~= old(renv)@);
            }
            inner
        },
    }
}

/// Whether a type has the shape of a signature: a function type, possibly
/// wrapped in universal type or region quantifiers.
fn is_signature_type(t: &Type) -> (b: bool)
    ensures
        b == sig_shape(t@),
    decreases t,
{
    match t {
        Type::Forall(_, _, b) => is_signature_type(&**b),
        Type::ForallRegion(_, b, _) => is_signature_type(&**b),
        Type::Func(_) => true,
        _ => false,
    }
}

/// The signature pass of one function: interpret its constructor opcodes
/// from an empty compile-time stack, which must end with every quantifier
/// frame closed and exactly one type on the stack, a function type under
/// its quantifier wrappers: the signature. Returns the label, the
/// signature, and the final fresh-variable counter.
#[verifier::loop_isolation(false)]
pub fn type_pass(stmt: &ForwardDec, fresh_id: u32) -> (r: Result<(Label, Type, u32), Error>)
    requires
        fd_view(*stmt).0 + fd_view(*stmt).1.len() <= u32::MAX,
        fresh_id + fd_view(*stmt).1.len() <= u32::MAX,
    ensures
        ({
            let res = spec_type_pass(fd_view(*stmt).0, fd_view(*stmt).1, fresh_id as int);
            match r {
                Ok(p) => res matches Ok(q) && p.0 == fd_view(*stmt).0 && tv(p.1) == q.0
                    && p.2 as int == q.1 && p.2 <= fresh_id + fd_view(*stmt).1.len(),
                Err(e) => res == Err::<(TypeV, int), ErrorV>(e@),
            }
        }),
{
    let ForwardDec::Func(label, ops) = stmt;
    let mut next_region_is_unique: bool = false;
    let mut compile_time_stack: Vec<CTStackVal> = Vec::new();
    let mut quantification_stack: Vec<Quantification> = Vec::new();
    let mut pos: u32 = *label;
    let mut fresh: u32 = fresh_id;
    let mut i: usize = 0;
    proof {
        assert(cvs(compile_time_stack@) =~= Seq::<CTValV>::empty());
        assert(quantification_stack@ =~= Seq::<Quantification>::empty());
    }
    while i < ops.len()
        invariant
            i <= ops.len(),
            pos as int == *label + i,
            fresh_id <= fresh,
            fresh as int <= fresh_id + i,
            sig_run(ops@, 0, init_core(fresh_id as int), *label) == sig_run(
                ops@,
                i as int,
                CtCore {
                    cts: cvs(compile_time_stack@),
                    quants: quantification_stack@,
                    fresh: fresh as int,
                    uniq: next_region_is_unique,
                },
                *label,
            ),
        decreases ops.len() - i,
    {
        let ghost cur = CtCore {
            cts: cvs(compile_time_stack@),
            quants: quantification_stack@,
            fresh: fresh as int,
            uniq: next_region_is_unique,
        };
        proof {
            assert(pos_at(*label, i as int) == pos);
        }
        let op = ops[i];
        match op {
            OpCode1::Unique => {
                next_region_is_unique = true;
            },
            OpCode1::Handle => match handle_handle(pos, op, &mut compile_time_stack) {
                Ok(u) => {},
                Err(e) => {
                    proof {
                        assert(ct_step(cur, op, pos, *label) == Err::<CtCore, ErrorV>(e@));
                    }
                    return Err(e);
                },
            },
            OpCode1::I32 => {
                let ghost base = cvs(compile_time_stack@);
                compile_time_stack.push(CTStackVal::Type(Type::I32));
                proof {
                    assert(cvs(compile_time_stack@) =~= base.push(CTValV::Type(TypeV::I32)));
                }
            },
            OpCode1::Tuple(n) => match handle_tuple(n, pos, op, &mut compile_time_stack) {
                Ok(u) => {},
                Err(e) => {
                    proof {
                        assert(ct_step(cur, op, pos, *label) == Err::<CtCore, ErrorV>(e@));
                    }
                    return Err(e);
                },
            },
            OpCode1::Exist => match handle_some(
                pos,
                op,
                &mut compile_time_stack,
                &mut fresh,
                *label,
                &mut quantification_stack,
            ) {
                Ok(u) => {},
                Err(e) => {
                    proof {
                        assert(ct_step(cur, op, pos, *label) == Err::<CtCore, ErrorV>(e@));
                    }
                    return Err(e);
                },
            },
            OpCode1::All => match handle_all(
                pos,
                op,
                &mut compile_time_stack,
                &mut fresh,
                *label,
                &mut quantification_stack,
            ) {
                Ok(u) => {},
                Err(e) => {
                    proof {
                        assert(ct_step(cur, op, pos, *label) == Err::<CtCore, ErrorV>(e@));
                    }
                    return Err(e);
                },
            },
            OpCode1::Rgn => match handle_rgn(
                &mut next_region_is_unique,
                *label,
                &mut fresh,
                &mut compile_time_stack,
                &mut quantification_stack,
            ) {
                Ok(u) => {},
                Err(e) => {
                    return Err(e);
                },
            },
            OpCode1::End => match handle_end(
                pos,
                op,
                &mut compile_time_stack,
                &mut quantification_stack,
            ) {
                Ok(u) => {},
                Err(e) => {
                    proof {
                        assert(ct_step(cur, op, pos, *label) == Err::<CtCore, ErrorV>(e@));
                    }
                    return Err(e);
                },
            },
            OpCode1::Func(n) => match handle_func(n, pos, op, &mut compile_time_stack) {
                Ok(u) => {},
                Err(e) => {
                    proof {
                        assert(ct_step(cur, op, pos, *label) == Err::<CtCore, ErrorV>(e@));
                    }
                    return Err(e);
                },
            },
            OpCode1::CTGet(idx) => match handle_ctget(pos, idx, &mut compile_time_stack) {
                Ok(u) => {},
                Err(e) => {
                    proof {
                        assert(ct_step(cur, op, pos, *label) == Err::<CtCore, ErrorV>(e@));
                    }
                    return Err(e);
                },
            },
            OpCode1::Size(s) => {
                let ghost base = cvs(compile_time_stack@);
                compile_time_stack.push(CTStackVal::Size(s as usize));
                proof {
                    assert(cvs(compile_time_stack@) =~= base.push(CTValV::Size(s as usize)));
                }
            },
            OpCode1::Ptr => match handle_ptr(pos, op, &mut compile_time_stack) {
                Ok(u) => {},
                Err(e) => {
                    proof {
                        assert(ct_step(cur, op, pos, *label) == Err::<CtCore, ErrorV>(e@));
                    }
                    return Err(e);
                },
            },
            _ => {
                return Err(Error::SyntaxErrorUnexpectedOp(pos, op));
            },
        }
        proof {
            let newcur = CtCore {
                cts: cvs(compile_time_stack@),
                quants: quantification_stack@,
                fresh: fresh as int,
                uniq: next_region_is_unique,
            };
            assert(ct_step(cur, op, pos, *label) == Ok::<CtCore, ErrorV>(newcur));
            assert(sig_run(ops@, i as int, cur, *label) == sig_run(
                ops@,
                i + 1,
                newcur,
                *label,
            ));
        }
        i = i + 1;
        pos = pos + 1;
    }
    if compile_time_stack.len() == 1 && quantification_stack.len() == 0 {
        let ghost cfinal = cvs(compile_time_stack@);
        match compile_time_stack.pop() {
            Some(CTStackVal::Type(t)) => {
                proof {
                    assert(cfinal[0] == CTValV::Type(tv(t)));
                }
                let mut tenv: Vec<(Id, usize)> = Vec::new();
                let mut renv: Vec<Region> = Vec::new();
                proof {
                    assert(tenv@ =~= Seq::<(Id, usize)>::empty());
                    assert(renv@ =~= Seq::<Region>::empty());
                }
                if is_signature_type(&t) && closed_type(&t, &mut tenv, &mut renv) {
                    return Ok((*label, t, fresh));
                }
                return Err(Error::TypeErrorBadSignature(*label));
            },
            _ => {
                return Err(Error::TypeErrorBadSignature(*label));
            },
        }
    }
    Err(Error::TypeErrorBadSignature(*label))
}

/// Replace component `i` of a tuple's component list with the value's
/// type, marked initialized.
fn update_field(ts: Vec<(bool, Type)>, i: usize, actual: Type) -> (out: Vec<(bool, Type)>)
    requires
        i < ts@.len(),
    ensures
        tvf(out@) == tvf(ts@).update(i as int, (true, tv(actual))),
{
    let ghost ts0 = ts@;
    let ghost av = tv(actual);
    let mut out = ts;
    out.remove(i);
    out.insert(i, (true, actual));
    proof {
        assert(out@ =~= ts0.update(i as int, (true, out@[i as int].1)));
        assert(tvf(out@) =~= tvf(ts0).update(i as int, (true, av)));
    }
    out
}

/// Interpret the `get` opcode: copy the i-th-from-top run-time slot onto
/// the top, emitting its offset from the stack top and its size.
#[verifier::loop_isolation(false)]
fn handle_get(
    i: u8,
    pos: u32,
    op: OpCode1,
    stack_type: &mut Vec<Type>,
    verified_ops: &mut Vec<OpCode2>,
) -> (r: Result<(), Error>)
    requires
        op == OpCode1::Get(i),
    ensures
        ({
            let st0 = BodyState {
                core: cts_core(Seq::empty()),
                rts: tvs(old(stack_type)@),
                rgns: Seq::empty(),
                emitted: old(verified_ops)@,
            };
            let res = spec_get(st0, i, pos, op);
            match r {
                Ok(u) => res matches Ok(st2) && tvs(final(stack_type)@) == st2.rts
                    && final(verified_ops)@ == st2.emitted,
                Err(e) => res == Err::<BodyState, ErrorV>(e@),
            }
        }),
{
    let ghost rts0 = tvs(stack_type@);
    let stack_len = stack_type.len();
    if stack_len == 0 {
        return Err(Error::TypeErrorEmptyStack(pos, op));
    }
    let i2 = i as usize;
    if stack_len - 1 < i2 {
        return Err(Error::TypeErrorGetOutOfRange(pos, i, stack_len));
    }
    let mut offset: usize = 0;
    let mut j: usize = 0;
    while j < i2
        invariant
            j <= i2,
            i2 < stack_len,
            stack_len == stack_type@.len(),
            rts0 == tvs(stack_type@),
            rts0.len() == stack_len,
            offset as nat == stack_prefix_size(rts0, j as int),
        decreases i2 - j,
    {
        proof {
            assert(rts0[stack_len - 1 - j] == tv(stack_type@[stack_len - 1 - j]));
        }
        match type_size(&stack_type[stack_len - 1 - j]) {
            None => {
                proof {
                    lemma_stack_prefix_mono(rts0, j as int + 1, i as int);
                }
                return Err(Error::SizeOverflow(pos, op));
            },
            Some(s) => {
                if s > usize::MAX - offset {
                    proof {
                        lemma_stack_prefix_mono(rts0, j as int + 1, i as int);
                    }
                    return Err(Error::SizeOverflow(pos, op));
                }
                offset = offset + s;
            },
        }
        j = j + 1;
    }
    let t = stack_type[stack_len - 1 - i2].duplicate();
    match type_size(&t) {
        None => {
            proof {
                assert(rts0[stack_len - 1 - i2] == tv(stack_type@[stack_len - 1 - i2]));
            }
            Err(Error::SizeOverflow(pos, op))
        },
        Some(size) => {
            proof {
                assert(rts0[stack_len - 1 - i2] == tv(stack_type@[stack_len - 1 - i2]));
            }
            stack_type.push(t);
            verified_ops.push(OpCode2::Get(offset, size));
            proof {
                assert(tvs(stack_type@) =~= rts0.push(rts0[stack_len - 1 - i2]));
            }
            Ok(())
        },
    }
}

/// Interpret the `init` opcode: pop a value and a tuple, direct or behind
/// a pointer, check that component `i` is yet uninitialized and of the
/// value's type, and push the tuple with the component marked written.
fn handle_init(
    i: u8,
    pos: u32,
    op: OpCode1,
    stack_type: &mut Vec<Type>,
    rgn_vars: &Vec<Region>,
    verified_ops: &mut Vec<OpCode2>,
) -> (r: Result<(), Error>)
    requires
        op == OpCode1::Init(i),
    ensures
        ({
            let st0 = BodyState {
                core: cts_core(Seq::empty()),
                rts: tvs(old(stack_type)@),
                rgns: rgn_vars@,
                emitted: old(verified_ops)@,
            };
            let res = spec_init(st0, i, pos, op);
            match r {
                Ok(u) => res matches Ok(st2) && tvs(final(stack_type)@) == st2.rts
                    && final(verified_ops)@ == st2.emitted,
                Err(e) => res == Err::<BodyState, ErrorV>(e@),
            }
        }),
{
    let ghost rts0 = tvs(stack_type@);
    let mb_val = stack_type.pop();
    let mb_tpl = stack_type.pop();
    proof {
        if rts0.len() >= 2 {
            assert(tvs(stack_type@) =~= rts0.drop_last().drop_last());
        }
    }
    match mb_tpl {
        None => Err(Error::TypeErrorEmptyStack(pos, op)),
        Some(Type::Tuple(ts)) => {
            let ghost fs = tvf(ts@);
            let i2 = i as usize;
            if i2 >= ts.len() {
                return Err(Error::TypeErrorInitOutOfRange(pos, i, ts.len()));
            }
            if ts[i2].0 {
                return Err(Error::TypeErrorDoubleInit(pos, op, i));
            }
            let actual = match mb_val {
                Some(v) => v,
                None => {
                    proof {
                        assert(false);
                    }
                    return Err(Error::TypeErrorEmptyStack(pos, op));
                },
            };
            if !type_eq(&ts[i2].1, &actual) {
                return Err(Error::TypeErrorInitTypeMismatch(pos, ts[i2].1.duplicate(), actual));
            }
            let total = match fields_size(&ts) {
                Some(s) => s,
                None => {
                    return Err(Error::SizeOverflow(pos, op));
                },
            };
            let asz = match type_size(&actual) {
                Some(s) => s,
                None => {
                    return Err(Error::SizeOverflow(pos, op));
                },
            };
            let offset = match fields_offset(&ts, i2) {
                Some(s) => s,
                None => {
                    proof {
                        lemma_sum_sizes_prefix_mono(fs, i as int, fs.len() as int);
                        lemma_sum_sizes_is_prefix(fs);
                        assert(false);
                    }
                    return Err(Error::SizeOverflow(pos, op));
                },
            };
            let ghost av = tv(actual);
            let ts2 = update_field(ts, i2, actual);
            let ghost fs2 = tvf(ts2@);
            stack_type.push(Type::Tuple(ts2));
            verified_ops.push(OpCode2::Init(offset, asz, total));
            proof {
                assert(tvs(stack_type@) =~= rts0.drop_last().drop_last().push(
                    TypeV::Tuple(fs.update(i as int, (true, av))),
                ));
            }
            Ok(())
        },
        Some(Type::Ptr(bt, rg)) => {
            let ghost btv = tv(*bt);
            proof {
                assert(rts0[rts0.len() - 2] == TypeV::Ptr(Box::new(btv), rg));
            }
            match *bt {
            Type::Tuple(ts) => {
                let ghost fs = tvf(ts@);
                proof {
                    assert(btv == TypeV::Tuple(fs));
                }
                if !rgn_is_live(rgn_vars, rg.id) {
                    return Err(Error::RegionAccessError(pos, op, rg));
                }
                let i2 = i as usize;
                if i2 >= ts.len() {
                    return Err(Error::TypeErrorInitOutOfRange(pos, i, ts.len()));
                }
                if ts[i2].0 {
                    return Err(Error::TypeErrorDoubleInit(pos, op, i));
                }
                let actual = match mb_val {
                    Some(v) => v,
                    None => {
                        proof {
                            assert(false);
                        }
                        return Err(Error::TypeErrorEmptyStack(pos, op));
                    },
                };
                if !type_eq(&ts[i2].1, &actual) {
                    return Err(
                        Error::TypeErrorInitTypeMismatch(pos, ts[i2].1.duplicate(), actual),
                    );
                }
                let offset = match fields_offset(&ts, i2) {
                    Some(s) => s,
                    None => {
                        return Err(Error::SizeOverflow(pos, op));
                    },
                };
                let asz = match type_size(&actual) {
                    Some(s) => s,
                    None => {
                        return Err(Error::SizeOverflow(pos, op));
                    },
                };
                let ghost av = tv(actual);
                let ts2 = update_field(ts, i2, actual);
                let newt = Type::Tuple(ts2);
                let ghost newtv = tv(newt);
                proof {
                    assert(newtv == TypeV::Tuple(fs.update(i as int, (true, av))));
                }
                stack_type.push(Type::Ptr(Box::new(newt), rg));
                verified_ops.push(OpCode2::InitIP(offset, asz));
                proof {
                    assert(tvs(stack_type@) =~= rts0.drop_last().drop_last().push(
                        TypeV::Ptr(Box::new(newtv), rg),
                    ));
                }
                Ok(())
            },
            t2 => Err(Error::TypeErrorTupleExpected(pos, op, t2)),
        }},
        Some(t2) => Err(Error::TypeErrorTupleExpected(pos, op, t2)),
    }
}

/// Interpret the `malloc` opcode: allocate the tuple type on top of the
/// compile-time stack, in a region (consuming the matching handle from
/// the run-time stack) or on the stack, all components uninitialized.
fn handle_malloc(
    pos: u32,
    op: OpCode1,
    compile_time_stack: &mut Vec<CTStackVal>,
    stack_type: &mut Vec<Type>,
    rgn_vars: &Vec<Region>,
    verified_ops: &mut Vec<OpCode2>,
) -> (r: Result<(), Error>)
    requires
        op == OpCode1::Malloc,
    ensures
        ({
            let st0 = BodyState {
                core: cts_core(cvs(old(compile_time_stack)@)),
                rts: tvs(old(stack_type)@),
                rgns: rgn_vars@,
                emitted: old(verified_ops)@,
            };
            let res = spec_malloc(st0, pos, op);
            match r {
                Ok(u) => res matches Ok(st2) && cvs(final(compile_time_stack)@) == st2.core.cts
                    && tvs(final(stack_type)@) == st2.rts && final(verified_ops)@ == st2.emitted,
                Err(e) => res == Err::<BodyState, ErrorV>(e@),
            }
        }),
{
    let ghost cts0 = cvs(compile_time_stack@);
    let ghost rts0 = tvs(stack_type@);
    match compile_time_stack.pop() {
        None => Err(Error::TypeErrorEmptyCTStack(pos, op)),
        Some(CTStackVal::Type(t)) => {
            proof {
                assert(cvs(compile_time_stack@) =~= cts0.drop_last());
            }
            match t {
                Type::Ptr(bt, rg) => {
                    let ghost btv = tv(*bt);
                    proof {
                        assert(cts0.last() == CTValV::Type(TypeV::Ptr(Box::new(btv), rg)));
                    }
                    match stack_type.pop() {
                    None => Err(Error::TypeErrorEmptyStack(pos, op)),
                    Some(Type::Handle(r2)) => {
                        proof {
                            assert(tvs(stack_type@) =~= rts0.drop_last());
                        }
                        if rg.id != r2.id {
                            return Err(Error::RegionError(pos, op, rg, r2));
                        }
                        if !rgn_is_live(rgn_vars, rg.id) {
                            return Err(Error::RegionAccessError(pos, op, rg));
                        }
                        let size = match type_size(&bt) {
                            Some(s) => s,
                            None => {
                                return Err(Error::SizeOverflow(pos, op));
                            },
                        };
                        match *bt {
                            Type::Tuple(ts) => {
                                let ghost fs = tvf(ts@);
                                proof {
                                    assert(btv == TypeV::Tuple(fs));
                                }
                                let ts2 = clear_fields(&ts);
                                let newt = Type::Tuple(ts2);
                                let ghost newtv = tv(newt);
                                proof {
                                    assert(newtv == TypeV::Tuple(clear_flags(fs)));
                                }
                                stack_type.push(Type::Ptr(Box::new(newt), rg));
                                verified_ops.push(OpCode2::Malloc(size));
                                proof {
                                    assert(tvs(stack_type@) =~= rts0.drop_last().push(
                                        TypeV::Ptr(Box::new(newtv), rg),
                                    ));
                                }
                                Ok(())
                            },
                            t2 => Err(Error::TypeErrorMallocNonTuple(pos, op, t2)),
                        }
                    },
                    Some(t2) => Err(Error::TypeErrorRegionHandleExpected(pos, op, t2)),
                }},
                Type::Tuple(ts) => {
                    let ghost fs = tvf(ts@);
                    let ts2 = clear_fields(&ts);
                    proof {
                        assert(clear_flags(fs).len() == fs.len());
                        assert forall|k: int| 0 <= k < fs.len() implies clear_flags(fs)[k].1
                            == fs[k].1 by {}
                        lemma_sum_sizes_components(clear_flags(fs), fs);
                    }
                    let size = match fields_size(&ts2) {
                        Some(s) => s,
                        None => {
                            return Err(Error::SizeOverflow(pos, op));
                        },
                    };
                    stack_type.push(Type::Tuple(ts2));
                    verified_ops.push(OpCode2::Alloca(size));
                    proof {
                        assert(tvs(stack_type@) =~= rts0.push(TypeV::Tuple(clear_flags(fs))));
                    }
                    Ok(())
                },
                t2 => Err(Error::KindError(pos, op, Kind::Type, CTStackVal::Type(t2))),
            }
        },
        Some(ctval) => Err(Error::KindError(pos, op, Kind::Type, ctval)),
    }
}

/// Interpret the `proj` opcode: pop a tuple, direct or behind a pointer,
/// require component `i` initialized, and push its type.
fn handle_proj(
    i: u8,
    pos: u32,
    op: OpCode1,
    stack_type: &mut Vec<Type>,
    rgn_vars: &Vec<Region>,
    verified_ops: &mut Vec<OpCode2>,
) -> (r: Result<(), Error>)
    requires
        op == OpCode1::Proj(i),
    ensures
        ({
            let st0 = BodyState {
                core: cts_core(Seq::empty()),
                rts: tvs(old(stack_type)@),
                rgns: rgn_vars@,
                emitted: old(verified_ops)@,
            };
            let res = spec_proj(st0, i, pos, op);
            match r {
                Ok(u) => res matches Ok(st2) && tvs(final(stack_type)@) == st2.rts
                    && final(verified_ops)@ == st2.emitted,
                Err(e) => res == Err::<BodyState, ErrorV>(e@),
            }
        }),
{
    let ghost rts0 = tvs(stack_type@);
    match stack_type.pop() {
        None => Err(Error::TypeErrorEmptyStack(pos, op)),
        Some(Type::Tuple(ts)) => {
            proof {
                assert(tvs(stack_type@) =~= rts0.drop_last());
            }
            let ghost fs = tvf(ts@);
            let total = match fields_size(&ts) {
                Some(s) => s,
                None => {
                    return Err(Error::SizeOverflow(pos, op));
                },
            };
            let i2 = i as usize;
            if i2 >= ts.len() {
                return Err(Error::TypeErrorProjOutOfRange(pos, i, ts.len()));
            }
            if !ts[i2].0 {
                return Err(Error::TypeErrorUninitializedRead(pos, op, i));
            }
            let offset = match fields_offset(&ts, i2) {
                Some(s) => s,
                None => {
                    proof {
                        lemma_sum_sizes_prefix_mono(fs, i as int, fs.len() as int);
                        lemma_sum_sizes_is_prefix(fs);
                        assert(false);
                    }
                    return Err(Error::SizeOverflow(pos, op));
                },
            };
            let t = ts[i2].1.duplicate();
            let size = match type_size(&t) {
                Some(s) => s,
                None => {
                    proof {
                        lemma_component_le_sum(fs, i as int);
                        assert(false);
                    }
                    return Err(Error::SizeOverflow(pos, op));
                },
            };
            stack_type.push(t);
            verified_ops.push(OpCode2::Proj(offset, size, total));
            proof {
                assert(tvs(stack_type@) =~= rts0.drop_last().push(fs[i as int].1));
            }
            Ok(())
        },
        Some(Type::Ptr(bt, rg)) => {
            let ghost btv = tv(*bt);
            proof {
                assert(tvs(stack_type@) =~= rts0.drop_last());
                assert(rts0.last() == TypeV::Ptr(Box::new(btv), rg));
            }
            if !rgn_is_live(rgn_vars, rg.id) {
                return Err(Error::RegionAccessError(pos, op, rg));
            }
            match *bt {
                Type::Tuple(ts) => {
                    let ghost fs = tvf(ts@);
                    proof {
                        assert(btv == TypeV::Tuple(fs));
                    }
                    let total = match fields_size(&ts) {
                        Some(s) => s,
                        None => {
                            return Err(Error::SizeOverflow(pos, op));
                        },
                    };
                    let i2 = i as usize;
                    if i2 >= ts.len() {
                        return Err(Error::TypeErrorProjOutOfRange(pos, i, ts.len()));
                    }
                    if !ts[i2].0 {
                        return Err(Error::TypeErrorUninitializedRead(pos, op, i));
                    }
                    let offset = match fields_offset(&ts, i2) {
                        Some(s) => s,
                        None => {
                            proof {
                                lemma_sum_sizes_prefix_mono(fs, i as int, fs.len() as int);
                                lemma_sum_sizes_is_prefix(fs);
                                assert(false);
                            }
                            return Err(Error::SizeOverflow(pos, op));
                        },
                    };
                    let t = ts[i2].1.duplicate();
                    let size = match type_size(&t) {
                        Some(s) => s,
                        None => {
                            proof {
                                lemma_component_le_sum(fs, i as int);
                                assert(false);
                            }
                            return Err(Error::SizeOverflow(pos, op));
                        },
                    };
                    stack_type.push(t);
                    verified_ops.push(OpCode2::ProjIP(offset, size, total));
                    proof {
                        assert(tvs(stack_type@) =~= rts0.drop_last().push(fs[i as int].1));
                    }
                    Ok(())
                },
                t2 => Err(Error::TypeErrorTupleExpected(pos, op, t2)),
            }
        },
        Some(t2) => Err(Error::TypeErrorTupleExpected(pos, op, t2)),
    }
}

/// Interpret the `app` opcode: instantiate the quantified type on top of
/// the run-time stack with the top compile-time slot.
fn handle_app(
    pos: u32,
    op: OpCode1,
    compile_time_stack: &mut Vec<CTStackVal>,
    stack_type: &mut Vec<Type>,
) -> (r: Result<(), Error>)
    requires
        op == OpCode1::App,
    ensures
        ({
            let st0 = BodyState {
                core: cts_core(cvs(old(compile_time_stack)@)),
                rts: tvs(old(stack_type)@),
                rgns: Seq::empty(),
                emitted: Seq::empty(),
            };
            let res = spec_app(st0, pos, op);
            match r {
                Ok(u) => res matches Ok(st2) && cvs(final(compile_time_stack)@) == st2.core.cts
                    && tvs(final(stack_type)@) == st2.rts,
                Err(e) => res == Err::<BodyState, ErrorV>(e@),
            }
        }),
{
    let ghost cts0 = cvs(compile_time_stack@);
    let ghost rts0 = tvs(stack_type@);
    match compile_time_stack.pop() {
        None => Err(Error::TypeErrorEmptyCTStack(pos, op)),
        Some(CTStackVal::Type(targ)) => {
            proof {
                assert(cvs(compile_time_stack@) =~= cts0.drop_last());
            }
            match stack_type.pop() {
                None => Err(Error::TypeErrorEmptyCTStack(pos, op)),
                Some(Type::Forall(id, s, body)) => {
                    proof {
                        assert(tvs(stack_type@) =~= rts0.drop_last());
                    }
                    let tsz = match type_size(&targ) {
                        Some(x) => x,
                        None => {
                            return Err(Error::SizeOverflow(pos, op));
                        },
                    };
                    if s != tsz {
                        return Err(Error::SizeError(pos, op, s, tsz));
                    }
                    let ghost targv = tv(targ);
                    let sub: Vec<(Id, Type)> = vec![(id, targ)];
                    let empty_r: Vec<(Id, Region)> = Vec::new();
                    let new_t = substitute_t(&*body, &sub, &empty_r);
                    proof {
                        assert(sv(sub@) =~= seq![(id, targv)]);
                        assert(empty_r@ =~= Seq::<(Id, Region)>::empty());
                    }
                    let ghost ntv = tv(new_t);
                    stack_type.push(new_t);
                    proof {
                        assert(tvs(stack_type@) =~= rts0.drop_last().push(ntv));
                    }
                    Ok(())
                },
                Some(t) => Err(Error::TypeErrorForallExpected(pos, op, t)),
            }
        },
        Some(CTStackVal::Region(rarg)) => {
            proof {
                assert(cvs(compile_time_stack@) =~= cts0.drop_last());
            }
            match stack_type.pop() {
                None => Err(Error::TypeErrorEmptyCTStack(pos, op)),
                Some(Type::ForallRegion(rv, body, captured)) => {
                    proof {
                        assert(tvs(stack_type@) =~= rts0.drop_last());
                    }
                    if rv.unique && rgn_is_live(&captured, rarg.id) {
                        return Err(Error::RegionAccessError(pos, op, rarg));
                    }
                    let empty_t: Vec<(Id, Type)> = Vec::new();
                    let sub_r: Vec<(Id, Region)> = vec![(rv.id, rarg)];
                    let new_t = substitute_t(&*body, &empty_t, &sub_r);
                    proof {
                        assert(sv(empty_t@) =~= Seq::<(Id, TypeV)>::empty());
                        assert(sub_r@ =~= seq![(rv.id, rarg)]);
                    }
                    let ghost ntv = tv(new_t);
                    stack_type.push(new_t);
                    proof {
                        assert(tvs(stack_type@) =~= rts0.drop_last().push(ntv));
                    }
                    Ok(())
                },
                Some(t) => Err(Error::TypeErrorForallRegionExpected(pos, op, t)),
            }
        },
        Some(ctval) => Err(Error::KindErrorBadApp(pos, op, ctval)),
    }
}

/// Interpret the `pack` opcode: seal the top run-time value, whose type
/// must equal the existential's body at the hidden witness type, into the
/// existential package.
fn handle_pack(
    pos: u32,
    op: OpCode1,
    compile_time_stack: &mut Vec<CTStackVal>,
    stack_type: &mut Vec<Type>,
) -> (r: Result<(), Error>)
    requires
        op == OpCode1::Pack,
    ensures
        ({
            let st0 = BodyState {
                core: cts_core(cvs(old(compile_time_stack)@)),
                rts: tvs(old(stack_type)@),
                rgns: Seq::empty(),
                emitted: Seq::empty(),
            };
            let res = spec_pack(st0, pos, op);
            match r {
                Ok(u) => res matches Ok(st2) && cvs(final(compile_time_stack)@) == st2.core.cts
                    && tvs(final(stack_type)@) == st2.rts,
                Err(e) => res == Err::<BodyState, ErrorV>(e@),
            }
        }),
{
    let ghost cts0 = cvs(compile_time_stack@);
    let ghost rts0 = tvs(stack_type@);
    match stack_type.pop() {
        None => Err(Error::TypeErrorEmptyStack(pos, op)),
        Some(type_of_hidden) => {
            proof {
                assert(tvs(stack_type@) =~= rts0.drop_last());
            }
            match compile_time_stack.pop() {
                None => Err(Error::TypeErrorEmptyCTStack(pos, op)),
                Some(CTStackVal::Type(hidden_type)) => {
                    proof {
                        assert(cvs(compile_time_stack@) =~= cts0.drop_last());
                    }
                    match compile_time_stack.pop() {
                        None => Err(Error::TypeErrorEmptyCTStack(pos, op)),
                        Some(CTStackVal::Type(Type::Exists(id, size_of_hidden, existential_type))) => {
                            proof {
                                assert(cvs(compile_time_stack@) =~= cts0.drop_last().drop_last());
                            }
                            let ghost hv = tv(hidden_type);
                            let sub: Vec<(Id, Type)> = vec![(id, hidden_type)];
                            let empty_r: Vec<(Id, Region)> = Vec::new();
                            let unpacked = substitute_t(&*existential_type, &sub, &empty_r);
                            proof {
                                assert(sv(sub@) =~= seq![(id, hv)]);
                                assert(empty_r@ =~= Seq::<(Id, Region)>::empty());
                            }
                            if !type_eq(&type_of_hidden, &unpacked) {
                                return Err(Error::TypeError(pos, op, unpacked, type_of_hidden));
                            }
                            let thsz = match type_size(&type_of_hidden) {
                                Some(x) => x,
                                None => {
                                    return Err(Error::SizeOverflow(pos, op));
                                },
                            };
                            if size_of_hidden != thsz {
                                return Err(Error::SizeError(pos, op, size_of_hidden, thsz));
                            }
                            let ghost exv = tv(*existential_type);
                            stack_type.push(Type::Exists(id, size_of_hidden, existential_type));
                            proof {
                                assert(tvs(stack_type@) =~= rts0.drop_last().push(
                                    TypeV::Exists(id, size_of_hidden, Box::new(exv)),
                                ));
                            }
                            Ok(())
                        },
                        Some(CTStackVal::Type(t)) => Err(
                            Error::TypeErrorExistentialExpected(pos, op, t),
                        ),
                        Some(ctval) => Err(Error::KindError(pos, op, Kind::Type, ctval)),
                    }
                },
                Some(ctval) => Err(Error::KindError(pos, op, Kind::Type, ctval)),
            }
        },
    }
}

/// Interpret the `free-region` opcode: pop a handle whose region is live
/// and unique, and remove the region from the live set.
fn handle_free(
    pos: u32,
    op: OpCode1,
    stack_type: &mut Vec<Type>,
    rgn_vars: &mut Vec<Region>,
    verified_ops: &mut Vec<OpCode2>,
) -> (r: Result<(), Error>)
    requires
        op == OpCode1::FreeRgn,
    ensures
        ({
            let st0 = BodyState {
                core: cts_core(Seq::empty()),
                rts: tvs(old(stack_type)@),
                rgns: old(rgn_vars)@,
                emitted: old(verified_ops)@,
            };
            let res = spec_free(st0, pos, op);
            match r {
                Ok(u) => res matches Ok(st2) && tvs(final(stack_type)@) == st2.rts
                    && final(rgn_vars)@ == st2.rgns && final(verified_ops)@ == st2.emitted,
                Err(e) => res == Err::<BodyState, ErrorV>(e@),
            }
        }),
{
    let ghost rts0 = tvs(stack_type@);
    match stack_type.pop() {
        None => Err(Error::TypeErrorEmptyStack(pos, op)),
        Some(Type::Handle(rg)) => {
            proof {
                assert(tvs(stack_type@) =~= rts0.drop_last());
            }
            match find_region(rgn_vars, rg.id) {
                Some(r2) => {
                    if r2.unique {
                        let filtered = remove_region(rgn_vars, rg.id);
                        *rgn_vars = filtered;
                        verified_ops.push(OpCode2::FreeRgn);
                        Ok(())
                    } else {
                        Err(Error::UniquenessError(pos, op, rg))
                    }
                },
                None => Err(Error::RegionAccessError(pos, op, rg)),
            }
        },
        Some(t) => Err(Error::TypeErrorRegionHandleExpected(pos, op, t)),
    }
}

/// Peel quantifiers off a called value's type, instantiating each from
/// the compile-time stack, then pop and check the argument types on the
/// run-time stack against the function type.
#[verifier::rlimit(50)]
#[verifier::loop_isolation(false)]
pub fn handle_call(
    pos: u32,
    t: &Type,
    stack_type: &mut Vec<Type>,
    compile_time_stack: &mut Vec<CTStackVal>,
) -> (r: Result<(), Error>)
    ensures
        ({
            let res = spec_handle_call(
                pos,
                t@,
                tvs(old(stack_type)@),
                cvs(old(compile_time_stack)@),
            );
            match r {
                Ok(u) => res matches Ok(p) && tvs(final(stack_type)@) == p.0
                    && cvs(final(compile_time_stack)@) == p.1,
                Err(e) => res == Err::<(Seq<TypeV>, Seq<CTValV>), ErrorV>(e@) && (!(t@ is Func)
                    && !(t@ is Forall) && !(t@ is ForallRegion) ==> tvs(final(stack_type)@) == tvs(
                    old(stack_type)@,
                ) && cvs(final(compile_time_stack)@) == cvs(old(compile_time_stack)@)),
            }
        }),
{
    let ghost rtsin = tvs(stack_type@);
    let ghost ctsin = cvs(compile_time_stack@);
    let mut cur: Type = t.duplicate();
    loop
        invariant
            spec_handle_call(pos, t@, rtsin, ctsin) == spec_handle_call(
                pos,
                tv(cur),
                tvs(stack_type@),
                cvs(compile_time_stack@),
            ),
            !(t@ is Func) && !(t@ is Forall) && !(t@ is ForallRegion) ==> tvs(stack_type@)
                == rtsin && cvs(compile_time_stack@) == ctsin && tv(cur) == t@,
        decreases compile_time_stack.len(),
    {
        let ghost rts0 = tvs(stack_type@);
        let ghost cts0 = cvs(compile_time_stack@);
        match cur {
            Type::Func(args) => {
                let n = args.len();
                let mut arg_ts_present: Vec<Type> = Vec::new();
                let mut k: usize = 0;
                proof {
                    assert(tvs(arg_ts_present@) =~= Seq::<TypeV>::empty());
                    assert(rts0.subrange(0, rts0.len() as int) =~= rts0);
                }
                while k < n
                    invariant
                        k <= n,
                        n == args@.len(),
                        k <= rts0.len(),
                        tvs(stack_type@) == rts0.subrange(0, rts0.len() - k),
                        arg_ts_present@.len() == k,
                        forall|j: int|
                            0 <= j < k ==> tv(arg_ts_present@[j]) == rts0[rts0.len() - 1 - j],
                    decreases n - k,
                {
                    let ghost prev = tvs(stack_type@);
                    match stack_type.pop() {
                        Some(v) => {
                            let ghost vv = tv(v);
                            proof {
                                assert(vv == prev[prev.len() - 1]);
                                assert(vv == rts0[rts0.len() - 1 - k]);
                                assert(tvs(stack_type@) =~= prev.drop_last());
                                assert(tvs(stack_type@) =~= rts0.subrange(
                                    0,
                                    rts0.len() - (k + 1),
                                ));
                            }
                            arg_ts_present.push(v);
                        },
                        None => {
                            return Err(
                                Error::TypeErrorNotEnoughRuntimeArgs(pos, n, arg_ts_present.len()),
                            );
                        },
                    }
                    k = k + 1;
                }
                let mut types_match = true;
                let mut k2: usize = 0;
                while k2 < n
                    invariant
                        k2 <= n,
                        n == args@.len(),
                        n == arg_ts_present@.len(),
                        types_match == (forall|j: int|
                            0 <= j < k2 ==> type_eq_v(
                                tv(arg_ts_present@[j]),
                                tv(args@[j]),
                            )),
                    decreases n - k2,
                {
                    if !type_eq(&arg_ts_present[k2], &args[k2]) {
                        types_match = false;
                    }
                    k2 = k2 + 1;
                }
                proof {
                    assert(tvs(arg_ts_present@) =~= present_args(rts0, n as int));
                }
                if !types_match {
                    proof {
                        let j0 = choose|j: int|
                            0 <= j < n && !type_eq_v(tv(arg_ts_present@[j]), tv(args@[j]));
                        assert(present_args(rts0, n as int)[j0] == tv(arg_ts_present@[j0]));
                        assert(tvs(args@)[j0] == tv(args@[j0]));
                        assert(!(forall|j: int|
                            0 <= j < tvs(args@).len() ==> type_eq_v(
                                present_args(rts0, n as int)[j],
                                tvs(args@)[j],
                            )));
                    }
                    return Err(
                        Error::TypeErrorCallArgTypesMismatch(
                            pos,
                            dup_types(&args),
                            arg_ts_present,
                        ),
                    );
                }
                proof {
                    assert forall|j: int| 0 <= j < tvs(args@).len() implies type_eq_v(
                        present_args(rts0, n as int)[j],
                        tvs(args@)[j],
                    ) by {
                        assert(present_args(rts0, n as int)[j] == tv(arg_ts_present@[j]));
                        assert(tvs(args@)[j] == tv(args@[j]));
                        assert(type_eq_v(tv(arg_ts_present@[j]), tv(args@[j])));
                    }
                    assert(tvs(stack_type@) =~= rts0.subrange(0, rts0.len() - n));
                }
                return Ok(());
            },
            Type::Forall(id, s, body) => {
                match compile_time_stack.pop() {
                    None => {
                        return Err(Error::TypeErrorEmptyCTStack(pos, OpCode1::Call));
                    },
                    Some(CTStackVal::Type(targ)) => {
                        proof {
                            assert(cvs(compile_time_stack@) =~= cts0.drop_last());
                        }
                        let tsz = match type_size(&targ) {
                            Some(x) => x,
                            None => {
                                return Err(Error::SizeOverflow(pos, OpCode1::Call));
                            },
                        };
                        if tsz != s {
                            return Err(Error::SizeError(pos, OpCode1::Call, s, tsz));
                        }
                        let ghost targv = tv(targ);
                        let sub: Vec<(Id, Type)> = vec![(id, targ)];
                        let empty_r: Vec<(Id, Region)> = Vec::new();
                        let new_t = substitute_t(&*body, &sub, &empty_r);
                        proof {
                            assert(sv(sub@) =~= seq![(id, targv)]);
                            assert(empty_r@ =~= Seq::<(Id, Region)>::empty());
                        }
                        cur = new_t;
                    },
                    Some(ctval) => {
                        return Err(Error::KindError(pos, OpCode1::Call, Kind::Type, ctval));
                    },
                }
            },
            Type::ForallRegion(rv, body, captured) => {
                match compile_time_stack.pop() {
                    None => {
                        return Err(Error::TypeErrorEmptyCTStack(pos, OpCode1::Call));
                    },
                    Some(CTStackVal::Region(rarg)) => {
                        proof {
                            assert(cvs(compile_time_stack@) =~= cts0.drop_last());
                        }
                        if rv.unique && rgn_is_live(&captured, rarg.id) {
                            return Err(Error::RegionAccessError(pos, OpCode1::Call, rarg));
                        }
                        let empty_t: Vec<(Id, Type)> = Vec::new();
                        let sub_r: Vec<(Id, Region)> = vec![(rv.id, rarg)];
                        let new_t = substitute_t(&*body, &empty_t, &sub_r);
                        proof {
                            assert(sv(empty_t@) =~= Seq::<(Id, TypeV)>::empty());
                            assert(sub_r@ =~= seq![(rv.id, rarg)]);
                        }
                        cur = new_t;
                    },
                    Some(ctval) => {
                        return Err(Error::KindError(pos, OpCode1::Call, Kind::Region, ctval));
                    },
                }
            },
            other => {
                return Err(Error::TypeErrorFunctionExpected(pos, OpCode1::Call, other));
            },
        }
    }
}

/// A body state assembled from its parts.
pub open spec fn mk_body(
    cts: Seq<CTValV>,
    quants: Seq<Quantification>,
    fresh: int,
    uniq: bool,
    rts: Seq<TypeV>,
    rgns: Seq<Region>,
    emitted: Seq<OpCode2>,
) -> BodyState {
    BodyState { core: CtCore { cts, quants, fresh, uniq }, rts, rgns, emitted }
}

/// Look the signature table up by label, most recent entry first, and
/// copy the signature found.
#[verifier::loop_isolation(false)]
fn table_lookup(types: &Vec<(Label, Type)>, l: Label) -> (r: Option<Type>)
    ensures
        match r {
            Some(t) => lookup_sig(tbv(types@), l) == Some(t@),
            None => lookup_sig(tbv(types@), l) is None,
        },
{
    let ghost tb = tbv(types@);
    let mut j: usize = types.len();
    proof {
        assert(tb.take(types@.len() as int) =~= tb);
    }
    while j > 0
        invariant
            j <= types@.len(),
            lookup_sig(tb, l) == lookup_sig(tb.take(j as int), l),
        decreases j,
    {
        proof {
            assert(tb.take(j as int).drop_last() =~= tb.take(j as int - 1));
            assert(tb.take(j as int).last() == tb[j as int - 1]);
        }
        if types[j - 1].0 == l {
            return Some(types[j - 1].1.duplicate());
        }
        j = j - 1;
    }
    proof {
        assert(tb.take(0) =~= Seq::<(Label, TypeV)>::empty());
    }
    None
}

/// A copy of a type list in reverse order.
#[verifier::loop_isolation(false)]
fn reverse_types(v: &Vec<Type>) -> (out: Vec<Type>)
    ensures
        tvs(out@) == tvs(v@).reverse(),
{
    let mut out: Vec<Type> = Vec::new();
    let mut k: usize = v.len();
    while k > 0
        invariant
            k <= v@.len(),
            out@.len() == v@.len() - k,
            forall|j: int| 0 <= j < out@.len() ==> tv(out@[j]) == tv(v@[v@.len() - 1 - j]),
        decreases k,
    {
        out.push(v[k - 1].duplicate());
        k = k - 1;
    }
    proof {
        assert(tvs(out@) =~= tvs(v@).reverse());
    }
    out
}

/// Reverse a compile-time stack, so the innermost binder ends on top.
#[verifier::loop_isolation(false)]
fn reverse_cts(v: Vec<CTStackVal>) -> (out: Vec<CTStackVal>)
    ensures
        cvs(out@) == cvs(v@).reverse(),
{
    let ghost v0 = v@;
    let mut inp = v;
    let mut out: Vec<CTStackVal> = Vec::new();
    while inp.len() > 0
        invariant
            out@.len() + inp@.len() == v0.len(),
            inp@ == v0.take(inp@.len() as int),
            forall|j: int| 0 <= j < out@.len() ==> cv(out@[j]) == cv(v0[v0.len() - 1 - j]),
        decreases inp.len(),
    {
        let ghost prev = inp@;
        if let Some(x) = inp.pop() {
            proof {
                assert(inp@ =~= v0.take(inp@.len() as int));
                assert(x == v0[prev.len() - 1]);
            }
            out.push(x);
        }
    }
    proof {
        assert(cvs(out@) =~= cvs(v0).reverse());
    }
    out
}

/// The regions on a compile-time stack, bottom first.
#[verifier::loop_isolation(false)]
fn collect_rgns(v: &Vec<CTStackVal>) -> (out: Vec<Region>)
    ensures
        out@ == rgns_of(cvs(v@)),
{
    let mut out: Vec<Region> = Vec::new();
    let mut k: usize = 0;
    proof {
        assert(cvs(v@).skip(0) =~= cvs(v@));
        assert(out@ + rgns_of(cvs(v@)) =~= rgns_of(cvs(v@)));
    }
    while k < v.len()
        invariant
            k <= v@.len(),
            out@ + rgns_of(cvs(v@).skip(k as int)) == rgns_of(cvs(v@)),
        decreases v.len() - k,
    {
        proof {
            assert(cvs(v@).skip(k as int).drop_first() =~= cvs(v@).skip(k as int + 1));
        }
        match &v[k] {
            CTStackVal::Region(rg) => {
                proof {
                    assert(out@ + (seq![*rg] + rgns_of(cvs(v@).skip(k as int + 1))) =~= out@.push(
                        *rg,
                    ) + rgns_of(cvs(v@).skip(k as int + 1)));
                }
                out.push(*rg);
            },
            _ => {
                proof {
                    assert(out@ + (Seq::<Region>::empty() + rgns_of(cvs(v@).skip(k as int + 1)))
                        =~= out@ + rgns_of(cvs(v@).skip(k as int + 1)));
                }
            },
        }
        k = k + 1;
    }
    proof {
        assert(cvs(v@).skip(v@.len() as int) =~= Seq::<CTValV>::empty());
        assert(out@ + Seq::<Region>::empty() =~= out@);
    }
    out
}

/// Unwind a signature into the seed stacks of the body pass: the
/// quantifier binders for the compile-time stack, and the function type's
/// argument list, reversed, for the run-time stack.
pub fn setup_verifier(t: &Type, label: Label) -> (r: Result<(Vec<CTStackVal>, Vec<Type>), Error>)
    ensures
        ({
            match r {
                Ok(p) => spec_setup(t@) matches Ok(q) && cvs(p.0@) == q.0 && tvs(p.1@) == q.1,
                Err(e) => spec_setup(t@) is Err && e@ == ErrorV::TypeErrorBadSignature(label),
            }
        }),
    decreases t,
{
    match t {
        Type::Forall(id, s, b) => match setup_verifier(&**b, label) {
            Ok((cts, params)) => {
                let mut cts = cts;
                let ghost base = cvs(cts@);
                cts.push(CTStackVal::Type(Type::Var(*id, *s)));
                proof {
                    assert(cvs(cts@) =~= base.push(CTValV::Type(TypeV::Var(*id, *s))));
                }
                Ok((cts, params))
            },
            Err(e) => Err(e),
        },
        Type::ForallRegion(rg, b, _caps) => match setup_verifier(&**b, label) {
            Ok((cts, params)) => {
                let mut cts = cts;
                let ghost base = cvs(cts@);
                cts.push(CTStackVal::Region(*rg));
                proof {
                    assert(cvs(cts@) =~= base.push(CTValV::Region(*rg)));
                }
                Ok((cts, params))
            },
            Err(e) => Err(e),
        },
        Type::Func(ts) => {
            let params = reverse_types(ts);
            let cts: Vec<CTStackVal> = Vec::new();
            proof {
                assert(cvs(cts@) =~= Seq::<CTValV>::empty());
            }
            Ok((cts, params))
        },
        _ => Err(Error::TypeErrorBadSignature(label)),
    }
}

/// The body pass of one function: look its signature up, seed the
/// compile-time and run-time stacks from it, interpret every opcode
/// against the symbolic stacks and the live region set, and require every
/// quantifier frame closed at the end. Returns the verified statement
/// with its elaborated opcode stream.
#[verifier::loop_isolation(false)]
pub fn definition_pass(stmt: &Stmt1, types: &Vec<(Label, Type)>, fresh_id: u32) -> (r: Result<
    Stmt2,
    Error,
>)
    requires
        s1_view(*stmt).0 + s1_view(*stmt).1.len() <= u32::MAX,
        fresh_id + s1_view(*stmt).1.len() <= u32::MAX,
    ensures
        ({
            let res = spec_definition_pass(
                s1_view(*stmt).0,
                s1_view(*stmt).1,
                tbv(types@),
                fresh_id as int,
            );
            match r {
                Ok(s2) => res matches Ok(p) && s2_view(s2) == (s1_view(*stmt).0, p.0, p.1),
                Err(e) => res == Err::<(TypeV, Seq<OpCode2>), ErrorV>(e@),
            }
        }),
{
    let Stmt1::Func(label, ops) = stmt;
    let my_type = match table_lookup(types, *label) {
        Some(t) => t,
        None => {
            return Err(Error::TypeErrorMissingSignature(*label));
        },
    };
    let (cts_raw, stack_type) = match setup_verifier(&my_type, *label) {
        Ok(p) => p,
        Err(e) => {
            return Err(e);
        },
    };
    let mut stack_type = stack_type;
    let mut compile_time_stack = reverse_cts(cts_raw);
    let mut quantification_stack: Vec<Quantification> = Vec::new();
    let mut verified_ops: Vec<OpCode2> = Vec::new();
    let mut rgn_vars: Vec<Region> = collect_rgns(&compile_time_stack);
    let mut pos: u32 = *label;
    let mut fresh: u32 = fresh_id;
    let mut next_region_is_unique: bool = false;
    let ghost tb = tbv(types@);
    let ghost st0 = mk_body(
        cvs(compile_time_stack@),
        Seq::empty(),
        fresh_id as int,
        false,
        tvs(stack_type@),
        rgn_vars@,
        Seq::empty(),
    );
    proof {
        assert(quantification_stack@ =~= Seq::<Quantification>::empty());
        assert(verified_ops@ =~= Seq::<OpCode2>::empty());
    }
    let mut i: usize = 0;
    while i < ops.len()
        invariant
            i <= ops.len(),
            pos as int == *label + i,
            fresh_id <= fresh,
            fresh as int <= fresh_id + i,
            body_run(ops@, 0, st0, *label, tb) == body_run(
                ops@,
                i as int,
                mk_body(
                    cvs(compile_time_stack@),
                    quantification_stack@,
                    fresh as int,
                    next_region_is_unique,
                    tvs(stack_type@),
                    rgn_vars@,
                    verified_ops@,
                ),
                *label,
                tb,
            ),
        decreases ops.len() - i,
    {
        let ghost cur = mk_body(
            cvs(compile_time_stack@),
            quantification_stack@,
            fresh as int,
            next_region_is_unique,
            tvs(stack_type@),
            rgn_vars@,
            verified_ops@,
        );
        proof {
            assert(pos_at(*label, i as int) == pos);
        }
        let op = ops[i];
        match op {
            OpCode1::Unique => {
                next_region_is_unique = true;
            },
            OpCode1::Handle => match handle_handle(pos, op, &mut compile_time_stack) {
                Ok(u) => {},
                Err(e) => {
                    proof {
                        assert(body_step(cur, op, pos, *label, tb) == Err::<BodyState, ErrorV>(
                            e@,
                        ));
                    }
                    return Err(e);
                },
            },
            OpCode1::I32 => {
                let ghost base = cvs(compile_time_stack@);
                compile_time_stack.push(CTStackVal::Type(Type::I32));
                proof {
                    assert(cvs(compile_time_stack@) =~= base.push(CTValV::Type(TypeV::I32)));
                }
            },
            OpCode1::Tuple(n) => match handle_tuple(n, pos, op, &mut compile_time_stack) {
                Ok(u) => {},
                Err(e) => {
                    proof {
                        assert(body_step(cur, op, pos, *label, tb) == Err::<BodyState, ErrorV>(
                            e@,
                        ));
                    }
                    return Err(e);
                },
            },
            OpCode1::Exist => match handle_some(
                pos,
                op,
                &mut compile_time_stack,
                &mut fresh,
                *label,
                &mut quantification_stack,
            ) {
                Ok(u) => {},
                Err(e) => {
                    proof {
                        assert(body_step(cur, op, pos, *label, tb) == Err::<BodyState, ErrorV>(
                            e@,
                        ));
                    }
                    return Err(e);
                },
            },
            OpCode1::All => match handle_all(
                pos,
                op,
                &mut compile_time_stack,
                &mut fresh,
                *label,
                &mut quantification_stack,
            ) {
                Ok(u) => {},
                Err(e) => {
                    proof {
                        assert(body_step(cur, op, pos, *label, tb) == Err::<BodyState, ErrorV>(
                            e@,
                        ));
                    }
                    return Err(e);
                },
            },
            OpCode1::Rgn => match handle_rgn(
                &mut next_region_is_unique,
                *label,
                &mut fresh,
                &mut compile_time_stack,
                &mut quantification_stack,
            ) {
                Ok(u) => {},
                Err(e) => {
                    return Err(e);
                },
            },
            OpCode1::End => match handle_end(
                pos,
                op,
                &mut compile_time_stack,
                &mut quantification_stack,
            ) {
                Ok(u) => {},
                Err(e) => {
                    proof {
                        assert(body_step(cur, op, pos, *label, tb) == Err::<BodyState, ErrorV>(
                            e@,
                        ));
                    }
                    return Err(e);
                },
            },
            OpCode1::Func(n) => match handle_func(n, pos, op, &mut compile_time_stack) {
                Ok(u) => {},
                Err(e) => {
                    proof {
                        assert(body_step(cur, op, pos, *label, tb) == Err::<BodyState, ErrorV>(
                            e@,
                        ));
                    }
                    return Err(e);
                },
            },
            OpCode1::CTGet(idx) => match handle_ctget(pos, idx, &mut compile_time_stack) {
                Ok(u) => {},
                Err(e) => {
                    proof {
                        assert(body_step(cur, op, pos, *label, tb) == Err::<BodyState, ErrorV>(
                            e@,
                        ));
                    }
                    return Err(e);
                },
            },
            OpCode1::Size(s) => {
                let ghost base = cvs(compile_time_stack@);
                compile_time_stack.push(CTStackVal::Size(s as usize));
                proof {
                    assert(cvs(compile_time_stack@) =~= base.push(CTValV::Size(s as usize)));
                }
            },
            OpCode1::Ptr => match handle_ptr(pos, op, &mut compile_time_stack) {
                Ok(u) => {},
                Err(e) => {
                    proof {
                        assert(body_step(cur, op, pos, *label, tb) == Err::<BodyState, ErrorV>(
                            e@,
                        ));
                    }
                    return Err(e);
                },
            },
            OpCode1::App => match handle_app(pos, op, &mut compile_time_stack, &mut stack_type) {
                Ok(u) => {},
                Err(e) => {
                    proof {
                        assert(body_step(cur, op, pos, *label, tb) == Err::<BodyState, ErrorV>(
                            e@,
                        ));
                    }
                    return Err(e);
                },
            },
            OpCode1::Unpack => {
                let ghost base = cvs(compile_time_stack@);
                match compile_time_stack.pop() {
                    Some(CTStackVal::Type(t)) => match t {
                        Type::Exists(_id, _s, b) => {
                            let ghost bv = tv(*b);
                            proof {
                                assert(base.last() == CTValV::Type(
                                    TypeV::Exists(_id, _s, Box::new(bv)),
                                ));
                            }
                            compile_time_stack.push(CTStackVal::Type(*b));
                            proof {
                                assert(cvs(compile_time_stack@) =~= base.drop_last().push(
                                    CTValV::Type(bv),
                                ));
                            }
                        },
                        t2 => {
                            return Err(Error::TypeErrorExistentialExpected(pos, op, t2));
                        },
                    },
                    Some(ctval) => {
                        return Err(Error::KindError(pos, op, Kind::Type, ctval));
                    },
                    None => {
                        return Err(Error::TypeErrorEmptyCTStack(pos, op));
                    },
                }
            },
            OpCode1::Get(idx) => match handle_get(
                idx,
                pos,
                op,
                &mut stack_type,
                &mut verified_ops,
            ) {
                Ok(u) => {},
                Err(e) => {
                    proof {
                        assert(body_step(cur, op, pos, *label, tb) == Err::<BodyState, ErrorV>(
                            e@,
                        ));
                    }
                    return Err(e);
                },
            },
            OpCode1::Init(idx) => match handle_init(
                idx,
                pos,
                op,
                &mut stack_type,
                &rgn_vars,
                &mut verified_ops,
            ) {
                Ok(u) => {},
                Err(e) => {
                    proof {
                        assert(body_step(cur, op, pos, *label, tb) == Err::<BodyState, ErrorV>(
                            e@,
                        ));
                    }
                    return Err(e);
                },
            },
            OpCode1::Malloc => match handle_malloc(
                pos,
                op,
                &mut compile_time_stack,
                &mut stack_type,
                &rgn_vars,
                &mut verified_ops,
            ) {
                Ok(u) => {},
                Err(e) => {
                    proof {
                        assert(body_step(cur, op, pos, *label, tb) == Err::<BodyState, ErrorV>(
                            e@,
                        ));
                    }
                    return Err(e);
                },
            },
            OpCode1::Proj(idx) => match handle_proj(
                idx,
                pos,
                op,
                &mut stack_type,
                &rgn_vars,
                &mut verified_ops,
            ) {
                Ok(u) => {},
                Err(e) => {
                    proof {
                        assert(body_step(cur, op, pos, *label, tb) == Err::<BodyState, ErrorV>(
                            e@,
                        ));
                    }
                    return Err(e);
                },
            },
            OpCode1::Call => {
                let ghost rtsb = tvs(stack_type@);
                match stack_type.pop() {
                    None => {
                        return Err(Error::TypeErrorEmptyStack(pos, op));
                    },
                    Some(t) => {
                        proof {
                            assert(tvs(stack_type@) =~= rtsb.drop_last());
                            assert(rtsb.last() == tv(t));
                        }
                        match handle_call(pos, &t, &mut stack_type, &mut compile_time_stack) {
                            Ok(u) => {
                                verified_ops.push(OpCode2::Call);
                            },
                            Err(e) => {
                                proof {
                                    assert(body_step(cur, op, pos, *label, tb) == Err::<
                                        BodyState,
                                        ErrorV,
                                    >(e@));
                                }
                                return Err(e);
                            },
                        }
                    },
                }
            },
            OpCode1::Print => {
                let ghost rtsb = tvs(stack_type@);
                match stack_type.pop() {
                    Some(Type::I32) => {
                        proof {
                            assert(tvs(stack_type@) =~= rtsb.drop_last());
                        }
                        verified_ops.push(OpCode2::Print);
                    },
                    Some(t) => {
                        return Err(Error::TypeError(pos, op, Type::I32, t));
                    },
                    None => {
                        return Err(Error::TypeErrorEmptyStack(pos, op));
                    },
                }
            },
            OpCode1::Lit(lit) => {
                let ghost rtsb = tvs(stack_type@);
                stack_type.push(Type::I32);
                verified_ops.push(OpCode2::Lit(lit));
                proof {
                    assert(tvs(stack_type@) =~= rtsb.push(TypeV::I32));
                }
            },
            OpCode1::GlobalFunc(l) => match table_lookup(types, l) {
                Some(t) => {
                    let ghost rtsb = tvs(stack_type@);
                    let ghost tvv = tv(t);
                    stack_type.push(t);
                    verified_ops.push(OpCode2::GlobalFunc(l));
                    proof {
                        assert(tvs(stack_type@) =~= rtsb.push(tvv));
                    }
                },
                None => {
                    return Err(Error::TypeErrorMissingSignature(l));
                },
            },
            OpCode1::Halt => {
                let ghost rtsb = tvs(stack_type@);
                match stack_type.pop() {
                    Some(Type::I32) => {
                        proof {
                            assert(tvs(stack_type@) =~= rtsb.drop_last());
                        }
                        verified_ops.push(OpCode2::Halt);
                    },
                    Some(t) => {
                        return Err(Error::TypeError(pos, op, Type::I32, t));
                    },
                    None => {
                        return Err(Error::TypeErrorEmptyStack(pos, op));
                    },
                }
            },
            OpCode1::Pack => match handle_pack(pos, op, &mut compile_time_stack, &mut stack_type) {
                Ok(u) => {},
                Err(e) => {
                    proof {
                        assert(body_step(cur, op, pos, *label, tb) == Err::<BodyState, ErrorV>(
                            e@,
                        ));
                    }
                    return Err(e);
                },
            },
            OpCode1::NewRgn => {
                let ghost ctsb = cvs(compile_time_stack@);
                let ghost rtsb = tvs(stack_type@);
                let id = Id(*label, fresh);
                fresh = fresh + 1;
                let rg = Region { unique: true, id: id };
                rgn_vars.push(rg);
                stack_type.push(Type::Handle(rg));
                compile_time_stack.push(CTStackVal::Region(rg));
                verified_ops.push(OpCode2::NewRgn);
                proof {
                    assert(cvs(compile_time_stack@) =~= ctsb.push(CTValV::Region(rg)));
                    assert(tvs(stack_type@) =~= rtsb.push(TypeV::Handle(rg)));
                }
            },
            OpCode1::FreeRgn => match handle_free(
                pos,
                op,
                &mut stack_type,
                &mut rgn_vars,
                &mut verified_ops,
            ) {
                Ok(u) => {},
                Err(e) => {
                    proof {
                        assert(body_step(cur, op, pos, *label, tb) == Err::<BodyState, ErrorV>(
                            e@,
                        ));
                    }
                    return Err(e);
                },
            },
            OpCode1::Deref => {
                let ghost rtsb = tvs(stack_type@);
                match stack_type.pop() {
                    Some(Type::Ptr(b, rg)) => {
                        let ghost bv = tv(*b);
                        proof {
                            assert(tvs(stack_type@) =~= rtsb.drop_last());
                            assert(rtsb.last() == TypeV::Ptr(Box::new(bv), rg));
                        }
                        if !rgn_is_live(&rgn_vars, rg.id) {
                            return Err(Error::RegionAccessError(pos, op, rg));
                        }
                        let s = match type_size(&*b) {
                            Some(x) => x,
                            None => {
                                return Err(Error::SizeOverflow(pos, op));
                            },
                        };
                        stack_type.push(*b);
                        verified_ops.push(OpCode2::Deref(s));
                        proof {
                            assert(tvs(stack_type@) =~= rtsb.drop_last().push(bv));
                        }
                    },
                    Some(t) => {
                        return Err(Error::TypeErrorPtrExpected(pos, op, t));
                    },
                    None => {
                        return Err(Error::TypeErrorEmptyStack(pos, op));
                    },
                }
            },
            OpCode1::Lced => {
                return Err(Error::SyntaxErrorUnexpectedOp(pos, op));
            },
        }
        proof {
            let newcur = mk_body(
                cvs(compile_time_stack@),
                quantification_stack@,
                fresh as int,
                next_region_is_unique,
                tvs(stack_type@),
                rgn_vars@,
                verified_ops@,
            );
            assert(body_step(cur, op, pos, *label, tb) == Ok::<BodyState, ErrorV>(newcur));
            assert(body_run(ops@, i as int, cur, *label, tb) == body_run(
                ops@,
                i + 1,
                newcur,
                *label,
                tb,
            ));
        }
        i = i + 1;
        pos = pos + 1;
    }
    if quantification_stack.len() > 0 {
        return Err(Error::TypeErrorNonEmptyQuantificationStack(*label));
    }
    Ok(Stmt2::Func(*label, my_type, verified_ops))
}

/// Elementwise view of the fresh-counter table.
pub open spec fn ctv(s: Seq<(Label, u32)>) -> Seq<(Label, int)> {
    Seq::new(s.len(), |i: int| (s[i].0, s[i].1 as int))
}

/// A looked-up fresh counter is zero or one of the table's entries.
proof fn lemma_lookup_ctr_entry(cs: Seq<(Label, int)>, l: Label)
    ensures
        lookup_ctr(cs, l) == 0 || exists|k: int|
            0 <= k < cs.len() && cs[k].0 == l && cs[k].1 == lookup_ctr(cs, l),
    decreases cs.len(),
{
    if cs.len() > 0 {
        if cs.last().0 == l {
            assert(cs[cs.len() - 1].0 == l && cs[cs.len() - 1].1 == lookup_ctr(cs, l));
        } else {
            lemma_lookup_ctr_entry(cs.drop_last(), l);
            if lookup_ctr(cs, l) != 0 {
                let k = choose|k: int|
                    0 <= k < cs.drop_last().len() && cs.drop_last()[k].0 == l
                        && cs.drop_last()[k].1 == lookup_ctr(cs.drop_last(), l);
                assert(cs[k].0 == l && cs[k].1 == lookup_ctr(cs, l));
            }
        }
    }
}

/// Look the fresh-counter table up by label, most recent entry first; a
/// label without an entry starts at zero.
#[verifier::loop_isolation(false)]
fn lookup_counter(ctrs: &Vec<(Label, u32)>, l: Label) -> (r: u32)
    ensures
        r as int == lookup_ctr(ctv(ctrs@), l),
{
    let ghost cs = ctv(ctrs@);
    let mut j: usize = ctrs.len();
    proof {
        assert(cs.take(ctrs@.len() as int) =~= cs);
    }
    while j > 0
        invariant
            j <= ctrs@.len(),
            lookup_ctr(cs, l) == lookup_ctr(cs.take(j as int), l),
        decreases j,
    {
        proof {
            assert(cs.take(j as int).drop_last() =~= cs.take(j as int - 1));
            assert(cs.take(j as int).last() == cs[j as int - 1]);
        }
        if ctrs[j - 1].0 == l {
            return ctrs[j - 1].1;
        }
        j = j - 1;
    }
    proof {
        assert(cs.take(0) =~= Seq::<(Label, int)>::empty());
    }
    0
}

/// Verify a whole program: synthesize the signature of every declaration,
/// verify every statement's body against the signature table, and require
/// the entry function to take no arguments.
#[verifier::loop_isolation(false)]
pub fn go(types_instrs: Vec<ForwardDec>, unverified_stmts: Vec<Stmt1>) -> (r: Result<
    Vec<Stmt2>,
    Error,
>)
    requires
        forall|di: int|
            0 <= di < types_instrs@.len() ==> (#[trigger] fd_view(types_instrs@[di])).0 + fd_view(
                types_instrs@[di],
            ).1.len() <= u32::MAX,
        forall|sj: int|
            0 <= sj < unverified_stmts@.len() ==> (#[trigger] s1_view(unverified_stmts@[sj])).0
                + s1_view(unverified_stmts@[sj]).1.len() <= u32::MAX,
        forall|di: int, sj: int|
            #![trigger fd_view(types_instrs@[di]), s1_view(unverified_stmts@[sj])]
            0 <= di < types_instrs@.len() && 0 <= sj < unverified_stmts@.len() && fd_view(
                types_instrs@[di],
            ).0 == s1_view(unverified_stmts@[sj]).0 ==> fd_view(types_instrs@[di]).1.len()
                + s1_view(unverified_stmts@[sj]).1.len() <= u32::MAX,
    ensures
        ({
            let res = spec_go(fds_view(types_instrs@), s1s_view(unverified_stmts@));
            match r {
                Ok(v) => res matches Ok(out) && s2s_view(v@) == out,
                Err(e) => res == Err::<Seq<(Label, TypeV, Seq<OpCode2>)>, ErrorV>(e@),
            }
        }),
{
    let ghost dv = fds_view(types_instrs@);
    let ghost sview = s1s_view(unverified_stmts@);
    let mut table: Vec<(Label, Type)> = Vec::new();
    let mut ctrs: Vec<(Label, u32)> = Vec::new();
    let mut di: usize = 0;
    proof {
        assert(tbv(table@) =~= Seq::<(Label, TypeV)>::empty());
        assert(ctv(ctrs@) =~= Seq::<(Label, int)>::empty());
    }
    while di < types_instrs.len()
        invariant
            di <= types_instrs@.len(),
            run_decs(dv, 0, Seq::empty(), Seq::empty()) == run_decs(
                dv,
                di as int,
                tbv(table@),
                ctv(ctrs@),
            ),
            ctrs@.len() == table@.len(),
            forall|k: int|
                0 <= k < ctrs@.len() ==> exists|d: int|
                    0 <= d < types_instrs@.len() && (#[trigger] ctrs@[k]).0 == fd_view(
                        types_instrs@[d],
                    ).0 && ctrs@[k].1 <= fd_view(types_instrs@[d]).1.len(),
        decreases types_instrs.len() - di,
    {
        let stmt = &types_instrs[di];
        match type_pass(stmt, 0) {
            Ok((l, t, f)) => {
                let ghost tb_old = tbv(table@);
                let ghost cs_old = ctv(ctrs@);
                let ghost tvt = tv(t);
                table.push((l, t));
                ctrs.push((l, f));
                proof {
                    assert(tbv(table@) =~= tb_old.push((l, tvt)));
                    assert(ctv(ctrs@) =~= cs_old.push((l, f as int)));
                    assert(dv[di as int] == fd_view(types_instrs@[di as int]));
                    assert forall|k: int| 0 <= k < ctrs@.len() implies exists|d: int|
                        0 <= d < types_instrs@.len() && (#[trigger] ctrs@[k]).0 == fd_view(
                            types_instrs@[d],
                        ).0 && ctrs@[k].1 <= fd_view(types_instrs@[d]).1.len() by {
                        if k == ctrs@.len() - 1 {
                            assert(0 <= di < types_instrs@.len() && ctrs@[k].0 == fd_view(
                                types_instrs@[di as int],
                            ).0 && ctrs@[k].1 <= fd_view(types_instrs@[di as int]).1.len());
                        }
                    }
                }
            },
            Err(e) => {
                proof {
                    assert(dv[di as int] == fd_view(types_instrs@[di as int]));
                }
                return Err(e);
            },
        }
        di = di + 1;
    }
    let ghost tbf = tbv(table@);
    let ghost csf = ctv(ctrs@);
    let mut out: Vec<Stmt2> = Vec::new();
    let mut sj: usize = 0;
    proof {
        assert(s2s_view(out@) =~= Seq::<(Label, TypeV, Seq<OpCode2>)>::empty());
    }
    while sj < unverified_stmts.len()
        invariant
            sj <= unverified_stmts@.len(),
            tbf == tbv(table@),
            csf == ctv(ctrs@),
            run_stmts(sview, 0, tbf, csf, Seq::empty()) == run_stmts(
                sview,
                sj as int,
                tbf,
                csf,
                s2s_view(out@),
            ),
            forall|k: int|
                0 <= k < ctrs@.len() ==> exists|d: int|
                    0 <= d < types_instrs@.len() && (#[trigger] ctrs@[k]).0 == fd_view(
                        types_instrs@[d],
                    ).0 && ctrs@[k].1 <= fd_view(types_instrs@[d]).1.len(),
        decreases unverified_stmts.len() - sj,
    {
        let stmt = &unverified_stmts[sj];
        let l = match stmt {
            Stmt1::Func(l0, _ops) => *l0,
        };
        let c = lookup_counter(&ctrs, l);
        proof {
            assert(sview[sj as int] == s1_view(unverified_stmts@[sj as int]));
            assert(l == s1_view(unverified_stmts@[sj as int]).0);
            lemma_lookup_ctr_entry(csf, l);
            if lookup_ctr(csf, l) != 0 {
                let k = choose|k: int|
                    0 <= k < csf.len() && csf[k].0 == l && csf[k].1 == lookup_ctr(csf, l);
                assert(csf[k] == (ctrs@[k].0, ctrs@[k].1 as int));
                let d = choose|d: int|
                    0 <= d < types_instrs@.len() && ctrs@[k].0 == fd_view(types_instrs@[d]).0
                        && ctrs@[k].1 <= fd_view(types_instrs@[d]).1.len();
                assert(fd_view(types_instrs@[d]).0 == l);
                assert(fd_view(types_instrs@[d]).1.len() + s1_view(
                    unverified_stmts@[sj as int],
                ).1.len() <= u32::MAX);
            }
            assert(c + s1_view(unverified_stmts@[sj as int]).1.len() <= u32::MAX);
        }
        match definition_pass(stmt, &table, c) {
            Ok(s2) => {
                let ghost o_old = s2s_view(out@);
                let ghost s2v = crate::sem::s2_view(s2);
                out.push(s2);
                proof {
                    assert(s2s_view(out@) =~= o_old.push(s2v));
                }
            },
            Err(e) => {
                return Err(e);
            },
        }
        sj = sj + 1;
    }
    if out.len() > 0 {
        proof {
            assert(s2s_view(out@)[0] == s2_view(out@[0]));
        }
        match &out[0] {
            Stmt2::Func(_l0, t0, _o0) => match t0 {
                Type::Func(params) => {
                    proof {
                        assert(s2_view(out@[0]).1 == TypeV::Func(tvs(params@)));
                    }
                    if params.len() != 0 {
                        return Err(Error::TypeErrorMainHasArgs);
                    }
                },
                _ => {
                    proof {
                        assert(!(s2_view(out@[0]).1 is Func));
                    }
                    return Err(Error::TypeErrorMainHasArgs);
                },
            },
        }
    }
    Ok(out)
}

} // verus!
