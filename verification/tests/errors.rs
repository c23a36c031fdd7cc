//! One failing input for each failure kind the verifier can report.

use captal::header::{CTStackVal, Error, ForwardDec, Id, OpCode1, Stmt1, Type};
use captal::verify::go;

fn dec(label: u32, ops: Vec<OpCode1>) -> ForwardDec {
    ForwardDec::Func(label, ops)
}

fn stmt(label: u32, ops: Vec<OpCode1>) -> Stmt1 {
    Stmt1::Func(label, ops)
}

fn run_body(body: Vec<OpCode1>) -> Result<Vec<captal::header::Stmt2>, Error> {
    let mut ops = vec![OpCode1::Func(0)];
    ops.extend(body);
    go(vec![dec(0, vec![OpCode1::Func(0)])], vec![stmt(0, ops)])
}

#[test]
fn app_on_a_size() {
    let err = run_body(vec![OpCode1::Size(1), OpCode1::App]).unwrap_err();
    assert!(matches!(err, Error::KindErrorBadApp(2, OpCode1::App, CTStackVal::Size(1))));
}

#[test]
fn app_type_on_non_forall() {
    let err = run_body(vec![OpCode1::Lit(1), OpCode1::I32, OpCode1::App]).unwrap_err();
    assert!(matches!(err, Error::TypeErrorForallExpected(3, OpCode1::App, Type::I32)));
}

#[test]
fn app_region_on_non_region_quantifier() {
    let err = run_body(vec![OpCode1::Lit(1), OpCode1::NewRgn, OpCode1::App]).unwrap_err();
    assert!(matches!(
        err,
        Error::TypeErrorForallRegionExpected(3, OpCode1::App, Type::Handle(_))
    ));
}

#[test]
fn init_out_of_range() {
    let err = run_body(vec![
        OpCode1::I32,
        OpCode1::Tuple(1),
        OpCode1::Malloc,
        OpCode1::Lit(1),
        OpCode1::Init(5),
    ])
    .unwrap_err();
    assert!(matches!(err, Error::TypeErrorInitOutOfRange(5, 5, 1)));
}

#[test]
fn proj_out_of_range() {
    let err = run_body(vec![
        OpCode1::I32,
        OpCode1::Tuple(1),
        OpCode1::Malloc,
        OpCode1::Lit(1),
        OpCode1::Init(0),
        OpCode1::Proj(3),
    ])
    .unwrap_err();
    assert!(matches!(err, Error::TypeErrorProjOutOfRange(6, 3, 1)));
}

#[test]
fn init_with_mismatched_type() {
    let err = run_body(vec![
        OpCode1::NewRgn,
        OpCode1::CTGet(0),
        OpCode1::Handle,
        OpCode1::Tuple(1),
        OpCode1::Malloc,
        OpCode1::Lit(1),
        OpCode1::Init(0),
    ])
    .unwrap_err();
    assert!(matches!(
        err,
        Error::TypeErrorInitTypeMismatch(7, Type::Handle(_), Type::I32)
    ));
}

#[test]
fn init_on_non_tuple() {
    let err = run_body(vec![OpCode1::Lit(1), OpCode1::Lit(2), OpCode1::Init(0)]).unwrap_err();
    assert!(matches!(err, Error::TypeErrorTupleExpected(3, OpCode1::Init(0), Type::I32)));
}

#[test]
fn malloc_without_a_handle() {
    let err = run_body(vec![
        OpCode1::NewRgn,
        OpCode1::CTGet(0),
        OpCode1::I32,
        OpCode1::Tuple(1),
        OpCode1::Ptr,
        OpCode1::Lit(9),
        OpCode1::Malloc,
    ])
    .unwrap_err();
    assert!(matches!(
        err,
        Error::TypeErrorRegionHandleExpected(7, OpCode1::Malloc, Type::I32)
    ));
}

#[test]
fn malloc_of_non_tuple_pointer() {
    let err = run_body(vec![
        OpCode1::NewRgn,
        OpCode1::CTGet(0),
        OpCode1::I32,
        OpCode1::Ptr,
        OpCode1::Malloc,
    ])
    .unwrap_err();
    assert!(matches!(err, Error::TypeErrorMallocNonTuple(5, OpCode1::Malloc, Type::I32)));
}

#[test]
fn deref_of_non_pointer() {
    let err = run_body(vec![OpCode1::Lit(1), OpCode1::Deref]).unwrap_err();
    assert!(matches!(err, Error::TypeErrorPtrExpected(2, OpCode1::Deref, Type::I32)));
}

#[test]
fn call_of_non_function() {
    let err = run_body(vec![OpCode1::Lit(1), OpCode1::Call]).unwrap_err();
    assert!(matches!(err, Error::TypeErrorFunctionExpected(2, OpCode1::Call, Type::I32)));
}

#[test]
fn end_closing_the_wrong_variable() {
    let decs = vec![dec(
        0,
        vec![OpCode1::Size(1), OpCode1::Exist, OpCode1::Size(1), OpCode1::Exist, OpCode1::End],
    )];
    let err = go(decs, vec![]).unwrap_err();
    assert!(matches!(
        err,
        Error::TypeErrorSpecificTypeVarExpected(4, OpCode1::End, Id(0, 1), Id(0, 0))
    ));
}

#[test]
fn end_over_a_non_variable() {
    let decs = vec![dec(
        0,
        vec![OpCode1::Size(1), OpCode1::Exist, OpCode1::I32, OpCode1::I32, OpCode1::End],
    )];
    let err = go(decs, vec![]).unwrap_err();
    assert!(matches!(
        err,
        Error::TypeErrorTypeVarExpected(4, OpCode1::End, Id(0, 0), Type::I32)
    ));
}

#[test]
fn handle_on_empty_stack() {
    let decs = vec![dec(0, vec![OpCode1::Handle])];
    let err = go(decs, vec![]).unwrap_err();
    assert!(matches!(err, Error::TypeErrorEmptyCTStack(0, OpCode1::Handle)));
}
