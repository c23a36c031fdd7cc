//! End-to-end tests of the two-pass verifier: the concrete programs the
//! design calls for, one input for each failure kind, and checks of the
//! laws on concrete values.

use captal::header::{
    CTStackVal, Error, ForwardDec, Id, Kind, OpCode1, OpCode2, Region, Stmt1, Stmt2, Type,
};
use captal::verify::go;

fn dec(label: u32, ops: Vec<OpCode1>) -> ForwardDec {
    ForwardDec::Func(label, ops)
}

fn stmt(label: u32, ops: Vec<OpCode1>) -> Stmt1 {
    Stmt1::Func(label, ops)
}

fn ops_of(s: &Stmt2) -> &Vec<OpCode2> {
    let Stmt2::Func(_, _, ops) = s;
    ops
}

#[test]
fn identity_i32() {
    let decs = vec![dec(0, vec![OpCode1::Func(0)])];
    let stmts = vec![stmt(0, vec![OpCode1::Func(0), OpCode1::Lit(42), OpCode1::Halt])];
    let out = go(decs, stmts).unwrap();
    assert_eq!(out.len(), 1);
    assert_eq!(ops_of(&out[0]), &vec![OpCode2::Lit(42), OpCode2::Halt]);
    let Stmt2::Func(label, sig, _) = &out[0];
    assert_eq!(*label, 0);
    assert!(matches!(sig, Type::Func(args) if args.is_empty()));
}

#[test]
fn pair_in_unique_region() {
    let decs = vec![dec(0, vec![OpCode1::Func(0)])];
    let stmts = vec![stmt(
        0,
        vec![
            OpCode1::Func(0),
            OpCode1::NewRgn,
            OpCode1::Get(0),
            OpCode1::CTGet(0),
            OpCode1::I32,
            OpCode1::I32,
            OpCode1::Tuple(2),
            OpCode1::Ptr,
            OpCode1::Malloc,
            OpCode1::Lit(1),
            OpCode1::Init(0),
            OpCode1::Lit(2),
            OpCode1::Init(1),
            OpCode1::Proj(0),
            OpCode1::Halt,
            OpCode1::FreeRgn,
        ],
    )];
    let out = go(decs, stmts).unwrap();
    assert_eq!(
        ops_of(&out[0]),
        &vec![
            OpCode2::NewRgn,
            OpCode2::Get(0, 1),
            OpCode2::Malloc(2),
            OpCode2::Lit(1),
            OpCode2::InitIP(0, 1),
            OpCode2::Lit(2),
            OpCode2::InitIP(1, 1),
            OpCode2::ProjIP(0, 1, 2),
            OpCode2::Halt,
            OpCode2::FreeRgn,
        ]
    );
}

#[test]
fn pair_freeing_after_halt_finds_empty_stack() {
    // Without duplicating the handle, `malloc` consumes it and `halt` pops
    // the projected integer, so the final free finds the stack empty.
    let decs = vec![dec(0, vec![OpCode1::Func(0)])];
    let stmts = vec![stmt(
        0,
        vec![
            OpCode1::Func(0),
            OpCode1::NewRgn,
            OpCode1::CTGet(0),
            OpCode1::I32,
            OpCode1::I32,
            OpCode1::Tuple(2),
            OpCode1::Ptr,
            OpCode1::Malloc,
            OpCode1::Lit(1),
            OpCode1::Init(0),
            OpCode1::Lit(2),
            OpCode1::Init(1),
            OpCode1::Proj(0),
            OpCode1::Halt,
            OpCode1::FreeRgn,
        ],
    )];
    let err = go(decs, stmts).unwrap_err();
    assert!(matches!(err, Error::TypeErrorEmptyStack(14, OpCode1::FreeRgn)));
}

#[test]
fn double_init() {
    let decs = vec![dec(0, vec![OpCode1::Func(0)])];
    let stmts = vec![stmt(
        0,
        vec![
            OpCode1::Func(0),
            OpCode1::I32,
            OpCode1::I32,
            OpCode1::Tuple(2),
            OpCode1::Malloc,
            OpCode1::Lit(1),
            OpCode1::Init(0),
            OpCode1::Lit(2),
            OpCode1::Init(0),
        ],
    )];
    let err = go(decs, stmts).unwrap_err();
    assert!(matches!(err, Error::TypeErrorDoubleInit(8, OpCode1::Init(0), 0)));
}

#[test]
fn unpack_repack() {
    // A stack tuple hiding an i32: project the hidden component, then
    // seal the value into an existential package and unpack the package
    // type again.
    let decs = vec![dec(0, vec![OpCode1::Func(0)])];
    let stmts = vec![stmt(
        0,
        vec![
            OpCode1::Func(0),
            OpCode1::I32,
            OpCode1::Tuple(1),
            OpCode1::Malloc,
            OpCode1::Lit(7),
            OpCode1::Init(0),
            OpCode1::Get(0),
            OpCode1::Proj(0),
            OpCode1::Halt,
            OpCode1::Size(1),
            OpCode1::Exist,
            OpCode1::CTGet(0),
            OpCode1::Tuple(1),
            OpCode1::End,
            OpCode1::CTGet(0),
            OpCode1::I32,
            OpCode1::Pack,
            OpCode1::Unpack,
        ],
    )];
    let out = go(decs, stmts).unwrap();
    assert_eq!(
        ops_of(&out[0]),
        &vec![
            OpCode2::Alloca(1),
            OpCode2::Lit(7),
            OpCode2::Init(0, 1, 1),
            OpCode2::Get(0, 1),
            OpCode2::Proj(0, 1, 1),
            OpCode2::Halt,
        ]
    );
}

#[test]
fn wrong_kind_for_handle() {
    let decs = vec![dec(0, vec![OpCode1::I32, OpCode1::Handle])];
    let stmts = vec![];
    let err = go(decs, stmts).unwrap_err();
    assert!(matches!(
        err,
        Error::KindError(1, OpCode1::Handle, Kind::Region, CTStackVal::Type(Type::I32))
    ));
}

#[test]
fn entry_has_args() {
    let decs = vec![dec(0, vec![OpCode1::I32, OpCode1::Func(1)])];
    let stmts = vec![stmt(0, vec![OpCode1::I32, OpCode1::Func(1)])];
    let err = go(decs, stmts).unwrap_err();
    assert!(matches!(err, Error::TypeErrorMainHasArgs));
}

#[test]
fn verification_is_deterministic() {
    let build = || {
        (
            vec![dec(0, vec![OpCode1::Func(0)])],
            vec![stmt(
                0,
                vec![
                    OpCode1::Func(0),
                    OpCode1::NewRgn,
                    OpCode1::Get(0),
                    OpCode1::CTGet(0),
                    OpCode1::I32,
                    OpCode1::Tuple(1),
                    OpCode1::Ptr,
                    OpCode1::Malloc,
                    OpCode1::Lit(3),
                    OpCode1::Init(0),
                    OpCode1::Proj(0),
                    OpCode1::Halt,
                    OpCode1::FreeRgn,
                ],
            )],
        )
    };
    let (d1, s1) = build();
    let (d2, s2) = build();
    let r1 = go(d1, s1);
    let r2 = go(d2, s2);
    assert_eq!(format!("{:?}", r1), format!("{:?}", r2));
}

#[test]
fn call_global_function() {
    let decs = vec![
        dec(0, vec![OpCode1::Func(0)]),
        dec(1, vec![OpCode1::I32, OpCode1::Func(1)]),
    ];
    let stmts = vec![
        stmt(
            0,
            vec![
                OpCode1::Func(0),
                OpCode1::Lit(5),
                OpCode1::GlobalFunc(1),
                OpCode1::Call,
                OpCode1::Lit(0),
                OpCode1::Halt,
            ],
        ),
        stmt(1, vec![OpCode1::I32, OpCode1::Func(1)]),
    ];
    let out = go(decs, stmts).unwrap();
    assert_eq!(out.len(), 2);
    assert_eq!(
        ops_of(&out[0]),
        &vec![
            OpCode2::Lit(5),
            OpCode2::GlobalFunc(1),
            OpCode2::Call,
            OpCode2::Lit(0),
            OpCode2::Halt,
        ]
    );
}

#[test]
fn call_polymorphic_function() {
    // The callee is universally quantified over a one-word type; the
    // caller instantiates it at i32 before the call.
    let decs = vec![
        dec(0, vec![OpCode1::Func(0)]),
        dec(
            1,
            vec![
                OpCode1::Size(1),
                OpCode1::All,
                OpCode1::CTGet(0),
                OpCode1::Func(1),
                OpCode1::End,
            ],
        ),
    ];
    let stmts = vec![
        stmt(
            0,
            vec![
                OpCode1::Func(0),
                OpCode1::Lit(9),
                OpCode1::GlobalFunc(1),
                OpCode1::I32,
                OpCode1::App,
                OpCode1::Call,
            ],
        ),
        stmt(
            1,
            vec![
                OpCode1::Size(1),
                OpCode1::All,
                OpCode1::CTGet(0),
                OpCode1::Func(1),
                OpCode1::End,
            ],
        ),
    ];
    let out = go(decs, stmts).unwrap();
    assert_eq!(
        ops_of(&out[0]),
        &vec![OpCode2::Lit(9), OpCode2::GlobalFunc(1), OpCode2::Call]
    );
}

#[test]
fn app_with_wrong_size() {
    let decs = vec![
        dec(0, vec![OpCode1::Func(0)]),
        dec(
            1,
            vec![
                OpCode1::Size(2),
                OpCode1::All,
                OpCode1::CTGet(0),
                OpCode1::Func(1),
                OpCode1::End,
            ],
        ),
    ];
    let stmts = vec![
        stmt(
            0,
            vec![
                OpCode1::Func(0),
                OpCode1::GlobalFunc(1),
                OpCode1::I32,
                OpCode1::App,
            ],
        ),
        stmt(
            1,
            vec![
                OpCode1::Size(2),
                OpCode1::All,
                OpCode1::CTGet(0),
                OpCode1::Func(1),
                OpCode1::End,
            ],
        ),
    ];
    let err = go(decs, stmts).unwrap_err();
    assert!(matches!(err, Error::SizeError(3, OpCode1::App, 2, 1)));
}

#[test]
fn free_non_unique_region() {
    // The function is quantified over an ordinary region; freeing its
    // handle must fail, since only unique regions can be freed.
    let sig = vec![
        OpCode1::Rgn,
        OpCode1::CTGet(0),
        OpCode1::Handle,
        OpCode1::Func(1),
        OpCode1::End,
    ];
    let mut body = sig.clone();
    body.push(OpCode1::FreeRgn);
    let decs = vec![dec(0, sig)];
    let stmts = vec![stmt(0, body)];
    let err = go(decs, stmts).unwrap_err();
    assert!(matches!(
        err,
        Error::UniquenessError(5, OpCode1::FreeRgn, Region { unique: false, id: Id(0, 0) })
    ));
}

#[test]
fn deref_pointer() {
    let decs = vec![dec(0, vec![OpCode1::Func(0)])];
    let stmts = vec![stmt(
        0,
        vec![
            OpCode1::Func(0),
            OpCode1::NewRgn,
            OpCode1::CTGet(0),
            OpCode1::I32,
            OpCode1::Tuple(1),
            OpCode1::Ptr,
            OpCode1::Malloc,
            OpCode1::Deref,
            OpCode1::Lit(3),
            OpCode1::Init(0),
        ],
    )];
    let out = go(decs, stmts).unwrap();
    assert_eq!(
        ops_of(&out[0]),
        &vec![
            OpCode2::NewRgn,
            OpCode2::Malloc(1),
            OpCode2::Deref(1),
            OpCode2::Lit(3),
            OpCode2::Init(0, 1, 1),
        ]
    );
}

#[test]
fn malloc_with_foreign_handle() {
    let decs = vec![dec(0, vec![OpCode1::Func(0)])];
    let stmts = vec![stmt(
        0,
        vec![
            OpCode1::Func(0),
            OpCode1::NewRgn,
            OpCode1::NewRgn,
            OpCode1::CTGet(1),
            OpCode1::I32,
            OpCode1::Tuple(1),
            OpCode1::Ptr,
            OpCode1::Malloc,
        ],
    )];
    let err = go(decs, stmts).unwrap_err();
    assert!(matches!(
        err,
        Error::RegionError(
            7,
            OpCode1::Malloc,
            Region { unique: true, id: Id(0, 0) },
            Region { unique: true, id: Id(0, 1) },
        )
    ));
}

#[test]
fn malloc_in_freed_region() {
    let decs = vec![dec(0, vec![OpCode1::Func(0)])];
    let stmts = vec![stmt(
        0,
        vec![
            OpCode1::Func(0),
            OpCode1::NewRgn,
            OpCode1::Get(0),
            OpCode1::CTGet(0),
            OpCode1::I32,
            OpCode1::Tuple(1),
            OpCode1::Ptr,
            OpCode1::FreeRgn,
            OpCode1::Malloc,
        ],
    )];
    let err = go(decs, stmts).unwrap_err();
    assert!(matches!(
        err,
        Error::RegionAccessError(8, OpCode1::Malloc, Region { unique: true, id: Id(0, 0) })
    ));
}

#[test]
fn call_without_enough_arguments() {
    let decs = vec![
        dec(0, vec![OpCode1::Func(0)]),
        dec(1, vec![OpCode1::I32, OpCode1::Func(1)]),
    ];
    let stmts = vec![
        stmt(0, vec![OpCode1::Func(0), OpCode1::GlobalFunc(1), OpCode1::Call]),
        stmt(1, vec![OpCode1::I32, OpCode1::Func(1)]),
    ];
    let err = go(decs, stmts).unwrap_err();
    assert!(matches!(err, Error::TypeErrorNotEnoughRuntimeArgs(2, 1, 0)));
}

#[test]
fn call_with_mismatched_argument() {
    let decs = vec![
        dec(0, vec![OpCode1::Func(0)]),
        dec(1, vec![OpCode1::I32, OpCode1::Func(1)]),
    ];
    let stmts = vec![
        stmt(
            0,
            vec![
                OpCode1::Func(0),
                OpCode1::NewRgn,
                OpCode1::GlobalFunc(1),
                OpCode1::Call,
            ],
        ),
        stmt(1, vec![OpCode1::I32, OpCode1::Func(1)]),
    ];
    let err = go(decs, stmts).unwrap_err();
    assert!(matches!(err, Error::TypeErrorCallArgTypesMismatch(3, _, _)));
}

#[test]
fn print_an_integer() {
    let decs = vec![dec(0, vec![OpCode1::Func(0)])];
    let stmts = vec![stmt(0, vec![OpCode1::Func(0), OpCode1::Lit(1), OpCode1::Print])];
    let out = go(decs, stmts).unwrap();
    assert_eq!(ops_of(&out[0]), &vec![OpCode2::Lit(1), OpCode2::Print]);
}

#[test]
fn halt_on_non_integer() {
    let decs = vec![dec(0, vec![OpCode1::Func(0)])];
    let stmts = vec![stmt(0, vec![OpCode1::Func(0), OpCode1::NewRgn, OpCode1::Halt])];
    let err = go(decs, stmts).unwrap_err();
    assert!(matches!(err, Error::TypeError(2, OpCode1::Halt, Type::I32, Type::Handle(_))));
}

#[test]
fn project_uninitialized_component() {
    let decs = vec![dec(0, vec![OpCode1::Func(0)])];
    let stmts = vec![stmt(
        0,
        vec![
            OpCode1::Func(0),
            OpCode1::I32,
            OpCode1::Tuple(1),
            OpCode1::Malloc,
            OpCode1::Proj(0),
        ],
    )];
    let err = go(decs, stmts).unwrap_err();
    assert!(matches!(err, Error::TypeErrorUninitializedRead(4, OpCode1::Proj(0), 0)));
}

#[test]
fn unpack_non_existential() {
    let decs = vec![dec(0, vec![OpCode1::Func(0)])];
    let stmts = vec![stmt(0, vec![OpCode1::Func(0), OpCode1::I32, OpCode1::Unpack])];
    let err = go(decs, stmts).unwrap_err();
    assert!(matches!(err, Error::TypeErrorExistentialExpected(2, OpCode1::Unpack, Type::I32)));
}

#[test]
fn get_out_of_range() {
    let decs = vec![dec(0, vec![OpCode1::Func(0)])];
    let stmts = vec![stmt(0, vec![OpCode1::Func(0), OpCode1::Lit(1), OpCode1::Get(1)])];
    let err = go(decs, stmts).unwrap_err();
    assert!(matches!(err, Error::TypeErrorGetOutOfRange(2, 1, 1)));
}

#[test]
fn ct_get_out_of_range() {
    let decs = vec![dec(0, vec![OpCode1::CTGet(0)])];
    let err = go(decs, vec![]).unwrap_err();
    assert!(matches!(err, Error::TypeErrorCTGetOutOfRange(0, 0, 0)));
}

#[test]
fn empty_signature_is_rejected() {
    let decs = vec![dec(3, vec![])];
    let err = go(decs, vec![]).unwrap_err();
    assert!(matches!(err, Error::TypeErrorBadSignature(3)));
}

#[test]
fn missing_signature() {
    let stmts = vec![stmt(9, vec![OpCode1::Func(0)])];
    let err = go(vec![], stmts).unwrap_err();
    assert!(matches!(err, Error::TypeErrorMissingSignature(9)));
}

#[test]
fn end_without_open_frame() {
    let decs = vec![dec(0, vec![OpCode1::I32, OpCode1::End])];
    let err = go(decs, vec![]).unwrap_err();
    assert!(matches!(err, Error::TypeErrorEmptyQuantificationStack(1, OpCode1::End)));
}

#[test]
fn unclosed_frame_at_function_end() {
    let decs = vec![dec(0, vec![OpCode1::Func(0)])];
    let stmts = vec![stmt(0, vec![OpCode1::Func(0), OpCode1::Size(1), OpCode1::Exist])];
    let err = go(decs, stmts).unwrap_err();
    assert!(matches!(err, Error::TypeErrorNonEmptyQuantificationStack(0)));
}

#[test]
fn body_opcode_in_signature() {
    let decs = vec![dec(0, vec![OpCode1::Lit(1)])];
    let err = go(decs, vec![]).unwrap_err();
    assert!(matches!(err, Error::SyntaxErrorUnexpectedOp(0, OpCode1::Lit(1))));
}

#[test]
fn marker_opcode_in_body() {
    let decs = vec![dec(0, vec![OpCode1::Func(0)])];
    let stmts = vec![stmt(0, vec![OpCode1::Func(0), OpCode1::Lced])];
    let err = go(decs, stmts).unwrap_err();
    assert!(matches!(err, Error::SyntaxErrorUnexpectedOp(1, OpCode1::Lced)));
}

#[test]
fn pack_with_wrong_witness() {
    // The packed value is a one-component tuple, but the existential body
    // expects the variable itself, so packing an i32 witness against a
    // handle-typed value fails the equality check.
    let decs = vec![dec(0, vec![OpCode1::Func(0)])];
    let stmts = vec![stmt(
        0,
        vec![
            OpCode1::Func(0),
            OpCode1::NewRgn,
            OpCode1::Size(1),
            OpCode1::Exist,
            OpCode1::CTGet(0),
            OpCode1::Tuple(1),
            OpCode1::End,
            OpCode1::CTGet(0),
            OpCode1::I32,
            OpCode1::Pack,
        ],
    )];
    let err = go(decs, stmts).unwrap_err();
    assert!(matches!(err, Error::TypeError(9, OpCode1::Pack, _, _)));
}

#[test]
fn get_layout_with_mixed_sizes() {
    // Stack from bottom: a two-word tuple, then a one-word integer.
    // Copying the tuple from one below the top emits offset 1 (the size
    // of the integer above it) and size 2.
    let decs = vec![dec(0, vec![OpCode1::Func(0)])];
    let stmts = vec![stmt(
        0,
        vec![
            OpCode1::Func(0),
            OpCode1::I32,
            OpCode1::I32,
            OpCode1::Tuple(2),
            OpCode1::Malloc,
            OpCode1::Lit(5),
            OpCode1::Get(1),
        ],
    )];
    let out = go(decs, stmts).unwrap();
    assert_eq!(
        ops_of(&out[0]),
        &vec![OpCode2::Alloca(2), OpCode2::Lit(5), OpCode2::Get(1, 2)]
    );
}

#[test]
fn signature_seeds_the_stack() {
    // A function of one integer argument starts body verification with
    // that argument on the symbolic run-time stack, so a bare halt can
    // consume it.
    let decs = vec![
        dec(0, vec![OpCode1::Func(0)]),
        dec(1, vec![OpCode1::I32, OpCode1::Func(1)]),
    ];
    let stmts = vec![
        stmt(0, vec![OpCode1::Func(0)]),
        stmt(1, vec![OpCode1::I32, OpCode1::Func(1), OpCode1::Halt]),
    ];
    let out = go(decs, stmts).unwrap();
    assert_eq!(ops_of(&out[1]), &vec![OpCode2::Halt]);
}

#[test]
fn non_function_signature_is_rejected() {
    // The prefix leaves a single type, but not a function type.
    let decs = vec![dec(0, vec![OpCode1::I32])];
    let err = go(decs, vec![]).unwrap_err();
    assert!(matches!(err, Error::TypeErrorBadSignature(0)));
}

#[test]
fn unclosed_frame_in_signature_is_rejected() {
    // The existential frame stays open, so its variable would escape.
    let decs = vec![dec(0, vec![OpCode1::Size(1), OpCode1::Exist])];
    let err = go(decs, vec![]).unwrap_err();
    assert!(matches!(err, Error::TypeErrorBadSignature(0)));
}

#[test]
fn quantified_entry_signature_is_rejected() {
    // The entry function must have the bare zero-argument function type;
    // a region-quantified signature is not it.
    let sig = vec![
        OpCode1::Rgn,
        OpCode1::CTGet(0),
        OpCode1::Handle,
        OpCode1::Func(1),
        OpCode1::End,
    ];
    let decs = vec![dec(0, sig.clone())];
    let stmts = vec![stmt(0, sig)];
    let err = go(decs, stmts).unwrap_err();
    assert!(matches!(err, Error::TypeErrorMainHasArgs));
}

#[test]
fn signature_with_escaping_variable_is_rejected() {
    // The duplicated binder slot survives its closing opcode and the
    // final function type swallows it as a free variable.
    let decs = vec![dec(
        0,
        vec![
            OpCode1::Size(1),
            OpCode1::All,
            OpCode1::CTGet(0),
            OpCode1::I32,
            OpCode1::Func(1),
            OpCode1::End,
            OpCode1::Func(2),
        ],
    )];
    let err = go(decs, vec![]).unwrap_err();
    assert!(matches!(err, Error::TypeErrorBadSignature(0)));
}
