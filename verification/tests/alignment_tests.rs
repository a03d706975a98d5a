use ir_core::alignment_substitution::substitute_and_on_stackpointer;
use ir_core::{
    BinOpType, Bitvector, Blk, ByteSize, Def, Expression, Jmp, LogLevel, Program, Sub, Term, Tid,
    Variable,
};

fn variable(name: &str, size: u64) -> Variable {
    Variable { name: name.to_string(), size: ByteSize::new(size), is_temp: false }
}

fn bv(value: i64, width: u64) -> Bitvector {
    Bitvector::from_i64(value).resize_unsigned(ByteSize::new(width))
}

fn sp_binop(tid: &str, sp: &Variable, op: BinOpType, constant: i64, width: u64) -> Term<Def> {
    Term {
        tid: Tid::new(tid),
        term: Def::Assign {
            var: sp.clone(),
            value: Expression::BinOp {
                op,
                lhs: Box::new(Expression::Var(sp.clone())),
                rhs: Box::new(Expression::Const(bv(constant, width))),
            },
        },
    }
}

fn one_block_program(defs: Vec<Term<Def>>) -> Program {
    Program {
        subs: vec![Term {
            tid: Tid::new("sub_1"),
            term: Sub {
                name: "main".to_string(),
                blocks: vec![Term { tid: Tid::new("blk_1"), term: Blk { defs, jmps: vec![] } }],
            },
        }],
        extern_symbols: vec![],
        entry_points: vec![],
    }
}

fn expect_sub_with_const(def: &Term<Def>, sp: &Variable, value: u64, width: u64) {
    match &def.term {
        Def::Assign { var, value: v } => {
            assert_eq!(var, sp);
            match v {
                Expression::BinOp { op, lhs, rhs } => {
                    assert_eq!(*op, BinOpType::IntSub);
                    assert!(matches!(&**lhs, Expression::Var(w) if w == sp));
                    match &**rhs {
                        Expression::Const(c) => {
                            assert_eq!(c.value, value);
                            assert_eq!(c.width.bytes, width);
                        }
                        other => panic!("expected a constant, got {other:?}"),
                    }
                }
                other => panic!("expected a binary operation, got {other:?}"),
            }
        }
        other => panic!("expected an assignment, got {other:?}"),
    }
}

#[test]
fn journals_additions_and_rewrites_the_mask() {
    // [sp := sp + 8; sp := sp - 4; sp := sp AND -16]: the journaled value
    // before the AND is 4, and 4 - (4 AND -16) == 4.
    let sp = variable("RSP", 8);
    let mut program = one_block_program(vec![
        sp_binop("def_1", &sp, BinOpType::IntAdd, 8, 8),
        sp_binop("def_2", &sp, BinOpType::IntSub, 4, 8),
        sp_binop("def_3", &sp, BinOpType::IntAnd, -16, 8),
    ]);
    let logs = substitute_and_on_stackpointer(&mut program, &sp, "x86_64");
    assert!(logs.is_empty());
    let blk = &program.subs[0].term.blocks[0];
    assert_eq!(blk.term.defs.len(), 3);
    // the additions are journaled, not rewritten
    match &blk.term.defs[0].term {
        Def::Assign { value: Expression::BinOp { op, .. }, .. } => {
            assert_eq!(*op, BinOpType::IntAdd)
        }
        other => panic!("first def changed: {other:?}"),
    }
    match &blk.term.defs[1].term {
        Def::Assign { value: Expression::BinOp { op, .. }, .. } => {
            assert_eq!(*op, BinOpType::IntSub)
        }
        other => panic!("second def changed: {other:?}"),
    }
    // the AND becomes sp := sp - 4
    expect_sub_with_const(&blk.term.defs[2], &sp, 4, 8);
    // the block still has no jumps: the pass never touches jumps
    assert!(blk.term.jmps.is_empty());
}

#[test]
fn constant_on_the_left_is_journaled_too() {
    let sp = variable("RSP", 8);
    let mut program = one_block_program(vec![
        Term {
            tid: Tid::new("def_1"),
            term: Def::Assign {
                var: sp.clone(),
                value: Expression::BinOp {
                    op: BinOpType::IntAdd,
                    lhs: Box::new(Expression::Const(bv(24, 8))),
                    rhs: Box::new(Expression::Var(sp.clone())),
                },
            },
        },
        sp_binop("def_2", &sp, BinOpType::IntAnd, -16, 8),
    ]);
    let logs = substitute_and_on_stackpointer(&mut program, &sp, "x86_64");
    assert!(logs.is_empty());
    // journaled 24; 24 - (24 AND -16) == 8
    expect_sub_with_const(&program.subs[0].term.blocks[0].term.defs[1], &sp, 8, 8);
}

#[test]
fn arm32_mask_of_four_bytes() {
    let sp = variable("SP", 4);
    let mut program = one_block_program(vec![
        sp_binop("def_1", &sp, BinOpType::IntAdd, 13, 4),
        sp_binop("def_2", &sp, BinOpType::IntAnd, -4, 4),
    ]);
    let logs = substitute_and_on_stackpointer(&mut program, &sp, "arm32");
    assert!(logs.is_empty());
    // journaled 13; 13 - (13 AND -4) == 1, at the mask's four-byte width
    expect_sub_with_const(&program.subs[0].term.blocks[0].term.defs[1], &sp, 1, 4);
}

#[test]
fn unknown_architecture_still_rewrites() {
    // an architecture outside the known set only loses the alignment
    // expectation; the rewrite itself must still happen.
    let sp = variable("sp", 4);
    let mut program = one_block_program(vec![sp_binop("def_1", &sp, BinOpType::IntAnd, -16, 4)]);
    let logs = substitute_and_on_stackpointer(&mut program, &sp, "mips32");
    // expectation is 0, the negated mask is 16: the mismatch is reported
    assert_eq!(logs.len(), 1);
    assert_eq!(logs[0].text, "Unexpected alignment".to_string());
    assert_eq!(logs[0].level, LogLevel::Info);
    assert_eq!(logs[0].location, Some(Tid::new("def_1")));
    assert!(logs[0].source.is_none());
    // journaled 0; 0 - (0 AND -16) == 0: rewritten to sp := sp - 0
    expect_sub_with_const(&program.subs[0].term.blocks[0].term.defs[0], &sp, 0, 4);
}

#[test]
fn cyclic_entry_resolution_skips_the_subroutine_silently() {
    // Block A branches to B and B back to A, neither holding a def: the
    // subroutine contributes no rewrite and no diagnostic, while a
    // well-formed subroutine in the same program is still normalized.
    let sp = variable("RSP", 8);
    let cyclic = Term {
        tid: Tid::new("sub_cyclic"),
        term: Sub {
            name: "spin".to_string(),
            blocks: vec![
                Term {
                    tid: Tid::new("blk_a"),
                    term: Blk {
                        defs: vec![],
                        jmps: vec![Term {
                            tid: Tid::new("jmp_a"),
                            term: Jmp::Branch(Tid::new("blk_b")),
                        }],
                    },
                },
                Term {
                    tid: Tid::new("blk_b"),
                    term: Blk {
                        defs: vec![],
                        jmps: vec![Term {
                            tid: Tid::new("jmp_b"),
                            term: Jmp::Branch(Tid::new("blk_a")),
                        }],
                    },
                },
            ],
        },
    };
    let well_formed = Term {
        tid: Tid::new("sub_good"),
        term: Sub {
            name: "good".to_string(),
            blocks: vec![Term {
                tid: Tid::new("blk_good"),
                term: Blk {
                    defs: vec![
                        sp_binop("def_1", &sp, BinOpType::IntAdd, 8, 8),
                        sp_binop("def_2", &sp, BinOpType::IntAnd, -16, 8),
                    ],
                    jmps: vec![],
                },
            }],
        },
    };
    let mut program = Program {
        subs: vec![cyclic, well_formed],
        extern_symbols: vec![],
        entry_points: vec![],
    };
    let logs = substitute_and_on_stackpointer(&mut program, &sp, "x86_64");
    assert!(logs.is_empty());
    // the cyclic subroutine is exactly as built
    let spin = &program.subs[0].term;
    assert_eq!(spin.blocks.len(), 2);
    for blk in &spin.blocks {
        assert!(blk.term.defs.is_empty());
        assert_eq!(blk.term.jmps.len(), 1);
        assert!(matches!(blk.term.jmps[0].term, Jmp::Branch(_)));
    }
    // the well-formed one is fully normalized: journaled 8, 8 - (8 AND -16) == 8
    expect_sub_with_const(&program.subs[1].term.blocks[0].term.defs[1], &sp, 8, 8);
}

#[test]
fn entry_chain_is_followed_to_the_first_block_with_defs() {
    let sp = variable("RSP", 8);
    let mut program = Program {
        subs: vec![Term {
            tid: Tid::new("sub_1"),
            term: Sub {
                name: "chained".to_string(),
                blocks: vec![
                    Term {
                        tid: Tid::new("blk_entry"),
                        term: Blk {
                            defs: vec![],
                            jmps: vec![Term {
                                tid: Tid::new("jmp_entry"),
                                term: Jmp::Branch(Tid::new("blk_body")),
                            }],
                        },
                    },
                    Term {
                        tid: Tid::new("blk_body"),
                        term: Blk {
                            defs: vec![sp_binop("def_1", &sp, BinOpType::IntAnd, -16, 8)],
                            jmps: vec![],
                        },
                    },
                ],
            },
        }],
        extern_symbols: vec![],
        entry_points: vec![],
    };
    let logs = substitute_and_on_stackpointer(&mut program, &sp, "x86_64");
    assert!(logs.is_empty());
    expect_sub_with_const(&program.subs[0].term.blocks[1].term.defs[0], &sp, 0, 8);
}

#[test]
fn unjournalable_operand_aborts_without_diagnostic() {
    // sp := sp + sp cannot be journaled: the subroutine is abandoned
    // silently and the later mask stays untouched.
    let sp = variable("RSP", 8);
    let mut program = one_block_program(vec![
        Term {
            tid: Tid::new("def_1"),
            term: Def::Assign {
                var: sp.clone(),
                value: Expression::BinOp {
                    op: BinOpType::IntAdd,
                    lhs: Box::new(Expression::Var(sp.clone())),
                    rhs: Box::new(Expression::Var(sp.clone())),
                },
            },
        },
        sp_binop("def_2", &sp, BinOpType::IntAnd, -16, 8),
    ]);
    let logs = substitute_and_on_stackpointer(&mut program, &sp, "x86_64");
    assert!(logs.is_empty());
    match &program.subs[0].term.blocks[0].term.defs[1].term {
        Def::Assign { value: Expression::BinOp { op, .. }, .. } => {
            assert_eq!(*op, BinOpType::IntAnd)
        }
        other => panic!("mask was touched after an abort: {other:?}"),
    }
}

#[test]
fn unexpected_assignment_is_reported_and_aborts() {
    let sp = variable("RSP", 8);
    let mut program = one_block_program(vec![
        Term {
            tid: Tid::new("def_1"),
            term: Def::Assign { var: sp.clone(), value: Expression::Const(bv(0, 8)) },
        },
        sp_binop("def_2", &sp, BinOpType::IntAnd, -16, 8),
    ]);
    let logs = substitute_and_on_stackpointer(&mut program, &sp, "x86_64");
    assert_eq!(logs.len(), 1);
    assert_eq!(logs[0].text, "Unexpected assignment on SP".to_string());
    assert_eq!(logs[0].location, Some(Tid::new("def_1")));
    match &program.subs[0].term.blocks[0].term.defs[1].term {
        Def::Assign { value: Expression::BinOp { op, .. }, .. } => {
            assert_eq!(*op, BinOpType::IntAnd)
        }
        other => panic!("mask was touched after an abort: {other:?}"),
    }
}

#[test]
fn other_binary_operation_on_sp_is_unsubstitutable() {
    let sp = variable("RSP", 8);
    let mut program = one_block_program(vec![sp_binop("def_1", &sp, BinOpType::IntOr, -16, 8)]);
    let logs = substitute_and_on_stackpointer(&mut program, &sp, "x86_64");
    assert_eq!(logs.len(), 1);
    assert_eq!(logs[0].text, "Unsubstitutable Operation on SP".to_string());
    assert_eq!(logs[0].location, Some(Tid::new("def_1")));
    // the OR stays as it was
    match &program.subs[0].term.blocks[0].term.defs[0].term {
        Def::Assign { value: Expression::BinOp { op, .. }, .. } => {
            assert_eq!(*op, BinOpType::IntOr)
        }
        other => panic!("unexpected def: {other:?}"),
    }
}

#[test]
fn mask_between_two_registers_is_unsubstitutable() {
    let sp = variable("RSP", 8);
    let mut program = one_block_program(vec![Term {
        tid: Tid::new("def_1"),
        term: Def::Assign {
            var: sp.clone(),
            value: Expression::BinOp {
                op: BinOpType::IntAnd,
                lhs: Box::new(Expression::Var(sp.clone())),
                rhs: Box::new(Expression::Var(variable("RBX", 8))),
            },
        },
    }]);
    let logs = substitute_and_on_stackpointer(&mut program, &sp, "x86_64");
    assert_eq!(logs.len(), 1);
    assert_eq!(
        logs[0].text,
        "Unsubstitutable Operation on SP. Operants are not register and constant.".to_string()
    );
    assert_eq!(logs[0].location, Some(Tid::new("def_1")));
}

#[test]
fn non_sp_assignments_are_left_alone() {
    let sp = variable("RSP", 8);
    let other = variable("RAX", 8);
    let mut program = one_block_program(vec![
        sp_binop("def_1", &other, BinOpType::IntAnd, -16, 8),
        sp_binop("def_2", &sp, BinOpType::IntAnd, -16, 8),
    ]);
    let logs = substitute_and_on_stackpointer(&mut program, &sp, "x86_64");
    assert!(logs.is_empty());
    // the mask on RAX is untouched, the one on RSP is rewritten
    match &program.subs[0].term.blocks[0].term.defs[0].term {
        Def::Assign { var, value: Expression::BinOp { op, .. } } => {
            assert_eq!(var, &other);
            assert_eq!(*op, BinOpType::IntAnd);
        }
        other => panic!("unexpected def: {other:?}"),
    }
    expect_sub_with_const(&program.subs[0].term.blocks[0].term.defs[1], &sp, 0, 8);
}
