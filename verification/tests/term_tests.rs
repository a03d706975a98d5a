use ir_core::{BinOpType, ByteSize, CastOpType, Def, Expression, Term, Tid, Variable};

fn variable(name: &str, size: u64) -> Variable {
    Variable { name: name.to_string(), size: ByteSize::new(size), is_temp: false }
}

fn var_expr(name: &str, size: u64) -> Expression {
    Expression::Var(variable(name, size))
}

#[test]
fn zero_extension_check() {
    let zero_extend_def = Term {
        tid: Tid::new("zero_tid"),
        term: Def::Assign {
            var: variable("RAX", 8),
            value: Expression::Cast {
                op: CastOpType::IntZExt,
                size: ByteSize::new(8),
                arg: Box::new(var_expr("EAX", 8)),
            },
        },
    };
    // An expression that is a zero extension but does not directly contain a variable
    let zero_extend_but_no_var_def = Term {
        tid: Tid::new("zero_tid"),
        term: Def::Assign {
            var: variable("RAX", 8),
            value: Expression::Cast {
                op: CastOpType::IntZExt,
                size: ByteSize::new(8),
                arg: Box::new(Expression::BinOp {
                    op: BinOpType::IntSub,
                    lhs: Box::new(var_expr("EAX", 8)),
                    rhs: Box::new(var_expr("ECX", 8)),
                }),
            },
        },
    };

    let non_zero_extend_def = Term {
        tid: Tid::new("zero_tid"),
        term: Def::Assign {
            var: variable("RAX", 8),
            value: Expression::Cast {
                op: CastOpType::IntSExt,
                size: ByteSize::new(8),
                arg: Box::new(var_expr("EAX", 8)),
            },
        },
    };

    assert_eq!(
        zero_extend_def.check_for_zero_extension(String::from("RAX"), String::from("EAX")),
        Some(Tid::new("zero_tid"))
    );
    assert_eq!(
        zero_extend_but_no_var_def
            .check_for_zero_extension(String::from("RAX"), String::from("EAX")),
        None
    );
    assert_eq!(
        non_zero_extend_def.check_for_zero_extension(String::from("RAX"), String::from("EAX")),
        None
    );
}

#[test]
fn tid_new_has_unknown_address() {
    let t = Tid::new("block_7");
    assert_eq!(t.to_text(), "block_7".to_string());
    assert_eq!(t.address, "UNKNOWN".to_string());
}

#[test]
fn tid_suffix_concatenates_and_keeps_address() {
    let mut t = Tid::new("f");
    t.address = "0x4000".to_string();
    let t2 = t.with_id_suffix("_cloned");
    assert_eq!(t2.to_text(), "f_cloned".to_string());
    assert_eq!(t2.address, "0x4000".to_string());
}

#[test]
fn tid_ids_stay_pairwise_distinct_after_suffixing() {
    // The lifter guarantees distinct IDs; suffixing with distinct suffixes
    // must keep them distinct so cloned terms never collide.
    let ids = vec![
        Tid::new("sub_1").to_text(),
        Tid::new("sub_2").to_text(),
        Tid::new("sub_1").with_id_suffix("_copy").to_text(),
        Tid::new("sub_2").with_id_suffix("_copy").to_text(),
    ];
    for i in 0..ids.len() {
        for j in 0..ids.len() {
            if i != j {
                assert_ne!(ids[i], ids[j]);
            }
        }
    }
}

fn const_expr(value: u64, width: u64) -> Expression {
    Expression::Const(ir_core::Bitvector { value, width: ByteSize::new(width) })
}

#[test]
fn referenced_constants_none_when_absent() {
    let d = Def::Assign { var: variable("RAX", 8), value: var_expr("RBX", 8) };
    assert!(d.referenced_constants().is_none());
}

#[test]
fn referenced_constants_unions_store_sides_in_order() {
    let d = Def::Store {
        address: Expression::BinOp {
            op: BinOpType::IntAdd,
            lhs: Box::new(var_expr("RSP", 8)),
            rhs: Box::new(const_expr(16, 8)),
        },
        value: const_expr(99, 4),
    };
    let consts = d.referenced_constants().unwrap();
    assert_eq!(consts.len(), 2);
    assert_eq!(consts[0].value, 16);
    assert_eq!(consts[1].value, 99);
    assert_eq!(consts[1].width.bytes, 4);
}

#[test]
fn referenced_constants_takes_nonempty_store_side() {
    let d = Def::Store { address: var_expr("RSP", 8), value: const_expr(7, 8) };
    let consts = d.referenced_constants().unwrap();
    assert_eq!(consts.len(), 1);
    assert_eq!(consts[0].value, 7);
}

#[test]
fn recursion_depth_sums_store_expressions() {
    // address has depth 1, value has depth 2: sum is 3.
    let d = Def::Store {
        address: Expression::BinOp {
            op: BinOpType::IntAdd,
            lhs: Box::new(var_expr("RSP", 8)),
            rhs: Box::new(const_expr(8, 8)),
        },
        value: Expression::Cast {
            op: CastOpType::IntZExt,
            size: ByteSize::new(8),
            arg: Box::new(Expression::UnOp {
                op: ir_core::UnOpType::IntNegate,
                arg: Box::new(var_expr("EAX", 4)),
            }),
        },
    };
    assert_eq!(d.recursion_depth(), 3);
    let flat = Def::Assign { var: variable("RAX", 8), value: var_expr("RBX", 8) };
    assert_eq!(flat.recursion_depth(), 0);
}

#[test]
fn substitute_replaces_reads_only() {
    let v = variable("RBX", 8);
    let replacement = Expression::BinOp {
        op: BinOpType::IntAdd,
        lhs: Box::new(var_expr("RCX", 8)),
        rhs: Box::new(const_expr(1, 8)),
    };
    let mut d = Term {
        tid: Tid::new("assign_tid"),
        term: Def::Assign { var: v.clone(), value: var_expr("RBX", 8) },
    };
    d.substitute_input_var(&v, &replacement);
    match &d.term {
        Def::Assign { var, value } => {
            // the write target is untouched, the read is replaced
            assert_eq!(var, &v);
            match value {
                Expression::BinOp { op, lhs, rhs } => {
                    assert_eq!(*op, BinOpType::IntAdd);
                    assert!(matches!(&**lhs, Expression::Var(w) if w.name == "RCX"));
                    assert!(matches!(&**rhs, Expression::Const(c) if c.value == 1));
                }
                other => panic!("unexpected value after substitution: {other:?}"),
            }
        }
        other => panic!("unexpected def after substitution: {other:?}"),
    }
}

#[test]
fn substitute_without_occurrence_is_noop() {
    let v = variable("RBX", 8);
    let replacement = const_expr(5, 8);
    // RBX occurs only as the write target: nothing may change.
    let mut d = Term {
        tid: Tid::new("assign_tid"),
        term: Def::Assign { var: v.clone(), value: var_expr("RAX", 8) },
    };
    d.substitute_input_var(&v, &replacement);
    match &d.term {
        Def::Assign { var, value } => {
            assert_eq!(var, &v);
            assert!(matches!(value, Expression::Var(w) if w.name == "RAX"));
        }
        other => panic!("unexpected def after substitution: {other:?}"),
    }
    // a def not mentioning RBX at all is also untouched
    let mut load = Term {
        tid: Tid::new("load_tid"),
        term: Def::Load { var: variable("RAX", 8), address: var_expr("RSP", 8) },
    };
    load.substitute_input_var(&v, &replacement);
    match &load.term {
        Def::Load { var, address } => {
            assert_eq!(var.name, "RAX".to_string());
            assert!(matches!(address, Expression::Var(w) if w.name == "RSP"));
        }
        other => panic!("unexpected def after substitution: {other:?}"),
    }
}

#[test]
fn substitute_rewrites_both_sides_of_a_store() {
    let v = variable("RDI", 8);
    let replacement = var_expr("RSI", 8);
    let mut d = Term {
        tid: Tid::new("store_tid"),
        term: Def::Store { address: var_expr("RDI", 8), value: var_expr("RDI", 8) },
    };
    d.substitute_input_var(&v, &replacement);
    match &d.term {
        Def::Store { address, value } => {
            assert!(matches!(address, Expression::Var(w) if w.name == "RSI"));
            assert!(matches!(value, Expression::Var(w) if w.name == "RSI"));
        }
        other => panic!("unexpected def after substitution: {other:?}"),
    }
}
