//! Expressions of the intermediate representation.
//!
//! An [`Expression`] is a side-effect-free computation over registers and
//! constants.  The module also defines [`Variable`], the register
//! descriptor, and the closed operator sets for binary, unary and cast
//! operations.

use vstd::prelude::*;

use crate::bitvector::{Bitvector, ByteSize};

verus! {

/// A register (or temporary) variable: a name together with its size in
/// bytes.
#[derive(Debug)]
pub struct Variable {
    /// The name of the register.
    pub name: String,
    /// The size of the register in bytes.
    pub size: ByteSize,
    /// Whether the variable is a temporary introduced by the lifter rather
    /// than a physical register.
    pub is_temp: bool,
}

/// Two variables denote the same register: their names, sizes and
/// temporary flags agree.
pub open spec fn var_eq(a: Variable, b: Variable) -> bool {
    a.name@ == b.name@ && a.size == b.size && a.is_temp == b.is_temp
}

impl Clone for Variable {
    fn clone(&self) -> (r: Self)
        ensures
            r == *self,
    {
        Variable { name: self.name.clone(), size: self.size, is_temp: self.is_temp }
    }
}

impl PartialEq for Variable {
    fn eq(&self, other: &Self) -> (r: bool) {
        self.name == other.name && self.size == other.size && self.is_temp == other.is_temp
    }
}

impl vstd::std_specs::cmp::PartialEqSpecImpl for Variable {
    open spec fn obeys_eq_spec() -> bool {
        true
    }

    open spec fn eq_spec(&self, other: &Self) -> bool {
        var_eq(*self, *other)
    }
}

/// The closed set of binary operators.
#[derive(Clone, Copy, PartialEq, Eq, Structural, Debug, Hash)]
pub enum BinOpType {
    Piece,
    IntEqual,
    IntNotEqual,
    IntLess,
    IntSLess,
    IntLessEqual,
    IntSLessEqual,
    IntAdd,
    IntSub,
    IntCarry,
    IntSCarry,
    IntSBorrow,
    IntXOr,
    IntAnd,
    IntOr,
    IntLeft,
    IntRight,
    IntSRight,
    IntMult,
    IntDiv,
    IntRem,
    IntSDiv,
    IntSRem,
    BoolXOr,
    BoolAnd,
    BoolOr,
}

/// The closed set of unary operators.
#[derive(Clone, Copy, PartialEq, Eq, Structural, Debug, Hash)]
pub enum UnOpType {
    IntNegate,
    Int2Comp,
    BoolNegate,
}

/// The closed set of cast operators.
#[derive(Clone, Copy, PartialEq, Eq, Structural, Debug, Hash)]
pub enum CastOpType {
    IntZExt,
    IntSExt,
    Trunc,
    PopCount,
    LzCount,
}

/// A side-effect-free expression over registers and constants.
#[derive(Debug)]
pub enum Expression {
    /// A register read.
    Var(Variable),
    /// A constant bit vector.
    Const(Bitvector),
    /// A binary operation.
    BinOp { op: BinOpType, lhs: Box<Expression>, rhs: Box<Expression> },
    /// A unary operation.
    UnOp { op: UnOpType, arg: Box<Expression> },
    /// A cast to the given size.
    Cast { op: CastOpType, size: ByteSize, arg: Box<Expression> },
    /// A value that the lifter could not represent; `description` is a
    /// free-text tag.
    Unknown { description: String, size: ByteSize },
    /// The sub-vector of `size` bytes starting `low_byte` bytes above the
    /// least significant byte of `arg`.
    Subpiece { low_byte: ByteSize, size: ByteSize, arg: Box<Expression> },
}

/// The expression with every read of `v` replaced by `r`.
pub open spec fn expr_substitute(e: Expression, v: Variable, r: Expression) -> Expression
    decreases e,
{
    match e {
        Expression::Var(w) => if var_eq(w, v) {
            r
        } else {
            Expression::Var(w)
        },
        Expression::Const(c) => Expression::Const(c),
        Expression::BinOp { op, lhs, rhs } => Expression::BinOp {
            op,
            lhs: Box::new(expr_substitute(*lhs, v, r)),
            rhs: Box::new(expr_substitute(*rhs, v, r)),
        },
        Expression::UnOp { op, arg } => Expression::UnOp {
            op,
            arg: Box::new(expr_substitute(*arg, v, r)),
        },
        Expression::Cast { op, size, arg } => Expression::Cast {
            op,
            size,
            arg: Box::new(expr_substitute(*arg, v, r)),
        },
        Expression::Unknown { description, size } => Expression::Unknown { description, size },
        Expression::Subpiece { low_byte, size, arg } => Expression::Subpiece {
            low_byte,
            size,
            arg: Box::new(expr_substitute(*arg, v, r)),
        },
    }
}

/// The expression contains a read of `v`.
pub open spec fn expr_reads_var(e: Expression, v: Variable) -> bool
    decreases e,
{
    match e {
        Expression::Var(w) => var_eq(w, v),
        Expression::Const(_) => false,
        Expression::BinOp { lhs, rhs, .. } => expr_reads_var(*lhs, v) || expr_reads_var(*rhs, v),
        Expression::UnOp { arg, .. } => expr_reads_var(*arg, v),
        Expression::Cast { arg, .. } => expr_reads_var(*arg, v),
        Expression::Unknown { .. } => false,
        Expression::Subpiece { arg, .. } => expr_reads_var(*arg, v),
    }
}

/// The constants of the expression, in order of appearance.
pub open spec fn expr_constants(e: Expression) -> Seq<Bitvector>
    decreases e,
{
    match e {
        Expression::Var(_) => Seq::empty(),
        Expression::Const(c) => seq![c],
        Expression::BinOp { lhs, rhs, .. } => expr_constants(*lhs) + expr_constants(*rhs),
        Expression::UnOp { arg, .. } => expr_constants(*arg),
        Expression::Cast { arg, .. } => expr_constants(*arg),
        Expression::Unknown { .. } => Seq::empty(),
        Expression::Subpiece { arg, .. } => expr_constants(*arg),
    }
}

/// The nesting depth of the expression: zero for leaves, one more than the
/// deepest operand otherwise.
pub open spec fn expr_depth(e: Expression) -> nat
    decreases e,
{
    match e {
        Expression::Var(_) => 0,
        Expression::Const(_) => 0,
        Expression::BinOp { lhs, rhs, .. } => {
            let dl = expr_depth(*lhs);
            let dr = expr_depth(*rhs);
            1 + if dl >= dr {
                dl
            } else {
                dr
            }
        },
        Expression::UnOp { arg, .. } => 1 + expr_depth(*arg),
        Expression::Cast { arg, .. } => 1 + expr_depth(*arg),
        Expression::Unknown { .. } => 0,
        Expression::Subpiece { arg, .. } => 1 + expr_depth(*arg),
    }
}

impl Clone for Expression {
    fn clone(&self) -> (r: Self)
        ensures
            r == *self,
        decreases self,
    {
        match self {
            Expression::Var(v) => Expression::Var(v.clone()),
            Expression::Const(c) => Expression::Const(*c),
            Expression::BinOp { op, lhs, rhs } => Expression::BinOp {
                op: *op,
                lhs: Box::new((**lhs).clone()),
                rhs: Box::new((**rhs).clone()),
            },
            Expression::UnOp { op, arg } => Expression::UnOp {
                op: *op,
                arg: Box::new((**arg).clone()),
            },
            Expression::Cast { op, size, arg } => Expression::Cast {
                op: *op,
                size: *size,
                arg: Box::new((**arg).clone()),
            },
            Expression::Unknown { description, size } => Expression::Unknown {
                description: description.clone(),
                size: *size,
            },
            Expression::Subpiece { low_byte, size, arg } => Expression::Subpiece {
                low_byte: *low_byte,
                size: *size,
                arg: Box::new((**arg).clone()),
            },
        }
    }
}

/// The substitution of `input_var` by `replace_with`, on an owned
/// expression.
fn substitute_expression(e: Expression, input_var: &Variable, replace_with: &Expression) -> (r:
    Expression)
    ensures
        r == expr_substitute(e, *input_var, *replace_with),
    decreases e,
{
    match e {
        Expression::Var(w) => {
            if w.eq(input_var) {
                replace_with.clone()
            } else {
                Expression::Var(w)
            }
        },
        Expression::Const(c) => Expression::Const(c),
        Expression::BinOp { op, lhs, rhs } => Expression::BinOp {
            op,
            lhs: Box::new(substitute_expression(*lhs, input_var, replace_with)),
            rhs: Box::new(substitute_expression(*rhs, input_var, replace_with)),
        },
        Expression::UnOp { op, arg } => Expression::UnOp {
            op,
            arg: Box::new(substitute_expression(*arg, input_var, replace_with)),
        },
        Expression::Cast { op, size, arg } => Expression::Cast {
            op,
            size,
            arg: Box::new(substitute_expression(*arg, input_var, replace_with)),
        },
        Expression::Unknown { description, size } => Expression::Unknown { description, size },
        Expression::Subpiece { low_byte, size, arg } => Expression::Subpiece {
            low_byte,
            size,
            arg: Box::new(substitute_expression(*arg, input_var, replace_with)),
        },
    }
}

/// Collects the constants of `e`, in order, at the end of `found`.
fn collect_constants(e: &Expression, found: &mut Vec<Bitvector>)
    ensures
        final(found)@ == old(found)@ + expr_constants(*e),
    decreases e,
{
    match e {
        Expression::Var(_) => {
            assert(final(found)@ =~= old(found)@ + expr_constants(*e));
        },
        Expression::Const(c) => {
            found.push(*c);
            assert(final(found)@ =~= old(found)@ + expr_constants(*e));
        },
        Expression::BinOp { lhs, rhs, .. } => {
            collect_constants(lhs, found);
            collect_constants(rhs, found);
            assert(final(found)@ =~= old(found)@ + expr_constants(*e));
        },
        Expression::UnOp { arg, .. } => {
            collect_constants(arg, found);
        },
        Expression::Cast { arg, .. } => {
            collect_constants(arg, found);
        },
        Expression::Unknown { .. } => {
            assert(final(found)@ =~= old(found)@ + expr_constants(*e));
        },
        Expression::Subpiece { arg, .. } => {
            collect_constants(arg, found);
        },
    }
}

impl Expression {
    /// Replaces every read of `input_var` in the expression with
    /// `replace_with_expression`.
    pub fn substitute_input_var(
        &mut self,
        input_var: &Variable,
        replace_with_expression: &Expression,
    )
        ensures
            *final(self) == expr_substitute(*old(self), *input_var, *replace_with_expression),
    {
        let mut taken = Expression::Const(Bitvector { value: 0, width: ByteSize { bytes: 8 } });
        core::mem::swap(self, &mut taken);
        *self = substitute_expression(taken, input_var, replace_with_expression);
    }

    /// Returns the constants appearing in the expression, in order of
    /// appearance, or `None` when there are none.
    pub fn referenced_constants(&self) -> (r: Option<Vec<Bitvector>>)
        ensures
            match r {
                Some(v) => v@ == expr_constants(*self) && v@.len() > 0,
                None => expr_constants(*self).len() == 0,
            },
    {
        let mut found: Vec<Bitvector> = Vec::new();
        collect_constants(self, &mut found);
        if found.len() == 0 {
            None
        } else {
            Some(found)
        }
    }

    /// Returns the nesting depth of the expression.
    pub fn recursion_depth(&self) -> (d: u64)
        requires
            expr_depth(*self) <= u64::MAX,
        ensures
            d == expr_depth(*self),
        decreases self,
    {
        match self {
            Expression::Var(_) => 0,
            Expression::Const(_) => 0,
            Expression::BinOp { lhs, rhs, .. } => {
                let dl = (**lhs).recursion_depth();
                let dr = (**rhs).recursion_depth();
                1 + if dl >= dr {
                    dl
                } else {
                    dr
                }
            },
            Expression::UnOp { arg, .. } => 1 + (**arg).recursion_depth(),
            Expression::Cast { arg, .. } => 1 + (**arg).recursion_depth(),
            Expression::Unknown { .. } => 0,
            Expression::Subpiece { arg, .. } => 1 + (**arg).recursion_depth(),
        }
    }
}

/// Substituting a variable that an expression never reads leaves the
/// expression unchanged.
pub proof fn lemma_substitute_absent_var_is_noop(e: Expression, v: Variable, r: Expression)
    requires
        !expr_reads_var(e, v),
    ensures
        expr_substitute(e, v, r) == e,
    decreases e,
{
    match e {
        Expression::BinOp { op, lhs, rhs } => {
            lemma_substitute_absent_var_is_noop(*lhs, v, r);
            lemma_substitute_absent_var_is_noop(*rhs, v, r);
        },
        Expression::UnOp { op, arg } => {
            lemma_substitute_absent_var_is_noop(*arg, v, r);
        },
        Expression::Cast { op, size, arg } => {
            lemma_substitute_absent_var_is_noop(*arg, v, r);
        },
        Expression::Subpiece { low_byte, size, arg } => {
            lemma_substitute_absent_var_is_noop(*arg, v, r);
        },
        _ => {},
    }
}

} // verus!
