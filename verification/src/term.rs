//! Terms of the intermediate representation.
//!
//! Every object of a lifted binary — instruction, basic block, subroutine,
//! program — is wrapped in a [`Term`], which pairs it with a [`Tid`]: a
//! globally unique identifier annotated with the address the object was
//! lifted from.

use vstd::prelude::*;
use vstd::string::StringExecFns;

use crate::bitvector::{Bitvector, ByteSize};
use crate::expression::{
    expr_constants, expr_depth, expr_reads_var, expr_substitute, lemma_substitute_absent_var_is_noop,
    CastOpType, Expression, Variable,
};

verus! {

/// A term identifier: an ID string, required to be unique across a program,
/// and the address the term was lifted from.
#[derive(Debug)]
pub struct Tid {
    /// The unique ID of the term.
    id: String,
    /// The address where the term is located.
    pub address: String,
}

impl Tid {
    /// The ID string of the identifier.
    pub closed spec fn spec_id(&self) -> Seq<char> {
        self.id@
    }

    /// The address string of the identifier.
    pub closed spec fn spec_address(&self) -> Seq<char> {
        self.address@
    }

    /// Generates a new term identifier with the given ID string and with
    /// unknown address.
    pub fn new(val: &str) -> (t: Tid)
        ensures
            t.spec_id() == val@,
            t.spec_address() == "UNKNOWN"@,
    {
        Tid { id: val.to_owned(), address: "UNKNOWN".to_owned() }
    }

    /// Adds a suffix to the ID string and returns the new identifier; the
    /// address is preserved.
    pub fn with_id_suffix(self, suffix: &str) -> (t: Tid)
        ensures
            t.spec_id() == self.spec_id() + suffix@,
            t.spec_address() == self.spec_address(),
    {
        Tid { id: self.id.concat(suffix), address: self.address }
    }

    /// Renders the identifier as a bare ID string, without the address.
    pub fn to_text(&self) -> (s: String)
        ensures
            s@ == self.spec_id(),
    {
        self.id.clone()
    }
}

/// Two term identifiers denote the same term: ID and address agree.
pub open spec fn tid_eq(a: Tid, b: Tid) -> bool {
    a.spec_id() == b.spec_id() && a.spec_address() == b.spec_address()
}

impl Clone for Tid {
    fn clone(&self) -> (r: Self)
        ensures
            r == *self,
    {
        Tid { id: self.id.clone(), address: self.address.clone() }
    }
}

impl PartialEq for Tid {
    fn eq(&self, other: &Self) -> (r: bool) {
        self.id == other.id && self.address == other.address
    }
}

impl vstd::std_specs::cmp::PartialEqSpecImpl for Tid {
    open spec fn obeys_eq_spec() -> bool {
        true
    }

    open spec fn eq_spec(&self, other: &Self) -> bool {
        tid_eq(*self, *other)
    }
}

/// An object of a lifted binary together with its identifier.
#[derive(Debug)]
pub struct Term<T> {
    /// The term identifier, which also holds the address of the term.
    pub tid: Tid,
    /// The object itself.
    pub term: T,
}

/// A side-effectful operation: a register assignment or a memory access.
/// `Def`s have no control-flow effect.
#[derive(Debug)]
pub enum Def {
    /// A memory load into the register given by `var`; the size of `var`
    /// fixes the number of bytes read.
    Load { var: Variable, address: Expression },
    /// A memory store; the size of `value` fixes the number of bytes
    /// written.
    Store { address: Expression, value: Expression },
    /// A register assignment of the value of `value` to `var`.
    Assign { var: Variable, value: Expression },
}

/// A control-flow operation.
#[derive(Debug)]
pub enum Jmp {
    /// A direct intraprocedural jump to the given block.
    Branch(Tid),
    /// An indirect intraprocedural jump to the address the expression
    /// evaluates to.
    BranchInd(Expression),
    /// A direct intraprocedural jump taken only when the condition
    /// evaluates to a nonzero value.
    CBranch { target: Tid, condition: Expression },
    /// A direct subroutine call; `return_` is absent exactly when the
    /// callee is believed not to return.
    Call { target: Tid, return_: Option<Tid> },
    /// An indirect subroutine call to the address the expression evaluates
    /// to.
    CallInd { target: Expression, return_: Option<Tid> },
    /// A return from a subroutine to the address the expression evaluates
    /// to.
    Return(Expression),
    /// A side effect with no structural representation, e.g. a syscall;
    /// consumers may match on the free-text `description`.
    CallOther { description: String, return_: Option<Tid> },
}

/// A basic block: a sequence of `Def`s followed by up to two `Jmp`s.
#[derive(Debug)]
pub struct Blk {
    /// The instructions of the block, in execution order.
    pub defs: Vec<Term<Def>>,
    /// The jumps leaving the block.
    pub jmps: Vec<Term<Jmp>>,
}

/// The block satisfies the shape invariant: at most two jumps; a sole jump
/// is unconditional; of two jumps, the first is conditional and the second
/// is the unconditional fallback.
pub open spec fn blk_shape_ok(b: Blk) -> bool {
    &&& b.jmps@.len() <= 2
    &&& b.jmps@.len() == 1 ==> !(b.jmps@[0].term is CBranch)
    &&& b.jmps@.len() == 2 ==> b.jmps@[0].term is CBranch && !(b.jmps@[1].term is CBranch)
}

/// A subroutine: a name and the basic blocks belonging to it.  The first
/// block is the unique entry point.
#[derive(Debug)]
pub struct Sub {
    /// The name of the subroutine.
    pub name: String,
    /// The basic blocks of the subroutine; the first is the entry point.
    pub blocks: Vec<Term<Blk>>,
}

/// A parameter or return slot of a calling convention.
#[derive(Debug)]
pub enum Arg {
    /// The argument is passed in a register.
    Register(Variable),
    /// The argument is passed on the stack, at the given offset in bytes
    /// relative to the stack pointer at function entry.
    Stack { offset: i64, size: ByteSize },
}

/// A function dynamically linked from another binary.  Empty parameter or
/// return lists mean "unknown", not "none".
#[derive(Debug)]
pub struct ExternSymbol {
    /// The identifier of the symbol.
    pub tid: Tid,
    /// The name of the symbol.
    pub name: String,
    /// The calling convention used, if known.
    pub calling_convention: Option<String>,
    /// The parameters of the symbol.
    pub parameters: Vec<Arg>,
    /// The return values of the symbol.
    pub return_values: Vec<Arg>,
    /// Whether the function is assumed never to return to its caller.
    pub no_return: bool,
}

/// A disassembled binary: its subroutines, linked extern symbols and entry
/// points.
#[derive(Debug)]
pub struct Program {
    /// The known functions of the binary.
    pub subs: Vec<Term<Sub>>,
    /// Extern symbols linked into the binary.
    pub extern_symbols: Vec<ExternSymbol>,
    /// The identifiers of functions callable from outside the binary.
    pub entry_points: Vec<Tid>,
}

/// The top-level unit: a program together with the execution environment it
/// is assumed to run in.
#[derive(Debug)]
pub struct Project {
    /// All known executable code of the binary.
    pub program: Term<Program>,
    /// The CPU architecture the binary is assumed to execute on.
    pub cpu_architecture: String,
    /// The stack pointer register of that architecture.
    pub stack_pointer_register: Variable,
}

/// The constants of the instruction, in order of appearance; for a store,
/// those of the address followed by those of the value.
pub open spec fn def_constants(d: Def) -> Seq<Bitvector> {
    match d {
        Def::Load { address, .. } => expr_constants(address),
        Def::Assign { value, .. } => expr_constants(value),
        Def::Store { address, value } => expr_constants(address) + expr_constants(value),
    }
}

/// The summed nesting depth of the instruction's expressions.
pub open spec fn def_depth(d: Def) -> nat {
    match d {
        Def::Load { address, .. } => expr_depth(address),
        Def::Assign { value, .. } => expr_depth(value),
        Def::Store { address, value } => expr_depth(address) + expr_depth(value),
    }
}

/// The instruction with every read of `v` replaced by `r`.  The target
/// variable of an assignment or load is a write, not a read, and is never
/// replaced.
pub open spec fn def_substitute(d: Def, v: Variable, r: Expression) -> Def {
    match d {
        Def::Assign { var, value } => Def::Assign { var, value: expr_substitute(value, v, r) },
        Def::Load { var, address } => Def::Load { var, address: expr_substitute(address, v, r) },
        Def::Store { address, value } => Def::Store {
            address: expr_substitute(address, v, r),
            value: expr_substitute(value, v, r),
        },
    }
}

/// The instruction reads `v` in one of its expressions; a write to `v` does
/// not count.
pub open spec fn def_reads_var(d: Def, v: Variable) -> bool {
    match d {
        Def::Assign { value, .. } => expr_reads_var(value, v),
        Def::Load { address, .. } => expr_reads_var(address, v),
        Def::Store { address, value } => expr_reads_var(address, v) || expr_reads_var(value, v),
    }
}

/// The instruction assigns a zero-extension of a bare read of the register
/// named `output_sub_register` to the register named `output_name`.
pub open spec fn def_is_zero_extension(
    d: Def,
    output_name: Seq<char>,
    output_sub_register: Seq<char>,
) -> bool {
    match d {
        Def::Assign { var, value } => match value {
            Expression::Cast { op, arg, .. } => {
                &&& op == CastOpType::IntZExt
                &&& var.name@ == output_name
                &&& (match *arg {
                    Expression::Var(w) => w.name@ == output_sub_register,
                    _ => false,
                })
            },
            _ => false,
        },
        _ => false,
    }
}

impl Term<Def> {
    /// Checks whether the instruction is a zero extension of
    /// `output_sub_register` into `output_name` and, if so, returns the
    /// instruction's own identifier.
    pub fn check_for_zero_extension(&self, output_name: String, output_sub_register: String) -> (r:
        Option<Tid>)
        ensures
            def_is_zero_extension(self.term, output_name@, output_sub_register@) ==> r == Some(
                self.tid,
            ),
            !def_is_zero_extension(self.term, output_name@, output_sub_register@) ==> r is None,
    {
        match &self.term {
            Def::Assign { var, value } => match value {
                Expression::Cast { op, arg, .. } => {
                    if *op == CastOpType::IntZExt && output_name == var.name {
                        match &**arg {
                            Expression::Var(w) => {
                                if w.name == output_sub_register {
                                    Some(self.tid.clone())
                                } else {
                                    None
                                }
                            },
                            _ => None,
                        }
                    } else {
                        None
                    }
                },
                _ => None,
            },
            _ => None,
        }
    }

    /// Substitutes every read of `input_var` in the instruction's address
    /// and value expressions with `replace_with_expression`; the target
    /// variable of an assignment or load is left unchanged.
    pub fn substitute_input_var(
        &mut self,
        input_var: &Variable,
        replace_with_expression: &Expression,
    )
        ensures
            final(self).tid == old(self).tid,
            final(self).term == def_substitute(
                old(self).term,
                *input_var,
                *replace_with_expression,
            ),
    {
        match &mut self.term {
            Def::Assign { var: _, value } => {
                value.substitute_input_var(input_var, replace_with_expression);
            },
            Def::Load { var: _, address } => {
                address.substitute_input_var(input_var, replace_with_expression);
            },
            Def::Store { address, value } => {
                address.substitute_input_var(input_var, replace_with_expression);
                value.substitute_input_var(input_var, replace_with_expression);
            },
        }
    }
}

impl Def {
    /// Returns all constants that appear in the instruction, or `None` when
    /// there are none.
    pub fn referenced_constants(&self) -> (r: Option<Vec<Bitvector>>)
        ensures
            match r {
                Some(v) => v@ == def_constants(*self) && v@.len() > 0,
                None => def_constants(*self).len() == 0,
            },
    {
        match self {
            Def::Load { address, .. } => address.referenced_constants(),
            Def::Assign { value, .. } => value.referenced_constants(),
            Def::Store { address, value } => {
                let c0 = address.referenced_constants();
                let c1 = value.referenced_constants();
                match c0 {
                    None => {
                        proof {
                            assert(def_constants(*self) =~= expr_constants(*value));
                        }
                        c1
                    },
                    Some(mut v0) => match c1 {
                        None => {
                            proof {
                                assert(def_constants(*self) =~= expr_constants(*address));
                            }
                            Some(v0)
                        },
                        Some(v1) => {
                            let mut v1 = v1;
                            v0.append(&mut v1);
                            Some(v0)
                        },
                    },
                }
            },
        }
    }

    /// Returns the sum of the nesting depths of the instruction's
    /// expressions.
    pub fn recursion_depth(&self) -> (d: u64)
        requires
            def_depth(*self) <= u64::MAX,
        ensures
            d == def_depth(*self),
    {
        match self {
            Def::Load { address, .. } => address.recursion_depth(),
            Def::Assign { value, .. } => value.recursion_depth(),
            Def::Store { address, value } => address.recursion_depth() + value.recursion_depth(),
        }
    }
}

/// Substituting a variable that an instruction never reads leaves the whole
/// instruction — its write target included — unchanged.
pub proof fn lemma_def_substitute_absent_var_is_noop(d: Def, v: Variable, r: Expression)
    requires
        !def_reads_var(d, v),
    ensures
        def_substitute(d, v, r) == d,
{
    match d {
        Def::Assign { var, value } => {
            lemma_substitute_absent_var_is_noop(value, v, r);
        },
        Def::Load { var, address } => {
            lemma_substitute_absent_var_is_noop(address, v, r);
        },
        Def::Store { address, value } => {
            lemma_substitute_absent_var_is_noop(address, v, r);
            lemma_substitute_absent_var_is_noop(value, v, r);
        },
    }
}

/// The identifiers of a block term: its own, then those of its
/// instructions, then those of its jumps.
pub open spec fn blk_tids(b: Term<Blk>) -> Seq<Tid> {
    seq![b.tid] + b.term.defs@.map_values(|d: Term<Def>| d.tid) + b.term.jmps@.map_values(
        |j: Term<Jmp>| j.tid,
    )
}

/// The identifiers of a subroutine term: its own, then those of its blocks.
pub open spec fn sub_tids(s: Term<Sub>) -> Seq<Tid> {
    seq![s.tid] + s.term.blocks@.map_values(|b: Term<Blk>| blk_tids(b)).flatten()
}

/// The identifiers of every term of the program, subroutines first, extern
/// symbols last.
pub open spec fn program_tids(p: Program) -> Seq<Tid> {
    p.subs@.map_values(|s: Term<Sub>| sub_tids(s)).flatten() + p.extern_symbols@.map_values(
        |e: ExternSymbol| e.tid,
    )
}

/// The ID strings of all terms of the program are pairwise distinct.  The
/// lifter must establish this at construction; nothing in this crate
/// re-checks it.
pub open spec fn program_tids_unique(p: Program) -> bool {
    forall|i: int, j: int|
        0 <= i < j < program_tids(p).len() ==> program_tids(p)[i].spec_id() != program_tids(
            p,
        )[j].spec_id()
}

} // verus!
