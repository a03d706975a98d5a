//! Stack-pointer alignment substitution.
//!
//! Compilers align the stack with a bitmask: `sp := sp & mask`.  Later
//! analyses reason more easily about subtraction than about masking, so
//! this pass journals the stack pointer's offset from function entry
//! through the defining entry block of each subroutine and rewrites each
//! such mask into `sp := sp - offset`.  Any shape it cannot journal makes
//! it abort the current subroutine — earlier rewrites stand, later
//! instructions stay untouched — and go on with the next one; it never
//! fails as a whole.

use vstd::prelude::*;
use vstd::string::StrSliceExecFns;

use crate::bitvector::{Bitvector, ByteSize};
use crate::diagnostics::{LogLevel, LogMessage};
use crate::expression::{var_eq, BinOpType, Expression, Variable};
use crate::term::{tid_eq, Blk, Def, Jmp, Program, Sub, Term, Tid};

verus! {

/// The stack alignment, in bytes, that the given architecture is expected
/// to enforce; zero for architectures without a known expectation.
pub open spec fn spec_alignment_for(arch: Seq<char>) -> i64 {
    if arch == "x86_32"@ {
        16
    } else if arch == "x86_64"@ {
        16
    } else if arch == "arm32"@ {
        4
    } else {
        0
    }
}

/// The two strings hold the same characters.
fn str_eq(a: &str, b: &str) -> (r: bool)
    ensures
        r == (a@ == b@),
{
    let n = a.unicode_len();
    if n != b.unicode_len() {
        return false;
    }
    let mut i: usize = 0;
    while i < n
        invariant
            n == a@.len(),
            n == b@.len(),
            0 <= i <= n,
            forall|k: int| 0 <= k < i ==> a@[k] == b@[k],
        decreases n - i,
    {
        if a.get_char(i) != b.get_char(i) {
            assert(a@[i as int] != b@[i as int]);
            return false;
        }
        i += 1;
    }
    proof {
        assert(a@ =~= b@);
    }
    true
}

/// The expected stack alignment for the architecture name; the sanity
/// check only, never a gate on rewriting.
fn alignment_for(cpu_architecture: &str) -> (a: i64)
    ensures
        a == spec_alignment_for(cpu_architecture@),
{
    if str_eq(cpu_architecture, "x86_32") {
        16
    } else if str_eq(cpu_architecture, "x86_64") {
        16
    } else if str_eq(cpu_architecture, "arm32") {
        4
    } else {
        0
    }
}

/// The target of the block's first jump, when that jump is an
/// unconditional branch.
pub open spec fn spec_first_branch_tid(b: Blk) -> Option<Tid> {
    if b.jmps@.len() > 0 {
        match b.jmps@[0].term {
            Jmp::Branch(t) => Some(t),
            _ => None,
        }
    } else {
        None
    }
}

/// Returns the target of the first `Jmp::Branch` of the provided block.
fn get_first_branch_tid(blk: &Term<Blk>) -> (r: Option<&Tid>)
    ensures
        match r {
            Some(t) => spec_first_branch_tid(blk.term) == Some(*t),
            None => spec_first_branch_tid(blk.term) is None,
        },
{
    if blk.term.jmps.len() > 0 {
        match &blk.term.jmps[0].term {
            Jmp::Branch(jump_to_blk) => Some(jump_to_blk),
            _ => None,
        }
    } else {
        None
    }
}

/// The least index at or above `i` of a block with the given identifier.
pub open spec fn spec_find_tid_from(blocks: Seq<Term<Blk>>, t: Tid, i: int) -> Option<int>
    decreases blocks.len() - i
        when 0 <= i <= blocks.len()
{
    if i >= blocks.len() {
        None
    } else if tid_eq(blocks[i].tid, t) {
        Some(i)
    } else {
        spec_find_tid_from(blocks, t, i + 1)
    }
}

/// Finds the first block with the given identifier.
fn find_block_index(blocks: &Vec<Term<Blk>>, target: &Tid) -> (r: Option<usize>)
    ensures
        match r {
            Some(k) => spec_find_tid_from(blocks@, *target, 0) == Some(k as int) && k
                < blocks@.len(),
            None => spec_find_tid_from(blocks@, *target, 0) is None,
        },
{
    let mut k: usize = 0;
    while k < blocks.len()
        invariant
            0 <= k <= blocks@.len(),
            spec_find_tid_from(blocks@, *target, 0) == spec_find_tid_from(
                blocks@,
                *target,
                k as int,
            ),
        decreases blocks@.len() - k,
    {
        if blocks[k].tid.eq(target) {
            return Some(k);
        }
        k += 1;
    }
    None
}

/// The sequence holds an identifier equal to `t`.
pub open spec fn tids_contain(v: Seq<Tid>, t: Tid) -> bool {
    exists|k: int| 0 <= k < v.len() && tid_eq(v[k], t)
}

/// Whether one of the visited identifiers equals `t`.
fn visited_contains(visited: &Vec<Tid>, t: &Tid) -> (r: bool)
    ensures
        r == tids_contain(visited@, *t),
{
    let mut k: usize = 0;
    while k < visited.len()
        invariant
            0 <= k <= visited@.len(),
            forall|m: int| 0 <= m < k ==> !tid_eq(visited@[m], *t),
        decreases visited@.len() - k,
    {
        if visited[k].eq(t) {
            assert(tid_eq(visited@[k as int], *t));
            return true;
        }
        k += 1;
    }
    false
}

/// One step of the entry-block walk: the current block if it holds any
/// instruction; otherwise follow its sole unconditional branch, giving up
/// on a missing branch, an unknown target or a revisited block.  The fuel
/// only bounds the recursion; a walk that would use it up must revisit a
/// block and so gives up anyway.
pub open spec fn spec_walk(blocks: Seq<Term<Blk>>, cur: int, visited: Seq<Tid>, fuel: nat) -> Option<
    int,
>
    decreases fuel,
{
    if !(0 <= cur < blocks.len()) {
        None
    } else if blocks[cur].term.defs@.len() > 0 {
        Some(cur)
    } else if fuel == 0 {
        None
    } else {
        match spec_first_branch_tid(blocks[cur].term) {
            None => None,
            Some(t) => if tids_contain(visited, blocks[cur].tid) {
                None
            } else {
                match spec_find_tid_from(blocks, t, 0) {
                    None => None,
                    Some(k) => spec_walk(blocks, k, visited.push(blocks[cur].tid), (fuel - 1) as nat),
                }
            },
        }
    }
}

/// The index of the representative entry block of the subroutine: the
/// first block, along the chain of sole unconditional branches from the
/// subroutine's entry, that holds any instruction.
pub open spec fn spec_entry_block_index(s: Sub) -> Option<int> {
    if s.blocks@.len() == 0 {
        None
    } else {
        spec_walk(s.blocks@, 0, Seq::empty(), s.blocks@.len() as nat)
    }
}

/// Returns the index of the first block with non-empty defs, reached from
/// the subroutine's entry block by following sole unconditional branches;
/// `None` when a block on the way has no such branch, a target is unknown,
/// or a block repeats.
fn get_first_blk_with_defs(sub: &Sub) -> (r: Option<usize>)
    ensures
        match r {
            Some(i) => spec_entry_block_index(*sub) == Some(i as int) && i < sub.blocks@.len()
                && sub.blocks@[i as int].term.defs@.len() > 0,
            None => spec_entry_block_index(*sub) is None,
        },
{
    let blocks = &sub.blocks;
    if blocks.len() == 0 {
        return None;
    }
    let mut visited: Vec<Tid> = Vec::new();
    let mut cur: usize = 0;
    let mut fuel: usize = blocks.len();
    loop
        invariant
            blocks == &sub.blocks,
            0 <= cur < blocks@.len(),
            fuel <= blocks@.len(),
            spec_walk(blocks@, cur as int, visited@, fuel as nat) == spec_entry_block_index(*sub),
        decreases fuel,
    {
        if blocks[cur].term.defs.len() > 0 {
            return Some(cur);
        }
        if fuel == 0 {
            return None;
        }
        let target = match get_first_branch_tid(&blocks[cur]) {
            Some(t) => t,
            None => {
                return None;
            },
        };
        if visited_contains(&visited, &blocks[cur].tid) {
            return None;
        }
        visited.push(blocks[cur].tid.clone());
        match find_block_index(blocks, target) {
            Some(k) => {
                cur = k;
                fuel = fuel - 1;
            },
            None => {
                return None;
            },
        }
    }
}


/// A diagnostic of the pass, in abstract form: its text and the term it
/// points at.
pub struct LogRecord {
    /// The text of the message.
    pub text: Seq<char>,
    /// The term the message refers to.
    pub location: Option<Tid>,
}

/// The message is the record: informational, sourceless, same text and
/// location.
pub open spec fn log_matches(m: LogMessage, r: LogRecord) -> bool {
    &&& m.text@ == r.text
    &&& m.level is Info
    &&& m.location == r.location
    &&& m.source is None
}

/// The messages are exactly the given records, in order.
pub open spec fn logs_match(msgs: Seq<LogMessage>, recs: Seq<LogRecord>) -> bool {
    &&& msgs.len() == recs.len()
    &&& forall|k: int| 0 <= k < msgs.len() ==> log_matches(#[trigger] msgs[k], recs[k])
}

proof fn lemma_logs_match_concat(
    m1: Seq<LogMessage>,
    m2: Seq<LogMessage>,
    r1: Seq<LogRecord>,
    r2: Seq<LogRecord>,
)
    requires
        logs_match(m1, r1),
        logs_match(m2, r2),
    ensures
        logs_match(m1 + m2, r1 + r2),
{
    assert forall|k: int| 0 <= k < (m1 + m2).len() implies log_matches(
        #[trigger] (m1 + m2)[k],
        (r1 + r2)[k],
    ) by {
        if k < m1.len() {
            assert((m1 + m2)[k] == m1[k]);
            assert((r1 + r2)[k] == r1[k]);
        } else {
            assert((m1 + m2)[k] == m2[k - m1.len()]);
            assert((r1 + r2)[k] == r2[k - m1.len()]);
        }
    }
}

/// The operands read as {variable, constant}, in either order.
pub open spec fn spec_var_const(lhs: Expression, rhs: Expression) -> Option<(Variable, Bitvector)> {
    match (lhs, rhs) {
        (Expression::Var(v), Expression::Const(c)) => Some((v, c)),
        (Expression::Const(c), Expression::Var(v)) => Some((v, c)),
        _ => None,
    }
}

/// What one substitution attempt yields: the expression afterwards, the
/// diagnostics, and whether the shape was unsubstitutable.
pub struct SubstituteOutcome {
    /// The expression after the attempt.
    pub expression: Expression,
    /// The diagnostics of the attempt.
    pub logs: Seq<LogRecord>,
    /// The operation was not a mask of a variable by a constant.
    pub unsubstitutable: bool,
}

/// The substitution step on a value assigned to the stack pointer.  A
/// binary operation on a variable and a constant mask is rewritten to
/// `variable - (journaled_sp - (journaled_sp & mask))`, the constant taking
/// the width of the mask; a mask whose negation is not the expected
/// alignment is reported but still rewritten.  Every other shape is
/// reported as unsubstitutable and left unchanged.
pub open spec fn spec_substitute(
    e: Expression,
    expected_alignment: i64,
    journaled_sp: i64,
    tid: Tid,
) -> SubstituteOutcome {
    match e {
        Expression::BinOp { op, lhs, rhs } => match spec_var_const(*lhs, *rhs) {
            Some((v, c)) => if op == BinOpType::IntAnd {
                let align_logs: Seq<LogRecord> = if c.spec_negate().spec_to_i64()
                    != expected_alignment {
                    seq![LogRecord { text: "Unexpected alignment"@, location: Some(tid) }]
                } else {
                    Seq::empty()
                };
                let mask = c.spec_to_i64();
                let offset = journaled_sp - (journaled_sp & mask);
                SubstituteOutcome {
                    expression: Expression::BinOp {
                        op: BinOpType::IntSub,
                        lhs: Box::new(Expression::Var(v)),
                        rhs: Box::new(
                            Expression::Const(
                                (Bitvector {
                                    value: (offset as i64) as u64,
                                    width: ByteSize { bytes: 8 },
                                }).spec_resize_unsigned(c.width),
                            ),
                        ),
                    },
                    logs: align_logs,
                    unsubstitutable: false,
                }
            } else {
                SubstituteOutcome {
                    expression: e,
                    logs: seq![
                        LogRecord {
                            text: "Unsubstitutable Operation on SP"@,
                            location: Some(tid),
                        },
                    ],
                    unsubstitutable: true,
                }
            },
            None => SubstituteOutcome {
                expression: e,
                logs: seq![
                    LogRecord {
                        text: "Unsubstitutable Operation on SP. Operants are not register and constant."@,
                        location: Some(tid),
                    },
                ],
                unsubstitutable: true,
            },
        },
        _ => SubstituteOutcome {
            expression: e,
            logs: seq![
                LogRecord { text: "Unsubstitutable Operation on SP"@, location: Some(tid) },
            ],
            unsubstitutable: true,
        },
    }
}

/// What one instruction does to the journal: the instruction afterwards,
/// the journaled stack pointer value afterwards, whether the subroutine is
/// abandoned at this instruction, and the diagnostics.
pub struct StepOutcome {
    /// The instruction after the step.
    pub def: Term<Def>,
    /// The journaled stack pointer value after the step.
    pub journaled_sp: i64,
    /// The subroutine's rewriting stops at this instruction.
    pub aborted: bool,
    /// The diagnostics of the step.
    pub logs: Seq<LogRecord>,
}

/// One instruction of the entry block, journaled or rewritten.
/// Assignments of `sp + c` or `c + sp` add `c` to the journal, `sp - c` or
/// `c - sp` subtract it; any other binary operation goes to the
/// substitution step; a non-binary assigned value is reported and aborts;
/// instructions that do not assign to the stack pointer are untouched.
pub open spec fn spec_step(
    d: Term<Def>,
    sp: Variable,
    expected_alignment: i64,
    journaled_sp: i64,
) -> StepOutcome {
    match d.term {
        Def::Assign { var, value } => if var_eq(var, sp) {
            match value {
                Expression::BinOp { op, lhs, rhs } => if op == BinOpType::IntAdd || op
                    == BinOpType::IntSub {
                    match spec_var_const(*lhs, *rhs) {
                        Some((v, c)) => if var_eq(v, sp) {
                            let j = if op == BinOpType::IntAdd {
                                vstd::wrapping::i64_specs::wrapping_add(
                                    journaled_sp,
                                    c.spec_to_i64(),
                                )
                            } else {
                                vstd::wrapping::i64_specs::wrapping_sub(
                                    journaled_sp,
                                    c.spec_to_i64(),
                                )
                            };
                            StepOutcome {
                                def: d,
                                journaled_sp: j,
                                aborted: false,
                                logs: Seq::empty(),
                            }
                        } else {
                            StepOutcome {
                                def: d,
                                journaled_sp,
                                aborted: true,
                                logs: Seq::empty(),
                            }
                        },
                        None => StepOutcome {
                            def: d,
                            journaled_sp,
                            aborted: true,
                            logs: Seq::empty(),
                        },
                    }
                } else {
                    let so = spec_substitute(value, expected_alignment, journaled_sp, d.tid);
                    StepOutcome {
                        def: Term { tid: d.tid, term: Def::Assign { var, value: so.expression } },
                        journaled_sp,
                        aborted: so.unsubstitutable,
                        logs: so.logs,
                    }
                },
                _ => StepOutcome {
                    def: d,
                    journaled_sp,
                    aborted: true,
                    logs: seq![
                        LogRecord { text: "Unexpected assignment on SP"@, location: Some(d.tid) },
                    ],
                },
            }
        } else {
            StepOutcome { def: d, journaled_sp, aborted: false, logs: Seq::empty() }
        },
        _ => StepOutcome { def: d, journaled_sp, aborted: false, logs: Seq::empty() },
    }
}

/// What a run over a block's instructions yields: the instructions
/// afterwards and the diagnostics.
pub struct RunOutcome {
    /// The instructions after the run.
    pub defs: Seq<Term<Def>>,
    /// The diagnostics of the run.
    pub logs: Seq<LogRecord>,
}

/// The journaling run over a block's instructions, in order, starting from
/// the given journaled value.  The run stops at the first aborting
/// instruction: earlier rewrites stand, later instructions stay untouched.
pub open spec fn spec_run(
    defs: Seq<Term<Def>>,
    sp: Variable,
    expected_alignment: i64,
    journaled_sp: i64,
) -> RunOutcome
    decreases defs.len(),
{
    if defs.len() == 0 {
        RunOutcome { defs, logs: Seq::empty() }
    } else {
        let st = spec_step(defs[0], sp, expected_alignment, journaled_sp);
        if st.aborted {
            RunOutcome {
                defs: seq![st.def] + defs.subrange(1, defs.len() as int),
                logs: st.logs,
            }
        } else {
            let rest = spec_run(
                defs.subrange(1, defs.len() as int),
                sp,
                expected_alignment,
                st.journaled_sp,
            );
            RunOutcome { defs: seq![st.def] + rest.defs, logs: st.logs + rest.logs }
        }
    }
}

/// The new subroutine is the old one with the instructions of its
/// representative entry block rewritten by the journaling run; a
/// subroutine without such a block is untouched.
pub open spec fn sub_normalized(
    old_sub: Term<Sub>,
    new_sub: Term<Sub>,
    sp: Variable,
    expected_alignment: i64,
) -> bool {
    match spec_entry_block_index(old_sub.term) {
        None => new_sub == old_sub,
        Some(i) => {
            &&& new_sub.tid == old_sub.tid
            &&& new_sub.term.name == old_sub.term.name
            &&& new_sub.term.blocks@.len() == old_sub.term.blocks@.len()
            &&& forall|k: int|
                0 <= k < old_sub.term.blocks@.len() && k != i ==> new_sub.term.blocks@[k]
                    == old_sub.term.blocks@[k]
            &&& new_sub.term.blocks@[i].tid == old_sub.term.blocks@[i].tid
            &&& new_sub.term.blocks@[i].term.jmps == old_sub.term.blocks@[i].term.jmps
            &&& new_sub.term.blocks@[i].term.defs@ == spec_run(
                old_sub.term.blocks@[i].term.defs@,
                sp,
                expected_alignment,
                0,
            ).defs
        },
    }
}

/// The diagnostics of one subroutine: those of the journaling run over its
/// representative entry block, none when it has no such block.
pub open spec fn spec_sub_logs(s: Term<Sub>, sp: Variable, expected_alignment: i64) -> Seq<
    LogRecord,
> {
    match spec_entry_block_index(s.term) {
        None => Seq::empty(),
        Some(i) => spec_run(s.term.blocks@[i].term.defs@, sp, expected_alignment, 0).logs,
    }
}

/// The diagnostics of the whole pass: those of each subroutine, in order.
pub open spec fn spec_program_logs(
    subs: Seq<Term<Sub>>,
    sp: Variable,
    expected_alignment: i64,
) -> Seq<LogRecord>
    decreases subs.len(),
{
    if subs.len() == 0 {
        Seq::empty()
    } else {
        spec_sub_logs(subs[0], sp, expected_alignment) + spec_program_logs(
            subs.subrange(1, subs.len() as int),
            sp,
            expected_alignment,
        )
    }
}

/// The program after the pass: every subroutine normalized independently,
/// extern symbols and entry points untouched.
pub open spec fn program_normalized(
    old_p: Program,
    new_p: Program,
    sp: Variable,
    expected_alignment: i64,
) -> bool {
    &&& new_p.extern_symbols == old_p.extern_symbols
    &&& new_p.entry_points == old_p.entry_points
    &&& new_p.subs@.len() == old_p.subs@.len()
    &&& forall|i: int|
        0 <= i < old_p.subs@.len() ==> sub_normalized(
            old_p.subs@[i],
            #[trigger] new_p.subs@[i],
            sp,
            expected_alignment,
        )
}

/// Subtracting `x & m` from `x` clears bits of `x` and so never leaves the
/// 64-bit signed range.
proof fn lemma_and_sub_in_bounds(x: i64, m: i64)
    by (bit_vector)
    ensures
        -0x8000_0000_0000_0000 <= x - (x & m) <= 0x7fff_ffff_ffff_ffff,
{
}

/// Splits a pair of operands into the variable and the constant, keeping
/// track of their order; hands the operands back unchanged when they are
/// not one variable and one constant.
fn split_var_const(lhs: Expression, rhs: Expression) -> (r: Result<
    (Variable, Bitvector, bool),
    (Expression, Expression),
>)
    ensures
        match r {
            Ok(t) => {
                &&& spec_var_const(lhs, rhs) == Some((t.0, t.1))
                &&& t.2 ==> lhs == Expression::Var(t.0) && rhs == Expression::Const(t.1)
                &&& !t.2 ==> lhs == Expression::Const(t.1) && rhs == Expression::Var(t.0)
            },
            Err(p) => p.0 == lhs && p.1 == rhs && spec_var_const(lhs, rhs) is None,
        },
{
    match (lhs, rhs) {
        (Expression::Var(v), Expression::Const(c)) => Ok((v, c, true)),
        (Expression::Const(c), Expression::Var(v)) => Ok((v, c, false)),
        (l, r) => Err((l, r)),
    }
}

/// Updates the journaled stack pointer value by the constant operand of an
/// addition (`is_plus`) or subtraction on the stack pointer register, with
/// wrapping 64-bit arithmetic; leaves it unchanged and reports failure
/// when the operands are not the stack pointer register and a constant.
fn journal_sp_value(
    journaled_sp: &mut i64,
    is_plus: bool,
    operands: (&Expression, &Expression),
    sp_register: &Variable,
) -> (ok: bool)
    ensures
        match spec_var_const(*operands.0, *operands.1) {
            Some(t) => if var_eq(t.0, *sp_register) {
                &&& ok
                &&& *final(journaled_sp) == (if is_plus {
                    vstd::wrapping::i64_specs::wrapping_add(*old(journaled_sp), t.1.spec_to_i64())
                } else {
                    vstd::wrapping::i64_specs::wrapping_sub(*old(journaled_sp), t.1.spec_to_i64())
                })
            } else {
                !ok && *final(journaled_sp) == *old(journaled_sp)
            },
            None => !ok && *final(journaled_sp) == *old(journaled_sp),
        },
{
    let vc: Option<(&Variable, &Bitvector)> = match (operands.0, operands.1) {
        (Expression::Var(v), Expression::Const(c)) => Some((v, c)),
        (Expression::Const(c), Expression::Var(v)) => Some((v, c)),
        _ => None,
    };
    match vc {
        Some((v, c)) => {
            if v.eq(sp_register) {
                let cv = c.to_i64();
                if is_plus {
                    *journaled_sp = (*journaled_sp).wrapping_add(cv);
                } else {
                    *journaled_sp = (*journaled_sp).wrapping_sub(cv);
                }
                true
            } else {
                false
            }
        },
        None => false,
    }
}

/// Substitutes an AND operation on the stack pointer by a SUB operation
/// with the offset computed from the journaled stack pointer value and the
/// bitmask of the operation; reports any other operand shape as
/// unsubstitutable instead.
fn substitute(exp: &mut Expression, expected_alignment: i64, journaled_sp: i64, tid: &Tid) -> (r: (
    Vec<LogMessage>,
    bool,
))
    ensures
        ({
            let so = spec_substitute(*old(exp), expected_alignment, journaled_sp, *tid);
            &&& *final(exp) == so.expression
            &&& logs_match(r.0@, so.logs)
            &&& r.1 == so.unsubstitutable
        }),
{
    let mut logs: Vec<LogMessage> = Vec::new();
    let mut taken = Expression::Const(Bitvector { value: 0, width: ByteSize { bytes: 8 } });
    core::mem::swap(exp, &mut taken);
    match taken {
        Expression::BinOp { op, lhs, rhs } => {
            match split_var_const(*lhs, *rhs) {
                Ok((v, c, var_first)) => {
                    if op == BinOpType::IntAnd {
                        if c.negate().to_i64() != expected_alignment {
                            logs.push(
                                LogMessage::new_info("Unexpected alignment").location(tid.clone()),
                            );
                        }
                        let mask = c.to_i64();
                        let masked = journaled_sp & mask;
                        proof {
                            lemma_and_sub_in_bounds(journaled_sp, mask);
                        }
                        let offset = journaled_sp - masked;
                        let rewritten = Bitvector::from_i64(offset).resize_unsigned(c.width);
                        *exp = Expression::BinOp {
                            op: BinOpType::IntSub,
                            lhs: Box::new(Expression::Var(v)),
                            rhs: Box::new(Expression::Const(rewritten)),
                        };
                        (logs, false)
                    } else {
                        logs.push(
                            LogMessage::new_info("Unsubstitutable Operation on SP").location(
                                tid.clone(),
                            ),
                        );
                        if var_first {
                            *exp = Expression::BinOp {
                                op,
                                lhs: Box::new(Expression::Var(v)),
                                rhs: Box::new(Expression::Const(c)),
                            };
                        } else {
                            *exp = Expression::BinOp {
                                op,
                                lhs: Box::new(Expression::Const(c)),
                                rhs: Box::new(Expression::Var(v)),
                            };
                        }
                        (logs, true)
                    }
                },
                Err((l, r2)) => {
                    logs.push(
                        LogMessage::new_info(
                            "Unsubstitutable Operation on SP. Operants are not register and constant.",
                        ).location(tid.clone()),
                    );
                    *exp = Expression::BinOp { op, lhs: Box::new(l), rhs: Box::new(r2) };
                    (logs, true)
                },
            }
        },
        other => {
            logs.push(LogMessage::new_info("Unsubstitutable Operation on SP").location(tid.clone()));
            *exp = other;
            (logs, true)
        },
    }
}

/// What one executed step hands back to the block loop.
struct StepResult {
    def: Term<Def>,
    journaled_sp: i64,
    aborted: bool,
    logs: Vec<LogMessage>,
}

/// Journals or rewrites one instruction of the entry block.
fn step_def(d: Term<Def>, sp_register: &Variable, expected_alignment: i64, journaled_sp: i64) -> (r:
    StepResult)
    ensures
        ({
            let st = spec_step(d, *sp_register, expected_alignment, journaled_sp);
            &&& r.def == st.def
            &&& r.journaled_sp == st.journaled_sp
            &&& r.aborted == st.aborted
            &&& logs_match(r.logs@, st.logs)
        }),
{
    let Term { tid, term } = d;
    match term {
        Def::Assign { var, value } => {
            if var.eq(sp_register) {
                match value {
                    Expression::BinOp { op, lhs, rhs } => {
                        if op == BinOpType::IntAdd || op == BinOpType::IntSub {
                            let mut j = journaled_sp;
                            let ok = journal_sp_value(
                                &mut j,
                                op == BinOpType::IntAdd,
                                (&*lhs, &*rhs),
                                sp_register,
                            );
                            StepResult {
                                def: Term {
                                    tid,
                                    term: Def::Assign {
                                        var,
                                        value: Expression::BinOp { op, lhs, rhs },
                                    },
                                },
                                journaled_sp: j,
                                aborted: !ok,
                                logs: Vec::new(),
                            }
                        } else {
                            let mut value2 = Expression::BinOp { op, lhs, rhs };
                            let (logs, unsubstitutable) = substitute(
                                &mut value2,
                                expected_alignment,
                                journaled_sp,
                                &tid,
                            );
                            StepResult {
                                def: Term { tid, term: Def::Assign { var, value: value2 } },
                                journaled_sp,
                                aborted: unsubstitutable,
                                logs,
                            }
                        }
                    },
                    other => {
                        let mut logs: Vec<LogMessage> = Vec::new();
                        logs.push(
                            LogMessage::new_info("Unexpected assignment on SP").location(
                                tid.clone(),
                            ),
                        );
                        StepResult {
                            def: Term { tid, term: Def::Assign { var, value: other } },
                            journaled_sp,
                            aborted: true,
                            logs,
                        }
                    },
                }
            } else {
                StepResult {
                    def: Term { tid, term: Def::Assign { var, value } },
                    journaled_sp,
                    aborted: false,
                    logs: Vec::new(),
                }
            }
        },
        other => StepResult {
            def: Term { tid, term: other },
            journaled_sp,
            aborted: false,
            logs: Vec::new(),
        },
    }
}

/// Runs the journaling loop over the instructions of the entry block.
#[verifier::rlimit(100)]
fn process_defs(defs: Vec<Term<Def>>, sp_register: &Variable, expected_alignment: i64) -> (r: (
    Vec<Term<Def>>,
    Vec<LogMessage>,
))
    ensures
        ({
            let ro = spec_run(defs@, *sp_register, expected_alignment, 0);
            &&& r.0@ == ro.defs
            &&& logs_match(r.1@, ro.logs)
        }),
{
    let ghost orig: Seq<Term<Def>> = defs@;
    let mut rest = defs;
    let mut out: Vec<Term<Def>> = Vec::new();
    let mut logs: Vec<LogMessage> = Vec::new();
    let mut journaled_sp: i64 = 0;
    let ghost mut done_logs: Seq<LogRecord> = Seq::empty();
    #[verifier::loop_isolation(false)]
    while rest.len() > 0
        invariant
            logs_match(logs@, done_logs),
            spec_run(orig, *sp_register, expected_alignment, 0).defs == out@ + spec_run(
                rest@,
                *sp_register,
                expected_alignment,
                journaled_sp,
            ).defs,
            spec_run(orig, *sp_register, expected_alignment, 0).logs == done_logs + spec_run(
                rest@,
                *sp_register,
                expected_alignment,
                journaled_sp,
            ).logs,
        decreases rest@.len(),
    {
        let ghost rest0: Seq<Term<Def>> = rest@;
        let ghost j0 = journaled_sp;
        let ghost out0: Seq<Term<Def>> = out@;
        let ghost logs0: Seq<LogMessage> = logs@;
        let d = rest.remove(0);
        proof {
            assert(rest@ =~= rest0.subrange(1, rest0.len() as int));
        }
        let sr = step_def(d, sp_register, expected_alignment, journaled_sp);
        let StepResult { def: d2, journaled_sp: j2, aborted, logs: mut step_logs } = sr;
        let ghost st = spec_step(rest0[0], *sp_register, expected_alignment, j0);
        let ghost step_logs0: Seq<LogMessage> = step_logs@;
        let ghost done0: Seq<LogRecord> = done_logs;
        out.push(d2);
        logs.append(&mut step_logs);
        proof {
            lemma_logs_match_concat(logs0, step_logs0, done_logs, st.logs);
            done_logs = done_logs + st.logs;
            assert(logs@ =~= logs0 + step_logs0);
        }
        journaled_sp = j2;
        if aborted {
            let ghost out1: Seq<Term<Def>> = out@;
            out.append(&mut rest);
            proof {
                assert(spec_run(rest0, *sp_register, expected_alignment, j0).defs == seq![st.def]
                    + rest0.subrange(1, rest0.len() as int));
                assert(out@ =~= out1 + rest0.subrange(1, rest0.len() as int));
                assert(spec_run(orig, *sp_register, expected_alignment, 0).defs =~= out@);
                assert(spec_run(rest0, *sp_register, expected_alignment, j0).logs == st.logs);
                assert(spec_run(orig, *sp_register, expected_alignment, 0).logs =~= done_logs);
            }
            return (out, logs);
        }
        proof {
            assert(spec_run(rest0, *sp_register, expected_alignment, j0).defs == seq![st.def]
                + spec_run(rest@, *sp_register, expected_alignment, j2).defs);
            assert(spec_run(rest0, *sp_register, expected_alignment, j0).logs == st.logs
                + spec_run(rest@, *sp_register, expected_alignment, j2).logs);
            assert(out@ =~= out0.push(st.def));
            assert(out@ + spec_run(rest@, *sp_register, expected_alignment, j2).defs =~= out0
                + spec_run(rest0, *sp_register, expected_alignment, j0).defs);
            assert(done_logs + spec_run(rest@, *sp_register, expected_alignment, j2).logs
                =~= done0 + spec_run(rest0, *sp_register, expected_alignment, j0).logs);
        }
    }
    proof {
        assert(spec_run(orig, *sp_register, expected_alignment, 0).defs =~= out@);
        assert(spec_run(orig, *sp_register, expected_alignment, 0).logs =~= done_logs);
    }
    (out, logs)
}

/// Normalizes one subroutine: rewrites the instructions of its
/// representative entry block, leaving the subroutine untouched when it
/// has none.
fn normalize_sub(sub_term: Term<Sub>, sp_register: &Variable, expected_alignment: i64) -> (r: (
    Term<Sub>,
    Vec<LogMessage>,
))
    ensures
        sub_normalized(sub_term, r.0, *sp_register, expected_alignment),
        logs_match(r.1@, spec_sub_logs(sub_term, *sp_register, expected_alignment)),
{
    match get_first_blk_with_defs(&sub_term.term) {
        None => (sub_term, Vec::new()),
        Some(index) => {
            let ghost old_sub = sub_term;
            let mut sub_term = sub_term;
            let blk_t = sub_term.term.blocks.remove(index);
            let Term { tid: blk_tid, term: blk } = blk_t;
            let Blk { defs, jmps } = blk;
            let (new_defs, logs) = process_defs(defs, sp_register, expected_alignment);
            let new_blk = Term { tid: blk_tid, term: Blk { defs: new_defs, jmps } };
            sub_term.term.blocks.insert(index, new_blk);
            proof {
                assert(sub_term.term.blocks@ =~= old_sub.term.blocks@.update(
                    index as int,
                    sub_term.term.blocks@[index as int],
                ));
            }
            (sub_term, logs)
        },
    }
}

/// Substitutes logical AND on the stackpointer register by SUB, changing
/// the expression to use a constant computed from the journaled stack
/// pointer value and the bitmask of the operation.  The program is changed
/// in place; each subroutine is processed independently, and any shape the
/// journaling cannot follow abandons the current subroutine only.  Returns
/// the informational diagnostics of the pass, in order.
pub fn substitute_and_on_stackpointer(
    program: &mut Program,
    stack_pointer_register: &Variable,
    cpu_architecture: &str,
) -> (logs: Vec<LogMessage>)
    ensures
        program_normalized(
            *old(program),
            *final(program),
            *stack_pointer_register,
            spec_alignment_for(cpu_architecture@),
        ),
        logs_match(
            logs@,
            spec_program_logs(
                old(program).subs@,
                *stack_pointer_register,
                spec_alignment_for(cpu_architecture@),
            ),
        ),
{
    let sp_alignment = alignment_for(cpu_architecture);
    let mut logs: Vec<LogMessage> = Vec::new();
    let mut old_subs: Vec<Term<Sub>> = Vec::new();
    core::mem::swap(&mut program.subs, &mut old_subs);
    let ghost orig_subs: Seq<Term<Sub>> = old_subs@;
    let mut new_subs: Vec<Term<Sub>> = Vec::new();
    let ghost mut done_logs: Seq<LogRecord> = Seq::empty();
    while old_subs.len() > 0
        invariant
            sp_alignment == spec_alignment_for(cpu_architecture@),
            new_subs@.len() + old_subs@.len() == orig_subs.len(),
            forall|k: int|
                0 <= k < new_subs@.len() ==> sub_normalized(
                    orig_subs[k],
                    #[trigger] new_subs@[k],
                    *stack_pointer_register,
                    sp_alignment,
                ),
            forall|k: int|
                0 <= k < old_subs@.len() ==> old_subs@[k] == orig_subs[k + new_subs@.len()],
            logs_match(logs@, done_logs),
            spec_program_logs(orig_subs, *stack_pointer_register, sp_alignment) == done_logs
                + spec_program_logs(old_subs@, *stack_pointer_register, sp_alignment),
        decreases old_subs@.len(),
    {
        let ghost rest0: Seq<Term<Sub>> = old_subs@;
        let s = old_subs.remove(0);
        proof {
            assert(old_subs@ =~= rest0.subrange(1, rest0.len() as int));
        }
        let (s2, mut sub_logs) = normalize_sub(s, stack_pointer_register, sp_alignment);
        let ghost sl = spec_sub_logs(rest0[0], *stack_pointer_register, sp_alignment);
        new_subs.push(s2);
        proof {
            lemma_logs_match_concat(
                logs@,
                sub_logs@,
                done_logs,
                sl,
            );
            done_logs = done_logs + sl;
        }
        logs.append(&mut sub_logs);
        proof {
            assert(spec_program_logs(orig_subs, *stack_pointer_register, sp_alignment)
                =~= done_logs + spec_program_logs(
                old_subs@,
                *stack_pointer_register,
                sp_alignment,
            ));
        }
    }
    program.subs = new_subs;
    proof {
        assert(spec_program_logs(orig_subs, *stack_pointer_register, sp_alignment) =~= done_logs);
    }
    logs
}


/// The journaling run keeps every instruction's identifier in place.
proof fn lemma_run_preserves_tids(defs: Seq<Term<Def>>, sp: Variable, expected_alignment: i64, j: i64)
    ensures
        spec_run(defs, sp, expected_alignment, j).defs.len() == defs.len(),
        forall|n: int|
            0 <= n < defs.len() ==> #[trigger] spec_run(defs, sp, expected_alignment, j).defs[n].tid
                == defs[n].tid,
    decreases defs.len(),
{
    if defs.len() == 0 {
    } else {
        let st = spec_step(defs[0], sp, expected_alignment, j);
        assert(st.def.tid == defs[0].tid);
        if st.aborted {
        } else {
            lemma_run_preserves_tids(
                defs.subrange(1, defs.len() as int),
                sp,
                expected_alignment,
                st.journaled_sp,
            );
        }
    }
}

/// Normalization never touches a jump: every block of the new program has
/// the jumps of the corresponding old block.  So a program whose blocks
/// all satisfy the shape invariant — at most two jumps, a sole jump
/// unconditional, a pair led by the conditional one — keeps it.
pub proof fn lemma_normalization_preserves_block_shape(
    old_p: Program,
    new_p: Program,
    sp: Variable,
    expected_alignment: i64,
)
    requires
        program_normalized(old_p, new_p, sp, expected_alignment),
        forall|i: int, k: int|
            0 <= i < old_p.subs@.len() && 0 <= k < old_p.subs@[i].term.blocks@.len()
                ==> crate::term::blk_shape_ok(#[trigger] old_p.subs@[i].term.blocks@[k].term),
    ensures
        forall|i: int, k: int|
            0 <= i < new_p.subs@.len() && 0 <= k < new_p.subs@[i].term.blocks@.len()
                ==> crate::term::blk_shape_ok(#[trigger] new_p.subs@[i].term.blocks@[k].term),
{
    assert forall|i: int, k: int|
        0 <= i < new_p.subs@.len() && 0 <= k
            < new_p.subs@[i].term.blocks@.len() implies crate::term::blk_shape_ok(
        #[trigger] new_p.subs@[i].term.blocks@[k].term,
    ) by {
        let os = old_p.subs@[i];
        let ns = new_p.subs@[i];
        assert(sub_normalized(os, ns, sp, expected_alignment));
        assert(crate::term::blk_shape_ok(os.term.blocks@[k].term));
        match spec_entry_block_index(os.term) {
            None => {},
            Some(e) => {
                if k == e {
                    assert(ns.term.blocks@[k].term.jmps == os.term.blocks@[k].term.jmps);
                } else {
                    assert(ns.term.blocks@[k] == os.term.blocks@[k]);
                }
            },
        }
    }
}

/// Normalization keeps every term identifier of the program in place.
proof fn lemma_normalization_preserves_tids(
    old_p: Program,
    new_p: Program,
    sp: Variable,
    expected_alignment: i64,
)
    requires
        program_normalized(old_p, new_p, sp, expected_alignment),
    ensures
        crate::term::program_tids(new_p) == crate::term::program_tids(old_p),
{
    assert forall|i: int| 0 <= i < old_p.subs@.len() implies crate::term::sub_tids(
        #[trigger] new_p.subs@[i],
    ) == crate::term::sub_tids(old_p.subs@[i]) by {
        let os = old_p.subs@[i];
        let ns = new_p.subs@[i];
        assert(sub_normalized(os, ns, sp, expected_alignment));
        match spec_entry_block_index(os.term) {
            None => {},
            Some(e) => {
                assert forall|k: int| 0 <= k < os.term.blocks@.len() implies crate::term::blk_tids(
                    #[trigger] ns.term.blocks@[k],
                ) == crate::term::blk_tids(os.term.blocks@[k]) by {
                    if k == e {
                        let ob = os.term.blocks@[e];
                        let nb = ns.term.blocks@[e];
                        lemma_run_preserves_tids(ob.term.defs@, sp, expected_alignment, 0);
                        assert(nb.term.defs@.map_values(|d: Term<Def>| d.tid)
                            =~= ob.term.defs@.map_values(|d: Term<Def>| d.tid));
                        assert(crate::term::blk_tids(nb) =~= crate::term::blk_tids(ob));
                    } else {
                        assert(ns.term.blocks@[k] == os.term.blocks@[k]);
                    }
                }
                assert(ns.term.blocks@.map_values(|b: Term<Blk>| crate::term::blk_tids(b))
                    =~= os.term.blocks@.map_values(|b: Term<Blk>| crate::term::blk_tids(b)));
                assert(crate::term::sub_tids(ns) =~= crate::term::sub_tids(os));
            },
        }
    }
    assert(new_p.subs@.map_values(|s: Term<Sub>| crate::term::sub_tids(s))
        =~= old_p.subs@.map_values(|s: Term<Sub>| crate::term::sub_tids(s)));
    assert(new_p.extern_symbols@.map_values(|e: crate::term::ExternSymbol| e.tid)
        =~= old_p.extern_symbols@.map_values(|e: crate::term::ExternSymbol| e.tid));
    assert(crate::term::program_tids(new_p) =~= crate::term::program_tids(old_p));
}

/// Normalization preserves identity uniqueness: a program whose term
/// identifiers are pairwise distinct keeps them so, because the pass
/// rewrites expressions but never creates, drops or renames a term.
pub proof fn lemma_normalization_preserves_tid_uniqueness(
    old_p: Program,
    new_p: Program,
    sp: Variable,
    expected_alignment: i64,
)
    requires
        program_normalized(old_p, new_p, sp, expected_alignment),
        crate::term::program_tids_unique(old_p),
    ensures
        crate::term::program_tids_unique(new_p),
{
    lemma_normalization_preserves_tids(old_p, new_p, sp, expected_alignment);
}

} // verus!

