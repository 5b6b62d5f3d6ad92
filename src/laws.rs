//! Laws of the machine, each stated over the model and proved.

use vstd::prelude::*;
use crate::crab::{
    CrabState, RuntimeFault, INIT_X, INIT_Y, MAX_CYCLES, facing_ok, halted, label_index, parse_lines,
    parse_program, reset_spec, run, step_spec,
};
use crate::opcode::{Op, parse_op};
use crate::register::Registers;
use crate::text::trim;

verus! {

/// The label that a label jump names.
pub open spec fn jump_label(op: Op) -> Option<Seq<char>> {
    match op {
        Op::Jmp(l) | Op::Jez(l) | Op::Jnz(l) | Op::Jgz(l) | Op::Jlz(l) => Some(l),
        _ => None,
    }
}

/// Every label jump names a label that the program defines, and every
/// relative jump is by a literal that lands inside the program or just
/// after its end.
pub open spec fn closed_program(code: Seq<Op>) -> bool {
    forall|i: int|
        0 <= i < code.len() ==> {
            &&& (#[trigger] jump_label(code[i]) matches Some(l) ==> label_index(code, l, 0) is Some)
            &&& !(code[i] is Jro)
            &&& (code[i] matches Op::JroI(n) ==> 0 <= i + n <= code.len())
        }
}

/// A step fails only in the documented ways: as halted exactly when the
/// program has halted; with a missing label only at a label jump whose label
/// the program does not define; with a bad jump only at a relative jump that
/// lands before the start (or past what an index can hold); never as runaway.
pub proof fn lemma_step_faults(s: CrabState)
    ensures
        step_spec(s).1 == Err::<(), RuntimeFault>(RuntimeFault::Halted) <==> halted(s),
        step_spec(s).1 == Err::<(), RuntimeFault>(RuntimeFault::LabelNotFound) ==> !halted(s)
            && (jump_label(s.code[s.ip as int]) matches Some(l) && label_index(s.code, l, 0) is None),
        step_spec(s).1 == Err::<(), RuntimeFault>(RuntimeFault::BadJump) ==> !halted(s) && ({
            let t = match s.code[s.ip as int] {
                Op::JroI(n) => s.ip + n,
                Op::Jro(r) => s.ip + s.registers.value(r),
                _ => 0,
            };
            &&& (s.code[s.ip as int] is JroI || s.code[s.ip as int] is Jro)
            &&& (t < 0 || t > usize::MAX)
        }),
        step_spec(s).1 != Err::<(), RuntimeFault>(RuntimeFault::Runaway),
{
}

/// A step keeps the program.
pub proof fn lemma_step_keeps_code(s: CrabState)
    ensures
        step_spec(s).0.code == s.code,
{
}

/// A program whose jumps all resolve never faults while it runs: each step
/// before it halts succeeds, and a run ends halted or as runaway.
pub proof fn lemma_closed_program_never_faults(s: CrabState, k: nat)
    requires
        closed_program(s.code),
        s.code.len() <= usize::MAX,
        !halted(s),
    ensures
        step_spec(s).1 is Ok,
        run(s, k).1 is Ok || run(s, k).1 == Err::<(), RuntimeFault>(RuntimeFault::Runaway),
    decreases k,
{
    let op = s.code[s.ip as int];
    assert(jump_label(op) matches Some(l) ==> label_index(s.code, l, 0) is Some);
    lemma_step_keeps_code(s);
    let s1 = step_spec(s).0;
    if !halted(s1) && k > 0 {
        lemma_closed_program_never_faults(s1, (k - 1) as nat);
    }
}

/// Lines `i` and `j` of `ls` swapped.
pub open spec fn swapped<T>(ls: Seq<T>, i: int, j: int) -> Seq<T> {
    ls.update(i, ls[j]).update(j, ls[i])
}

/// The lines load exactly when each line, trimmed, holds an instruction; the
/// program is then those instructions in order.
pub proof fn lemma_parse_lines_each(ls: Seq<Seq<char>>)
    ensures
        parse_lines(ls) is Ok <==> forall|i: int| 0 <= i < ls.len() ==> parse_op(trim(#[trigger] ls[i])) is Some,
        parse_lines(ls) is Ok ==> {
            let ops = parse_lines(ls)->Ok_0;
            &&& ops.len() == ls.len()
            &&& forall|i: int| 0 <= i < ls.len() ==> parse_op(trim(#[trigger] ls[i])) == Some(ops[i])
        },
    decreases ls.len(),
{
    if ls.len() > 0 {
        let p = ls.drop_last();
        lemma_parse_lines_each(p);
        assert forall|i: int| 0 <= i < p.len() implies #[trigger] p[i] == ls[i] by {}
        if parse_lines(ls) is Ok {
            let ops = parse_lines(ls)->Ok_0;
            assert forall|i: int| 0 <= i < ls.len() implies parse_op(trim(#[trigger] ls[i])) == Some(ops[i]) by {
                if i < p.len() {
                    assert(p[i] == ls[i]);
                }
            }
        }
        if forall|i: int| 0 <= i < ls.len() ==> parse_op(trim(#[trigger] ls[i])) is Some {
            assert forall|i: int| 0 <= i < p.len() implies parse_op(trim(#[trigger] p[i])) is Some by {
                assert(p[i] == ls[i]);
            }
            assert(parse_op(trim(ls[ls.len() - 1])) is Some);
        } else {
            let i = choose|i: int| 0 <= i < ls.len() && !(parse_op(trim(#[trigger] ls[i])) is Some);
            if i < p.len() {
                assert(p[i] == ls[i]);
            }
        }
    }
}

/// Whether a line loads depends on that line alone: swapping two lines of a
/// program that loads gives a program that loads, with the two instructions
/// swapped.
pub proof fn lemma_swap_lines(ls: Seq<Seq<char>>, i: int, j: int)
    requires
        0 <= i < ls.len(),
        0 <= j < ls.len(),
        parse_lines(ls) is Ok,
    ensures
        parse_lines(swapped(ls, i, j)) == Ok::<Seq<Op>, int>(swapped(parse_lines(ls)->Ok_0, i, j)),
{
    let ops = parse_lines(ls)->Ok_0;
    let ls2 = swapped(ls, i, j);
    lemma_parse_lines_each(ls);
    lemma_parse_lines_each(ls2);
    assert forall|k: int| 0 <= k < ls2.len() implies parse_op(trim(#[trigger] ls2[k])) == Some(
        swapped(ops, i, j)[k],
    ) by {}
    let ops2 = parse_lines(ls2)->Ok_0;
    assert(ops2 =~= swapped(ops, i, j)) by {
        assert forall|k: int| 0 <= k < ops2.len() implies ops2[k] == swapped(ops, i, j)[k] by {
            assert(parse_op(trim(ls2[k])) == Some(ops2[k]));
        }
    }
}

/// A reset puts registers, instruction pointer and position back where a
/// new crab has them, keeps the program, and changes nothing more when
/// done twice.
pub proof fn lemma_reset(s: CrabState)
    ensures
        reset_spec(reset_spec(s)) == reset_spec(s),
        reset_spec(s).registers == Registers::zeroed(),
        reset_spec(s).ip == 0,
        reset_spec(s).pos_x == INIT_X && reset_spec(s).pos_y == INIT_Y,
        reset_spec(s).code == s.code,
        facing_ok(reset_spec(s)),
{
}

/// The states that `n` steps from `s` pass through, `s` first.
pub open spec fn trace(s: CrabState, n: nat) -> Seq<CrabState>
    decreases n,
{
    if n == 0 {
        seq![s]
    } else {
        let t = trace(s, (n - 1) as nat);
        t.push(step_spec(t.last()).0)
    }
}

/// The state after a load of `p`.
pub open spec fn loaded(s: CrabState, p: Seq<Op>) -> CrabState {
    CrabState { code: p, ..s }
}

/// Loading a text into a reset crab, running it, then resetting and loading
/// the same text again brings back the state the first run started from, so
/// the second run passes through the same states and ends the same way.
pub proof fn lemma_reload_replays(s: CrabState, text: Seq<char>, n: nat)
    requires
        s == reset_spec(s),
        parse_program(text) is Ok,
    ensures
        ({
            let p = parse_program(text)->Ok_0;
            let first = loaded(s, p);
            let again = loaded(reset_spec(run(first, MAX_CYCLES as nat).0), p);
            &&& again == first
            &&& trace(again, n) == trace(first, n)
            &&& run(again, MAX_CYCLES as nat) == run(first, MAX_CYCLES as nat)
        }),
{
}

/// A label followed by an unconditional jump back to it.
pub open spec fn spin_program(l: Seq<char>) -> Seq<Op> {
    seq![Op::Label(l), Op::Jmp(l)]
}

/// A label followed by a jump back to it never halts: every run of it
/// ends as runaway, whatever the allowance.
pub proof fn lemma_spin_is_runaway(s: CrabState, l: Seq<char>, k: nat)
    requires
        s.code == spin_program(l),
        s.ip < 2,
        facing_ok(s),
    ensures
        run(s, k).1 == Err::<(), RuntimeFault>(RuntimeFault::Runaway),
    decreases k,
{
    assert(label_index(s.code, l, 0) == Some(0int));
    let s1 = step_spec(s).0;
    assert(s1.code == s.code && s1.ip < 2 && facing_ok(s1));
    if k > 0 {
        lemma_spin_is_runaway(s1, l, (k - 1) as nat);
    }
}

} // verus!
