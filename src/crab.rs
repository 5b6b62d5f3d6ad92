//! The machine: a crab with registers, a program, an instruction pointer and
//! a position on the floor, stepped one instruction at a time.

use vstd::prelude::*;
use vstd::string::StrSliceExecFns;
use vstd::wrapping::i32_specs;
use crate::register::{Register, Registers};
use crate::opcode::{Op, OpCode, parse_op};
use crate::text::{chars_of, trim_str, trim, lines, pieces};

verus! {

/// The column where a crab stands after a reset.
pub const INIT_X: i32 = 3;

/// The row where a crab stands after a reset.
pub const INIT_Y: i32 = 3;

/// `execute` gives a program up as runaway once it has run more than this
/// many steps without halting.
pub const MAX_CYCLES: usize = 1_000_000;

/// Why a step or a run failed.
#[derive(Clone, Copy, Debug, PartialEq, Eq, Structural)]
pub enum RuntimeFault {
    /// The instruction pointer is past the program: there is nothing to run.
    Halted,
    /// A jump names a label that the program does not define.
    LabelNotFound,
    /// A relative jump lands before the start of the program (or past
    /// any index a machine word can hold).
    BadJump,
    /// The program ran for more than `MAX_CYCLES` steps without halting.
    Runaway,
}

impl RuntimeFault {
    /// A sentence that describes the fault.
    pub fn message(&self) -> (r: String)
        ensures
            r@ == match self {
                RuntimeFault::Halted => "Runtime error: instruction pointer OOB"@,
                RuntimeFault::LabelNotFound => "Cannot find label."@,
                RuntimeFault::BadJump => "Cannot jump to that location"@,
                RuntimeFault::Runaway => "executed more than 1000000 cycles"@,
            },
    {
        match self {
            RuntimeFault::Halted => "Runtime error: instruction pointer OOB".to_owned(),
            RuntimeFault::LabelNotFound => "Cannot find label.".to_owned(),
            RuntimeFault::BadJump => "Cannot jump to that location".to_owned(),
            RuntimeFault::Runaway => "executed more than 1000000 cycles".to_owned(),
        }
    }
}

/// The crab.
#[derive(Debug)]
pub struct Crab {
    pub registers: Registers,
    /// instruction pointer
    pub ip: usize,
    pub code: Vec<OpCode>,
    pub pos_y: i32,
    pub pos_x: i32,
}

/// What a crab is: its registers, instruction pointer, program and position.
pub struct CrabState {
    pub registers: Registers,
    pub ip: usize,
    pub code: Seq<Op>,
    pub pos_x: i32,
    pub pos_y: i32,
}

impl View for Crab {
    type V = CrabState;

    open spec fn view(&self) -> CrabState {
        CrabState {
            registers: self.registers,
            ip: self.ip,
            code: self.code@.map_values(|op: OpCode| op@),
            pos_x: self.pos_x,
            pos_y: self.pos_y,
        }
    }
}

/// The facing register holds one of the four directions.
pub open spec fn facing_ok(s: CrabState) -> bool {
    0 <= s.registers.r < 4
}

/// The program has run off its end (normally exactly onto it).
pub open spec fn halted(s: CrabState) -> bool {
    s.ip >= s.code.len()
}

/// The unit step sideways for a facing: crabs walk along the axis
/// orthogonal to where they face.
pub open spec fn dir_of(r: i32) -> (int, int) {
    if r == 0 {
        (-1, 0)
    } else if r == 1 {
        (0, -1)
    } else if r == 2 {
        (1, 0)
    } else {
        (0, 1)
    }
}

pub open spec fn sign(v: i32) -> int {
    if v > 0 {
        1
    } else if v < 0 {
        -1
    } else {
        0
    }
}

/// The state after one move: one cell sideways, in the direction that the
/// sign of the motor register gives (none where it is zero).
pub open spec fn moved(s: CrabState) -> CrabState {
    let (dx, dy) = dir_of(s.registers.r);
    let k = sign(s.registers.m);
    CrabState {
        pos_x: i32_specs::wrapping_add(s.pos_x, (dx * k) as i32),
        pos_y: i32_specs::wrapping_add(s.pos_y, (dy * k) as i32),
        ..s
    }
}

/// Every instruction but a label definition and a comment moves the crab.
pub open spec fn moves(op: Op) -> bool {
    !(op is Label || op is Comment)
}

/// The index of the first definition of label `name` at or after `i`.
pub open spec fn label_index(code: Seq<Op>, name: Seq<char>, i: int) -> Option<int>
    decreases code.len() - i,
{
    if i < 0 || i >= code.len() {
        None
    } else if code[i] == Op::Label(name) {
        Some(i)
    } else {
        label_index(code, name, i + 1)
    }
}

pub open spec fn advanced(s: CrabState) -> CrabState {
    CrabState { ip: (s.ip + 1) as usize, ..s }
}

/// A jump to label `name`, taken where `taken` holds.
pub open spec fn jump_to_label(s: CrabState, name: Seq<char>, taken: bool) -> (
    CrabState,
    Result<(), RuntimeFault>,
) {
    match label_index(s.code, name, 0) {
        None => (s, Err(RuntimeFault::LabelNotFound)),
        Some(i) => if taken {
            (CrabState { ip: i as usize, ..s }, Ok(()))
        } else {
            (advanced(s), Ok(()))
        },
    }
}

/// A jump by `n` instructions from the current one, which lies inside the
/// program (a step on a halted program fails before it gets here). The
/// destination is not held to the program's length: past the end, the
/// program has halted.
pub open spec fn jump_by(s: CrabState, n: int) -> (CrabState, Result<(), RuntimeFault>) {
    let t = s.ip + n;
    if t < 0 || t > usize::MAX {
        (s, Err(RuntimeFault::BadJump))
    } else {
        (CrabState { ip: t as usize, ..s }, Ok(()))
    }
}

/// The bank after a write of `val` to `reg`, and the instruction pointer moved on.
pub open spec fn wrote(s: CrabState, reg: Register, val: i32) -> (CrabState, Result<(), RuntimeFault>) {
    (advanced(CrabState { registers: s.registers.written(reg, val), ..s }), Ok(()))
}

/// What instruction `op` does to `s` (after the crab has moved).
pub open spec fn perform(s: CrabState, op: Op) -> (CrabState, Result<(), RuntimeFault>) {
    let regs = s.registers;
    let acc = regs.a;
    match op {
        Op::Nop => (advanced(s), Ok(())),
        Op::Label(_) => (advanced(s), Ok(())),
        Op::Comment(_) => (advanced(s), Ok(())),
        Op::MovI(n, r) => wrote(s, r, n),
        Op::Mov(src, r) => wrote(s, r, regs.value(src)),
        Op::AddI(n, r) => wrote(s, r, i32_specs::wrapping_add(regs.value(r), n)),
        Op::Add(src, r) => wrote(s, r, i32_specs::wrapping_add(regs.value(r), regs.value(src))),
        Op::SubI(n, r) => wrote(s, r, i32_specs::wrapping_sub(regs.value(r), n)),
        Op::Sub(src, r) => wrote(s, r, i32_specs::wrapping_sub(regs.value(r), regs.value(src))),
        Op::Neg(r) => wrote(s, r, i32_specs::wrapping_sub(0, regs.value(r))),
        Op::Jmp(l) => jump_to_label(s, l, true),
        Op::Jez(l) => jump_to_label(s, l, acc == 0),
        Op::Jnz(l) => jump_to_label(s, l, acc != 0),
        Op::Jgz(l) => jump_to_label(s, l, acc > 0),
        Op::Jlz(l) => jump_to_label(s, l, acc < 0),
        Op::JroI(n) => jump_by(s, n as int),
        Op::Jro(r) => jump_by(s, regs.value(r) as int),
        Op::Rcw => (
            advanced(CrabState { registers: Registers { r: ((regs.r + 1) % 4) as i32, ..regs }, ..s }),
            Ok(()),
        ),
        Op::Rcc => (
            advanced(CrabState { registers: Registers { r: ((regs.r + 3) % 4) as i32, ..regs }, ..s }),
            Ok(()),
        ),
    }
}

/// One step: fail where the program has halted; else move (unless the
/// instruction is a label or a comment), then perform the instruction.
/// A fault leaves the state as it stands at that point.
pub open spec fn step_spec(s: CrabState) -> (CrabState, Result<(), RuntimeFault>) {
    if halted(s) {
        (s, Err(RuntimeFault::Halted))
    } else {
        let op = s.code[s.ip as int];
        perform(if moves(op) { moved(s) } else { s }, op)
    }
}

/// Steps from `s` until the program halts or faults, allowing `k` more steps
/// after the first before the run counts as runaway.
pub open spec fn run(s: CrabState, k: nat) -> (CrabState, Result<(), RuntimeFault>)
    decreases k,
{
    let (s1, r) = step_spec(s);
    if r is Err {
        (s1, r)
    } else if halted(s1) {
        (s1, Ok(()))
    } else if k == 0 {
        (s1, Err(RuntimeFault::Runaway))
    } else {
        run(s1, (k - 1) as nat)
    }
}

/// The state that a reset leaves: registers zero, pointer at the start,
/// crab at its initial cell, program kept.
pub open spec fn reset_spec(s: CrabState) -> CrabState {
    CrabState { registers: Registers::zeroed(), ip: 0, pos_x: INIT_X, pos_y: INIT_Y, ..s }
}

/// The program that a list of lines holds, or the index of the first line
/// (trimmed of white space) that holds no instruction.
pub open spec fn parse_lines(ls: Seq<Seq<char>>) -> Result<Seq<Op>, int>
    decreases ls.len(),
{
    if ls.len() == 0 {
        Ok(Seq::empty())
    } else {
        match parse_lines(ls.drop_last()) {
            Err(i) => Err(i),
            Ok(ops) => match parse_op(trim(ls.last())) {
                Some(op) => Ok(ops.push(op)),
                None => Err(ls.len() - 1),
            },
        }
    }
}

/// The program that a text holds, one instruction per line.
pub open spec fn parse_program(text: Seq<char>) -> Result<Seq<Op>, int> {
    parse_lines(lines(text))
}

impl Crab {
    /// The crab runs only with its facing register in range.
    pub open spec fn wf(&self) -> bool {
        facing_ok(self@)
    }

    /// A crab in its reset state, with no program.
    pub fn new() -> (r: Crab)
        ensures
            r.wf(),
            r@ == reset_spec(r@),
            r@.code.len() == 0,
    {
        let r = Crab {
            registers: Registers::new(),
            ip: 0,
            code: Vec::new(),
            pos_x: INIT_X,
            pos_y: INIT_Y,
        };
        assert(r@.code =~= Seq::<Op>::empty());
        r
    }

    /// Whether the program has halted.
    pub fn stopped(&self) -> (r: bool)
        ensures
            r == halted(self@),
    {
        self.ip >= self.code.len()
    }

    /// The value held by `reg`.
    pub fn get_reg(&self, reg: Register) -> (r: i32)
        ensures
            r == self.registers.value(reg),
    {
        self.registers.get(reg)
    }

    /// Write access to `reg`; none to the facing register, which only the
    /// rotate instructions change.
    pub fn get_reg_mut(&mut self, reg: Register) -> (r: Option<&mut i32>)
        ensures
            reg == Register::R ==> r is None && *final(self) == *old(self),
            reg != Register::R ==> r is Some && *r->0 == old(self).registers.value(reg)
                && final(self).registers == old(self).registers.written(reg, *final(r->0))
                && final(self).ip == old(self).ip && final(self).code == old(self).code
                && final(self).pos_x == old(self).pos_x && final(self).pos_y == old(self).pos_y,
    {
        match reg {
            Register::H => Some(&mut self.registers.h),
            Register::V => Some(&mut self.registers.v),
            Register::A => Some(&mut self.registers.a),
            Register::M => Some(&mut self.registers.m),
            Register::R => None,
        }
    }

    /// The unit vector of the crab's degree of freedom. Crabs walk sideways,
    /// so it lies on the axis orthogonal to where the crab faces:
    ///
    /// 0 v : the crab's right is (x, y) = (-1, 0)
    /// 1 < : the crab's right is (x, y) = (0, -1)
    /// 2 ^ : the crab's right is (x, y) = (1, 0)
    /// 3 > : the crab's right is (x, y) = (0, 1)
    pub fn dir(&self) -> (r: (i32, i32))
        requires
            self.wf(),
        ensures
            (r.0 as int, r.1 as int) == dir_of(self.registers.r),
    {
        let r = self.registers.r;
        if r == 0 {
            (-1, 0)
        } else if r == 1 {
            (0, -1)
        } else if r == 2 {
            (1, 0)
        } else {
            (0, 1)
        }
    }

    /// Moves the crab one cell sideways as its motor register says, unless
    /// the program has halted.
    pub fn motor(&mut self)
        requires
            old(self).wf(),
        ensures
            final(self).code == old(self).code,
            final(self)@ == if halted(old(self)@) {
                old(self)@
            } else {
                moved(old(self)@)
            },
    {
        if self.stopped() {
            return;
        }
        let m = self.registers.m;
        let to_move: i32 = if m > 0 {
            1
        } else if m < 0 {
            -1
        } else {
            0
        };
        let (x, y) = self.dir();
        let dx: i32 = x * to_move;
        let dy: i32 = y * to_move;
        self.pos_x = self.pos_x.wrapping_add(dx);
        self.pos_y = self.pos_y.wrapping_add(dy);
    }

    /// Sensor readings come from the world around the crab: its driver
    /// writes them to `H` and `V` through `get_reg_mut`. The crab itself
    /// reads nothing, so this leaves it as it is.
    pub fn sensor(&mut self)
        ensures
            *final(self) == *old(self),
    {
    }

    /// Zeros every register, puts the instruction pointer at the start and
    /// the crab back on its initial cell; the program stays.
    pub fn reset(&mut self)
        ensures
            final(self).code == old(self).code,
            final(self)@ == reset_spec(old(self)@),
            final(self).wf(),
    {
        self.registers = Registers::new();
        self.pos_x = INIT_X;
        self.pos_y = INIT_Y;
        self.ip = 0;
    }

    /// The index of the first definition of label `to_find`.
    fn find_label(&self, to_find: &String) -> (r: Option<usize>)
        ensures
            match label_index(self@.code, to_find@, 0) {
                Some(i) => r == Some(i as usize),
                None => r is None,
            },
    {
        let mut i: usize = 0;
        while i < self.code.len()
            invariant
                i <= self.code.len(),
                label_index(self@.code, to_find@, 0) == label_index(self@.code, to_find@, i as int),
            decreases self.code.len() - i,
        {
            match &self.code[i] {
                OpCode::LABEL(lbl) => {
                    if *lbl == *to_find {
                        return Some(i);
                    }
                },
                _ => {},
            }
            i = i + 1;
        }
        None
    }

    /// Writes `val` to `reg` (not to the facing register) and moves on to
    /// the next instruction.
    fn write_and_advance(&mut self, reg: Register, val: i32)
        requires
            old(self).ip < old(self).code.len(),
        ensures
            final(self).code == old(self).code,
            (final(self)@, Ok::<(), RuntimeFault>(())) == wrote(old(self)@, reg, val),
    {
        self.registers.set(reg, val);
        self.ip = self.ip + 1;
    }

    /// A relative jump by `n` from the current instruction.
    fn jump_by(&mut self, n: i32) -> (r: Result<(), RuntimeFault>)
        ensures
            final(self).code == old(self).code,
            (final(self)@, r) == jump_by(old(self)@, n as int),
    {
        let t: i128 = self.ip as i128 + n as i128;
        if t < 0 || t > usize::MAX as i128 {
            return Err(RuntimeFault::BadJump);
        }
        self.ip = t as usize;
        Ok(())
    }

    /// A jump to the label found at `loc` (none found where it is `None`),
    /// taken where `taken` holds.
    fn follow(&mut self, loc: Option<usize>, taken: bool) -> (r: Result<(), RuntimeFault>)
        requires
            old(self).ip < old(self).code.len(),
        ensures
            final(self).code == old(self).code,
            (final(self)@, r) == match loc {
                None => (old(self)@, Err(RuntimeFault::LabelNotFound)),
                Some(i) => if taken {
                    (CrabState { ip: i, ..old(self)@ }, Ok(()))
                } else {
                    (advanced(old(self)@), Ok(()))
                },
            },
    {
        match loc {
            None => Err(RuntimeFault::LabelNotFound),
            Some(i) => {
                if taken {
                    self.ip = i;
                } else {
                    self.ip = self.ip + 1;
                }
                Ok(())
            },
        }
    }

    /// Executes one instruction. Fails where the program has halted, where a
    /// jump names a label that the program lacks, and where a relative jump
    /// would land before the start; the crab is left as it stands then.
    pub fn step(&mut self) -> (r: Result<(), RuntimeFault>)
        requires
            old(self).wf(),
        ensures
            final(self).wf(),
            final(self).code == old(self).code,
            (final(self)@, r) == step_spec(old(self)@),
    {
        if self.stopped() {
            return Err(RuntimeFault::Halted);
        }
        let walks = match &self.code[self.ip] {
            OpCode::LABEL(_) | OpCode::COMMENT(_) => false,
            _ => true,
        };
        if walks {
            self.motor();
        }
        self.perform()
    }

    /// Performs the current instruction (after the crab has moved).
    fn perform(&mut self) -> (r: Result<(), RuntimeFault>)
        requires
            old(self).wf(),
            old(self).ip < old(self).code.len(),
        ensures
            final(self).wf(),
            final(self).code == old(self).code,
            (final(self)@, r) == perform(old(self)@, old(self)@.code[old(self).ip as int]),
    {
        let code = &self.code;
        let ip = self.ip;
        match &code[ip] {
            OpCode::NOP | OpCode::LABEL(_) | OpCode::COMMENT(_) => {
                self.ip = ip + 1;
                Ok(())
            },
            OpCode::MOVI(n, reg) => {
                self.write_and_advance(*reg, *n);
                Ok(())
            },
            OpCode::MOV(src, reg) => {
                let val = self.registers.get(*src);
                self.write_and_advance(*reg, val);
                Ok(())
            },
            OpCode::ADDI(n, reg) => {
                let val = self.registers.get(*reg).wrapping_add(*n);
                self.write_and_advance(*reg, val);
                Ok(())
            },
            OpCode::ADD(src, reg) => {
                let val = self.registers.get(*reg).wrapping_add(self.registers.get(*src));
                self.write_and_advance(*reg, val);
                Ok(())
            },
            OpCode::SUBI(n, reg) => {
                let val = self.registers.get(*reg).wrapping_sub(*n);
                self.write_and_advance(*reg, val);
                Ok(())
            },
            OpCode::SUB(src, reg) => {
                let val = self.registers.get(*reg).wrapping_sub(self.registers.get(*src));
                self.write_and_advance(*reg, val);
                Ok(())
            },
            OpCode::NEG(reg) => {
                let val = 0i32.wrapping_sub(self.registers.get(*reg));
                self.write_and_advance(*reg, val);
                Ok(())
            },
            OpCode::JMP(lbl) => {
                let loc = self.find_label(lbl);
                self.follow(loc, true)
            },
            OpCode::JEZ(lbl) => {
                let taken = self.registers.a == 0;
                let loc = self.find_label(lbl);
                self.follow(loc, taken)
            },
            OpCode::JNZ(lbl) => {
                let taken = self.registers.a != 0;
                let loc = self.find_label(lbl);
                self.follow(loc, taken)
            },
            OpCode::JGZ(lbl) => {
                let taken = self.registers.a > 0;
                let loc = self.find_label(lbl);
                self.follow(loc, taken)
            },
            OpCode::JLZ(lbl) => {
                let taken = self.registers.a < 0;
                let loc = self.find_label(lbl);
                self.follow(loc, taken)
            },
            OpCode::JROI(n) => self.jump_by(*n),
            OpCode::JRO(reg) => {
                let n = self.registers.get(*reg);
                self.jump_by(n)
            },
            OpCode::RCW => {
                self.registers.r = (self.registers.r + 1) % 4;
                self.ip = ip + 1;
                Ok(())
            },
            OpCode::RCC => {
                self.registers.r = (self.registers.r + 3) % 4;
                self.ip = ip + 1;
                Ok(())
            },
        }
    }

    /// Runs the program until it halts. Fails with the first fault of a
    /// step, or as runaway once more than `MAX_CYCLES` steps have run
    /// without the program halting.
    pub fn execute(&mut self) -> (r: Result<(), RuntimeFault>)
        requires
            old(self).wf(),
        ensures
            final(self).wf(),
            final(self).code == old(self).code,
            (final(self)@, r) == run(old(self)@, MAX_CYCLES as nat),
    {
        let mut cycles: usize = 0;
        loop
            invariant
                self.wf(),
                self.code == old(self).code,
                cycles <= MAX_CYCLES,
                run(old(self)@, MAX_CYCLES as nat) == run(self@, (MAX_CYCLES - cycles) as nat),
            decreases MAX_CYCLES - cycles,
        {
            cycles = cycles + 1;
            match self.step() {
                Err(e) => return Err(e),
                Ok(()) => {},
            }
            if self.ip >= self.code.len() {
                return Ok(());
            }
            if cycles > MAX_CYCLES {
                return Err(RuntimeFault::Runaway);
            }
        }
    }

    /// Replaces the program with the one in `code`, one instruction per
    /// line. Where a line holds no instruction, fails with the index of the
    /// first such line and leaves the crab as it was. Nothing else changes.
    pub fn load_code(&mut self, code: &str) -> (r: Result<(), usize>)
        ensures
            match parse_program(code@) {
                Ok(p) => r is Ok && final(self)@ == CrabState { code: p, ..old(self)@ },
                Err(i) => r == Err::<(), usize>(i as usize) && *final(self) == *old(self),
            },
    {
        let cs = chars_of(code);
        let spans = line_spans(&cs);
        let ghost ls = lines(code@);
        let mut ops: Vec<OpCode> = Vec::new();
        let mut k: usize = 0;
        assert(ls.take(0) =~= Seq::<Seq<char>>::empty());
        assert(ops@.map_values(|op: OpCode| op@) =~= Seq::<Op>::empty());
        while k < spans.len()
            invariant
                k <= spans.len(),
                ls == lines(code@),
                spans.len() == ls.len(),
                cs@ == code@,
                line_spans_of(code@, spans@),
                parse_lines(ls.take(k as int)) == Ok::<Seq<Op>, int>(ops@.map_values(|op: OpCode| op@)),
            decreases spans.len() - k,
        {
            let (a, b) = spans[k];
            assert(a <= b <= cs.len() && code@.subrange(a as int, b as int) == ls[k as int]);
            let line = code.substring_char(a, b);
            let t = trim_str(line);
            let ghost prev = ops@.map_values(|op: OpCode| op@);
            assert(ls.take(k + 1).drop_last() =~= ls.take(k as int));
            match OpCode::parse(t) {
                Some(op) => {
                    ops.push(op);
                    assert(ops@.map_values(|op: OpCode| op@) =~= prev.push(op@));
                },
                None => {
                    proof {
                        lemma_parse_lines_err(ls, k + 1);
                    }
                    return Err(k);
                },
            }
            k = k + 1;
        }
        assert(ls.take(k as int) =~= ls);
        self.code = ops;
        Ok(())
    }
}

/// Once a prefix of the lines has a line without an instruction, so do all
/// the lines, at the same index.
proof fn lemma_parse_lines_err(ls: Seq<Seq<char>>, j: int)
    requires
        0 <= j <= ls.len(),
        parse_lines(ls.take(j)) is Err,
    ensures
        parse_lines(ls) == parse_lines(ls.take(j)),
    decreases ls.len() - j,
{
    if j < ls.len() {
        assert(ls.take(j + 1).drop_last() =~= ls.take(j));
        lemma_parse_lines_err(ls, j + 1);
    } else {
        assert(ls.take(j) =~= ls);
    }
}

/// `r` holds the start and end of each line of `s`.
pub open spec fn line_spans_of(s: Seq<char>, r: Seq<(usize, usize)>) -> bool {
    &&& r.len() == lines(s).len()
    &&& forall|j: int|
        0 <= j < r.len() ==> #[trigger] r[j].0 <= r[j].1 <= s.len() && s.subrange(
            r[j].0 as int,
            r[j].1 as int,
        ) == lines(s)[j]
}

/// Start and end of each line of `s`.
fn line_spans(s: &Vec<char>) -> (r: Vec<(usize, usize)>)
    ensures
        line_spans_of(s@, r@),
{
    let mut r: Vec<(usize, usize)> = Vec::new();
    let mut start: usize = 0;
    let mut i: usize = 0;
    assert(s@.take(0) =~= Seq::<char>::empty());
    assert(s@.subrange(0, 0) =~= Seq::<char>::empty());
    assert(r@.map_values(|p: (usize, usize)| s@.subrange(p.0 as int, p.1 as int)) =~= Seq::<Seq<char>>::empty());
    while i < s.len()
        invariant
            start <= i <= s.len(),
            forall|j: int| 0 <= j < r.len() ==> #[trigger] r@[j].0 <= r@[j].1 <= s.len(),
            pieces(s@.take(i as int)) == r@.map_values(
                |p: (usize, usize)| s@.subrange(p.0 as int, p.1 as int),
            ).push(s@.subrange(start as int, i as int)),
        decreases s.len() - i,
    {
        let ghost old_r = r@;
        let ghost spans_of = |v: Seq<(usize, usize)>| v.map_values(|p: (usize, usize)| s@.subrange(p.0 as int, p.1 as int));
        assert(s@.take(i + 1).drop_last() =~= s@.take(i as int));
        assert(s@.take(i + 1).last() == s@[i as int]);
        if s[i] == '\n' {
            r.push((start, i));
            assert forall|j: int| 0 <= j < r.len() implies #[trigger] r@[j].0 <= r@[j].1 <= s.len() by {
                if j < old_r.len() {
                    assert(r@[j] == old_r[j]);
                }
            }
            assert(spans_of(r@) =~= spans_of(old_r).push(s@.subrange(start as int, i as int)));
            start = i + 1;
            assert(s@.subrange(start as int, i + 1) =~= Seq::<char>::empty());
        } else {
            assert(s@.subrange(start as int, i + 1) =~= s@.subrange(start as int, i as int).push(s@[i as int]));
        }
        i = i + 1;
        assert(pieces(s@.take(i as int)) =~= spans_of(r@).push(s@.subrange(start as int, i as int)));
    }
    assert(s@.take(i as int) =~= s@);
    let ghost spans_of = |v: Seq<(usize, usize)>| v.map_values(|p: (usize, usize)| s@.subrange(p.0 as int, p.1 as int));
    if start < s.len() {
        let ghost old_r = r@;
        r.push((start, s.len()));
        assert forall|j: int| 0 <= j < r.len() implies #[trigger] r@[j].0 <= r@[j].1 <= s.len() by {
            if j < old_r.len() {
                assert(r@[j] == old_r[j]);
            }
        }
        assert(spans_of(r@) =~= spans_of(old_r).push(s@.subrange(start as int, s.len() as int)));
    } else {
        assert(spans_of(r@) =~= pieces(s@).drop_last());
    }
    assert(spans_of(r@) =~= lines(s@));
    assert forall|j: int| 0 <= j < r.len() implies #[trigger] r@[j].0 <= r@[j].1 <= s.len()
        && s@.subrange(r@[j].0 as int, r@[j].1 as int) == lines(s@)[j] by {
        assert(spans_of(r@)[j] == lines(s@)[j]);
    }
    r
}

} // verus!
