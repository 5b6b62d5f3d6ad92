//! Instructions, their model, and the parser from one line of text.

use vstd::prelude::*;
use vstd::string::StrSliceExecFns;
use crate::register::{Register, register_of, register_at};
use crate::text::{word, word_span, chars_of, next_word, lemma_word_span_bounds};

verus! {

/// One instruction of a program.
#[derive(Debug, Clone)]
pub enum OpCode {
    NOP,
    LABEL(String),
    COMMENT(String),
    MOVI(i32, Register),
    MOV(Register, Register),
    ADDI(i32, Register),
    ADD(Register, Register),
    SUBI(i32, Register),
    SUB(Register, Register),
    NEG(Register),
    /// jump to label
    JMP(String),
    /// jump to label if acc == 0
    JEZ(String),
    /// jump to label if acc != 0
    JNZ(String),
    /// jump to label if acc > 0
    JGZ(String),
    /// jump to label if acc < 0
    JLZ(String),
    /// unconditional relative jump
    JROI(i32),
    /// unconditional relative jump with value from register
    JRO(Register),
    /// rotate clockwise
    RCW,
    /// rotate counterclockwise
    RCC,
}

/// What an instruction is, with its names as sequences of characters.
pub enum Op {
    Nop,
    Label(Seq<char>),
    Comment(Seq<char>),
    MovI(i32, Register),
    Mov(Register, Register),
    AddI(i32, Register),
    Add(Register, Register),
    SubI(i32, Register),
    Sub(Register, Register),
    Neg(Register),
    Jmp(Seq<char>),
    Jez(Seq<char>),
    Jnz(Seq<char>),
    Jgz(Seq<char>),
    Jlz(Seq<char>),
    JroI(i32),
    Jro(Register),
    Rcw,
    Rcc,
}

impl View for OpCode {
    type V = Op;

    open spec fn view(&self) -> Op {
        match self {
            OpCode::NOP => Op::Nop,
            OpCode::LABEL(l) => Op::Label(l@),
            OpCode::COMMENT(t) => Op::Comment(t@),
            OpCode::MOVI(n, r) => Op::MovI(*n, *r),
            OpCode::MOV(s, r) => Op::Mov(*s, *r),
            OpCode::ADDI(n, r) => Op::AddI(*n, *r),
            OpCode::ADD(s, r) => Op::Add(*s, *r),
            OpCode::SUBI(n, r) => Op::SubI(*n, *r),
            OpCode::SUB(s, r) => Op::Sub(*s, *r),
            OpCode::NEG(r) => Op::Neg(*r),
            OpCode::JMP(l) => Op::Jmp(l@),
            OpCode::JEZ(l) => Op::Jez(l@),
            OpCode::JNZ(l) => Op::Jnz(l@),
            OpCode::JGZ(l) => Op::Jgz(l@),
            OpCode::JLZ(l) => Op::Jlz(l@),
            OpCode::JROI(n) => Op::JroI(*n),
            OpCode::JRO(r) => Op::Jro(*r),
            OpCode::RCW => Op::Rcw,
            OpCode::RCC => Op::Rcc,
        }
    }
}

/// The mnemonics that start an instruction line.
#[derive(Clone, Copy, Debug, PartialEq, Eq, Structural)]
pub enum Mnemonic {
    Nop,
    Mov,
    Add,
    Sub,
    Neg,
    Jmp,
    Jez,
    Jnz,
    Jgz,
    Jlz,
    Jro,
    Rcw,
    Rcc,
}

/// A source operand: a literal or a register.
#[derive(Clone, Copy, Debug, PartialEq, Eq, Structural)]
pub enum Operand {
    Imm(i32),
    Reg(Register),
}

/// The mnemonic spelt by `w`, if any.
pub open spec fn mnemonic_of(w: Seq<char>) -> Option<Mnemonic> {
    if w.len() != 3 {
        None
    } else {
        let (x, y, z) = (w[0], w[1], w[2]);
        if x == 'N' && y == 'O' && z == 'P' {
            Some(Mnemonic::Nop)
        } else if x == 'M' && y == 'O' && z == 'V' {
            Some(Mnemonic::Mov)
        } else if x == 'A' && y == 'D' && z == 'D' {
            Some(Mnemonic::Add)
        } else if x == 'S' && y == 'U' && z == 'B' {
            Some(Mnemonic::Sub)
        } else if x == 'N' && y == 'E' && z == 'G' {
            Some(Mnemonic::Neg)
        } else if x == 'J' && y == 'M' && z == 'P' {
            Some(Mnemonic::Jmp)
        } else if x == 'J' && y == 'E' && z == 'Z' {
            Some(Mnemonic::Jez)
        } else if x == 'J' && y == 'N' && z == 'Z' {
            Some(Mnemonic::Jnz)
        } else if x == 'J' && y == 'G' && z == 'Z' {
            Some(Mnemonic::Jgz)
        } else if x == 'J' && y == 'L' && z == 'Z' {
            Some(Mnemonic::Jlz)
        } else if x == 'J' && y == 'R' && z == 'O' {
            Some(Mnemonic::Jro)
        } else if x == 'R' && y == 'C' && z == 'W' {
            Some(Mnemonic::Rcw)
        } else if x == 'R' && y == 'C' && z == 'C' {
            Some(Mnemonic::Rcc)
        } else {
            None
        }
    }
}

pub open spec fn is_digit(c: char) -> bool {
    '0' as u32 <= c as u32 <= '9' as u32
}

/// A word made only of decimal digits and minus signs reads as a literal.
pub open spec fn literal_like(w: Seq<char>) -> bool {
    forall|i: int| 0 <= i < w.len() ==> is_digit(#[trigger] w[i]) || w[i] == '-'
}

pub open spec fn all_digits(w: Seq<char>) -> bool {
    forall|i: int| 0 <= i < w.len() ==> is_digit(#[trigger] w[i])
}

/// The number that a sequence of decimal digits spells.
pub open spec fn digits_value(w: Seq<char>) -> int
    decreases w.len(),
{
    if w.len() == 0 {
        0
    } else {
        10 * digits_value(w.drop_last()) + (w.last() as u32 - '0' as u32)
    }
}

/// The 32-bit integer that `w` spells in decimal, with an optional minus sign.
pub open spec fn int_value(w: Seq<char>) -> Option<i32> {
    if w.len() > 0 && w[0] != '-' && all_digits(w) && digits_value(w) <= i32::MAX {
        Some(digits_value(w) as i32)
    } else if w.len() > 1 && w[0] == '-' && all_digits(w.drop_first()) && digits_value(
        w.drop_first(),
    ) <= 0x8000_0000 {
        Some((-digits_value(w.drop_first())) as i32)
    } else {
        None
    }
}

/// A source operand: a literal where the word looks like one, else a register.
pub open spec fn operand_of(w: Option<Seq<char>>) -> Option<Operand> {
    match w {
        None => None,
        Some(w) => if literal_like(w) {
            match int_value(w) {
                Some(n) => Some(Operand::Imm(n)),
                None => None,
            }
        } else {
            match register_of(w) {
                Some(r) => Some(Operand::Reg(r)),
                None => None,
            }
        },
    }
}

pub open spec fn register_operand(w: Option<Seq<char>>) -> Option<Register> {
    match w {
        None => None,
        Some(w) => register_of(w),
    }
}

/// A move, add or subtract (as `mn` says: one of the three) from `src`
/// into `dst`.
pub open spec fn transfer(mn: Mnemonic, src: Operand, dst: Register) -> Op {
    match src {
        Operand::Imm(n) => match mn {
            Mnemonic::Mov => Op::MovI(n, dst),
            Mnemonic::Add => Op::AddI(n, dst),
            _ => Op::SubI(n, dst),
        },
        Operand::Reg(r) => match mn {
            Mnemonic::Mov => Op::Mov(r, dst),
            Mnemonic::Add => Op::Add(r, dst),
            _ => Op::Sub(r, dst),
        },
    }
}

/// The instruction that mnemonic `mn` makes with the words `w1` and `w2`
/// after it.
pub open spec fn with_operands(mn: Mnemonic, w1: Option<Seq<char>>, w2: Option<Seq<char>>) -> Option<Op> {
    match mn {
        Mnemonic::Nop => Some(Op::Nop),
        Mnemonic::Rcw => Some(Op::Rcw),
        Mnemonic::Rcc => Some(Op::Rcc),
        Mnemonic::Mov | Mnemonic::Add | Mnemonic::Sub => match (operand_of(w1), register_operand(w2)) {
            (Some(src), Some(dst)) => Some(transfer(mn, src, dst)),
            _ => None,
        },
        Mnemonic::Neg => match register_operand(w1) {
            Some(r) => Some(Op::Neg(r)),
            None => None,
        },
        Mnemonic::Jro => match operand_of(w1) {
            Some(Operand::Imm(n)) => Some(Op::JroI(n)),
            Some(Operand::Reg(r)) => Some(Op::Jro(r)),
            None => None,
        },
        Mnemonic::Jmp => match w1 { Some(l) => Some(Op::Jmp(l)), None => None },
        Mnemonic::Jez => match w1 { Some(l) => Some(Op::Jez(l)), None => None },
        Mnemonic::Jnz => match w1 { Some(l) => Some(Op::Jnz(l)), None => None },
        Mnemonic::Jgz => match w1 { Some(l) => Some(Op::Jgz(l)), None => None },
        Mnemonic::Jlz => match w1 { Some(l) => Some(Op::Jlz(l)), None => None },
    }
}

/// The instruction on one line of text, or `None` where the line holds none.
/// A line without words, or whose first word starts with `#`, is a comment
/// that keeps the whole line; a first word that ends with `:` defines the
/// label named by the rest of that word.
pub open spec fn parse_op(line: Seq<char>) -> Option<Op> {
    match word(line, 0) {
        None => Some(Op::Comment(line)),
        Some(m) => match mnemonic_of(m) {
            Some(mn) => with_operands(mn, word(line, 1), word(line, 2)),
            None => if m[0] == '#' {
                Some(Op::Comment(line))
            } else if m.last() == ':' {
                Some(Op::Label(m.drop_last()))
            } else {
                None
            },
        },
    }
}

proof fn lemma_digits_value_grows(w: Seq<char>, k: int)
    requires
        all_digits(w),
        0 <= k <= w.len(),
    ensures
        0 <= digits_value(w.take(k)) <= digits_value(w),
    decreases w.len(),
{
    if w.len() > 0 {
        let p = w.drop_last();
        assert(all_digits(p)) by {
            assert forall|i: int| 0 <= i < p.len() implies is_digit(#[trigger] p[i]) by {
                assert(p[i] == w[i]);
            }
        }
        assert(is_digit(w[w.len() - 1]));
        if k < w.len() {
            assert(w.take(k) =~= p.take(k));
            lemma_digits_value_grows(p, k);
        } else {
            assert(w.take(k) =~= w);
            lemma_digits_value_grows(p, 0);
        }
        lemma_digits_value_grows(p, p.len() as int);
        assert(p.take(p.len() as int) =~= p);
    } else {
        assert(w.take(k) =~= w);
    }
}

/// The mnemonic spelt by the characters of `s` from `a` up to `b`.
fn mnemonic_at(s: &Vec<char>, a: usize, b: usize) -> (r: Option<Mnemonic>)
    requires
        a <= b <= s.len(),
    ensures
        r == mnemonic_of(s@.subrange(a as int, b as int)),
{
    if b - a != 3 {
        return None;
    }
    let (x, y, z) = (s[a], s[a + 1], s[a + 2]);
    if x == 'N' && y == 'O' && z == 'P' {
        Some(Mnemonic::Nop)
    } else if x == 'M' && y == 'O' && z == 'V' {
        Some(Mnemonic::Mov)
    } else if x == 'A' && y == 'D' && z == 'D' {
        Some(Mnemonic::Add)
    } else if x == 'S' && y == 'U' && z == 'B' {
        Some(Mnemonic::Sub)
    } else if x == 'N' && y == 'E' && z == 'G' {
        Some(Mnemonic::Neg)
    } else if x == 'J' && y == 'M' && z == 'P' {
        Some(Mnemonic::Jmp)
    } else if x == 'J' && y == 'E' && z == 'Z' {
        Some(Mnemonic::Jez)
    } else if x == 'J' && y == 'N' && z == 'Z' {
        Some(Mnemonic::Jnz)
    } else if x == 'J' && y == 'G' && z == 'Z' {
        Some(Mnemonic::Jgz)
    } else if x == 'J' && y == 'L' && z == 'Z' {
        Some(Mnemonic::Jlz)
    } else if x == 'J' && y == 'R' && z == 'O' {
        Some(Mnemonic::Jro)
    } else if x == 'R' && y == 'C' && z == 'W' {
        Some(Mnemonic::Rcw)
    } else if x == 'R' && y == 'C' && z == 'C' {
        Some(Mnemonic::Rcc)
    } else {
        None
    }
}

fn is_digit_char(c: char) -> (r: bool)
    ensures
        r == is_digit(c),
{
    '0' as u32 <= c as u32 && c as u32 <= '9' as u32
}

/// Whether the characters of `s` from `a` up to `b` are all digits or minus
/// signs.
fn literal_like_at(s: &Vec<char>, a: usize, b: usize) -> (r: bool)
    requires
        a <= b <= s.len(),
    ensures
        r == literal_like(s@.subrange(a as int, b as int)),
{
    let ghost w = s@.subrange(a as int, b as int);
    let mut k: usize = a;
    while k < b
        invariant
            a <= k <= b <= s.len(),
            w == s@.subrange(a as int, b as int),
            forall|i: int| 0 <= i < k - a ==> is_digit(#[trigger] w[i]) || w[i] == '-',
        decreases b - k,
    {
        let c = s[k];
        if !is_digit_char(c) && c != '-' {
            assert(w[k - a] == c);
            return false;
        }
        k = k + 1;
    }
    true
}

/// The 32-bit integer spelt by the characters of `s` from `a` up to `b`.
fn int_at(s: &Vec<char>, a: usize, b: usize) -> (r: Option<i32>)
    requires
        a <= b <= s.len(),
    ensures
        r == int_value(s@.subrange(a as int, b as int)),
{
    let ghost w = s@.subrange(a as int, b as int);
    if a == b {
        return None;
    }
    let neg = s[a] == '-';
    let start: usize = if neg { a + 1 } else { a };
    let ghost d = s@.subrange(start as int, b as int);
    assert(neg ==> d =~= w.drop_first());
    assert(!neg ==> d =~= w);
    if start == b {
        return None;
    }
    let mut v: u64 = 0;
    let mut k: usize = start;
    while k < b
        invariant
            start <= k <= b <= s.len(),
            d == s@.subrange(start as int, b as int),
            w == s@.subrange(a as int, b as int),
            w.len() > 0,
            neg == (w[0] == '-'),
            neg ==> d == w.drop_first(),
            !neg ==> d == w,
            all_digits(d.take(k - start)),
            v as int == digits_value(d.take(k - start)),
            v <= 0x8000_0000,
        decreases b - k,
    {
        let c = s[k];
        assert(d[k - start] == c);
        if !is_digit_char(c) {
            assert(!all_digits(d));
            return None;
        }
        let ghost p = d.take(k - start);
        let ghost q = d.take(k + 1 - start);
        assert(q.drop_last() =~= p);
        assert(q.last() == c);
        v = v * 10 + (c as u32 - '0' as u32) as u64;
        k = k + 1;
        assert(all_digits(q)) by {
            assert forall|i: int| 0 <= i < q.len() implies is_digit(#[trigger] q[i]) by {
                if i < p.len() {
                    assert(q[i] == p[i]);
                }
            }
        }
        if v > 0x8000_0000 {
            proof {
                if all_digits(d) {
                    lemma_digits_value_grows(d, k - start);
                }
            }
            return None;
        }
    }
    assert(d.take(k - start) =~= d);
    if neg {
        Some((-(v as i64)) as i32)
    } else if v > 0x7fff_ffff {
        None
    } else {
        Some(v as i32)
    }
}

/// The source operand spelt by the characters of `s` from `a` up to `b`.
fn operand_at(s: &Vec<char>, a: usize, b: usize) -> (r: Option<Operand>)
    requires
        a < b <= s.len(),
    ensures
        r == operand_of(Some(s@.subrange(a as int, b as int))),
{
    if literal_like_at(s, a, b) {
        match int_at(s, a, b) {
            Some(n) => Some(Operand::Imm(n)),
            None => None,
        }
    } else {
        match register_at(s, a, b) {
            Some(r) => Some(Operand::Reg(r)),
            None => None,
        }
    }
}

/// The view of a parse result.
pub open spec fn op_view(r: Option<OpCode>) -> Option<Op> {
    match r {
        Some(op) => Some(op@),
        None => None,
    }
}

impl OpCode {
    /// The instruction on one line of text, or `None` where the line holds
    /// none (see `parse_op`).
    pub fn parse(line: &str) -> (r: Option<OpCode>)
        ensures
            op_view(r) == parse_op(line@),
    {
        let cs = chars_of(line);
        let (a0, b0) = next_word(&cs, 0);
        let (a1, b1) = next_word(&cs, b0);
        let (a2, b2) = next_word(&cs, b1);
        proof {
            assert(word_span(line@, 0) == (a0 as int, b0 as int));
            assert(word_span(line@, 1) == (a1 as int, b1 as int));
            assert(word_span(line@, 2) == (a2 as int, b2 as int));
            lemma_word_span_bounds(line@, 0);
            lemma_word_span_bounds(line@, 1);
            lemma_word_span_bounds(line@, 2);
        }
        if a0 == cs.len() {
            return Some(OpCode::COMMENT(line.to_owned()));
        }
        let ghost m = line@.subrange(a0 as int, b0 as int);
        let ghost w1 = word(line@, 1);
        let ghost w2 = word(line@, 2);
        match mnemonic_at(&cs, a0, b0) {
            Some(mn) => {
                match mn {
                    Mnemonic::Nop => Some(OpCode::NOP),
                    Mnemonic::Rcw => Some(OpCode::RCW),
                    Mnemonic::Rcc => Some(OpCode::RCC),
                    Mnemonic::Mov | Mnemonic::Add | Mnemonic::Sub => {
                        if a1 == cs.len() || a2 == cs.len() {
                            return None;
                        }
                        let src = match operand_at(&cs, a1, b1) {
                            Some(src) => src,
                            None => return None,
                        };
                        let dst = match register_at(&cs, a2, b2) {
                            Some(dst) => dst,
                            None => return None,
                        };
                        match (mn, src) {
                            (Mnemonic::Mov, Operand::Imm(n)) => Some(OpCode::MOVI(n, dst)),
                            (Mnemonic::Mov, Operand::Reg(r)) => Some(OpCode::MOV(r, dst)),
                            (Mnemonic::Add, Operand::Imm(n)) => Some(OpCode::ADDI(n, dst)),
                            (Mnemonic::Add, Operand::Reg(r)) => Some(OpCode::ADD(r, dst)),
                            (_, Operand::Imm(n)) => Some(OpCode::SUBI(n, dst)),
                            (_, Operand::Reg(r)) => Some(OpCode::SUB(r, dst)),
                        }
                    },
                    Mnemonic::Neg => {
                        if a1 == cs.len() {
                            return None;
                        }
                        match register_at(&cs, a1, b1) {
                            Some(r) => Some(OpCode::NEG(r)),
                            None => None,
                        }
                    },
                    Mnemonic::Jro => {
                        if a1 == cs.len() {
                            return None;
                        }
                        match operand_at(&cs, a1, b1) {
                            Some(Operand::Imm(n)) => Some(OpCode::JROI(n)),
                            Some(Operand::Reg(r)) => Some(OpCode::JRO(r)),
                            None => None,
                        }
                    },
                    _ => {
                        if a1 == cs.len() {
                            return None;
                        }
                        let l = line.substring_char(a1, b1).to_owned();
                        match mn {
                            Mnemonic::Jmp => Some(OpCode::JMP(l)),
                            Mnemonic::Jez => Some(OpCode::JEZ(l)),
                            Mnemonic::Jnz => Some(OpCode::JNZ(l)),
                            Mnemonic::Jgz => Some(OpCode::JGZ(l)),
                            _ => Some(OpCode::JLZ(l)),
                        }
                    },
                }
            },
            None => {
                if cs[a0] == '#' {
                    Some(OpCode::COMMENT(line.to_owned()))
                } else if cs[b0 - 1] == ':' {
                    let l = line.substring_char(a0, b0 - 1).to_owned();
                    proof {
                        assert(l@ =~= m.drop_last());
                    }
                    Some(OpCode::LABEL(l))
                } else {
                    None
                }
            },
        }
    }
}

impl std::str::FromStr for OpCode {
    type Err = String;

    /// `OpCode::parse`, failing with a message where the line holds no
    /// instruction.
    fn from_str(line: &str) -> (r: Result<OpCode, String>)
        ensures
            match r {
                Ok(op) => parse_op(line@) == Some(op@),
                Err(_) => parse_op(line@) is None,
            },
    {
        match OpCode::parse(line) {
            Some(op) => Ok(op),
            None => Err("Not a valid instruction!".to_owned()),
        }
    }
}

} // verus!
