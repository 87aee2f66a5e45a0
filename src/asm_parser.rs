//! The assembler: source lines to instructions, with labels resolved to instruction-count
//! offsets.
use crate::alu::{effective_address, AluOp};
use crate::cpu::{memory_access, running, step, store_width, CpuState};
use crate::instruction::{program_valid, Instruction};
use vstd::prelude::*;

verus! {

/// Characters that separate tokens: commas and white space.
pub open spec fn is_separator(c: char) -> bool {
    c == ',' || c == ' ' || c == '\t' || c == '\n' || c == '\r' || c == '\x0b' || c == '\x0c'
        || c == '\u{85}' || c == '\u{a0}' || c == '\u{1680}' || ('\u{2000}' <= c && c
        <= '\u{200a}') || c == '\u{2028}' || c == '\u{2029}' || c == '\u{202f}' || c
        == '\u{205f}' || c == '\u{3000}'
}

/// The index of the first `c` in `s`, or the length of `s` where there is none.
pub open spec fn first_index(s: Seq<char>, c: char) -> int
    decreases s.len(),
{
    if s.len() == 0 {
        0
    } else {
        let p = first_index(s.drop_last(), c);
        if p < s.len() - 1 {
            p
        } else if s.last() == c {
            s.len() - 1
        } else {
            s.len() as int
        }
    }
}

/// Where the comment of a line starts: at its first `#`.
pub open spec fn comment_start(s: Seq<char>) -> int {
    first_index(s, '#')
}

/// The maximal runs of non-separator characters of `s`, in order.
pub open spec fn tokens(s: Seq<char>) -> Seq<Seq<char>>
    decreases s.len(),
{
    if s.len() == 0 {
        seq![]
    } else {
        let prev = tokens(s.drop_last());
        let c = s.last();
        if is_separator(c) {
            prev
        } else if s.len() >= 2 && !is_separator(s[s.len() - 2]) {
            prev.drop_last().push(prev.last().push(c))
        } else {
            prev.push(seq![c])
        }
    }
}

/// The tokens of a line, its comment removed.
pub open spec fn line_tokens(line: Seq<char>) -> Seq<Seq<char>> {
    tokens(line.take(comment_start(line)))
}

fn is_separator_char(c: char) -> (r: bool)
    ensures
        r == is_separator(c),
{
    c == ',' || c == ' ' || c == '\t' || c == '\n' || c == '\r' || c == '\x0b' || c == '\x0c'
        || c == '\u{85}' || c == '\u{a0}' || c == '\u{1680}' || ('\u{2000}' <= c && c
        <= '\u{200a}') || c == '\u{2028}' || c == '\u{2029}' || c == '\u{202f}' || c
        == '\u{205f}' || c == '\u{3000}'
}

/// The characters of `s`.
fn chars_of(s: &str) -> (r: Vec<char>)
    ensures
        r@ == s@,
{
    let n = s.unicode_len();
    let mut r: Vec<char> = Vec::new();
    let mut i: usize = 0;
    while i < n
        invariant
            n == s@.len(),
            i <= n,
            r@ == s@.take(i as int),
        decreases n - i,
    {
        r.push(s.get_char(i));
        i = i + 1;
        assert(r@ =~= s@.take(i as int));
    }
    assert(r@ =~= s@);
    r
}

/// The index of the first `c` in `s[a..b]`, or `b` where there is none.
fn find_char(s: &Vec<char>, a: usize, b: usize, c: char) -> (r: usize)
    requires
        a <= b <= s@.len(),
    ensures
        r == a + first_index(s@.subrange(a as int, b as int), c),
        a <= r <= b,
{
    let mut h: usize = a;
    let mut i: usize = a;
    while i < b
        invariant
            a <= h <= i <= b <= s@.len(),
            h == a + first_index(s@.subrange(a as int, i as int), c),
        decreases b - i,
    {
        assert(s@.subrange(a as int, i + 1).drop_last() =~= s@.subrange(a as int, i as int));
        if h == i && s[i] != c {
            h = i + 1;
        }
        i = i + 1;
    }
    h
}

/// The spans `(start, end)` of the tokens of `s[..end]`.
fn token_spans(s: &Vec<char>, end: usize) -> (r: Vec<(usize, usize)>)
    requires
        end <= s@.len(),
    ensures
        r@.len() == tokens(s@.take(end as int)).len(),
        forall|j: int|
            0 <= j < r@.len() ==> {
                &&& (#[trigger] r@[j]).0 < r@[j].1 <= end
                &&& s@.subrange(r@[j].0 as int, r@[j].1 as int) == tokens(s@.take(end as int))[j]
            },
{
    let mut r: Vec<(usize, usize)> = Vec::new();
    let mut i: usize = 0;
    while i < end
        invariant
            end <= s@.len(),
            i <= end,
            r@.len() == tokens(s@.take(i as int)).len(),
            forall|j: int|
                0 <= j < r@.len() ==> {
                    &&& (#[trigger] r@[j]).0 < r@[j].1 <= i
                    &&& s@.subrange(r@[j].0 as int, r@[j].1 as int) == tokens(
                        s@.take(i as int),
                    )[j]
                },
            i > 0 && !is_separator(s@[i - 1]) ==> r@.len() > 0 && r@.last().1 == i,
        decreases end - i,
    {
        let ghost t = s@.take(i as int + 1);
        assert(t.drop_last() =~= s@.take(i as int));
        let c = s[i];
        if is_separator_char(c) {
        } else if i > 0 && !is_separator_char(s[i - 1]) {
            // The character extends the last token.
            let ghost prev = tokens(s@.take(i as int));
            let ghost old_r = r@;
            let ghost k = old_r.len() - 1;
            assert(old_r[k].0 < old_r[k].1 <= i);
            let last = r.pop().unwrap();
            assert(last == old_r[k]);
            r.push((last.0, i + 1));
            assert(s@.subrange(last.0 as int, i + 1) =~= prev.last().push(c));
            assert(tokens(t) == prev.drop_last().push(prev.last().push(c)));
            assert forall|j: int| 0 <= j < r@.len() - 1 implies r@[j] == old_r[j] && tokens(t)[j]
                == prev[j] by {}
        } else {
            // The character starts a token.
            let ghost old_r = r@;
            r.push((i, i + 1));
            assert(s@.subrange(i as int, i + 1) =~= seq![c]);
            assert forall|j: int| 0 <= j < r@.len() - 1 implies r@[j] == old_r[j] by {}
        }
        i = i + 1;
    }
    assert(s@.take(i as int) == s@.take(end as int));
    r
}

/// The value of `c` as a digit in base `radix` (10 or 16), if it is one.
pub open spec fn digit_value(c: char, radix: nat) -> Option<nat> {
    if '0' <= c <= '9' {
        Some((c as nat - '0' as nat) as nat)
    } else if radix == 16 && 'a' <= c <= 'f' {
        Some((c as nat - 'a' as nat + 10) as nat)
    } else if radix == 16 && 'A' <= c <= 'F' {
        Some((c as nat - 'A' as nat + 10) as nat)
    } else {
        None
    }
}

/// Every character of `ds` is a digit in base `radix`.
pub open spec fn all_digits(ds: Seq<char>, radix: nat) -> bool {
    forall|i: int| 0 <= i < ds.len() ==> (#[trigger] digit_value(ds[i], radix)) is Some
}

/// The number that the digits `ds` write in base `radix`.
pub open spec fn digits_value(ds: Seq<char>, radix: nat) -> int
    decreases ds.len(),
{
    if ds.len() == 0 {
        0
    } else {
        match digit_value(ds.last(), radix) {
            Some(d) => digits_value(ds.drop_last(), radix) * radix + d,
            None => 0,
        }
    }
}

/// A register token: `x` followed by the decimal number of a register, `0` to `31`.
pub open spec fn reg_of(t: Seq<char>) -> Option<usize> {
    let ds = t.drop_first();
    if t.len() >= 2 && t[0] == 'x' && all_digits(ds, 10) && digits_value(ds, 10) < 32 {
        Some(digits_value(ds, 10) as usize)
    } else {
        None
    }
}

/// An immediate token: an optional sign, then decimal digits or hexadecimal digits after
/// `0x` or `0X`; its value must fit in 32 bits.
pub open spec fn imm_of(t: Seq<char>) -> Option<i32> {
    let signed = t.len() > 0 && (t[0] == '-' || t[0] == '+');
    let body = if signed {
        t.drop_first()
    } else {
        t
    };
    let hex = body.len() >= 2 && body[0] == '0' && (body[1] == 'x' || body[1] == 'X');
    let ds = if hex {
        body.subrange(2, body.len() as int)
    } else {
        body
    };
    let radix: nat = if hex {
        16
    } else {
        10
    };
    let v = if t.len() > 0 && t[0] == '-' {
        -digits_value(ds, radix)
    } else {
        digits_value(ds, radix)
    };
    if ds.len() > 0 && all_digits(ds, radix) && i32::MIN <= v <= i32::MAX {
        Some(v as i32)
    } else {
        None
    }
}

/// A memory operand `imm(reg)`, or `(reg)` with offset zero: the offset and the register.
pub open spec fn mem_of(t: Seq<char>) -> Option<(i32, usize)> {
    let p = first_index(t, '(');
    if p < t.len() && t.len() >= p + 2 && t.last() == ')' {
        let imm = if p == 0 {
            Some(0i32)
        } else {
            imm_of(t.take(p))
        };
        match (imm, reg_of(t.subrange(p + 1, t.len() - 1))) {
            (Some(i), Some(r)) => Some((i, r)),
            _ => None,
        }
    } else {
        None
    }
}

/// The value of the digit `c` in base `radix`, if it is one.
fn digit(c: char, radix: u64) -> (r: Option<u64>)
    requires
        radix == 10 || radix == 16,
    ensures
        r matches Some(d) ==> digit_value(c, radix as nat) == Some(d as nat) && d < radix,
        r is None ==> digit_value(c, radix as nat) is None,
{
    if '0' <= c && c <= '9' {
        Some(c as u64 - '0' as u64)
    } else if radix == 16 && 'a' <= c && c <= 'f' {
        Some(c as u64 - 'a' as u64 + 10)
    } else if radix == 16 && 'A' <= c && c <= 'F' {
        Some(c as u64 - 'A' as u64 + 10)
    } else {
        None
    }
}

/// The value of the digits `s[a..b]` in base `radix`, saturated at `cap`; `None` unless
/// every character is a digit.
fn digits(s: &Vec<char>, a: usize, b: usize, radix: u64, cap: u64) -> (r: Option<u64>)
    requires
        a <= b <= s@.len(),
        radix == 10 || radix == 16,
        0 < cap <= 0x1_0000_0000,
    ensures
        r is Some <==> all_digits(s@.subrange(a as int, b as int), radix as nat),
        r matches Some(v) ==> v == if digits_value(s@.subrange(a as int, b as int), radix as nat)
            >= cap {
            cap as int
        } else {
            digits_value(s@.subrange(a as int, b as int), radix as nat)
        },
{
    let mut acc: u64 = 0;
    let mut i: usize = a;
    while i < b
        invariant
            a <= i <= b <= s@.len(),
            radix == 10 || radix == 16,
            0 < cap <= 0x1_0000_0000,
            all_digits(s@.subrange(a as int, i as int), radix as nat),
            acc == if digits_value(s@.subrange(a as int, i as int), radix as nat) >= cap {
                cap as int
            } else {
                digits_value(s@.subrange(a as int, i as int), radix as nat)
            },
            digits_value(s@.subrange(a as int, i as int), radix as nat) >= 0,
        decreases b - i,
    {
        let ghost prev = s@.subrange(a as int, i as int);
        let ghost next = s@.subrange(a as int, i + 1);
        assert(next.drop_last() =~= prev);
        assert(next.last() == s@[i as int]);
        match digit(s[i], radix) {
            None => {
                assert(digit_value(next[next.len() - 1], radix as nat) is None);
                return None;
            },
            Some(d) => {
                assert forall|j: int| 0 <= j < next.len() implies (#[trigger] digit_value(
                    next[j],
                    radix as nat,
                )) is Some by {
                    if j < prev.len() {
                        assert(next[j] == prev[j]);
                    }
                }
                let ghost v = digits_value(prev, radix as nat);
                assert(digits_value(next, radix as nat) == v * radix + d);
                assert(v * radix >= v) by (nonlinear_arith)
                    requires
                        v >= 0,
                        radix >= 10,
                ;
                if acc >= cap {
                    acc = cap;
                } else {
                    assert(acc * radix <= 0x10_0000_0000) by (nonlinear_arith)
                        requires
                            acc < 0x1_0000_0000,
                            radix <= 16,
                    ;
                    let w = acc * radix + d;
                    acc = if w >= cap {
                        cap
                    } else {
                        w
                    };
                }
            },
        }
        i = i + 1;
    }
    Some(acc)
}

/// Reads the register token `s[a..b]`.
fn parse_reg(s: &Vec<char>, a: usize, b: usize) -> (r: Option<usize>)
    requires
        a <= b <= s@.len(),
    ensures
        r == reg_of(s@.subrange(a as int, b as int)),
{
    let ghost t = s@.subrange(a as int, b as int);
    if b - a < 2 || s[a] != 'x' {
        return None;
    }
    assert(t.drop_first() =~= s@.subrange(a + 1, b as int));
    match digits(s, a + 1, b, 10, 32) {
        Some(v) => if v < 32 {
            Some(v as usize)
        } else {
            None
        },
        None => None,
    }
}

/// Reads the immediate token `s[a..b]`.
fn parse_imm(s: &Vec<char>, a: usize, b: usize) -> (r: Option<i32>)
    requires
        a <= b <= s@.len(),
    ensures
        r == imm_of(s@.subrange(a as int, b as int)),
{
    let ghost t = s@.subrange(a as int, b as int);
    let negative = b > a && s[a] == '-';
    let signed = b > a && (s[a] == '-' || s[a] == '+');
    let start = if signed {
        a + 1
    } else {
        a
    };
    let ghost body = s@.subrange(start as int, b as int);
    assert(signed ==> body =~= t.drop_first());
    assert(!signed ==> body =~= t);
    let hex = b - start >= 2 && s[start] == '0' && (s[start + 1] == 'x' || s[start + 1] == 'X');
    let first_digit = if hex {
        start + 2
    } else {
        start
    };
    let radix: u64 = if hex {
        16
    } else {
        10
    };
    assert(hex ==> s@.subrange(first_digit as int, b as int) =~= body.subrange(
        2,
        body.len() as int,
    ));
    if first_digit == b {
        return None;
    }
    match digits(s, first_digit, b, radix, 0x8000_0001) {
        None => None,
        Some(v) => {
            if negative {
                if v <= 0x8000_0000 {
                    Some((-(v as i64)) as i32)
                } else {
                    None
                }
            } else {
                if v <= 0x7FFF_FFFF {
                    Some(v as i32)
                } else {
                    None
                }
            }
        },
    }
}

/// Reads the memory operand token `s[a..b]`: its offset and base register.
fn parse_mem_operand(s: &Vec<char>, a: usize, b: usize) -> (r: Option<(i32, usize)>)
    requires
        a <= b <= s@.len(),
    ensures
        r == mem_of(s@.subrange(a as int, b as int)),
{
    let ghost t = s@.subrange(a as int, b as int);
    let p = find_char(s, a, b, '(');
    if p == b || b - p < 2 || s[b - 1] != ')' {
        return None;
    }
    assert(t.take(p - a) =~= s@.subrange(a as int, p as int));
    assert(t.subrange(p - a + 1, t.len() - 1) =~= s@.subrange(p + 1, b - 1));
    let imm = if p == a {
        Some(0i32)
    } else {
        parse_imm(s, a, p)
    };
    match (imm, parse_reg(s, p + 1, b - 1)) {
        (Some(i), Some(r)) => Some((i, r)),
        _ => None,
    }
}

/// The register-immediate operations, with `jalr`.
#[derive(Clone, Copy, Debug, PartialEq, Eq, Structural)]
pub enum ImmOp {
    Addi,
    Andi,
    Ori,
    Xori,
    Slli,
    Srli,
    Srai,
    Slti,
    Sltiu,
    Jalr,
}

/// The loads.
#[derive(Clone, Copy, Debug, PartialEq, Eq, Structural)]
pub enum LoadOp {
    Lb,
    Lh,
    Lw,
    Lbu,
    Lhu,
}

/// The stores.
#[derive(Clone, Copy, Debug, PartialEq, Eq, Structural)]
pub enum StoreOp {
    Sb,
    Sh,
    Sw,
}

/// The conditional branches.
#[derive(Clone, Copy, Debug, PartialEq, Eq, Structural)]
pub enum BranchOp {
    Beq,
    Bne,
    Blt,
    Bltu,
    Bge,
    Bgeu,
}

/// The upper-immediate operations.
#[derive(Clone, Copy, Debug, PartialEq, Eq, Structural)]
pub enum UpperOp {
    Lui,
    Auipc,
}

/// The operand format that a mnemonic selects, with its operation.
#[derive(Clone, Copy, Debug, PartialEq, Eq, Structural)]
pub enum Format {
    Reg(AluOp),
    Imm(ImmOp),
    Load(LoadOp),
    Store(StoreOp),
    Branch(BranchOp),
    Jump,
    Upper(UpperOp),
    Print,
}

/// A letter of a token matches a lower-case letter of a name in either case.
pub open spec fn same_letter(c: char, m: char) -> bool {
    c == m || ('a' <= m <= 'z' && c as int + 32 == m as int)
}

/// The token `t` spells the lower-case name `m`, ignoring case.
pub open spec fn spells(t: Seq<char>, m: Seq<char>) -> bool {
    t.len() == m.len() && forall|i: int| 0 <= i < t.len() ==> same_letter(t[i], m[i])
}

/// The mnemonic table: the format that the mnemonic `t` selects.
pub open spec fn format_of(t: Seq<char>) -> Option<Format> {
    if spells(t, "add"@) {
        Some(Format::Reg(AluOp::Add))
    } else if spells(t, "sub"@) {
        Some(Format::Reg(AluOp::Sub))
    } else if spells(t, "mul"@) {
        Some(Format::Reg(AluOp::Mul))
    } else if spells(t, "mulh"@) {
        Some(Format::Reg(AluOp::Mulh))
    } else if spells(t, "mulhsu"@) {
        Some(Format::Reg(AluOp::Mulhsu))
    } else if spells(t, "mulhu"@) {
        Some(Format::Reg(AluOp::Mulhu))
    } else if spells(t, "div"@) {
        Some(Format::Reg(AluOp::Div))
    } else if spells(t, "divu"@) {
        Some(Format::Reg(AluOp::Divu))
    } else if spells(t, "rem"@) {
        Some(Format::Reg(AluOp::Rem))
    } else if spells(t, "remu"@) {
        Some(Format::Reg(AluOp::Remu))
    } else if spells(t, "and"@) {
        Some(Format::Reg(AluOp::And))
    } else if spells(t, "or"@) {
        Some(Format::Reg(AluOp::Or))
    } else if spells(t, "xor"@) {
        Some(Format::Reg(AluOp::Xor))
    } else if spells(t, "sll"@) {
        Some(Format::Reg(AluOp::Sll))
    } else if spells(t, "srl"@) {
        Some(Format::Reg(AluOp::Srl))
    } else if spells(t, "sra"@) {
        Some(Format::Reg(AluOp::Sra))
    } else if spells(t, "slt"@) {
        Some(Format::Reg(AluOp::Slt))
    } else if spells(t, "sltu"@) {
        Some(Format::Reg(AluOp::Sltu))
    } else if spells(t, "addi"@) {
        Some(Format::Imm(ImmOp::Addi))
    } else if spells(t, "andi"@) {
        Some(Format::Imm(ImmOp::Andi))
    } else if spells(t, "ori"@) {
        Some(Format::Imm(ImmOp::Ori))
    } else if spells(t, "xori"@) {
        Some(Format::Imm(ImmOp::Xori))
    } else if spells(t, "slli"@) {
        Some(Format::Imm(ImmOp::Slli))
    } else if spells(t, "srli"@) {
        Some(Format::Imm(ImmOp::Srli))
    } else if spells(t, "srai"@) {
        Some(Format::Imm(ImmOp::Srai))
    } else if spells(t, "slti"@) {
        Some(Format::Imm(ImmOp::Slti))
    } else if spells(t, "sltiu"@) {
        Some(Format::Imm(ImmOp::Sltiu))
    } else if spells(t, "jalr"@) {
        Some(Format::Imm(ImmOp::Jalr))
    } else if spells(t, "lb"@) {
        Some(Format::Load(LoadOp::Lb))
    } else if spells(t, "lh"@) {
        Some(Format::Load(LoadOp::Lh))
    } else if spells(t, "lw"@) {
        Some(Format::Load(LoadOp::Lw))
    } else if spells(t, "lbu"@) {
        Some(Format::Load(LoadOp::Lbu))
    } else if spells(t, "lhu"@) {
        Some(Format::Load(LoadOp::Lhu))
    } else if spells(t, "sb"@) {
        Some(Format::Store(StoreOp::Sb))
    } else if spells(t, "sh"@) {
        Some(Format::Store(StoreOp::Sh))
    } else if spells(t, "sw"@) {
        Some(Format::Store(StoreOp::Sw))
    } else if spells(t, "beq"@) {
        Some(Format::Branch(BranchOp::Beq))
    } else if spells(t, "bne"@) {
        Some(Format::Branch(BranchOp::Bne))
    } else if spells(t, "blt"@) {
        Some(Format::Branch(BranchOp::Blt))
    } else if spells(t, "bltu"@) {
        Some(Format::Branch(BranchOp::Bltu))
    } else if spells(t, "bge"@) {
        Some(Format::Branch(BranchOp::Bge))
    } else if spells(t, "bgeu"@) {
        Some(Format::Branch(BranchOp::Bgeu))
    } else if spells(t, "jal"@) {
        Some(Format::Jump)
    } else if spells(t, "lui"@) {
        Some(Format::Upper(UpperOp::Lui))
    } else if spells(t, "auipc"@) {
        Some(Format::Upper(UpperOp::Auipc))
    } else if spells(t, "print"@) {
        Some(Format::Print)
    } else {
        None
    }
}

/// The register-register instruction of `op`.
pub open spec fn reg_instr(op: AluOp, rd: usize, rs1: usize, rs2: usize) -> Instruction {
    match op {
        AluOp::Add => Instruction::Add { rd, rs1, rs2 },
        AluOp::Sub => Instruction::Sub { rd, rs1, rs2 },
        AluOp::Mul => Instruction::Mul { rd, rs1, rs2 },
        AluOp::Mulh => Instruction::Mulh { rd, rs1, rs2 },
        AluOp::Mulhsu => Instruction::Mulhsu { rd, rs1, rs2 },
        AluOp::Mulhu => Instruction::Mulhu { rd, rs1, rs2 },
        AluOp::Div => Instruction::Div { rd, rs1, rs2 },
        AluOp::Divu => Instruction::Divu { rd, rs1, rs2 },
        AluOp::Rem => Instruction::Rem { rd, rs1, rs2 },
        AluOp::Remu => Instruction::Remu { rd, rs1, rs2 },
        AluOp::And => Instruction::And { rd, rs1, rs2 },
        AluOp::Or => Instruction::Or { rd, rs1, rs2 },
        AluOp::Xor => Instruction::Xor { rd, rs1, rs2 },
        AluOp::Sll => Instruction::Sll { rd, rs1, rs2 },
        AluOp::Srl => Instruction::Srl { rd, rs1, rs2 },
        AluOp::Sra => Instruction::Sra { rd, rs1, rs2 },
        AluOp::Slt => Instruction::Slt { rd, rs1, rs2 },
        AluOp::Sltu => Instruction::Sltu { rd, rs1, rs2 },
    }
}

/// The register-immediate instruction of `op`.
pub open spec fn imm_instr(op: ImmOp, rd: usize, rs1: usize, imm: i32) -> Instruction {
    match op {
        ImmOp::Addi => Instruction::Addi { rd, rs1, imm },
        ImmOp::Andi => Instruction::Andi { rd, rs1, imm },
        ImmOp::Ori => Instruction::Ori { rd, rs1, imm },
        ImmOp::Xori => Instruction::Xori { rd, rs1, imm },
        ImmOp::Slli => Instruction::Slli { rd, rs1, imm },
        ImmOp::Srli => Instruction::Srli { rd, rs1, imm },
        ImmOp::Srai => Instruction::Srai { rd, rs1, imm },
        ImmOp::Slti => Instruction::Slti { rd, rs1, imm },
        ImmOp::Sltiu => Instruction::Sltiu { rd, rs1, imm },
        ImmOp::Jalr => Instruction::Jalr { rd, rs1, imm },
    }
}

/// The load of `op`.
pub open spec fn load_instr(op: LoadOp, rd: usize, rs1: usize, imm: i32) -> Instruction {
    match op {
        LoadOp::Lb => Instruction::Lb { rd, rs1, imm },
        LoadOp::Lh => Instruction::Lh { rd, rs1, imm },
        LoadOp::Lw => Instruction::Lw { rd, rs1, imm },
        LoadOp::Lbu => Instruction::Lbu { rd, rs1, imm },
        LoadOp::Lhu => Instruction::Lhu { rd, rs1, imm },
    }
}

/// The store of `op`, with value register `rs1` and base register `rs2`.
pub open spec fn store_instr(op: StoreOp, rs1: usize, rs2: usize, imm: i32) -> Instruction {
    match op {
        StoreOp::Sb => Instruction::Sb { rs1, rs2, imm },
        StoreOp::Sh => Instruction::Sh { rs1, rs2, imm },
        StoreOp::Sw => Instruction::Sw { rs1, rs2, imm },
    }
}

/// The branch of `op`.
pub open spec fn branch_instr(op: BranchOp, rs1: usize, rs2: usize, offset: i32) -> Instruction {
    match op {
        BranchOp::Beq => Instruction::Beq { rs1, rs2, offset },
        BranchOp::Bne => Instruction::Bne { rs1, rs2, offset },
        BranchOp::Blt => Instruction::Blt { rs1, rs2, offset },
        BranchOp::Bltu => Instruction::Bltu { rs1, rs2, offset },
        BranchOp::Bge => Instruction::Bge { rs1, rs2, offset },
        BranchOp::Bgeu => Instruction::Bgeu { rs1, rs2, offset },
    }
}

/// The upper-immediate instruction of `op`.
pub open spec fn upper_instr(op: UpperOp, rd: usize, imm: i32) -> Instruction {
    match op {
        UpperOp::Lui => Instruction::Lui { rd, imm },
        UpperOp::Auipc => Instruction::Auipc { rd, imm },
    }
}

fn make_reg_instr(op: AluOp, rd: usize, rs1: usize, rs2: usize) -> (r: Instruction)
    ensures
        r == reg_instr(op, rd, rs1, rs2),
{
    match op {
        AluOp::Add => Instruction::Add { rd, rs1, rs2 },
        AluOp::Sub => Instruction::Sub { rd, rs1, rs2 },
        AluOp::Mul => Instruction::Mul { rd, rs1, rs2 },
        AluOp::Mulh => Instruction::Mulh { rd, rs1, rs2 },
        AluOp::Mulhsu => Instruction::Mulhsu { rd, rs1, rs2 },
        AluOp::Mulhu => Instruction::Mulhu { rd, rs1, rs2 },
        AluOp::Div => Instruction::Div { rd, rs1, rs2 },
        AluOp::Divu => Instruction::Divu { rd, rs1, rs2 },
        AluOp::Rem => Instruction::Rem { rd, rs1, rs2 },
        AluOp::Remu => Instruction::Remu { rd, rs1, rs2 },
        AluOp::And => Instruction::And { rd, rs1, rs2 },
        AluOp::Or => Instruction::Or { rd, rs1, rs2 },
        AluOp::Xor => Instruction::Xor { rd, rs1, rs2 },
        AluOp::Sll => Instruction::Sll { rd, rs1, rs2 },
        AluOp::Srl => Instruction::Srl { rd, rs1, rs2 },
        AluOp::Sra => Instruction::Sra { rd, rs1, rs2 },
        AluOp::Slt => Instruction::Slt { rd, rs1, rs2 },
        AluOp::Sltu => Instruction::Sltu { rd, rs1, rs2 },
    }
}

fn make_imm_instr(op: ImmOp, rd: usize, rs1: usize, imm: i32) -> (r: Instruction)
    ensures
        r == imm_instr(op, rd, rs1, imm),
{
    match op {
        ImmOp::Addi => Instruction::Addi { rd, rs1, imm },
        ImmOp::Andi => Instruction::Andi { rd, rs1, imm },
        ImmOp::Ori => Instruction::Ori { rd, rs1, imm },
        ImmOp::Xori => Instruction::Xori { rd, rs1, imm },
        ImmOp::Slli => Instruction::Slli { rd, rs1, imm },
        ImmOp::Srli => Instruction::Srli { rd, rs1, imm },
        ImmOp::Srai => Instruction::Srai { rd, rs1, imm },
        ImmOp::Slti => Instruction::Slti { rd, rs1, imm },
        ImmOp::Sltiu => Instruction::Sltiu { rd, rs1, imm },
        ImmOp::Jalr => Instruction::Jalr { rd, rs1, imm },
    }
}

fn make_load_instr(op: LoadOp, rd: usize, rs1: usize, imm: i32) -> (r: Instruction)
    ensures
        r == load_instr(op, rd, rs1, imm),
{
    match op {
        LoadOp::Lb => Instruction::Lb { rd, rs1, imm },
        LoadOp::Lh => Instruction::Lh { rd, rs1, imm },
        LoadOp::Lw => Instruction::Lw { rd, rs1, imm },
        LoadOp::Lbu => Instruction::Lbu { rd, rs1, imm },
        LoadOp::Lhu => Instruction::Lhu { rd, rs1, imm },
    }
}

fn make_store_instr(op: StoreOp, rs1: usize, rs2: usize, imm: i32) -> (r: Instruction)
    ensures
        r == store_instr(op, rs1, rs2, imm),
{
    match op {
        StoreOp::Sb => Instruction::Sb { rs1, rs2, imm },
        StoreOp::Sh => Instruction::Sh { rs1, rs2, imm },
        StoreOp::Sw => Instruction::Sw { rs1, rs2, imm },
    }
}

fn make_branch_instr(op: BranchOp, rs1: usize, rs2: usize, offset: i32) -> (r: Instruction)
    ensures
        r == branch_instr(op, rs1, rs2, offset),
{
    match op {
        BranchOp::Beq => Instruction::Beq { rs1, rs2, offset },
        BranchOp::Bne => Instruction::Bne { rs1, rs2, offset },
        BranchOp::Blt => Instruction::Blt { rs1, rs2, offset },
        BranchOp::Bltu => Instruction::Bltu { rs1, rs2, offset },
        BranchOp::Bge => Instruction::Bge { rs1, rs2, offset },
        BranchOp::Bgeu => Instruction::Bgeu { rs1, rs2, offset },
    }
}

fn make_upper_instr(op: UpperOp, rd: usize, imm: i32) -> (r: Instruction)
    ensures
        r == upper_instr(op, rd, imm),
{
    match op {
        UpperOp::Lui => Instruction::Lui { rd, imm },
        UpperOp::Auipc => Instruction::Auipc { rd, imm },
    }
}

/// Whether the token `s[a..b]` spells the lower-case name `m`, ignoring case.
fn spells_at(s: &Vec<char>, a: usize, b: usize, m: &str) -> (r: bool)
    requires
        a <= b <= s@.len(),
    ensures
        r == spells(s@.subrange(a as int, b as int), m@),
{
    let n = m.unicode_len();
    if b - a != n {
        return false;
    }
    let mut i: usize = 0;
    while i < n
        invariant
            n == m@.len(),
            b - a == n,
            a <= b <= s@.len(),
            i <= n,
            forall|j: int| 0 <= j < i ==> same_letter(s@[a + j], m@[j]),
        decreases n - i,
    {
        let c = s[a + i];
        let d = m.get_char(i);
        let upper_of_d = 'A' <= c && c <= 'Z' && 'a' <= d && d <= 'z' && c as u32 + 32 == d as u32;
        if !(c == d || upper_of_d) {
            assert(!same_letter(s@.subrange(a as int, b as int)[i as int], m@[i as int]));
            return false;
        }
        i = i + 1;
    }
    assert(forall|j: int| 0 <= j < n ==> s@.subrange(a as int, b as int)[j] == s@[a + j]);
    true
}

/// Looks the mnemonic `s[a..b]` up in the table.
fn lookup_format(s: &Vec<char>, a: usize, b: usize) -> (r: Option<Format>)
    requires
        a <= b <= s@.len(),
    ensures
        r == format_of(s@.subrange(a as int, b as int)),
{
    if spells_at(s, a, b, "add") {
        Some(Format::Reg(AluOp::Add))
    } else if spells_at(s, a, b, "sub") {
        Some(Format::Reg(AluOp::Sub))
    } else if spells_at(s, a, b, "mul") {
        Some(Format::Reg(AluOp::Mul))
    } else if spells_at(s, a, b, "mulh") {
        Some(Format::Reg(AluOp::Mulh))
    } else if spells_at(s, a, b, "mulhsu") {
        Some(Format::Reg(AluOp::Mulhsu))
    } else if spells_at(s, a, b, "mulhu") {
        Some(Format::Reg(AluOp::Mulhu))
    } else if spells_at(s, a, b, "div") {
        Some(Format::Reg(AluOp::Div))
    } else if spells_at(s, a, b, "divu") {
        Some(Format::Reg(AluOp::Divu))
    } else if spells_at(s, a, b, "rem") {
        Some(Format::Reg(AluOp::Rem))
    } else if spells_at(s, a, b, "remu") {
        Some(Format::Reg(AluOp::Remu))
    } else if spells_at(s, a, b, "and") {
        Some(Format::Reg(AluOp::And))
    } else if spells_at(s, a, b, "or") {
        Some(Format::Reg(AluOp::Or))
    } else if spells_at(s, a, b, "xor") {
        Some(Format::Reg(AluOp::Xor))
    } else if spells_at(s, a, b, "sll") {
        Some(Format::Reg(AluOp::Sll))
    } else if spells_at(s, a, b, "srl") {
        Some(Format::Reg(AluOp::Srl))
    } else if spells_at(s, a, b, "sra") {
        Some(Format::Reg(AluOp::Sra))
    } else if spells_at(s, a, b, "slt") {
        Some(Format::Reg(AluOp::Slt))
    } else if spells_at(s, a, b, "sltu") {
        Some(Format::Reg(AluOp::Sltu))
    } else if spells_at(s, a, b, "addi") {
        Some(Format::Imm(ImmOp::Addi))
    } else if spells_at(s, a, b, "andi") {
        Some(Format::Imm(ImmOp::Andi))
    } else if spells_at(s, a, b, "ori") {
        Some(Format::Imm(ImmOp::Ori))
    } else if spells_at(s, a, b, "xori") {
        Some(Format::Imm(ImmOp::Xori))
    } else if spells_at(s, a, b, "slli") {
        Some(Format::Imm(ImmOp::Slli))
    } else if spells_at(s, a, b, "srli") {
        Some(Format::Imm(ImmOp::Srli))
    } else if spells_at(s, a, b, "srai") {
        Some(Format::Imm(ImmOp::Srai))
    } else if spells_at(s, a, b, "slti") {
        Some(Format::Imm(ImmOp::Slti))
    } else if spells_at(s, a, b, "sltiu") {
        Some(Format::Imm(ImmOp::Sltiu))
    } else if spells_at(s, a, b, "jalr") {
        Some(Format::Imm(ImmOp::Jalr))
    } else if spells_at(s, a, b, "lb") {
        Some(Format::Load(LoadOp::Lb))
    } else if spells_at(s, a, b, "lh") {
        Some(Format::Load(LoadOp::Lh))
    } else if spells_at(s, a, b, "lw") {
        Some(Format::Load(LoadOp::Lw))
    } else if spells_at(s, a, b, "lbu") {
        Some(Format::Load(LoadOp::Lbu))
    } else if spells_at(s, a, b, "lhu") {
        Some(Format::Load(LoadOp::Lhu))
    } else if spells_at(s, a, b, "sb") {
        Some(Format::Store(StoreOp::Sb))
    } else if spells_at(s, a, b, "sh") {
        Some(Format::Store(StoreOp::Sh))
    } else if spells_at(s, a, b, "sw") {
        Some(Format::Store(StoreOp::Sw))
    } else if spells_at(s, a, b, "beq") {
        Some(Format::Branch(BranchOp::Beq))
    } else if spells_at(s, a, b, "bne") {
        Some(Format::Branch(BranchOp::Bne))
    } else if spells_at(s, a, b, "blt") {
        Some(Format::Branch(BranchOp::Blt))
    } else if spells_at(s, a, b, "bltu") {
        Some(Format::Branch(BranchOp::Bltu))
    } else if spells_at(s, a, b, "bge") {
        Some(Format::Branch(BranchOp::Bge))
    } else if spells_at(s, a, b, "bgeu") {
        Some(Format::Branch(BranchOp::Bgeu))
    } else if spells_at(s, a, b, "jal") {
        Some(Format::Jump)
    } else if spells_at(s, a, b, "lui") {
        Some(Format::Upper(UpperOp::Lui))
    } else if spells_at(s, a, b, "auipc") {
        Some(Format::Upper(UpperOp::Auipc))
    } else if spells_at(s, a, b, "print") {
        Some(Format::Print)
    } else {
        None
    }
}

/// The instruction that a format makes of the operand tokens `ops`. Tokens after those the
/// format reads are not looked at: a branch or a jump names its target label there.
pub open spec fn operands(f: Format, ops: Seq<Seq<char>>) -> Option<Instruction> {
    match f {
        Format::Reg(op) => if ops.len() >= 3 {
            match (reg_of(ops[0]), reg_of(ops[1]), reg_of(ops[2])) {
                (Some(d), Some(x), Some(y)) => Some(reg_instr(op, d, x, y)),
                _ => None,
            }
        } else {
            None
        },
        Format::Imm(op) => if ops.len() >= 3 {
            match (reg_of(ops[0]), reg_of(ops[1]), imm_of(ops[2])) {
                (Some(d), Some(x), Some(i)) => Some(imm_instr(op, d, x, i)),
                _ => None,
            }
        } else {
            None
        },
        Format::Load(op) => if ops.len() >= 2 {
            match (reg_of(ops[0]), mem_of(ops[1])) {
                (Some(d), Some((i, b))) => Some(load_instr(op, d, b, i)),
                _ => None,
            }
        } else {
            None
        },
        Format::Store(op) => if ops.len() >= 2 {
            match (reg_of(ops[0]), mem_of(ops[1])) {
                (Some(v), Some((i, b))) => Some(store_instr(op, v, b, i)),
                _ => None,
            }
        } else {
            None
        },
        Format::Branch(op) => if ops.len() >= 2 {
            match (reg_of(ops[0]), reg_of(ops[1])) {
                (Some(x), Some(y)) => Some(branch_instr(op, x, y, 0)),
                _ => None,
            }
        } else {
            None
        },
        Format::Jump => if ops.len() >= 1 {
            match reg_of(ops[0]) {
                Some(d) => Some(Instruction::Jal { rd: d, offset: 0 }),
                None => None,
            }
        } else {
            None
        },
        Format::Upper(op) => if ops.len() >= 2 {
            match (reg_of(ops[0]), imm_of(ops[1])) {
                (Some(d), Some(i)) => Some(upper_instr(op, d, i)),
                _ => None,
            }
        } else {
            None
        },
        Format::Print => if ops.len() >= 1 {
            match reg_of(ops[0]) {
                Some(r) => Some(Instruction::Print { rs: r }),
                None => None,
            }
        } else {
            None
        },
    }
}

/// The instruction written on the tokens `toks`: a mnemonic, then its operands.
pub open spec fn instruction_of(toks: Seq<Seq<char>>) -> Option<Instruction> {
    if toks.len() == 0 {
        None
    } else {
        match format_of(toks[0]) {
            Some(f) => operands(f, toks.drop_first()),
            None => None,
        }
    }
}

/// The instruction written on a source line; `None` for a blank or comment line, an unknown
/// mnemonic or a malformed operand. Branches and jumps get offset zero.
pub open spec fn parse_line(line: Seq<char>) -> Option<Instruction> {
    instruction_of(line_tokens(line))
}

/// A parsed instruction names only valid registers.
proof fn lemma_operands_valid(f: Format, ops: Seq<Seq<char>>)
    ensures
        operands(f, ops) matches Some(i) ==> i.regs_valid(),
{
    if ops.len() >= 3 {
        lemma_reg_of_valid(ops[2]);
    }
    if ops.len() >= 2 {
        lemma_reg_of_valid(ops[1]);
        lemma_mem_of_valid(ops[1]);
    }
    if ops.len() >= 1 {
        lemma_reg_of_valid(ops[0]);
    }
}

proof fn lemma_digits_nonnegative(ds: Seq<char>, radix: nat)
    ensures
        digits_value(ds, radix) >= 0,
    decreases ds.len(),
{
    if ds.len() > 0 {
        lemma_digits_nonnegative(ds.drop_last(), radix);
        let v = digits_value(ds.drop_last(), radix);
        assert(v * radix >= 0) by (nonlinear_arith)
            requires
                v >= 0,
        ;
    }
}

proof fn lemma_reg_of_valid(t: Seq<char>)
    ensures
        reg_of(t) matches Some(r) ==> r < 32,
{
    lemma_digits_nonnegative(t.drop_first(), 10);
}

proof fn lemma_mem_of_valid(t: Seq<char>)
    ensures
        mem_of(t) matches Some((_, r)) ==> r < 32,
{
    let p = first_index(t, '(');
    if p < t.len() && t.len() >= p + 2 && t.last() == ')' {
        lemma_reg_of_valid(t.subrange(p + 1, t.len() - 1));
    }
}

/// `spans` locates the tokens `toks` in `s`.
pub open spec fn spans_locate(
    s: Seq<char>,
    spans: Seq<(usize, usize)>,
    toks: Seq<Seq<char>>,
) -> bool {
    &&& spans.len() == toks.len()
    &&& forall|j: int|
        0 <= j < spans.len() ==> {
            &&& (#[trigger] spans[j]).0 < spans[j].1 <= s.len()
            &&& s.subrange(spans[j].0 as int, spans[j].1 as int) == toks[j]
        }
}

/// Reads the operands of format `f` from the tokens after the first, located by `spans`.
fn parse_operands(
    f: Format,
    s: &Vec<char>,
    spans: &Vec<(usize, usize)>,
    Ghost(toks): Ghost<Seq<Seq<char>>>,
) -> (r: Option<Instruction>)
    requires
        spans_locate(s@, spans@, toks),
        toks.len() >= 1,
    ensures
        r == operands(f, toks.drop_first()),
{
    let ghost ops = toks.drop_first();
    let n = spans.len() - 1;
    assert(forall|k: int| 0 <= k < n ==> #[trigger] ops[k] == toks[k + 1]);
    match f {
        Format::Reg(op) => {
            if n < 3 {
                return None;
            }
            match (
                parse_reg(s, spans[1].0, spans[1].1),
                parse_reg(s, spans[2].0, spans[2].1),
                parse_reg(s, spans[3].0, spans[3].1),
            ) {
                (Some(d), Some(x), Some(y)) => Some(make_reg_instr(op, d, x, y)),
                _ => None,
            }
        },
        Format::Imm(op) => {
            if n < 3 {
                return None;
            }
            match (
                parse_reg(s, spans[1].0, spans[1].1),
                parse_reg(s, spans[2].0, spans[2].1),
                parse_imm(s, spans[3].0, spans[3].1),
            ) {
                (Some(d), Some(x), Some(i)) => Some(make_imm_instr(op, d, x, i)),
                _ => None,
            }
        },
        Format::Load(op) => {
            if n < 2 {
                return None;
            }
            match (
                parse_reg(s, spans[1].0, spans[1].1),
                parse_mem_operand(s, spans[2].0, spans[2].1),
            ) {
                (Some(d), Some((i, b))) => Some(make_load_instr(op, d, b, i)),
                _ => None,
            }
        },
        Format::Store(op) => {
            if n < 2 {
                return None;
            }
            match (
                parse_reg(s, spans[1].0, spans[1].1),
                parse_mem_operand(s, spans[2].0, spans[2].1),
            ) {
                (Some(v), Some((i, b))) => Some(make_store_instr(op, v, b, i)),
                _ => None,
            }
        },
        Format::Branch(op) => {
            if n < 2 {
                return None;
            }
            match (parse_reg(s, spans[1].0, spans[1].1), parse_reg(s, spans[2].0, spans[2].1)) {
                (Some(x), Some(y)) => Some(make_branch_instr(op, x, y, 0)),
                _ => None,
            }
        },
        Format::Jump => {
            if n < 1 {
                return None;
            }
            match parse_reg(s, spans[1].0, spans[1].1) {
                Some(d) => Some(Instruction::Jal { rd: d, offset: 0 }),
                None => None,
            }
        },
        Format::Upper(op) => {
            if n < 2 {
                return None;
            }
            match (parse_reg(s, spans[1].0, spans[1].1), parse_imm(s, spans[2].0, spans[2].1)) {
                (Some(d), Some(i)) => Some(make_upper_instr(op, d, i)),
                _ => None,
            }
        },
        Format::Print => {
            if n < 1 {
                return None;
            }
            match parse_reg(s, spans[1].0, spans[1].1) {
                Some(r) => Some(Instruction::Print { rs: r }),
                None => None,
            }
        },
    }
}

/// The characters of a line, where its comment starts, and the spans of its tokens.
fn scan_line(line: &str) -> (r: (Vec<char>, Vec<(usize, usize)>))
    ensures
        r.0@ == line@,
        spans_locate(line@, r.1@, line_tokens(line@)),
{
    let s = chars_of(line);
    let h = find_char(&s, 0, s.len(), '#');
    assert(s@.subrange(0, s@.len() as int) =~= s@);
    let spans = token_spans(&s, h);
    (s, spans)
}

/// Parses one line of assembly. Returns `None` for a blank or comment line, an unknown
/// mnemonic, a missing operand or a malformed one. Branches and jumps get offset zero:
/// their target label is resolved by `assemble`.
pub fn parse_instruction(line: &str) -> (r: Option<Instruction>)
    ensures
        r == parse_line(line@),
        r matches Some(i) ==> i.regs_valid(),
{
    let (s, spans) = scan_line(line);
    parse_tokens(&s, &spans, Ghost(line_tokens(line@)))
}

/// Reads the instruction written on the tokens located by `spans`.
fn parse_tokens(
    s: &Vec<char>,
    spans: &Vec<(usize, usize)>,
    Ghost(toks): Ghost<Seq<Seq<char>>>,
) -> (r: Option<Instruction>)
    requires
        spans_locate(s@, spans@, toks),
    ensures
        r == instruction_of(toks),
        r matches Some(i) ==> i.regs_valid(),
{
    if spans.len() == 0 {
        return None;
    }
    match lookup_format(s, spans[0].0, spans[0].1) {
        Some(f) => {
            proof {
                lemma_operands_valid(f, toks.drop_first());
            }
            parse_operands(f, s, spans, Ghost(toks))
        },
        None => None,
    }
}

/// What a source line holds.
pub enum LineKind {
    /// Nothing but white space and a comment.
    Blank,
    /// A label definition `name:`.
    Label(Seq<char>),
    /// An instruction, with the last token of the line, which names the target of a branch
    /// or a jump.
    Code(Instruction, Seq<char>),
    /// A line that no instruction can be read from.
    Skipped,
}

pub open spec fn classify(line: Seq<char>) -> LineKind {
    let toks = line_tokens(line);
    if toks.len() == 0 {
        LineKind::Blank
    } else if toks.len() == 1 && toks[0].last() == ':' {
        LineKind::Label(toks[0].drop_last())
    } else {
        match instruction_of(toks) {
            Some(i) => LineKind::Code(i, toks.last()),
            None => LineKind::Skipped,
        }
    }
}

/// The index that `name` labels, if a label of that name is defined.
pub open spec fn find_label(labels: Seq<(Seq<char>, usize)>, name: Seq<char>) -> Option<usize>
    decreases labels.len(),
{
    if labels.len() == 0 {
        None
    } else if labels.last().0 == name {
        Some(labels.last().1)
    } else {
        find_label(labels.drop_last(), name)
    }
}

/// The first pass over a source: its instructions with the label each names, the labels
/// with the index of the instruction that follows each, and the first label defined twice.
pub struct Listing {
    pub code: Seq<(Instruction, Seq<char>)>,
    pub labels: Seq<(Seq<char>, usize)>,
    pub duplicate: Option<Seq<char>>,
}

pub open spec fn listing(lines: Seq<Seq<char>>) -> Listing
    decreases lines.len(),
{
    if lines.len() == 0 {
        Listing { code: seq![], labels: seq![], duplicate: None }
    } else {
        let prev = listing(lines.drop_last());
        if prev.duplicate is Some {
            prev
        } else {
            match classify(lines.last()) {
                LineKind::Label(name) => if find_label(prev.labels, name) is Some {
                    Listing { duplicate: Some(name), ..prev }
                } else {
                    Listing { labels: prev.labels.push((name, prev.code.len() as usize)), ..prev }
                },
                LineKind::Code(i, target) => Listing { code: prev.code.push((i, target)), ..prev },
                _ => prev,
            }
        }
    }
}

/// The instruction at index `k` with its label target resolved to a relative offset.
pub open spec fn resolve(
    entry: (Instruction, Seq<char>),
    labels: Seq<(Seq<char>, usize)>,
    k: int,
) -> Instruction {
    if entry.0.is_jump() {
        match find_label(labels, entry.1) {
            Some(t) => entry.0.with_offset((t - k) as i32),
            None => entry.0,
        }
    } else {
        entry.0
    }
}

/// The target label of the first branch or jump, from index `k` on, whose label is not
/// defined.
pub open spec fn first_undefined(
    code: Seq<(Instruction, Seq<char>)>,
    labels: Seq<(Seq<char>, usize)>,
    k: int,
) -> Option<Seq<char>>
    decreases code.len() - k,
{
    if k >= code.len() || k < 0 {
        None
    } else if code[k].0.is_jump() && find_label(labels, code[k].1) is None {
        Some(code[k].1)
    } else {
        first_undefined(code, labels, k + 1)
    }
}

/// What a source assembles to.
pub enum Assembly {
    Program(Seq<Instruction>, Seq<(Seq<char>, usize)>),
    DuplicateLabel(Seq<char>),
    UndefinedLabel(Seq<char>),
}

pub open spec fn assembly(lines: Seq<Seq<char>>) -> Assembly {
    let l = listing(lines);
    match l.duplicate {
        Some(name) => Assembly::DuplicateLabel(name),
        None => match first_undefined(l.code, l.labels, 0) {
            Some(name) => Assembly::UndefinedLabel(name),
            None => Assembly::Program(
                Seq::new(l.code.len(), |k: int| resolve(l.code[k], l.labels, k)),
                l.labels,
            ),
        },
    }
}

pub open spec fn lines_view(lines: Seq<String>) -> Seq<Seq<char>> {
    lines.map_values(|l: String| l@)
}

pub open spec fn labels_view(labels: Seq<(String, usize)>) -> Seq<(Seq<char>, usize)> {
    labels.map_values(|p: (String, usize)| (p.0@, p.1))
}

/// An assembled program: its instructions, and each label with the index of the
/// instruction it marks, in the order of definition.
pub struct Program {
    pub instructions: Vec<Instruction>,
    pub labels: Vec<(String, usize)>,
}

/// Why a source does not assemble.
#[derive(Debug, PartialEq, Eq)]
pub enum AsmError {
    DuplicateLabel(String),
    UndefinedLabel(String),
}

/// The index that the label `name` marks.
fn lookup_label(labels: &Vec<(String, usize)>, name: &String) -> (r: Option<usize>)
    ensures
        r == find_label(labels_view(labels@), name@),
{
    let ghost lv = labels_view(labels@);
    let mut i: usize = labels.len();
    assert(lv.take(i as int) =~= lv);
    while i > 0
        invariant
            i <= labels@.len(),
            lv == labels_view(labels@),
            find_label(lv, name@) == find_label(lv.take(i as int), name@),
        decreases i,
    {
        let ghost t = lv.take(i as int);
        assert(t.drop_last() =~= lv.take(i - 1));
        if labels[i - 1].0 == *name {
            return Some(labels[i - 1].1);
        }
        i = i - 1;
    }
    None
}

/// Once a label is defined twice, later lines change nothing.
proof fn lemma_duplicate_persists(lines: Seq<Seq<char>>, i: int)
    requires
        0 <= i <= lines.len(),
        listing(lines.take(i)).duplicate is Some,
    ensures
        listing(lines) == listing(lines.take(i)),
    decreases lines.len() - i,
{
    if i < lines.len() {
        assert(lines.take(i + 1).drop_last() =~= lines.take(i));
        lemma_duplicate_persists(lines, i + 1);
    } else {
        assert(lines.take(i) =~= lines);
    }
}

/// Assembles a program from its source lines.
///
/// Each line holds an instruction, a label definition `name:`, or nothing but a comment;
/// a line that no instruction can be read from is skipped. A label marks the index of the
/// next instruction. A branch or a jump names its target label as its last operand, defined
/// before or after it, and gets the offset from its own index to the label's. Fails on the
/// first label defined twice, then on the first branch or jump whose label is not defined.
pub fn assemble(lines: &Vec<String>) -> (r: Result<Program, AsmError>)
    requires
        lines@.len() <= 0x7FFF_FFFF,
    ensures
        match assembly(lines_view(lines@)) {
            Assembly::Program(instrs, labels) => (r matches Ok(p) && p.instructions@ == instrs
                && labels_view(p.labels@) == labels),
            Assembly::DuplicateLabel(name) => (r matches Err(AsmError::DuplicateLabel(n)) && n@
                == name),
            Assembly::UndefinedLabel(name) => (r matches Err(AsmError::UndefinedLabel(n)) && n@
                == name),
        },
        r matches Ok(p) ==> program_valid(p.instructions@),
{
    let ghost lv = lines_view(lines@);
    let mut code: Vec<Instruction> = Vec::new();
    let mut targets: Vec<String> = Vec::new();
    let mut labels: Vec<(String, usize)> = Vec::new();
    let mut i: usize = 0;
    while i < lines.len()
        invariant
            lv == lines_view(lines@),
            i <= lines@.len() <= 0x7FFF_FFFF,
            listing(lv.take(i as int)).duplicate is None,
            listing(lv.take(i as int)).labels == labels_view(labels@),
            listing(lv.take(i as int)).code.len() == code@.len(),
            targets@.len() == code@.len() <= i,
            forall|k: int|
                0 <= k < code@.len() ==> listing(lv.take(i as int)).code[k] == (
                #[trigger] code@[k],
                targets@[k]@,
                ),
            forall|k: int| 0 <= k < code@.len() ==> (#[trigger] code@[k]).regs_valid(),
            forall|k: int| 0 <= k < labels@.len() ==> (#[trigger] labels@[k]).1 <= code@.len(),
        decreases lines@.len() - i,
    {
        let line = lines[i].as_str();
        let (s, spans) = scan_line(line);
        let ghost toks = line_tokens(line@);
        let ghost prev = listing(lv.take(i as int));
        assert(lv.take(i + 1).drop_last() =~= lv.take(i as int));
        assert(lv.take(i + 1).last() == line@);
        if spans.len() == 1 && s[spans[0].1 - 1] == ':' {
            let name = line.substring_char(spans[0].0, spans[0].1 - 1).to_owned();
            assert(name@ =~= toks[0].drop_last());
            if lookup_label(&labels, &name).is_some() {
                proof {
                    lemma_duplicate_persists(lv, i + 1);
                }
                return Err(AsmError::DuplicateLabel(name));
            }
            labels.push((name, code.len()));
            assert(labels_view(labels@) =~= prev.labels.push((name@, code@.len() as usize)));
        } else {
            match parse_tokens(&s, &spans, Ghost(toks)) {
                Some(inst) => {
                    let last = spans[spans.len() - 1];
                    let target = line.substring_char(last.0, last.1).to_owned();
                    code.push(inst);
                    targets.push(target);
                    assert(listing(lv.take(i + 1)).code == prev.code.push((inst, target@)));
                },
                None => {},
            }
        }
        i = i + 1;
    }
    assert(lv.take(i as int) =~= lv);
    let ghost l = listing(lv);
    let mut out: Vec<Instruction> = Vec::new();
    let mut k: usize = 0;
    while k < code.len()
        invariant
            lv == lines_view(lines@),
            l == listing(lv),
            l.duplicate is None,
            l.labels == labels_view(labels@),
            l.code.len() == code@.len() == targets@.len(),
            code@.len() <= 0x7FFF_FFFF,
            forall|j: int|
                0 <= j < code@.len() ==> l.code[j] == (#[trigger] code@[j], targets@[j]@),
            forall|j: int| 0 <= j < code@.len() ==> (#[trigger] code@[j]).regs_valid(),
            forall|j: int| 0 <= j < labels@.len() ==> (#[trigger] labels@[j]).1 <= code@.len(),
            k <= code@.len(),
            first_undefined(l.code, l.labels, 0) == first_undefined(l.code, l.labels, k as int),
            out@.len() == k,
            forall|j: int| 0 <= j < k ==> #[trigger] out@[j] == resolve(l.code[j], l.labels, j),
            forall|j: int| 0 <= j < k ==> (#[trigger] out@[j]).regs_valid(),
        decreases code@.len() - k,
    {
        let mut inst = code[k];
        if inst.has_label_target() {
            match lookup_label(&labels, &targets[k]) {
                Some(t) => {
                    proof {
                        lemma_label_in_range(l.labels, targets@[k as int]@);
                    }
                    inst.patch_label((t as i64 - k as i64) as i32);
                },
                None => {
                    assert(first_undefined(l.code, l.labels, k as int) == Some(
                        targets@[k as int]@,
                    ));
                    return Err(AsmError::UndefinedLabel(targets[k].clone()));
                },
            }
        }
        out.push(inst);
        k = k + 1;
    }
    let ghost expected = Seq::new(l.code.len(), |j: int| resolve(l.code[j], l.labels, j));
    assert(out@ =~= expected);
    Ok(Program { instructions: out, labels })
}

/// No undefined label from `j` on means none at any later index.
proof fn lemma_no_undefined_from(
    code: Seq<(Instruction, Seq<char>)>,
    labels: Seq<(Seq<char>, usize)>,
    j: int,
    k: int,
)
    requires
        0 <= j <= k < code.len(),
        first_undefined(code, labels, j) is None,
    ensures
        code[k].0.is_jump() ==> find_label(labels, code[k].1) is Some,
    decreases k - j,
{
    if j < k {
        lemma_no_undefined_from(code, labels, j + 1, k);
    }
}

/// A branch or a jump of an assembled program gets the offset from its own index to the
/// index its label marks, whether the label is defined before or after it; every other
/// instruction is kept as written.
pub proof fn lemma_label_offsets(lines: Seq<Seq<char>>, k: int)
    requires
        assembly(lines) is Program,
        0 <= k < listing(lines).code.len(),
    ensures
        ({
            let (inst, target) = listing(lines).code[k];
            match assembly(lines) {
                Assembly::Program(instrs, labels) => {
                    &&& instrs.len() == listing(lines).code.len()
                    &&& inst.is_jump() ==> (find_label(labels, target) matches Some(t) && instrs[k]
                        == inst.with_offset((t - k) as i32))
                    &&& !inst.is_jump() ==> instrs[k] == inst
                },
                _ => false,
            }
        }),
{
    let l = listing(lines);
    lemma_no_undefined_from(l.code, l.labels, 0, k);
}

/// A store read from a line `m xa, k(xb)` is executed as that syntax says: it accesses
/// memory at `reg[b] + k` and writes the value of register `a` there.
pub proof fn lemma_parsed_store(line: Seq<char>, a: usize, k: i32, b: usize, s: CpuState)
    requires
        line_tokens(line).len() >= 3,
        format_of(line_tokens(line)[0]) matches Some(Format::Store(_)),
        reg_of(line_tokens(line)[1]) == Some(a),
        mem_of(line_tokens(line)[2]) == Some((k, b)),
        running(s),
        parse_line(line) == Some(s.program[s.pc as int]),
    ensures
        memory_access(s) == Some(
            (effective_address(s.reg(b), k), store_width(s.program[s.pc as int])),
        ),
        step(s) == s.store_value(
            effective_address(s.reg(b), k),
            store_width(s.program[s.pc as int]),
            s.reg(a),
        ),
{
}

/// A label found in the table marks one of the indices the table holds.
proof fn lemma_label_in_range(labels: Seq<(Seq<char>, usize)>, name: Seq<char>)
    ensures
        find_label(labels, name) matches Some(t) ==> exists|j: int|
            0 <= j < labels.len() && labels[j].1 == t,
    decreases labels.len(),
{
    if labels.len() > 0 && labels.last().0 != name {
        lemma_label_in_range(labels.drop_last(), name);
        if let Some(t) = find_label(labels, name) {
            let rest = labels.drop_last();
            let j = choose|j: int| 0 <= j < rest.len() && rest[j].1 == t;
            assert(labels[j].1 == t);
        }
    }
}

} // verus!
