//! Register arithmetic of the machine, stated over mathematical integers.
use vstd::arithmetic::div_mod::{
    lemma_fundamental_div_mod_converse, lemma_mod_multiples_vanish, lemma_mul_mod_noop_left,
    lemma_mul_mod_noop_right,
};
use vstd::arithmetic::power2::{lemma2_to64, pow2};
use vstd::bits::lemma_u64_shl_is_mul;
use vstd::prelude::*;

verus! {

/// `2^32`, the number of distinct 32-bit register values.
pub const WORD_RANGE: u64 = 0x1_0000_0000;

/// The 32-bit two's-complement value congruent to `x` modulo `2^32`.
pub open spec fn wrap32(x: int) -> int {
    let m = x % 0x1_0000_0000;
    if m >= 0x8000_0000 {
        m - 0x1_0000_0000
    } else {
        m
    }
}

/// The value of a register read as an unsigned 32-bit number.
pub open spec fn unsigned(v: i32) -> int {
    if v < 0 {
        v + 0x1_0000_0000
    } else {
        v as int
    }
}

pub open spec fn abs(x: int) -> int {
    if x < 0 {
        -x
    } else {
        x
    }
}

/// Quotient rounded toward zero.
pub open spec fn trunc_div(a: int, b: int) -> int {
    let q = abs(a) / abs(b);
    if (a < 0) != (b < 0) {
        -q
    } else {
        q
    }
}

/// Remainder of the division rounded toward zero: it has the sign of the dividend.
pub open spec fn trunc_rem(a: int, b: int) -> int {
    let r = abs(a) % abs(b);
    if a < 0 {
        -r
    } else {
        r
    }
}

/// A shift amount: the low five bits of the register.
pub open spec fn shamt(b: i32) -> nat {
    (unsigned(b) % 32) as nat
}

/// The register-register operations; the register-immediate forms reuse them with the
/// immediate as second operand.
#[derive(Clone, Copy, Debug, PartialEq, Eq, Structural)]
pub enum AluOp {
    Add,
    Sub,
    Mul,
    Mulh,
    Mulhsu,
    Mulhu,
    Div,
    Divu,
    Rem,
    Remu,
    And,
    Or,
    Xor,
    Sll,
    Srl,
    Sra,
    Slt,
    Sltu,
}

/// The value an operation writes to its destination register.
pub open spec fn alu_spec(op: AluOp, a: i32, b: i32) -> int {
    match op {
        AluOp::Add => wrap32(a + b),
        AluOp::Sub => wrap32(a - b),
        AluOp::Mul => wrap32(a * b),
        AluOp::Mulh => (a * b) / 0x1_0000_0000,
        AluOp::Mulhsu => (a * unsigned(b)) / 0x1_0000_0000,
        AluOp::Mulhu => wrap32((unsigned(a) * unsigned(b)) / 0x1_0000_0000),
        AluOp::Div => if b == 0 {
            -1
        } else {
            wrap32(trunc_div(a as int, b as int))
        },
        AluOp::Divu => if b == 0 {
            -1
        } else {
            wrap32(unsigned(a) / unsigned(b))
        },
        AluOp::Rem => if b == 0 {
            a as int
        } else {
            trunc_rem(a as int, b as int)
        },
        AluOp::Remu => if b == 0 {
            a as int
        } else {
            wrap32(unsigned(a) % unsigned(b))
        },
        AluOp::And => (a & b) as int,
        AluOp::Or => (a | b) as int,
        AluOp::Xor => (a ^ b) as int,
        AluOp::Sll => wrap32(unsigned(a) * pow2(shamt(b))),
        AluOp::Srl => wrap32(unsigned(a) / (pow2(shamt(b)) as int)),
        AluOp::Sra => (a as int) / (pow2(shamt(b)) as int),
        AluOp::Slt => if a < b {
            1
        } else {
            0
        },
        AluOp::Sltu => if unsigned(a) < unsigned(b) {
            1
        } else {
            0
        },
    }
}

proof fn lemma_unsigned_congruent(v: i32)
    ensures
        unsigned(v) % 0x1_0000_0000 == (v as int) % 0x1_0000_0000,
        0 <= unsigned(v) < 0x1_0000_0000,
{
    if v < 0 {
        lemma_mod_multiples_vanish(1, v as int, 0x1_0000_0000);
    }
}

/// Values congruent modulo `2^32` wrap to the same register value.
proof fn lemma_wrap32_congruent(x: int, y: int)
    requires
        x % 0x1_0000_0000 == y % 0x1_0000_0000,
    ensures
        wrap32(x) == wrap32(y),
{
}

/// Reinterprets a register as unsigned.
pub fn to_unsigned(v: i32) -> (r: u32)
    ensures
        r == unsigned(v),
{
    if v < 0 {
        (v as i64 + 0x1_0000_0000i64) as u32
    } else {
        v as u32
    }
}

/// Reinterprets the low 32 bits of `m` as a signed register value.
pub fn from_bits(m: u64) -> (r: i32)
    ensures
        r == wrap32(m as int),
{
    let low: u64 = m % WORD_RANGE;
    if low >= 0x8000_0000 {
        (low as i64 - 0x1_0000_0000i64) as i32
    } else {
        low as i32
    }
}

/// Small values wrap to themselves.
proof fn lemma_wrap32_small(x: int)
    requires
        -0x8000_0000 <= x < 0x8000_0000,
    ensures
        wrap32(x) == x,
{
    if x < 0 {
        lemma_fundamental_div_mod_converse(x, 0x1_0000_0000, -1, x + 0x1_0000_0000);
    }
}

fn magnitude(v: i32) -> (r: u64)
    ensures
        r == abs(v as int),
        r <= 0x8000_0000,
{
    if v < 0 {
        (-(v as i64)) as u64
    } else {
        v as u64
    }
}

fn wrapping_add(a: i32, b: i32) -> (r: i32)
    ensures
        r == wrap32(a + b),
{
    let ua = to_unsigned(a) as u64;
    let ub = to_unsigned(b) as u64;
    proof {
        lemma_unsigned_congruent(a);
        lemma_unsigned_congruent(b);
        vstd::arithmetic::div_mod::lemma_add_mod_noop(ua as int, ub as int, 0x1_0000_0000);
        vstd::arithmetic::div_mod::lemma_add_mod_noop(a as int, b as int, 0x1_0000_0000);
        lemma_wrap32_congruent((ua + ub) as int, a + b);
    }
    from_bits(ua + ub)
}

fn wrapping_sub(a: i32, b: i32) -> (r: i32)
    ensures
        r == wrap32(a - b),
{
    let ua = to_unsigned(a) as u64;
    let ub = to_unsigned(b) as u64;
    proof {
        lemma_unsigned_congruent(a);
        lemma_unsigned_congruent(b);
        vstd::arithmetic::div_mod::lemma_sub_mod_noop(ua as int, ub as int, 0x1_0000_0000);
        vstd::arithmetic::div_mod::lemma_sub_mod_noop(a as int, b as int, 0x1_0000_0000);
        lemma_mod_multiples_vanish(1, ua - ub, 0x1_0000_0000);
        lemma_wrap32_congruent(ua + 0x1_0000_0000 - ub, a - b);
    }
    from_bits(ua + WORD_RANGE - ub)
}

fn wrapping_mul(a: i32, b: i32) -> (r: i32)
    ensures
        r == wrap32(a * b),
{
    let ua = to_unsigned(a) as u64;
    let ub = to_unsigned(b) as u64;
    proof {
        lemma_unsigned_congruent(a);
        lemma_unsigned_congruent(b);
        assert(ua * ub < 0x1_0000_0000_0000_0000) by (nonlinear_arith)
            requires
                ua < 0x1_0000_0000,
                ub < 0x1_0000_0000,
        ;
        let m: int = 0x1_0000_0000;
        lemma_mul_mod_noop_left(ua as int, ub as int, m);
        lemma_mul_mod_noop_right((ua as int) % m, ub as int, m);
        lemma_mul_mod_noop_left(a as int, b as int, m);
        lemma_mul_mod_noop_right((a as int) % m, b as int, m);
        lemma_wrap32_congruent(ua * ub, a * b);
    }
    from_bits(ua * ub)
}

/// The upper half of a 64-bit two's-complement product.
fn upper_word(p: i128) -> (r: i32)
    requires
        -0x8000_0000_0000_0000 <= p < 0x8000_0000_0000_0000,
    ensures
        r == p / 0x1_0000_0000,
{
    let t: u128 = (p + 0x8000_0000_0000_0000i128) as u128;
    let q: u128 = t / (WORD_RANGE as u128);
    proof {
        let m: int = 0x1_0000_0000;
        let q0 = (p as int) / m;
        let r0 = (p as int) % m;
        vstd::arithmetic::div_mod::lemma_fundamental_div_mod(p as int, m);
        lemma_fundamental_div_mod_converse(t as int, m, q0 + 0x8000_0000, r0);
        assert(q < 0x1_0000_0000) by (nonlinear_arith)
            requires
                q == t / 0x1_0000_0000,
                t < 0x1_0000_0000_0000_0000,
        ;
    }
    (q as i128 - 0x8000_0000i128) as i32
}

fn div_signed(a: i32, b: i32) -> (r: i32)
    requires
        b != 0,
    ensures
        r == wrap32(trunc_div(a as int, b as int)),
{
    let q = magnitude(a) / magnitude(b);
    if (a < 0) != (b < 0) {
        proof {
            lemma_wrap32_small(-q);
        }
        (-(q as i64)) as i32
    } else {
        from_bits(q)
    }
}

fn rem_signed(a: i32, b: i32) -> (r: i32)
    requires
        b != 0,
    ensures
        r == trunc_rem(a as int, b as int),
{
    let m = magnitude(a) % magnitude(b);
    if a < 0 {
        (-(m as i64)) as i32
    } else {
        m as i32
    }
}

/// `2^s` for a shift amount taken from the low five bits of `b`.
fn shift_factor(b: i32) -> (p: u64)
    ensures
        p == pow2(shamt(b)),
        1 <= p <= 0x8000_0000,
{
    let s: u64 = (to_unsigned(b) % 32) as u64;
    proof {
        vstd::arithmetic::power2::lemma_pow2_pos(s as nat);
        if s < 31 {
            vstd::arithmetic::power2::lemma_pow2_strictly_increases(s as nat, 31);
        }
        lemma2_to64();
        lemma_u64_shl_is_mul(1, s);
    }
    1u64 << s
}

fn shift_left(a: i32, b: i32) -> (r: i32)
    ensures
        r == wrap32(unsigned(a) * pow2(shamt(b))),
{
    let ua = to_unsigned(a) as u64;
    let p = shift_factor(b);
    proof {
        assert(ua * p < 0x1_0000_0000_0000_0000) by (nonlinear_arith)
            requires
                ua < 0x1_0000_0000,
                p <= 0x8000_0000,
        ;
    }
    from_bits(ua * p)
}

fn shift_right_logical(a: i32, b: i32) -> (r: i32)
    ensures
        r == wrap32(unsigned(a) / (pow2(shamt(b)) as int)),
{
    let ua = to_unsigned(a) as u64;
    let p = shift_factor(b);
    from_bits(ua / p)
}

fn shift_right_arith(a: i32, b: i32) -> (r: i32)
    ensures
        r == (a as int) / (pow2(shamt(b)) as int),
{
    let p = shift_factor(b);
    if a >= 0 {
        let n: u64 = a as u64;
        proof {
            assert(n / p <= n) by (nonlinear_arith)
                requires
                    p >= 1,
            ;
        }
        (n / p) as i32
    } else {
        let n: u64 = (-(a as i64) - 1) as u64;
        let q: u64 = n / p;
        proof {
            let r0 = n % p;
            vstd::arithmetic::div_mod::lemma_fundamental_div_mod(n as int, p as int);
            assert(a == (-(q as int) - 1) * p + (p - 1 - r0)) by (nonlinear_arith)
                requires
                    n == q * p + r0,
                    a == -(n as int) - 1,
            ;
            lemma_fundamental_div_mod_converse(a as int, p as int, -(q as int) - 1, p - 1 - r0);
            assert(q <= n) by (nonlinear_arith)
                requires
                    p >= 1,
                    q == n / p,
            ;
        }
        (-(q as i64) - 1) as i32
    }
}

/// Computes the value an operation writes to its destination register.
pub fn alu(op: AluOp, a: i32, b: i32) -> (r: i32)
    ensures
        r == alu_spec(op, a, b),
{
    match op {
        AluOp::Add => wrapping_add(a, b),
        AluOp::Sub => wrapping_sub(a, b),
        AluOp::Mul => wrapping_mul(a, b),
        AluOp::Mulh => {
            proof {
                assert(-0x8000_0000_0000_0000 <= a * b < 0x8000_0000_0000_0000)
                    by (nonlinear_arith)
                    requires
                        -0x8000_0000 <= a < 0x8000_0000,
                        -0x8000_0000 <= b < 0x8000_0000,
                ;
            }
            upper_word(a as i128 * b as i128)
        },
        AluOp::Mulhsu => {
            let ub = to_unsigned(b);
            proof {
                assert(-0x8000_0000_0000_0000 <= a * ub < 0x8000_0000_0000_0000)
                    by (nonlinear_arith)
                    requires
                        -0x8000_0000 <= a < 0x8000_0000,
                        0 <= ub < 0x1_0000_0000,
                ;
            }
            upper_word(a as i128 * ub as i128)
        },
        AluOp::Mulhu => {
            let ua = to_unsigned(a) as u64;
            let ub = to_unsigned(b) as u64;
            proof {
                assert(ua * ub < 0x1_0000_0000_0000_0000) by (nonlinear_arith)
                    requires
                        ua < 0x1_0000_0000,
                        ub < 0x1_0000_0000,
                ;
            }
            from_bits((ua * ub) / WORD_RANGE)
        },
        AluOp::Div => if b == 0 {
            -1
        } else {
            div_signed(a, b)
        },
        AluOp::Divu => {
            let ub = to_unsigned(b);
            if ub == 0 {
                -1
            } else {
                from_bits((to_unsigned(a) / ub) as u64)
            }
        },
        AluOp::Rem => if b == 0 {
            a
        } else {
            rem_signed(a, b)
        },
        AluOp::Remu => {
            let ub = to_unsigned(b);
            if ub == 0 {
                a
            } else {
                from_bits((to_unsigned(a) % ub) as u64)
            }
        },
        AluOp::And => a & b,
        AluOp::Or => a | b,
        AluOp::Xor => a ^ b,
        AluOp::Sll => shift_left(a, b),
        AluOp::Srl => shift_right_logical(a, b),
        AluOp::Sra => shift_right_arith(a, b),
        AluOp::Slt => if a < b {
            1
        } else {
            0
        },
        AluOp::Sltu => if to_unsigned(a) < to_unsigned(b) {
            1
        } else {
            0
        },
    }
}

/// The byte address `base + offset`, computed modulo `2^32`.
pub open spec fn effective_address(base: i32, offset: i32) -> u32 {
    ((base + offset) % 0x1_0000_0000) as u32
}

/// Computes the byte address `base + offset` modulo `2^32`.
pub fn address(base: i32, offset: i32) -> (r: u32)
    ensures
        r == effective_address(base, offset),
{
    let ua = to_unsigned(base) as u64;
    let ub = to_unsigned(offset) as u64;
    proof {
        lemma_unsigned_congruent(base);
        lemma_unsigned_congruent(offset);
        vstd::arithmetic::div_mod::lemma_add_mod_noop(ua as int, ub as int, 0x1_0000_0000);
        vstd::arithmetic::div_mod::lemma_add_mod_noop(
            base as int,
            offset as int,
            0x1_0000_0000,
        );
    }
    ((ua + ub) % WORD_RANGE) as u32
}

/// The value `imm << 12`, which `lui` writes.
pub open spec fn upper_immediate(imm: i32) -> int {
    wrap32(imm * 0x1000)
}

pub fn shift_upper(imm: i32) -> (r: i32)
    ensures
        r == upper_immediate(imm),
{
    let u = to_unsigned(imm) as u64;
    proof {
        lemma_unsigned_congruent(imm);
        lemma_mul_mod_noop_left(u as int, 0x1000, 0x1_0000_0000);
        lemma_mul_mod_noop_left(imm as int, 0x1000, 0x1_0000_0000);
        lemma_wrap32_congruent(u * 0x1000, imm * 0x1000);
    }
    from_bits(u * 0x1000)
}

/// A wrapped value is congruent to what it wraps.
pub proof fn lemma_wrap32_mod(x: int)
    ensures
        wrap32(x) % 0x1_0000_0000 == x % 0x1_0000_0000,
        -0x8000_0000 <= wrap32(x) < 0x8000_0000,
{
    let m = x % 0x1_0000_0000;
    if m >= 0x8000_0000 {
        lemma_mod_multiples_vanish(-1, m, 0x1_0000_0000);
        vstd::arithmetic::div_mod::lemma_mod_twice(x, 0x1_0000_0000);
    } else {
        vstd::arithmetic::div_mod::lemma_mod_twice(x, 0x1_0000_0000);
    }
}

/// The register value `index + value`, wrapping modulo `2^32`.
pub fn add_index(index: usize, value: i32) -> (r: i32)
    ensures
        r == wrap32(index + value),
{
    let w = from_bits((index as u64) % WORD_RANGE);
    proof {
        vstd::arithmetic::div_mod::lemma_mod_twice(index as int, 0x1_0000_0000);
        lemma_wrap32_mod(index as int);
        vstd::arithmetic::div_mod::lemma_add_mod_noop(w as int, value as int, 0x1_0000_0000);
        vstd::arithmetic::div_mod::lemma_add_mod_noop(index as int, value as int, 0x1_0000_0000);
        lemma_wrap32_congruent(w + value, index + value);
    }
    wrapping_add(w, value)
}

} // verus!
