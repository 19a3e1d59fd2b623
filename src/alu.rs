use vstd::prelude::*;
use vstd::arithmetic::power2::{pow2, lemma2_to64};
use vstd::bits::{lemma_u32_shr_is_div, lemma_u64_shr_is_div, lemma_u128_shr_is_div};
use crate::decode::{AluOp, sext32, sext32_spec};
use crate::regs::{Xlen, xmask};

verus! {

proof fn lemma_wrap_sum(s: int, n: int)
    requires
        0 <= s < 2 * n,
        n > 0,
    ensures
        s % n == if s >= n { s - n } else { s },
{
    if s >= n {
        vstd::arithmetic::div_mod::lemma_mod_sub_multiples_vanish(s, n);
        vstd::arithmetic::div_mod::lemma_small_mod((s - n) as nat, n as nat);
    } else {
        vstd::arithmetic::div_mod::lemma_small_mod(s as nat, n as nat);
    }
}

/// The two's-complement value of an `n`-bit pattern.
pub open spec fn signed_of(a: u64, n: int) -> int {
    if a as int >= n / 2 {
        a - n
    } else {
        a as int
    }
}

/// `|x|`.
pub open spec fn abs(x: int) -> int {
    if x < 0 {
        -x
    } else {
        x
    }
}

/// Signed division rounding toward zero.
pub open spec fn tdiv(x: int, y: int) -> int {
    if (x < 0) != (y < 0) {
        -(abs(x) / abs(y))
    } else {
        abs(x) / abs(y)
    }
}

/// Signed remainder taking the sign of the dividend.
pub open spec fn trem(x: int, y: int) -> int {
    if x < 0 {
        -(abs(x) % abs(y))
    } else {
        abs(x) % abs(y)
    }
}

proof fn lemma_floor_neg(x: int, d: int)
    requires
        x >= 0,
        d > 0,
    ensures
        (-(x + 1)) / d == -(x / d) - 1,
{
    let q = x / d;
    let r = x % d;
    vstd::arithmetic::div_mod::lemma_fundamental_div_mod(x, d);
    assert(-(x + 1) == (-q - 1) * d + (d - r - 1)) by (nonlinear_arith)
        requires
            x == d * q + r,
    ;
    vstd::arithmetic::div_mod::lemma_fundamental_div_mod_converse(-(x + 1), d, -q - 1, d - r - 1);
}

proof fn lemma_neg_mod(a: int, n: int)
    requires
        0 <= a < n,
    ensures
        (0 - a) % n == if a == 0 { 0 } else { n - a },
{
    if a == 0 {
        vstd::arithmetic::div_mod::lemma_small_mod(0, n as nat);
    } else {
        vstd::arithmetic::div_mod::lemma_mod_add_multiples_vanish(0 - a, n);
        vstd::arithmetic::div_mod::lemma_small_mod((n - a) as nat, n as nat);
    }
}

/// Whether `op_value` states the result of `op`.
pub open spec fn has_stated_result(op: AluOp) -> bool {
    match op {
        AluOp::Add | AluOp::Sub | AluOp::Mul | AluOp::Slt | AluOp::Sltu | AluOp::Div | AluOp::Rem | AluOp::Srl
        | AluOp::Sra | AluOp::Mulhu | AluOp::Divu | AluOp::Remu
        | AluOp::Xor | AluOp::Or | AluOp::And => true,
        _ => false,
    }
}

/// The result of `op` on `n`-bit operand patterns `a` and `b` (`n` being `2^32` or
/// `2^64`), for the operations `has_stated_result` admits.
pub open spec fn op_value(op: AluOp, a: u64, b: u64, n: int) -> int {
    match op {
        AluOp::Add => (a + b) % n,
        AluOp::Sub => (a - b) % n,
        AluOp::Mul => (a * b) % n,
        AluOp::Mulhu => (a * b) / n,
        AluOp::Srl => a as int / pow2((b as int % (if n == 0x1_0000_0000 { 32int } else { 64int })) as nat) as int,
        AluOp::Sra => (signed_of(a, n) / pow2((b as int % (if n == 0x1_0000_0000 { 32int } else { 64int })) as nat) as int)
            % n,
        AluOp::Slt => if signed_of(a, n) < signed_of(b, n) { 1 } else { 0 },
        AluOp::Sltu => if a < b { 1 } else { 0 },
        AluOp::Div => if b == 0 { n - 1 } else { tdiv(signed_of(a, n), signed_of(b, n)) % n },
        AluOp::Rem => if b == 0 { a as int } else { trem(signed_of(a, n), signed_of(b, n)) % n },
        AluOp::Divu => if b == 0 { n - 1 } else { a as int / b as int },
        AluOp::Remu => if b == 0 { a as int } else { a as int % b as int },
        AluOp::Xor => (a ^ b) as int,
        AluOp::Or => (a | b) as int,
        AluOp::And => (a & b) as int,
        _ => 0,
    }
}

/// The operand width of an operation: 32 bits for 32-bit harts and word forms.
pub open spec fn op_modulus(word: bool, xlen: Xlen) -> int {
    if word || xlen == Xlen::Bit32 {
        0x1_0000_0000
    } else {
        0x1_0000_0000_0000_0000
    }
}

/// A result of the operand width placed in a register: word forms sign-extend.
pub open spec fn place_result(v: int, word: bool, xlen: Xlen) -> u64 {
    if word && xlen == Xlen::Bit64 {
        sext32_spec(v as u32)
    } else {
        v as u64
    }
}

/// The register value `op` yields on register values `a` and `b`.
pub open spec fn op_result(op: AluOp, word: bool, a: u64, b: u64, xlen: Xlen) -> u64 {
    let n = op_modulus(word, xlen);
    place_result(op_value(op, (a as int % n) as u64, (b as int % n) as u64, n), word, xlen)
}

fn alu32(op: AluOp, a: u32, b: u32) -> (r: u32)
    ensures
        has_stated_result(op) ==> r as int == op_value(op, a as u64, b as u64, 0x1_0000_0000),
{
    proof {
        assert((a ^ b) as u64 == (a as u64) ^ (b as u64) && (a | b) as u64 == (a as u64) | (b as u64) && (a & b) as u64
            == (a as u64) & (b as u64)) by (bit_vector);
        assert(a as int * b as int <= 0xffff_ffff * 0xffff_ffff) by (nonlinear_arith);
        lemma_wrap_sum(a as int + b as int, 0x1_0000_0000);
        assert((a < 0x8000_0000 ==> a ^ 0x8000_0000 == a + 0x8000_0000) && (a >= 0x8000_0000 ==> a ^ 0x8000_0000 == a
            - 0x8000_0000) && (b < 0x8000_0000 ==> b ^ 0x8000_0000 == b + 0x8000_0000) && (b >= 0x8000_0000 ==> b
            ^ 0x8000_0000 == b - 0x8000_0000) && (a >> 31u32 == 1) == (a >= 0x8000_0000) && (b >> 31u32 == 1) == (b
            >= 0x8000_0000)) by (bit_vector);
        lemma_neg_mod(a as int, 0x1_0000_0000);
        lemma_neg_mod(b as int, 0x1_0000_0000);
        lemma2_to64();
        assert(b & 31 == b % 32) by (bit_vector);
        lemma_u32_shr_is_div(a, b & 31);
        lemma_u32_shr_is_div(!a, b & 31);
        assert(!a == 0xffff_ffff - a && !((!a) >> (b & 31)) == 0xffff_ffff - ((!a) >> (b & 31))) by (bit_vector);
        vstd::arithmetic::power2::lemma_pow2_pos((b & 31) as nat);
        if a >= 0x8000_0000 {
            lemma_floor_neg(0xffff_ffff - a, pow2((b & 31) as nat) as int);
            lemma_neg_mod(((0xffff_ffff - a) / pow2((b & 31) as nat) as int) + 1, 0x1_0000_0000);
        }
        lemma_u64_shr_is_div((a as u64).wrapping_mul(b as u64), 32u64);
    }
    let sh = b & 31;
    proof {
        assert(b & 31 < 32) by (bit_vector);
    }
    let neg_a = a >> 31u32 == 1;
    let neg_b = b >> 31u32 == 1;
    let mag_a = if neg_a { 0u32.wrapping_sub(a) } else { a };
    let mag_b = if neg_b { 0u32.wrapping_sub(b) } else { b };
    let hu: u32 = #[verifier::truncate] (((a as u64).wrapping_mul(b as u64) >> 32u64) as u32);
    match op {
        AluOp::Add => a.wrapping_add(b),
        AluOp::Sub => a.wrapping_sub(b),
        AluOp::Sll => a << sh,
        AluOp::Slt => if (a ^ 0x8000_0000) < (b ^ 0x8000_0000) { 1 } else { 0 },
        AluOp::Sltu => if a < b { 1 } else { 0 },
        AluOp::Xor => a ^ b,
        AluOp::Srl => a >> sh,
        AluOp::Sra => if neg_a { !((!a) >> sh) } else { a >> sh },
        AluOp::Or => a | b,
        AluOp::And => a & b,
        AluOp::Mul => a.wrapping_mul(b),
        AluOp::Mulh => hu.wrapping_sub(if neg_a { b } else { 0 }).wrapping_sub(if neg_b { a } else { 0 }),
        AluOp::Mulhsu => hu.wrapping_sub(if neg_a { b } else { 0 }),
        AluOp::Mulhu => hu,
        AluOp::Div => if b == 0 {
            0xffff_ffff
        } else {
            let q = mag_a / mag_b;
            proof {
                lemma_neg_mod(q as int, 0x1_0000_0000);
            }
            if neg_a != neg_b { 0u32.wrapping_sub(q) } else { q }
        },
        AluOp::Divu => if b == 0 { 0xffff_ffff } else { a / b },
        AluOp::Rem => if b == 0 {
            a
        } else {
            let r = mag_a % mag_b;
            proof {
                lemma_neg_mod(r as int, 0x1_0000_0000);
            }
            if neg_a { 0u32.wrapping_sub(r) } else { r }
        },
        AluOp::Remu => if b == 0 { a } else { a % b },
    }
}

fn alu64(op: AluOp, a: u64, b: u64) -> (r: u64)
    ensures
        has_stated_result(op) ==> r as int == op_value(op, a, b, 0x1_0000_0000_0000_0000),
{
    proof {
        assert(a as int * b as int <= 0xffff_ffff_ffff_ffff * 0xffff_ffff_ffff_ffff) by (nonlinear_arith);
        lemma_wrap_sum(a as int + b as int, 0x1_0000_0000_0000_0000);
        assert((a < 0x8000_0000_0000_0000 ==> a ^ 0x8000_0000_0000_0000 == a + 0x8000_0000_0000_0000) && (a
            >= 0x8000_0000_0000_0000 ==> a ^ 0x8000_0000_0000_0000 == a - 0x8000_0000_0000_0000) && (b
            < 0x8000_0000_0000_0000 ==> b ^ 0x8000_0000_0000_0000 == b + 0x8000_0000_0000_0000) && (b
            >= 0x8000_0000_0000_0000 ==> b ^ 0x8000_0000_0000_0000 == b - 0x8000_0000_0000_0000) && (a >> 63u64 == 1)
            == (a >= 0x8000_0000_0000_0000) && (b >> 63u64 == 1) == (b >= 0x8000_0000_0000_0000)) by (bit_vector);
        lemma_neg_mod(a as int, 0x1_0000_0000_0000_0000);
        lemma_neg_mod(b as int, 0x1_0000_0000_0000_0000);
        lemma2_to64();
        assert(b & 63 == b % 64) by (bit_vector);
        lemma_u64_shr_is_div(a, b & 63);
        lemma_u64_shr_is_div(!a, b & 63);
        assert(!a == 0xffff_ffff_ffff_ffff - a && !((!a) >> (b & 63)) == 0xffff_ffff_ffff_ffff - ((!a) >> (b & 63)))
            by (bit_vector);
        vstd::arithmetic::power2::lemma_pow2_pos((b & 63) as nat);
        if a >= 0x8000_0000_0000_0000 {
            lemma_floor_neg(0xffff_ffff_ffff_ffff - a, pow2((b & 63) as nat) as int);
            lemma_neg_mod(((0xffff_ffff_ffff_ffff - a) / pow2((b & 63) as nat) as int) + 1, 0x1_0000_0000_0000_0000);
        }
        assert((a as u128) * (b as u128) <= 0xffff_ffff_ffff_ffff_ffff_ffff_ffff_ffffu128) by (nonlinear_arith);
        lemma_u128_shr_is_div((a as u128).wrapping_mul(b as u128), 64u128);
    }
    let sh = b & 63;
    proof {
        assert(b & 63 < 64) by (bit_vector);
    }
    let neg_a = a >> 63u64 == 1;
    let neg_b = b >> 63u64 == 1;
    let mag_a = if neg_a { 0u64.wrapping_sub(a) } else { a };
    let mag_b = if neg_b { 0u64.wrapping_sub(b) } else { b };
    let hu: u64 = #[verifier::truncate] (((a as u128).wrapping_mul(b as u128) >> 64u128) as u64);
    match op {
        AluOp::Add => a.wrapping_add(b),
        AluOp::Sub => a.wrapping_sub(b),
        AluOp::Sll => a << sh,
        AluOp::Slt => if (a ^ 0x8000_0000_0000_0000) < (b ^ 0x8000_0000_0000_0000) { 1 } else { 0 },
        AluOp::Sltu => if a < b { 1 } else { 0 },
        AluOp::Xor => a ^ b,
        AluOp::Srl => a >> sh,
        AluOp::Sra => if neg_a { !((!a) >> sh) } else { a >> sh },
        AluOp::Or => a | b,
        AluOp::And => a & b,
        AluOp::Mul => a.wrapping_mul(b),
        AluOp::Mulh => hu.wrapping_sub(if neg_a { b } else { 0 }).wrapping_sub(if neg_b { a } else { 0 }),
        AluOp::Mulhsu => hu.wrapping_sub(if neg_a { b } else { 0 }),
        AluOp::Mulhu => hu,
        AluOp::Div => if b == 0 {
            0xffff_ffff_ffff_ffff
        } else {
            let q = mag_a / mag_b;
            proof {
                lemma_neg_mod(q as int, 0x1_0000_0000_0000_0000);
            }
            if neg_a != neg_b { 0u64.wrapping_sub(q) } else { q }
        },
        AluOp::Divu => if b == 0 { 0xffff_ffff_ffff_ffff } else { a / b },
        AluOp::Rem => if b == 0 {
            a
        } else {
            let r = mag_a % mag_b;
            proof {
                lemma_neg_mod(r as int, 0x1_0000_0000_0000_0000);
            }
            if neg_a { 0u64.wrapping_sub(r) } else { r }
        },
        AluOp::Remu => if b == 0 { a } else { a % b },
    }
}

/// Applies `op` to register values `a` and `b`. With `word` (64-bit only) the operation
/// works on the low 32 bits and the result is sign-extended. The result fits the
/// register width.
pub fn alu(op: AluOp, word: bool, a: u64, b: u64, xlen: Xlen) -> (r: u64)
    ensures
        r <= xmask(xlen),
        has_stated_result(op) ==> r == op_result(op, word, a, b, xlen),
{
    proof {
        assert((a as u32) as int == a as int % 0x1_0000_0000 && (b as u32) as int == b as int % 0x1_0000_0000)
            by (bit_vector);
    }
    match xlen {
        Xlen::Bit32 => {
            #[verifier::truncate]
            let a32 = a as u32;
            #[verifier::truncate]
            let b32 = b as u32;
            alu32(op, a32, b32) as u64
        },
        Xlen::Bit64 => if word {
            #[verifier::truncate]
            let a32 = a as u32;
            #[verifier::truncate]
            let b32 = b as u32;
            sext32(alu32(op, a32, b32))
        } else {
            alu64(op, a, b)
        },
    }
}

} // verus!
