use vstd::prelude::*;
use crate::regs::Xlen;

verus! {

/// Register-register and register-immediate operations.
#[derive(Clone, Copy, Debug, PartialEq, Eq, Structural)]
pub enum AluOp {
    Add,
    Sub,
    Sll,
    Slt,
    Sltu,
    Xor,
    Srl,
    Sra,
    Or,
    And,
    Mul,
    Mulh,
    Mulhsu,
    Mulhu,
    Div,
    Divu,
    Rem,
    Remu,
}

/// Branch conditions.
#[derive(Clone, Copy, Debug, PartialEq, Eq, Structural)]
pub enum BranchOp {
    Eq,
    Ne,
    Lt,
    Ge,
    Ltu,
    Geu,
}

/// Control-and-status register operations.
#[derive(Clone, Copy, Debug, PartialEq, Eq, Structural)]
pub enum CsrOp {
    ReadWrite,
    ReadSet,
    ReadClear,
}

/// A decoded instruction. Immediates are sign-extended to 64 bits.
#[derive(Clone, Copy, Debug, PartialEq, Eq, Structural)]
pub enum Instr {
    Lui { rd: usize, imm: u64 },
    Auipc { rd: usize, imm: u64 },
    Jal { rd: usize, imm: u64 },
    Jalr { rd: usize, rs1: usize, imm: u64 },
    Branch { op: BranchOp, rs1: usize, rs2: usize, imm: u64 },
    Load { width: u64, signed: bool, rd: usize, rs1: usize, imm: u64 },
    Store { width: u64, rs1: usize, rs2: usize, imm: u64 },
    /// `word` selects the 32-bit forms of the 64-bit base set.
    OpImm { op: AluOp, word: bool, rd: usize, rs1: usize, imm: u64 },
    Op { op: AluOp, word: bool, rd: usize, rs1: usize, rs2: usize },
    /// With `imm`, `src` is the 5-bit immediate; otherwise a register number.
    Csr { op: CsrOp, imm: bool, rd: usize, src: usize, csr: u64 },
    Ecall,
    Ebreak,
    Mret,
    Sret,
    Wfi,
    Fence,
    SfenceVma,
}

/// Register numbers name one of the 32 registers; load and store widths are 1, 2, 4 or 8.
pub open spec fn instr_wf(i: Instr) -> bool {
    match i {
        Instr::Lui { rd, .. } => rd < 32,
        Instr::Auipc { rd, .. } => rd < 32,
        Instr::Jal { rd, .. } => rd < 32,
        Instr::Jalr { rd, rs1, .. } => rd < 32 && rs1 < 32,
        Instr::Branch { rs1, rs2, .. } => rs1 < 32 && rs2 < 32,
        Instr::Load { width, rd, rs1, .. } => (width == 1 || width == 2 || width == 4 || width == 8) && rd < 32 && rs1 < 32,
        Instr::Store { width, rs1, rs2, .. } => (width == 1 || width == 2 || width == 4 || width == 8) && rs1 < 32 && rs2 < 32,
        Instr::OpImm { rd, rs1, .. } => rd < 32 && rs1 < 32,
        Instr::Op { rd, rs1, rs2, .. } => rd < 32 && rs1 < 32 && rs2 < 32,
        Instr::Csr { rd, src, csr, .. } => rd < 32 && src < 32 && csr < 4096,
        _ => true,
    }
}

/// The destination register field of a 32-bit instruction.
pub open spec fn rd_of(w: u32) -> usize {
    ((w >> 7u32) & 0x1f) as usize
}

/// The first source register field.
pub open spec fn rs1_of(w: u32) -> usize {
    ((w >> 15u32) & 0x1f) as usize
}

/// The second source register field.
pub open spec fn rs2_of(w: u32) -> usize {
    ((w >> 20u32) & 0x1f) as usize
}

fn field(w: u32, shift: u32) -> (r: usize)
    requires
        shift < 32,
    ensures
        r == ((w >> shift) & 0x1f) as usize,
        r < 32,
{
    proof {
        assert((w >> shift) & 0x1f <= 0x1f) by (bit_vector);
    }
    ((w >> shift) & 0x1f) as usize
}

/// The 64-bit sign extension of a 32-bit pattern.
pub open spec fn sext32_spec(v: u32) -> u64 {
    ((v as i32) as i64) as u64
}

/// Sign-extends a 32-bit pattern to 64 bits.
pub fn sext32(v: u32) -> (r: u64)
    ensures
        r == sext32_spec(v),
{
    #[verifier::truncate]
    let s = v as i32;
    #[verifier::truncate]
    let r = (s as i64) as u64;
    r
}

/// Arithmetic right shift of a 64-bit pattern.
pub open spec fn sra64_spec(v: u64, sh: u64) -> u64 {
    ((v as i64) >> sh) as u64
}

/// Arithmetic right shift of a 64-bit pattern.
pub fn sra64(v: u64, sh: u64) -> (r: u64)
    requires
        sh < 64,
    ensures
        r == sra64_spec(v, sh),
{
    #[verifier::truncate]
    let s = v as i64;
    #[verifier::truncate]
    let r = (s >> sh) as u64;
    r
}

/// The I-type immediate (bits 31..20), sign-extended.
pub open spec fn imm_i_spec(w: u32) -> u64 {
    sra64_spec(sext32_spec(w), 20)
}

/// The S-type immediate (bits 31..25 and 11..7), sign-extended.
pub open spec fn imm_s_spec(w: u32) -> u64 {
    sra64_spec(sext32_spec((w & 0xfe00_0000) | (((w >> 7u32) & 0x1f) << 20u32)), 20)
}

/// The B-type immediate (imm[12|10:5] in bits 31..25, imm[4:1|11] in bits 11..7).
pub open spec fn imm_b_spec(w: u32) -> u64 {
    sra64_spec(
        sext32_spec((w & 0x8000_0000) | ((w & 0x80) << 23u32) | ((w >> 1u32) & 0x3f00_0000) | ((w << 12u32) & 0x00f0_0000)),
        19,
    )
}

/// The J-type immediate (imm[20|10:1|11|19:12] in bits 31..12).
pub open spec fn imm_j_spec(w: u32) -> u64 {
    sra64_spec(
        sext32_spec((w & 0x8000_0000) | ((w << 11u32) & 0x7f80_0000) | ((w << 2u32) & 0x0040_0000) | ((w >> 9u32) & 0x003f_f000)),
        11,
    )
}

/// The U-type immediate (bits 31..12), sign-extended.
pub open spec fn imm_u_spec(w: u32) -> u64 {
    sext32_spec(w & 0xffff_f000)
}

fn imm_i(w: u32) -> (r: u64)
    ensures
        r == imm_i_spec(w),
{
    sra64(sext32(w), 20)
}

fn imm_s(w: u32) -> (r: u64)
    ensures
        r == imm_s_spec(w),
{
    let raw: u32 = (w & 0xfe00_0000) | (((w >> 7u32) & 0x1f) << 20u32);
    sra64(sext32(raw), 20)
}

fn imm_b(w: u32) -> (r: u64)
    ensures
        r == imm_b_spec(w),
{
    let raw: u32 = (w & 0x8000_0000) | ((w & 0x80) << 23u32) | ((w >> 1u32) & 0x3f00_0000) | ((w << 12u32)
        & 0x00f0_0000);
    sra64(sext32(raw), 19)
}

fn imm_j(w: u32) -> (r: u64)
    ensures
        r == imm_j_spec(w),
{
    let raw: u32 = (w & 0x8000_0000) | ((w << 11u32) & 0x7f80_0000) | ((w << 2u32) & 0x0040_0000) | ((w >> 9u32)
        & 0x003f_f000);
    sra64(sext32(raw), 11)
}

/// The branch condition selected by funct3.
pub open spec fn branch_op_spec(f3: u32) -> Option<BranchOp> {
    if f3 == 0 { Some(BranchOp::Eq) } else if f3 == 1 { Some(BranchOp::Ne) } else if f3 == 4 { Some(BranchOp::Lt) }
    else if f3 == 5 { Some(BranchOp::Ge) } else if f3 == 6 { Some(BranchOp::Ltu) } else if f3 == 7 {
        Some(BranchOp::Geu) } else { None }
}

fn branch_op(f3: u32) -> (r: Option<BranchOp>)
    ensures
        r == branch_op_spec(f3),
{
    if f3 == 0 { Some(BranchOp::Eq) } else if f3 == 1 { Some(BranchOp::Ne) } else if f3 == 4 { Some(BranchOp::Lt) }
    else if f3 == 5 { Some(BranchOp::Ge) } else if f3 == 6 { Some(BranchOp::Ltu) } else if f3 == 7 {
        Some(BranchOp::Geu) } else { None }
}

/// Width and signedness of a load selected by funct3; doubleword and unsigned-word
/// loads exist on 64-bit harts only.
pub open spec fn load_kind_spec(f3: u32, is64: bool) -> Option<(u64, bool)> {
    if f3 == 0 { Some((1, true)) } else if f3 == 1 { Some((2, true)) } else if f3 == 2 { Some((4, true)) }
    else if f3 == 3 && is64 { Some((8, true)) } else if f3 == 4 { Some((1, false)) } else if f3 == 5 {
        Some((2, false)) } else if f3 == 6 && is64 { Some((4, false)) } else { None }
}

fn load_kind(f3: u32, is64: bool) -> (r: Option<(u64, bool)>)
    ensures
        r == load_kind_spec(f3, is64),
{
    if f3 == 0 { Some((1, true)) } else if f3 == 1 { Some((2, true)) } else if f3 == 2 { Some((4, true)) }
    else if f3 == 3 && is64 { Some((8, true)) } else if f3 == 4 { Some((1, false)) } else if f3 == 5 {
        Some((2, false)) } else if f3 == 6 && is64 { Some((4, false)) } else { None }
}

/// Width of a store selected by funct3.
pub open spec fn store_width_spec(f3: u32, is64: bool) -> Option<u64> {
    if f3 == 0 { Some(1) } else if f3 == 1 { Some(2) } else if f3 == 2 { Some(4) } else if f3 == 3 && is64 {
        Some(8) } else { None }
}

fn store_width(f3: u32, is64: bool) -> (r: Option<u64>)
    ensures
        r == store_width_spec(f3, is64),
{
    if f3 == 0 { Some(1) } else if f3 == 1 { Some(2) } else if f3 == 2 { Some(4) } else if f3 == 3 && is64 {
        Some(8) } else { None }
}

/// The operation of a register-immediate instruction; for shifts the bits above the
/// shift amount select logical or arithmetic and must otherwise be zero.
pub open spec fn op_imm_spec(f3: u32, f7: u32, word: bool, is64: bool) -> Option<AluOp> {
    let narrow = word || !is64;
    let shamt_hi = if narrow { f7 } else { f7 >> 1u32 };
    if f3 == 0 { Some(AluOp::Add) } else if f3 == 1 { if shamt_hi == 0 { Some(AluOp::Sll) } else { None } }
    else if f3 == 5 { if shamt_hi == 0 { Some(AluOp::Srl) } else if shamt_hi == (if narrow { 0x20u32 } else { 0x10u32 }) {
        Some(AluOp::Sra) } else { None } }
    else if word { None } else if f3 == 2 { Some(AluOp::Slt) } else if f3 == 3 { Some(AluOp::Sltu) }
    else if f3 == 4 { Some(AluOp::Xor) } else if f3 == 6 { Some(AluOp::Or) } else { Some(AluOp::And) }
}

fn op_imm(f3: u32, f7: u32, word: bool, is64: bool) -> (r: Option<AluOp>)
    ensures
        r == op_imm_spec(f3, f7, word, is64),
{
    let narrow = word || !is64;
    let shamt_hi = if narrow { f7 } else { f7 >> 1u32 };
    if f3 == 0 { Some(AluOp::Add) } else if f3 == 1 { if shamt_hi == 0 { Some(AluOp::Sll) } else { None } }
    else if f3 == 5 { if shamt_hi == 0 { Some(AluOp::Srl) } else if shamt_hi == (if narrow { 0x20u32 } else { 0x10u32 }) {
        Some(AluOp::Sra) } else { None } }
    else if word { None } else if f3 == 2 { Some(AluOp::Slt) } else if f3 == 3 { Some(AluOp::Sltu) }
    else if f3 == 4 { Some(AluOp::Xor) } else if f3 == 6 { Some(AluOp::Or) } else { Some(AluOp::And) }
}

/// The operation of a register-register instruction, selected by funct7 and funct3.
pub open spec fn op_reg_spec(f3: u32, f7: u32, word: bool) -> Option<AluOp> {
    if f7 == 0 {
        if f3 == 0 { Some(AluOp::Add) } else if f3 == 1 { Some(AluOp::Sll) } else if f3 == 5 { Some(AluOp::Srl) }
        else if word { None } else if f3 == 2 { Some(AluOp::Slt) } else if f3 == 3 { Some(AluOp::Sltu) }
        else if f3 == 4 { Some(AluOp::Xor) } else if f3 == 6 { Some(AluOp::Or) } else { Some(AluOp::And) }
    } else if f7 == 0x20 {
        if f3 == 0 { Some(AluOp::Sub) } else if f3 == 5 { Some(AluOp::Sra) } else { None }
    } else if f7 == 1 {
        if f3 == 0 { Some(AluOp::Mul) } else if f3 == 4 { Some(AluOp::Div) } else if f3 == 5 { Some(AluOp::Divu) }
        else if f3 == 6 { Some(AluOp::Rem) } else if f3 == 7 { Some(AluOp::Remu) } else if word { None }
        else if f3 == 1 { Some(AluOp::Mulh) } else if f3 == 2 { Some(AluOp::Mulhsu) } else { Some(AluOp::Mulhu) }
    } else {
        None
    }
}

fn op_reg(f3: u32, f7: u32, word: bool) -> (r: Option<AluOp>)
    ensures
        r == op_reg_spec(f3, f7, word),
{
    if f7 == 0 {
        if f3 == 0 { Some(AluOp::Add) } else if f3 == 1 { Some(AluOp::Sll) } else if f3 == 5 { Some(AluOp::Srl) }
        else if word { None } else if f3 == 2 { Some(AluOp::Slt) } else if f3 == 3 { Some(AluOp::Sltu) }
        else if f3 == 4 { Some(AluOp::Xor) } else if f3 == 6 { Some(AluOp::Or) } else { Some(AluOp::And) }
    } else if f7 == 0x20 {
        if f3 == 0 { Some(AluOp::Sub) } else if f3 == 5 { Some(AluOp::Sra) } else { None }
    } else if f7 == 1 {
        if f3 == 0 { Some(AluOp::Mul) } else if f3 == 4 { Some(AluOp::Div) } else if f3 == 5 { Some(AluOp::Divu) }
        else if f3 == 6 { Some(AluOp::Rem) } else if f3 == 7 { Some(AluOp::Remu) } else if word { None }
        else if f3 == 1 { Some(AluOp::Mulh) } else if f3 == 2 { Some(AluOp::Mulhsu) } else { Some(AluOp::Mulhu) }
    } else {
        None
    }
}

/// The system instructions: environment call and breakpoint, trap returns, wait for
/// interrupt, address-translation fence, and the CSR instructions.
pub open spec fn system_spec(w: u32) -> Option<Instr> {
    let f3 = (w >> 12u32) & 7;
    let f7 = w >> 25u32;
    if f3 == 0 {
        if w == 0x0000_0073 { Some(Instr::Ecall) } else if w == 0x0010_0073 { Some(Instr::Ebreak) }
        else if w == 0x3020_0073 { Some(Instr::Mret) } else if w == 0x1020_0073 { Some(Instr::Sret) }
        else if w == 0x1050_0073 { Some(Instr::Wfi) } else if f7 == 0x09 && rd_of(w) == 0 { Some(Instr::SfenceVma) }
        else { None }
    } else if f3 & 3 == 0 {
        None
    } else {
        let op = if f3 & 3 == 1 { CsrOp::ReadWrite } else if f3 & 3 == 2 { CsrOp::ReadSet } else { CsrOp::ReadClear };
        Some(Instr::Csr { op, imm: f3 >= 4, rd: rd_of(w), src: rs1_of(w), csr: (w >> 20u32) as u64 })
    }
}

/// The instruction a 32-bit word encodes, or `None` for an illegal encoding.
pub open spec fn decode_spec(w: u32, xlen: Xlen) -> Option<Instr> {
    let opcode = w & 0x7f;
    let rd = rd_of(w);
    let rs1 = rs1_of(w);
    let rs2 = rs2_of(w);
    let f3 = (w >> 12u32) & 7;
    let f7 = w >> 25u32;
    let is64 = xlen == Xlen::Bit64;
    if w & 3 != 3 {
        None
    } else if opcode == 0x37 {
        Some(Instr::Lui { rd, imm: imm_u_spec(w) })
    } else if opcode == 0x17 {
        Some(Instr::Auipc { rd, imm: imm_u_spec(w) })
    } else if opcode == 0x6f {
        Some(Instr::Jal { rd, imm: imm_j_spec(w) })
    } else if opcode == 0x67 {
        if f3 == 0 { Some(Instr::Jalr { rd, rs1, imm: imm_i_spec(w) }) } else { None }
    } else if opcode == 0x63 {
        match branch_op_spec(f3) {
            Some(op) => Some(Instr::Branch { op, rs1, rs2, imm: imm_b_spec(w) }),
            None => None,
        }
    } else if opcode == 0x03 {
        match load_kind_spec(f3, is64) {
            Some((width, signed)) => Some(Instr::Load { width, signed, rd, rs1, imm: imm_i_spec(w) }),
            None => None,
        }
    } else if opcode == 0x23 {
        match store_width_spec(f3, is64) {
            Some(width) => Some(Instr::Store { width, rs1, rs2, imm: imm_s_spec(w) }),
            None => None,
        }
    } else if opcode == 0x13 || (opcode == 0x1b && is64) {
        match op_imm_spec(f3, f7, opcode == 0x1b, is64) {
            Some(op) => Some(Instr::OpImm { op, word: opcode == 0x1b, rd, rs1, imm: imm_i_spec(w) }),
            None => None,
        }
    } else if opcode == 0x33 || (opcode == 0x3b && is64) {
        match op_reg_spec(f3, f7, opcode == 0x3b) {
            Some(op) => Some(Instr::Op { op, word: opcode == 0x3b, rd, rs1, rs2 }),
            None => None,
        }
    } else if opcode == 0x0f {
        Some(Instr::Fence)
    } else if opcode == 0x73 {
        system_spec(w)
    } else {
        None
    }
}

/// Decodes a 32-bit instruction word, or returns `None` for an illegal encoding.
pub fn decode(w: u32, xlen: Xlen) -> (r: Option<Instr>)
    ensures
        r == decode_spec(w, xlen),
        r is Some ==> instr_wf(r->0),
{
    if w & 3 != 3 {
        return None;
    }
    let opcode = w & 0x7f;
    let rd = field(w, 7);
    let rs1 = field(w, 15);
    let rs2 = field(w, 20);
    let f3 = (w >> 12u32) & 7;
    let f7 = w >> 25u32;
    let is64 = xlen == Xlen::Bit64;
    if opcode == 0x37 {
        Some(Instr::Lui { rd, imm: sext32(w & 0xffff_f000) })
    } else if opcode == 0x17 {
        Some(Instr::Auipc { rd, imm: sext32(w & 0xffff_f000) })
    } else if opcode == 0x6f {
        Some(Instr::Jal { rd, imm: imm_j(w) })
    } else if opcode == 0x67 {
        if f3 == 0 { Some(Instr::Jalr { rd, rs1, imm: imm_i(w) }) } else { None }
    } else if opcode == 0x63 {
        match branch_op(f3) {
            Some(op) => Some(Instr::Branch { op, rs1, rs2, imm: imm_b(w) }),
            None => None,
        }
    } else if opcode == 0x03 {
        match load_kind(f3, is64) {
            Some((width, signed)) => Some(Instr::Load { width, signed, rd, rs1, imm: imm_i(w) }),
            None => None,
        }
    } else if opcode == 0x23 {
        match store_width(f3, is64) {
            Some(width) => Some(Instr::Store { width, rs1, rs2, imm: imm_s(w) }),
            None => None,
        }
    } else if opcode == 0x13 || (opcode == 0x1b && is64) {
        match op_imm(f3, f7, opcode == 0x1b, is64) {
            Some(op) => Some(Instr::OpImm { op, word: opcode == 0x1b, rd, rs1, imm: imm_i(w) }),
            None => None,
        }
    } else if opcode == 0x33 || (opcode == 0x3b && is64) {
        match op_reg(f3, f7, opcode == 0x3b) {
            Some(op) => Some(Instr::Op { op, word: opcode == 0x3b, rd, rs1, rs2 }),
            None => None,
        }
    } else if opcode == 0x0f {
        Some(Instr::Fence)
    } else if opcode == 0x73 {
        if f3 == 0 {
            if w == 0x0000_0073 { Some(Instr::Ecall) } else if w == 0x0010_0073 { Some(Instr::Ebreak) }
            else if w == 0x3020_0073 { Some(Instr::Mret) } else if w == 0x1020_0073 { Some(Instr::Sret) }
            else if w == 0x1050_0073 { Some(Instr::Wfi) } else if f7 == 0x09 && rd == 0 { Some(Instr::SfenceVma) }
            else { None }
        } else if f3 & 3 == 0 {
            None
        } else {
            let op = if f3 & 3 == 1 { CsrOp::ReadWrite } else if f3 & 3 == 2 { CsrOp::ReadSet } else { CsrOp::ReadClear };
            proof {
                assert(w >> 20u32 < 4096) by (bit_vector);
            }
            Some(Instr::Csr { op, imm: f3 >= 4, rd, src: rs1, csr: (w >> 20u32) as u64 })
        }
    } else {
        None
    }
}

/// The I-type encoding of opcode `op` (also used for loads and jumps through a register).
pub open spec fn enc_i_spec(op: u32, rd: u32, f3: u32, rs1: u32, imm: u32) -> u32 {
    ((imm & 0xfff) << 20u32) | ((rs1 & 0x1f) << 15u32) | ((f3 & 7) << 12u32) | ((rd & 0x1f) << 7u32) | op
}

/// The R-type encoding.
pub open spec fn enc_r_spec(op: u32, rd: u32, f3: u32, rs1: u32, rs2: u32, f7: u32) -> u32 {
    ((f7 & 0x7f) << 25u32) | ((rs2 & 0x1f) << 20u32) | enc_i_spec(op, rd, f3, rs1, 0)
}

/// The store (S-type) encoding.
pub open spec fn enc_s_spec(f3: u32, rs1: u32, rs2: u32, imm: u32) -> u32 {
    (((imm >> 5u32) & 0x7f) << 25u32) | ((rs2 & 0x1f) << 20u32) | ((rs1 & 0x1f) << 15u32) | ((f3 & 7) << 12u32)
        | ((imm & 0x1f) << 7u32) | 0x23
}

/// The branch (B-type) encoding, comparing `rs1` with register 0.
pub open spec fn enc_b_spec(f3: u32, rs1: u32, imm: u32) -> u32 {
    (((imm >> 12u32) & 1) << 31u32) | (((imm >> 5u32) & 0x3f) << 25u32) | ((rs1 & 0x1f) << 15u32) | ((f3 & 7)
        << 12u32) | (((imm >> 1u32) & 0xf) << 8u32) | (((imm >> 11u32) & 1) << 7u32) | 0x63
}

/// The jump-and-link (J-type) encoding.
pub open spec fn enc_j_spec(rd: u32, imm: u32) -> u32 {
    (((imm >> 20u32) & 1) << 31u32) | (((imm >> 1u32) & 0x3ff) << 21u32) | (((imm >> 11u32) & 1) << 20u32)
        | (((imm >> 12u32) & 0xff) << 12u32) | ((rd & 0x1f) << 7u32) | 0x6f
}

/// The low `bits` bits of `v`, sign-extended.
pub open spec fn sext_bits_spec(v: u32, bits: u32) -> u32 {
    if (v >> ((bits - 1) as u32)) & 1 == 1 {
        v | (0xffff_ffffu32 << bits)
    } else {
        v
    }
}

/// The jump offset of a compressed jump, sign-extended.
pub open spec fn cj_offset_spec(h: u32) -> u32 {
    sext_bits_spec(((h >> 1u32) & 0x800) | ((h >> 7u32) & 0x10) | ((h >> 1u32) & 0x300) | ((h << 2u32) & 0x400) | ((h
        >> 1u32) & 0x40) | ((h << 1u32) & 0x80) | ((h >> 2u32) & 0xe) | ((h << 3u32) & 0x20), 12)
}

fn enc_i(op: u32, rd: u32, f3: u32, rs1: u32, imm: u32) -> (r: u32)
    requires
        op & 3 == 3,
    ensures
        r & 3 == 3,
        r == enc_i_spec(op, rd, f3, rs1, imm),
{
    let r = ((imm & 0xfff) << 20u32) | ((rs1 & 0x1f) << 15u32) | ((f3 & 7) << 12u32) | ((rd & 0x1f) << 7u32) | op;
    proof {
        let hi = ((imm & 0xfff) << 20u32) | ((rs1 & 0x1f) << 15u32) | ((f3 & 7) << 12u32) | ((rd & 0x1f) << 7u32);
        assert(op & 3 == 3 ==> (hi | op) & 3 == 3) by (bit_vector);
    }
    r
}

fn enc_r(op: u32, rd: u32, f3: u32, rs1: u32, rs2: u32, f7: u32) -> (r: u32)
    requires
        op & 3 == 3,
    ensures
        r & 3 == 3,
        r == enc_r_spec(op, rd, f3, rs1, rs2, f7),
{
    let lo = enc_i(op, rd, f3, rs1, 0);
    let hi = ((f7 & 0x7f) << 25u32) | ((rs2 & 0x1f) << 20u32);
    proof {
        assert(lo & 3 == 3 ==> (hi | lo) & 3 == 3) by (bit_vector);
    }
    hi | lo
}

fn enc_s(f3: u32, rs1: u32, rs2: u32, imm: u32) -> (r: u32)
    ensures
        r & 3 == 3,
        r == enc_s_spec(f3, rs1, rs2, imm),
{
    let hi = (((imm >> 5u32) & 0x7f) << 25u32) | ((rs2 & 0x1f) << 20u32) | ((rs1 & 0x1f) << 15u32) | ((f3 & 7) << 12u32)
        | ((imm & 0x1f) << 7u32);
    proof {
        assert((hi | 0x23u32) & 3 == 3) by (bit_vector);
    }
    hi | 0x23
}

fn enc_b(f3: u32, rs1: u32, imm: u32) -> (r: u32)
    ensures
        r & 3 == 3,
        r == enc_b_spec(f3, rs1, imm),
{
    let hi = (((imm >> 12u32) & 1) << 31u32) | (((imm >> 5u32) & 0x3f) << 25u32) | ((rs1 & 0x1f) << 15u32) | ((f3 & 7)
        << 12u32) | (((imm >> 1u32) & 0xf) << 8u32) | (((imm >> 11u32) & 1) << 7u32);
    proof {
        assert((hi | 0x63u32) & 3 == 3) by (bit_vector);
    }
    hi | 0x63
}

fn enc_j(rd: u32, imm: u32) -> (r: u32)
    ensures
        r & 3 == 3,
        r == enc_j_spec(rd, imm),
{
    let hi = (((imm >> 20u32) & 1) << 31u32) | (((imm >> 1u32) & 0x3ff) << 21u32) | (((imm >> 11u32) & 1) << 20u32)
        | (((imm >> 12u32) & 0xff) << 12u32) | ((rd & 0x1f) << 7u32);
    proof {
        assert((hi | 0x6fu32) & 3 == 3) by (bit_vector);
    }
    hi | 0x6f
}

/// Sign-extends the low `bits` bits of `v`.
fn sext_bits(v: u32, bits: u32) -> (r: u32)
    requires
        1 <= bits < 32,
    ensures
        r == sext_bits_spec(v, bits),
{
    if (v >> (bits - 1)) & 1 == 1 {
        v | (0xffff_ffffu32 << bits)
    } else {
        v
    }
}

/// The 32-bit instruction a 16-bit compressed instruction stands for, or `None` for an
/// illegal or unsupported encoding.
pub open spec fn expand_spec(h: u32, xlen: Xlen) -> Option<u32> {
    if h & 3 == 3 || h == 0 || h > 0xffff {
        None
    } else {
        let is64 = xlen == Xlen::Bit64;
        let op = h & 3;
        let f3 = (h >> 13u32) & 7;
        let rd = (h >> 7u32) & 0x1f;
        let rs2 = (h >> 2u32) & 0x1f;
        let rdp = 8 | ((h >> 2u32) & 7);
        let rs1p = 8 | ((h >> 7u32) & 7);
        let imm6 = sext_bits_spec(((h >> 7u32) & 0x20) | ((h >> 2u32) & 0x1f), 6);
        let lw_off = ((h >> 7u32) & 0x38) | ((h >> 4u32) & 0x4) | ((h << 1u32) & 0x40);
        let ld_off = ((h >> 7u32) & 0x38) | ((h << 1u32) & 0xc0);
        if op == 0 {
            if f3 == 0 {
                let imm = ((h >> 7u32) & 0x30) | ((h >> 1u32) & 0x3c0) | ((h >> 4u32) & 0x4) | ((h >> 2u32) & 0x8);
                if imm == 0 { None } else { Some(enc_i_spec(0x13, rdp, 0, 2, imm)) }
            } else if f3 == 2 {
                Some(enc_i_spec(0x03, rdp, 2, rs1p, lw_off))
            } else if f3 == 3 && is64 {
                Some(enc_i_spec(0x03, rdp, 3, rs1p, ld_off))
            } else if f3 == 6 {
                Some(enc_s_spec(2, rs1p, rdp, lw_off))
            } else if f3 == 7 && is64 {
                Some(enc_s_spec(3, rs1p, rdp, ld_off))
            } else {
                None
            }
        } else if op == 1 {
            if f3 == 0 {
                Some(enc_i_spec(0x13, rd, 0, rd, imm6))
            } else if f3 == 1 {
                if is64 {
                    if rd == 0 { None } else { Some(enc_i_spec(0x1b, rd, 0, rd, imm6)) }
                } else {
                    Some(enc_j_spec(1, cj_offset_spec(h)))
                }
            } else if f3 == 2 {
                Some(enc_i_spec(0x13, rd, 0, 0, imm6))
            } else if f3 == 3 {
                if rd == 2 {
                    let imm = sext_bits_spec(((h >> 3u32) & 0x200) | ((h >> 2u32) & 0x10) | ((h << 1u32) & 0x40) | ((h << 4u32)
                        & 0x180) | ((h << 3u32) & 0x20), 10);
                    if imm == 0 { None } else { Some(enc_i_spec(0x13, 2, 0, 2, imm)) }
                } else {
                    if imm6 == 0 {
                        None
                    } else {
                        Some(((imm6 & 0xf_ffff) << 12u32) | ((rd & 0x1f) << 7u32) | 0x37u32)
                    }
                }
            } else if f3 == 4 {
                let f2 = (h >> 10u32) & 3;
                let shamt = ((h >> 7u32) & 0x20) | ((h >> 2u32) & 0x1f);
                if f2 == 0 || f2 == 1 {
                    if !is64 && shamt >= 32 {
                        None
                    } else {
                        Some(enc_i_spec(0x13, rs1p, 5, rs1p, if f2 == 0 { shamt } else { shamt | 0x400 }))
                    }
                } else if f2 == 2 {
                    Some(enc_i_spec(0x13, rs1p, 7, rs1p, imm6))
                } else {
                    let f = (h >> 5u32) & 3;
                    if (h >> 12u32) & 1 == 0 {
                        if f == 0 {
                            Some(enc_r_spec(0x33, rs1p, 0, rs1p, rdp, 0x20))
                        } else if f == 1 {
                            Some(enc_r_spec(0x33, rs1p, 4, rs1p, rdp, 0))
                        } else if f == 2 {
                            Some(enc_r_spec(0x33, rs1p, 6, rs1p, rdp, 0))
                        } else {
                            Some(enc_r_spec(0x33, rs1p, 7, rs1p, rdp, 0))
                        }
                    } else if is64 && f == 0 {
                        Some(enc_r_spec(0x3b, rs1p, 0, rs1p, rdp, 0x20))
                    } else if is64 && f == 1 {
                        Some(enc_r_spec(0x3b, rs1p, 0, rs1p, rdp, 0))
                    } else {
                        None
                    }
                }
            } else if f3 == 5 {
                Some(enc_j_spec(0, cj_offset_spec(h)))
            } else {
                let imm = sext_bits_spec(((h >> 4u32) & 0x100) | ((h >> 7u32) & 0x18) | ((h << 1u32) & 0xc0) | ((h >> 2u32)
                    & 0x6) | ((h << 3u32) & 0x20), 9);
                Some(enc_b_spec(if f3 == 6 { 0 } else { 1 }, rs1p, imm))
            }
        } else {
            let shamt = ((h >> 7u32) & 0x20) | ((h >> 2u32) & 0x1f);
            if f3 == 0 {
                if !is64 && shamt >= 32 { None } else { Some(enc_i_spec(0x13, rd, 1, rd, shamt)) }
            } else if f3 == 2 {
                let imm = ((h >> 7u32) & 0x20) | ((h >> 2u32) & 0x1c) | ((h << 4u32) & 0xc0);
                if rd == 0 { None } else { Some(enc_i_spec(0x03, rd, 2, 2, imm)) }
            } else if f3 == 3 && is64 {
                let imm = ((h >> 7u32) & 0x20) | ((h >> 2u32) & 0x18) | ((h << 4u32) & 0x1c0);
                if rd == 0 { None } else { Some(enc_i_spec(0x03, rd, 3, 2, imm)) }
            } else if f3 == 4 {
                if (h >> 12u32) & 1 == 0 {
                    if rs2 == 0 {
                        if rd == 0 { None } else { Some(enc_i_spec(0x67, 0, 0, rd, 0)) }
                    } else {
                        Some(enc_r_spec(0x33, rd, 0, 0, rs2, 0))
                    }
                } else if rs2 == 0 {
                    if rd == 0 { Some(0x0010_0073u32) } else { Some(enc_i_spec(0x67, 1, 0, rd, 0)) }
                } else {
                    Some(enc_r_spec(0x33, rd, 0, rd, rs2, 0))
                }
            } else if f3 == 6 {
                let imm = ((h >> 7u32) & 0x3c) | ((h >> 1u32) & 0xc0);
                Some(enc_s_spec(2, 2, rs2, imm))
            } else if f3 == 7 && is64 {
                let imm = ((h >> 7u32) & 0x38) | ((h >> 1u32) & 0x1c0);
                Some(enc_s_spec(3, 2, rs2, imm))
            } else {
                None
            }
        }
    }
}

/// Expands a 16-bit compressed instruction into the 32-bit instruction it stands for, or
/// returns `None` for an illegal or unsupported encoding.
pub fn expand_compressed(h: u32, xlen: Xlen) -> (r: Option<u32>)
    ensures
        (h & 3) == 3 ==> r is None,
        h == 0 ==> r is None,
        r matches Some(v) ==> v & 3 == 3,
        r == expand_spec(h, xlen),
{
    if h & 3 == 3 || h == 0 || h > 0xffff {
        return None;
    }
    proof {
        assert(0x13u32 & 3 == 3 && 0x03u32 & 3 == 3 && 0x1bu32 & 3 == 3 && 0x33u32 & 3 == 3 && 0x3bu32 & 3 == 3
            && 0x67u32 & 3 == 3 && 0x0010_0073u32 & 3 == 3) by (bit_vector);
    }
    let is64 = xlen == Xlen::Bit64;
    let op = h & 3;
    let f3 = (h >> 13u32) & 7;
    let rd = (h >> 7u32) & 0x1f;
    let rs2 = (h >> 2u32) & 0x1f;
    let rdp = 8 | ((h >> 2u32) & 7);
    let rs1p = 8 | ((h >> 7u32) & 7);
    let imm6 = sext_bits(((h >> 7u32) & 0x20) | ((h >> 2u32) & 0x1f), 6);
    let lw_off = ((h >> 7u32) & 0x38) | ((h >> 4u32) & 0x4) | ((h << 1u32) & 0x40);
    let ld_off = ((h >> 7u32) & 0x38) | ((h << 1u32) & 0xc0);
    if op == 0 {
        if f3 == 0 {
            let imm = ((h >> 7u32) & 0x30) | ((h >> 1u32) & 0x3c0) | ((h >> 4u32) & 0x4) | ((h >> 2u32) & 0x8);
            if imm == 0 { None } else { Some(enc_i(0x13, rdp, 0, 2, imm)) }
        } else if f3 == 2 {
            Some(enc_i(0x03, rdp, 2, rs1p, lw_off))
        } else if f3 == 3 && is64 {
            Some(enc_i(0x03, rdp, 3, rs1p, ld_off))
        } else if f3 == 6 {
            Some(enc_s(2, rs1p, rdp, lw_off))
        } else if f3 == 7 && is64 {
            Some(enc_s(3, rs1p, rdp, ld_off))
        } else {
            None
        }
    } else if op == 1 {
        if f3 == 0 {
            Some(enc_i(0x13, rd, 0, rd, imm6))
        } else if f3 == 1 {
            if is64 {
                if rd == 0 { None } else { Some(enc_i(0x1b, rd, 0, rd, imm6)) }
            } else {
                Some(enc_j(1, cj_offset(h)))
            }
        } else if f3 == 2 {
            Some(enc_i(0x13, rd, 0, 0, imm6))
        } else if f3 == 3 {
            if rd == 2 {
                let imm = sext_bits(((h >> 3u32) & 0x200) | ((h >> 2u32) & 0x10) | ((h << 1u32) & 0x40) | ((h << 4u32)
                    & 0x180) | ((h << 3u32) & 0x20), 10);
                if imm == 0 { None } else { Some(enc_i(0x13, 2, 0, 2, imm)) }
            } else {
                if imm6 == 0 {
                    None
                } else {
                    let hi = ((imm6 & 0xf_ffff) << 12u32) | ((rd & 0x1f) << 7u32);
                    proof {
                        assert((hi | 0x37u32) & 3 == 3) by (bit_vector);
                    }
                    Some(hi | 0x37)
                }
            }
        } else if f3 == 4 {
            let f2 = (h >> 10u32) & 3;
            let shamt = ((h >> 7u32) & 0x20) | ((h >> 2u32) & 0x1f);
            if f2 == 0 || f2 == 1 {
                if !is64 && shamt >= 32 {
                    None
                } else {
                    Some(enc_i(0x13, rs1p, 5, rs1p, if f2 == 0 { shamt } else { shamt | 0x400 }))
                }
            } else if f2 == 2 {
                Some(enc_i(0x13, rs1p, 7, rs1p, imm6))
            } else {
                let f = (h >> 5u32) & 3;
                if (h >> 12u32) & 1 == 0 {
                    if f == 0 {
                        Some(enc_r(0x33, rs1p, 0, rs1p, rdp, 0x20))
                    } else if f == 1 {
                        Some(enc_r(0x33, rs1p, 4, rs1p, rdp, 0))
                    } else if f == 2 {
                        Some(enc_r(0x33, rs1p, 6, rs1p, rdp, 0))
                    } else {
                        Some(enc_r(0x33, rs1p, 7, rs1p, rdp, 0))
                    }
                } else if is64 && f == 0 {
                    Some(enc_r(0x3b, rs1p, 0, rs1p, rdp, 0x20))
                } else if is64 && f == 1 {
                    Some(enc_r(0x3b, rs1p, 0, rs1p, rdp, 0))
                } else {
                    None
                }
            }
        } else if f3 == 5 {
            Some(enc_j(0, cj_offset(h)))
        } else {
            let imm = sext_bits(((h >> 4u32) & 0x100) | ((h >> 7u32) & 0x18) | ((h << 1u32) & 0xc0) | ((h >> 2u32)
                & 0x6) | ((h << 3u32) & 0x20), 9);
            Some(enc_b(if f3 == 6 { 0 } else { 1 }, rs1p, imm))
        }
    } else {
        let shamt = ((h >> 7u32) & 0x20) | ((h >> 2u32) & 0x1f);
        if f3 == 0 {
            if !is64 && shamt >= 32 { None } else { Some(enc_i(0x13, rd, 1, rd, shamt)) }
        } else if f3 == 2 {
            let imm = ((h >> 7u32) & 0x20) | ((h >> 2u32) & 0x1c) | ((h << 4u32) & 0xc0);
            if rd == 0 { None } else { Some(enc_i(0x03, rd, 2, 2, imm)) }
        } else if f3 == 3 && is64 {
            let imm = ((h >> 7u32) & 0x20) | ((h >> 2u32) & 0x18) | ((h << 4u32) & 0x1c0);
            if rd == 0 { None } else { Some(enc_i(0x03, rd, 3, 2, imm)) }
        } else if f3 == 4 {
            if (h >> 12u32) & 1 == 0 {
                if rs2 == 0 {
                    if rd == 0 { None } else { Some(enc_i(0x67, 0, 0, rd, 0)) }
                } else {
                    Some(enc_r(0x33, rd, 0, 0, rs2, 0))
                }
            } else if rs2 == 0 {
                if rd == 0 { Some(0x0010_0073) } else { Some(enc_i(0x67, 1, 0, rd, 0)) }
            } else {
                Some(enc_r(0x33, rd, 0, rd, rs2, 0))
            }
        } else if f3 == 6 {
            let imm = ((h >> 7u32) & 0x3c) | ((h >> 1u32) & 0xc0);
            Some(enc_s(2, 2, rs2, imm))
        } else if f3 == 7 && is64 {
            let imm = ((h >> 7u32) & 0x38) | ((h >> 1u32) & 0x1c0);
            Some(enc_s(3, 2, rs2, imm))
        } else {
            None
        }
    }
}

/// The jump offset of a compressed jump, sign-extended.
fn cj_offset(h: u32) -> (r: u32)
    ensures
        r == cj_offset_spec(h),
{
    sext_bits(((h >> 1u32) & 0x800) | ((h >> 7u32) & 0x10) | ((h >> 1u32) & 0x300) | ((h << 2u32) & 0x400) | ((h
        >> 1u32) & 0x40) | ((h << 1u32) & 0x80) | ((h >> 2u32) & 0xe) | ((h << 3u32) & 0x20), 12)
}

} // verus!
