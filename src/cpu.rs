use vstd::prelude::*;
use crate::alu::{alu, has_stated_result, op_result};
use crate::decode::{decode, decode_spec, expand_compressed, expand_spec, instr_wf, sext32, sext32_spec, BranchOp, CsrOp, Instr};
use crate::memory::{read_effect, write_effect};
use crate::mmu::Mmu;
use crate::regs::{mask_of, xmask, Xlen};
use crate::trap::{cause_code, cause_code_spec, Access, Priv, Trap, TrapCause};
use crate::walk::MAX_RAM;

verus! {

pub const SSTATUS: u64 = 0x100;
pub const SIE: u64 = 0x104;
pub const STVEC: u64 = 0x105;
pub const SEPC: u64 = 0x141;
pub const SCAUSE: u64 = 0x142;
pub const STVAL: u64 = 0x143;
pub const SIP: u64 = 0x144;
pub const SATP: u64 = 0x180;
pub const MSTATUS: u64 = 0x300;
pub const MISA: u64 = 0x301;
pub const MEDELEG: u64 = 0x302;
pub const MIDELEG: u64 = 0x303;
pub const MIE: u64 = 0x304;
pub const MTVEC: u64 = 0x305;
pub const MEPC: u64 = 0x341;
pub const MCAUSE: u64 = 0x342;
pub const MTVAL: u64 = 0x343;
pub const MIP: u64 = 0x344;
pub const MHARTID: u64 = 0xf14;

/// The bits of the machine status register that the supervisor view exposes.
pub const SSTATUS_MASK: u64 = 0x8000_0003_000d_e162;

/// The supervisor interrupt bits of the interrupt-enable and -pending registers.
pub const SUPERVISOR_INTERRUPTS: u64 = 0x222;

/// Clears the low two (mode) bits of a trap-vector register.
pub const VECTOR_BASE: u64 = 0xffff_ffff_ffff_fffc;

/// The processor: registers, program counter, privilege, CSRs and the MMU it owns.
pub struct Cpu {
    pub xlen: Xlen,
    pub pc: u64,
    pub x: Vec<u64>,
    pub privilege: Priv,
    pub csr: Vec<u64>,
    pub mmu: Mmu,
}

/// Whether the supervisor-user-access bit of a status value is set.
pub open spec fn sum_bit(mstatus: u64) -> bool {
    (mstatus >> 18u64) & 1 == 1
}

/// The cause value of interrupt `code`: the top bit of the register width marks an interrupt.
pub open spec fn interrupt_cause(code: u64, xlen: Xlen) -> u64 {
    match xlen {
        Xlen::Bit32 => 0x8000_0000u64 | code,
        Xlen::Bit64 => 0x8000_0000_0000_0000u64 | code,
    }
}

/// The instruction, with its length in bytes, that a fetched word stands for: a
/// standard instruction, or a compressed one through its expansion.
pub open spec fn decoded(w: u32, xlen: Xlen) -> Option<(Instr, u64)> {
    if w & 3 == 3 {
        match decode_spec(w, xlen) {
            Some(i) => Some((i, 4u64)),
            None => None,
        }
    } else {
        match expand_spec(w, xlen) {
            Some(f) => match decode_spec(f, xlen) {
                Some(i) => Some((i, 2u64)),
                None => None,
            },
            None => None,
        }
    }
}

/// The numeric encoding of a privilege level.
pub open spec fn priv_code_spec(p: Priv) -> u64 {
    match p {
        Priv::User => 0,
        Priv::Supervisor => 1,
        Priv::Machine => 3,
    }
}

fn priv_code(p: Priv) -> (r: u64)
    ensures
        r == priv_code_spec(p),
{
    match p {
        Priv::User => 0,
        Priv::Supervisor => 1,
        Priv::Machine => 3,
    }
}

proof fn lemma_mask_le(v: u64, m: u64)
    ensures
        v & m <= m,
        v & m <= v,
{
    assert(v & m <= m) by (bit_vector);
    assert(v & m <= v) by (bit_vector);
}

proof fn lemma_mask_id(v: u64, xlen: Xlen)
    requires
        v <= xmask(xlen),
    ensures
        v & xmask(xlen) == v,
{
    assert(v <= 0xffff_ffffu64 ==> v & 0xffff_ffffu64 == v) by (bit_vector);
    assert(v & 0xffff_ffff_ffff_ffffu64 == v) by (bit_vector);
}

/// `a + b` modulo `2^XLEN`.
pub open spec fn add_mod(a: u64, b: u64, xlen: Xlen) -> u64 {
    ((a as int + b as int) % (xmask(xlen) as int + 1)) as u64
}

proof fn lemma_add_mod(a: u64, b: u64, xlen: Xlen)
    ensures
        a.wrapping_add(b) & xmask(xlen) == add_mod(a, b, xlen),
{
    let w = a.wrapping_add(b);
    let s = a as int + b as int;
    assert(w == s % 0x1_0000_0000_0000_0000int);
    match xlen {
        Xlen::Bit32 => {
            assert(w & 0xffff_ffffu64 == w % 0x1_0000_0000u64) by (bit_vector);
            vstd::arithmetic::div_mod::lemma_mod_mod(s, 0x1_0000_0000int, 0x1_0000_0000int);
        },
        Xlen::Bit64 => {
            assert(w & 0xffff_ffff_ffff_ffffu64 == w) by (bit_vector);
        },
    }
}

fn add_masked(a: u64, b: u64, xlen: Xlen) -> (r: u64)
    ensures
        r <= xmask(xlen),
        r == add_mod(a, b, xlen),
{
    let m = mask_of(xlen);
    proof {
        lemma_mask_le(a.wrapping_add(b), m);
        lemma_add_mod(a, b, xlen);
    }
    a.wrapping_add(b) & m
}

/// `x` after writing `v` to register `rd`; writes to register 0 are discarded.
pub open spec fn reg_write(x: Seq<u64>, rd: usize, v: u64) -> Seq<u64> {
    if rd == 0 {
        x
    } else {
        x.update(rd as int, v)
    }
}

/// Two's-complement comparison of register values of width `xlen`: flipping the sign
/// bit maps signed order onto unsigned order.
pub open spec fn signed_lt_spec(a: u64, b: u64, xlen: Xlen) -> bool {
    match xlen {
        Xlen::Bit32 => (a ^ 0x8000_0000u64) < (b ^ 0x8000_0000u64),
        Xlen::Bit64 => (a ^ 0x8000_0000_0000_0000u64) < (b ^ 0x8000_0000_0000_0000u64),
    }
}

/// Whether a branch with condition `op` on `a` and `b` is taken.
pub open spec fn branch_taken(op: BranchOp, a: u64, b: u64, xlen: Xlen) -> bool {
    match op {
        BranchOp::Eq => a == b,
        BranchOp::Ne => a != b,
        BranchOp::Lt => signed_lt_spec(a, b, xlen),
        BranchOp::Ge => !signed_lt_spec(a, b, xlen),
        BranchOp::Ltu => a < b,
        BranchOp::Geu => a >= b,
    }
}

/// A loaded value of `width` bytes extended (with sign when `signed`) to register width.
pub open spec fn extend_spec(v: u64, width: u64, signed: bool, xlen: Xlen) -> u64 {
    let e = if !signed || width == 8 {
        v
    } else if width == 1 {
        if v & 0x80 != 0 { v | 0xffff_ffff_ffff_ff00 } else { v & 0xff }
    } else if width == 2 {
        if v & 0x8000 != 0 { v | 0xffff_ffff_ffff_0000 } else { v & 0xffff }
    } else {
        sext32_spec(v as u32)
    };
    e & xmask(xlen)
}

/// The value of a successful result.
pub open spec fn ok_value(r: Result<u64, Trap>) -> u64 {
    match r {
        Ok(v) => v,
        Err(_) => 0,
    }
}

/// The privilege a trap return restores from a saved privilege field.
pub open spec fn priv_of_code(c: u64) -> Priv {
    if c == 0 {
        Priv::User
    } else if c == 1 {
        Priv::Supervisor
    } else {
        Priv::Machine
    }
}

/// Signed comparison of two register values of width `xlen`.
fn signed_lt(a: u64, b: u64, xlen: Xlen) -> (r: bool)
    ensures
        r == signed_lt_spec(a, b, xlen),
{
    let flip: u64 = match xlen {
        Xlen::Bit32 => 0x8000_0000,
        Xlen::Bit64 => 0x8000_0000_0000_0000,
    };
    (a ^ flip) < (b ^ flip)
}

/// Extends a loaded value of `width` bytes to register width.
fn extend_load(v: u64, width: u64, signed: bool, xlen: Xlen) -> (r: u64)
    ensures
        r <= xmask(xlen),
        r == extend_spec(v, width, signed, xlen),
{
    let m = mask_of(xlen);
    let e: u64 = if !signed || width == 8 {
        v
    } else if width == 1 {
        if v & 0x80 != 0 { v | 0xffff_ffff_ffff_ff00 } else { v & 0xff }
    } else if width == 2 {
        if v & 0x8000 != 0 { v | 0xffff_ffff_ffff_0000 } else { v & 0xffff }
    } else {
        #[verifier::truncate]
        let w = v as u32;
        sext32(w)
    };
    proof {
        lemma_mask_le(e, m);
    }
    e & m
}

impl Cpu {
    pub open spec fn wf(&self) -> bool {
        &&& self.x@.len() == 32
        &&& self.x@[0] == 0
        &&& forall|i: int| 0 <= i < 32 ==> #[trigger] self.x@[i] <= xmask(self.xlen)
        &&& self.pc <= xmask(self.xlen)
        &&& self.csr@.len() == 4096
        &&& forall|i: int| 0 <= i < 4096 ==> #[trigger] self.csr@[i] <= xmask(self.xlen)
        &&& self.mmu.wf()
        &&& self.mmu.xlen == self.xlen
        &&& self.mmu.privilege == self.privilege
        &&& self.mmu.sum == sum_bit(self.csr@[MSTATUS as int])
        &&& self.mmu.satp <= xmask(self.xlen)
    }

    /// Whether trap `t`, taken at the current privilege, goes to supervisor mode.
    pub open spec fn delegated(&self, t: Trap) -> bool {
        self.privilege != Priv::Machine && (self.csr@[MEDELEG as int] >> cause_code_spec(t.cause)) & 1 == 1
    }

    /// `next` is `self` after delivering trap `t`: the registers and memory are untouched,
    /// the faulting pc, cause and trap value are recorded, and control moves to the trap
    /// vector of the target privilege.
    pub open spec fn trap_delivered(&self, next: &Cpu, t: Trap) -> bool {
        &&& next.x@ == self.x@
        &&& next.mmu.same_mem(&self.mmu)
        &&& next.xlen == self.xlen
        &&& if self.delegated(t) {
            &&& next.privilege == Priv::Supervisor
            &&& next.pc == self.csr@[STVEC as int] & VECTOR_BASE
            &&& next.csr@[SEPC as int] == self.pc
            &&& next.csr@[SCAUSE as int] == cause_code_spec(t.cause)
            &&& next.csr@[STVAL as int] == t.tval & xmask(self.xlen)
            &&& next.csr@[MSTATUS as int] == self.status_to_supervisor()
        } else {
            &&& next.privilege == Priv::Machine
            &&& next.pc == self.csr@[MTVEC as int] & VECTOR_BASE
            &&& next.csr@[MEPC as int] == self.pc
            &&& next.csr@[MCAUSE as int] == cause_code_spec(t.cause)
            &&& next.csr@[MTVAL as int] == t.tval & xmask(self.xlen)
            &&& next.csr@[MSTATUS as int] == self.status_to_machine()
        }
    }

    /// The status register on entering supervisor mode: the previous privilege goes to
    /// SPP, SIE to SPIE, and SIE is cleared.
    pub open spec fn status_to_supervisor(&self) -> u64 {
        let ms = self.csr@[MSTATUS as int];
        let spp: u64 = if self.privilege == Priv::User { 0 } else { 1 };
        ((ms & !0x122u64) | (spp << 8u64) | (((ms >> 1u64) & 1) << 5u64)) & xmask(self.xlen)
    }

    /// The status register on entering machine mode: the previous privilege goes to MPP,
    /// MIE to MPIE, and MIE is cleared.
    pub open spec fn status_to_machine(&self) -> u64 {
        let ms = self.csr@[MSTATUS as int];
        ((ms & !0x1888u64) | (priv_code_spec(self.privilege) << 11u64) | (((ms >> 3u64) & 1) << 7u64)) & xmask(self.xlen)
    }

    /// `next` is `self` after `inst`, of `len` bytes, completed without a trap.
    pub open spec fn executed(&self, next: &Cpu, inst: Instr, len: u64) -> bool {
        self.executed_core(next, inst, len) && self.executed_frame(next, inst)
    }

    /// What a completed `inst` leaves of CSRs, privilege and memory.
    pub open spec fn executed_frame(&self, next: &Cpu, inst: Instr) -> bool {
        let ms = self.csr@[MSTATUS as int];
        let m = xmask(self.xlen);
        let unchanged_control = next.csr@ == self.csr@ && next.privilege == self.privilege && next.mmu.satp
            == self.mmu.satp;
        match inst {
            Instr::Csr { .. } => next.privilege == self.privilege && next.mmu.same_mem(&self.mmu),
            Instr::Mret => next.csr@ == self.csr@.update(
                MSTATUS as int,
                ((ms & !0x1888u64) | (((ms >> 7u64) & 1) << 3u64) | 0x80) & m,
            ) && next.mmu.same_mem(&self.mmu) && next.mmu.satp == self.mmu.satp,
            Instr::Sret => next.csr@ == self.csr@.update(
                MSTATUS as int,
                ((ms & !0x122u64) | (((ms >> 5u64) & 1) << 1u64) | 0x20) & m,
            ) && next.mmu.same_mem(&self.mmu) && next.mmu.satp == self.mmu.satp,
            Instr::Store { .. } => unchanged_control,
            Instr::Load { width, rs1, imm, .. } => unchanged_control && read_effect(
                &self.mmu.mem,
                &next.mmu.mem,
                ok_value(self.mmu.load_target(add_mod(self.x@[rs1 as int], imm, self.xlen), width)),
                width,
            ),
            _ => unchanged_control && next.mmu.same_mem(&self.mmu),
        }
    }

    /// The trap that a step from this state raises: the fetch's, an illegal instruction
    /// carrying the fetched word, or the instruction's own; `None` when it completes.
    pub open spec fn step_outcome(&self) -> Option<Trap> {
        match self.mmu.fetch_spec(self.pc) {
            Err(t) => Some(t),
            Ok(w) => match decoded(w, self.xlen) {
                None => Some(Trap { cause: TrapCause::IllegalInstruction, tval: w as u64 }),
                Some((inst, len)) => self.exec_outcome(inst),
            },
        }
    }

    /// `next` is `self` after a step whose instruction, fetched at the pc, completed.
    pub open spec fn stepped(&self, next: &Cpu) -> bool {
        match self.mmu.fetch_spec(self.pc) {
            Err(_) => false,
            Ok(w) => match decoded(w, self.xlen) {
                None => false,
                Some((inst, len)) => self.executed(next, inst, len),
            },
        }
    }

    /// Two states that differ only in the MMU's translation cache and in how memory is
    /// held execute every instruction alike.
    proof fn lemma_exec_same(&self, b: &Cpu, next: &Cpu, inst: Instr, len: u64)
        requires
            self.wf(),
            b.wf(),
            b.x@ == self.x@,
            b.pc == self.pc,
            b.csr@ == self.csr@,
            b.privilege == self.privilege,
            b.xlen == self.xlen,
            b.mmu.same_mem(&self.mmu),
            b.mmu.same_config(&self.mmu),
        ensures
            b.exec_outcome(inst) == self.exec_outcome(inst),
            b.executed(next, inst, len) == self.executed(next, inst, len),
    {
        assert(b.mmu.translate_spec(0, Access::Load) == self.mmu.translate_spec(0, Access::Load));
    }

    /// The trap that executing `inst` raises, or `None` when it completes.
    pub open spec fn exec_outcome(&self, inst: Instr) -> Option<Trap> {
        let xl = self.xlen;
        let illegal = Trap { cause: TrapCause::IllegalInstruction, tval: 0 };
        match inst {
            Instr::Load { width, rs1, imm, .. } => match self.mmu.load_target(add_mod(self.x@[rs1 as int], imm, xl), width) {
                Err(t) => Some(t),
                Ok(_) => None,
            },
            Instr::Store { width, rs1, imm, .. } => match self.mmu.store_target(add_mod(self.x@[rs1 as int], imm, xl), width) {
                Err(t) => Some(t),
                Ok(_) => None,
            },
            Instr::Csr { op, src, csr, .. } => {
                let writes = op == CsrOp::ReadWrite || src != 0;
                if priv_code_spec(self.privilege) < (csr >> 8u64) & 3 || (writes && (csr >> 10u64) & 3 == 3) {
                    Some(illegal)
                } else {
                    None
                }
            },
            Instr::Ecall => Some(Trap {
                cause: match self.privilege {
                    Priv::User => TrapCause::EnvironmentCallFromUMode,
                    Priv::Supervisor => TrapCause::EnvironmentCallFromSMode,
                    Priv::Machine => TrapCause::EnvironmentCallFromMMode,
                },
                tval: 0,
            }),
            Instr::Ebreak => Some(Trap { cause: TrapCause::Breakpoint, tval: self.pc }),
            Instr::Mret => if self.privilege != Priv::Machine { Some(illegal) } else { None },
            Instr::Sret | Instr::SfenceVma => if self.privilege == Priv::User { Some(illegal) } else { None },
            _ => None,
        }
    }

    /// The effect of a completed `inst` on registers and pc (and on memory for stores).
    pub open spec fn executed_core(&self, next: &Cpu, inst: Instr, len: u64) -> bool {
        let xl = self.xlen;
        let nx = add_mod(self.pc, len, xl);
        match inst {
            Instr::Lui { rd, imm } => next.x@ == reg_write(self.x@, rd, imm & xmask(xl)) && next.pc == nx,
            Instr::Auipc { rd, imm } => next.x@ == reg_write(self.x@, rd, add_mod(self.pc, imm, xl)) && next.pc == nx,
            Instr::Jal { rd, imm } => next.x@ == reg_write(self.x@, rd, nx) && next.pc == add_mod(self.pc, imm, xl),
            Instr::Jalr { rd, rs1, imm } => next.x@ == reg_write(self.x@, rd, nx)
                && next.pc == add_mod(self.x@[rs1 as int], imm, xl) & !1u64,
            Instr::Branch { op, rs1, rs2, imm } => next.x@ == self.x@ && next.pc == if branch_taken(
                op,
                self.x@[rs1 as int],
                self.x@[rs2 as int],
                xl,
            ) {
                add_mod(self.pc, imm, xl)
            } else {
                nx
            },
            Instr::Load { width, signed, rd, rs1, imm } => {
                let v = ok_value(self.mmu.load_spec(add_mod(self.x@[rs1 as int], imm, xl), width));
                next.x@ == reg_write(self.x@, rd, extend_spec(v, width, signed, xl)) && next.pc == nx
            },
            Instr::Store { width, rs1, rs2, imm } => {
                let p = ok_value(self.mmu.store_target(add_mod(self.x@[rs1 as int], imm, xl), width));
                next.x@ == self.x@ && next.pc == nx && write_effect(&self.mmu.mem, &next.mmu.mem, p, width, self.x@[rs2 as int])
            },
            Instr::OpImm { op, word, rd, rs1, imm } => next.x@ == reg_write(self.x@, rd, next.x@[rd as int])
                && next.pc == nx && (has_stated_result(op) ==> next.x@ == reg_write(
                self.x@,
                rd,
                op_result(op, word, self.x@[rs1 as int], imm, xl),
            )),
            Instr::Op { op, word, rd, rs1, rs2 } => next.x@ == reg_write(self.x@, rd, next.x@[rd as int])
                && next.pc == nx && (has_stated_result(op) ==> next.x@ == reg_write(
                self.x@,
                rd,
                op_result(op, word, self.x@[rs1 as int], self.x@[rs2 as int], xl),
            )),
            Instr::Csr { op, imm, rd, src, csr } => {
                let old_v = self.csr_value(csr);
                let s = if imm { src as u64 } else { self.x@[src as int] };
                let writes = op == CsrOp::ReadWrite || src != 0;
                let new_v = match op {
                    CsrOp::ReadWrite => s,
                    CsrOp::ReadSet => old_v | s,
                    CsrOp::ReadClear => old_v & !s,
                };
                &&& next.x@ == reg_write(self.x@, rd, old_v)
                &&& next.pc == nx
                &&& (writes && csr != SATP ==> next.csr@ == self.csr_after_write(csr, new_v) && next.mmu.satp
                    == self.mmu.satp)
                &&& (writes && csr == SATP ==> next.csr@ == self.csr@ && next.mmu.cache@.len() == 0 && next.mmu.satp
                    == if xl == Xlen::Bit32 || new_v >> 60u64 == 0 || new_v >> 60u64 == 8 {
                    new_v & xmask(xl)
                } else {
                    self.mmu.satp
                })
                &&& (!writes ==> next.csr@ == self.csr@ && next.mmu.satp == self.mmu.satp)
            },
            Instr::Mret => next.pc == self.csr@[MEPC as int] & !1u64
                && next.privilege == priv_of_code((self.csr@[MSTATUS as int] >> 11u64) & 3) && next.x@ == self.x@,
            Instr::Sret => next.pc == self.csr@[SEPC as int] & !1u64
                && next.privilege == priv_of_code((self.csr@[MSTATUS as int] >> 8u64) & 1) && next.x@ == self.x@,
            Instr::SfenceVma => next.x@ == self.x@ && next.pc == nx && next.mmu.cache@.len() == 0,
            Instr::Wfi | Instr::Fence => next.x@ == self.x@ && next.pc == nx,
            Instr::Ecall | Instr::Ebreak => false,
        }
    }

    /// Architectural state that a trapping instruction must leave as it was.
    pub open spec fn same_arch(&self, o: &Cpu) -> bool {
        &&& self.x@ == o.x@
        &&& self.pc == o.pc
        &&& self.csr@ == o.csr@
        &&& self.privilege == o.privilege
        &&& self.xlen == o.xlen
        &&& self.mmu.same_mem(&o.mmu)
        &&& self.mmu.satp == o.mmu.satp
    }

    /// A 64-bit processor in machine mode at pc 0, with zeroed registers and CSRs and no RAM.
    pub fn new() -> (r: Cpu)
        ensures
            r.wf(),
            r.xlen == Xlen::Bit64,
            r.pc == 0,
            r.privilege == Priv::Machine,
            forall|i: int| 0 <= i < 32 ==> r.x@[i] == 0,
            r.mmu.mem.ram@.len() == 0,
    {
        let x = vec![0u64; 32];
        let csr = vec![0u64; 4096];
        proof {
            assert((0u64 >> 18u64) & 1 == 0) by (bit_vector);
        }
        Cpu { xlen: Xlen::Bit64, pc: 0, x, privilege: Priv::Machine, csr, mmu: Mmu::new(Xlen::Bit64, 0) }
    }

    /// Gives the processor `size` bytes of zeroed RAM at the RAM base address.
    pub fn init_memory(&mut self, size: u64)
        requires
            old(self).wf(),
            size <= MAX_RAM,
        ensures
            final(self).wf(),
            final(self).mmu.mem.ram@ == Seq::new(size as nat, |i: int| 0u8),
            final(self).x@ == old(self).x@,
            final(self).pc == old(self).pc,
            final(self).xlen == old(self).xlen,
            final(self).privilege == old(self).privilege,
            final(self).csr@ == old(self).csr@,
            final(self).mmu.same_config(&old(self).mmu),
    {
        self.mmu.mem.ram = vec![0u8; size as usize];
        self.mmu.cache.clear();
        proof {
            assert(self.mmu.mem.ram@ =~= Seq::new(size as nat, |i: int| 0u8));
        }
    }

    /// Reads register `i`; register 0 always reads as zero.
    pub fn read_reg(&self, i: usize) -> (r: u64)
        requires
            self.wf(),
            i < 32,
        ensures
            r == self.x@[i as int],
            i == 0 ==> r == 0,
    {
        self.x[i]
    }

    /// Writes register `i`, keeping the value's low XLEN bits; writes to register 0 are
    /// discarded.
    pub fn write_reg(&mut self, i: usize, v: u64)
        requires
            old(self).wf(),
            i < 32,
        ensures
            final(self).wf(),
            final(self).x@ == if i == 0 {
                old(self).x@
            } else {
                old(self).x@.update(i as int, v & xmask(old(self).xlen))
            },
            v <= xmask(old(self).xlen) ==> final(self).x@ == reg_write(old(self).x@, i, v),
            final(self).pc == old(self).pc,
            final(self).csr@ == old(self).csr@,
            final(self).privilege == old(self).privilege,
            final(self).xlen == old(self).xlen,
            final(self).mmu == old(self).mmu,
    {
        if i != 0 {
            let m = mask_of(self.xlen);
            proof {
                lemma_mask_le(v, m);
                if v <= m {
                    lemma_mask_id(v, self.xlen);
                }
            }
            self.x.set(i, v & m);
        }
    }

    /// Sets the program counter, keeping its low XLEN bits.
    pub fn update_pc(&mut self, pc: u64)
        requires
            old(self).wf(),
        ensures
            final(self).wf(),
            final(self).pc == pc & xmask(old(self).xlen),
            final(self).x@ == old(self).x@,
            final(self).csr@ == old(self).csr@,
            final(self).privilege == old(self).privilege,
            final(self).xlen == old(self).xlen,
            final(self).mmu == old(self).mmu,
    {
        let m = mask_of(self.xlen);
        proof {
            lemma_mask_le(pc, m);
        }
        self.pc = pc & m;
    }

    fn set_csr(&mut self, addr: u64, v: u64)
        requires
            old(self).wf(),
            addr < 4096,
            addr != MSTATUS,
        ensures
            final(self).wf(),
            final(self).csr@ == old(self).csr@.update(addr as int, v & xmask(old(self).xlen)),
            final(self).x@ == old(self).x@,
            final(self).pc == old(self).pc,
            final(self).privilege == old(self).privilege,
            final(self).xlen == old(self).xlen,
            final(self).mmu == old(self).mmu,
    {
        let m = mask_of(self.xlen);
        proof {
            lemma_mask_le(v, m);
        }
        self.csr.set(addr as usize, v & m);
    }

    /// Sets the machine status register and the privilege together, keeping the MMU's
    /// view of both in step.
    fn set_status(&mut self, mstatus: u64, p: Priv)
        requires
            old(self).wf(),
        ensures
            final(self).wf(),
            final(self).csr@ == old(self).csr@.update(MSTATUS as int, mstatus & xmask(old(self).xlen)),
            final(self).privilege == p,
            final(self).x@ == old(self).x@,
            final(self).pc == old(self).pc,
            final(self).xlen == old(self).xlen,
            final(self).mmu.same_mem(&old(self).mmu),
            final(self).mmu.satp == old(self).mmu.satp,
    {
        let m = mask_of(self.xlen);
        proof {
            lemma_mask_le(mstatus, m);
        }
        let v = mstatus & m;
        self.csr.set(MSTATUS as usize, v);
        self.privilege = p;
        self.mmu.update_privilege(p, (v >> 18u64) & 1 == 1);
    }

    /// Delivers trap `t`: records the faulting pc, cause and trap value in the target
    /// privilege's CSRs, saves and clears its interrupt enable, and jumps to its vector.
    pub fn handle_trap(&mut self, t: Trap)
        requires
            old(self).wf(),
        ensures
            final(self).wf(),
            old(self).trap_delivered(final(self), t),
    {
        let code = cause_code(t.cause);
        proof {
            lemma_mask_id(code, self.xlen);
        }
        let deleg = self.privilege != Priv::Machine && (self.csr[MEDELEG as usize] >> code) & 1 == 1;
        self.enter_trap(code, t.tval, deleg);
    }

    /// Enters the trap handler of supervisor mode (`to_supervisor`) or machine mode:
    /// records the pc, `cause` and `tval`, saves the previous privilege and interrupt
    /// enable, clears the enable, and jumps to the trap vector.
    fn enter_trap(&mut self, cause: u64, tval: u64, to_supervisor: bool)
        requires
            old(self).wf(),
            cause <= xmask(old(self).xlen),
        ensures
            final(self).wf(),
            final(self).x@ == old(self).x@,
            final(self).mmu.same_mem(&old(self).mmu),
            final(self).xlen == old(self).xlen,
            if to_supervisor {
                &&& final(self).privilege == Priv::Supervisor
                &&& final(self).pc == old(self).csr@[STVEC as int] & VECTOR_BASE
                &&& final(self).csr@[SEPC as int] == old(self).pc
                &&& final(self).csr@[SCAUSE as int] == cause
                &&& final(self).csr@[STVAL as int] == tval & xmask(old(self).xlen)
                &&& final(self).csr@[MSTATUS as int] == old(self).status_to_supervisor()
            } else {
                &&& final(self).privilege == Priv::Machine
                &&& final(self).pc == old(self).csr@[MTVEC as int] & VECTOR_BASE
                &&& final(self).csr@[MEPC as int] == old(self).pc
                &&& final(self).csr@[MCAUSE as int] == cause
                &&& final(self).csr@[MTVAL as int] == tval & xmask(old(self).xlen)
                &&& final(self).csr@[MSTATUS as int] == old(self).status_to_machine()
            },
    {
        let pc = self.pc;
        let ms = self.csr[MSTATUS as usize];
        let cur = priv_code(self.privilege);
        proof {
            lemma_mask_id(pc, self.xlen);
            lemma_mask_id(cause, self.xlen);
            lemma_mask_le(self.csr@[STVEC as int], VECTOR_BASE);
            lemma_mask_le(self.csr@[MTVEC as int], VECTOR_BASE);
        }
        if to_supervisor {
            let vector = self.csr[STVEC as usize] & VECTOR_BASE;
            self.set_csr(SEPC, pc);
            self.set_csr(SCAUSE, cause);
            self.set_csr(STVAL, tval);
            let sie = (ms >> 1u64) & 1;
            let spp: u64 = if cur == 0 { 0 } else { 1 };
            self.set_status((ms & !0x122u64) | (spp << 8u64) | (sie << 5u64), Priv::Supervisor);
            self.pc = vector;
        } else {
            let vector = self.csr[MTVEC as usize] & VECTOR_BASE;
            self.set_csr(MEPC, pc);
            self.set_csr(MCAUSE, cause);
            self.set_csr(MTVAL, tval);
            let mie = (ms >> 3u64) & 1;
            self.set_status((ms & !0x1888u64) | (cur << 11u64) | (mie << 7u64), Priv::Machine);
            self.pc = vector;
        }
    }

    /// Whether interrupt `code` is pending, enabled in the interrupt-enable register, and
    /// enabled at the current privilege for the mode it is delegated to.
    pub open spec fn interrupt_takeable(&self, code: u64) -> bool {
        let pending = self.csr@[MIP as int] & self.csr@[MIE as int];
        let ms = self.csr@[MSTATUS as int];
        (pending >> code) & 1 == 1 && if (self.csr@[MIDELEG as int] >> code) & 1 == 1 {
            self.privilege == Priv::User || (self.privilege == Priv::Supervisor && (ms >> 1u64) & 1 == 1)
        } else {
            self.privilege != Priv::Machine || (ms >> 3u64) & 1 == 1
        }
    }

    /// No interrupt ahead of `c` in the order of priority (11, 3, 7, 9, 1, 5) is takeable.
    pub open spec fn interrupt_first(&self, c: u64) -> bool {
        let t11 = self.interrupt_takeable(11);
        let t3 = self.interrupt_takeable(3);
        let t7 = self.interrupt_takeable(7);
        let t9 = self.interrupt_takeable(9);
        let t1 = self.interrupt_takeable(1);
        ||| c == 11
        ||| c == 3 && !t11
        ||| c == 7 && !t11 && !t3
        ||| c == 9 && !t11 && !t3 && !t7
        ||| c == 1 && !t11 && !t3 && !t7 && !t9
        ||| c == 5 && !t11 && !t3 && !t7 && !t9 && !t1
    }

    fn takeable(&self, code: u64) -> (r: bool)
        requires
            self.wf(),
            code < 64,
        ensures
            r == self.interrupt_takeable(code),
    {
        let pending = self.csr[MIP as usize] & self.csr[MIE as usize];
        let ms = self.csr[MSTATUS as usize];
        (pending >> code) & 1 == 1 && if (self.csr[MIDELEG as usize] >> code) & 1 == 1 {
            self.privilege == Priv::User || (self.privilege == Priv::Supervisor && (ms >> 1u64) & 1 == 1)
        } else {
            self.privilege != Priv::Machine || (ms >> 3u64) & 1 == 1
        }
    }

    /// `next` is `self` after looking for an interrupt to take, with `r` the one taken:
    /// none takeable leaves control as it was; otherwise the first in priority order is
    /// delivered, to the mode it is delegated to.
    pub open spec fn interrupt_rel(&self, next: &Cpu, r: Option<u64>) -> bool {
        &&& next.wf()
        &&& next.x@ == self.x@
        &&& next.mmu.same_mem(&self.mmu)
        &&& next.xlen == self.xlen
        &&& (r is None ==> {
                    &&& !self.interrupt_takeable(11) && !self.interrupt_takeable(3)
                    &&& !self.interrupt_takeable(7) && !self.interrupt_takeable(9)
                    &&& !self.interrupt_takeable(1) && !self.interrupt_takeable(5)
                    &&& next.pc == self.pc
                    &&& next.csr@ == self.csr@
                    &&& next.privilege == self.privilege
                })
        &&& (r matches Some(c) ==> {
                    &&& self.interrupt_takeable(c)
                    &&& self.interrupt_first(c)
                    &&& if (self.csr@[MIDELEG as int] >> c) & 1 == 1 {
                        &&& next.privilege == Priv::Supervisor
                        &&& next.pc == self.csr@[STVEC as int] & VECTOR_BASE
                        &&& next.csr@[SEPC as int] == self.pc
                        &&& next.csr@[SCAUSE as int] == interrupt_cause(c, self.xlen)
                    } else {
                        &&& next.privilege == Priv::Machine
                        &&& next.pc == self.csr@[MTVEC as int] & VECTOR_BASE
                        &&& next.csr@[MEPC as int] == self.pc
                        &&& next.csr@[MCAUSE as int] == interrupt_cause(c, self.xlen)
                    }
                })
    }

    /// `next` is `self` after one step that returned `r`: a completed instruction, or the
    /// delivery of the trap it raised.
    pub open spec fn tick_rel(&self, next: &Cpu, r: Option<Trap>) -> bool {
        &&& next.wf()
        &&& next.xlen == self.xlen
        &&& r == self.step_outcome()
        &&& (r is None ==> self.stepped(next))
        &&& (r matches Some(t) ==> self.trap_delivered(next, t))
    }

    /// Marks interrupt `code` pending or not, as a device outside the hart signals it.
    pub fn set_interrupt_pending(&mut self, code: u64, pending: bool)
        requires
            old(self).wf(),
            code < 12,
        ensures
            final(self).wf(),
            final(self).csr@ == old(self).csr@.update(MIP as int, (if pending {
                old(self).csr@[MIP as int] | (1u64 << code)
            } else {
                old(self).csr@[MIP as int] & !(1u64 << code)
            }) & xmask(old(self).xlen)),
            final(self).x@ == old(self).x@,
            final(self).pc == old(self).pc,
            final(self).privilege == old(self).privilege,
            final(self).xlen == old(self).xlen,
    {
        let cur = self.csr[MIP as usize];
        let v = if pending { cur | (1u64 << code) } else { cur & !(1u64 << code) };
        self.set_csr(MIP, v);
    }

    /// Takes the highest-priority takeable interrupt, if any (machine external, software,
    /// timer, then the supervisor ones in the same order), delivering it like a trap
    /// with the interrupt bit set in the cause. Returns the interrupt number taken.
    pub fn take_interrupt(&mut self) -> (r: Option<u64>)
        requires
            old(self).wf(),
        ensures
            final(self).wf(),
            final(self).x@ == old(self).x@,
            final(self).mmu.same_mem(&old(self).mmu),
            final(self).xlen == old(self).xlen,
            old(self).interrupt_rel(final(self), r),
    {
        let c: u64 = if self.takeable(11) {
            11
        } else if self.takeable(3) {
            3
        } else if self.takeable(7) {
            7
        } else if self.takeable(9) {
            9
        } else if self.takeable(1) {
            1
        } else if self.takeable(5) {
            5
        } else {
            return None;
        };
        let to_s = (self.csr[MIDELEG as usize] >> c) & 1 == 1;
        let cause: u64 = match self.xlen {
            Xlen::Bit32 => 0x8000_0000 | c,
            Xlen::Bit64 => 0x8000_0000_0000_0000 | c,
        };
        proof {
            assert(c < 12 ==> (0x8000_0000u64 | c) <= 0xffff_ffffu64) by (bit_vector);
        }
        self.enter_trap(cause, 0, to_s);
        Some(c)
    }

    /// The value a read of CSR `addr` returns: the supervisor status and interrupt
    /// registers are views of the machine ones, and the translation root lives in the MMU.
    pub open spec fn csr_value(&self, addr: u64) -> u64 {
        if addr == SSTATUS {
            self.csr@[MSTATUS as int] & SSTATUS_MASK
        } else if addr == SIE {
            self.csr@[MIE as int] & SUPERVISOR_INTERRUPTS
        } else if addr == SIP {
            self.csr@[MIP as int] & SUPERVISOR_INTERRUPTS
        } else if addr == SATP {
            self.mmu.satp
        } else {
            self.csr@[addr as int]
        }
    }

    /// The CSR file after writing `v` to CSR `addr` (other than the translation root);
    /// the machine ISA and hart-id registers ignore writes.
    pub open spec fn csr_after_write(&self, addr: u64, v: u64) -> Seq<u64> {
        let m = xmask(self.xlen);
        let c = self.csr@;
        if addr == SSTATUS {
            c.update(MSTATUS as int, ((c[MSTATUS as int] & !SSTATUS_MASK) | (v & SSTATUS_MASK)) & m)
        } else if addr == SIE {
            c.update(MIE as int, ((c[MIE as int] & !SUPERVISOR_INTERRUPTS) | (v & SUPERVISOR_INTERRUPTS)) & m)
        } else if addr == SIP {
            c.update(MIP as int, ((c[MIP as int] & !SUPERVISOR_INTERRUPTS) | (v & SUPERVISOR_INTERRUPTS)) & m)
        } else if addr == MISA || addr == MHARTID {
            c
        } else {
            c.update(addr as int, v & m)
        }
    }

    /// Reads CSR `addr`, through the supervisor views of the machine registers.
    fn read_csr(&self, addr: u64) -> (r: u64)
        requires
            self.wf(),
            addr < 4096,
        ensures
            r <= xmask(self.xlen),
            r == self.csr_value(addr),
    {
        let v = if addr == SSTATUS {
            self.csr[MSTATUS as usize] & SSTATUS_MASK
        } else if addr == SIE {
            self.csr[MIE as usize] & SUPERVISOR_INTERRUPTS
        } else if addr == SIP {
            self.csr[MIP as usize] & SUPERVISOR_INTERRUPTS
        } else if addr == SATP {
            self.mmu.satp
        } else {
            self.csr[addr as usize]
        };
        proof {
            lemma_mask_le(self.csr@[MSTATUS as int], SSTATUS_MASK);
            lemma_mask_le(self.csr@[MIE as int], SUPERVISOR_INTERRUPTS);
            lemma_mask_le(self.csr@[MIP as int], SUPERVISOR_INTERRUPTS);
        }
        v
    }

    /// Writes CSR `addr`, with the side effects the write has: a write to the
    /// translation root drops every cached translation.
    fn write_csr(&mut self, addr: u64, v: u64)
        requires
            old(self).wf(),
            addr < 4096,
        ensures
            final(self).wf(),
            final(self).x@ == old(self).x@,
            final(self).pc == old(self).pc,
            final(self).xlen == old(self).xlen,
            final(self).mmu.same_mem(&old(self).mmu),
            final(self).privilege == old(self).privilege,
            addr == SATP ==> final(self).mmu.cache@.len() == 0 && final(self).csr@ == old(self).csr@
                && final(self).mmu.satp == if old(self).xlen == Xlen::Bit32 || v >> 60u64 == 0 || v >> 60u64 == 8 {
                v & xmask(old(self).xlen)
            } else {
                old(self).mmu.satp
            },
            addr != SATP ==> final(self).mmu.satp == old(self).mmu.satp
                && final(self).csr@ == old(self).csr_after_write(addr, v),
    {
        let p = self.privilege;
        if addr == SSTATUS {
            let ms = self.csr[MSTATUS as usize];
            self.set_status((ms & !SSTATUS_MASK) | (v & SSTATUS_MASK), p);
        } else if addr == MSTATUS {
            self.set_status(v, p);
        } else if addr == SIE {
            let cur = self.csr[MIE as usize];
            self.set_csr(MIE, (cur & !SUPERVISOR_INTERRUPTS) | (v & SUPERVISOR_INTERRUPTS));
        } else if addr == SIP {
            let cur = self.csr[MIP as usize];
            self.set_csr(MIP, (cur & !SUPERVISOR_INTERRUPTS) | (v & SUPERVISOR_INTERRUPTS));
        } else if addr == SATP {
            let m = mask_of(self.xlen);
            let mode = v >> 60u64;
            proof {
                lemma_mask_le(v, m);
            }
            if self.xlen == Xlen::Bit32 || mode == 0 || mode == 8 {
                self.mmu.update_satp(v & m);
            } else {
                self.mmu.clear_page_cache();
            }
        } else if addr == MISA || addr == MHARTID {
        } else {
            self.set_csr(addr, v);
        }
    }

    fn illegal(&self) -> (r: Result<(), Trap>)
        ensures
            r == Err::<(), Trap>(Trap { cause: TrapCause::IllegalInstruction, tval: 0 }),
    {
        Err(Trap { cause: TrapCause::IllegalInstruction, tval: 0 })
    }

    /// Executes `inst`, of `len` bytes, at the current pc. A trap leaves registers, pc,
    /// CSRs, privilege and memory as they were.
    #[verifier::rlimit(80)]
    #[verifier::spinoff_prover]
    pub fn execute(&mut self, inst: Instr, len: u64) -> (r: Result<(), Trap>)
        requires
            old(self).wf(),
            instr_wf(inst),
            len == 2 || len == 4,
        ensures
            final(self).wf(),
            final(self).xlen == old(self).xlen,
            r is Err ==> final(self).same_arch(old(self)),
            r is Ok ==> old(self).executed(final(self), inst, len),
            r == match old(self).exec_outcome(inst) {
                Some(t) => Err::<(), Trap>(t),
                None => Ok(()),
            },
    {
        let xl = self.xlen;
        let pc = self.pc;
        let next = add_masked(pc, len, xl);
        match inst {
            Instr::Lui { rd, imm } => {
                self.write_reg(rd, imm);
                self.pc = next;
            },
            Instr::Auipc { rd, imm } => {
                self.write_reg(rd, add_masked(pc, imm, xl));
                self.pc = next;
            },
            Instr::Jal { rd, imm } => {
                self.write_reg(rd, next);
                self.pc = add_masked(pc, imm, xl);
            },
            Instr::Jalr { rd, rs1, imm } => {
                let target = add_masked(self.x[rs1], imm, xl) & !1u64;
                proof {
                    lemma_mask_le(add_mod(self.x@[rs1 as int], imm, xl), !1u64);
                }
                self.write_reg(rd, next);
                self.pc = target;
            },
            Instr::Branch { op, rs1, rs2, imm } => {
                let a = self.x[rs1];
                let b = self.x[rs2];
                let taken = match op {
                    BranchOp::Eq => a == b,
                    BranchOp::Ne => a != b,
                    BranchOp::Lt => signed_lt(a, b, self.xlen),
                    BranchOp::Ge => !signed_lt(a, b, self.xlen),
                    BranchOp::Ltu => a < b,
                    BranchOp::Geu => a >= b,
                };
                self.pc = if taken { add_masked(pc, imm, xl) } else { next };
            },
            Instr::Load { width, signed, rd, rs1, imm } => {
                let addr = add_masked(self.x[rs1], imm, xl);
                match self.mmu.load_bytes(addr, width) {
                    Ok(v) => {
                        let e = extend_load(v, width, signed, self.xlen);
                        self.write_reg(rd, e);
                        self.pc = next;
                    },
                    Err(t) => {
                        return Err(t);
                    },
                }
            },
            Instr::Store { width, rs1, rs2, imm } => {
                let addr = add_masked(self.x[rs1], imm, xl);
                let v = self.x[rs2];
                match self.mmu.store_bytes(addr, v, width) {
                    Ok(()) => {
                        self.pc = next;
                    },
                    Err(t) => {
                        return Err(t);
                    },
                }
            },
            Instr::OpImm { op, word, rd, rs1, imm } => {
                let r = alu(op, word, self.x[rs1], imm, self.xlen);
                self.write_reg(rd, r);
                self.pc = next;
            },
            Instr::Op { op, word, rd, rs1, rs2 } => {
                let r = alu(op, word, self.x[rs1], self.x[rs2], self.xlen);
                self.write_reg(rd, r);
                self.pc = next;
            },
            Instr::Csr { op, imm, rd, src, csr } => {
                let writes = match op {
                    CsrOp::ReadWrite => true,
                    _ => src != 0,
                };
                let level = priv_code(self.privilege);
                if level < (csr >> 8u64) & 3 || (writes && (csr >> 10u64) & 3 == 3) {
                    return self.illegal();
                }
                let old_v = self.read_csr(csr);
                let s: u64 = if imm { src as u64 } else { self.x[src] };
                if writes {
                    let new_v = match op {
                        CsrOp::ReadWrite => s,
                        CsrOp::ReadSet => old_v | s,
                        CsrOp::ReadClear => old_v & !s,
                    };
                    self.write_csr(csr, new_v);
                }
                self.write_reg(rd, old_v);
                self.pc = next;
            },
            Instr::Ecall => {
                let cause = match self.privilege {
                    Priv::User => TrapCause::EnvironmentCallFromUMode,
                    Priv::Supervisor => TrapCause::EnvironmentCallFromSMode,
                    Priv::Machine => TrapCause::EnvironmentCallFromMMode,
                };
                return Err(Trap { cause, tval: 0 });
            },
            Instr::Ebreak => {
                return Err(Trap { cause: TrapCause::Breakpoint, tval: pc });
            },
            Instr::Mret => {
                if self.privilege != Priv::Machine {
                    return self.illegal();
                }
                let ms = self.csr[MSTATUS as usize];
                let target = self.csr[MEPC as usize];
                let mpp = (ms >> 11u64) & 3;
                let p = if mpp == 0 { Priv::User } else if mpp == 1 { Priv::Supervisor } else { Priv::Machine };
                let mpie = (ms >> 7u64) & 1;
                self.set_status((ms & !0x1888u64) | (mpie << 3u64) | 0x80, p);
                self.pc = target & !1u64;
                proof {
                    lemma_mask_le(target, !1u64);
                }
            },
            Instr::Sret => {
                if self.privilege == Priv::User {
                    return self.illegal();
                }
                let ms = self.csr[MSTATUS as usize];
                let target = self.csr[SEPC as usize];
                let p = if (ms >> 8u64) & 1 == 1 { Priv::Supervisor } else { Priv::User };
                proof {
                    assert((ms >> 8u64) & 1 <= 1) by (bit_vector);
                }
                let spie = (ms >> 5u64) & 1;
                self.set_status((ms & !0x122u64) | (spie << 1u64) | 0x20, p);
                self.pc = target & !1u64;
                proof {
                    lemma_mask_le(target, !1u64);
                }
            },
            Instr::SfenceVma => {
                if self.privilege == Priv::User {
                    return self.illegal();
                }
                self.mmu.clear_page_cache();
                self.pc = next;
            },
            Instr::Wfi | Instr::Fence => {
                self.pc = next;
            },
        }
        Ok(())
    }

    /// Fetches, decodes and executes the instruction at the pc.
    #[verifier::rlimit(80)]
    #[verifier::spinoff_prover]
    pub fn step(&mut self) -> (r: Result<(), Trap>)
        requires
            old(self).wf(),
        ensures
            final(self).wf(),
            final(self).xlen == old(self).xlen,
            r is Err ==> final(self).same_arch(old(self)),
            r == match old(self).step_outcome() {
                Some(t) => Err::<(), Trap>(t),
                None => Ok(()),
            },
            r is Ok ==> old(self).stepped(final(self)),
    {
        let word = match self.mmu.fetch(self.pc) {
            Ok(w) => w,
            Err(t) => {
                return Err(t);
            },
        };
        let (full, len): (u32, u64) = if word & 3 == 3 {
            (word, 4)
        } else {
            match expand_compressed(word, self.xlen) {
                Some(w) => (w, 2),
                None => {
                    return Err(Trap { cause: TrapCause::IllegalInstruction, tval: word as u64 });
                },
            }
        };
        match decode(full, self.xlen) {
            Some(inst) => {
                proof {
                    old(self).lemma_exec_same(self, self, inst, len);
                }
                let ghost mid = *self;
                let r = self.execute(inst, len);
                proof {
                    old(self).lemma_exec_same(&mid, self, inst, len);
                }
                r
            },
            None => Err(Trap { cause: TrapCause::IllegalInstruction, tval: word as u64 }),
        }
    }

    /// Runs one step. An instruction that traps is replaced by delivery of its trap,
    /// which is returned; the registers and memory are then as they were before the step.
    pub fn tick(&mut self) -> (r: Option<Trap>)
        requires
            old(self).wf(),
        ensures
            old(self).tick_rel(final(self), r),
    {
        match self.step() {
            Ok(()) => None,
            Err(t) => {
                let ghost mid = *self;
                self.handle_trap(t);
                proof {
                    assert(mid.delegated(t) == old(self).delegated(t));
                }
                Some(t)
            },
        }
    }

    /// Selects the register width. The pc, registers, CSRs and translation root keep
    /// their low bits of the new width.
    pub fn update_xlen(&mut self, xlen: Xlen)
        requires
            old(self).wf(),
        ensures
            final(self).wf(),
            final(self).xlen == xlen,
            final(self).privilege == old(self).privilege,
            final(self).mmu.same_mem(&old(self).mmu),
            forall|i: int| 0 <= i < 32 ==> #[trigger] final(self).x@[i] == old(self).x@[i] & xmask(xlen),
            final(self).pc == old(self).pc & xmask(xlen),
    {
        let m = mask_of(xlen);
        let mut i: usize = 0;
        while i < 32
            invariant
                self.x@.len() == 32,
                self.x@[0] == 0,
                0 <= i <= 32,
                forall|j: int| 0 <= j < i ==> #[trigger] self.x@[j] == old(self).x@[j] & m,
                forall|j: int| i <= j < 32 ==> #[trigger] self.x@[j] == old(self).x@[j],
                m == xmask(xlen),
                old(self).x@.len() == 32,
                self.csr@ == old(self).csr@,
                self.mmu == old(self).mmu,
                self.pc == old(self).pc,
                self.privilege == old(self).privilege,
            decreases 32 - i,
        {
            let v = self.x[i];
            proof {
                assert((0u64 & m) == 0) by (bit_vector);
            }
            self.x.set(i, v & m);
            i = i + 1;
        }
        let mut k: usize = 0;
        while k < 4096
            invariant
                self.csr@.len() == 4096,
                0 <= k <= 4096,
                forall|j: int| 0 <= j < k ==> #[trigger] self.csr@[j] == old(self).csr@[j] & m,
                forall|j: int| k <= j < 4096 ==> #[trigger] self.csr@[j] == old(self).csr@[j],
                m == xmask(xlen),
                old(self).csr@.len() == 4096,
                self.x@.len() == 32,
                self.x@[0] == 0,
                forall|j: int| 0 <= j < 32 ==> #[trigger] self.x@[j] == old(self).x@[j] & m,
                self.mmu == old(self).mmu,
                self.pc == old(self).pc,
                self.privilege == old(self).privilege,
            decreases 4096 - k,
        {
            let v = self.csr[k];
            self.csr.set(k, v & m);
            k = k + 1;
        }
        let pc = self.pc;
        let satp = self.mmu.satp;
        let ms = self.csr[MSTATUS as usize];
        self.pc = pc & m;
        self.xlen = xlen;
        self.mmu.update_xlen(xlen);
        self.mmu.update_satp(satp & m);
        let p = self.privilege;
        self.mmu.update_privilege(p, (ms >> 18u64) & 1 == 1);
        proof {
            assert forall|j: int| 0 <= j < 32 implies #[trigger] self.x@[j] <= xmask(xlen) by {
                lemma_mask_le(old(self).x@[j], m);
            }
            assert forall|j: int| 0 <= j < 4096 implies #[trigger] self.csr@[j] <= xmask(xlen) by {
                lemma_mask_le(old(self).csr@[j], m);
            }
            lemma_mask_le(pc, m);
            lemma_mask_le(satp, m);
        }
    }

    /// Sets the privilege level; the MMU translates at the new level from then on.
    pub fn update_privilege(&mut self, p: Priv)
        requires
            old(self).wf(),
        ensures
            final(self).wf(),
            final(self).privilege == p,
            final(self).x@ == old(self).x@,
            final(self).pc == old(self).pc,
            final(self).xlen == old(self).xlen,
            final(self).mmu.same_mem(&old(self).mmu),
    {
        let ms = self.csr[MSTATUS as usize];
        proof {
            lemma_mask_id(ms, self.xlen);
        }
        self.set_status(ms, p);
    }
}

/// Register 0 reads as zero in every well-formed state, whatever was written to it
/// before: every operation keeps the processor well-formed, and `write_reg` discards
/// writes to it.
pub proof fn lemma_x0_reads_zero(c: &Cpu)
    requires
        c.wf(),
    ensures
        c.x@[0] == 0,
{
}

/// A trap leaves the register file and memory as they were before the trapping
/// instruction: delivery only redirects control and records the trap in CSRs.
pub proof fn lemma_trap_atomic(before: &Cpu, after: &Cpu, t: Trap)
    requires
        before.trap_delivered(after, t),
    ensures
        after.x@ == before.x@,
        after.mmu.mem.ram@ == before.mmu.mem.ram@,
        after.mmu.mem.disk@ == before.mmu.mem.disk@,
{
}

} // verus!
