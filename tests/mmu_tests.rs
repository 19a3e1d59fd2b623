use riscv_emu::alu::alu;
use riscv_emu::cpu::{Cpu, MCAUSE, MTVAL, MTVEC};
use riscv_emu::decode::{decode, expand_compressed, AluOp, BranchOp, Instr};
use riscv_emu::emulator::{Emulator, SetupError};
use riscv_emu::memory::{PhysMem, DTB_BASE, UART_BASE};
use riscv_emu::mmu::Mmu;
use riscv_emu::regs::Xlen;
use riscv_emu::trap::{Access, Priv, TrapCause};
use riscv_emu::walk::DRAM_BASE;

const SV39: u64 = 8 << 60;

fn put(m: &mut Mmu, paddr: u64, v: u64) {
    assert!(m.mem.write(paddr, 8, v));
}

/// Root table at +0x1000, then +0x2000 and +0x3000; virtual page 0 maps to code at
/// +0x5000 (read, execute), virtual page 1 to read-only data at +0x6000.
fn build_tables(m: &mut Mmu) {
    let ppn = |off: u64| (DRAM_BASE + off) >> 12;
    put(m, DRAM_BASE + 0x1000, (ppn(0x2000) << 10) | 1);
    put(m, DRAM_BASE + 0x2000, (ppn(0x3000) << 10) | 1);
    put(m, DRAM_BASE + 0x3000, (ppn(0x5000) << 10) | 0x4b);
    put(m, DRAM_BASE + 0x3008, (ppn(0x6000) << 10) | 0xc3);
}

fn paged_mmu(cache: bool) -> Mmu {
    let mut m = Mmu::new(Xlen::Bit64, 0x10000);
    build_tables(&mut m);
    m.enable_page_cache(cache);
    m.update_satp(SV39 | ((DRAM_BASE + 0x1000) >> 12));
    m.update_privilege(Priv::Supervisor, false);
    m
}

#[test]
fn translation_same_with_and_without_cache() {
    let mut a = paged_mmu(true);
    let mut b = paged_mmu(false);
    for round in 0..2 {
        for vaddr in [0x0u64, 0x10, 0x1008, 0x1ff8, 0x2000, 0x8000_0000, 0xffff_ffff_ffff_f000] {
            for access in [Access::Fetch, Access::Load, Access::Store] {
                assert_eq!(a.translate(vaddr, access), b.translate(vaddr, access), "round {}", round);
            }
        }
    }
    assert!(!a.cache.is_empty());
    assert!(b.cache.is_empty());
    assert_eq!(a.translate(0x1008, Access::Load), Ok(DRAM_BASE + 0x6008));
    assert_eq!(a.translate(0x10, Access::Fetch), Ok(DRAM_BASE + 0x5010));
    assert_eq!(a.translate(0x1008, Access::Store).unwrap_err().cause, TrapCause::StorePageFault);
    assert_eq!(a.translate(0x2000, Access::Load).unwrap_err().cause, TrapCause::LoadPageFault);
}

#[test]
fn satp_write_drops_cached_translations() {
    let mut m = paged_mmu(true);
    assert_eq!(m.translate(0x1008, Access::Load), Ok(DRAM_BASE + 0x6008));
    assert!(!m.cache.is_empty());
    // A second root at +0x4000 maps nothing.
    m.update_satp(SV39 | ((DRAM_BASE + 0x4000) >> 12));
    assert!(m.cache.is_empty());
    assert_eq!(m.translate(0x1008, Access::Load).unwrap_err().cause, TrapCause::LoadPageFault);
}

#[test]
fn store_to_read_only_page_faults() {
    let mut cpu = Cpu::new();
    cpu.init_memory(0x10000);
    build_tables(&mut cpu.mmu);
    cpu.csr[MTVEC as usize] = DRAM_BASE + 0x8000;
    // sw a0, 0(a1) at virtual address 0
    assert!(cpu.mmu.mem.write(DRAM_BASE + 0x5000, 4, 0x00a5_a023));
    assert!(cpu.mmu.mem.write(DRAM_BASE + 0x6000, 8, 0x5555_5555_5555_5555));
    cpu.mmu.update_satp(SV39 | ((DRAM_BASE + 0x1000) >> 12));
    cpu.update_privilege(Priv::Supervisor);
    cpu.update_pc(0);
    cpu.write_reg(10, 0x1234);
    cpu.write_reg(11, 0x1000);
    let t = cpu.tick().expect("trap");
    assert_eq!(t.cause, TrapCause::StorePageFault);
    assert_eq!(cpu.csr[MCAUSE as usize], 15);
    assert_eq!(cpu.csr[MTVAL as usize], 0x1000);
    assert_eq!(cpu.pc, DRAM_BASE + 0x8000);
    assert_eq!(cpu.mmu.mem.read_ram(DRAM_BASE + 0x6000, 8).unwrap(), vec![0x55u8; 8]);
}

#[test]
fn ram_round_trip() {
    let mut m = PhysMem::new(0x100);
    let data: Vec<u8> = (0u8..17).map(|i| i.wrapping_mul(31)).collect();
    assert!(m.write_ram(DRAM_BASE + 0x20, &data));
    assert_eq!(m.read_ram(DRAM_BASE + 0x20, 17).unwrap(), data);
    assert!(!m.write_ram(DRAM_BASE + 0xf8, &data));
    assert!(m.read_ram(DRAM_BASE + 0xf8, 17).is_none());
    assert!(m.write_ram(DRAM_BASE, &Vec::new()));
}

#[test]
fn value_round_trip_little_endian() {
    let mut m = Mmu::new(Xlen::Bit64, 0x100);
    assert_eq!(m.store_bytes(DRAM_BASE + 8, 0x1122_3344_5566_7788, 8), Ok(()));
    assert_eq!(m.load_bytes(DRAM_BASE + 8, 8), Ok(0x1122_3344_5566_7788));
    assert_eq!(m.load_bytes(DRAM_BASE + 8, 1), Ok(0x88));
    assert_eq!(m.load_bytes(DRAM_BASE + 12, 4), Ok(0x1122_3344));
    assert_eq!(m.store_bytes(DRAM_BASE + 3, 1, 2).unwrap_err().cause, TrapCause::StoreAddressMisaligned);
}

#[test]
fn device_regions() {
    let mut m = Mmu::new(Xlen::Bit64, 0x100);
    m.mem.dtb = vec![0xd0, 0x0d, 0xfe, 0xed];
    assert_eq!(m.load_bytes(DTB_BASE, 4), Ok(0xedfe_0dd0));
    assert_eq!(m.store_bytes(DTB_BASE, 0, 4).unwrap_err().cause, TrapCause::StoreAccessFault);
    assert_eq!(m.store_bytes(UART_BASE, b'h' as u64, 1), Ok(()));
    assert_eq!(m.mem.uart_out, vec![b'h']);
    assert_eq!(m.load_bytes(UART_BASE + 5, 1), Ok(0x60));
    m.mem.uart_in.push(b'k');
    assert_eq!(m.load_bytes(UART_BASE + 5, 1), Ok(0x61));
    assert_eq!(m.load_bytes(UART_BASE, 1), Ok(b'k' as u64));
    assert!(m.mem.uart_in.is_empty());
    assert_eq!(m.load_bytes(0x2000_0000, 4).unwrap_err().cause, TrapCause::LoadAccessFault);
}

#[test]
fn decoder_examples() {
    assert_eq!(expand_compressed(0x450d, Xlen::Bit32), Some(0x0030_0513));
    assert_eq!(expand_compressed(0x8082, Xlen::Bit64), Some(0x0000_8067));
    assert_eq!(expand_compressed(0, Xlen::Bit64), None);
    assert_eq!(
        decode(0x0030_0513, Xlen::Bit32),
        Some(Instr::OpImm { op: AluOp::Add, word: false, rd: 10, rs1: 0, imm: 3 })
    );
    assert_eq!(decode(0xfff0_0913, Xlen::Bit64), Some(Instr::OpImm { op: AluOp::Add, word: false, rd: 18, rs1: 0, imm: u64::MAX }));
    assert_eq!(decode(0x0000_3003, Xlen::Bit32), None);
    assert_eq!(decode(0, Xlen::Bit64), None);
}

#[test]
fn emulator_setup() {
    let mut e = Emulator::new(0x100);
    assert_eq!(e.setup_program(&vec![0u8; 0x101]), Err(SetupError::ProgramTooLarge));
    assert_eq!(e.setup_program(&vec![0x13, 0, 0, 0]), Ok(()));
    assert_eq!(e.cpu.pc, DRAM_BASE);
    assert_eq!(e.setup_dtb(vec![0u8; 0x10_0001]), Err(SetupError::DtbTooLarge));
    assert_eq!(e.setup_dtb(vec![1, 2, 3]), Ok(()));
    assert_eq!(e.cpu.read_reg(11), DTB_BASE);
    assert_eq!(e.setup_filesystem(vec![9; 16]), Ok(()));
    e.enable_page_cache(true);
    assert!(e.cpu.mmu.cache_enabled);
    e.update_xlen(Xlen::Bit32);
    assert_eq!(e.cpu.xlen, Xlen::Bit32);
    assert_eq!(e.run_steps(1), 0);
    assert_eq!(e.cpu.pc, DRAM_BASE + 4);
    e.push_input(b'x');
    assert_eq!(e.take_output(), Vec::<u8>::new());
}

#[test]
fn alu_exact_values() {
    assert_eq!(alu(AluOp::Add, false, u64::MAX, 1, Xlen::Bit64), 0);
    assert_eq!(alu(AluOp::Sub, false, 0, 1, Xlen::Bit32), 0xffff_ffff);
    assert_eq!(alu(AluOp::Add, true, 0x7fff_ffff, 1, Xlen::Bit64), 0xffff_ffff_8000_0000);
    assert_eq!(alu(AluOp::Div, false, 0x8000_0000, 0xffff_ffff, Xlen::Bit32), 0x8000_0000);
    assert_eq!(alu(AluOp::Div, false, 7, 0, Xlen::Bit64), u64::MAX);
    assert_eq!(alu(AluOp::Div, false, (-7i64) as u64, 2, Xlen::Bit64), (-3i64) as u64);
    assert_eq!(alu(AluOp::Rem, false, (-7i64) as u64, 2, Xlen::Bit64), (-1i64) as u64);
    assert_eq!(alu(AluOp::Rem, false, 9, 0, Xlen::Bit64), 9);
    assert_eq!(alu(AluOp::Remu, false, 9, 4, Xlen::Bit32), 1);
    assert_eq!(alu(AluOp::Mulh, false, u64::MAX, 2, Xlen::Bit64), u64::MAX);
    assert_eq!(alu(AluOp::Mulhu, false, u64::MAX, u64::MAX, Xlen::Bit64), 0xffff_ffff_ffff_fffe);
    assert_eq!(alu(AluOp::Mulhsu, false, 0xffff_ffff, 2, Xlen::Bit32), 0xffff_ffff);
    assert_eq!(alu(AluOp::Mul, false, 0x1_0000, 0x1_0000, Xlen::Bit32), 0);
    assert_eq!(alu(AluOp::Sra, false, 0x8000_0000, 4, Xlen::Bit32), 0xf800_0000);
    assert_eq!(alu(AluOp::Srl, false, 0x8000_0000, 4, Xlen::Bit32), 0x0800_0000);
    assert_eq!(alu(AluOp::Sll, false, 1, 63, Xlen::Bit64), 1 << 63);
    assert_eq!(alu(AluOp::Slt, false, u64::MAX, 0, Xlen::Bit64), 1);
    assert_eq!(alu(AluOp::Sltu, false, u64::MAX, 0, Xlen::Bit64), 0);
}

#[test]
fn translation_in_32_bit_mode() {
    let mut m = Mmu::new(Xlen::Bit32, 0x10000);
    // Sv32: root at +0x1000 whose entry 0 is a 4 MiB leaf at the RAM base (read, write).
    assert!(m.mem.write(DRAM_BASE + 0x1000, 4, ((DRAM_BASE >> 12) << 10) | 0xc7));
    m.update_satp((1 << 31) | ((DRAM_BASE + 0x1000) >> 12));
    m.update_privilege(Priv::Supervisor, false);
    assert_eq!(m.translate(0x0000_2345, Access::Load), Ok(DRAM_BASE + 0x2345));
    assert_eq!(m.translate(0x0000_2345, Access::Fetch).unwrap_err().cause, TrapCause::InstructionPageFault);
    assert_eq!(m.translate(0x0040_0000, Access::Load).unwrap_err().cause, TrapCause::LoadPageFault);
    m.update_privilege(Priv::User, false);
    assert_eq!(m.translate(0x0000_2345, Access::Load).unwrap_err().cause, TrapCause::LoadPageFault);
}

#[test]
fn satp_instruction_empties_cache() {
    let mut cpu = Cpu::new();
    cpu.init_memory(0x10000);
    build_tables(&mut cpu.mmu);
    cpu.mmu.enable_page_cache(true);
    cpu.csr[MTVEC as usize] = DRAM_BASE + 0x8000;
    // lw a0, 0(a1); csrw satp, a2
    assert!(cpu.mmu.mem.write(DRAM_BASE + 0x5000, 4, 0x0005_a503));
    assert!(cpu.mmu.mem.write(DRAM_BASE + 0x5004, 4, 0x1806_1073));
    assert!(cpu.mmu.mem.write(DRAM_BASE + 0x6000, 8, 0x0123_4567_89ab_cdef));
    cpu.mmu.update_satp(SV39 | ((DRAM_BASE + 0x1000) >> 12));
    cpu.update_privilege(Priv::Supervisor);
    cpu.update_pc(0);
    cpu.write_reg(11, 0x1000);
    cpu.write_reg(12, SV39 | ((DRAM_BASE + 0x4000) >> 12));
    assert!(cpu.tick().is_none());
    assert_eq!(cpu.read_reg(10), 0xffff_ffff_89ab_cdef);
    assert!(!cpu.mmu.cache.is_empty());
    assert!(cpu.tick().is_none());
    assert!(cpu.mmu.cache.is_empty());
    assert_eq!(cpu.mmu.satp, SV39 | ((DRAM_BASE + 0x4000) >> 12));
    let t = cpu.tick().expect("trap");
    assert_eq!(t.cause, TrapCause::InstructionPageFault);
    assert_eq!(t.tval, 8);
    assert_eq!(cpu.pc, DRAM_BASE + 0x8000);
}

#[test]
fn mret_enters_supervisor_mode() {
    let mut cpu = Cpu::new();
    cpu.init_memory(0x1000);
    cpu.update_pc(DRAM_BASE);
    cpu.csr[riscv_emu::cpu::MEPC as usize] = DRAM_BASE + 0x100;
    cpu.csr[riscv_emu::cpu::MSTATUS as usize] = 1 << 11;
    // mret
    assert!(cpu.mmu.mem.write(DRAM_BASE, 4, 0x3020_0073));
    assert!(cpu.tick().is_none());
    assert_eq!(cpu.privilege, Priv::Supervisor);
    assert_eq!(cpu.pc, DRAM_BASE + 0x100);
}

#[test]
fn decoder_immediates() {
    // jal ra, +4
    assert_eq!(decode(0x0040_00ef, Xlen::Bit64), Some(Instr::Jal { rd: 1, imm: 4 }));
    // beq a0, a1, -8
    assert_eq!(
        decode(0xfeb5_0ce3, Xlen::Bit64),
        Some(Instr::Branch { op: BranchOp::Eq, rs1: 10, rs2: 11, imm: (-8i64) as u64 })
    );
    // sb a5, -24(s0)
    assert_eq!(
        decode(0xfef4_0423, Xlen::Bit64),
        Some(Instr::Store { width: 1, rs1: 8, rs2: 15, imm: (-24i64) as u64 })
    );
    // ld on a 32-bit hart is illegal
    assert_eq!(decode(0x0005_b403, Xlen::Bit32), None);
    // c.sdsp ra, 24(sp) expands to sd ra, 24(sp)
    assert_eq!(expand_compressed(0xec06, Xlen::Bit64), Some(0x0011_3c23));
}

#[test]
fn run_steps_counts_traps() {
    let mut e = Emulator::new(0x100);
    // addi x0, x0, 0; ecall
    assert_eq!(e.setup_program(&vec![0x13, 0, 0, 0, 0x73, 0, 0, 0]), Ok(()));
    e.cpu.csr[riscv_emu::cpu::MTVEC as usize] = DRAM_BASE;
    assert_eq!(e.run_steps(2), 1);
    assert_eq!(e.cpu.pc, DRAM_BASE);
}
