use riscv_emu::cpu::{Cpu, MCAUSE, MEPC, MIE, MSTATUS, MTVAL, MTVEC};
use riscv_emu::regs::Xlen;
use riscv_emu::trap::{Priv, TrapCause};
use riscv_emu::walk::DRAM_BASE;

fn load(cpu: &mut Cpu, addr: u64, bytes: &[u8]) {
    for (i, b) in bytes.iter().enumerate() {
        match cpu.mmu.store_bytes(addr + i as u64, *b as u64, 1) {
            Ok(()) => {}
            Err(_e) => panic!("Failed to store"),
        }
    }
}

fn show_regs(cpu: &Cpu) {
    println!("----- registers  -----");
    println!("pc: 0x{:08X}", cpu.pc);
    println!("ra: 0x{:08X}", cpu.x[1]);
    println!("sp: 0x{:08X}", cpu.x[2]);
    println!("fp: 0x{:08X}", cpu.x[8]);
    println!("----------------------");
}

#[test]
pub fn shstack_test() {
    let mut cpu = Cpu::new();
    cpu.init_memory(0x1000);
    cpu.update_pc(DRAM_BASE);
    cpu.write_reg(2, DRAM_BASE + 0x800);
    cpu.write_reg(8, DRAM_BASE + 0x800);

    let v: Vec<u8> = vec![
        0xef, 0x00, 0x40, 0x00, 0x01, 0x11, 0x06, 0xEC, 0x22, 0xE8, 0x00, 0x10, 0x93, 0x07, 0x10, 0x04,
        0x23, 0x04, 0xF4, 0xFE, 0x93, 0x07, 0x10, 0x04, 0xA3, 0x04, 0xF4, 0xFE, 0x93, 0x07, 0x10, 0x04,
        0x23, 0x05, 0xF4, 0xFE, 0x93, 0x07, 0x10, 0x04, 0xA3, 0x05, 0xF4, 0xFE, 0x93, 0x07, 0x10, 0x04,
        0x23, 0x06, 0xF4, 0xFE, 0x93, 0x07, 0x10, 0x04, 0xA3, 0x06, 0xF4, 0xFE, 0x93, 0x07, 0x10, 0x04,
        0x23, 0x07, 0xF4, 0xFE, 0x93, 0x07, 0x10, 0x04, 0xA3, 0x07, 0xF4, 0xFE, 0x93, 0x07, 0x10, 0x04,
        0x23, 0x08, 0xF4, 0xFE, 0x93, 0x07, 0x10, 0x04, 0xA3, 0x08, 0xF4, 0xFE, 0x93, 0x07, 0x10, 0x04,
        0x23, 0x09, 0xF4, 0xFE, 0x93, 0x07, 0x10, 0x04, 0xA3, 0x09, 0xF4, 0xFE, 0x93, 0x07, 0x10, 0x04,
        0x23, 0x0A, 0xF4, 0xFE, 0x93, 0x07, 0x10, 0x04, 0xA3, 0x0A, 0xF4, 0xFE, 0x93, 0x07, 0x10, 0x04,
        0x23, 0x0B, 0xF4, 0xFE, 0x93, 0x07, 0x10, 0x04, 0xA3, 0x0B, 0xF4, 0xFE, 0x93, 0x07, 0x10, 0x04,
        0x23, 0x0C, 0xF4, 0xFE, 0x93, 0x07, 0x10, 0x04, 0xA3, 0x0C, 0xF4, 0xFE, 0x93, 0x07, 0x10, 0x04,
        0x23, 0x0D, 0xF4, 0xFE, 0x93, 0x07, 0x10, 0x04, 0xA3, 0x0D, 0xF4, 0xFE, 0x93, 0x07, 0x10, 0x04,
        0x23, 0x0E, 0xF4, 0xFE, 0x93, 0x07, 0x10, 0x04, 0xA3, 0x0E, 0xF4, 0xFE, 0x93, 0x07, 0x10, 0x04,
        0x23, 0x0F, 0xF4, 0xFE, 0x93, 0x07, 0x10, 0x04, 0xA3, 0x0F, 0xF4, 0xFE, 0x93, 0x07, 0x10, 0x04,
        0x23, 0x00, 0xF4, 0x00, 0x93, 0x07, 0x10, 0x04, 0xA3, 0x00, 0xF4, 0x00, 0x93, 0x07, 0x10, 0x04,
        0x23, 0x01, 0xF4, 0x00, 0x93, 0x07, 0x10, 0x04, 0xA3, 0x01, 0xF4, 0x00, 0x93, 0x07, 0x10, 0x04,
        0x23, 0x02, 0xF4, 0x00, 0x93, 0x07, 0x10, 0x04, 0xA3, 0x02, 0xF4, 0x00, 0x93, 0x07, 0x10, 0x04,
        0x23, 0x03, 0xF4, 0x00, 0x93, 0x07, 0x10, 0x04, 0xA3, 0x03, 0xF4, 0x00, 0x93, 0x07, 0x10, 0x04,
        0x23, 0x04, 0xF4, 0x00, 0x93, 0x07, 0x10, 0x04, 0xA3, 0x04, 0xF4, 0x00, 0x93, 0x07, 0x10, 0x04,
        0x23, 0x05, 0xF4, 0x00, 0x93, 0x07, 0x10, 0x04, 0xA3, 0x05, 0xF4, 0x00, 0x93, 0x07, 0x10, 0x04,
        0x23, 0x06, 0xF4, 0x00, 0x93, 0x07, 0x10, 0x04, 0xA3, 0x06, 0xF4, 0x00, 0x93, 0x07, 0x10, 0x04,
        0x23, 0x07, 0xF4, 0x00, 0x93, 0x07, 0x10, 0x04, 0xA3, 0x07, 0xF4, 0x00, 0x93, 0x07, 0x10, 0x04,
        0x23, 0x08, 0xF4, 0x00, 0x93, 0x07, 0x10, 0x04, 0xA3, 0x08, 0xF4, 0x00, 0x93, 0x07, 0x10, 0x04,
        0x23, 0x09, 0xF4, 0x00, 0x93, 0x07, 0x10, 0x04, 0xA3, 0x09, 0xF4, 0x00, 0x93, 0x07, 0x10, 0x04,
        0x23, 0x0A, 0xF4, 0x00, 0x93, 0x07, 0x10, 0x04, 0xA3, 0x0A, 0xF4, 0x00, 0x93, 0x07, 0x10, 0x04,
        0x23, 0x0B, 0xF4, 0x00, 0x93, 0x07, 0x10, 0x04, 0xA3, 0x0B, 0xF4, 0x00, 0x93, 0x07, 0x10, 0x04,
        0x23, 0x0C, 0xF4, 0x00, 0x93, 0x07, 0x10, 0x04, 0xA3, 0x0C, 0xF4, 0x00, 0x93, 0x07, 0x10, 0x04,
        0x23, 0x0D, 0xF4, 0x00, 0x93, 0x07, 0x10, 0x04, 0xA3, 0x0D, 0xF4, 0x00, 0x93, 0x07, 0x10, 0x04,
        0x23, 0x0E, 0xF4, 0x00, 0x93, 0x07, 0x10, 0x04, 0xA3, 0x0E, 0xF4, 0x00, 0x93, 0x07, 0x10, 0x04,
        0x23, 0x0F, 0xF4, 0x00, 0x93, 0x07, 0x10, 0x04, 0xA3, 0x0F, 0xF4, 0x00, 0x93, 0x07, 0x10, 0x04,
        0x23, 0x00, 0xF4, 0x02, 0x93, 0x07, 0x10, 0x04, 0xA3, 0x00, 0xF4, 0x02, 0x93, 0x07, 0x10, 0x04,
        0x23, 0x01, 0xF4, 0x02, 0x93, 0x07, 0x10, 0x04, 0xA3, 0x01, 0xF4, 0x02, 0x93, 0x07, 0x10, 0x04,
        0x23, 0x02, 0xF4, 0x02, 0x93, 0x07, 0x10, 0x04, 0xA3, 0x02, 0xF4, 0x02, 0x93, 0x07, 0x10, 0x04,
        0x23, 0x03, 0xF4, 0x02, 0x93, 0x07, 0x10, 0x04, 0xA3, 0x03, 0xF4, 0x02, 0x93, 0x07, 0x10, 0x04,
        0x23, 0x04, 0xF4, 0x02, 0x93, 0x07, 0x10, 0x04, 0xA3, 0x04, 0xF4, 0x02, 0x93, 0x07, 0x10, 0x04,
        0x23, 0x05, 0xF4, 0x02, 0x93, 0x07, 0x10, 0x04, 0xA3, 0x05, 0xF4, 0x02, 0x93, 0x07, 0x10, 0x04,
        0x23, 0x06, 0xF4, 0x02, 0x93, 0x07, 0x10, 0x04, 0xA3, 0x06, 0xF4, 0x02, 0x93, 0x07, 0x10, 0x04,
        0x23, 0x07, 0xF4, 0x02, 0x93, 0x07, 0x10, 0x04, 0xA3, 0x07, 0xF4, 0x02, 0x93, 0x07, 0x10, 0x04,
        0x23, 0x08, 0xF4, 0x02, 0x93, 0x07, 0x10, 0x04, 0xA3, 0x08, 0xF4, 0x02, 0x93, 0x07, 0x10, 0x04,
        0x23, 0x09, 0xF4, 0x02, 0x93, 0x07, 0x10, 0x04, 0xA3, 0x09, 0xF4, 0x02, 0x93, 0x07, 0x10, 0x04,
        0x23, 0x0A, 0xF4, 0x02, 0x93, 0x07, 0x10, 0x04, 0xA3, 0x0A, 0xF4, 0x02, 0x93, 0x07, 0x10, 0x04,
        0x23, 0x0B, 0xF4, 0x02, 0x93, 0x07, 0x10, 0x04, 0xA3, 0x0B, 0xF4, 0x02, 0xEF, 0x00, 0x00, 0x01,
        0x81, 0x47, 0x3E, 0x85, 0xE2, 0x60, 0x42, 0x64, 0x05, 0x61, 0x82, 0x80, 0x41, 0x11, 0x22, 0xE4,
        0x00, 0x08, 0x81, 0x47, 0x3E, 0x85, 0x22, 0x64, 0x41, 0x01, 0x82, 0x80,
    ];
    load(&mut cpu, DRAM_BASE, &v);

    println!("* program start *");
    show_regs(&cpu);
    let mut cnt = 0u64;
    loop {
        cpu.tick();
        if cpu.pc == DRAM_BASE + 0x296 + 4 {
            cpu.tick();
            break;
        }
        cnt += 1;
        assert!(cnt < 1_000_000, "program did not return from main");
    }
    println!("* program end *");
    show_regs(&cpu);
    // The overflow overwrote the saved return address with 'A' bytes.
    assert_eq!(cpu.pc, 0x4141_4141_4141_4140);
}

#[test]
fn li_and_ret_in_32_bit_mode() {
    let mut cpu = Cpu::new();
    cpu.init_memory(0x1000);
    cpu.update_xlen(Xlen::Bit32);
    cpu.update_pc(DRAM_BASE);
    cpu.write_reg(1, DRAM_BASE + 0x100);
    load(&mut cpu, DRAM_BASE, &[0x0d, 0x45, 0x82, 0x80]);
    assert!(cpu.tick().is_none());
    assert!(cpu.tick().is_none());
    assert_eq!(cpu.read_reg(10), 3);
    assert_eq!(cpu.pc, DRAM_BASE + 0x100);
}

#[test]
fn unmapped_load_is_access_fault() {
    let mut cpu = Cpu::new();
    cpu.init_memory(0x1000);
    cpu.update_pc(DRAM_BASE);
    cpu.csr[MTVEC as usize] = DRAM_BASE + 0x200;
    cpu.write_reg(11, 0x2000_0000);
    cpu.write_reg(10, 77);
    // lw a0, 0(a1)
    load(&mut cpu, DRAM_BASE, &0x0005_a503u32.to_le_bytes());
    let t = cpu.tick().expect("trap");
    assert_eq!(t.cause, TrapCause::LoadAccessFault);
    assert_eq!(cpu.pc, DRAM_BASE + 0x200);
    assert_eq!(cpu.csr[MCAUSE as usize], 5);
    assert_eq!(cpu.csr[MEPC as usize], DRAM_BASE);
    assert_eq!(cpu.csr[MTVAL as usize], 0x2000_0000);
    assert_eq!(cpu.read_reg(10), 77);
    assert_eq!(cpu.privilege, Priv::Machine);
}

#[test]
fn register_zero_reads_zero() {
    let mut cpu = Cpu::new();
    cpu.init_memory(0x1000);
    cpu.update_pc(DRAM_BASE);
    cpu.write_reg(0, 5);
    assert_eq!(cpu.read_reg(0), 0);
    // addi x0, x0, 5
    load(&mut cpu, DRAM_BASE, &0x0050_0013u32.to_le_bytes());
    assert!(cpu.tick().is_none());
    assert_eq!(cpu.read_reg(0), 0);
    assert_eq!(cpu.pc, DRAM_BASE + 4);
}

#[test]
fn illegal_instruction_traps() {
    let mut cpu = Cpu::new();
    cpu.init_memory(0x1000);
    cpu.update_pc(DRAM_BASE);
    cpu.csr[MTVEC as usize] = DRAM_BASE + 0x40;
    let t = cpu.tick().expect("trap");
    assert_eq!(t.cause, TrapCause::IllegalInstruction);
    assert_eq!(cpu.csr[MCAUSE as usize], 2);
    assert_eq!(cpu.pc, DRAM_BASE + 0x40);
}

#[test]
fn ecall_and_ebreak_trap() {
    let mut cpu = Cpu::new();
    cpu.init_memory(0x1000);
    cpu.update_pc(DRAM_BASE);
    cpu.csr[MTVEC as usize] = DRAM_BASE + 4;
    load(&mut cpu, DRAM_BASE, &[0x73, 0x00, 0x00, 0x00, 0x73, 0x00, 0x10, 0x00]);
    let t = cpu.tick().expect("trap");
    assert_eq!(t.cause, TrapCause::EnvironmentCallFromMMode);
    assert_eq!(cpu.csr[MCAUSE as usize], 11);
    let t = cpu.tick().expect("trap");
    assert_eq!(t.cause, TrapCause::Breakpoint);
    assert_eq!(cpu.csr[MTVAL as usize], DRAM_BASE + 4);
}

#[test]
fn misaligned_load_traps() {
    let mut cpu = Cpu::new();
    cpu.init_memory(0x1000);
    cpu.update_pc(DRAM_BASE);
    cpu.write_reg(11, DRAM_BASE + 0x101);
    load(&mut cpu, DRAM_BASE, &0x0005_a503u32.to_le_bytes());
    let t = cpu.tick().expect("trap");
    assert_eq!(t.cause, TrapCause::LoadAddressMisaligned);
    assert_eq!(t.tval, DRAM_BASE + 0x101);
}

#[test]
fn arithmetic_and_csr_instructions() {
    let mut cpu = Cpu::new();
    cpu.init_memory(0x1000);
    cpu.update_pc(DRAM_BASE);
    cpu.write_reg(5, 7);
    cpu.write_reg(6, 0);
    let prog: [u32; 5] = [
        0x0262_c3b3, // div t2, t0, t1   (divide by zero)
        0x0262_e433, // rem s0, t0, t1
        0x3052_9073, // csrw mtvec, t0
        0x3050_24f3, // csrr s1, mtvec
        0xfff0_0913, // li s2, -1
    ];
    let mut bytes = Vec::new();
    for w in prog.iter() {
        bytes.extend_from_slice(&w.to_le_bytes());
    }
    load(&mut cpu, DRAM_BASE, &bytes);
    for _ in 0..5 {
        assert!(cpu.tick().is_none());
    }
    assert_eq!(cpu.read_reg(7), u64::MAX);
    assert_eq!(cpu.read_reg(8), 7);
    assert_eq!(cpu.read_reg(9), 7);
    assert_eq!(cpu.read_reg(18), u64::MAX);
}

#[test]
fn user_mode_cannot_read_machine_csr() {
    let mut cpu = Cpu::new();
    cpu.init_memory(0x1000);
    cpu.update_pc(DRAM_BASE);
    cpu.csr[MTVEC as usize] = DRAM_BASE + 0x80;
    load(&mut cpu, DRAM_BASE, &0x3050_24f3u32.to_le_bytes());
    cpu.update_privilege(Priv::User);
    let t = cpu.tick().expect("trap");
    assert_eq!(t.cause, TrapCause::IllegalInstruction);
    assert_eq!(cpu.privilege, Priv::Machine);
    assert_eq!(cpu.csr[MEPC as usize], DRAM_BASE);
}

#[test]
fn timer_interrupt_taken_when_enabled() {
    let mut cpu = Cpu::new();
    cpu.init_memory(0x1000);
    cpu.update_pc(DRAM_BASE + 0x10);
    cpu.csr[MTVEC as usize] = DRAM_BASE + 0x300;
    cpu.set_interrupt_pending(7, true);
    assert_eq!(cpu.take_interrupt(), None);
    cpu.csr[MIE as usize] = 1 << 7;
    assert_eq!(cpu.take_interrupt(), None);
    cpu.csr[MSTATUS as usize] = 1 << 3;
    assert_eq!(cpu.take_interrupt(), Some(7));
    assert_eq!(cpu.csr[MCAUSE as usize], 0x8000_0000_0000_0007);
    assert_eq!(cpu.csr[MEPC as usize], DRAM_BASE + 0x10);
    assert_eq!(cpu.pc, DRAM_BASE + 0x300);
    assert_eq!(cpu.csr[MSTATUS as usize] & (1 << 3), 0);
    assert_eq!(cpu.csr[MSTATUS as usize] & (1 << 7), 1 << 7);
    assert_eq!(cpu.take_interrupt(), None);
}
