use vstd::prelude::*;
use crate::cpu::Cpu;
use crate::memory::{within, splice, DTB_BASE, MAX_DISK, MAX_DTB};
use crate::regs::{mask_of, xmask, Xlen};
use crate::trap::{Priv, Trap};
use crate::walk::{DRAM_BASE, MAX_RAM};

verus! {

/// Default RAM size: 128 MiB.
pub const DEFAULT_RAM_SIZE: u64 = 0x800_0000;

/// Setup errors, reported to the operator rather than to the guest.
#[derive(Clone, Copy, Debug, PartialEq, Eq, Structural)]
pub enum SetupError {
    /// The program image does not fit in RAM.
    ProgramTooLarge,
    /// The block-device image exceeds the space the physical map gives it.
    FilesystemTooLarge,
    /// The device-tree blob exceeds the space the physical map gives it.
    DtbTooLarge,
}

/// One round of the step loop from `a` to `b`: an interrupt check, then a step, which
/// trapped when `trapped` holds.
pub open spec fn round(a: Cpu, b: Cpu, trapped: bool) -> bool {
    exists|mid: Cpu, taken: Option<u64>, t: Option<Trap>|
        #![trigger a.interrupt_rel(&mid, taken), mid.tick_rel(&b, t)]
        a.interrupt_rel(&mid, taken) && mid.tick_rel(&b, t) && trapped == (t is Some)
}

/// The number of `true` entries in `s`.
pub open spec fn count_true(s: Seq<bool>) -> nat
    decreases s.len(),
{
    if s.len() == 0 {
        0
    } else {
        count_true(s.drop_last()) + if s.last() {
            1nat
        } else {
            0nat
        }
    }
}

/// One emulated machine: a processor with its memory and devices.
pub struct Emulator {
    pub cpu: Cpu,
}

impl Emulator {
    pub open spec fn wf(&self) -> bool {
        self.cpu.wf()
    }

    /// A 64-bit machine with `ram_size` bytes of zeroed RAM, starting in machine mode at the
    /// RAM base address.
    pub fn new(ram_size: u64) -> (r: Emulator)
        requires
            ram_size <= MAX_RAM,
        ensures
            r.wf(),
            r.cpu.pc == DRAM_BASE,
            r.cpu.xlen == Xlen::Bit64,
            r.cpu.mmu.mem.ram@ == Seq::new(ram_size as nat, |i: int| 0u8),
            r.cpu.privilege == Priv::Machine,
            forall|i: int| 0 <= i < 32 ==> r.cpu.x@[i] == 0,
            !r.cpu.mmu.translation_on(),
    {
        let mut cpu = Cpu::new();
        cpu.init_memory(ram_size);
        cpu.update_pc(DRAM_BASE);
        proof {
            assert(DRAM_BASE & 0xffff_ffff_ffff_ffffu64 == DRAM_BASE) by (bit_vector);
        }
        Emulator { cpu }
    }

    /// Copies a program image to the start of RAM and points the pc at it.
    pub fn setup_program(&mut self, image: &Vec<u8>) -> (r: Result<(), SetupError>)
        requires
            old(self).wf(),
        ensures
            final(self).wf(),
            final(self).cpu.xlen == old(self).cpu.xlen,
            r is Ok == (image@.len() <= old(self).cpu.mmu.mem.ram@.len()),
            r is Ok ==> final(self).cpu.mmu.mem.ram@ == splice(old(self).cpu.mmu.mem.ram@, 0, image@)
                && final(self).cpu.pc == DRAM_BASE & xmask(old(self).cpu.xlen),
            r is Err ==> final(self).cpu.mmu.mem.ram@ == old(self).cpu.mmu.mem.ram@,
    {
        if image.len() > self.cpu.mmu.mem.ram.len() {
            return Err(SetupError::ProgramTooLarge);
        }
        self.cpu.mmu.mem.write_ram(DRAM_BASE, image);
        self.cpu.mmu.cache.clear();
        self.cpu.update_pc(DRAM_BASE);
        Ok(())
    }

    /// Attaches a block-device image.
    pub fn setup_filesystem(&mut self, data: Vec<u8>) -> (r: Result<(), SetupError>)
        requires
            old(self).wf(),
        ensures
            final(self).wf(),
            final(self).cpu.xlen == old(self).cpu.xlen,
            r is Ok == (data@.len() <= MAX_DISK),
            r is Ok ==> final(self).cpu.mmu.mem.disk@ == data@,
    {
        if data.len() as u64 > MAX_DISK {
            return Err(SetupError::FilesystemTooLarge);
        }
        self.cpu.mmu.cache.clear();
        self.cpu.mmu.mem.disk = data;
        Ok(())
    }

    /// Attaches a device-tree blob and passes its address to the guest in register a1.
    pub fn setup_dtb(&mut self, data: Vec<u8>) -> (r: Result<(), SetupError>)
        requires
            old(self).wf(),
        ensures
            final(self).wf(),
            final(self).cpu.xlen == old(self).cpu.xlen,
            r is Ok == (data@.len() <= MAX_DTB),
            r is Ok ==> final(self).cpu.mmu.mem.dtb@ == data@ && final(self).cpu.x@[11] == DTB_BASE,
    {
        if data.len() as u64 > MAX_DTB {
            return Err(SetupError::DtbTooLarge);
        }
        self.cpu.mmu.cache.clear();
        self.cpu.mmu.mem.dtb = data;
        self.cpu.write_reg(11, DTB_BASE);
        proof {
            assert(DTB_BASE & 0xffff_ffffu64 == DTB_BASE) by (bit_vector);
            assert(DTB_BASE & 0xffff_ffff_ffff_ffffu64 == DTB_BASE) by (bit_vector);
        }
        Ok(())
    }

    /// Selects the register and address width before execution begins.
    pub fn update_xlen(&mut self, xlen: Xlen)
        requires
            old(self).wf(),
        ensures
            final(self).wf(),
            final(self).cpu.xlen == xlen,
            final(self).cpu.privilege == old(self).cpu.privilege,
            final(self).cpu.mmu.same_mem(&old(self).cpu.mmu),
            forall|i: int| 0 <= i < 32 ==> #[trigger] final(self).cpu.x@[i] == old(self).cpu.x@[i] & xmask(xlen),
            final(self).cpu.pc == old(self).cpu.pc & xmask(xlen),
    {
        self.cpu.update_xlen(xlen);
    }

    /// Turns the translation cache on or off.
    pub fn enable_page_cache(&mut self, enabled: bool)
        requires
            old(self).wf(),
        ensures
            final(self).wf(),
            final(self).cpu.mmu.cache_enabled == enabled,
            final(self).cpu.xlen == old(self).cpu.xlen,
    {
        self.cpu.mmu.enable_page_cache(enabled);
    }

    /// Runs `n` rounds of the step loop, each taking a pending enabled interrupt and then
    /// stepping; returns the number of rounds whose step trapped.
    pub fn run_steps(&mut self, n: u64) -> (r: u64)
        requires
            old(self).wf(),
        ensures
            final(self).wf(),
            final(self).cpu.xlen == old(self).cpu.xlen,
            r <= n,
            exists|trace: Seq<Cpu>, flags: Seq<bool>| {
                &&& trace.len() == n + 1
                &&& flags.len() == n
                &&& trace[0] == old(self).cpu
                &&& trace[n as int] == final(self).cpu
                &&& (forall|k: int| 0 <= k < n ==> #[trigger] round(trace[k], trace[k + 1], flags[k]))
                &&& r == count_true(flags)
            },
    {
        let mut i: u64 = 0;
        let mut traps: u64 = 0;
        let ghost mut trace: Seq<Cpu> = seq![self.cpu];
        let ghost mut flags: Seq<bool> = Seq::empty();
        while i < n
            invariant
                self.wf(),
                self.cpu.xlen == old(self).cpu.xlen,
                traps <= i <= n,
                trace.len() == i + 1,
                flags.len() == i,
                trace[0] == old(self).cpu,
                trace[i as int] == self.cpu,
                forall|k: int| 0 <= k < i ==> #[trigger] round(trace[k], trace[k + 1], flags[k]),
                traps == count_true(flags),
            decreases n - i,
        {
            let ghost a = self.cpu;
            let taken = self.cpu.take_interrupt();
            let ghost mid = self.cpu;
            let t: Option<Trap> = self.cpu.tick();
            proof {
                assert(a.interrupt_rel(&mid, taken) && mid.tick_rel(&self.cpu, t));
                assert(round(a, self.cpu, t is Some));
                let old_trace = trace;
                let old_flags = flags;
                trace = trace.push(self.cpu);
                flags = flags.push(t is Some);
                assert(flags.drop_last() =~= old_flags);
                assert forall|k: int| 0 <= k < i + 1 implies #[trigger] round(trace[k], trace[k + 1], flags[k]) by {
                    if k < i {
                        assert(trace[k] == old_trace[k] && trace[k + 1] == old_trace[k + 1] && flags[k] == old_flags[k]);
                    }
                }
            }
            if t.is_some() {
                traps = traps + 1;
            }
            i = i + 1;
        }
        traps
    }

    /// Hands over the bytes the guest has written to the UART, leaving none behind.
    pub fn take_output(&mut self) -> (r: Vec<u8>)
        requires
            old(self).wf(),
        ensures
            final(self).wf(),
            r@ == old(self).cpu.mmu.mem.uart_out@,
            final(self).cpu.mmu.mem.uart_out@.len() == 0,
            final(self).cpu.xlen == old(self).cpu.xlen,
    {
        let ghost before = self.cpu.mmu;
        let mut out: Vec<u8> = Vec::new();
        std::mem::swap(&mut out, &mut self.cpu.mmu.mem.uart_out);
        proof {
            before.lemma_wf_same_ram(&self.cpu.mmu);
        }
        out
    }

    /// Queues a byte for the guest to read from the UART.
    pub fn push_input(&mut self, b: u8)
        requires
            old(self).wf(),
        ensures
            final(self).wf(),
            final(self).cpu.mmu.mem.uart_in@ == old(self).cpu.mmu.mem.uart_in@.push(b),
            final(self).cpu.xlen == old(self).cpu.xlen,
    {
        let ghost before = self.cpu.mmu;
        self.cpu.mmu.mem.uart_in.push(b);
        proof {
            before.lemma_wf_same_ram(&self.cpu.mmu);
        }
    }
}

} // verus!
