use vstd::prelude::*;
use crate::bytes::{le_bytes, le_value, read_le, write_le, lemma_le_value_bound, lemma_pow256_8, lemma_pow_mono_pub};
use crate::walk::{DRAM_BASE, MAX_RAM};

verus! {

/// Physical base address of the read-only device-tree blob.
pub const DTB_BASE: u64 = 0x1020;

/// Largest device-tree blob the physical map leaves room for.
pub const MAX_DTB: u64 = 0x10_0000;

/// Physical base address of the UART registers.
pub const UART_BASE: u64 = 0x1000_0000;

/// Size of the UART register window.
pub const UART_SIZE: u64 = 0x100;

/// Physical base address of the block-device image.
pub const DISK_BASE: u64 = 0x4000_0000;

/// Largest block-device image the physical map leaves room for.
pub const MAX_DISK: u64 = 0x4000_0000;

/// The region that a physical access falls in.
#[derive(Clone, Copy, Debug, PartialEq, Eq, Structural)]
pub enum Region {
    Ram,
    Dtb,
    Uart,
    Disk,
    Unmapped,
}

/// Physical memory: RAM and the memory-mapped devices.
pub struct PhysMem {
    pub ram: Vec<u8>,
    pub dtb: Vec<u8>,
    pub disk: Vec<u8>,
    /// Bytes waiting to be read by the guest from the UART.
    pub uart_in: Vec<u8>,
    /// Bytes the guest has written to the UART.
    pub uart_out: Vec<u8>,
}

/// Whether `[a, a + n)` lies inside `[base, base + len)`.
pub open spec fn within(a: int, n: int, base: int, len: int) -> bool {
    base <= a && a + n <= base + len
}

/// `s` with `s[off..off + n]` replaced by the `n` low-order bytes of `v`.
pub open spec fn splice_le(s: Seq<u8>, off: int, n: nat, v: u64) -> Seq<u8> {
    s.subrange(0, off) + le_bytes(v as nat, n) + s.subrange(off + n, s.len() as int)
}

/// `s` with `s[off..off + d.len()]` replaced by `d`.
pub open spec fn splice(s: Seq<u8>, off: int, d: Seq<u8>) -> Seq<u8> {
    s.subrange(0, off) + d + s.subrange(off + d.len(), s.len() as int)
}

/// How a read of `n` bytes at `paddr` changes memory: only UART input can be consumed.
pub open spec fn read_effect(m: &PhysMem, m2: &PhysMem, paddr: u64, n: u64) -> bool {
    &&& m2.ram@ == m.ram@
    &&& m2.dtb@ == m.dtb@
    &&& m2.disk@ == m.disk@
    &&& m2.uart_out@ == m.uart_out@
    &&& m2.uart_in@ == if m.read_pops(paddr, n) {
        m.uart_in@.drop_first()
    } else {
        m.uart_in@
    }
}

/// How an accepted write of the `n` low-order bytes of `v` at `paddr` changes memory.
pub open spec fn write_effect(m: &PhysMem, m2: &PhysMem, paddr: u64, n: u64, v: u64) -> bool {
    &&& m2.ram@ == if m.region_spec(paddr, n) == Region::Ram {
        splice_le(m.ram@, paddr - DRAM_BASE, n as nat, v)
    } else {
        m.ram@
    }
    &&& m2.disk@ == if m.region_spec(paddr, n) == Region::Disk {
        splice_le(m.disk@, paddr - DISK_BASE, n as nat, v)
    } else {
        m.disk@
    }
    &&& m2.uart_out@ == if m.region_spec(paddr, n) == Region::Uart && paddr == UART_BASE {
        m.uart_out@.push((v % 256) as u8)
    } else {
        m.uart_out@
    }
    &&& m2.dtb@ == m.dtb@
    &&& m2.uart_in@ == m.uart_in@
}

fn within_exec(a: u64, n: u64, base: u64, len: u64) -> (r: bool)
    ensures
        r == within(a as int, n as int, base as int, len as int),
{
    a >= base && a - base <= len && n <= len - (a - base)
}

impl PhysMem {
    pub open spec fn wf(&self) -> bool {
        &&& self.ram@.len() <= MAX_RAM
        &&& self.dtb@.len() <= MAX_DTB
        &&& self.disk@.len() <= MAX_DISK
    }

    /// The region that `n` bytes at `paddr` fall in; no two regions overlap.
    pub open spec fn region_spec(&self, paddr: u64, n: u64) -> Region {
        if within(paddr as int, n as int, DRAM_BASE as int, self.ram@.len() as int) {
            Region::Ram
        } else if within(paddr as int, n as int, DTB_BASE as int, self.dtb@.len() as int) {
            Region::Dtb
        } else if within(paddr as int, n as int, UART_BASE as int, UART_SIZE as int) {
            Region::Uart
        } else if within(paddr as int, n as int, DISK_BASE as int, self.disk@.len() as int) {
            Region::Disk
        } else {
            Region::Unmapped
        }
    }

    /// What the UART returns for a read at register offset `off`.
    pub open spec fn uart_read_spec(&self, off: int) -> u64 {
        if off == 0 {
            if self.uart_in@.len() > 0 {
                self.uart_in@[0] as u64
            } else {
                0
            }
        } else if off == 5 {
            if self.uart_in@.len() > 0 {
                0x61
            } else {
                0x60
            }
        } else {
            0
        }
    }

    /// The value a read of `n` bytes at `paddr` returns, or `None` when nothing is mapped there.
    pub open spec fn read_spec(&self, paddr: u64, n: u64) -> Option<u64> {
        match self.region_spec(paddr, n) {
            Region::Ram => Some(
                le_value(self.ram@.subrange(paddr - DRAM_BASE, paddr - DRAM_BASE + n)) as u64,
            ),
            Region::Dtb => Some(
                le_value(self.dtb@.subrange(paddr - DTB_BASE, paddr - DTB_BASE + n)) as u64,
            ),
            Region::Uart => Some(self.uart_read_spec(paddr - UART_BASE)),
            Region::Disk => Some(
                le_value(self.disk@.subrange(paddr - DISK_BASE, paddr - DISK_BASE + n)) as u64,
            ),
            Region::Unmapped => None,
        }
    }

    /// Whether a read of `n` bytes at `paddr` consumes a byte of UART input.
    pub open spec fn read_pops(&self, paddr: u64, n: u64) -> bool {
        self.region_spec(paddr, n) == Region::Uart && paddr == UART_BASE && self.uart_in@.len() > 0
    }

    /// Whether a write of `n` bytes at `paddr` is accepted: the device tree is read-only.
    pub open spec fn writable(&self, paddr: u64, n: u64) -> bool {
        let r = self.region_spec(paddr, n);
        r == Region::Ram || r == Region::Uart || r == Region::Disk
    }

    /// A memory of `ram_size` zeroed bytes and no devices attached.
    pub fn new(ram_size: u64) -> (r: PhysMem)
        requires
            ram_size <= MAX_RAM,
        ensures
            r.wf(),
            r.ram@ == Seq::new(ram_size as nat, |i: int| 0u8),
            r.dtb@.len() == 0,
            r.disk@.len() == 0,
            r.uart_in@.len() == 0,
            r.uart_out@.len() == 0,
    {
        let ram = vec![0u8; ram_size as usize];
        proof {
            assert(ram@ =~= Seq::new(ram_size as nat, |i: int| 0u8));
        }
        PhysMem { ram, dtb: Vec::new(), disk: Vec::new(), uart_in: Vec::new(), uart_out: Vec::new() }
    }

    pub fn region(&self, paddr: u64, n: u64) -> (r: Region)
        ensures
            r == self.region_spec(paddr, n),
    {
        if within_exec(paddr, n, DRAM_BASE, self.ram.len() as u64) {
            Region::Ram
        } else if within_exec(paddr, n, DTB_BASE, self.dtb.len() as u64) {
            Region::Dtb
        } else if within_exec(paddr, n, UART_BASE, UART_SIZE) {
            Region::Uart
        } else if within_exec(paddr, n, DISK_BASE, self.disk.len() as u64) {
            Region::Disk
        } else {
            Region::Unmapped
        }
    }

    /// Reads `n` bytes at physical address `paddr`, little-endian.
    pub fn read(&mut self, paddr: u64, n: u64) -> (r: Option<u64>)
        requires
            old(self).wf(),
            1 <= n <= 8,
        ensures
            final(self).wf(),
            r == old(self).read_spec(paddr, n),
            read_effect(old(self), final(self), paddr, n),
    {
        proof {
            lemma_pow256_8();
        }
        match self.region(paddr, n) {
            Region::Ram => {
                proof {
                    lemma_le_value_bound(self.ram@.subrange(paddr - DRAM_BASE, paddr - DRAM_BASE + n));
                    lemma_pow_mono_pub(n as nat, 8);
                }
                Some(read_le(&self.ram, (paddr - DRAM_BASE) as usize, n as usize))
            },
            Region::Dtb => {
                proof {
                    lemma_le_value_bound(self.dtb@.subrange(paddr - DTB_BASE, paddr - DTB_BASE + n));
                    lemma_pow_mono_pub(n as nat, 8);
                }
                Some(read_le(&self.dtb, (paddr - DTB_BASE) as usize, n as usize))
            },
            Region::Disk => {
                proof {
                    lemma_le_value_bound(self.disk@.subrange(paddr - DISK_BASE, paddr - DISK_BASE + n));
                    lemma_pow_mono_pub(n as nat, 8);
                }
                Some(read_le(&self.disk, (paddr - DISK_BASE) as usize, n as usize))
            },
            Region::Uart => {
                let off = paddr - UART_BASE;
                if off == 0 {
                    if self.uart_in.len() > 0 {
                        let b = self.uart_in.remove(0);
                        proof {
                            assert(self.uart_in@ =~= old(self).uart_in@.drop_first());
                        }
                        Some(b as u64)
                    } else {
                        Some(0)
                    }
                } else if off == 5 {
                    if self.uart_in.len() > 0 {
                        Some(0x61)
                    } else {
                        Some(0x60)
                    }
                } else {
                    Some(0)
                }
            },
            Region::Unmapped => None,
        }
    }

    /// Writes the `n` low-order bytes of `v` at physical address `paddr`.
    /// Returns false, changing nothing, where the address is unmapped or read-only.
    pub fn write(&mut self, paddr: u64, n: u64, v: u64) -> (r: bool)
        requires
            old(self).wf(),
            1 <= n <= 8,
        ensures
            final(self).wf(),
            r == old(self).writable(paddr, n),
            r ==> write_effect(old(self), final(self), paddr, n, v),
            !r ==> *final(self) == *old(self),
    {
        proof {
            crate::bytes::lemma_le_bytes_len(v as nat, n as nat);
        }
        match self.region(paddr, n) {
            Region::Ram => {
                write_le(&mut self.ram, (paddr - DRAM_BASE) as usize, n as usize, v);
                true
            },
            Region::Disk => {
                write_le(&mut self.disk, (paddr - DISK_BASE) as usize, n as usize, v);
                true
            },
            Region::Uart => {
                if paddr == UART_BASE {
                    self.uart_out.push((v % 256) as u8);
                }
                true
            },
            Region::Dtb => false,
            Region::Unmapped => false,
        }
    }

    /// Copies `data` into RAM at physical address `paddr`.
    /// Returns false, changing nothing, where the range does not lie in RAM.
    pub fn write_ram(&mut self, paddr: u64, data: &Vec<u8>) -> (r: bool)
        requires
            old(self).wf(),
        ensures
            final(self).wf(),
            r == within(paddr as int, data@.len() as int, DRAM_BASE as int, old(self).ram@.len() as int),
            final(self).ram@ == if r {
                splice(old(self).ram@, paddr - DRAM_BASE, data@)
            } else {
                old(self).ram@
            },
            final(self).dtb@ == old(self).dtb@,
            final(self).disk@ == old(self).disk@,
            final(self).uart_in@ == old(self).uart_in@,
            final(self).uart_out@ == old(self).uart_out@,
    {
        if !within_exec(paddr, data.len() as u64, DRAM_BASE, self.ram.len() as u64) {
            return false;
        }
        let off = (paddr - DRAM_BASE) as usize;
        let mut i: usize = 0;
        while i < data.len()
            invariant
                0 <= i <= data@.len(),
                off + data@.len() <= self.ram@.len(),
                self.ram@.len() <= MAX_RAM,
                self.ram@.len() == old(self).ram@.len(),
                self.dtb == old(self).dtb,
                self.disk == old(self).disk,
                self.uart_in == old(self).uart_in,
                self.uart_out == old(self).uart_out,
                forall|j: int| 0 <= j < off ==> self.ram@[j] == old(self).ram@[j],
                forall|j: int| off + data@.len() <= j < self.ram@.len() ==> self.ram@[j] == old(self).ram@[j],
                forall|j: int| 0 <= j < i ==> self.ram@[off + j] == data@[j],
            decreases data@.len() - i,
        {
            self.ram.set(off + i, data[i]);
            i = i + 1;
        }
        proof {
            assert(self.ram@ =~= splice(old(self).ram@, off as int, data@));
        }
        true
    }

    /// The `n` bytes of RAM at physical address `paddr`, or `None` where the range does not
    /// lie in RAM.
    pub fn read_ram(&self, paddr: u64, n: u64) -> (r: Option<Vec<u8>>)
        requires
            self.wf(),
        ensures
            r is Some == within(paddr as int, n as int, DRAM_BASE as int, self.ram@.len() as int),
            r is Some ==> r->0@ == self.ram@.subrange(paddr - DRAM_BASE, paddr - DRAM_BASE + n),
    {
        if !within_exec(paddr, n, DRAM_BASE, self.ram.len() as u64) {
            return None;
        }
        let off = (paddr - DRAM_BASE) as usize;
        let mut out: Vec<u8> = Vec::new();
        let nn = n as usize;
        let mut i: usize = 0;
        while i < nn
            invariant
                0 <= i <= n,
                nn == n,
                self.wf(),
                off + n <= self.ram@.len(),
                out@ == self.ram@.subrange(off as int, off + i),
            decreases n - i,
        {
            out.push(self.ram[off + i]);
            i = i + 1;
            proof {
                assert(out@ =~= self.ram@.subrange(off as int, off + i));
            }
        }
        Some(out)
    }
}

/// Writing bytes into RAM and reading the same range back returns those bytes, and
/// leaves the size of RAM as it was.
pub proof fn lemma_ram_round_trip(ram: Seq<u8>, off: int, data: Seq<u8>)
    requires
        0 <= off,
        off + data.len() <= ram.len(),
    ensures
        splice(ram, off, data).len() == ram.len(),
        splice(ram, off, data).subrange(off, off + data.len()) == data,
{
    assert(splice(ram, off, data).subrange(off, off + data.len()) =~= data);
}

} // verus!
