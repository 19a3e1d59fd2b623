use vstd::prelude::*;
use crate::memory::{PhysMem, Region, read_effect, write_effect};
use crate::regs::{Xlen, xmask, mask_of};
use crate::trap::{Access, Priv, Trap, TrapCause, page_fault, page_fault_spec};
use crate::walk::{walk, walk_exec, MAX_RAM};

verus! {

/// Number of entries the translation cache holds before it is emptied.
pub const CACHE_CAPACITY: usize = 256;

/// A remembered translation: virtual page `vpn`, accessed as `access` at `privilege`
/// with the given supervisor-user-access bit, maps to physical page `ppn`.
#[derive(Clone, Copy, Debug, PartialEq, Eq, Structural)]
pub struct CacheEntry {
    pub vpn: u64,
    pub access: Access,
    pub privilege: Priv,
    pub sum: bool,
    pub ppn: u64,
}

/// The memory-management unit: address translation over physical memory.
pub struct Mmu {
    pub xlen: Xlen,
    pub mem: PhysMem,
    /// The translation-root register.
    pub satp: u64,
    /// Privilege at which loads, stores and fetches are translated.
    pub privilege: Priv,
    /// Whether supervisor accesses to user pages are allowed.
    pub sum: bool,
    pub cache_enabled: bool,
    pub cache: Vec<CacheEntry>,
}

/// Where a fetch may read instructions from: memory, not device registers.
pub open spec fn fetchable(r: Region) -> bool {
    r == Region::Ram || r == Region::Dtb || r == Region::Disk
}

impl Mmu {
    /// A cached entry agrees with what a walk of the current page table gives.
    pub open spec fn entry_agrees(&self, e: CacheEntry) -> bool {
        walk(self.mem.ram@, self.xlen, self.satp, e.vpn, e.access, e.privilege, e.sum) == Some(e.ppn)
    }

    pub open spec fn wf(&self) -> bool {
        &&& self.mem.wf()
        &&& self.cache@.len() <= CACHE_CAPACITY
        &&& !self.cache_enabled ==> self.cache@.len() == 0
        &&& forall|i: int| 0 <= i < self.cache@.len() ==> #[trigger] self.entry_agrees(self.cache@[i])
    }

    /// Everything but memory contents and the translation cache.
    pub open spec fn same_config(&self, o: &Mmu) -> bool {
        &&& self.xlen == o.xlen
        &&& self.satp == o.satp
        &&& self.privilege == o.privilege
        &&& self.sum == o.sum
        &&& self.cache_enabled == o.cache_enabled
    }

    /// Whether addresses are translated: outside machine mode, with a paging mode selected
    /// in the translation-root register (Sv32 for 32-bit, Sv39 for 64-bit).
    pub open spec fn translation_on(&self) -> bool {
        self.privilege != Priv::Machine && match self.xlen {
            Xlen::Bit32 => (self.satp >> 31u64) & 1 == 1,
            Xlen::Bit64 => (self.satp >> 60u64) == 8,
        }
    }

    /// The physical address that `vaddr` translates to, or the page fault.
    pub open spec fn translate_spec(&self, vaddr: u64, access: Access) -> Result<u64, Trap> {
        if !self.translation_on() {
            Ok(vaddr)
        } else {
            match walk(self.mem.ram@, self.xlen, self.satp, vaddr >> 12u64, access, self.privilege, self.sum) {
                Some(ppn) => Ok((ppn << 12u64) | (vaddr & 0xfff)),
                None => Err(Trap { cause: page_fault_spec(access), tval: vaddr }),
            }
        }
    }

    /// The physical address a load of `width` bytes at `vaddr` reads, or its trap.
    pub open spec fn load_target(&self, vaddr: u64, width: u64) -> Result<u64, Trap> {
        if vaddr % width != 0 {
            Err(Trap { cause: TrapCause::LoadAddressMisaligned, tval: vaddr })
        } else {
            match self.translate_spec(vaddr, Access::Load) {
                Err(t) => Err(t),
                Ok(p) => if self.mem.region_spec(p, width) == Region::Unmapped {
                    Err(Trap { cause: TrapCause::LoadAccessFault, tval: vaddr })
                } else {
                    Ok(p)
                },
            }
        }
    }

    /// What a load of `width` bytes at `vaddr` returns.
    pub open spec fn load_spec(&self, vaddr: u64, width: u64) -> Result<u64, Trap> {
        match self.load_target(vaddr, width) {
            Err(t) => Err(t),
            Ok(p) => Ok(self.mem.read_spec(p, width)->0),
        }
    }

    /// The physical address a store of `width` bytes at `vaddr` writes, or its trap.
    pub open spec fn store_target(&self, vaddr: u64, width: u64) -> Result<u64, Trap> {
        if vaddr % width != 0 {
            Err(Trap { cause: TrapCause::StoreAddressMisaligned, tval: vaddr })
        } else {
            match self.translate_spec(vaddr, Access::Store) {
                Err(t) => Err(t),
                Ok(p) => if !self.mem.writable(p, width) {
                    Err(Trap { cause: TrapCause::StoreAccessFault, tval: vaddr })
                } else {
                    Ok(p)
                },
            }
        }
    }

    /// The halfword an instruction fetch reads at `vaddr`, or its trap.
    pub open spec fn fetch_half_spec(&self, vaddr: u64) -> Result<u64, Trap> {
        match self.translate_spec(vaddr, Access::Fetch) {
            Err(t) => Err(t),
            Ok(p) => if fetchable(self.mem.region_spec(p, 2)) {
                Ok(self.mem.read_spec(p, 2)->0)
            } else {
                Err(Trap { cause: TrapCause::InstructionAccessFault, tval: vaddr })
            },
        }
    }

    /// The instruction word fetched at `vaddr`: one halfword for a compressed
    /// instruction, two for a standard one.
    pub open spec fn fetch_spec(&self, vaddr: u64) -> Result<u32, Trap> {
        if vaddr % 2 != 0 {
            Err(Trap { cause: TrapCause::InstructionAddressMisaligned, tval: vaddr })
        } else {
            match self.fetch_half_spec(vaddr) {
                Err(t) => Err(t),
                Ok(lo) => if lo & 3 != 3 {
                    Ok(lo as u32)
                } else {
                    match self.fetch_half_spec(((vaddr as int + 2) % (xmask(self.xlen) as int + 1)) as u64) {
                        Err(t) => Err(t),
                        Ok(hi) => Ok(#[verifier::truncate] ((lo | (hi << 16u64)) as u32)),
                    }
                }
            }
        }
    }

    /// An MMU over `ram_size` bytes of zeroed RAM, in machine mode with translation off and
    /// the translation cache disabled.
    pub fn new(xlen: Xlen, ram_size: u64) -> (r: Mmu)
        requires
            ram_size <= MAX_RAM,
        ensures
            r.wf(),
            r.xlen == xlen,
            r.mem.ram@ == Seq::new(ram_size as nat, |i: int| 0u8),
            r.mem.dtb@.len() == 0,
            r.mem.disk@.len() == 0,
            r.mem.uart_in@.len() == 0,
            r.mem.uart_out@.len() == 0,
            r.satp == 0,
            r.privilege == Priv::Machine,
            !r.sum,
            !r.cache_enabled,
    {
        Mmu {
            xlen,
            mem: PhysMem::new(ram_size),
            satp: 0,
            privilege: Priv::Machine,
            sum: false,
            cache_enabled: false,
            cache: Vec::new(),
        }
    }

    fn translation_on_exec(&self) -> (r: bool)
        ensures
            r == self.translation_on(),
    {
        self.privilege != Priv::Machine && match self.xlen {
            Xlen::Bit32 => (self.satp >> 31u64) & 1 == 1,
            Xlen::Bit64 => (self.satp >> 60u64) == 8,
        }
    }

    /// Translates `vaddr` for `access`, consulting and filling the translation cache when
    /// it is enabled. The result is the same whether or not the cache is enabled.
    pub fn translate(&mut self, vaddr: u64, access: Access) -> (r: Result<u64, Trap>)
        requires
            old(self).wf(),
        ensures
            final(self).wf(),
            final(self).mem == old(self).mem,
            final(self).same_config(old(self)),
            r == old(self).translate_spec(vaddr, access),
    {
        if !self.translation_on_exec() {
            return Ok(vaddr);
        }
        let vpn = vaddr >> 12u64;
        if self.cache_enabled {
            let mut i: usize = 0;
            while i < self.cache.len()
                invariant
                    self.wf(),
                    *self == *old(self),
                    self.translation_on(),
                    vpn == vaddr >> 12u64,
                    0 <= i <= self.cache@.len(),
                decreases self.cache@.len() - i,
            {
                let e = self.cache[i];
                if e.vpn == vpn && e.access == access && e.privilege == self.privilege && e.sum == self.sum {
                    proof {
                        assert(self.entry_agrees(self.cache@[i as int]));
                    }
                    return Ok((e.ppn << 12u64) | (vaddr & 0xfff));
                }
                i = i + 1;
            }
        }
        match walk_exec(&self.mem.ram, self.xlen, self.satp, vpn, access, self.privilege, self.sum) {
            Some(ppn) => {
                if self.cache_enabled {
                    if self.cache.len() >= CACHE_CAPACITY {
                        self.cache.clear();
                    }
                    let e = CacheEntry { vpn, access, privilege: self.privilege, sum: self.sum, ppn };
                    self.cache.push(e);
                    proof {
                        assert forall|j: int| 0 <= j < self.cache@.len() implies #[trigger] self.entry_agrees(self.cache@[j]) by {
                            if j < self.cache@.len() - 1 {
                                assert(old(self).entry_agrees(old(self).cache@[j]));
                            }
                        }
                    }
                }
                Ok((ppn << 12u64) | (vaddr & 0xfff))
            },
            None => Err(Trap { cause: page_fault(access), tval: vaddr }),
        }
    }

    /// Whether `o` holds the same memory contents as `self`.
    pub open spec fn same_mem(&self, o: &Mmu) -> bool {
        &&& self.mem.ram@ == o.mem.ram@
        &&& self.mem.dtb@ == o.mem.dtb@
        &&& self.mem.disk@ == o.mem.disk@
        &&& self.mem.uart_in@ == o.mem.uart_in@
        &&& self.mem.uart_out@ == o.mem.uart_out@
    }

    /// Memory changes that leave RAM as it was keep the translation cache sound.
    pub proof fn lemma_wf_same_ram(&self, b: &Mmu)
        requires
            self.wf(),
            b.mem.wf(),
            b.mem.ram@ == self.mem.ram@,
            b.cache@ == self.cache@,
            b.same_config(self),
        ensures
            b.wf(),
    {
        assert forall|i: int| 0 <= i < b.cache@.len() implies #[trigger] b.entry_agrees(b.cache@[i]) by {
            assert(self.entry_agrees(self.cache@[i]));
        }
    }

    /// Loads `width` bytes at virtual address `vaddr`, little-endian.
    pub fn load_bytes(&mut self, vaddr: u64, width: u64) -> (r: Result<u64, Trap>)
        requires
            old(self).wf(),
            width == 1 || width == 2 || width == 4 || width == 8,
        ensures
            final(self).wf(),
            final(self).same_config(old(self)),
            r == old(self).load_spec(vaddr, width),
            match old(self).load_target(vaddr, width) {
                Ok(p) => read_effect(&old(self).mem, &final(self).mem, p, width),
                Err(_) => final(self).same_mem(old(self)),
            },
    {
        if vaddr % width != 0 {
            return Err(Trap { cause: TrapCause::LoadAddressMisaligned, tval: vaddr });
        }
        let p = match self.translate(vaddr, Access::Load) {
            Ok(p) => p,
            Err(t) => {
                return Err(t);
            },
        };
        let ghost before = *self;
        let v = self.mem.read(p, width);
        proof {
            before.lemma_wf_same_ram(self);
        }
        match v {
            Some(v) => Ok(v),
            None => Err(Trap { cause: TrapCause::LoadAccessFault, tval: vaddr }),
        }
    }

    /// Stores the `width` low-order bytes of `value` at virtual address `vaddr`. A store
    /// that reaches RAM empties the translation cache, since it may change a page table.
    pub fn store_bytes(&mut self, vaddr: u64, value: u64, width: u64) -> (r: Result<(), Trap>)
        requires
            old(self).wf(),
            width == 1 || width == 2 || width == 4 || width == 8,
        ensures
            final(self).wf(),
            final(self).same_config(old(self)),
            match old(self).store_target(vaddr, width) {
                Ok(p) => r == Ok::<(), Trap>(()) && write_effect(&old(self).mem, &final(self).mem, p, width, value),
                Err(t) => r == Err::<(), Trap>(t) && final(self).same_mem(old(self)),
            },
    {
        if vaddr % width != 0 {
            return Err(Trap { cause: TrapCause::StoreAddressMisaligned, tval: vaddr });
        }
        let p = match self.translate(vaddr, Access::Store) {
            Ok(p) => p,
            Err(t) => {
                return Err(t);
            },
        };
        let ghost before = *self;
        let is_ram = self.mem.region(p, width) == Region::Ram;
        if !self.mem.write(p, width, value) {
            return Err(Trap { cause: TrapCause::StoreAccessFault, tval: vaddr });
        }
        if is_ram {
            self.cache.clear();
        } else {
            proof {
                before.lemma_wf_same_ram(self);
            }
        }
        Ok(())
    }

    fn fetch_half(&mut self, vaddr: u64) -> (r: Result<u64, Trap>)
        requires
            old(self).wf(),
        ensures
            final(self).wf(),
            final(self).same_config(old(self)),
            final(self).same_mem(old(self)),
            r == old(self).fetch_half_spec(vaddr),
    {
        let p = match self.translate(vaddr, Access::Fetch) {
            Ok(p) => p,
            Err(t) => {
                return Err(t);
            },
        };
        let region = self.mem.region(p, 2);
        if region != Region::Ram && region != Region::Dtb && region != Region::Disk {
            return Err(Trap { cause: TrapCause::InstructionAccessFault, tval: vaddr });
        }
        let ghost before = *self;
        let v = self.mem.read(p, 2);
        proof {
            before.lemma_wf_same_ram(self);
        }
        Ok(v.unwrap())
    }

    /// Fetches the instruction word at virtual address `vaddr`.
    pub fn fetch(&mut self, vaddr: u64) -> (r: Result<u32, Trap>)
        requires
            old(self).wf(),
            vaddr <= xmask(old(self).xlen),
        ensures
            final(self).wf(),
            final(self).same_config(old(self)),
            final(self).same_mem(old(self)),
            r == old(self).fetch_spec(vaddr),
    {
        if vaddr % 2 != 0 {
            return Err(Trap { cause: TrapCause::InstructionAddressMisaligned, tval: vaddr });
        }
        let lo = match self.fetch_half(vaddr) {
            Ok(v) => v,
            Err(t) => {
                return Err(t);
            },
        };
        if lo & 3 != 3 {
            return Ok(#[verifier::truncate] (lo as u32));
        }
        let mask = mask_of(self.xlen);
        let next = if vaddr > mask - 2 {
            vaddr - (mask - 1)
        } else {
            vaddr + 2
        };
        proof {
            let m = mask as int + 1;
            if vaddr > mask - 2 {
                vstd::arithmetic::div_mod::lemma_mod_add_multiples_vanish(vaddr - (mask - 1), m);
                vstd::arithmetic::div_mod::lemma_small_mod((vaddr - (mask - 1)) as nat, m as nat);
            } else {
                vstd::arithmetic::div_mod::lemma_small_mod((vaddr + 2) as nat, m as nat);
            }
            assert(next == ((vaddr as int + 2) % (xmask(self.xlen) as int + 1)) as u64);
        }
        match self.fetch_half(next) {
            Ok(hi) => Ok(#[verifier::truncate] ((lo | (hi << 16u64)) as u32)),
            Err(t) => Err(t),
        }
    }

    /// Writes the translation-root register. Every cached translation is dropped, so no
    /// mapping of the former root is used afterwards.
    pub fn update_satp(&mut self, satp: u64)
        requires
            old(self).wf(),
        ensures
            final(self).wf(),
            final(self).satp == satp,
            final(self).cache@.len() == 0,
            final(self).mem == old(self).mem,
            final(self).xlen == old(self).xlen,
            final(self).privilege == old(self).privilege,
            final(self).sum == old(self).sum,
            final(self).cache_enabled == old(self).cache_enabled,
    {
        self.satp = satp;
        self.cache.clear();
    }

    /// Sets the privilege and the supervisor-user-access bit that translation uses.
    pub fn update_privilege(&mut self, privilege: Priv, sum: bool)
        requires
            old(self).wf(),
        ensures
            final(self).wf(),
            final(self).privilege == privilege,
            final(self).sum == sum,
            final(self).mem == old(self).mem,
            final(self).xlen == old(self).xlen,
            final(self).satp == old(self).satp,
            final(self).cache_enabled == old(self).cache_enabled,
    {
        let ghost before = *self;
        self.privilege = privilege;
        self.sum = sum;
        proof {
            assert forall|i: int| 0 <= i < self.cache@.len() implies #[trigger] self.entry_agrees(self.cache@[i]) by {
                assert(before.entry_agrees(before.cache@[i]));
            }
        }
    }

    /// Drops every cached translation, as a fence on address translation requires.
    pub fn clear_page_cache(&mut self)
        requires
            old(self).wf(),
        ensures
            final(self).wf(),
            final(self).cache@.len() == 0,
            final(self).mem == old(self).mem,
            final(self).same_config(old(self)),
    {
        self.cache.clear();
    }

    /// Turns the translation cache on or off; it starts empty either way.
    pub fn enable_page_cache(&mut self, enabled: bool)
        requires
            old(self).wf(),
        ensures
            final(self).wf(),
            final(self).cache_enabled == enabled,
            final(self).cache@.len() == 0,
            final(self).mem == old(self).mem,
            final(self).xlen == old(self).xlen,
            final(self).satp == old(self).satp,
            final(self).privilege == old(self).privilege,
            final(self).sum == old(self).sum,
    {
        self.cache_enabled = enabled;
        self.cache.clear();
    }

    /// Selects the register and address width; cached translations are dropped.
    pub fn update_xlen(&mut self, xlen: Xlen)
        requires
            old(self).wf(),
        ensures
            final(self).wf(),
            final(self).xlen == xlen,
            final(self).cache@.len() == 0,
            final(self).mem == old(self).mem,
            final(self).satp == old(self).satp,
            final(self).privilege == old(self).privilege,
            final(self).sum == old(self).sum,
            final(self).cache_enabled == old(self).cache_enabled,
    {
        self.xlen = xlen;
        self.cache.clear();
    }
}

/// Translation does not depend on the translation cache: two well-formed MMUs with the
/// same RAM and configuration translate every address alike, whatever their caches hold
/// and whether or not caching is enabled in either.
pub proof fn lemma_cache_transparent(a: &Mmu, b: &Mmu, vaddr: u64, access: Access)
    requires
        a.wf(),
        b.wf(),
        a.mem.ram@ == b.mem.ram@,
        a.xlen == b.xlen,
        a.satp == b.satp,
        a.privilege == b.privilege,
        a.sum == b.sum,
    ensures
        a.translate_spec(vaddr, access) == b.translate_spec(vaddr, access),
{
}

/// Every translation the cache of a well-formed MMU holds is the one a walk of the page
/// table under the current translation root gives: no stale mapping survives.
pub proof fn lemma_cache_entries_current(m: &Mmu, i: int)
    requires
        m.wf(),
        0 <= i < m.cache@.len(),
    ensures
        walk(m.mem.ram@, m.xlen, m.satp, m.cache@[i].vpn, m.cache@[i].access, m.cache@[i].privilege, m.cache@[i].sum)
            == Some(m.cache@[i].ppn),
{
    assert(m.entry_agrees(m.cache@[i]));
}

} // verus!
