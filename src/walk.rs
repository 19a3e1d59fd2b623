use vstd::prelude::*;
use crate::bytes::{le_value, read_le, lemma_le_value_bound, lemma_pow256_8};
use crate::regs::Xlen;
use crate::trap::{Access, Priv};

verus! {

/// Physical base address of RAM.
pub const DRAM_BASE: u64 = 0x8000_0000;

/// Largest RAM size the physical map leaves room for.
pub const MAX_RAM: u64 = 0x4000_0000;

/// Index of the top page-table level: two levels for Sv32, three for Sv39.
pub open spec fn top_level(xlen: Xlen) -> u64 {
    match xlen {
        Xlen::Bit32 => 1,
        Xlen::Bit64 => 2,
    }
}

/// Size in bytes of one page-table entry.
pub open spec fn pte_size(xlen: Xlen) -> u64 {
    match xlen {
        Xlen::Bit32 => 4,
        Xlen::Bit64 => 8,
    }
}

/// The largest physical page number.
pub open spec fn ppn_max(xlen: Xlen) -> u64 {
    match xlen {
        Xlen::Bit32 => 0x3f_ffff,
        Xlen::Bit64 => 0xfff_ffff_ffff,
    }
}

/// The index into the level-`i` table taken from virtual page number `vpn`.
pub open spec fn vpn_part(xlen: Xlen, vpn: u64, i: u64) -> u64 {
    match xlen {
        Xlen::Bit32 => if i == 0 { vpn & 0x3ff } else { (vpn >> 10u64) & 0x3ff },
        Xlen::Bit64 => if i == 0 { vpn & 0x1ff } else if i == 1 { (vpn >> 9u64) & 0x1ff } else { (vpn >> 18u64) & 0x1ff },
    }
}

/// The page-number bits that a leaf at level `i` takes from the virtual address.
pub open spec fn low_mask(xlen: Xlen, i: u64) -> u64 {
    if i == 0 {
        0
    } else {
        match xlen {
            Xlen::Bit32 => 0x3ff,
            Xlen::Bit64 => if i == 1 { 0x1ff } else { 0x3_ffff },
        }
    }
}

/// The physical page number held in a page-table entry.
pub open spec fn pte_ppn(xlen: Xlen, pte: u64) -> u64 {
    match xlen {
        Xlen::Bit32 => (pte >> 10u64) & 0x3f_ffff,
        Xlen::Bit64 => (pte >> 10u64) & 0xfff_ffff_ffff,
    }
}

/// Flag bit `k` of an entry (V, R, W, X, U, G, A, D for `k` in `0..8`).
pub open spec fn pte_bit(pte: u64, k: u64) -> bool {
    (pte >> k) & 1 == 1
}

/// Whether a leaf entry grants `access` at privilege `p`, with supervisor access to
/// user pages allowed when `sum` is set.
pub open spec fn leaf_allows(pte: u64, access: Access, p: Priv, sum: bool) -> bool {
    let perm = match access {
        Access::Fetch => pte_bit(pte, 3),
        Access::Load => pte_bit(pte, 1),
        Access::Store => pte_bit(pte, 2),
    };
    let priv_ok = match p {
        Priv::User => pte_bit(pte, 4),
        Priv::Supervisor => !pte_bit(pte, 4) || (sum && access != Access::Fetch),
        Priv::Machine => true,
    };
    perm && priv_ok && pte_bit(pte, 6) && (access != Access::Store || pte_bit(pte, 7))
}

/// Physical address of the entry that the walk reads at level `i` of table `table`.
pub open spec fn pte_addr(xlen: Xlen, table: u64, vpn: u64, i: u64) -> int {
    table as int * 4096 + vpn_part(xlen, vpn, i) as int * pte_size(xlen) as int
}

/// Whether `n` bytes at physical address `a` lie in a RAM of `len` bytes.
pub open spec fn in_ram(a: int, n: int, len: int) -> bool {
    DRAM_BASE <= a && a + n <= DRAM_BASE + len
}

/// The entry stored at physical address `a` (which lies in RAM).
pub open spec fn pte_at(ram: Seq<u8>, xlen: Xlen, a: int) -> u64 {
    le_value(ram.subrange(a - DRAM_BASE, a - DRAM_BASE + pte_size(xlen))) as u64
}

/// The page-table walk from level `i` of table `table`: the physical page number that
/// `vpn` maps to, or `None` for a page fault.
pub open spec fn walk_from(
    ram: Seq<u8>,
    xlen: Xlen,
    table: u64,
    vpn: u64,
    i: u64,
    access: Access,
    p: Priv,
    sum: bool,
) -> Option<u64>
    decreases i,
{
    let a = pte_addr(xlen, table, vpn, i);
    if !in_ram(a, pte_size(xlen) as int, ram.len() as int) {
        None
    } else {
        let pte = pte_at(ram, xlen, a);
        if !pte_bit(pte, 0) || (!pte_bit(pte, 1) && pte_bit(pte, 2)) {
            None
        } else if !pte_bit(pte, 1) && !pte_bit(pte, 3) {
            if i == 0 {
                None
            } else {
                walk_from(ram, xlen, pte_ppn(xlen, pte), vpn, (i - 1) as u64, access, p, sum)
            }
        } else if !leaf_allows(pte, access, p, sum) {
            None
        } else if pte_ppn(xlen, pte) & low_mask(xlen, i) != 0 {
            None
        } else {
            Some(pte_ppn(xlen, pte) | (vpn & low_mask(xlen, i)))
        }
    }
}

/// Sv39 requires the upper bits of a virtual address to copy bit 38.
pub open spec fn vpn_canonical(xlen: Xlen, vpn: u64) -> bool {
    match xlen {
        Xlen::Bit32 => true,
        Xlen::Bit64 => (vpn >> 26u64) == 0 || (vpn >> 26u64) == 0x3ff_ffff,
    }
}

/// The root table's page number held in the translation-root register.
pub open spec fn satp_root(xlen: Xlen, satp: u64) -> u64 {
    match xlen {
        Xlen::Bit32 => satp & 0x3f_ffff,
        Xlen::Bit64 => satp & 0xfff_ffff_ffff,
    }
}

/// The full walk for virtual page number `vpn` under translation root `satp`.
pub open spec fn walk(
    ram: Seq<u8>,
    xlen: Xlen,
    satp: u64,
    vpn: u64,
    access: Access,
    p: Priv,
    sum: bool,
) -> Option<u64> {
    if !vpn_canonical(xlen, vpn) {
        None
    } else {
        walk_from(ram, xlen, satp_root(xlen, satp), vpn, top_level(xlen), access, p, sum)
    }
}

proof fn lemma_ppn_bound(xlen: Xlen, pte: u64)
    ensures
        pte_ppn(xlen, pte) <= ppn_max(xlen),
{
    assert((pte >> 10u64) & 0x3f_ffff <= 0x3f_ffff && (pte >> 10u64) & 0xfff_ffff_ffff <= 0xfff_ffff_ffff)
        by (bit_vector);
}

proof fn lemma_vpn_part_bound(xlen: Xlen, vpn: u64, i: u64)
    ensures
        vpn_part(xlen, vpn, i) <= 0x3ff,
{
    assert(vpn & 0x3ff <= 0x3ff && (vpn >> 10u64) & 0x3ff <= 0x3ff && vpn & 0x1ff <= 0x1ff && (vpn >> 9u64) & 0x1ff
        <= 0x1ff && (vpn >> 18u64) & 0x1ff <= 0x1ff) by (bit_vector);
}

fn vpn_part_exec(xlen: Xlen, vpn: u64, i: u64) -> (r: u64)
    ensures
        r == vpn_part(xlen, vpn, i),
        r <= 0x3ff,
{
    proof {
        lemma_vpn_part_bound(xlen, vpn, i);
    }
    match xlen {
        Xlen::Bit32 => if i == 0 { vpn & 0x3ff } else { (vpn >> 10u64) & 0x3ff },
        Xlen::Bit64 => if i == 0 { vpn & 0x1ff } else if i == 1 { (vpn >> 9u64) & 0x1ff } else { (vpn >> 18u64) & 0x1ff },
    }
}

fn low_mask_exec(xlen: Xlen, i: u64) -> (r: u64)
    ensures
        r == low_mask(xlen, i),
{
    if i == 0 {
        0
    } else {
        match xlen {
            Xlen::Bit32 => 0x3ff,
            Xlen::Bit64 => if i == 1 { 0x1ff } else { 0x3_ffff },
        }
    }
}

fn pte_ppn_exec(xlen: Xlen, pte: u64) -> (r: u64)
    ensures
        r == pte_ppn(xlen, pte),
        r <= ppn_max(xlen),
{
    proof {
        lemma_ppn_bound(xlen, pte);
    }
    match xlen {
        Xlen::Bit32 => (pte >> 10u64) & 0x3f_ffff,
        Xlen::Bit64 => (pte >> 10u64) & 0xfff_ffff_ffff,
    }
}

fn leaf_allows_exec(pte: u64, access: Access, p: Priv, sum: bool) -> (r: bool)
    ensures
        r == leaf_allows(pte, access, p, sum),
{
    let perm = match access {
        Access::Fetch => (pte >> 3u64) & 1 == 1,
        Access::Load => (pte >> 1u64) & 1 == 1,
        Access::Store => (pte >> 2u64) & 1 == 1,
    };
    let user = (pte >> 4u64) & 1 == 1;
    let priv_ok = match p {
        Priv::User => user,
        Priv::Supervisor => !user || (sum && access != Access::Fetch),
        Priv::Machine => true,
    };
    perm && priv_ok && (pte >> 6u64) & 1 == 1 && (access != Access::Store || (pte >> 7u64) & 1 == 1)
}

/// Walks the page table held in `ram` for virtual page number `vpn`.
pub fn walk_exec(
    ram: &Vec<u8>,
    xlen: Xlen,
    satp: u64,
    vpn: u64,
    access: Access,
    p: Priv,
    sum: bool,
) -> (r: Option<u64>)
    requires
        ram@.len() <= MAX_RAM,
    ensures
        r == walk(ram@, xlen, satp, vpn, access, p, sum),
{
    let (canonical, root, size): (bool, u64, u64) = match xlen {
        Xlen::Bit32 => (true, satp & 0x3f_ffff, 4),
        Xlen::Bit64 => {
            let hi = vpn >> 26u64;
            (hi == 0 || hi == 0x3ff_ffff, satp & 0xfff_ffff_ffff, 8)
        },
    };
    if !canonical {
        return None;
    }
    proof {
        assert(satp & 0x3f_ffff <= 0x3f_ffff && satp & 0xfff_ffff_ffff <= 0xfff_ffff_ffff) by (bit_vector);
    }
    let len = ram.len();
    let mut table: u64 = root;
    let mut i: u64 = match xlen {
        Xlen::Bit32 => 1,
        Xlen::Bit64 => 2,
    };
    loop
        invariant
            i <= top_level(xlen),
            table <= ppn_max(xlen),
            size == pte_size(xlen),
            len == ram@.len(),
            len <= MAX_RAM,
            walk(ram@, xlen, satp, vpn, access, p, sum)
                == walk_from(ram@, xlen, table, vpn, i, access, p, sum),
        decreases i,
    {
        let idx = vpn_part_exec(xlen, vpn, i);
        let a: u64 = table * 4096 + idx * size;
        if a < DRAM_BASE || a - DRAM_BASE > len as u64 || size > len as u64 - (a - DRAM_BASE) {
            return None;
        }
        let pte = read_le(ram, (a - DRAM_BASE) as usize, size as usize);
        proof {
            lemma_le_value_bound(ram@.subrange(a - DRAM_BASE, a - DRAM_BASE + size));
            lemma_pow256_8();
            assert(pte == pte_at(ram@, xlen, a as int));
            assert(pte >> 0u64 == pte) by (bit_vector);
        }
        let valid = pte & 1 == 1;
        let r = (pte >> 1u64) & 1 == 1;
        let w = (pte >> 2u64) & 1 == 1;
        let x = (pte >> 3u64) & 1 == 1;
        if !valid || (!r && w) {
            return None;
        }
        let ppn = pte_ppn_exec(xlen, pte);
        if !r && !x {
            if i == 0 {
                return None;
            }
            table = ppn;
            i = i - 1;
        } else {
            if !leaf_allows_exec(pte, access, p, sum) {
                return None;
            }
            let m = low_mask_exec(xlen, i);
            if ppn & m != 0 {
                return None;
            }
            return Some(ppn | (vpn & m));
        }
    }
}

} // verus!
