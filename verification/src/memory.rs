//! A pool of physical memory that hands out page frames from its top down.
//!
//! The pool stands between the firmware, which reserves the region once, and
//! the code that needs page tables or stacks later. Nothing is ever handed
//! back.

use vstd::prelude::*;

verus! {

/// The highest physical address that an allocation may reach.
pub const MAX_PHYSICAL_ADDRESS: u64 = 0x1_FFFF_FFFF_FFFF;

/// The number of pages of a stack.
pub const STACK_PAGES: usize = 16;

/// A region `[floor, top)` of free physical memory.
#[derive(Clone, Copy, Debug)]
pub struct MemoryPool {
    pub floor: u64,
    pub top: u64,
}

/// The largest multiple of `2^align` that is not above `address`.
pub open spec fn align_down(address: int, align: int) -> int {
    address - address % (vstd::arithmetic::power2::pow2(align as nat) as int)
}

/// Where an allocation of `pages` pages with alignment `2^align` lands in
/// the pool, if it fits: as high as the alignment allows.
pub open spec fn allocation_address(pool: MemoryPool, pages: int, align: int) -> Option<int> {
    let candidate = align_down(pool.top - pages * 4096, align);
    if pages * 4096 <= pool.top - pool.floor && pool.floor <= candidate {
        Some(candidate)
    } else {
        None
    }
}

impl MemoryPool {
    /// The pool's free region lies below the ceiling.
    pub open spec fn wf(self) -> bool {
        self.floor <= self.top <= MAX_PHYSICAL_ADDRESS + 1
    }

    /// A pool over `pages` pages that start at `base`, or `None` if that
    /// region reaches above the ceiling.
    pub fn new(base: u64, pages: u64) -> (pool: Option<MemoryPool>)
        ensures
            pool is Some <==> base + pages * 4096 <= MAX_PHYSICAL_ADDRESS + 1,
            pool is Some ==> pool->0.wf() && pool->0.floor == base && pool->0.top == base + pages
                * 4096,
    {
        if base > MAX_PHYSICAL_ADDRESS + 1 || pages > (MAX_PHYSICAL_ADDRESS + 1 - base) / 4096 {
            return None;
        }
        Some(MemoryPool { floor: base, top: base + pages * 4096 })
    }
}

/// Masking the low `align` bits off an address rounds it down to a
/// multiple of `2^align`.
pub proof fn lemma_mask_aligns_down(address: u64, align: u64, low: u64)
    requires
        align < 64,
        low == (1u64 << align) - 1,
    ensures
        (1u64 << align) == vstd::arithmetic::power2::pow2(align as nat),
        address & !low == align_down(address as int, align as int),
{
    let unit: u64 = 1u64 << align;
    vstd::bits::lemma_u64_pow2_no_overflow(align as nat);
    vstd::bits::lemma_u64_shl_is_mul(1, align);
    vstd::arithmetic::power2::lemma_pow2_pos(align as nat);
    assert(unit == vstd::arithmetic::power2::pow2(align as nat));
    vstd::bits::lemma_u64_low_bits_mask_is_mod(address, align as nat);
    assert(vstd::bits::low_bits_mask(align as nat) == unit - 1);
    assert(address & low == address % unit);
    assert(address & !low == address - (address & low)) by (bit_vector);
}

/// Takes `pages` pages off the top of the pool, at an address that is a
/// multiple of `2^align` (of the page size where `align` is `None`).
///
/// Fails, and leaves the pool as it is, when the pool has no room for them.
pub fn allocate_memory(pool: &mut MemoryPool, pages: usize, align: Option<usize>) -> (result:
    Result<u64, ()>)
    requires
        old(pool).wf(),
        align is Some ==> align->0 < 64,
    ensures
        final(pool).wf(),
        final(pool).floor == old(pool).floor,
        ({
            let shift = if align is Some {
                align->0 as int
            } else {
                12
            };
            match allocation_address(*old(pool), pages as int, shift) {
                Some(address) => {
                    &&& result == Ok::<u64, ()>(address as u64)
                    &&& final(pool).top == address
                    &&& address % (vstd::arithmetic::power2::pow2(shift as nat) as int) == 0
                    &&& address + pages * 4096 <= old(pool).top
                },
                None => result is Err && *final(pool) == *old(pool),
            }
        }),
{
    let shift: u64 = match align {
        Some(a) => a as u64,
        None => 12,
    };
    let pages: u64 = pages as u64;
    if pages > (pool.top - pool.floor) / 4096 {
        return Err(());
    }
    let size: u64 = pages * 4096;
    let unaligned: u64 = pool.top - size;
    proof {
        vstd::bits::lemma_u64_pow2_no_overflow(shift as nat);
        vstd::bits::lemma_u64_shl_is_mul(1, shift);
        vstd::arithmetic::power2::lemma_pow2_pos(shift as nat);
    }
    let low: u64 = (1u64 << shift) - 1;
    let candidate: u64 = unaligned & !low;
    proof {
        lemma_mask_aligns_down(unaligned, shift, low);
        vstd::arithmetic::power2::lemma_pow2_pos(shift as nat);
        let unit = vstd::arithmetic::power2::pow2(shift as nat) as int;
        vstd::arithmetic::div_mod::lemma_fundamental_div_mod(unaligned as int, unit);
        vstd::arithmetic::div_mod::lemma_mod_multiples_basic(unaligned as int / unit, unit);
        assert(candidate == (unaligned as int / unit) * unit) by (nonlinear_arith)
            requires
                candidate == unaligned - unaligned as int % unit,
                unaligned as int == unit * (unaligned as int / unit) + unaligned as int % unit,
        ;
    }
    if candidate < pool.floor {
        return Err(());
    }
    pool.top = candidate;
    Ok(candidate)
}

} // verus!
