//! Cache-geometry description: the per-level cache record, the probe that
//! fills it from CPUID (or from sysctl values handed in on Apple silicon),
//! and the static fallback tables used when no probe answers.
//!
//! The raw machine values come through the trusted boundary in `cpuid`;
//! everything computed from them is verified here against spec functions
//! that restate the decoding rules.  A reading that the decoding cannot
//! represent (a size overflowing `usize`, a fully-associative cache with a
//! zero line size) is treated as a failed probe, so that the caller falls
//! back to the static table instead of faulting.

use vstd::prelude::*;

use crate::cpuid;
use crate::cpuid::AmdCacheRegs;
use crate::cpuid::AssocKind;
use crate::cpuid::CacheLeaf;
use crate::cpuid::LeafType;

verus! {

/// One cache level: size and line size in bytes, ways of associativity,
/// and whether the block planner should prefer a smaller row panel.
#[derive(Default, Debug, Copy, Clone, PartialEq, Eq, Structural)]
pub struct CacheInfo {
    pub small_mc: bool,
    pub associativity: usize,
    pub cache_bytes: usize,
    pub cache_line_bytes: usize,
}

/// The three recognised cache levels; an absent level carries
/// `cache_bytes == 0`.
#[derive(Default, Debug, Copy, Clone, PartialEq, Eq, Structural)]
pub struct CacheLevels {
    pub l1: CacheInfo,
    pub l2: CacheInfo,
    pub l3: CacheInfo,
}

/// The accumulator the Intel leaf walk starts from: empty levels with a
/// 64-byte line, and the small-row-panel preference set.
pub open spec fn sp_intel_initial() -> CacheLevels {
    let c = CacheInfo { small_mc: true, associativity: 0, cache_bytes: 0, cache_line_bytes: 64 };
    CacheLevels { l1: c, l2: c, l3: c }
}

/// A leaf contributes when it describes a data or unified cache of level
/// 1 to 3.
pub open spec fn sp_leaf_applies(leaf: CacheLeaf) -> bool {
    (leaf.leaf_type == LeafType::Data || leaf.leaf_type == LeafType::Unified)
        && 1 <= leaf.level <= 3
}

/// Folding one Intel cache-parameter leaf into the accumulator: the level
/// it names takes the leaf's line size and associativity, and
/// `associativity * sets * line` bytes.  `None` when that product does not
/// fit in `usize`.
pub open spec fn sp_apply_leaf(acc: CacheLevels, leaf: CacheLeaf) -> Option<CacheLevels> {
    if !sp_leaf_applies(leaf) {
        Some(acc)
    } else {
        let ways_x_sets = (leaf.associativity as int) * (leaf.sets as int);
        if ways_x_sets > usize::MAX || ways_x_sets * (leaf.line_bytes as int) > usize::MAX {
            None
        } else {
            let info = CacheInfo {
                small_mc: true,
                associativity: leaf.associativity,
                cache_bytes: (ways_x_sets * (leaf.line_bytes as int)) as usize,
                cache_line_bytes: leaf.line_bytes,
            };
            if leaf.level == 1 {
                Some(CacheLevels { l1: info, ..acc })
            } else if leaf.level == 2 {
                Some(CacheLevels { l2: info, ..acc })
            } else {
                Some(CacheLevels { l3: info, ..acc })
            }
        }
    }
}

/// The Intel walk over all cache-parameter leaves, in order.
pub open spec fn sp_intel_fold(leaves: Seq<CacheLeaf>) -> Option<CacheLevels>
    decreases leaves.len(),
{
    if leaves.len() == 0 {
        Some(sp_intel_initial())
    } else {
        match sp_intel_fold(leaves.drop_last()) {
            None => None,
            Some(acc) => sp_apply_leaf(acc, leaves.last()),
        }
    }
}

proof fn lemma_intel_fold_none_extends(leaves: Seq<CacheLeaf>, j: int)
    requires
        0 <= j <= leaves.len(),
        sp_intel_fold(leaves.take(j)) is None,
    ensures
        sp_intel_fold(leaves) is None,
    decreases leaves.len() - j,
{
    if j < leaves.len() {
        assert(leaves.take(j + 1).drop_last() =~= leaves.take(j));
        assert(sp_intel_fold(leaves.take(j + 1)) is None);
        lemma_intel_fold_none_extends(leaves, j + 1);
    } else {
        assert(leaves.take(j) =~= leaves);
    }
}

/// Cache levels as the Intel cache-parameter leaves describe them, or
/// `None` when a level's size overflows `usize`.
pub fn intel_cache_info(leaves: &Vec<CacheLeaf>) -> (r: Option<CacheLevels>)
    ensures
        r == sp_intel_fold(leaves@),
{
    let c = CacheInfo { small_mc: true, associativity: 0, cache_bytes: 0, cache_line_bytes: 64 };
    let mut acc = CacheLevels { l1: c, l2: c, l3: c };
    let mut i: usize = 0;
    while i < leaves.len()
        invariant
            0 <= i <= leaves@.len(),
            sp_intel_fold(leaves@.take(i as int)) == Some(acc),
        decreases leaves@.len() - i,
    {
        let leaf = leaves[i];
        proof {
            assert(leaves@.take(i + 1).drop_last() =~= leaves@.take(i as int));
            assert(leaves@.take(i + 1).last() == leaf);
        }
        if (matches!(leaf.leaf_type, LeafType::Data | LeafType::Unified)) && leaf.level >= 1
            && leaf.level <= 3 {
            let ways_x_sets = match leaf.associativity.checked_mul(leaf.sets) {
                Some(v) => v,
                None => {
                    proof {
                        lemma_intel_fold_none_extends(leaves@, i + 1);
                    }
                    return None;
                },
            };
            let bytes = match ways_x_sets.checked_mul(leaf.line_bytes) {
                Some(v) => v,
                None => {
                    proof {
                        lemma_intel_fold_none_extends(leaves@, i + 1);
                    }
                    return None;
                },
            };
            let info = CacheInfo {
                small_mc: true,
                associativity: leaf.associativity,
                cache_bytes: bytes,
                cache_line_bytes: leaf.line_bytes,
            };
            if leaf.level == 1 {
                acc.l1 = info;
            } else if leaf.level == 2 {
                acc.l2 = info;
            } else {
                acc.l3 = info;
            }
        }
        i = i + 1;
    }
    proof {
        assert(leaves@.take(i as int) =~= leaves@);
    }
    Some(acc)
}

/// Decoding one AMD cache descriptor, as the L1/L2/L3 leaves report it:
/// an unknown or disabled associativity yields an empty level; otherwise
/// the size is `cache_kb` KiB and the ways are taken from the encoding,
/// with a fully-associative cache counted as one way per line.  `None`
/// when the size overflows `usize` or a fully-associative cache reports a
/// zero line size.
pub open spec fn sp_amd_level(assoc: AssocKind, cache_kb: usize, line_bytes: usize) -> Option<
    CacheInfo,
> {
    match assoc {
        AssocKind::Unknown | AssocKind::Disabled => Some(
            CacheInfo { small_mc: false, associativity: 0, cache_bytes: 0, cache_line_bytes: 64 },
        ),
        _ => {
            if (cache_kb as int) * 1024 > usize::MAX {
                None
            } else {
                let bytes = ((cache_kb as int) * 1024) as usize;
                let ways = match assoc {
                    AssocKind::FullyAssociative => if line_bytes == 0 {
                        None
                    } else {
                        Some((bytes as int / line_bytes as int) as usize)
                    },
                    AssocKind::DirectMapped => Some(1usize),
                    AssocKind::NWay(n) => Some(n as usize),
                    _ => None,
                };
                match ways {
                    None => None,
                    Some(w) => Some(
                        CacheInfo {
                            small_mc: false,
                            associativity: w,
                            cache_bytes: bytes,
                            cache_line_bytes: line_bytes,
                        },
                    ),
                }
            }
        },
    }
}

/// One AMD-described cache level, exactly as `sp_amd_level` states it.
pub fn amd_cache_info(assoc: AssocKind, cache_kb: usize, line_bytes: usize) -> (r: Option<
    CacheInfo,
>)
    ensures
        r == sp_amd_level(assoc, cache_kb, line_bytes),
{
    match assoc {
        AssocKind::Unknown | AssocKind::Disabled => Some(
            CacheInfo { small_mc: false, associativity: 0, cache_bytes: 0, cache_line_bytes: 64 },
        ),
        _ => {
            let bytes = match cache_kb.checked_mul(1024) {
                Some(v) => v,
                None => {
                    return None;
                },
            };
            let ways = match assoc {
                AssocKind::FullyAssociative => {
                    if line_bytes == 0 {
                        return None;
                    }
                    bytes / line_bytes
                },
                AssocKind::DirectMapped => 1,
                AssocKind::NWay(n) => n as usize,
                _ => {
                    return None;
                },
            };
            Some(
                CacheInfo {
                    small_mc: false,
                    associativity: ways,
                    cache_bytes: bytes,
                    cache_line_bytes: line_bytes,
                },
            )
        },
    }
}

/// All three levels from the AMD descriptor registers; the L3 size is
/// reported in 512 KiB units.
pub open spec fn sp_amd_levels(regs: AmdCacheRegs) -> Option<CacheLevels> {
    let l1 = sp_amd_level(regs.l1d_assoc, regs.l1d_size_kb as usize, regs.l1d_line_bytes as usize);
    let l2 = sp_amd_level(regs.l2_assoc, regs.l2_size_kb as usize, regs.l2_line_bytes as usize);
    let l3 = sp_amd_level(
        regs.l3_assoc,
        ((regs.l3_size_512kb as int) * 512) as usize,
        regs.l3_line_bytes as usize,
    );
    if l1 is Some && l2 is Some && l3 is Some {
        Some(CacheLevels { l1: l1->Some_0, l2: l2->Some_0, l3: l3->Some_0 })
    } else {
        None
    }
}

/// Cache levels as the AMD descriptor registers describe them, or `None`
/// when a level cannot be decoded.
pub fn amd_cache_levels(regs: &AmdCacheRegs) -> (r: Option<CacheLevels>)
    ensures
        r == sp_amd_levels(*regs),
{
    let l1 = amd_cache_info(regs.l1d_assoc, regs.l1d_size_kb as usize, regs.l1d_line_bytes as usize);
    let l2 = amd_cache_info(regs.l2_assoc, regs.l2_size_kb as usize, regs.l2_line_bytes as usize);
    let l3 = amd_cache_info(
        regs.l3_assoc,
        (regs.l3_size_512kb as usize) * 512,
        regs.l3_line_bytes as usize,
    );
    match (l1, l2, l3) {
        (Some(a), Some(b), Some(c)) => Some(CacheLevels { l1: a, l2: b, l3: c }),
        _ => None,
    }
}

/// Cache levels on Apple aarch64, from the `hw.l1dcachesize` and
/// `hw.l2dcachesize` readings: the silicon reports per-cluster values, so
/// each is halved; lines are 128 bytes, 8-way, and there is no L3.
pub open spec fn sp_apple_levels(l1d_bytes: usize, l2_bytes: usize) -> CacheLevels {
    CacheLevels {
        l1: CacheInfo {
            small_mc: false,
            associativity: 8,
            cache_bytes: (l1d_bytes / 2) as usize,
            cache_line_bytes: 128,
        },
        l2: CacheInfo {
            small_mc: false,
            associativity: 8,
            cache_bytes: (l2_bytes / 2) as usize,
            cache_line_bytes: 128,
        },
        l3: CacheInfo { small_mc: false, associativity: 8, cache_bytes: 0, cache_line_bytes: 128 },
    }
}

/// Cache levels from the Apple sysctl readings, exactly as
/// `sp_apple_levels` states them.
pub fn apple_cache_levels(l1d_bytes: usize, l2_bytes: usize) -> (r: CacheLevels)
    ensures
        r == sp_apple_levels(l1d_bytes, l2_bytes),
{
    CacheLevels {
        l1: CacheInfo {
            small_mc: false,
            associativity: 8,
            cache_bytes: l1d_bytes / 2,
            cache_line_bytes: 128,
        },
        l2: CacheInfo {
            small_mc: false,
            associativity: 8,
            cache_bytes: l2_bytes / 2,
            cache_line_bytes: 128,
        },
        l3: CacheInfo { small_mc: false, associativity: 8, cache_bytes: 0, cache_line_bytes: 128 },
    }
}

/// The static fallback table for x86: 32 KiB / 256 KiB / 2 MiB with
/// 64-byte lines, 8-way.
pub open spec fn sp_default_levels_x86() -> CacheLevels {
    CacheLevels {
        l1: CacheInfo {
            small_mc: false,
            associativity: 8,
            cache_bytes: 32768,
            cache_line_bytes: 64,
        },
        l2: CacheInfo {
            small_mc: false,
            associativity: 8,
            cache_bytes: 262144,
            cache_line_bytes: 64,
        },
        l3: CacheInfo {
            small_mc: false,
            associativity: 8,
            cache_bytes: 2097152,
            cache_line_bytes: 64,
        },
    }
}

/// The x86 fallback table, exactly as `sp_default_levels_x86` states it.
pub fn default_cache_levels_x86() -> (r: CacheLevels)
    ensures
        r == sp_default_levels_x86(),
{
    CacheLevels {
        l1: CacheInfo {
            small_mc: false,
            associativity: 8,
            cache_bytes: 32768,
            cache_line_bytes: 64,
        },
        l2: CacheInfo {
            small_mc: false,
            associativity: 8,
            cache_bytes: 262144,
            cache_line_bytes: 64,
        },
        l3: CacheInfo {
            small_mc: false,
            associativity: 8,
            cache_bytes: 2097152,
            cache_line_bytes: 64,
        },
    }
}

/// The static fallback table for POWER: 64 KiB / 512 KiB / 4 MiB with
/// 64-byte lines, 8-way.
pub fn default_cache_levels_power() -> (r: CacheLevels)
    ensures
        r.l1 == (CacheInfo {
            small_mc: false,
            associativity: 8,
            cache_bytes: 65536,
            cache_line_bytes: 64,
        }),
        r.l2 == (CacheInfo {
            small_mc: false,
            associativity: 8,
            cache_bytes: 524288,
            cache_line_bytes: 64,
        }),
        r.l3 == (CacheInfo {
            small_mc: false,
            associativity: 8,
            cache_bytes: 4194304,
            cache_line_bytes: 64,
        }),
{
    CacheLevels {
        l1: CacheInfo {
            small_mc: false,
            associativity: 8,
            cache_bytes: 65536,
            cache_line_bytes: 64,
        },
        l2: CacheInfo {
            small_mc: false,
            associativity: 8,
            cache_bytes: 524288,
            cache_line_bytes: 64,
        },
        l3: CacheInfo {
            small_mc: false,
            associativity: 8,
            cache_bytes: 4194304,
            cache_line_bytes: 64,
        },
    }
}

/// The static fallback table for targets without a known profile:
/// 16 KiB / 512 KiB / 1 MiB with 64-byte lines, 8-way.
pub fn default_cache_levels_generic() -> (r: CacheLevels)
    ensures
        r.l1 == (CacheInfo {
            small_mc: false,
            associativity: 8,
            cache_bytes: 16384,
            cache_line_bytes: 64,
        }),
        r.l2 == (CacheInfo {
            small_mc: false,
            associativity: 8,
            cache_bytes: 524288,
            cache_line_bytes: 64,
        }),
        r.l3 == (CacheInfo {
            small_mc: false,
            associativity: 8,
            cache_bytes: 1048576,
            cache_line_bytes: 64,
        }),
{
    CacheLevels {
        l1: CacheInfo {
            small_mc: false,
            associativity: 8,
            cache_bytes: 16384,
            cache_line_bytes: 64,
        },
        l2: CacheInfo {
            small_mc: false,
            associativity: 8,
            cache_bytes: 524288,
            cache_line_bytes: 64,
        },
        l3: CacheInfo {
            small_mc: false,
            associativity: 8,
            cache_bytes: 1048576,
            cache_line_bytes: 64,
        },
    }
}

/// Byte-for-byte equality of two byte vectors.
fn bytes_eq(a: &Vec<u8>, b: &Vec<u8>) -> (r: bool)
    ensures
        r == (a@ == b@),
{
    if a.len() != b.len() {
        return false;
    }
    let mut i: usize = 0;
    while i < a.len()
        invariant
            0 <= i <= a@.len(),
            a@.len() == b@.len(),
            forall|j: int| 0 <= j < i ==> a@[j] == b@[j],
        decreases a@.len() - i,
    {
        if a[i] != b[i] {
            return false;
        }
        i = i + 1;
    }
    proof {
        assert(a@ =~= b@);
    }
    true
}

/// Probe the processor's cache geometry through CPUID: the Intel
/// cache-parameter walk for a GenuineIntel part, the L1/L2/L3 descriptor
/// decoding for an AuthenticAMD part, `None` for anything else or when a
/// reading cannot be decoded.  Which readings come back depends on the
/// machine; whatever they are, an answer is one of the two decodings.
pub fn cache_info() -> (r: Option<CacheLevels>)
    ensures
        r is Some ==> (exists|leaves: Seq<CacheLeaf>| #[trigger] sp_intel_fold(leaves) == r) || (
        exists|regs: AmdCacheRegs| #[trigger] sp_amd_levels(regs) == r),
{
    let vendor = match cpuid::cpu_vendor_bytes() {
        Some(v) => v,
        None => {
            return None;
        },
    };
    // The vendor identification strings, as bytes: "GenuineIntel" and
    // "AuthenticAMD".
    let intel: Vec<u8> = vec![71, 101, 110, 117, 105, 110, 101, 73, 110, 116, 101, 108];
    let amd: Vec<u8> = vec![65, 117, 116, 104, 101, 110, 116, 105, 99, 65, 77, 68];
    if bytes_eq(&vendor, &intel) {
        match cpuid::intel_cache_leaves() {
            Some(leaves) => intel_cache_info(&leaves),
            None => None,
        }
    } else if bytes_eq(&vendor, &amd) {
        match cpuid::amd_cache_regs() {
            Some(regs) => amd_cache_levels(&regs),
            None => None,
        }
    } else {
        None
    }
}

/// The cache geometry the planner works with: the CPUID probe when it
/// answers, the x86 static fallback table otherwise.  Probe failure is
/// never fatal.
pub fn cache_info_or_default() -> (r: CacheLevels)
    ensures
        (exists|leaves: Seq<CacheLeaf>| #[trigger] sp_intel_fold(leaves) == Some(r)) || (
        exists|regs: AmdCacheRegs| #[trigger] sp_amd_levels(regs) == Some(r)) || r
            == sp_default_levels_x86(),
{
    match cache_info() {
        Some(levels) => levels,
        None => default_cache_levels_x86(),
    }
}

} // verus!
