use gemm_common::cache::CacheInfo;
use gemm_common::cache::amd_cache_info;
use gemm_common::cache::amd_cache_levels;
use gemm_common::cache::apple_cache_levels;
use gemm_common::cache::cache_info;
use gemm_common::cache::cache_info_or_default;
use gemm_common::cache::default_cache_levels_generic;
use gemm_common::cache::default_cache_levels_power;
use gemm_common::cache::default_cache_levels_x86;
use gemm_common::cache::intel_cache_info;
use gemm_common::cpuid::AmdCacheRegs;
use gemm_common::cpuid::AssocKind;
use gemm_common::cpuid::CacheLeaf;
use gemm_common::cpuid::LeafType;

fn leaf(
    leaf_type: LeafType,
    level: u8,
    associativity: usize,
    sets: usize,
    line_bytes: usize,
) -> CacheLeaf {
    CacheLeaf { leaf_type, level, associativity, sets, line_bytes }
}

#[test]
fn intel_fold_typical_hierarchy() {
    let leaves = vec![
        leaf(LeafType::Data, 1, 8, 64, 64),
        leaf(LeafType::Instruction, 1, 8, 64, 64),
        leaf(LeafType::Unified, 2, 8, 512, 64),
        leaf(LeafType::Unified, 3, 16, 2048, 64),
        leaf(LeafType::Null, 0, 1, 1, 1),
    ];
    let levels = intel_cache_info(&leaves).unwrap();
    assert_eq!(levels.l1.cache_bytes, 8 * 64 * 64);
    assert_eq!(levels.l1.cache_line_bytes, 64);
    assert_eq!(levels.l1.associativity, 8);
    assert!(levels.l1.small_mc);
    assert_eq!(levels.l2.cache_bytes, 8 * 512 * 64);
    assert_eq!(levels.l3.cache_bytes, 16 * 2048 * 64);
    assert!(levels.l3.small_mc);
}

#[test]
fn intel_fold_ignores_other_leaves() {
    // Instruction caches, level-0 and level-4 leaves leave the
    // accumulator as initialised: empty levels with a 64-byte line.
    let leaves = vec![
        leaf(LeafType::Instruction, 1, 4, 128, 64),
        leaf(LeafType::Data, 0, 4, 128, 64),
        leaf(LeafType::Data, 4, 4, 128, 64),
        leaf(LeafType::Reserved, 2, 4, 128, 64),
    ];
    let levels = intel_cache_info(&leaves).unwrap();
    assert_eq!(levels.l1.cache_bytes, 0);
    assert_eq!(levels.l2.cache_bytes, 0);
    assert_eq!(levels.l3.cache_bytes, 0);
    assert_eq!(levels.l2.cache_line_bytes, 64);
}

#[test]
fn intel_fold_later_leaf_wins() {
    let leaves = vec![
        leaf(LeafType::Data, 1, 8, 64, 64),
        leaf(LeafType::Unified, 1, 4, 32, 128),
    ];
    let levels = intel_cache_info(&leaves).unwrap();
    assert_eq!(levels.l1.cache_bytes, 4 * 32 * 128);
    assert_eq!(levels.l1.cache_line_bytes, 128);
    assert_eq!(levels.l1.associativity, 4);
}

#[test]
fn intel_fold_overflow_is_refused() {
    let leaves = vec![leaf(LeafType::Data, 1, usize::MAX, 2, 64)];
    assert!(intel_cache_info(&leaves).is_none());
}

#[test]
fn amd_level_decodings() {
    let nway = amd_cache_info(AssocKind::NWay(8), 32, 64).unwrap();
    assert_eq!(
        nway,
        CacheInfo { small_mc: false, associativity: 8, cache_bytes: 32768, cache_line_bytes: 64 }
    );

    let direct = amd_cache_info(AssocKind::DirectMapped, 64, 64).unwrap();
    assert_eq!(direct.associativity, 1);
    assert_eq!(direct.cache_bytes, 65536);

    // A fully associative cache counts one way per line.
    let full = amd_cache_info(AssocKind::FullyAssociative, 64, 64).unwrap();
    assert_eq!(full.associativity, 65536 / 64);

    // Unknown or disabled levels come back empty, with the 64-byte
    // placeholder line.
    let unknown = amd_cache_info(AssocKind::Unknown, 64, 128).unwrap();
    assert_eq!(
        unknown,
        CacheInfo { small_mc: false, associativity: 0, cache_bytes: 0, cache_line_bytes: 64 }
    );
    let disabled = amd_cache_info(AssocKind::Disabled, 64, 128).unwrap();
    assert_eq!(disabled.cache_bytes, 0);

    // A fully associative cache with a zero line size cannot be decoded.
    assert!(amd_cache_info(AssocKind::FullyAssociative, 64, 0).is_none());
}

#[test]
fn amd_levels_use_512k_units_for_l3() {
    let regs = AmdCacheRegs {
        l1d_assoc: AssocKind::NWay(8),
        l1d_size_kb: 32,
        l1d_line_bytes: 64,
        l2_assoc: AssocKind::NWay(8),
        l2_size_kb: 512,
        l2_line_bytes: 64,
        l3_assoc: AssocKind::NWay(16),
        l3_size_512kb: 16,
        l3_line_bytes: 64,
    };
    let levels = amd_cache_levels(&regs).unwrap();
    assert_eq!(levels.l1.cache_bytes, 32 * 1024);
    assert_eq!(levels.l2.cache_bytes, 512 * 1024);
    assert_eq!(levels.l3.cache_bytes, 16 * 512 * 1024);
    assert_eq!(levels.l3.associativity, 16);
    assert!(!levels.l1.small_mc);
}

#[test]
fn apple_levels_halve_reported_sizes() {
    let levels = apple_cache_levels(131072, 4194304);
    assert_eq!(levels.l1.cache_bytes, 65536);
    assert_eq!(levels.l2.cache_bytes, 2097152);
    assert_eq!(levels.l3.cache_bytes, 0);
    assert_eq!(levels.l1.cache_line_bytes, 128);
    assert_eq!(levels.l1.associativity, 8);
    assert!(!levels.l2.small_mc);
}

#[test]
fn default_tables() {
    let x86 = default_cache_levels_x86();
    assert_eq!(x86.l1.cache_bytes, 32 * 1024);
    assert_eq!(x86.l2.cache_bytes, 256 * 1024);
    assert_eq!(x86.l3.cache_bytes, 2 * 1024 * 1024);
    assert_eq!(x86.l1.cache_line_bytes, 64);
    assert_eq!(x86.l1.associativity, 8);

    let power = default_cache_levels_power();
    assert_eq!(power.l1.cache_bytes, 64 * 1024);
    assert_eq!(power.l2.cache_bytes, 512 * 1024);
    assert_eq!(power.l3.cache_bytes, 4 * 1024 * 1024);

    let generic = default_cache_levels_generic();
    assert_eq!(generic.l1.cache_bytes, 16 * 1024);
    assert_eq!(generic.l2.cache_bytes, 512 * 1024);
    assert_eq!(generic.l3.cache_bytes, 1024 * 1024);
}

#[test]
fn probe_on_this_machine_is_never_fatal() {
    // The probed values are machine-dependent; what is checked is that
    // the probe answers without faulting, and that when it has no answer
    // the fallback is the x86 table.
    let probed = cache_info();
    let levels = cache_info_or_default();
    match probed {
        Some(p) => assert_eq!(levels, p),
        None => assert_eq!(levels, default_cache_levels_x86()),
    }
}
