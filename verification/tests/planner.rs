use gemm_common::cache::CacheInfo;
use gemm_common::cache::CacheLevels;
use gemm_common::div_ceil;
use gemm_common::gcd;
use gemm_common::kernel_params;
use gemm_common::round_down;
use gemm_common::try_kernel_params_with;
use gemm_common::arith::checked_next_power_of_two;

fn level(small_mc: bool, associativity: usize, cache_bytes: usize, cache_line_bytes: usize) -> CacheInfo {
    CacheInfo { small_mc, associativity, cache_bytes, cache_line_bytes }
}

fn x86_defaults() -> CacheLevels {
    CacheLevels {
        l1: level(false, 8, 32 * 1024, 64),
        l2: level(false, 8, 256 * 1024, 64),
        l3: level(false, 8, 2 * 1024 * 1024, 64),
    }
}

#[test]
fn gcd_concrete() {
    assert_eq!(gcd(64, 4096), 64);
    assert_eq!(gcd(12, 18), 6);
    assert_eq!(gcd(18, 12), 6);
    assert_eq!(gcd(0, 5), 5);
    assert_eq!(gcd(5, 0), 5);
    assert_eq!(gcd(1, 1), 1);
}

#[test]
fn div_ceil_concrete() {
    assert_eq!(div_ceil(7, 2), 4);
    assert_eq!(div_ceil(8, 2), 4);
    assert_eq!(div_ceil(0, 3), 0);
    assert_eq!(div_ceil(1, 512), 1);
    assert_eq!(div_ceil(1024, 448), 3);
}

#[test]
fn round_down_concrete() {
    assert_eq!(round_down(13, 4), 12);
    assert_eq!(round_down(12, 4), 12);
    assert_eq!(round_down(3, 4), 0);
    assert_eq!(round_down(0, 7), 0);
}

#[test]
fn next_power_of_two_concrete() {
    assert_eq!(checked_next_power_of_two(0), Some(1));
    assert_eq!(checked_next_power_of_two(1), Some(1));
    assert_eq!(checked_next_power_of_two(3), Some(4));
    assert_eq!(checked_next_power_of_two(8), Some(8));
    assert_eq!(checked_next_power_of_two(1000), Some(1024));
    assert_eq!(checked_next_power_of_two((1usize << 62) + 1), Some(1usize << 63));
    assert_eq!(checked_next_power_of_two(1usize << 63), Some(1usize << 63));
    assert_eq!(checked_next_power_of_two((1usize << 63) + 1), None);
    assert_eq!(checked_next_power_of_two(usize::MAX), None);
}

#[test]
fn plan_cubed_default_profile() {
    // f64 with an 8x4 microkernel on the default x86 profile: the set
    // stride is 4096 bytes, kc grows to 512, six L2 ways feed mc, seven
    // L3 ways feed nc.
    let p = try_kernel_params_with(x86_defaults(), 1024, 1024, 1024, 8, 4, 8).unwrap();
    assert_eq!(p.kc, 512);
    assert_eq!(p.mc, 48);
    assert_eq!(p.nc, 344);
}

#[test]
fn plan_small_mc_preference() {
    // The same call with the small-row-panel hint set on L2 halves the
    // ways given to A (6 -> 4), shrinking mc from 48 to 32.
    let levels = CacheLevels {
        l1: level(true, 8, 32 * 1024, 64),
        l2: level(true, 8, 256 * 1024, 64),
        l3: level(true, 8, 2 * 1024 * 1024, 64),
    };
    let p = try_kernel_params_with(levels, 1024, 1024, 1024, 8, 4, 8).unwrap();
    assert_eq!(p.kc, 512);
    assert_eq!(p.mc, 32);
    assert_eq!(p.nc, 344);
}

#[test]
fn plan_small_k_is_re_equalised() {
    // k below the 512 floor: kc collapses to k itself, and the panels
    // re-equalise over the iteration counts.
    let p = try_kernel_params_with(x86_defaults(), 100, 200, 300, 12, 4, 8).unwrap();
    assert_eq!(p.kc, 300);
    assert_eq!(p.mc, 60);
    assert_eq!(p.nc, 200);
}

#[test]
fn plan_tiny_dimensions_round_up() {
    // mc and nc are multiples of mr and nr even when that overshoots the
    // matrix.
    let p = try_kernel_params_with(x86_defaults(), 7, 9, 11, 8, 4, 4).unwrap();
    assert_eq!(p.kc, 11);
    assert_eq!(p.mc, 8);
    assert_eq!(p.nc, 12);
}

#[test]
fn plan_without_l3_yields_zero_nc() {
    let levels = CacheLevels {
        l1: level(false, 8, 32 * 1024, 64),
        l2: level(false, 8, 256 * 1024, 64),
        l3: level(false, 8, 0, 64),
    };
    let p = try_kernel_params_with(levels, 1024, 1024, 1024, 8, 4, 8).unwrap();
    assert_eq!(p.kc, 512);
    assert_eq!(p.mc, 48);
    assert_eq!(p.nc, 0);
}

#[test]
fn plan_zero_dimension_returns_dims_unchanged() {
    // A zero dimension leaves (kc, mc, nc) = (k, m, n): the caller's C is
    // untouched and no arithmetic runs.
    let p = try_kernel_params_with(x86_defaults(), 0, 5, 7, 8, 4, 8).unwrap();
    assert_eq!(p.kc, 7);
    assert_eq!(p.mc, 0);
    assert_eq!(p.nc, 5);
    let p = try_kernel_params_with(x86_defaults(), 5, 0, 7, 8, 4, 8).unwrap();
    assert_eq!((p.kc, p.mc, p.nc), (7, 5, 0));
    let p = try_kernel_params_with(x86_defaults(), 5, 7, 0, 8, 4, 8).unwrap();
    assert_eq!((p.kc, p.mc, p.nc), (0, 5, 7));
}

#[test]
fn plan_refuses_absent_l2() {
    let levels = CacheLevels {
        l1: level(false, 8, 32 * 1024, 64),
        l2: level(false, 8, 0, 64),
        l3: level(false, 8, 0, 64),
    };
    assert!(try_kernel_params_with(levels, 64, 64, 64, 8, 4, 8).is_none());
}

#[test]
fn plan_refuses_zero_blocking_factors() {
    assert!(try_kernel_params_with(x86_defaults(), 64, 64, 64, 0, 4, 8).is_none());
    assert!(try_kernel_params_with(x86_defaults(), 64, 64, 64, 8, 0, 8).is_none());
    assert!(try_kernel_params_with(x86_defaults(), 64, 64, 64, 8, 4, 0).is_none());
}

#[test]
fn plan_refuses_row_panel_rounded_to_zero() {
    // mr so large that the L2 budget holds no whole mr-strip: the row
    // panel would round to zero rows and the plan is refused.
    assert!(try_kernel_params_with(x86_defaults(), 1000, 1000, 512, 200, 4, 8).is_none());
}

#[test]
fn plan_invariants_over_a_spread() {
    // kc in [1, k]; mc a positive multiple of mr; nc a multiple of nr,
    // zero only without an L3.
    let cases: &[(usize, usize, usize, usize, usize, usize)] = &[
        (1, 1, 1, 1, 1, 1),
        (17, 33, 65, 3, 5, 2),
        (1024, 1024, 1024, 8, 4, 8),
        (2000, 3000, 4000, 12, 8, 4),
        (5, 1024, 77, 6, 16, 10),
        (512, 512, 512, 24, 4, 8),
    ];
    for &(m, n, k, mr, nr, sizeof) in cases {
        let p = try_kernel_params_with(x86_defaults(), m, n, k, mr, nr, sizeof)
            .expect("plan should go through on the default profile");
        assert!(p.kc >= 1 && p.kc <= k, "kc out of range for {:?}", (m, n, k, mr, nr, sizeof));
        assert!(p.mc >= 1, "mc zero for {:?}", (m, n, k, mr, nr, sizeof));
        assert_eq!(p.mc % mr, 0, "mc not a multiple of mr for {:?}", (m, n, k, mr, nr, sizeof));
        assert_eq!(p.nc % nr, 0, "nc not a multiple of nr for {:?}", (m, n, k, mr, nr, sizeof));
        assert!(p.nc >= 1, "nc zero with an L3 present for {:?}", (m, n, k, mr, nr, sizeof));
    }
}

#[test]
fn kernel_params_on_this_machine() {
    // Runs the real CPUID probe.  The geometry is machine-dependent, so
    // only the planner invariants can be pinned down.
    let p = kernel_params(256, 256, 256, 8, 4, 8);
    assert!(p.kc >= 1 && p.kc <= 256);
    assert!(p.mc >= 1);
    assert_eq!(p.mc % 8, 0);
    assert_eq!(p.nc % 4, 0);
}

#[test]
fn kernel_params_zero_dimension() {
    let p = kernel_params(0, 5, 7, 8, 4, 8);
    assert_eq!((p.kc, p.mc, p.nc), (7, 0, 5));
}
