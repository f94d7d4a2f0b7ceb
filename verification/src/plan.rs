//! The block-size planner: from the matrix dimensions (m, n, k), the
//! microkernel register blocking (mr, nr) and the element size, together
//! with the cache geometry, derive the cache-blocking factors (kc, mc, nc).
//!
//! The derivation follows the classic panel-residency argument:
//!
//! - kc is sized so that an mr-by-kc A-micropanel strides over every L1 set
//!   exactly (a multiple of `line_bytes * n_sets`), doubled to the next
//!   power of two while the L1 associativity admits both the A- and
//!   B-micropanels, clamped to `[512, k]`, then re-equalised over the
//!   number of k-iterations;
//! - mc reserves L2 ways for one B-micropanel and gives A the remainder,
//!   floor-rounded to a multiple of mr and re-equalised over the
//!   m-iterations;
//! - nc gives the B-macropanel all but one L3 way, rounded to a multiple
//!   of nr and re-equalised; an absent L3 yields nc = 0.
//!
//! Every step of the executable planner is proved equal to the spec
//! pipeline `sp_plan`.  Where the corresponding unchecked computation
//! would fault (a division by a degenerate cache reading, a product
//! overflowing `usize`, an absent L2), the planner returns `None` instead,
//! and `kernel_params` falls back to the static cache table.

use vstd::prelude::*;

use crate::arith::checked_next_power_of_two;
use crate::arith::div_ceil;
use crate::arith::gcd;
use crate::arith::lemma_div_ceil_bounds;
use crate::arith::lemma_gcd_divides;
use crate::arith::round_down;
use crate::arith::spec_div_ceil;
use crate::arith::spec_gcd;
use crate::arith::spec_npot;
use crate::cache::CacheLevels;
use crate::cache::cache_info_or_default;
use crate::cache::default_cache_levels_x86;
use crate::cache::sp_default_levels_x86;

verus! {

use vstd::arithmetic::div_mod::lemma_fundamental_div_mod;
use vstd::arithmetic::div_mod::lemma_mod_multiples_basic;
use vstd::arithmetic::div_mod::lemma_small_mod;
use vstd::arithmetic::mul::lemma_mul_inequality;
use vstd::arithmetic::mul::lemma_mul_strictly_positive;
use vstd::math::max;
use vstd::math::min;

/// The cache-blocking factors of one GEMM call: depth kc, row panel mc,
/// column panel nc.
#[derive(Default, Debug, Copy, Clone, PartialEq, Eq, Structural)]
pub struct KernelParams {
    pub kc: usize,
    pub mc: usize,
    pub nc: usize,
}

/// L1 size, clamped below by the 32 KiB the planner assumes at least.
pub open spec fn sp_l1_bytes(l: CacheLevels) -> int {
    max(l.l1.cache_bytes as int, 32768)
}

/// L1 line size, clamped below by 64 bytes.
pub open spec fn sp_l1_line(l: CacheLevels) -> int {
    max(l.l1.cache_line_bytes as int, 64)
}

/// L1 associativity, clamped below by 2 ways.
pub open spec fn sp_l1_assoc(l: CacheLevels) -> int {
    max(l.l1.associativity as int, 2)
}

/// L2 associativity, clamped below by 2 ways.
pub open spec fn sp_l2_assoc(l: CacheLevels) -> int {
    max(l.l2.associativity as int, 2)
}

/// L3 associativity, clamped below by 2 ways.
pub open spec fn sp_l3_assoc(l: CacheLevels) -> int {
    max(l.l3.associativity as int, 2)
}

/// Number of L1 sets.
pub open spec fn sp_l1_sets(l: CacheLevels) -> int {
    sp_l1_bytes(l) / (sp_l1_line(l) * sp_l1_assoc(l))
}

/// The L1 set stride in bytes: the smallest byte distance that maps to
/// the same set again.
pub open spec fn sp_set_stride(l: CacheLevels) -> int {
    sp_l1_line(l) * sp_l1_sets(l)
}

/// The base kc: the smallest depth for which an mr-wide A-micropanel
/// covers whole multiples of the L1 set stride.
pub open spec fn sp_kc0(l: CacheLevels, mr: int, sizeof: int) -> int {
    sp_set_stride(l) / (spec_gcd((mr * sizeof) as nat, sp_set_stride(l) as nat) as int)
}

/// The kc stage of the planner.  `None` marks a combination on which the
/// unchecked computation would fault: a product overflowing `usize` or a
/// degenerate L1 reading with no full set stride.
pub open spec fn sp_kc(l: CacheLevels, k: int, mr: int, nr: int, sizeof: int) -> Option<int> {
    if sp_l1_line(l) * sp_l1_assoc(l) > usize::MAX as int {
        None
    } else if sp_set_stride(l) > usize::MAX as int || sp_set_stride(l) < 1 {
        None
    } else if mr * sizeof > usize::MAX as int {
        None
    } else {
        let stride = sp_set_stride(l);
        let lhs_bytes = mr * sizeof;
        let g = spec_gcd(lhs_bytes as nat, stride as nat) as int;
        let kc0 = stride / g;
        let c_lhs = lhs_bytes / g;
        if nr * kc0 > usize::MAX as int || nr * kc0 * sizeof > usize::MAX as int {
            None
        } else {
            let c_rhs = (nr * kc0 * sizeof) / stride;
            if c_lhs + c_rhs > usize::MAX as int {
                None
            } else {
                let mult = sp_l1_assoc(l) / (c_lhs + c_rhs);
                if mult > usize::MAX as int / 2 + 1 {
                    None
                } else {
                    let npot = spec_npot(mult as nat) as int;
                    if kc0 * npot > usize::MAX as int {
                        None
                    } else {
                        let kc_clamped = min(max(kc0 * npot, 512), k);
                        let k_iter = spec_div_ceil(k, kc_clamped);
                        Some(spec_div_ceil(k, k_iter))
                    }
                }
            }
        }
    }
}

/// The mc stage of the planner.  `None` marks a combination on which the
/// unchecked computation would fault: an absent L2 (the planner cannot
/// size the A-macropanel), an overflow, or a row panel that rounds to
/// zero rows.
pub open spec fn sp_mc(l: CacheLevels, m: int, mr: int, nr: int, sizeof: int, kc: int) -> Option<
    int,
> {
    if l.l2.cache_bytes == 0 {
        None
    } else {
        let l2b = l.l2.cache_bytes as int;
        let l2a = sp_l2_assoc(l);
        if nr * kc > usize::MAX as int || nr * kc * sizeof > usize::MAX as int {
            None
        } else {
            let rhs_bytes = nr * kc * sizeof;
            let way_bytes = l2b / l2a;
            if way_bytes < 1 {
                None
            } else {
                let rhs_assoc = spec_div_ceil(rhs_bytes, way_bytes);
                let lhs_assoc = if l2a - 1 - rhs_assoc >= 1 {
                    l2a - 1 - rhs_assoc
                } else {
                    1
                };
                let lhs_eff = if l.l2.small_mc {
                    lhs_assoc / 2 + 1
                } else {
                    lhs_assoc
                };
                if lhs_eff * l2b > usize::MAX as int {
                    None
                } else if l2a * sizeof > usize::MAX as int || l2a * sizeof * kc > usize::MAX as int {
                    None
                } else {
                    let mc_raw = (lhs_eff * l2b) / (l2a * sizeof * kc);
                    let mc_rd = (mc_raw / mr) * mr;
                    if mc_rd < 1 {
                        None
                    } else {
                        let m_iter = spec_div_ceil(m, mc_rd);
                        if m_iter * mr > usize::MAX as int {
                            None
                        } else {
                            let q = spec_div_ceil(m, m_iter * mr);
                            if q * mr > usize::MAX as int {
                                None
                            } else {
                                Some(q * mr)
                            }
                        }
                    }
                }
            }
        }
    }
}

/// The nc stage of the planner.  An absent L3 yields 0 (the driver then
/// skips the L3 blocking loop); otherwise `None` marks a combination on
/// which the unchecked computation would fault.
pub open spec fn sp_nc(l: CacheLevels, n: int, nr: int, sizeof: int, kc: int) -> Option<int> {
    if l.l3.cache_bytes == 0 {
        Some(0)
    } else {
        let l3b = l.l3.cache_bytes as int;
        let l3a = sp_l3_assoc(l);
        let rhs_assoc = l3a - 1;
        if rhs_assoc * l3b > usize::MAX as int {
            None
        } else {
            let rhs_max_bytes = (rhs_assoc * l3b) / l3a;
            if sizeof * kc > usize::MAX as int {
                None
            } else {
                let nc_rd = ((rhs_max_bytes / (sizeof * kc)) / nr) * nr;
                if nc_rd < 1 {
                    None
                } else {
                    let n_iter = spec_div_ceil(n, nc_rd);
                    if n_iter * nr > usize::MAX as int {
                        None
                    } else {
                        let q = spec_div_ceil(n, n_iter * nr);
                        if q * nr > usize::MAX as int {
                            None
                        } else {
                            Some(q * nr)
                        }
                    }
                }
            }
        }
    }
}

/// The whole planner: (kc, mc, nc) for the given cache geometry, or the
/// dimensions unchanged when any of them is zero.  `None` marks an input
/// on which the unchecked computation would fault.
pub open spec fn sp_plan(
    l: CacheLevels,
    m: int,
    n: int,
    k: int,
    mr: int,
    nr: int,
    sizeof: int,
) -> Option<(int, int, int)> {
    if m == 0 || n == 0 || k == 0 {
        Some((k, m, n))
    } else if mr < 1 || nr < 1 || sizeof < 1 {
        None
    } else {
        match sp_kc(l, k, mr, nr, sizeof) {
            None => None,
            Some(kc) => match sp_mc(l, m, mr, nr, sizeof, kc) {
                None => None,
                Some(mc) => match sp_nc(l, n, nr, sizeof, kc) {
                    None => None,
                    Some(nc) => Some((kc, mc, nc)),
                },
            },
        }
    }
}

fn plan_kc(levels: CacheLevels, k: usize, mr: usize, nr: usize, sizeof: usize) -> (r: Option<
    usize,
>)
    requires
        k >= 1,
        mr >= 1,
        nr >= 1,
        sizeof >= 1,
    ensures
        match r {
            Some(kc) => sp_kc(levels, k as int, mr as int, nr as int, sizeof as int) == Some(
                kc as int,
            ) && 1 <= kc <= k,
            None => sp_kc(levels, k as int, mr as int, nr as int, sizeof as int) is None,
        },
{
    let l1_bytes = if levels.l1.cache_bytes > 32768 {
        levels.l1.cache_bytes
    } else {
        32768
    };
    let l1_line = if levels.l1.cache_line_bytes > 64 {
        levels.l1.cache_line_bytes
    } else {
        64
    };
    let l1_assoc = if levels.l1.associativity > 2 {
        levels.l1.associativity
    } else {
        2
    };
    let line_x_assoc = match l1_line.checked_mul(l1_assoc) {
        Some(v) => v,
        None => {
            return None;
        },
    };
    proof {
        lemma_mul_strictly_positive(l1_line as int, l1_assoc as int);
    }
    let l1_sets = l1_bytes / line_x_assoc;
    let stride = match l1_line.checked_mul(l1_sets) {
        Some(v) => v,
        None => {
            return None;
        },
    };
    if stride == 0 {
        return None;
    }
    let lhs_bytes = match mr.checked_mul(sizeof) {
        Some(v) => v,
        None => {
            return None;
        },
    };
    let g = gcd(lhs_bytes, stride);
    proof {
        lemma_mul_strictly_positive(mr as int, sizeof as int);
        lemma_gcd_divides(lhs_bytes as nat, stride as nat);
    }
    let kc0 = stride / g;
    let c_lhs = lhs_bytes / g;
    proof {
        vstd::arithmetic::div_mod::lemma_div_non_zero(lhs_bytes as int, g as int);
    }
    let t1 = match nr.checked_mul(kc0) {
        Some(v) => v,
        None => {
            return None;
        },
    };
    let t2 = match t1.checked_mul(sizeof) {
        Some(v) => v,
        None => {
            return None;
        },
    };
    let c_rhs = t2 / stride;
    let c_sum = match c_lhs.checked_add(c_rhs) {
        Some(v) => v,
        None => {
            return None;
        },
    };
    let mult = l1_assoc / c_sum;
    let npot = match checked_next_power_of_two(mult) {
        Some(v) => v,
        None => {
            return None;
        },
    };
    let kc_grown = match kc0.checked_mul(npot) {
        Some(v) => v,
        None => {
            return None;
        },
    };
    let kc_floor = if kc_grown > 512 {
        kc_grown
    } else {
        512
    };
    let kc_clamped = if kc_floor < k {
        kc_floor
    } else {
        k
    };
    let k_iter = div_ceil(k, kc_clamped);
    proof {
        lemma_div_ceil_bounds(k as int, kc_clamped as int);
    }
    let kc = div_ceil(k, k_iter);
    proof {
        lemma_div_ceil_bounds(k as int, k_iter as int);
    }
    Some(kc)
}

fn plan_mc(levels: CacheLevels, m: usize, mr: usize, nr: usize, sizeof: usize, kc: usize) -> (r:
    Option<usize>)
    requires
        m >= 1,
        mr >= 1,
        nr >= 1,
        sizeof >= 1,
        kc >= 1,
    ensures
        match r {
            Some(mc) => sp_mc(levels, m as int, mr as int, nr as int, sizeof as int, kc as int)
                == Some(mc as int) && 1 <= mc && (mc as int) % (mr as int) == 0,
            None => sp_mc(levels, m as int, mr as int, nr as int, sizeof as int, kc as int) is None,
        },
{
    if levels.l2.cache_bytes == 0 {
        return None;
    }
    let l2b = levels.l2.cache_bytes;
    let l2a = if levels.l2.associativity > 2 {
        levels.l2.associativity
    } else {
        2
    };
    let t1 = match nr.checked_mul(kc) {
        Some(v) => v,
        None => {
            return None;
        },
    };
    let rhs_bytes = match t1.checked_mul(sizeof) {
        Some(v) => v,
        None => {
            return None;
        },
    };
    let way_bytes = l2b / l2a;
    if way_bytes == 0 {
        return None;
    }
    let rhs_assoc = div_ceil(rhs_bytes, way_bytes);
    let lhs_assoc = if l2a > rhs_assoc && l2a - rhs_assoc > 1 {
        l2a - rhs_assoc - 1
    } else {
        1
    };
    let lhs_eff = if levels.l2.small_mc {
        lhs_assoc / 2 + 1
    } else {
        lhs_assoc
    };
    let num = match lhs_eff.checked_mul(l2b) {
        Some(v) => v,
        None => {
            return None;
        },
    };
    let d1 = match l2a.checked_mul(sizeof) {
        Some(v) => v,
        None => {
            return None;
        },
    };
    let d2 = match d1.checked_mul(kc) {
        Some(v) => v,
        None => {
            return None;
        },
    };
    proof {
        lemma_mul_strictly_positive(l2a as int, sizeof as int);
        lemma_mul_strictly_positive(d1 as int, kc as int);
    }
    let mc_raw = num / d2;
    let mc_rd = round_down(mc_raw, mr);
    if mc_rd == 0 {
        return None;
    }
    let m_iter = div_ceil(m, mc_rd);
    proof {
        lemma_div_ceil_bounds(m as int, mc_rd as int);
    }
    let m_step = match m_iter.checked_mul(mr) {
        Some(v) => v,
        None => {
            return None;
        },
    };
    proof {
        lemma_mul_strictly_positive(m_iter as int, mr as int);
    }
    let q = div_ceil(m, m_step);
    proof {
        lemma_div_ceil_bounds(m as int, m_step as int);
    }
    let mc = match q.checked_mul(mr) {
        Some(v) => v,
        None => {
            return None;
        },
    };
    proof {
        lemma_mul_strictly_positive(q as int, mr as int);
        lemma_mod_multiples_basic(q as int, mr as int);
    }
    Some(mc)
}

fn plan_nc(levels: CacheLevels, n: usize, nr: usize, sizeof: usize, kc: usize) -> (r: Option<
    usize,
>)
    requires
        n >= 1,
        nr >= 1,
        sizeof >= 1,
        kc >= 1,
    ensures
        match r {
            Some(nc) => sp_nc(levels, n as int, nr as int, sizeof as int, kc as int) == Some(
                nc as int,
            ) && (nc as int) % (nr as int) == 0 && (levels.l3.cache_bytes == 0 ==> nc == 0) && (
            levels.l3.cache_bytes != 0 ==> 1 <= nc),
            None => sp_nc(levels, n as int, nr as int, sizeof as int, kc as int) is None,
        },
{
    if levels.l3.cache_bytes == 0 {
        proof {
            lemma_small_mod(0nat, nr as nat);
        }
        return Some(0);
    }
    let l3b = levels.l3.cache_bytes;
    let l3a = if levels.l3.associativity > 2 {
        levels.l3.associativity
    } else {
        2
    };
    let rhs_assoc = l3a - 1;
    let num = match rhs_assoc.checked_mul(l3b) {
        Some(v) => v,
        None => {
            return None;
        },
    };
    let rhs_max_bytes = num / l3a;
    let depth_bytes = match sizeof.checked_mul(kc) {
        Some(v) => v,
        None => {
            return None;
        },
    };
    proof {
        lemma_mul_strictly_positive(sizeof as int, kc as int);
    }
    let nc_rd = round_down(rhs_max_bytes / depth_bytes, nr);
    if nc_rd == 0 {
        return None;
    }
    let n_iter = div_ceil(n, nc_rd);
    proof {
        lemma_div_ceil_bounds(n as int, nc_rd as int);
    }
    let n_step = match n_iter.checked_mul(nr) {
        Some(v) => v,
        None => {
            return None;
        },
    };
    proof {
        lemma_mul_strictly_positive(n_iter as int, nr as int);
    }
    let q = div_ceil(n, n_step);
    proof {
        lemma_div_ceil_bounds(n as int, n_step as int);
    }
    let nc = match q.checked_mul(nr) {
        Some(v) => v,
        None => {
            return None;
        },
    };
    proof {
        lemma_mul_strictly_positive(q as int, nr as int);
        lemma_mod_multiples_basic(q as int, nr as int);
    }
    Some(nc)
}

/// The planner against an explicit cache geometry: `Some` exactly when
/// `sp_plan` yields a value, and then that value.
pub fn try_kernel_params_with(
    levels: CacheLevels,
    m: usize,
    n: usize,
    k: usize,
    mr: usize,
    nr: usize,
    sizeof: usize,
) -> (r: Option<KernelParams>)
    ensures
        match r {
            Some(p) => sp_plan(
                levels,
                m as int,
                n as int,
                k as int,
                mr as int,
                nr as int,
                sizeof as int,
            ) == Some((p.kc as int, p.mc as int, p.nc as int)),
            None => sp_plan(
                levels,
                m as int,
                n as int,
                k as int,
                mr as int,
                nr as int,
                sizeof as int,
            ) is None,
        },
{
    if m == 0 || n == 0 || k == 0 {
        return Some(KernelParams { kc: k, mc: m, nc: n });
    }
    if mr == 0 || nr == 0 || sizeof == 0 {
        return None;
    }
    let kc = match plan_kc(levels, k, mr, nr, sizeof) {
        Some(v) => v,
        None => {
            return None;
        },
    };
    let mc = match plan_mc(levels, m, mr, nr, sizeof, kc) {
        Some(v) => v,
        None => {
            return None;
        },
    };
    let nc = match plan_nc(levels, n, nr, sizeof, kc) {
        Some(v) => v,
        None => {
            return None;
        },
    };
    Some(KernelParams { kc, mc, nc })
}

/// Set-stride identity: the byte count of an mr-by-kc0 A-micropanel,
/// `mr * sizeof * kc0`, is an exact multiple of the L1 set stride, so
/// that consecutive micropanels map onto the same L1 sets and evict each
/// other rather than the B panel.
pub proof fn lemma_kc0_set_stride(l: CacheLevels, mr: int, sizeof: int)
    requires
        mr >= 1,
        sizeof >= 1,
        sp_set_stride(l) >= 1,
    ensures
        (mr * sizeof * sp_kc0(l, mr, sizeof)) % sp_set_stride(l) == 0,
{
    let stride = sp_set_stride(l);
    lemma_mul_strictly_positive(mr, sizeof);
    let lhs_bytes = mr * sizeof;
    lemma_gcd_divides(lhs_bytes as nat, stride as nat);
    let g = spec_gcd(lhs_bytes as nat, stride as nat) as int;
    lemma_fundamental_div_mod(lhs_bytes, g);
    lemma_fundamental_div_mod(stride, g);
    let lhs_ways = lhs_bytes / g;
    let stride_units = stride / g;
    assert(lhs_bytes * stride_units == lhs_ways * stride) by (nonlinear_arith)
        requires
            lhs_bytes == g * lhs_ways,
            stride == g * stride_units,
    ;
    lemma_mod_multiples_basic(lhs_ways, stride);
    assert(sp_kc0(l, mr, sizeof) == stride_units);
}

proof fn lemma_sp_kc_bounds(l: CacheLevels, k: int, mr: int, nr: int, sizeof: int)
    requires
        k >= 1,
        sp_kc(l, k, mr, nr, sizeof) is Some,
    ensures
        1 <= sp_kc(l, k, mr, nr, sizeof)->Some_0 <= k,
{
    let stride = sp_set_stride(l);
    let lhs_bytes = mr * sizeof;
    let g = spec_gcd(lhs_bytes as nat, stride as nat) as int;
    let kc0 = stride / g;
    let c_lhs = lhs_bytes / g;
    let c_rhs = (nr * kc0 * sizeof) / stride;
    let mult = sp_l1_assoc(l) / (c_lhs + c_rhs);
    let npot = spec_npot(mult as nat) as int;
    let kc_clamped = min(max(kc0 * npot, 512), k);
    assert(kc_clamped >= 1);
    lemma_div_ceil_bounds(k, kc_clamped);
    let k_iter = spec_div_ceil(k, kc_clamped);
    lemma_div_ceil_bounds(k, k_iter);
}

proof fn lemma_sp_mc_props(l: CacheLevels, m: int, mr: int, nr: int, sizeof: int, kc: int)
    requires
        m >= 1,
        mr >= 1,
        sp_mc(l, m, mr, nr, sizeof, kc) is Some,
    ensures
        1 <= sp_mc(l, m, mr, nr, sizeof, kc)->Some_0,
        sp_mc(l, m, mr, nr, sizeof, kc)->Some_0 % mr == 0,
{
    let l2b = l.l2.cache_bytes as int;
    let l2a = sp_l2_assoc(l);
    let rhs_bytes = nr * kc * sizeof;
    let way_bytes = l2b / l2a;
    let rhs_assoc = spec_div_ceil(rhs_bytes, way_bytes);
    let lhs_assoc = if l2a - 1 - rhs_assoc >= 1 {
        l2a - 1 - rhs_assoc
    } else {
        1
    };
    let lhs_eff = if l.l2.small_mc {
        lhs_assoc / 2 + 1
    } else {
        lhs_assoc
    };
    let mc_raw = (lhs_eff * l2b) / (l2a * sizeof * kc);
    let mc_rd = (mc_raw / mr) * mr;
    lemma_div_ceil_bounds(m, mc_rd);
    let m_iter = spec_div_ceil(m, mc_rd);
    lemma_mul_strictly_positive(m_iter, mr);
    lemma_div_ceil_bounds(m, m_iter * mr);
    let q = spec_div_ceil(m, m_iter * mr);
    lemma_mul_strictly_positive(q, mr);
    lemma_mod_multiples_basic(q, mr);
}

proof fn lemma_sp_nc_props(l: CacheLevels, n: int, nr: int, sizeof: int, kc: int)
    requires
        n >= 1,
        nr >= 1,
        sp_nc(l, n, nr, sizeof, kc) is Some,
    ensures
        sp_nc(l, n, nr, sizeof, kc)->Some_0 % nr == 0,
        sp_nc(l, n, nr, sizeof, kc)->Some_0 == 0 <==> l.l3.cache_bytes == 0,
        l.l3.cache_bytes != 0 ==> nr <= sp_nc(l, n, nr, sizeof, kc)->Some_0,
{
    if l.l3.cache_bytes == 0 {
        lemma_small_mod(0nat, nr as nat);
    } else {
        let l3b = l.l3.cache_bytes as int;
        let l3a = sp_l3_assoc(l);
        let rhs_assoc = l3a - 1;
        let rhs_max_bytes = (rhs_assoc * l3b) / l3a;
        let nc_rd = ((rhs_max_bytes / (sizeof * kc)) / nr) * nr;
        lemma_div_ceil_bounds(n, nc_rd);
        let n_iter = spec_div_ceil(n, nc_rd);
        lemma_mul_strictly_positive(n_iter, nr);
        lemma_div_ceil_bounds(n, n_iter * nr);
        let q = spec_div_ceil(n, n_iter * nr);
        lemma_mul_inequality(1, q, nr);
        lemma_mod_multiples_basic(q, nr);
    }
}

/// Block-planner invariants: any plan the planner can yield for nonzero
/// dimensions has kc between 1 and k, mc a positive multiple of mr, and
/// nc a multiple of nr that is zero exactly when L3 is absent.
pub proof fn lemma_plan_invariants(
    l: CacheLevels,
    m: int,
    n: int,
    k: int,
    mr: int,
    nr: int,
    sizeof: int,
    kc: int,
    mc: int,
    nc: int,
)
    requires
        m >= 1,
        n >= 1,
        k >= 1,
        sp_plan(l, m, n, k, mr, nr, sizeof) == Some((kc, mc, nc)),
    ensures
        1 <= kc <= k,
        1 <= mc,
        mc % mr == 0,
        nc % nr == 0,
        nc == 0 <==> l.l3.cache_bytes == 0,
        l.l3.cache_bytes != 0 ==> nr <= nc,
{
    lemma_sp_kc_bounds(l, k, mr, nr, sizeof);
    let kcv = sp_kc(l, k, mr, nr, sizeof)->Some_0;
    lemma_sp_mc_props(l, m, mr, nr, sizeof, kcv);
    lemma_sp_nc_props(l, n, nr, sizeof, kcv);
}

/// The public planner, as one GEMM call uses it: probe the cache geometry
/// (falling back to the static x86 table when the probe does not answer),
/// then derive (kc, mc, nc).  A zero dimension returns (k, m, n)
/// unchanged.  When the probed geometry is degenerate — a reading on
/// which the plan arithmetic would fault — the static table is used in
/// its place, so the call never faults; the precondition asks only that
/// the plan goes through on that static table.
pub fn kernel_params(m: usize, n: usize, k: usize, mr: usize, nr: usize, sizeof: usize) -> (r:
    KernelParams)
    requires
        sp_plan(
            sp_default_levels_x86(),
            m as int,
            n as int,
            k as int,
            mr as int,
            nr as int,
            sizeof as int,
        ) is Some,
    ensures
        exists|l: CacheLevels|
            #[trigger] sp_plan(l, m as int, n as int, k as int, mr as int, nr as int, sizeof as int)
                == Some((r.kc as int, r.mc as int, r.nc as int)),
        (m == 0 || n == 0 || k == 0) ==> r == (KernelParams { kc: k, mc: m, nc: n }),
        m >= 1 && n >= 1 && k >= 1 ==> {
            &&& 1 <= r.kc <= k
            &&& 1 <= r.mc
            &&& (r.mc as int) % (mr as int) == 0
            &&& (r.nc as int) % (nr as int) == 0
        },
{
    if m == 0 || n == 0 || k == 0 {
        proof {
            assert(sp_plan(
                sp_default_levels_x86(),
                m as int,
                n as int,
                k as int,
                mr as int,
                nr as int,
                sizeof as int,
            ) == Some((k as int, m as int, n as int)));
        }
        return KernelParams { kc: k, mc: m, nc: n };
    }
    let probed = cache_info_or_default();
    match try_kernel_params_with(probed, m, n, k, mr, nr, sizeof) {
        Some(p) => {
            proof {
                lemma_plan_invariants(
                    probed,
                    m as int,
                    n as int,
                    k as int,
                    mr as int,
                    nr as int,
                    sizeof as int,
                    p.kc as int,
                    p.mc as int,
                    p.nc as int,
                );
            }
            p
        },
        None => {
            let fallback = default_cache_levels_x86();
            match try_kernel_params_with(fallback, m, n, k, mr, nr, sizeof) {
                Some(p) => {
                    proof {
                        lemma_plan_invariants(
                            fallback,
                            m as int,
                            n as int,
                            k as int,
                            mr as int,
                            nr as int,
                            sizeof as int,
                            p.kc as int,
                            p.mc as int,
                            p.nc as int,
                        );
                    }
                    p
                },
                None => vstd::pervasive::unreached(),
            }
        },
    }
}

} // verus!

