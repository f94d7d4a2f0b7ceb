//! Cache-aware blocking for a GEMM engine: cache-geometry detection and the
//! planner that derives the (kc, mc, nc) cache-blocking factors from it.

use vstd::prelude::*;

pub mod arith;
pub mod cache;
pub mod cpuid;
pub mod plan;

pub use arith::div_ceil;
pub use arith::gcd;
pub use arith::round_down;
pub use cache::CacheInfo;
pub use cache::CacheLevels;
pub use cache::cache_info;
pub use cache::cache_info_or_default;
pub use plan::KernelParams;
pub use plan::kernel_params;
pub use plan::try_kernel_params_with;
