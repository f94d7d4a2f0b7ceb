//! Trusted boundary to the `raw_cpuid` crate.
//!
//! Everything the cache-geometry probe learns from the processor comes
//! through the functions here, as plain values of this crate's own types.
//! The values themselves are machine-dependent, so nothing is promised
//! about them beyond what their types carry; the verified folding logic in
//! `cache` states what is computed from them, whatever they are.

use vstd::prelude::*;

verus! {

/// What a CPUID cache-parameter leaf describes, mirroring
/// `raw_cpuid::CacheType` variant for variant.
#[derive(Debug, Clone, Copy, PartialEq, Eq, Structural)]
pub enum LeafType {
    Null,
    Data,
    Instruction,
    Unified,
    Reserved,
}

/// One CPUID cache-parameter leaf, reduced to the fields the probe reads.
#[derive(Debug, Clone, Copy, PartialEq, Eq, Structural)]
pub struct CacheLeaf {
    pub leaf_type: LeafType,
    pub level: u8,
    pub associativity: usize,
    pub sets: usize,
    pub line_bytes: usize,
}

/// A cache associativity report, mirroring `raw_cpuid::Associativity`
/// variant for variant.
#[derive(Debug, Clone, Copy, PartialEq, Eq, Structural)]
pub enum AssocKind {
    Disabled,
    DirectMapped,
    NWay(u8),
    FullyAssociative,
    Unknown,
}

/// The AMD L1/L2/L3 cache descriptor registers, reduced to the fields the
/// probe reads.  Sizes keep the narrow integer types the descriptor leaves
/// report them in: KiB for L1 and L2, 512 KiB units for L3.
#[derive(Debug, Clone, Copy, PartialEq, Eq, Structural)]
pub struct AmdCacheRegs {
    pub l1d_assoc: AssocKind,
    pub l1d_size_kb: u8,
    pub l1d_line_bytes: u8,
    pub l2_assoc: AssocKind,
    pub l2_size_kb: u16,
    pub l2_line_bytes: u8,
    pub l3_assoc: AssocKind,
    pub l3_size_512kb: u16,
    pub l3_line_bytes: u8,
}

#[verifier::external_type_specification]
#[verifier::external_body]
pub struct ExCacheParameter(raw_cpuid::CacheParameter);

#[verifier::external_type_specification]
#[verifier::external_body]
pub struct ExAssociativity(raw_cpuid::Associativity);

/// Relies on `raw_cpuid::CpuId::{new, get_vendor_info}` and
/// `VendorInfo::as_str` for the CPUID vendor identification string, handed
/// back as its bytes.  Which string comes back depends on the machine, so
/// nothing is stated about it.
#[verifier::external_body]
pub fn cpu_vendor_bytes() -> (r: Option<Vec<u8>>) {
    raw_cpuid::CpuId::new().get_vendor_info().map(|v| v.as_str().as_bytes().to_vec())
}

/// Relies on `raw_cpuid::CacheParameter::{cache_type, level, associativity,
/// sets, coherency_line_size}`, moving each field into this crate's
/// `CacheLeaf`, variant for variant for the cache type.
#[verifier::external_body]
fn cache_leaf_of(c: &raw_cpuid::CacheParameter) -> (r: CacheLeaf) {
    CacheLeaf {
        leaf_type: match c.cache_type() {
            raw_cpuid::CacheType::Null => LeafType::Null,
            raw_cpuid::CacheType::Data => LeafType::Data,
            raw_cpuid::CacheType::Instruction => LeafType::Instruction,
            raw_cpuid::CacheType::Unified => LeafType::Unified,
            raw_cpuid::CacheType::Reserved => LeafType::Reserved,
        },
        level: c.level(),
        associativity: c.associativity(),
        sets: c.sets(),
        line_bytes: c.coherency_line_size(),
    }
}

/// Relies on `raw_cpuid::CpuId::{new, get_cache_parameters}`: the
/// cache-parameter leaves of this processor, in enumeration order, each
/// converted by `cache_leaf_of`.  `None` when the leaf is unsupported.
#[verifier::external_body]
pub fn intel_cache_leaves() -> (r: Option<Vec<CacheLeaf>>) {
    let params = raw_cpuid::CpuId::new().get_cache_parameters()?;
    let mut leaves = Vec::new();
    for c in params {
        leaves.push(cache_leaf_of(&c));
    }
    Some(leaves)
}

/// Relies on `raw_cpuid::Associativity`, moved into this crate's
/// `AssocKind` variant for variant.
#[verifier::external_body]
fn assoc_kind_of(a: raw_cpuid::Associativity) -> (r: AssocKind) {
    match a {
        raw_cpuid::Associativity::Disabled => AssocKind::Disabled,
        raw_cpuid::Associativity::DirectMapped => AssocKind::DirectMapped,
        raw_cpuid::Associativity::NWay(n) => AssocKind::NWay(n),
        raw_cpuid::Associativity::FullyAssociative => AssocKind::FullyAssociative,
        raw_cpuid::Associativity::Unknown => AssocKind::Unknown,
    }
}

/// Relies on `raw_cpuid::CpuId::{new, get_l1_cache_and_tlb_info,
/// get_l2_l3_cache_and_tlb_info}` and the nine per-level accessors of the
/// two descriptor structs, each moved into a field of `AmdCacheRegs`.
/// `None` when either descriptor leaf is unsupported.
#[verifier::external_body]
pub fn amd_cache_regs() -> (r: Option<AmdCacheRegs>) {
    let cpuid = raw_cpuid::CpuId::new();
    let l1 = cpuid.get_l1_cache_and_tlb_info()?;
    let l23 = cpuid.get_l2_l3_cache_and_tlb_info()?;
    Some(AmdCacheRegs {
        l1d_assoc: assoc_kind_of(l1.dcache_associativity()),
        l1d_size_kb: l1.dcache_size(),
        l1d_line_bytes: l1.dcache_line_size(),
        l2_assoc: assoc_kind_of(l23.l2cache_associativity()),
        l2_size_kb: l23.l2cache_size(),
        l2_line_bytes: l23.l2cache_line_size(),
        l3_assoc: assoc_kind_of(l23.l3cache_associativity()),
        l3_size_512kb: l23.l3cache_size(),
        l3_line_bytes: l23.l3cache_line_size(),
    })
}

} // verus!
