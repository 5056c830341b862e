//! On-demand conversion of guest memory ranges between private and shared.
//!
//! The convertible areas (file map, private heap, shared heap) are cut into
//! ranges of a few 2 MiB pages; one bit of a bucket tracks each range. A
//! request for an address finds the range that holds it: a range already
//! converted is answered at once, otherwise the TEE platform is asked to
//! convert the whole range, and only a successful conversion marks the range
//! as done.
use vstd::prelude::*;
use vstd::arithmetic::div_mod::{lemma_fundamental_div_mod, lemma_fundamental_div_mod_converse};
use crate::cc_mode::CCMode;
use crate::errors::{Error, EFAULT, EINVAL};
use crate::mem_layout::{
    FILE_MAP_OFFSET, FILE_MAP_SIZE, GUEST_HOST_SHARED_HEAP_OFFSET, GUEST_HOST_SHARED_HEAP_SIZE,
    GUEST_PRIVATE_HEAP_SIZE, GUEST_PRIVATE_INIT_HEAP_OFFSET, ONE_MB, TWO_MB,
};
use crate::tee::{
    lemma_protected_regions,
    initial_heap_accessed,
    TeeState, FMAP_BUCKETS, HEAP_BUCKETS, get_tee_type, is_protected_address, spec_tee_type,
    spec_is_protected_address,
};

verus! {

/// A convertible memory area: its start address and its length.
#[derive(Clone, Copy, Debug, PartialEq, Eq, Structural)]
pub enum GpaArea {
    /// The file-map area, tracked by the file-map buckets.
    FlMap(u64, u64),
    /// The private heap, tracked by the lower half of the heap buckets.
    PrvHeap(u64, u64),
    /// The shared heap, tracked by the upper half of the heap buckets.
    ShrdHeap(u64, u64),
}

impl GpaArea {
    pub open spec fn start(self) -> u64 {
        match self {
            GpaArea::FlMap(s, _) => s,
            GpaArea::PrvHeap(s, _) => s,
            GpaArea::ShrdHeap(s, _) => s,
        }
    }

    pub open spec fn len(self) -> u64 {
        match self {
            GpaArea::FlMap(_, l) => l,
            GpaArea::PrvHeap(_, l) => l,
            GpaArea::ShrdHeap(_, l) => l,
        }
    }

    /// Whether `gpa` lies in `[start, start + len)`.
    pub open spec fn spec_contains_gpa(self, gpa: u64) -> bool {
        self.start() <= gpa && gpa < self.start() + self.len()
    }

    /// Number of 2 MiB pages in one tracked range.
    pub open spec fn npages(self) -> u64 {
        match self {
            GpaArea::FlMap(_, _) => 9,
            _ => 8,
        }
    }

    /// Size in bytes of one tracked range.
    pub open spec fn range_size(self) -> int {
        self.npages() * TWO_MB
    }

    /// Number of ranges one bucket tracks.
    pub open spec fn bits_per_bucket(self) -> int {
        match self {
            GpaArea::FlMap(_, _) => 128,
            _ => 64,
        }
    }

    /// Number of bytes one bucket covers.
    pub open spec fn bucket_range(self) -> int {
        self.bits_per_bucket() * self.range_size()
    }

    /// First bucket index the area searches.
    pub open spec fn bucket_offset(self) -> int {
        match self {
            GpaArea::ShrdHeap(_, _) => 5,
            _ => 0,
        }
    }

    /// One past the last bucket index the area searches.
    pub open spec fn bucket_size(self) -> int {
        match self {
            GpaArea::FlMap(_, _) => 6,
            GpaArea::PrvHeap(_, _) => 5,
            GpaArea::ShrdHeap(_, _) => 10,
        }
    }

    /// Whether `gpa` lies in the area.
    pub fn contains_gpa(&self, gpa: u64) -> (res: bool)
        ensures
            res == self.spec_contains_gpa(gpa),
    {
        let res = match self {
            GpaArea::FlMap(s, l) => *s <= gpa && gpa - *s < *l,
            GpaArea::PrvHeap(s, l) => *s <= gpa && gpa - *s < *l,
            GpaArea::ShrdHeap(s, l) => *s <= gpa && gpa - *s < *l,
        };
        res
    }
}

/// The areas whose memory can be converted, in the order they are searched.
pub open spec fn spec_convert_gpa_areas() -> Seq<GpaArea> {
    seq![
        GpaArea::FlMap(FILE_MAP_OFFSET, FILE_MAP_SIZE),
        GpaArea::PrvHeap(GUEST_PRIVATE_INIT_HEAP_OFFSET, GUEST_PRIVATE_HEAP_SIZE),
        GpaArea::ShrdHeap(GUEST_HOST_SHARED_HEAP_OFFSET, GUEST_HOST_SHARED_HEAP_SIZE),
    ]
}

/// The areas whose memory can be converted.
pub fn convert_gpa_areas() -> (areas: [GpaArea; 3])
    ensures
        areas@ == spec_convert_gpa_areas(),
{
    [
        GpaArea::FlMap(FILE_MAP_OFFSET, FILE_MAP_SIZE),
        GpaArea::PrvHeap(GUEST_PRIVATE_INIT_HEAP_OFFSET, GUEST_PRIVATE_HEAP_SIZE),
        GpaArea::ShrdHeap(GUEST_HOST_SHARED_HEAP_OFFSET, GUEST_HOST_SHARED_HEAP_SIZE),
    ]
}

/// Number of buckets an area searches.
pub open spec fn bucket_count(area: GpaArea) -> int {
    area.bucket_size() - area.bucket_offset()
}

/// The position, among the area's buckets, of the bucket whose bytes hold
/// `addr`: the area's buckets cover consecutive stretches from its start.
pub open spec fn spec_bucket_position(area: GpaArea, addr: u64) -> int {
    (addr - area.start()) / area.bucket_range()
}

/// Whether one of the area's buckets holds `addr`.
pub open spec fn spec_bucket_found(area: GpaArea, addr: u64) -> bool {
    spec_bucket_position(area, addr) < bucket_count(area)
}

/// The bucket entry that holds `addr`: the area's first bucket plus the position.
pub open spec fn spec_bucket_index(area: GpaArea, addr: u64) -> int {
    area.bucket_offset() + spec_bucket_position(area, addr)
}

/// The start of the bytes the bucket holding `addr` covers, from the area start.
pub open spec fn spec_bucket_base(area: GpaArea, addr: u64) -> int {
    spec_bucket_position(area, addr) * area.bucket_range()
}

/// The range index of `addr` inside its bucket, counted from the bucket's
/// lowest bit.
pub open spec fn spec_range_bit(area: GpaArea, addr: u64) -> int {
    (addr - area.start() - spec_bucket_base(area, addr)) / area.range_size()
}

/// The bucket entry, bit mask and start address of the range holding `addr`;
/// all zero when no bucket holds it.
pub open spec fn spec_gpa_range_slot(area: GpaArea, addr: u64) -> (u64, u128, u64) {
    if spec_bucket_found(area, addr) {
        (
            spec_bucket_index(area, addr) as u64,
            1u128 << (spec_range_bit(area, addr) as u128),
            (area.start() + spec_bucket_base(area, addr) + spec_range_bit(area, addr)
                * area.range_size()) as u64,
        )
    } else {
        (0u64, 0u128, 0u64)
    }
}

/// The inputs on which the bucket search of an area runs without arithmetic
/// overflow: the address lies at or past the area start, and every bucket
/// bound the search computes fits in 64 bits.
pub open spec fn gpa_range_status_defined(area: GpaArea, addr: u64) -> bool {
    &&& area.start() <= addr
    &&& area.start() + (if spec_bucket_found(area, addr) {
        spec_bucket_position(area, addr) + 1
    } else {
        bucket_count(area)
    }) * area.bucket_range() <= u64::MAX
}

/// The TEE platform whose firmware converts memory.
#[derive(Clone, Copy, Debug, PartialEq, Eq, Structural)]
pub enum ConversionPlatform {
    SevSnp,
    Tdx,
}

/// The bucket bit that marks a range as converted.
#[allow(inconsistent_fields)]
#[derive(Clone, Copy, Debug, PartialEq, Eq, Structural)]
pub enum AccessBucket {
    /// Bit `mask` of file-map bucket `entry`.
    Fmap { entry: usize, mask: u128 },
    /// Bit `mask` of heap bucket `entry`.
    Heap { entry: usize, mask: u64 },
}

/// A conversion the platform must perform: the `npages` 2 MiB pages from
/// `gpa_address`, with `flag` as the boolean argument of the platform's call,
/// and the bucket bit to set once it succeeds.
#[derive(Clone, Copy, Debug, PartialEq, Eq)]
pub struct GpaConversion {
    pub platform: ConversionPlatform,
    pub gpa_address: u64,
    pub npages: u64,
    pub flag: bool,
    pub bucket: AccessBucket,
}

/// What a conversion request leads to: an answer, or a conversion the
/// platform must perform before `finish_gpa_conversion` gives the answer.
#[derive(Clone, Copy, Debug, PartialEq, Eq)]
pub enum GpaStep {
    Done(Result<bool, Error>),
    Convert(GpaConversion),
}

/// The platform conversion that makes the range at `gpa_address` shared
/// (`shared`) or private, recorded in `bucket`; only SEV-SNP and TDX convert.
pub open spec fn spec_platform_step(
    state: &TeeState,
    gpa_address: u64,
    npages: u64,
    shared: bool,
    bucket: AccessBucket,
) -> GpaStep {
    if spec_tee_type(state) == CCMode::SevSnp {
        GpaStep::Convert(
            GpaConversion {
                platform: ConversionPlatform::SevSnp,
                gpa_address,
                npages,
                flag: shared,
                bucket,
            },
        )
    } else if spec_tee_type(state) == CCMode::TDX {
        GpaStep::Convert(
            GpaConversion {
                platform: ConversionPlatform::Tdx,
                gpa_address,
                npages,
                flag: !shared,
                bucket,
            },
        )
    } else {
        GpaStep::Done(Err(Error::SysError(EFAULT)))
    }
}

/// The answer for a file-map range: already converted, or to be made shared.
pub open spec fn spec_try_gpa_range_set_fmap(
    state: &TeeState,
    entry: usize,
    mask: u128,
    gpa_address: u64,
    npages: u64,
) -> GpaStep {
    if state.fmap_accessed@[entry as int] & mask != 0 {
        GpaStep::Done(Ok(false))
    } else {
        spec_platform_step(state, gpa_address, npages, true, AccessBucket::Fmap { entry, mask })
    }
}

/// The answer for a heap range: already converted, or to be made private
/// (`to_prv`) or shared.
pub open spec fn spec_try_gpa_range_set_heap(
    state: &TeeState,
    entry: usize,
    mask: u64,
    gpa_address: u64,
    npages: u64,
    to_prv: bool,
) -> GpaStep {
    if state.heap_accessed@[entry as int] & mask != 0 {
        GpaStep::Done(Ok(false))
    } else {
        spec_platform_step(state, gpa_address, npages, !to_prv, AccessBucket::Heap { entry, mask })
    }
}

/// Looks up file-map bucket bit `mask` of bucket `entry`: an already
/// converted range is answered with `Ok(false)`; otherwise the platform is
/// asked to make the range at `gpa_address` shared.
pub fn _try_gpa_range_set_fmap(
    state: &TeeState,
    entry: usize,
    mask: u128,
    gpa_address: u64,
    npages: u64,
) -> (step: GpaStep)
    requires
        entry < FMAP_BUCKETS,
    ensures
        step == spec_try_gpa_range_set_fmap(state, entry, mask, gpa_address, npages),
{
    let try_set = (state.fmap_accessed[entry] & mask) == 0u128;
    if try_set {
        let bucket = AccessBucket::Fmap { entry, mask };
        match get_tee_type(state) {
            CCMode::SevSnp => GpaStep::Convert(
                GpaConversion {
                    platform: ConversionPlatform::SevSnp,
                    gpa_address,
                    npages,
                    flag: true,
                    bucket,
                },
            ),
            CCMode::TDX => GpaStep::Convert(
                GpaConversion {
                    platform: ConversionPlatform::Tdx,
                    gpa_address,
                    npages,
                    flag: false,
                    bucket,
                },
            ),
            _ => GpaStep::Done(Err(Error::SysError(EFAULT))),
        }
    } else {
        GpaStep::Done(Ok(false))
    }
}

/// Looks up heap bucket bit `mask` of bucket `entry`: an already converted
/// range is answered with `Ok(false)`; otherwise the platform is asked to
/// make the range at `gpa_address` private (`to_prv`) or shared.
pub fn _try_gpa_range_set_heap(
    state: &TeeState,
    entry: usize,
    mask: u64,
    gpa_address: u64,
    npages: u64,
    to_prv: bool,
) -> (step: GpaStep)
    requires
        entry < HEAP_BUCKETS,
    ensures
        step == spec_try_gpa_range_set_heap(state, entry, mask, gpa_address, npages, to_prv),
{
    let try_set = (state.heap_accessed[entry] & mask) == 0u64;
    if try_set {
        let bucket = AccessBucket::Heap { entry, mask };
        match get_tee_type(state) {
            CCMode::SevSnp => GpaStep::Convert(
                GpaConversion {
                    platform: ConversionPlatform::SevSnp,
                    gpa_address,
                    npages,
                    flag: !to_prv,
                    bucket,
                },
            ),
            CCMode::TDX => GpaStep::Convert(
                GpaConversion {
                    platform: ConversionPlatform::Tdx,
                    gpa_address,
                    npages,
                    flag: to_prv,
                    bucket,
                },
            ),
            _ => GpaStep::Done(Err(Error::SysError(EFAULT))),
        }
    } else {
        GpaStep::Done(Ok(false))
    }
}


/// `x / d` is `i` when `x` lies in `[i * d, (i + 1) * d)`.
proof fn lemma_div_in_block(x: int, d: int, i: int)
    requires
        d > 0,
        i * d <= x,
        x < (i + 1) * d,
    ensures
        x / d == i,
{
    assert((i + 1) * d == i * d + d) by (nonlinear_arith);
    lemma_fundamental_div_mod_converse(x, d, i, x - i * d);
}

/// A multiple `i * d` that does not pass `x` has `i` at most `x / d`.
proof fn lemma_quotient_at_least(x: int, d: int, i: int)
    requires
        d > 0,
        i * d <= x,
    ensures
        i <= x / d,
{
    lemma_fundamental_div_mod(x, d);
    let q = x / d;
    let r = x % d;
    assert(i <= q) by (nonlinear_arith)
        requires
            x == d * q + r,
            r < d,
            i * d <= x,
            d > 0,
    ;
}

/// For `0 <= x < k * d`, the quotient `x / d` is below `k` and its multiple
/// does not pass `x`.
proof fn lemma_div_below(x: int, d: int, k: int)
    requires
        d > 0,
        0 <= x,
        x < k * d,
    ensures
        0 <= x / d < k,
        (x / d) * d <= x,
{
    lemma_fundamental_div_mod(x, d);
    let q = x / d;
    let r = x % d;
    assert(0 <= r < d);
    assert(q * d == d * q) by (nonlinear_arith);
    assert(q >= 0) by (nonlinear_arith)
        requires
            x == d * q + r,
            0 <= x,
            r < d,
            d > 0,
    ;
    assert(q < k) by (nonlinear_arith)
        requires
            x == d * q + r,
            x < k * d,
            0 <= r,
            d > 0,
    ;
}

/// The answer for the range of an area that holds `addr`.
pub open spec fn spec_set_gpa_range_status(state: &TeeState, addr: u64, gpa_area: GpaArea) -> GpaStep {
    let (entry, mask, gpa_address) = spec_gpa_range_slot(gpa_area, addr);
    match gpa_area {
        GpaArea::FlMap(_, _) => spec_try_gpa_range_set_fmap(
            state,
            entry as usize,
            mask,
            gpa_address,
            gpa_area.npages(),
        ),
        GpaArea::PrvHeap(_, _) => spec_try_gpa_range_set_heap(
            state,
            entry as usize,
            mask as u64,
            gpa_address,
            gpa_area.npages(),
            true,
        ),
        GpaArea::ShrdHeap(_, _) => spec_try_gpa_range_set_heap(
            state,
            entry as usize,
            mask as u64,
            gpa_address,
            gpa_area.npages(),
            false,
        ),
    }
}

/// Finds the range of `gpa_area` that holds `addr` by searching the area's
/// buckets in order, each covering the next stretch of the area from its
/// start, and looks its bit up: file-map ranges are made shared,
/// private-heap ranges private and shared-heap ranges shared.
pub fn _set_gpa_range_status(state: &TeeState, addr: u64, gpa_area: &GpaArea) -> (step: GpaStep)
    requires
        gpa_range_status_defined(*gpa_area, addr),
    ensures
        step == spec_set_gpa_range_status(state, addr, *gpa_area),
{
    let (npages, bucket_range, bucket_offset, bucket_size, area_start, _to_prv): (
        u64,
        u64,
        u64,
        u64,
        u64,
        bool,
    ) = match gpa_area {
        GpaArea::FlMap(start, _) => {
            (9, 128 * 9 * TWO_MB, 0u64, FMAP_BUCKETS as u64, *start, false)
        },
        GpaArea::PrvHeap(start, _) => {
            (8, 64 * 8 * TWO_MB, 0u64, (HEAP_BUCKETS / 2) as u64, *start, true)
        },
        GpaArea::ShrdHeap(start, _) => {
            (8, 64 * 8 * TWO_MB, (HEAP_BUCKETS / 2) as u64, HEAP_BUCKETS as u64, *start, false)
        },
    };
    let ghost area = *gpa_area;
    let ghost d: int = addr - area_start;
    assert(npages == area.npages());
    assert(bucket_range == area.bucket_range());
    let mut entry: u64 = 0;
    let mut mask: u128 = 0x0;
    let mut gpa_address: u64 = 0;
    let range_size = npages * TWO_MB;
    let mut i: u64 = bucket_offset;
    proof {
        lemma_quotient_at_least(d, bucket_range as int, 0);
    }
    while i < bucket_size
        invariant_except_break
            bucket_offset <= i <= bucket_size,
            (i - bucket_offset) * bucket_range <= d,
            i - bucket_offset <= spec_bucket_position(area, addr),
            entry == 0,
            mask == 0,
            gpa_address == 0,
        invariant
            area == *gpa_area,
            npages == area.npages(),
            bucket_range == area.bucket_range(),
            bucket_offset == area.bucket_offset(),
            bucket_size == area.bucket_size(),
            area_start == area.start(),
            range_size == area.range_size(),
            d == addr - area_start,
            gpa_range_status_defined(area, addr),
        ensures
            (entry, mask, gpa_address) == spec_gpa_range_slot(area, addr),
        decreases bucket_size - i,
    {
        let level = i - bucket_offset + 1u64;
        proof {
            let bound: int = if spec_bucket_found(area, addr) {
                spec_bucket_position(area, addr) + 1
            } else {
                bucket_count(area)
            };
            assert(level <= bound);
            assert(level * bucket_range <= bound * bucket_range) by (nonlinear_arith)
                requires
                    level <= bound,
                    bucket_range >= 0,
            ;
        }
        if addr < area_start + (level * bucket_range) {
            entry = i;
            let pos = entry - bucket_offset;
            let offset = pos * bucket_range;
            proof {
                lemma_div_in_block(d, bucket_range as int, pos as int);
                assert(spec_bucket_position(area, addr) == pos);
                assert((pos + 1) * bucket_range == pos * bucket_range + bucket_range)
                    by (nonlinear_arith);
                assert(0 <= d - offset < bucket_range);
                lemma_div_below(d - offset, range_size as int, area.bits_per_bucket());
            }
            let bit = (addr - (area_start + offset)) / range_size;
            mask = 1 << bit;
            gpa_address = area_start + offset + (bit * range_size);
            break ;
        }
        proof {
            lemma_quotient_at_least(d, bucket_range as int, level as int);
        }
        i = i + 1;
    }
    let res = match gpa_area {
        GpaArea::FlMap(_, _) => {
            _try_gpa_range_set_fmap(state, entry as usize, mask, gpa_address, npages)
        },
        GpaArea::PrvHeap(_, _) => {
            _try_gpa_range_set_heap(state, entry as usize, mask as u64, gpa_address, npages, true)
        },
        GpaArea::ShrdHeap(_, _) => {
            _try_gpa_range_set_heap(state, entry as usize, mask as u64, gpa_address, npages, false)
        },
    };
    res
}


/// Whether the bucket bit names an existing bucket.
pub open spec fn access_bucket_valid(bucket: AccessBucket) -> bool {
    match bucket {
        AccessBucket::Fmap { entry, mask } => entry < FMAP_BUCKETS,
        AccessBucket::Heap { entry, mask } => entry < HEAP_BUCKETS,
    }
}

/// `new` is `old` with the bit of `bucket` set, and nothing else changed.
pub open spec fn spec_range_marked(old: TeeState, new: TeeState, bucket: AccessBucket) -> bool {
    &&& new.tee_type == old.tee_type
    &&& new.tee_type_set == old.tee_type_set
    &&& new.c_bit_mask == old.c_bit_mask
    &&& new.shared_bit_mask == old.shared_bit_mask
    &&& match bucket {
        AccessBucket::Fmap { entry, mask } => {
            &&& new.fmap_accessed@ == old.fmap_accessed@.update(
                entry as int,
                old.fmap_accessed@[entry as int] | mask,
            )
            &&& new.heap_accessed@ == old.heap_accessed@
        },
        AccessBucket::Heap { entry, mask } => {
            &&& new.heap_accessed@ == old.heap_accessed@.update(
                entry as int,
                old.heap_accessed@[entry as int] | mask,
            )
            &&& new.fmap_accessed@ == old.fmap_accessed@
        },
    }
}

/// Takes the platform's answer to a conversion: a success marks the range
/// as converted; either way the answer is handed back.
pub fn finish_gpa_conversion(
    state: &mut TeeState,
    conversion: &GpaConversion,
    res: Result<bool, Error>,
) -> (r: Result<bool, Error>)
    requires
        access_bucket_valid(conversion.bucket),
    ensures
        r == res,
        res is Ok ==> spec_range_marked(*old(state), *final(state), conversion.bucket),
        res is Err ==> *final(state) == *old(state),
{
    if res.is_ok() {
        match conversion.bucket {
            AccessBucket::Fmap { entry, mask } => {
                state.fmap_accessed[entry] = state.fmap_accessed[entry] | mask;
            },
            AccessBucket::Heap { entry, mask } => {
                state.heap_accessed[entry] = state.heap_accessed[entry] | mask;
            },
        }
    }
    res
}

/// The answer to a request to make `addr` shared with the host
/// (`as_host_shared`) or not: protected memory cannot be shared; otherwise
/// the first convertible area that holds the address answers, and the
/// direction comes from that area.
pub open spec fn spec_set_gpa_status(state: &TeeState, addr: u64, as_host_shared: bool) -> GpaStep {
    let areas = spec_convert_gpa_areas();
    if spec_is_protected_address(addr) && as_host_shared {
        GpaStep::Done(Err(Error::SysError(EINVAL)))
    } else if areas[0].spec_contains_gpa(addr) {
        spec_set_gpa_range_status(state, addr, areas[0])
    } else if areas[1].spec_contains_gpa(addr) {
        spec_set_gpa_range_status(state, addr, areas[1])
    } else if areas[2].spec_contains_gpa(addr) {
        spec_set_gpa_range_status(state, addr, areas[2])
    } else {
        GpaStep::Done(Err(Error::SysError(EINVAL)))
    }
}

/// Where the range of a found address lies: its bucket, its bit in the
/// bucket, and the bytes of the range around the address.
proof fn lemma_slot_facts(area: GpaArea, addr: u64)
    requires
        gpa_range_status_defined(area, addr),
        spec_bucket_found(area, addr),
    ensures
        0 <= spec_bucket_position(area, addr) < bucket_count(area),
        0 <= spec_range_bit(area, addr) < area.bits_per_bucket(),
        0 <= spec_bucket_base(area, addr) <= addr - area.start(),
        spec_range_bit(area, addr) * area.range_size() <= addr - area.start()
            - spec_bucket_base(area, addr),
        addr - area.start() - spec_bucket_base(area, addr) < (spec_range_bit(area, addr) + 1)
            * area.range_size(),
{
    let d: int = addr - area.start();
    let r = area.bucket_range();
    let rs = area.range_size();
    lemma_fundamental_div_mod(d, r);
    let pos = d / r;
    assert(0 <= pos) by (nonlinear_arith)
        requires
            d == r * pos + d % r,
            d >= 0,
            d % r < r,
            r > 0,
    ;
    assert(pos * r <= d) by (nonlinear_arith)
        requires
            d == r * pos + d % r,
            d % r >= 0,
    ;
    assert(0 <= pos * r) by (nonlinear_arith)
        requires
            0 <= pos,
            r > 0,
    ;
    assert(d - pos * r < r) by (nonlinear_arith)
        requires
            d == r * pos + d % r,
            d % r < r,
    ;
    assert(r == area.bits_per_bucket() * rs);
    lemma_div_below(d - pos * r, rs, area.bits_per_bucket());
    let x = d - pos * r;
    lemma_fundamental_div_mod(x, rs);
    assert(x < (x / rs + 1) * rs) by (nonlinear_arith)
        requires
            x == rs * (x / rs) + x % rs,
            x % rs < rs,
    ;
}

/// In the convertible areas every address has a bucket, and the bucket
/// search runs without overflow.
proof fn lemma_convertible_address_found(addr: u64, k: int)
    requires
        0 <= k < 3,
        spec_convert_gpa_areas()[k].spec_contains_gpa(addr),
    ensures
        gpa_range_status_defined(spec_convert_gpa_areas()[k], addr),
        spec_bucket_found(spec_convert_gpa_areas()[k], addr),
{
    let area = spec_convert_gpa_areas()[k];
    let d: int = addr - area.start();
    if k == 0 {
        assert(area == GpaArea::FlMap(FILE_MAP_OFFSET, FILE_MAP_SIZE));
        assert(area.bucket_range() == 0x9000_0000);
        assert(bucket_count(area) == 6);
    } else if k == 1 {
        assert(area == GpaArea::PrvHeap(GUEST_PRIVATE_INIT_HEAP_OFFSET, GUEST_PRIVATE_HEAP_SIZE));
        assert(area.bucket_range() == 0x4000_0000);
        assert(bucket_count(area) == 5);
    } else {
        assert(area == GpaArea::ShrdHeap(GUEST_HOST_SHARED_HEAP_OFFSET, GUEST_HOST_SHARED_HEAP_SIZE));
        assert(area.bucket_range() == 0x4000_0000);
        assert(bucket_count(area) == 5);
    }
    assert(area.len() <= bucket_count(area) * area.bucket_range());
    lemma_div_below(d, area.bucket_range(), bucket_count(area));
    let pos = spec_bucket_position(area, addr);
    assert((pos + 1) * area.bucket_range() <= bucket_count(area) * area.bucket_range())
        by (nonlinear_arith)
        requires
            pos < bucket_count(area),
            area.bucket_range() > 0,
    ;
}

/// Requests that the memory range holding `addr` becomes shared with the
/// host (`as_host_shared`) or private. Protected memory cannot be shared,
/// and only addresses of the convertible areas can change.
pub fn set_gpa_status(state: &TeeState, addr: u64, as_host_shared: bool) -> (step: GpaStep)
    ensures
        step == spec_set_gpa_status(state, addr, as_host_shared),
{
    if is_protected_address(addr) && as_host_shared {
        return GpaStep::Done(Err(Error::SysError(EINVAL)));
    }
    let areas = convert_gpa_areas();
    let mut i: usize = 0;
    while i < 3
        invariant
            0 <= i <= 3,
            areas@ == spec_convert_gpa_areas(),
            !(spec_is_protected_address(addr) && as_host_shared),
            forall|j: int| 0 <= j < i ==> !areas@[j].spec_contains_gpa(addr),
        decreases 3 - i,
    {
        if areas[i].contains_gpa(addr) {
            proof {
                lemma_convertible_address_found(addr, i as int);
            }
            return _set_gpa_range_status(state, addr, &areas[i]);
        }
        i = i + 1;
    }
    return GpaStep::Done(Err(Error::SysError(EINVAL)));
}

/// A request that is not refused up front is answered by the first
/// convertible area that holds the address, whichever direction was asked
/// for; outside protected memory both directions get the same answer.
pub proof fn lemma_set_gpa_status_delegates(
    state: &TeeState,
    addr: u64,
    as_host_shared: bool,
    k: int,
)
    requires
        0 <= k < 3,
        spec_convert_gpa_areas()[k].spec_contains_gpa(addr),
        forall|j: int| 0 <= j < k ==> !(#[trigger] spec_convert_gpa_areas()[j]).spec_contains_gpa(addr),
        !(spec_is_protected_address(addr) && as_host_shared),
    ensures
        spec_set_gpa_status(state, addr, as_host_shared) == spec_set_gpa_range_status(
            state,
            addr,
            spec_convert_gpa_areas()[k],
        ),
        !spec_is_protected_address(addr) ==> spec_set_gpa_status(state, addr, true)
            == spec_set_gpa_status(state, addr, false),
{
    let areas = spec_convert_gpa_areas();
    if k >= 1 {
        assert(!areas[0].spec_contains_gpa(addr));
    }
    if k >= 2 {
        assert(!areas[1].spec_contains_gpa(addr));
    }
}

/// The bucket bit that tracks the range of an area holding `addr`.
pub open spec fn spec_area_bucket(area: GpaArea, addr: u64) -> AccessBucket {
    let (entry, mask, _) = spec_gpa_range_slot(area, addr);
    match area {
        GpaArea::FlMap(_, _) => AccessBucket::Fmap { entry: entry as usize, mask },
        _ => AccessBucket::Heap { entry: entry as usize, mask: mask as u64 },
    }
}

/// Every conversion the bucket search of an area asks for is for the range
/// that holds the address: the range starts at or before it, its `npages`
/// 2 MiB pages reach past it, and success marks that range's own bit.
pub proof fn lemma_range_status_covers_address(
    state: &TeeState,
    addr: u64,
    area: GpaArea,
    conversion: GpaConversion,
)
    requires
        gpa_range_status_defined(area, addr),
        spec_bucket_found(area, addr),
        spec_set_gpa_range_status(state, addr, area) == GpaStep::Convert(conversion),
    ensures
        conversion.gpa_address <= addr,
        addr < conversion.gpa_address + conversion.npages * TWO_MB,
        conversion.bucket == spec_area_bucket(area, addr),
        access_bucket_valid(conversion.bucket),
{
    lemma_slot_facts(area, addr);
    let bit = spec_range_bit(area, addr);
    let rs = area.range_size();
    assert((bit + 1) * rs == bit * rs + rs) by (nonlinear_arith);
    assert(conversion.npages == area.npages());
}

/// The address reaches the bucket search of area `k`, and the answer is
/// that of this area, in any state.
proof fn lemma_request_area(state: &TeeState, addr: u64, as_host_shared: bool) -> (k: int)
    requires
        spec_set_gpa_status(state, addr, as_host_shared) is Convert,
    ensures
        0 <= k < 3,
        spec_convert_gpa_areas()[k].spec_contains_gpa(addr),
        gpa_range_status_defined(spec_convert_gpa_areas()[k], addr),
        spec_bucket_found(spec_convert_gpa_areas()[k], addr),
        !(spec_is_protected_address(addr) && as_host_shared),
        forall|other: TeeState|
            spec_set_gpa_status(&other, addr, as_host_shared) == spec_set_gpa_range_status(
                &other,
                addr,
                spec_convert_gpa_areas()[k],
            ),
{
    let areas = spec_convert_gpa_areas();
    let k: int = if areas[0].spec_contains_gpa(addr) {
        0
    } else if areas[1].spec_contains_gpa(addr) {
        1
    } else {
        2
    };
    assert(areas[k].spec_contains_gpa(addr));
    lemma_convertible_address_found(addr, k);
    k
}

/// The conversion the platform is asked for covers the requested address:
/// the range starts at or before it and its `npages` 2 MiB pages reach past it.
pub proof fn lemma_conversion_covers_address(
    state: &TeeState,
    addr: u64,
    as_host_shared: bool,
    conversion: GpaConversion,
)
    requires
        spec_set_gpa_status(state, addr, as_host_shared) == GpaStep::Convert(conversion),
    ensures
        conversion.gpa_address <= addr,
        addr < conversion.gpa_address + conversion.npages * TWO_MB,
        access_bucket_valid(conversion.bucket),
{
    let k = lemma_request_area(state, addr, as_host_shared);
    lemma_range_status_covers_address(state, addr, spec_convert_gpa_areas()[k], conversion);
}

/// Bit `bit` of a bucket, once set, is seen by the lookup of the same bit.
proof fn lemma_marked_bit_seen(b: u128, c: u64, bit: u128)
    requires
        bit < 128,
    ensures
        (b | (1u128 << bit)) & (1u128 << bit) != 0,
        bit < 64 ==> (c | ((1u128 << bit) as u64)) & ((1u128 << bit) as u64) != 0,
{
    assert((b | (1u128 << bit)) & (1u128 << bit) != 0) by (bit_vector)
        requires
            bit < 128,
    ;
    assert(bit < 64 ==> (c | ((1u128 << bit) as u64)) & ((1u128 << bit) as u64) != 0)
        by (bit_vector);
}

/// A range converted once is not converted again: once the platform has
/// converted the range holding `addr` and the success was recorded, a new
/// request for `addr` is answered `Ok(false)` without asking the platform.
pub proof fn lemma_converted_range_not_converted_again(
    state: TeeState,
    addr: u64,
    as_host_shared: bool,
    conversion: GpaConversion,
    after: TeeState,
)
    requires
        spec_set_gpa_status(&state, addr, as_host_shared) == GpaStep::Convert(conversion),
        spec_range_marked(state, after, conversion.bucket),
    ensures
        spec_set_gpa_status(&after, addr, as_host_shared) == GpaStep::Done(Ok(false)),
{
    let k = lemma_request_area(&state, addr, as_host_shared);
    let area = spec_convert_gpa_areas()[k];
    lemma_slot_facts(area, addr);
    let bit = spec_range_bit(area, addr);
    let entry = spec_bucket_index(area, addr);
    lemma_marked_bit_seen(
        state.fmap_accessed@[entry],
        state.heap_accessed@[entry],
        bit as u128,
    );
    assert(spec_tee_type(&after) == spec_tee_type(&state));
}

/// Setting one bucket bit leaves the lookup of any other bit unchanged.
proof fn lemma_other_bit_unchanged(x: u128, y: u64, a: u128, b: u128)
    requires
        a < 128,
        b < 128,
        a != b,
    ensures
        (x | (1u128 << a)) & (1u128 << b) == x & (1u128 << b),
        a < 64 && b < 64 ==> (y | ((1u128 << a) as u64)) & ((1u128 << b) as u64) == y & ((1u128
            << b) as u64),
{
    assert((x | (1u128 << a)) & (1u128 << b) == x & (1u128 << b)) by (bit_vector)
        requires
            a < 128,
            b < 128,
            a != b,
    ;
    assert(a < 64 && b < 64 ==> (y | ((1u128 << a) as u64)) & ((1u128 << b) as u64) == y & ((1u128
        << b) as u64)) by (bit_vector)
        requires
            a != b,
    ;
}

/// A conversion touches only its own range: a request for an address whose
/// range is tracked by another bucket bit gets the same answer before and
/// after the conversion is recorded.
pub proof fn lemma_conversion_leaves_other_ranges(
    state: TeeState,
    addr: u64,
    as_host_shared: bool,
    conversion: GpaConversion,
    after: TeeState,
    other_addr: u64,
    other_shared: bool,
    k: int,
)
    requires
        spec_set_gpa_status(&state, addr, as_host_shared) == GpaStep::Convert(conversion),
        spec_range_marked(state, after, conversion.bucket),
        0 <= k < 3,
        spec_convert_gpa_areas()[k].spec_contains_gpa(other_addr),
        spec_area_bucket(spec_convert_gpa_areas()[k], other_addr) != conversion.bucket,
    ensures
        spec_set_gpa_status(&after, other_addr, other_shared) == spec_set_gpa_status(
            &state,
            other_addr,
            other_shared,
        ),
{
    let areas = spec_convert_gpa_areas();
    let k1 = lemma_request_area(&state, addr, as_host_shared);
    let area1 = areas[k1];
    lemma_slot_facts(area1, addr);
    if spec_is_protected_address(other_addr) && other_shared {
    } else {
        let area2 = areas[k];
        lemma_convertible_address_found(other_addr, k);
        lemma_slot_facts(area2, other_addr);
        assert(spec_set_gpa_status(&state, other_addr, other_shared) == spec_set_gpa_range_status(
            &state,
            other_addr,
            area2,
        ));
        assert(spec_set_gpa_status(&after, other_addr, other_shared) == spec_set_gpa_range_status(
            &after,
            other_addr,
            area2,
        ));
        let e1 = spec_bucket_index(area1, addr);
        let e2 = spec_bucket_index(area2, other_addr);
        let b1 = spec_range_bit(area1, addr);
        let b2 = spec_range_bit(area2, other_addr);
        assert(spec_tee_type(&after) == spec_tee_type(&state));
        if e1 == e2 && b1 != b2 {
            lemma_other_bit_unchanged(
                state.fmap_accessed@[e2],
                state.heap_accessed@[e2],
                b1 as u128,
                b2 as u128,
            );
        }
        if e1 == e2 && b1 == b2 {
            assert(spec_area_bucket(area2, other_addr) == conversion.bucket ==> false);
        }
    }
}


/// The boot bits cover the ranges the kernel starts with.
proof fn lemma_boot_bits(bit: u128)
    ensures
        bit < 64 ==> 0xFFFF_FFFF_FFFF_FFFFu64 & ((1u128 << bit) as u64) != 0,
        bit < 11 ==> 0x7FFu64 & ((1u128 << bit) as u64) != 0,
        bit < 12 ==> 0xFFFu64 & ((1u128 << bit) as u64) != 0,
{
    assert(bit < 64 ==> 0xFFFF_FFFF_FFFF_FFFFu64 & ((1u128 << bit) as u64) != 0) by (bit_vector);
    assert(bit < 11 ==> 0x7FFu64 & ((1u128 << bit) as u64) != 0) by (bit_vector);
    assert(bit < 12 ==> 0xFFFu64 & ((1u128 << bit) as u64) != 0) by (bit_vector);
}

/// The memory the kernel starts with is already converted: with the heap
/// bits of boot, a request for the first 1200 MiB of the private heap or the
/// first 192 MiB of the shared heap is answered `Ok(false)` without asking
/// the platform (unless it asks to share protected memory, which is refused).
pub proof fn lemma_boot_heap_ranges_done(state: &TeeState, addr: u64, as_host_shared: bool)
    requires
        state.heap_accessed@ == initial_heap_accessed(),
        (GUEST_PRIVATE_INIT_HEAP_OFFSET <= addr && addr < GUEST_PRIVATE_INIT_HEAP_OFFSET + 1200
            * ONE_MB) || (GUEST_HOST_SHARED_HEAP_OFFSET <= addr && addr
            < GUEST_HOST_SHARED_HEAP_OFFSET + 192 * ONE_MB),
    ensures
        GUEST_PRIVATE_INIT_HEAP_OFFSET <= addr ==> spec_set_gpa_range_status(
            state,
            addr,
            spec_convert_gpa_areas()[if addr < GUEST_HOST_SHARED_HEAP_OFFSET {
                1int
            } else {
                2int
            }],
        ) == GpaStep::Done(Ok(false)),
        !(spec_is_protected_address(addr) && as_host_shared) ==> spec_set_gpa_status(
            state,
            addr,
            as_host_shared,
        ) == GpaStep::Done(Ok(false)),
{
    let k: int = if addr < GUEST_HOST_SHARED_HEAP_OFFSET {
        1
    } else {
        2
    };
    let area = spec_convert_gpa_areas()[k];
    lemma_convertible_address_found(addr, k);
    lemma_slot_facts(area, addr);
    let d: int = addr - area.start();
    let r = area.bucket_range();
    let rs = area.range_size();
    assert(r == 0x4000_0000);
    assert(rs == 0x100_0000);
    let bit = spec_range_bit(area, addr);
    if d < r {
        lemma_div_in_block(d, r, 0);
    } else {
        assert(k == 1) by {
            if k == 2 {
                assert(addr < GUEST_HOST_SHARED_HEAP_OFFSET + 192 * ONE_MB);
                assert(d < 192 * ONE_MB);
            }
        }
        assert(addr < GUEST_PRIVATE_INIT_HEAP_OFFSET + 1200 * ONE_MB);
        assert(area.start() == GUEST_PRIVATE_INIT_HEAP_OFFSET);
        assert(d < 2 * r);
        assert((1 + 1) * r == 2 * r);
        lemma_div_in_block(d, r, 1);
        lemma_div_below(d - r, rs, 11);
    }
    if k == 2 {
        lemma_div_below(d, rs, 12);
    }
    lemma_boot_bits(bit as u128);
    if !(spec_is_protected_address(addr) && as_host_shared) {
        lemma_set_gpa_status_delegates(state, addr, as_host_shared, k);
    }
}


/// The convertible areas do not overlap.
proof fn lemma_areas_disjoint(addr: u64)
    ensures
        !(spec_convert_gpa_areas()[0].spec_contains_gpa(addr)
            && spec_convert_gpa_areas()[1].spec_contains_gpa(addr)),
        !(spec_convert_gpa_areas()[0].spec_contains_gpa(addr)
            && spec_convert_gpa_areas()[2].spec_contains_gpa(addr)),
        !(spec_convert_gpa_areas()[1].spec_contains_gpa(addr)
            && spec_convert_gpa_areas()[2].spec_contains_gpa(addr)),
{
}

/// Sharing any address of the private heap is refused with `EINVAL`.
pub proof fn lemma_private_heap_never_shared(state: &TeeState, gpa: u64)
    requires
        GUEST_PRIVATE_INIT_HEAP_OFFSET <= gpa < GUEST_PRIVATE_INIT_HEAP_OFFSET
            + GUEST_PRIVATE_HEAP_SIZE,
    ensures
        spec_set_gpa_status(state, gpa, true) == GpaStep::Done(Err(Error::SysError(EINVAL))),
{
    lemma_protected_regions(gpa);
}

/// The bucket position and bit of an address come from the number of whole
/// ranges between the area start and the address.
proof fn lemma_slot_from_range_index(area: GpaArea, addr: u64)
    requires
        area.start() <= addr,
    ensures
        spec_bucket_position(area, addr) == ((addr - area.start()) / area.range_size())
            / area.bits_per_bucket(),
        spec_range_bit(area, addr) == ((addr - area.start()) / area.range_size())
            % area.bits_per_bucket(),
{
    let d: int = addr - area.start();
    let rs = area.range_size();
    let kb = area.bits_per_bucket();
    let r = area.bucket_range();
    assert(r == kb * rs);
    lemma_fundamental_div_mod(d, rs);
    let q = d / rs;
    let rr = d % rs;
    lemma_fundamental_div_mod(q, kb);
    let p = q / kb;
    let b = q % kb;
    assert(0 <= rr < rs);
    assert(0 <= b < kb);
    assert(d == p * r + b * rs + rr) by (nonlinear_arith)
        requires
            d == rs * q + rr,
            q == kb * p + b,
            r == kb * rs,
    ;
    assert(b * rs + rr < r) by (nonlinear_arith)
        requires
            b + 1 <= kb,
            rr < rs,
            r == kb * rs,
            rs > 0,
    ;
    assert(0 <= b * rs) by (nonlinear_arith)
        requires
            b >= 0,
            rs > 0,
    ;
    assert(p * r <= d < (p + 1) * r) by (nonlinear_arith)
        requires
            d == p * r + b * rs + rr,
            0 <= b * rs + rr < r,
    ;
    lemma_div_in_block(d, r, p);
    assert(b * rs <= b * rs + rr < (b + 1) * rs) by (nonlinear_arith)
        requires
            0 <= rr < rs,
    ;
    lemma_div_in_block(d - p * r, rs, b);
}

/// The heap mask of a bit below 64 is that bit of a 64-bit word.
proof fn lemma_heap_mask(bit: u128)
    requires
        bit < 64,
    ensures
        ((1u128 << bit) as u64) == 1u64 << (bit as u64),
{
    assert(((1u128 << bit) as u64) == 1u64 << (bit as u64)) by (bit_vector)
        requires
            bit < 64,
    ;
}

/// The bit that tracks an address. Counting the whole ranges from the area
/// start to the address (ranges of 9 pages of 2 MiB in the file map, of 8
/// in the heaps), range `q` of the file map is bit `q % 128` of file-map
/// bucket `q / 128`; range `q` of a heap is bit `q % 64` of heap bucket
/// `q / 64`, counted from bucket 0 for the private heap and from bucket 5
/// for the shared heap.
pub proof fn lemma_bucket_of_address(addr: u64, k: int)
    requires
        0 <= k < 3,
        spec_convert_gpa_areas()[k].spec_contains_gpa(addr),
    ensures
        k == 0 ==> spec_area_bucket(spec_convert_gpa_areas()[k], addr) == (AccessBucket::Fmap {
            entry: ((addr - FILE_MAP_OFFSET) / (9 * TWO_MB) / 128) as usize,
            mask: 1u128 << (((addr - FILE_MAP_OFFSET) / (9 * TWO_MB) % 128) as u128),
        }),
        k == 1 ==> spec_area_bucket(spec_convert_gpa_areas()[k], addr) == (AccessBucket::Heap {
            entry: ((addr - GUEST_PRIVATE_INIT_HEAP_OFFSET) / (8 * TWO_MB) / 64) as usize,
            mask: 1u64 << (((addr - GUEST_PRIVATE_INIT_HEAP_OFFSET) / (8 * TWO_MB) % 64) as u64),
        }),
        k == 2 ==> spec_area_bucket(spec_convert_gpa_areas()[k], addr) == (AccessBucket::Heap {
            entry: (5 + (addr - GUEST_HOST_SHARED_HEAP_OFFSET) / (8 * TWO_MB) / 64) as usize,
            mask: 1u64 << (((addr - GUEST_HOST_SHARED_HEAP_OFFSET) / (8 * TWO_MB) % 64) as u64),
        }),
{
    let area = spec_convert_gpa_areas()[k];
    lemma_convertible_address_found(addr, k);
    lemma_slot_facts(area, addr);
    lemma_slot_from_range_index(area, addr);
    let bit = spec_range_bit(area, addr);
    if k > 0 {
        lemma_heap_mask(bit as u128);
    }
}

/// Whether the bucket bit is set in the state.
pub open spec fn bucket_bit_set(state: &TeeState, bucket: AccessBucket) -> bool {
    match bucket {
        AccessBucket::Fmap { entry, mask } => state.fmap_accessed@[entry as int] & mask != 0,
        AccessBucket::Heap { entry, mask } => state.heap_accessed@[entry as int] & mask != 0,
    }
}

/// How a request for an address of a convertible area is answered, by the
/// bit that tracks its range: `Ok(false)` exactly when that bit is set. With
/// the bit clear, SEV-SNP and TDX are asked to convert the range, to private
/// for the private heap and to shared otherwise, and a success sets that
/// bit; every other platform fails with `EFAULT`.
pub proof fn lemma_answer_follows_bucket_bit(
    state: &TeeState,
    addr: u64,
    as_host_shared: bool,
    k: int,
)
    requires
        0 <= k < 3,
        spec_convert_gpa_areas()[k].spec_contains_gpa(addr),
        !(spec_is_protected_address(addr) && as_host_shared),
    ensures
        (spec_set_gpa_status(state, addr, as_host_shared) == GpaStep::Done(Ok(false)))
            == bucket_bit_set(state, spec_area_bucket(spec_convert_gpa_areas()[k], addr)),
        !bucket_bit_set(state, spec_area_bucket(spec_convert_gpa_areas()[k], addr))
            && spec_tee_type(state) == CCMode::SevSnp ==> (spec_set_gpa_status(
            state,
            addr,
            as_host_shared,
        ) matches GpaStep::Convert(c) && c.platform == ConversionPlatform::SevSnp && c.flag == (k
            != 1) && c.bucket == spec_area_bucket(spec_convert_gpa_areas()[k], addr)),
        !bucket_bit_set(state, spec_area_bucket(spec_convert_gpa_areas()[k], addr))
            && spec_tee_type(state) == CCMode::TDX ==> (spec_set_gpa_status(
            state,
            addr,
            as_host_shared,
        ) matches GpaStep::Convert(c) && c.platform == ConversionPlatform::Tdx && c.flag == (k
            == 1) && c.bucket == spec_area_bucket(spec_convert_gpa_areas()[k], addr)),
        !bucket_bit_set(state, spec_area_bucket(spec_convert_gpa_areas()[k], addr))
            && spec_tee_type(state) != CCMode::SevSnp && spec_tee_type(state) != CCMode::TDX
            ==> spec_set_gpa_status(state, addr, as_host_shared) == GpaStep::Done(
            Err(Error::SysError(EFAULT)),
        ),
{
    lemma_areas_disjoint(addr);
    lemma_set_gpa_status_delegates(state, addr, as_host_shared, k);
    lemma_convertible_address_found(addr, k);
}

/// A conversion is for exactly the range that the address's bit tracks: 9
/// pages of 2 MiB in the file map and 8 in the heaps, starting a whole
/// number of ranges past the area start, and holding the address.
pub proof fn lemma_conversion_is_tracked_range(
    state: &TeeState,
    addr: u64,
    as_host_shared: bool,
    k: int,
    conversion: GpaConversion,
)
    requires
        0 <= k < 3,
        spec_convert_gpa_areas()[k].spec_contains_gpa(addr),
        spec_set_gpa_status(state, addr, as_host_shared) == GpaStep::Convert(conversion),
    ensures
        conversion.npages == (if k == 0 {
            9int
        } else {
            8int
        }),
        spec_convert_gpa_areas()[k].start() <= conversion.gpa_address <= addr,
        addr < conversion.gpa_address + conversion.npages * TWO_MB,
        (conversion.gpa_address - spec_convert_gpa_areas()[k].start()) % (conversion.npages
            * TWO_MB) == 0,
{
    let area = spec_convert_gpa_areas()[k];
    lemma_areas_disjoint(addr);
    lemma_set_gpa_status_delegates(state, addr, as_host_shared, k);
    lemma_convertible_address_found(addr, k);
    lemma_range_status_covers_address(state, addr, area, conversion);
    lemma_slot_facts(area, addr);
    let pos = spec_bucket_position(area, addr);
    let bit = spec_range_bit(area, addr);
    let rs = area.range_size();
    let kb = area.bits_per_bucket();
    assert(area.bucket_range() == kb * rs);
    let off: int = conversion.gpa_address - area.start();
    assert(off == pos * area.bucket_range() + bit * rs);
    assert(off == (pos * kb + bit) * rs + 0) by (nonlinear_arith)
        requires
            off == pos * (kb * rs) + bit * rs,
    ;
    lemma_fundamental_div_mod_converse(off, rs, pos * kb + bit, 0);
}

/// All addresses of one tracked range get the same answer: the addresses of
/// an area that lie the same number of whole ranges past its start.
pub proof fn lemma_same_range_same_answer(
    state: &TeeState,
    addr: u64,
    other: u64,
    as_host_shared: bool,
    k: int,
)
    requires
        0 <= k < 3,
        spec_convert_gpa_areas()[k].spec_contains_gpa(addr),
        spec_convert_gpa_areas()[k].spec_contains_gpa(other),
        (addr - spec_convert_gpa_areas()[k].start()) / (spec_convert_gpa_areas()[k].npages()
            * TWO_MB) == (other - spec_convert_gpa_areas()[k].start()) / (
        spec_convert_gpa_areas()[k].npages() * TWO_MB),
    ensures
        spec_set_gpa_status(state, other, as_host_shared) == spec_set_gpa_status(
            state,
            addr,
            as_host_shared,
        ),
{
    let area = spec_convert_gpa_areas()[k];
    lemma_areas_disjoint(addr);
    lemma_areas_disjoint(other);
    lemma_protected_regions(addr);
    lemma_protected_regions(other);
    assert(spec_is_protected_address(addr) == spec_is_protected_address(other));
    if !(spec_is_protected_address(addr) && as_host_shared) {
        lemma_set_gpa_status_delegates(state, addr, as_host_shared, k);
        lemma_set_gpa_status_delegates(state, other, as_host_shared, k);
        lemma_convertible_address_found(addr, k);
        lemma_convertible_address_found(other, k);
        lemma_slot_from_range_index(area, addr);
        lemma_slot_from_range_index(area, other);
        assert(spec_gpa_range_slot(area, addr) == spec_gpa_range_slot(area, other));
    }
}


/// The requests refused with `EINVAL`: sharing protected memory, and any
/// request for an address outside the file-map area and the two heaps.
pub proof fn lemma_refused_requests(state: &TeeState, addr: u64, as_host_shared: bool)
    ensures
        spec_is_protected_address(addr) && as_host_shared ==> spec_set_gpa_status(
            state,
            addr,
            as_host_shared,
        ) == GpaStep::Done(Err(Error::SysError(EINVAL))),
        !(FILE_MAP_OFFSET <= addr < FILE_MAP_OFFSET + FILE_MAP_SIZE) && !(
        GUEST_PRIVATE_INIT_HEAP_OFFSET <= addr < GUEST_PRIVATE_INIT_HEAP_OFFSET
            + GUEST_PRIVATE_HEAP_SIZE) && !(GUEST_HOST_SHARED_HEAP_OFFSET <= addr
            < GUEST_HOST_SHARED_HEAP_OFFSET + GUEST_HOST_SHARED_HEAP_SIZE) ==> spec_set_gpa_status(
            state,
            addr,
            as_host_shared,
        ) == GpaStep::Done(Err(Error::SysError(EINVAL))),
{
}

} // verus!
