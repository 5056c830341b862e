use quark::cc_mode::CCMode;
use quark::errors::{Error, EFAULT, EINVAL};
use quark::gpa_status::{
    _set_gpa_range_status, _try_gpa_range_set_fmap, _try_gpa_range_set_heap, convert_gpa_areas,
    finish_gpa_conversion, set_gpa_status, AccessBucket, ConversionPlatform, GpaArea,
    GpaConversion, GpaStep,
};
use quark::mem_layout::{
    FILE_MAP_OFFSET, FILE_MAP_SIZE, GUEST_HOST_SHARED_HEAP_OFFSET, GUEST_HOST_SHARED_HEAP_SIZE,
    GUEST_PRIVATE_INIT_HEAP_OFFSET, ONE_GB,
    ONE_MB, TWO_MB,
};
use quark::tee::{set_tee_type, TeeState};

fn state_in(mode: CCMode) -> TeeState {
    let mut s = TeeState::new();
    set_tee_type(&mut s, mode);
    s
}

const FMAP_BUCKET_RANGE: u64 = 128 * 9 * TWO_MB;
const FMAP_RANGE: u64 = 9 * TWO_MB;
const HEAP_RANGE: u64 = 8 * TWO_MB;

fn expect_convert(step: GpaStep) -> GpaConversion {
    match step {
        GpaStep::Convert(c) => c,
        other => panic!("expected a conversion, got {:?}", other),
    }
}

#[test]
fn protected_memory_cannot_be_shared() {
    let s = state_in(CCMode::SevSnp);
    assert_eq!(
        set_gpa_status(&s, GUEST_PRIVATE_INIT_HEAP_OFFSET, true),
        GpaStep::Done(Err(Error::SysError(EINVAL)))
    );
}

#[test]
fn address_outside_the_areas_is_rejected() {
    let s = state_in(CCMode::SevSnp);
    assert_eq!(set_gpa_status(&s, 0x1000, false), GpaStep::Done(Err(Error::SysError(EINVAL))));
}

#[test]
fn file_map_range_is_converted_once() {
    let mut s = state_in(CCMode::SevSnp);
    let addr = FILE_MAP_OFFSET + FMAP_BUCKET_RANGE + 3 * FMAP_RANGE + 5;
    let conv = expect_convert(set_gpa_status(&s, addr, true));
    assert_eq!(
        conv,
        GpaConversion {
            platform: ConversionPlatform::SevSnp,
            gpa_address: FILE_MAP_OFFSET + FMAP_BUCKET_RANGE + 3 * FMAP_RANGE,
            npages: 9,
            flag: true,
            bucket: AccessBucket::Fmap { entry: 1, mask: 1 << 3 },
        }
    );
    assert_eq!(finish_gpa_conversion(&mut s, &conv, Ok(true)), Ok(true));
    assert_eq!(s.fmap_accessed[1], 1 << 3);
    // the same range, through another of its addresses, needs no conversion now
    assert_eq!(set_gpa_status(&s, addr + ONE_MB, true), GpaStep::Done(Ok(false)));
    assert_eq!(set_gpa_status(&s, addr - 5, false), GpaStep::Done(Ok(false)));
    // the next range still does
    let next = expect_convert(set_gpa_status(&s, addr + FMAP_RANGE, true));
    assert_eq!(next.bucket, AccessBucket::Fmap { entry: 1, mask: 1 << 4 });
}

#[test]
fn failed_conversion_is_not_recorded() {
    let mut s = state_in(CCMode::TDX);
    let addr = FILE_MAP_OFFSET;
    let conv = expect_convert(set_gpa_status(&s, addr, true));
    assert_eq!(conv.platform, ConversionPlatform::Tdx);
    assert!(!conv.flag);
    assert_eq!(conv.bucket, AccessBucket::Fmap { entry: 0, mask: 1 });
    let before = s.fmap_accessed;
    assert_eq!(
        finish_gpa_conversion(&mut s, &conv, Err(Error::SysError(EFAULT))),
        Err(Error::SysError(EFAULT))
    );
    assert_eq!(s.fmap_accessed, before);
    assert_eq!(set_gpa_status(&s, addr, true), GpaStep::Convert(conv));
}

#[test]
fn platform_without_conversion_fails_with_efault() {
    let s = state_in(CCMode::Cca);
    assert_eq!(
        set_gpa_status(&s, FILE_MAP_OFFSET, true),
        GpaStep::Done(Err(Error::SysError(EFAULT)))
    );
    let s = TeeState::new();
    assert_eq!(
        set_gpa_status(&s, FILE_MAP_OFFSET, false),
        GpaStep::Done(Err(Error::SysError(EFAULT)))
    );
}

#[test]
fn boot_ranges_are_already_done() {
    let s = state_in(CCMode::TDX);
    // the first 1200 MiB of the private heap
    for off in [0, 77 * ONE_MB, ONE_GB, ONE_GB + 100 * ONE_MB, 1200 * ONE_MB - 1] {
        assert_eq!(set_gpa_status(&s, GUEST_PRIVATE_INIT_HEAP_OFFSET + off, false), GpaStep::Done(Ok(false)));
    }
    let conv = expect_convert(set_gpa_status(&s, GUEST_PRIVATE_INIT_HEAP_OFFSET + 1200 * ONE_MB, false));
    assert_eq!(conv.bucket, AccessBucket::Heap { entry: 1, mask: 1 << 11 });
    // the first 192 MiB of the shared heap
    for off in [0, 100 * ONE_MB, 192 * ONE_MB - 1] {
        assert_eq!(set_gpa_status(&s, GUEST_HOST_SHARED_HEAP_OFFSET + off, true), GpaStep::Done(Ok(false)));
        assert_eq!(set_gpa_status(&s, GUEST_HOST_SHARED_HEAP_OFFSET + off, false), GpaStep::Done(Ok(false)));
    }
    let conv = expect_convert(set_gpa_status(&s, GUEST_HOST_SHARED_HEAP_OFFSET + 192 * ONE_MB, true));
    assert_eq!(conv.bucket, AccessBucket::Heap { entry: 5, mask: 1 << 12 });
    // the last file-map bucket: bits from 12 up are marked, but 15
    let whole = GpaArea::FlMap(FILE_MAP_OFFSET, 6 * FMAP_BUCKET_RANGE);
    let bit12 = FILE_MAP_OFFSET + 5 * FMAP_BUCKET_RANGE + 12 * FMAP_RANGE;
    assert_eq!(_set_gpa_range_status(&s, bit12, &whole), GpaStep::Done(Ok(false)));
    let bit15 = FILE_MAP_OFFSET + 5 * FMAP_BUCKET_RANGE + 15 * FMAP_RANGE;
    assert!(matches!(_set_gpa_range_status(&s, bit15, &whole), GpaStep::Convert(_)));
    // the last range of the file-map area is bit 11 of the last bucket
    let last = FILE_MAP_OFFSET + FILE_MAP_SIZE - 1;
    let conv = expect_convert(set_gpa_status(&s, last, true));
    assert_eq!(conv.bucket, AccessBucket::Fmap { entry: 5, mask: 1 << 11 });
}

#[test]
fn private_heap_range_is_made_private() {
    let mut s = state_in(CCMode::TDX);
    let addr = GUEST_PRIVATE_INIT_HEAP_OFFSET + ONE_GB + 20 * HEAP_RANGE + 1;
    let conv = expect_convert(set_gpa_status(&s, addr, false));
    assert_eq!(
        conv,
        GpaConversion {
            platform: ConversionPlatform::Tdx,
            gpa_address: GUEST_PRIVATE_INIT_HEAP_OFFSET + ONE_GB + 20 * HEAP_RANGE,
            npages: 8,
            flag: true,
            bucket: AccessBucket::Heap { entry: 1, mask: 1 << 20 },
        }
    );
    assert_eq!(finish_gpa_conversion(&mut s, &conv, Ok(true)), Ok(true));
    assert_eq!(s.heap_accessed[1], 0x7FF | (1 << 20));
    assert_eq!(set_gpa_status(&s, addr, false), GpaStep::Done(Ok(false)));
}

#[test]
fn shared_heap_range_is_made_shared() {
    let mut s = state_in(CCMode::TDX);
    let addr = GUEST_HOST_SHARED_HEAP_OFFSET + ONE_GB;
    let conv = expect_convert(set_gpa_status(&s, addr, true));
    assert_eq!(
        conv,
        GpaConversion {
            platform: ConversionPlatform::Tdx,
            gpa_address: GUEST_HOST_SHARED_HEAP_OFFSET + ONE_GB,
            npages: 8,
            flag: false,
            bucket: AccessBucket::Heap { entry: 6, mask: 1 },
        }
    );
    let fmap = s.fmap_accessed;
    let heap = s.heap_accessed;
    assert_eq!(finish_gpa_conversion(&mut s, &conv, Ok(true)), Ok(true));
    assert_eq!(s.heap_accessed[6], 1);
    for i in 0..10 {
        if i != 6 {
            assert_eq!(s.heap_accessed[i], heap[i]);
        }
    }
    assert_eq!(s.fmap_accessed, fmap);
    // the direction comes from the area: asking for private gives the same answer
    assert_eq!(set_gpa_status(&s, addr + HEAP_RANGE, false), set_gpa_status(&s, addr + HEAP_RANGE, true));
    assert_eq!(set_gpa_status(&s, addr, false), GpaStep::Done(Ok(false)));
}

#[test]
fn sev_snp_heap_conversion_flag() {
    let s = state_in(CCMode::SevSnp);
    let addr = GUEST_PRIVATE_INIT_HEAP_OFFSET + 2 * ONE_GB;
    let conv = expect_convert(set_gpa_status(&s, addr, false));
    assert_eq!(conv.platform, ConversionPlatform::SevSnp);
    assert!(!conv.flag);
    assert_eq!(conv.bucket, AccessBucket::Heap { entry: 2, mask: 1 });
}

#[test]
fn shared_heap_buckets_follow_the_heap_start() {
    let s = state_in(CCMode::SevSnp);
    let area = GpaArea::ShrdHeap(GUEST_HOST_SHARED_HEAP_OFFSET, GUEST_HOST_SHARED_HEAP_SIZE);
    let addr = GUEST_HOST_SHARED_HEAP_OFFSET + 4 * ONE_GB + 3 * HEAP_RANGE + 9;
    let conv = expect_convert(_set_gpa_range_status(&s, addr, &area));
    assert_eq!(conv.bucket, AccessBucket::Heap { entry: 9, mask: 1 << 3 });
    assert_eq!(conv.gpa_address, GUEST_HOST_SHARED_HEAP_OFFSET + 4 * ONE_GB + 3 * HEAP_RANGE);
    assert!(conv.flag);
}

#[test]
fn address_past_every_bucket_gets_the_zero_slot() {
    let s = state_in(CCMode::TDX);
    let area = GpaArea::FlMap(FILE_MAP_OFFSET, 20 * ONE_GB);
    let addr = FILE_MAP_OFFSET + 6 * FMAP_BUCKET_RANGE + 1;
    let conv = expect_convert(_set_gpa_range_status(&s, addr, &area));
    assert_eq!(conv.gpa_address, 0);
    assert_eq!(conv.bucket, AccessBucket::Fmap { entry: 0, mask: 0 });
}

#[test]
fn bucket_lookups() {
    let mut s = state_in(CCMode::SevSnp);
    s.fmap_accessed[2] = 0b100;
    assert_eq!(_try_gpa_range_set_fmap(&s, 2, 0b100, 7, 9), GpaStep::Done(Ok(false)));
    assert_eq!(
        _try_gpa_range_set_fmap(&s, 2, 0b10, 7, 9),
        GpaStep::Convert(GpaConversion {
            platform: ConversionPlatform::SevSnp,
            gpa_address: 7,
            npages: 9,
            flag: true,
            bucket: AccessBucket::Fmap { entry: 2, mask: 0b10 },
        })
    );
    s.heap_accessed[9] = 1;
    assert_eq!(_try_gpa_range_set_heap(&s, 9, 1, 0, 8, true), GpaStep::Done(Ok(false)));
    assert_eq!(
        _try_gpa_range_set_heap(&s, 9, 2, 3, 8, true),
        GpaStep::Convert(GpaConversion {
            platform: ConversionPlatform::SevSnp,
            gpa_address: 3,
            npages: 8,
            flag: false,
            bucket: AccessBucket::Heap { entry: 9, mask: 2 },
        })
    );
}

#[test]
fn convertible_areas() {
    let areas = convert_gpa_areas();
    assert!(areas[0].contains_gpa(FILE_MAP_OFFSET));
    assert!(!areas[0].contains_gpa(FILE_MAP_OFFSET - 1));
    assert!(areas[1].contains_gpa(GUEST_PRIVATE_INIT_HEAP_OFFSET));
    assert!(areas[2].contains_gpa(GUEST_HOST_SHARED_HEAP_OFFSET));
    assert!(!areas[1].contains_gpa(GUEST_HOST_SHARED_HEAP_OFFSET));
    assert!(!areas[0].contains_gpa(FILE_MAP_OFFSET + FILE_MAP_SIZE));
    let top = GpaArea::FlMap(u64::MAX - 1, 10);
    assert!(top.contains_gpa(u64::MAX));
    assert!(!top.contains_gpa(u64::MAX - 2));
}
