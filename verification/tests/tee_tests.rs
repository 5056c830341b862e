use quark::cc_mode::CCMode;
use quark::mem_layout::{
    FILE_MAP_OFFSET, FILE_MAP_SIZE, GUEST_HOST_SHARED_HEAP_END, GUEST_HOST_SHARED_HEAP_OFFSET,
    GUEST_PRIVATE_INIT_HEAP_OFFSET, IO_HEAP_SIZE,
};
use quark::tee::{
    get_tee_type, gpa_adjust_shared_bit, guest_physical_address, is_cc_active, is_hw_tee,
    is_protected_address, set_tee_type, TeeState,
};

fn state_in(mode: CCMode) -> TeeState {
    let mut s = TeeState::new();
    set_tee_type(&mut s, mode);
    s
}

#[test]
fn boot_state_has_no_cc() {
    let s = TeeState::new();
    assert_eq!(get_tee_type(&s), CCMode::NoCC);
    assert!(!is_cc_active(&s));
    assert!(!is_hw_tee(&s));
    assert!(!s.tee_type_set);
    assert_eq!(s.fmap_accessed[5], 0xFFFF_FFFF_FFFF_FFFF_FFFF_FFFF_FFFF_7000u128);
    assert_eq!(s.heap_accessed[0], u64::MAX);
    assert_eq!(s.heap_accessed[1], 0x7FF);
    assert_eq!(s.heap_accessed[5], 0xFFF);
}

#[test]
fn first_tee_type_wins() {
    let mut s = TeeState::new();
    set_tee_type(&mut s, CCMode::TDX);
    assert_eq!(get_tee_type(&s), CCMode::TDX);
    set_tee_type(&mut s, CCMode::SevSnp);
    assert_eq!(get_tee_type(&s), CCMode::TDX);
    set_tee_type(&mut s, CCMode::NoCC);
    assert_eq!(get_tee_type(&s), CCMode::TDX);
    assert_eq!(s.tee_type, 5);
}

#[test]
fn no_cc_is_never_stored() {
    let mut s = TeeState::new();
    set_tee_type(&mut s, CCMode::NoCC);
    assert!(!s.tee_type_set);
    set_tee_type(&mut s, CCMode::SevSnp);
    assert_eq!(get_tee_type(&s), CCMode::SevSnp);
    assert_eq!(s.tee_type, 3);
}

#[test]
fn hardware_backed_modes() {
    for (mode, hw) in [
        (CCMode::Normal, false),
        (CCMode::NormalEmu, false),
        (CCMode::SevSnp, true),
        (CCMode::Cca, true),
        (CCMode::TDX, true),
        (CCMode::Max, false),
    ] {
        let s = state_in(mode);
        assert_eq!(is_hw_tee(&s), hw);
        assert!(is_cc_active(&s));
    }
}

#[test]
fn mode_codes() {
    assert_eq!(CCMode::from_u64(0), CCMode::NoCC);
    assert_eq!(CCMode::from_u64(1), CCMode::Normal);
    assert_eq!(CCMode::from_u64(2), CCMode::NormalEmu);
    assert_eq!(CCMode::from_u64(3), CCMode::SevSnp);
    assert_eq!(CCMode::from_u64(4), CCMode::Cca);
    assert_eq!(CCMode::from_u64(5), CCMode::TDX);
    assert_eq!(CCMode::from_u64(6), CCMode::Max);
    assert_eq!(CCMode::from_u64(1000), CCMode::Max);
    assert_eq!(CCMode::TDX.code(), 5);
    assert!(!CCMode::tee_backedup(2));
    assert!(CCMode::tee_backedup(3));
    assert!(CCMode::tee_backedup(5));
    assert!(!CCMode::tee_backedup(6));
}

#[test]
fn tdx_shared_bit() {
    let mut s = state_in(CCMode::TDX);
    s.shared_bit_mask = 1u64 << 51;
    let mut a: u64 = 0x1234_5000;
    gpa_adjust_shared_bit(&s, &mut a, false);
    assert_eq!(a, 0x1234_5000 | (1u64 << 51));
    assert_eq!(guest_physical_address(&s, a), 0x1234_5000);
    gpa_adjust_shared_bit(&s, &mut a, true);
    assert_eq!(a, 0x1234_5000);
}

#[test]
fn sev_snp_encryption_bit() {
    let mut s = state_in(CCMode::SevSnp);
    s.c_bit_mask = 1u64 << 47;
    let mut a: u64 = 0x8000;
    gpa_adjust_shared_bit(&s, &mut a, true);
    assert_eq!(a, 0x8000 | (1u64 << 47));
    assert_eq!(guest_physical_address(&s, a), 0x8000);
    // making an address shared clears the encryption bit and every bit above it
    let mut b: u64 = (1u64 << 50) | (1u64 << 47) | 0x1000;
    gpa_adjust_shared_bit(&s, &mut b, false);
    assert_eq!(b, 0x1000);
}

#[test]
fn no_marking_without_tee_hardware() {
    let mut s = state_in(CCMode::Normal);
    s.shared_bit_mask = 1u64 << 51;
    s.c_bit_mask = 1u64 << 47;
    let mut a: u64 = u64::MAX;
    gpa_adjust_shared_bit(&s, &mut a, false);
    assert_eq!(a, u64::MAX);
    assert_eq!(guest_physical_address(&s, 0xdead_beef), 0xdead_beef);
}

#[test]
fn protected_addresses() {
    assert!(is_protected_address(0));
    assert!(is_protected_address(GUEST_PRIVATE_INIT_HEAP_OFFSET));
    assert!(!is_protected_address(GUEST_HOST_SHARED_HEAP_OFFSET));
    assert!(!is_protected_address(GUEST_HOST_SHARED_HEAP_END));
    assert!(!is_protected_address(GUEST_HOST_SHARED_HEAP_END + IO_HEAP_SIZE - 1));
    assert!(is_protected_address(GUEST_HOST_SHARED_HEAP_END + IO_HEAP_SIZE));
    assert!(is_protected_address(FILE_MAP_OFFSET - 1));
    assert!(!is_protected_address(FILE_MAP_OFFSET));
    assert!(!is_protected_address(FILE_MAP_OFFSET + FILE_MAP_SIZE - 1));
    assert!(is_protected_address(FILE_MAP_OFFSET + FILE_MAP_SIZE));
}

#[test]
fn sev_snp_protect_without_known_bit() {
    let s = state_in(CCMode::SevSnp);
    let mut a: u64 = 0x4000;
    gpa_adjust_shared_bit(&s, &mut a, true);
    assert_eq!(a, 0x4000);
    gpa_adjust_shared_bit(&s, &mut a, true);
    assert_eq!(a, 0x4000);
}

#[test]
fn marking_twice_is_marking_once() {
    let mut s = state_in(CCMode::TDX);
    s.shared_bit_mask = 1u64 << 47;
    let mut a: u64 = 0x7000;
    gpa_adjust_shared_bit(&s, &mut a, false);
    let once = a;
    gpa_adjust_shared_bit(&s, &mut a, false);
    assert_eq!(a, once);
    let g = guest_physical_address(&s, a);
    assert_eq!(guest_physical_address(&s, g), g);
}

#[test]
fn many_tee_type_calls_keep_the_first_mode() {
    let mut s = TeeState::new();
    for m in [CCMode::NoCC, CCMode::NoCC, CCMode::Cca, CCMode::TDX, CCMode::NoCC, CCMode::SevSnp] {
        set_tee_type(&mut s, m);
    }
    assert_eq!(get_tee_type(&s), CCMode::Cca);
}
