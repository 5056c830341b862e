//! The TEE mode of the kernel and the shared/private marking of guest-physical
//! addresses.
use vstd::prelude::*;
use crate::cc_mode::{CCMode, mode_code, mode_of_code, spec_tee_backedup, lemma_mode_code_roundtrip};
use crate::mem_layout::{
    FILE_MAP_OFFSET, FILE_MAP_SIZE, GUEST_HOST_SHARED_HEAP_END, GUEST_HOST_SHARED_HEAP_OFFSET,
    IO_HEAP_SIZE, ONE_MB, GUEST_PRIVATE_INIT_HEAP_OFFSET, GUEST_PRIVATE_HEAP_SIZE,
    GUEST_HOST_SHARED_HEAP_SIZE,
};

verus! {

/// Number of file-map conversion buckets.
pub const FMAP_BUCKETS: usize = 6;

/// Number of heap conversion buckets: the private heap, then the shared heap.
pub const HEAP_BUCKETS: usize = 10;

/// Private heap accepted at run time rather than at boot (176 MiB).
pub const RUNTIME_ACCEPTED_PHEAP: u64 = 176 * ONE_MB;

/// Shared heap accepted at run time rather than at boot (192 MiB).
pub const RUNTIME_ACCEPTED_SHEAP: u64 = 192 * ONE_MB;

/// The kernel-wide TEE state.
///
/// `tee_type` is the code of the current mode (see `CCMode`); `tee_type_set`
/// records that a TEE mode was already stored, after which the mode no
/// longer changes. `c_bit_mask` is the SEV-SNP encryption bit and
/// `shared_bit_mask` the TDX shared bit, both as the platform reports them.
/// Each bit of a bucket in `fmap_accessed` and `heap_accessed` marks one
/// memory range whose conversion has already been done.
pub struct TeeState {
    pub tee_type: u8,
    pub tee_type_set: bool,
    pub c_bit_mask: u64,
    pub shared_bit_mask: u64,
    pub fmap_accessed: [u128; 6],
    pub heap_accessed: [u64; 10],
}

/// The bucket bits of the file-map area at boot: the last bucket holds only
/// twelve ranges of the area, and its bits from 12 up (but 15, which no
/// address of the area reaches either) are marked as done.
pub open spec fn initial_fmap_accessed() -> Seq<u128> {
    seq![0u128, 0u128, 0u128, 0u128, 0u128, 0xFFFF_FFFF_FFFF_FFFF_FFFF_FFFF_FFFF_7000u128]
}

/// The bucket bits of the heap at boot, with the private heap in buckets 0-4
/// and the shared heap in buckets 5-9: the first 1200 MiB of the private
/// heap (bucket 0 and the eleven lowest bits of bucket 1) and the first
/// 192 MiB of the shared heap (the twelve lowest bits of bucket 5) are
/// already usable and marked as done.
pub open spec fn initial_heap_accessed() -> Seq<u64> {
    seq![
        0xFFFF_FFFF_FFFF_FFFFu64,
        0x7FFu64,
        0u64,
        0u64,
        0u64,
        0xFFFu64,
        0u64,
        0u64,
        0u64,
        0u64,
    ]
}

impl TeeState {
    /// The state at boot: no confidential computing, no mask known yet, and
    /// the bucket bits of the boot layout.
    pub fn new() -> (s: TeeState)
        ensures
            s.tee_type == mode_code(CCMode::NoCC),
            !s.tee_type_set,
            s.c_bit_mask == 0,
            s.shared_bit_mask == 0,
            s.fmap_accessed@ == initial_fmap_accessed(),
            s.heap_accessed@ == initial_heap_accessed(),
    {
        TeeState {
            tee_type: 0,
            tee_type_set: false,
            c_bit_mask: 0,
            shared_bit_mask: 0,
            fmap_accessed: [0u128, 0u128, 0u128, 0u128, 0u128, 0xFFFF_FFFF_FFFF_FFFF_FFFF_FFFF_FFFF_7000u128],
            heap_accessed: [
                0xFFFF_FFFF_FFFF_FFFFu64,
                0x7FFu64,
                0u64,
                0u64,
                0u64,
                0xFFFu64,
                0u64,
                0u64,
                0u64,
                0u64,
            ],
        }
    }
}

/// The mode the state holds.
pub open spec fn spec_tee_type(state: &TeeState) -> CCMode {
    mode_of_code(state.tee_type as u64)
}

/// Whether the state's mode is backed by TEE hardware.
pub open spec fn spec_is_hw_tee(state: &TeeState) -> bool {
    spec_tee_backedup(state.tee_type as u64)
}

/// The state after `set_tee_type(mode)`: only the first TEE mode ever given
/// is stored; `NoCC` is never stored.
pub open spec fn spec_set_tee_type(state: TeeState, mode: CCMode) -> TeeState {
    if mode == CCMode::NoCC || state.tee_type_set {
        state
    } else {
        TeeState { tee_type: mode_code(mode) as u8, tee_type_set: true, ..state }
    }
}

/// Stores `mode` as the kernel's TEE mode, unless it is `NoCC` or a mode
/// was already stored.
pub fn set_tee_type(state: &mut TeeState, mode: CCMode)
    ensures
        *final(state) == spec_set_tee_type(*old(state), mode),
{
    match mode {
        CCMode::NoCC => {
            return ;
        },
        _ => {
            if !state.tee_type_set {
                state.tee_type = mode.code() as u8;
                state.tee_type_set = true;
            }
        },
    }
}

/// The mode the kernel runs in.
pub fn get_tee_type(state: &TeeState) -> (mode: CCMode)
    ensures
        mode == spec_tee_type(state),
{
    CCMode::from_u64(state.tee_type as u64)
}

/// Whether the kernel's mode is backed by real TEE hardware.
pub fn is_hw_tee(state: &TeeState) -> (r: bool)
    ensures
        r == spec_is_hw_tee(state),
{
    CCMode::tee_backedup(state.tee_type as u64)
}

/// Whether any confidential-computing mode is active.
pub fn is_cc_active(state: &TeeState) -> (r: bool)
    ensures
        r == (spec_tee_type(state) != CCMode::NoCC),
{
    let mode = CCMode::from_u64(state.tee_type as u64);
    match mode {
        CCMode::NoCC => {
            return false;
        },
        _ => {
            return true;
        },
    }
}

/// The states in which the marking of an address can be removed: on TEE
/// hardware the mode must be TDX, or SEV-SNP with a known encryption bit.
pub open spec fn shared_bit_supported(state: &TeeState) -> bool {
    spec_is_hw_tee(state) ==> (spec_tee_type(state) == CCMode::TDX || (spec_tee_type(state)
        == CCMode::SevSnp && state.c_bit_mask >= 1))
}

/// The states in which an address can be marked private (`protect`) or
/// shared: on TEE hardware the mode must be TDX or SEV-SNP, and making an
/// address shared under SEV-SNP needs a known encryption bit.
pub open spec fn adjust_shared_bit_supported(state: &TeeState, protect: bool) -> bool {
    spec_is_hw_tee(state) ==> (spec_tee_type(state) == CCMode::TDX || (spec_tee_type(state)
        == CCMode::SevSnp && (protect || state.c_bit_mask >= 1)))
}

/// The address after marking it private (`protect`) or shared with the host.
///
/// TDX marks shared addresses with its shared bit; SEV-SNP marks private
/// addresses with its encryption bit, and clears that bit and all above it
/// when the address becomes shared. Without TEE hardware the address stays.
pub open spec fn spec_adjust_shared_bit(state: &TeeState, address: u64, protect: bool) -> u64 {
    if !spec_is_hw_tee(state) {
        address
    } else if spec_tee_type(state) == CCMode::TDX {
        if !protect {
            address | state.shared_bit_mask
        } else {
            address & !state.shared_bit_mask
        }
    } else {
        if protect {
            address | state.c_bit_mask
        } else {
            address & ((state.c_bit_mask - 1) as u64)
        }
    }
}

/// The guest-physical address with the TEE marking removed.
pub open spec fn spec_guest_physical_address(state: &TeeState, ipa_address: u64) -> u64 {
    if !spec_is_hw_tee(state) {
        ipa_address
    } else if spec_tee_type(state) == CCMode::TDX {
        ipa_address & !state.shared_bit_mask
    } else {
        ipa_address & ((state.c_bit_mask - 1) as u64)
    }
}

/// Marks `address` as private (`protect`) or as shared with the host, in the
/// way the kernel's TEE hardware expects.
pub fn gpa_adjust_shared_bit(state: &TeeState, address: &mut u64, protect: bool)
    requires
        adjust_shared_bit_supported(state, protect),
    ensures
        *final(address) == spec_adjust_shared_bit(state, *old(address), protect),
{
    if is_hw_tee(state) {
        match get_tee_type(state) {
            CCMode::TDX => {
                let shared_bit_mask = state.shared_bit_mask;
                if protect == false {
                    *address = *address | shared_bit_mask;
                } else {
                    *address = *address & !shared_bit_mask;
                }
            },
            CCMode::SevSnp => {
                let encrypt_bit_mask = state.c_bit_mask;
                if protect == true {
                    *address = *address | encrypt_bit_mask;
                } else {
                    *address = *address & (encrypt_bit_mask - 1);
                }
            },
            _ => {
                proof {
                    assert(false);
                }
            },
        }
    }
}

/// The guest-physical address of `ipa_address`, with the bits the TEE uses
/// for marking removed.
pub fn guest_physical_address(state: &TeeState, ipa_address: u64) -> (address_guest: u64)
    requires
        shared_bit_supported(state),
    ensures
        address_guest == spec_guest_physical_address(state, ipa_address),
{
    let mut address_guest = ipa_address;
    if is_hw_tee(state) {
        match get_tee_type(state) {
            CCMode::TDX => {
                let shared_bit_mask = state.shared_bit_mask;
                address_guest = address_guest & !shared_bit_mask;
            },
            CCMode::SevSnp => {
                let encrypt_bit_mask = state.c_bit_mask;
                address_guest = address_guest & (encrypt_bit_mask - 1);
            },
            _ => {
                proof {
                    assert(false);
                }
            },
        }
    }
    address_guest
}

/// Whether a guest-physical address lies in memory the kernel keeps private:
/// everything but the file-map area and the shared and I/O heaps.
pub open spec fn spec_is_protected_address(gpa: u64) -> bool {
    !((FILE_MAP_OFFSET <= gpa && gpa < FILE_MAP_OFFSET + FILE_MAP_SIZE) || (
    GUEST_HOST_SHARED_HEAP_OFFSET <= gpa && gpa < GUEST_HOST_SHARED_HEAP_END + IO_HEAP_SIZE))
}

/// Whether a guest-physical address lies in memory the kernel keeps private.
pub fn is_protected_address(gpa: u64) -> (res: bool)
    ensures
        res == spec_is_protected_address(gpa),
{
    let mut res = true;
    if (gpa >= FILE_MAP_OFFSET && gpa < FILE_MAP_OFFSET + FILE_MAP_SIZE) || (gpa
        >= GUEST_HOST_SHARED_HEAP_OFFSET && gpa < GUEST_HOST_SHARED_HEAP_END + IO_HEAP_SIZE) {
        res = false;
    }
    res
}


/// Only the first TEE mode is kept: once `set_tee_type` stored a mode other
/// than `NoCC`, later calls leave the state unchanged, and the kernel reports
/// that first mode.
pub proof fn lemma_first_tee_type_wins(state: TeeState, first: CCMode, later: CCMode)
    requires
        !state.tee_type_set,
        first != CCMode::NoCC,
    ensures
        spec_set_tee_type(spec_set_tee_type(state, first), later) == spec_set_tee_type(
            state,
            first,
        ),
        spec_tee_type(&spec_set_tee_type(state, first)) == first,
{
}

/// `NoCC` never changes the state.
pub proof fn lemma_no_cc_never_stored(state: TeeState)
    ensures
        spec_set_tee_type(state, CCMode::NoCC) == state,
{
}

/// A hardware-backed mode is a confidential-computing mode.
pub proof fn lemma_hw_tee_is_cc_active(state: &TeeState)
    ensures
        spec_is_hw_tee(state) ==> spec_tee_type(state) != CCMode::NoCC,
{
}

/// The SEV-SNP encryption bit is a single bit.
pub open spec fn c_bit_is_single_bit(state: &TeeState) -> bool {
    spec_tee_type(state) == CCMode::SevSnp ==> exists|k: u64|
        k < 64 && state.c_bit_mask == #[trigger] (1u64 << k)
}

proof fn lemma_single_bit_facts(a: u64, m: u64, k: u64)
    requires
        k < 64,
        m == 1u64 << k,
    ensures
        m >= 1,
        ((a | m) & ((m - 1) as u64)) == a & ((m - 1) as u64),
        (a | m) & m == m,
        (a & ((m - 1) as u64)) & m == 0,
{
    assert(m >= 1) by (bit_vector)
        requires
            k < 64,
            m == 1u64 << k,
    ;
    assert(((a | m) & ((m - 1) as u64)) == a & ((m - 1) as u64)) by (bit_vector)
        requires
            k < 64,
            m == 1u64 << k,
    ;
    assert((a | m) & m == m) by (bit_vector);
    assert((a & ((m - 1) as u64)) & m == 0) by (bit_vector)
        requires
            k < 64,
            m == 1u64 << k,
    ;
}

proof fn lemma_any_mask_facts(a: u64, m: u64)
    ensures
        (a | m) & !m == a & !m,
        (a & !m) & !m == a & !m,
        (a | m) & m == m,
        (a & !m) & m == 0,
        (a | m) | m == a | m,
        (a & m) & m == a & m,
{
    assert((a | m) & !m == a & !m) by (bit_vector);
    assert((a & !m) & !m == a & !m) by (bit_vector);
    assert((a | m) & m == m) by (bit_vector);
    assert((a & !m) & m == 0) by (bit_vector);
    assert((a | m) | m == a | m) by (bit_vector);
    assert((a & m) & m == a & m) by (bit_vector);
}

/// Marking an address twice the same way gives the same address as marking
/// it once.
pub proof fn lemma_adjust_shared_bit_idempotent(state: &TeeState, address: u64, protect: bool)
    requires
        adjust_shared_bit_supported(state, protect),
    ensures
        spec_adjust_shared_bit(state, spec_adjust_shared_bit(state, address, protect), protect)
            == spec_adjust_shared_bit(state, address, protect),
{
    lemma_any_mask_facts(address, state.shared_bit_mask);
    lemma_any_mask_facts(address, state.c_bit_mask);
    lemma_any_mask_facts(address, (state.c_bit_mask - 1) as u64);
}

/// Removing the marking twice is removing it once.
pub proof fn lemma_guest_physical_address_idempotent(state: &TeeState, address: u64)
    requires
        shared_bit_supported(state),
    ensures
        spec_guest_physical_address(state, spec_guest_physical_address(state, address))
            == spec_guest_physical_address(state, address),
{
    lemma_any_mask_facts(address, state.shared_bit_mask);
    lemma_any_mask_facts(address, (state.c_bit_mask - 1) as u64);
}

/// Removing the TEE marking undoes any marking: the guest-physical address
/// of an address marked private or shared is that of the unmarked address.
pub proof fn lemma_guest_physical_address_ignores_marking(
    state: &TeeState,
    address: u64,
    protect: bool,
)
    requires
        shared_bit_supported(state),
        c_bit_is_single_bit(state),
    ensures
        spec_guest_physical_address(state, spec_adjust_shared_bit(state, address, protect))
            == spec_guest_physical_address(state, address),
{
    if spec_is_hw_tee(state) {
        if spec_tee_type(state) == CCMode::TDX {
            lemma_any_mask_facts(address, state.shared_bit_mask);
        } else {
            let k = choose|k: u64| k < 64 && state.c_bit_mask == #[trigger] (1u64 << k);
            lemma_single_bit_facts(address, state.c_bit_mask, k);
            lemma_any_mask_facts(address, (state.c_bit_mask - 1) as u64);
        }
    }
}

/// On TEE hardware the marking bit tells private from shared addresses: TDX
/// sets its shared bit exactly on shared addresses, SEV-SNP sets its
/// encryption bit exactly on private ones.
pub proof fn lemma_marking_bit(state: &TeeState, address: u64, protect: bool)
    requires
        spec_is_hw_tee(state),
        shared_bit_supported(state),
        c_bit_is_single_bit(state),
    ensures
        spec_tee_type(state) == CCMode::TDX ==> (spec_adjust_shared_bit(state, address, protect)
            & state.shared_bit_mask == if protect {
            0
        } else {
            state.shared_bit_mask
        }),
        spec_tee_type(state) == CCMode::SevSnp ==> (spec_adjust_shared_bit(state, address, protect)
            & state.c_bit_mask == if protect {
            state.c_bit_mask
        } else {
            0
        }),
{
    if spec_tee_type(state) == CCMode::TDX {
        lemma_any_mask_facts(address, state.shared_bit_mask);
    } else {
        let k = choose|k: u64| k < 64 && state.c_bit_mask == #[trigger] (1u64 << k);
        lemma_single_bit_facts(address, state.c_bit_mask, k);
    }
}

/// The state after `set_tee_type` with each of `modes` in turn.
pub open spec fn spec_set_tee_types(state: TeeState, modes: Seq<CCMode>) -> TeeState
    decreases modes.len(),
{
    if modes.len() == 0 {
        state
    } else {
        spec_set_tee_type(spec_set_tee_types(state, modes.drop_last()), modes.last())
    }
}

/// The first mode of `modes` other than `NoCC`, or `NoCC` if there is none.
pub open spec fn first_cc_mode(modes: Seq<CCMode>) -> CCMode
    decreases modes.len(),
{
    if modes.len() == 0 {
        CCMode::NoCC
    } else if first_cc_mode(modes.drop_last()) != CCMode::NoCC {
        first_cc_mode(modes.drop_last())
    } else {
        modes.last()
    }
}

/// From boot, whatever modes `set_tee_type` is given, the kernel reports the
/// first of them other than `NoCC`, or `NoCC` if there is none; only the
/// mode and its flag change.
pub proof fn lemma_tee_type_is_first_mode(state: TeeState, modes: Seq<CCMode>)
    requires
        !state.tee_type_set,
        spec_tee_type(&state) == CCMode::NoCC,
    ensures
        spec_tee_type(&spec_set_tee_types(state, modes)) == first_cc_mode(modes),
        spec_set_tee_types(state, modes).tee_type_set == (first_cc_mode(modes) != CCMode::NoCC),
        spec_set_tee_types(state, modes).fmap_accessed == state.fmap_accessed,
        spec_set_tee_types(state, modes).heap_accessed == state.heap_accessed,
        spec_set_tee_types(state, modes).c_bit_mask == state.c_bit_mask,
        spec_set_tee_types(state, modes).shared_bit_mask == state.shared_bit_mask,
    decreases modes.len(),
{
    if modes.len() > 0 {
        lemma_tee_type_is_first_mode(state, modes.drop_last());
        let m = modes.last();
        lemma_mode_code_roundtrip(m);
    }
}


/// Which memory is protected: every address of the private guest heap is,
/// no address of the file-map area, the shared heap or the I/O heap that
/// follows it is, and every address outside these four areas is.
pub proof fn lemma_protected_regions(gpa: u64)
    ensures
        GUEST_PRIVATE_INIT_HEAP_OFFSET <= gpa < GUEST_PRIVATE_INIT_HEAP_OFFSET
            + GUEST_PRIVATE_HEAP_SIZE ==> spec_is_protected_address(gpa),
        FILE_MAP_OFFSET <= gpa < FILE_MAP_OFFSET + FILE_MAP_SIZE ==> !spec_is_protected_address(
            gpa,
        ),
        GUEST_HOST_SHARED_HEAP_OFFSET <= gpa < GUEST_HOST_SHARED_HEAP_OFFSET
            + GUEST_HOST_SHARED_HEAP_SIZE ==> !spec_is_protected_address(gpa),
        GUEST_HOST_SHARED_HEAP_END <= gpa < GUEST_HOST_SHARED_HEAP_END + IO_HEAP_SIZE
            ==> !spec_is_protected_address(gpa),
        !(FILE_MAP_OFFSET <= gpa < FILE_MAP_OFFSET + FILE_MAP_SIZE) && !(
        GUEST_HOST_SHARED_HEAP_OFFSET <= gpa < GUEST_HOST_SHARED_HEAP_OFFSET
            + GUEST_HOST_SHARED_HEAP_SIZE) && !(GUEST_HOST_SHARED_HEAP_END <= gpa
            < GUEST_HOST_SHARED_HEAP_END + IO_HEAP_SIZE) ==> spec_is_protected_address(gpa),
{
}

} // verus!
