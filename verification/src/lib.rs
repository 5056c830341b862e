//! Confidential-computing support of a container kernel: the TEE mode,
//! shared/private guest-physical address handling, on-demand conversion of
//! memory ranges between private and host-shared, the TDX quote buffer, and
//! the bookkeeping of the function gateway.
pub mod cc_mode;
pub mod errors;
pub mod mem_layout;
pub mod tee;
pub mod gpa_status;
pub mod attestation;
pub mod gateway_actor;
pub mod gateway;
