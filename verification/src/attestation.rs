//! TDX attestation: the report challenge and the quote buffer exchanged with
//! the host.
//!
//! The quote buffer is one shared 8 KiB region laid out as a packed
//! little-endian header (version, status, input length, output length)
//! followed by the body, which carries the TD report on the way to the host
//! and the quote on the way back.
use vstd::prelude::*;
use vstd::bytes::{
    spec_u32_from_le_bytes, spec_u32_to_le_bytes, spec_u64_from_le_bytes, spec_u64_to_le_bytes,
    u32_from_le_bytes, u32_to_le_bytes, u64_from_le_bytes, u64_to_le_bytes,
    lemma_auto_spec_u32_to_from_le_bytes, lemma_auto_spec_u64_to_from_le_bytes,
};
use vstd::slice::slice_to_vec;
use crate::errors::{Error, ENOMEM};

verus! {

/// The TDX attestation driver.
#[derive(Clone, Copy, Debug, Default, PartialEq, Eq, Structural)]
pub struct TdxAttestation;

/// Length of the challenge a report is made for.
pub const CHALLENGE_LENGTH: usize = 64;

/// Size of a 4 KiB page.
pub const PAGE_SIZE_4K: u64 = 0x1000;

/// Length of a TD report.
pub const REPORT_LENGTH: u32 = 1024;

/// Size of the whole quote buffer: two pages.
pub const QUOTE_SIZE: usize = 8192;

/// Size of the quote buffer header: two 64-bit and two 32-bit fields.
pub const QUOTE_HDR_SIZE: usize = 24;

/// Size of the quote buffer body.
pub const QUOTE_BODY_SIZE: usize = 8168;

/// Version of the get-quote command.
pub const GET_QUOTE_CMD_VERS: u64 = 1;

/// Status the host reports for a delivered quote.
pub const GET_QUOTE_STATUS_SUCCESS: u64 = 0;

/// Status of a request the host has not answered yet.
pub const GET_QUOTE_STATUS_IN_FLIGHT: u64 = 0xFFFF_FFFF_FFFF_FFFF;

/// The quote buffer, field by field.
pub struct TdxQuoteBuffer {
    pub version: u64,
    pub status: u64,
    pub input_len: u32,
    pub output_len: u32,
    pub report_buf: Vec<u8>,
}

impl TdxQuoteBuffer {
    /// The body has the size the layout gives it.
    pub open spec fn wf(&self) -> bool {
        self.report_buf@.len() == QUOTE_BODY_SIZE
    }

    /// The bytes of the buffer as the host reads them.
    pub open spec fn spec_bytes(&self) -> Seq<u8> {
        spec_u64_to_le_bytes(self.version) + spec_u64_to_le_bytes(self.status)
            + spec_u32_to_le_bytes(self.input_len) + spec_u32_to_le_bytes(self.output_len)
            + self.report_buf@
    }

    /// Sets up the quote request in the shared buffer at `shared_buf_addr`:
    /// the buffer must be page aligned, else the request fails with `ENOMEM`;
    /// the body is the report followed by zeros, and the host's answer is
    /// still pending.
    pub fn alloc_quote_buffer(shared_buf_addr: u64, report_buf: &Vec<u8>) -> (r: Result<
        TdxQuoteBuffer,
        Error,
    >)
        requires
            shared_buf_addr % PAGE_SIZE_4K == 0 ==> report_buf@.len() == REPORT_LENGTH,
        ensures
            shared_buf_addr % PAGE_SIZE_4K != 0 ==> r == Err::<TdxQuoteBuffer, Error>(
                Error::SystemErr(ENOMEM),
            ),
            shared_buf_addr % PAGE_SIZE_4K == 0 ==> (r matches Ok(b) && b.wf()
                && b.version == GET_QUOTE_CMD_VERS && b.status == GET_QUOTE_STATUS_IN_FLIGHT
                && b.input_len == REPORT_LENGTH && b.output_len == 0 && b.report_buf@
                == report_buf@ + Seq::new(
                (QUOTE_BODY_SIZE - REPORT_LENGTH) as nat,
                |i: int| 0u8,
            )),
    {
        if shared_buf_addr % PAGE_SIZE_4K != 0 {
            return Err(Error::SystemErr(ENOMEM));
        }
        let mut body: Vec<u8> = Vec::new();
        let mut i: usize = 0;
        while i < report_buf.len()
            invariant
                i <= report_buf@.len(),
                body@ == report_buf@.subrange(0, i as int),
            decreases report_buf@.len() - i,
        {
            body.push(report_buf[i]);
            i = i + 1;
        }
        let pad_len: usize = QUOTE_SIZE - (QUOTE_HDR_SIZE + REPORT_LENGTH as usize);
        let mut j: usize = 0;
        while j < pad_len
            invariant
                pad_len == QUOTE_BODY_SIZE - REPORT_LENGTH,
                report_buf@.len() == REPORT_LENGTH,
                j <= pad_len,
                body@ == report_buf@ + Seq::new(j as nat, |k: int| 0u8),
            decreases pad_len - j,
        {
            body.push(0u8);
            j = j + 1;
            assert(body@ =~= report_buf@ + Seq::new(j as nat, |k: int| 0u8));
        }
        Ok(
            TdxQuoteBuffer {
                version: GET_QUOTE_CMD_VERS,
                status: GET_QUOTE_STATUS_IN_FLIGHT,
                input_len: REPORT_LENGTH,
                output_len: 0u32,
                report_buf: body,
            },
        )
    }

    /// The bytes of the buffer, in the packed layout the host reads.
    pub fn as_bytes(&self) -> (bytes: Vec<u8>)
        requires
            self.wf(),
        ensures
            bytes@ == self.spec_bytes(),
            bytes@.len() == QUOTE_SIZE,
    {
        proof {
            lemma_auto_spec_u64_to_from_le_bytes();
            lemma_auto_spec_u32_to_from_le_bytes();
        }
        let mut bytes = u64_to_le_bytes(self.version);
        let mut status = u64_to_le_bytes(self.status);
        bytes.append(&mut status);
        let mut input_len = u32_to_le_bytes(self.input_len);
        bytes.append(&mut input_len);
        let mut output_len = u32_to_le_bytes(self.output_len);
        bytes.append(&mut output_len);
        let mut body = slice_to_vec(self.report_buf.as_slice());
        bytes.append(&mut body);
        bytes
    }

    /// Reads a buffer back from the bytes the host left in it.
    pub fn from_bytes(bytes: &[u8]) -> (b: TdxQuoteBuffer)
        requires
            bytes@.len() == QUOTE_SIZE,
        ensures
            b.wf(),
            b.version == spec_u64_from_le_bytes(bytes@.subrange(0, 8)),
            b.status == spec_u64_from_le_bytes(bytes@.subrange(8, 16)),
            b.input_len == spec_u32_from_le_bytes(bytes@.subrange(16, 20)),
            b.output_len == spec_u32_from_le_bytes(bytes@.subrange(20, 24)),
            b.report_buf@ == bytes@.subrange(QUOTE_HDR_SIZE as int, QUOTE_SIZE as int),
    {
        let version = u64_from_le_bytes(&bytes[0..8]);
        let status = u64_from_le_bytes(&bytes[8..16]);
        let input_len = u32_from_le_bytes(&bytes[16..20]);
        let output_len = u32_from_le_bytes(&bytes[20..24]);
        let report_buf = slice_to_vec(&bytes[QUOTE_HDR_SIZE..QUOTE_SIZE]);
        TdxQuoteBuffer { version, status, input_len, output_len, report_buf }
    }

    /// The quote the host delivered: the whole body, if the host reports
    /// success; `None` for any other status.
    pub fn delivered_quote(&self) -> (quote: Option<Vec<u8>>)
        ensures
            self.status == GET_QUOTE_STATUS_SUCCESS ==> (quote matches Some(q) && q@
                == self.report_buf@),
            self.status != GET_QUOTE_STATUS_SUCCESS ==> quote is None,
    {
        let quote = slice_to_vec(self.report_buf.as_slice());
        if self.status != GET_QUOTE_STATUS_SUCCESS {
            return None;
        }
        Some(quote)
    }
}

/// Reading a buffer back from its bytes gives the buffer: the layout loses
/// nothing.
pub proof fn lemma_quote_buffer_roundtrip(b: &TdxQuoteBuffer)
    requires
        b.wf(),
    ensures
        b.spec_bytes().len() == QUOTE_SIZE,
        spec_u64_from_le_bytes(b.spec_bytes().subrange(0, 8)) == b.version,
        spec_u64_from_le_bytes(b.spec_bytes().subrange(8, 16)) == b.status,
        spec_u32_from_le_bytes(b.spec_bytes().subrange(16, 20)) == b.input_len,
        spec_u32_from_le_bytes(b.spec_bytes().subrange(20, 24)) == b.output_len,
        b.spec_bytes().subrange(QUOTE_HDR_SIZE as int, QUOTE_SIZE as int) == b.report_buf@,
{
    lemma_auto_spec_u64_to_from_le_bytes();
    lemma_auto_spec_u32_to_from_le_bytes();
    let s = b.spec_bytes();
    assert(s.subrange(0, 8) =~= spec_u64_to_le_bytes(b.version));
    assert(s.subrange(8, 16) =~= spec_u64_to_le_bytes(b.status));
    assert(s.subrange(16, 20) =~= spec_u32_to_le_bytes(b.input_len));
    assert(s.subrange(20, 24) =~= spec_u32_to_le_bytes(b.output_len));
    assert(s.subrange(24, 8192) =~= b.report_buf@);
}

} // verus!
