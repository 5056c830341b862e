use quark::attestation::{
    TdxAttestation, TdxQuoteBuffer, GET_QUOTE_STATUS_IN_FLIGHT, QUOTE_BODY_SIZE, QUOTE_SIZE,
};
use quark::errors::{Error, ENOMEM};

fn report() -> Vec<u8> {
    (0..1024u32).map(|i| (i % 251) as u8).collect()
}

#[test]
fn unaligned_buffer_is_refused() {
    assert!(matches!(
        TdxQuoteBuffer::alloc_quote_buffer(0x1008, &report()),
        Err(Error::SystemErr(ENOMEM))
    ));
    assert!(matches!(
        TdxQuoteBuffer::alloc_quote_buffer(0x1008, &Vec::new()),
        Err(Error::SystemErr(ENOMEM))
    ));
}

#[test]
fn quote_request_layout() {
    let r = report();
    let b = TdxQuoteBuffer::alloc_quote_buffer(0x2000, &r).unwrap();
    assert_eq!(b.version, 1);
    assert_eq!(b.status, GET_QUOTE_STATUS_IN_FLIGHT);
    assert_eq!(b.input_len, 1024);
    assert_eq!(b.output_len, 0);
    assert_eq!(b.report_buf.len(), QUOTE_BODY_SIZE);
    assert_eq!(&b.report_buf[..1024], &r[..]);
    assert!(b.report_buf[1024..].iter().all(|x| *x == 0));
    let bytes = b.as_bytes();
    assert_eq!(bytes.len(), QUOTE_SIZE);
    assert_eq!(&bytes[0..8], &[1, 0, 0, 0, 0, 0, 0, 0]);
    assert_eq!(&bytes[8..16], &[0xff; 8]);
    assert_eq!(&bytes[16..20], &[0, 4, 0, 0]);
    assert_eq!(&bytes[20..24], &[0, 0, 0, 0]);
    assert_eq!(&bytes[24..1048], &r[..]);
}

#[test]
fn quote_buffer_roundtrip() {
    let b = TdxQuoteBuffer::alloc_quote_buffer(0, &report()).unwrap();
    let back = TdxQuoteBuffer::from_bytes(&b.as_bytes());
    assert_eq!(back.version, b.version);
    assert_eq!(back.status, b.status);
    assert_eq!(back.input_len, b.input_len);
    assert_eq!(back.output_len, b.output_len);
    assert_eq!(back.report_buf, b.report_buf);
}

#[test]
fn quote_is_delivered_only_on_success() {
    let b = TdxQuoteBuffer::alloc_quote_buffer(0x1000, &report()).unwrap();
    assert!(b.delivered_quote().is_none());
    let mut bytes = b.as_bytes();
    for x in &mut bytes[8..16] {
        *x = 0;
    }
    bytes[24] = 0xAB;
    let answered = TdxQuoteBuffer::from_bytes(&bytes);
    assert_eq!(answered.status, 0);
    let quote = answered.delivered_quote().unwrap();
    assert_eq!(quote.len(), QUOTE_BODY_SIZE);
    assert_eq!(quote[0], 0xAB);
    bytes[8] = 7;
    assert!(TdxQuoteBuffer::from_bytes(&bytes).delivered_quote().is_none());
}

#[test]
fn attestation_driver_is_a_unit() {
    assert_eq!(TdxAttestation::default(), TdxAttestation);
}
