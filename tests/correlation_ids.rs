use stratum::correlation::{correlation_bytes_of, decode_correlation, encode_correlation, parse_correlation_bytes, Correlation};

fn sample() -> Correlation {
    Correlation { worker_id: 7, height: 1000, job_id: 42, nonce: 9, edge_bits: 31 }
}

#[test]
fn correlation_text_layout() {
    assert_eq!(correlation_bytes_of(&sample()), b"7+1000+42+9+31".to_vec());
    let c = Correlation { worker_id: 0, height: -5, job_id: 0, nonce: 0, edge_bits: 0 };
    assert_eq!(correlation_bytes_of(&c), b"0+-5+0+0+0".to_vec());
}

#[test]
fn correlation_id_is_base64() {
    assert_eq!(encode_correlation(&sample()), "NysxMDAwKzQyKzkrMzE=");
}

#[test]
fn correlation_round_trip() {
    let cases = [
        sample(),
        Correlation { worker_id: usize::MAX, height: i32::MIN, job_id: u64::MAX, nonce: u64::MAX, edge_bits: u32::MAX },
        Correlation { worker_id: 0, height: i32::MAX, job_id: 0, nonce: 0, edge_bits: 0 },
    ];
    for c in cases {
        assert_eq!(decode_correlation(&encode_correlation(&c)), Some(c));
    }
}

#[test]
fn correlation_decode_rejects_malformed() {
    // four fields
    assert_eq!(decode_correlation("NysxMDAwKzQyKzk="), None);
    // non-numeric worker id
    assert_eq!(decode_correlation("eCsxKzIrMys0"), None);
    // not base64
    assert_eq!(decode_correlation("!!!"), None);
    // not text
    assert_eq!(decode_correlation("//4="), None);
    assert_eq!(parse_correlation_bytes(&[0xff, 0xfe]), None);
    assert_eq!(parse_correlation_bytes(b""), None);
    assert_eq!(parse_correlation_bytes(b"1+2+3+4+5+6"), None);
    assert_eq!(parse_correlation_bytes(b"1+2147483648+3+4+5"), None);
    assert_eq!(parse_correlation_bytes(b"1+2+3+4+4294967296"), None);
    assert_eq!(parse_correlation_bytes(b"1++3+4+5"), None);
}

#[test]
fn correlation_decode_signed_height() {
    assert_eq!(
        decode_correlation("MystNSsxKzIrMw=="),
        Some(Correlation { worker_id: 3, height: -5, job_id: 1, nonce: 2, edge_bits: 3 })
    );
    assert_eq!(
        parse_correlation_bytes(b"+3+-2147483648++1+2+3"),
        None
    );
    assert_eq!(
        parse_correlation_bytes(b"3+-2147483648+1+2+3"),
        Some(Correlation { worker_id: 3, height: i32::MIN, job_id: 1, nonce: 2, edge_bits: 3 })
    );
}
