use stratum::share::{decode, encode, Share, ShareError, SubmitResult, FULLNAME_LIMIT, RECORD_LEN};

fn sample() -> Share {
    Share::new(
        42,
        "Pool-5".to_string(),
        "1.2.3.4:5555".to_string(),
        7,
        1000,
        "alice.rig1".to_string(),
        SubmitResult::Accept,
        1000,
        1_600_000_000,
    )
    .unwrap()
}

#[test]
fn share_new_fills_fields() {
    let s = sample();
    assert_eq!(s.job_id, 42);
    assert_eq!(s.server_id, 5);
    assert_eq!(s.ip, 67305985);
    assert_eq!(s.user_id, 7);
    assert_eq!(s.difficulty, 1000);
    assert_eq!(s.result, 1);
    assert_eq!(s.height, 1000);
    assert_eq!(s.timestamp, 1_600_000_000);
    assert_eq!(s.worker_hash_id, 0);
    assert_eq!(s.blkbits, 0);
    assert_eq!(s.share_diff, 0);
    assert_eq!(&s.fullname[..10], b"alice.rig1");
    assert!(s.fullname[10..].iter().all(|b| *b == 0));
}

#[test]
fn share_new_reject_code_is_zero() {
    let s = Share::new(
        1,
        "Pool-1".to_string(),
        "10.0.0.1".to_string(),
        2,
        3,
        "bob.x".to_string(),
        SubmitResult::Reject,
        -4,
        5,
    )
    .unwrap();
    assert_eq!(s.result, 0);
    assert_eq!(s.height, -4);
    assert_eq!(s.ip, 10 + 1 * 0x1000000);
}

#[test]
fn share_new_bad_server_id() {
    for id in ["Pool", "Pool-", "Pool-x", "Pool-70000", "Pool--1"] {
        let r = Share::new(
            1,
            id.to_string(),
            "1.2.3.4:1".to_string(),
            1,
            1,
            "a.b".to_string(),
            SubmitResult::Accept,
            1,
            1,
        );
        assert!(matches!(r, Err(ShareError::InvalidServerId)), "{}", id);
    }
}

#[test]
fn share_new_server_id_with_plus_sign() {
    let r = Share::new(
        1,
        "Pool-+9".to_string(),
        "1.2.3.4".to_string(),
        1,
        1,
        "a.b".to_string(),
        SubmitResult::Accept,
        1,
        1,
    );
    assert_eq!(r.unwrap().server_id, 9);
}

#[test]
fn share_new_bad_address() {
    for addr in ["1.2.3", "1.2.3.256:80", "a.b.c.d:1", "1.2.3.4.5", "", "1..3.4"] {
        let r = Share::new(
            1,
            "Pool-1".to_string(),
            addr.to_string(),
            1,
            1,
            "a.b".to_string(),
            SubmitResult::Accept,
            1,
            1,
        );
        assert!(matches!(r, Err(ShareError::InvalidAddress)), "{}", addr);
    }
}

#[test]
fn share_new_server_id_checked_before_address() {
    let r = Share::new(
        1,
        "Pool".to_string(),
        "bad".to_string(),
        1,
        1,
        "a.b".to_string(),
        SubmitResult::Accept,
        1,
        1,
    );
    assert!(matches!(r, Err(ShareError::InvalidServerId)));
}

#[test]
fn share_new_name_limits() {
    let exact = "n".repeat(FULLNAME_LIMIT);
    let r = Share::new(
        1,
        "Pool-1".to_string(),
        "1.2.3.4".to_string(),
        1,
        1,
        exact.clone(),
        SubmitResult::Accept,
        1,
        1,
    );
    assert_eq!(&r.unwrap().fullname[..], exact.as_bytes());
    let long = "n".repeat(FULLNAME_LIMIT + 1);
    let r = Share::new(
        1,
        "Pool-1".to_string(),
        "1.2.3.4".to_string(),
        1,
        1,
        long,
        SubmitResult::Accept,
        1,
        1,
    );
    assert!(matches!(r, Err(ShareError::FullnameTooLong)));
}

#[test]
fn encode_layout_is_little_endian() {
    let s = sample();
    let b = encode(&s);
    assert_eq!(b.len(), RECORD_LEN);
    assert_eq!(&b[0..8], &42u64.to_le_bytes());
    assert_eq!(&b[8..16], &[0u8; 8]);
    assert_eq!(&b[16..24], &1000u64.to_le_bytes());
    assert_eq!(&b[24..28], &[1, 2, 3, 4]);
    assert_eq!(&b[28..32], &7i32.to_le_bytes());
    assert_eq!(&b[32..36], &1_600_000_000u32.to_le_bytes());
    assert_eq!(&b[36..40], &[0u8; 4]);
    assert_eq!(&b[40..44], &1i32.to_le_bytes());
    assert_eq!(&b[44..48], &1000i32.to_le_bytes());
    assert_eq!(&b[48..56], &[0u8; 8]);
    assert_eq!(&b[56..58], &5u16.to_le_bytes());
    assert_eq!(&b[58..68], b"alice.rig1");
    assert!(b[68..].iter().all(|x| *x == 0));
}

#[test]
fn decode_inverts_encode() {
    let s = sample();
    let b = encode(&s);
    let t = decode(&b).unwrap();
    assert_eq!(t.job_id, s.job_id);
    assert_eq!(t.worker_hash_id, s.worker_hash_id);
    assert_eq!(t.difficulty, s.difficulty);
    assert_eq!(t.ip, s.ip);
    assert_eq!(t.user_id, s.user_id);
    assert_eq!(t.timestamp, s.timestamp);
    assert_eq!(t.blkbits, s.blkbits);
    assert_eq!(t.result, s.result);
    assert_eq!(t.height, s.height);
    assert_eq!(t.share_diff, s.share_diff);
    assert_eq!(t.server_id, s.server_id);
    assert_eq!(t.fullname, s.fullname);
    assert_eq!(encode(&t), b);
}

#[test]
fn decode_negative_fields() {
    let mut s = sample();
    s.height = -1;
    s.worker_hash_id = -2;
    let t = decode(&encode(&s)).unwrap();
    assert_eq!(t.height, -1);
    assert_eq!(t.worker_hash_id, -2);
}

#[test]
fn decode_wrong_length() {
    let b = encode(&sample());
    assert!(decode(&b[..RECORD_LEN - 1]).is_none());
    assert!(decode(&[]).is_none());
    let mut longer = b.clone();
    longer.push(0);
    assert!(decode(&longer).is_none());
}
