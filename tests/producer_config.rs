use stratum::producer::{to_number, Compression, KafkaProducerConfig, RequiredAcks};

#[test]
fn producer_defaults() {
    let c = KafkaProducerConfig::default();
    assert_eq!(c.compression, Compression::Uncompressed);
    assert_eq!(c.required_acks, RequiredAcks::One);
    assert_eq!(c.batch_size, 1);
    assert_eq!(c.conn_idle_timeout_ms, 540_000);
    assert_eq!(c.ack_timeout_ms, 30_000);
}

#[test]
fn producer_options() {
    let none = "NONE".to_string();
    let all = "All".to_string();
    let batch = "12".to_string();
    let bad = "x1".to_string();
    let c = KafkaProducerConfig::new(Some(&none), Some(&all), Some(&batch), Some(&bad), None).unwrap();
    assert_eq!(c.required_acks, RequiredAcks::All);
    assert_eq!(c.batch_size, 12);
    assert_eq!(c.conn_idle_timeout_ms, 540_000);
    let c = KafkaProducerConfig::new(None, Some(&none), None, None, Some(&batch)).unwrap();
    assert_eq!(c.required_acks, RequiredAcks::NoAcks);
    assert_eq!(c.ack_timeout_ms, 12);
}

#[test]
fn producer_rejects_unknown_policies() {
    let gzip = "gzip".to_string();
    let two = "two".to_string();
    assert_eq!(KafkaProducerConfig::new(Some(&gzip), None, None, None, None).err().unwrap(), "Unsupported compression type: gzip");
    assert_eq!(KafkaProducerConfig::new(None, Some(&two), None, None, None).err().unwrap(), "Unknown --required-acks argument: two");
}

#[test]
fn to_number_falls_back() {
    assert_eq!(to_number(None, 3, 100), 3);
    assert_eq!(to_number(Some(&"+42".to_string()), 3, 100), 42);
    assert_eq!(to_number(Some(&"101".to_string()), 3, 100), 3);
    assert_eq!(to_number(Some(&"".to_string()), 3, 100), 3);
}
