//! Settings of the message-bus producer that publishes share records, read
//! from the textual options of the configuration.
use vstd::prelude::*;
use crate::text::{concat_text, eq_ignore_ascii_case, eq_ignore_ascii_case_text, parse_unsigned, parse_unsigned_chars, chars_of};

verus! {

/// Compression of published records. Only uncompressed publishing is built.
#[derive(Debug, Clone, Copy, PartialEq, Eq, Structural)]
pub enum Compression {
    Uncompressed,
}

/// How many brokers must acknowledge a published record.
#[derive(Debug, Clone, Copy, PartialEq, Eq, Structural)]
pub enum RequiredAcks {
    NoAcks,
    One,
    All,
}

#[derive(Debug, Clone, Copy)]
pub struct KafkaProducerConfig {
    pub compression: Compression,
    pub required_acks: RequiredAcks,
    pub batch_size: usize,
    pub conn_idle_timeout_ms: u64,
    pub ack_timeout_ms: u64,
}

/// Relies on `kafka::client::DEFAULT_CONNECTION_IDLE_TIMEOUT_MILLIS`.
#[verifier::external_body]
fn default_conn_idle_timeout_ms() -> (r: u64)
    ensures
        r == 540_000,
{
    kafka::client::DEFAULT_CONNECTION_IDLE_TIMEOUT_MILLIS
}

/// Relies on `kafka::producer::DEFAULT_ACK_TIMEOUT_MILLIS`.
#[verifier::external_body]
fn default_ack_timeout_ms() -> (r: u64)
    ensures
        r == 30_000,
{
    kafka::producer::DEFAULT_ACK_TIMEOUT_MILLIS
}

/// The number an option gives, or `default` where it is absent or does not
/// read as a number up to `max`.
pub open spec fn number_option(s: Option<Seq<char>>, default: u64, max: u64) -> u64 {
    match s {
        Some(t) => match parse_unsigned(t, max as nat) {
            Some(v) => v as u64,
            None => default,
        },
        None => default,
    }
}

pub open spec fn text_of(s: Option<&String>) -> Option<Seq<char>> {
    match s {
        Some(t) => Some(t@),
        None => None,
    }
}

/// The number in option `s`, falling back to `default`.
pub fn to_number(s: Option<&String>, default: u64, max: u64) -> (r: u64)
    ensures
        r == number_option(text_of(s), default, max),
{
    match s {
        None => default,
        Some(t) => match parse_unsigned_chars(&chars_of(t.as_str()), max) {
            Some(v) => v,
            None => default,
        },
    }
}

pub open spec fn compression_ok(s: Option<Seq<char>>) -> bool {
    match s {
        Some(t) => eq_ignore_ascii_case(t, "none"@),
        None => true,
    }
}

pub open spec fn acks_of(s: Option<Seq<char>>) -> Option<RequiredAcks> {
    match s {
        None => Some(RequiredAcks::One),
        Some(t) => if eq_ignore_ascii_case(t, "none"@) {
            Some(RequiredAcks::NoAcks)
        } else if eq_ignore_ascii_case(t, "one"@) {
            Some(RequiredAcks::One)
        } else if eq_ignore_ascii_case(t, "all"@) {
            Some(RequiredAcks::All)
        } else {
            None
        },
    }
}

impl KafkaProducerConfig {
    /// The settings that the options give: compression (only `none`, the
    /// default), required acknowledgements (`none`, `one`, the default, or
    /// `all`; any case), batch size (default 1), connection idle timeout and
    /// acknowledgement timeout in milliseconds (the bus client's defaults).
    /// A number that does not read falls back to its default; an unknown
    /// compression or acknowledgement policy is an error naming it.
    pub fn new(
        compression: Option<&String>,
        required_acks: Option<&String>,
        batch_size: Option<&String>,
        conn_idle_timeout: Option<&String>,
        ack_timeout: Option<&String>,
    ) -> (r: Result<KafkaProducerConfig, String>)
        ensures
            !compression_ok(text_of(compression)) ==> (r matches Err(e) && e@
                == "Unsupported compression type: "@ + text_of(compression)->0),
            compression_ok(text_of(compression)) && acks_of(text_of(required_acks)) is None ==> (
            r matches Err(e) && e@ == "Unknown --required-acks argument: "@ + text_of(
                required_acks,
            )->0),
            r is Ok <==> compression_ok(text_of(compression)) && acks_of(text_of(required_acks)) is Some,
            r matches Ok(c) ==> {
                &&& c.compression == Compression::Uncompressed
                &&& c.required_acks == acks_of(text_of(required_acks))->0
                &&& c.batch_size == number_option(text_of(batch_size), 1, usize::MAX as u64)
                &&& c.conn_idle_timeout_ms == number_option(
                    text_of(conn_idle_timeout),
                    540_000,
                    u64::MAX,
                )
                &&& c.ack_timeout_ms == number_option(text_of(ack_timeout), 30_000, u64::MAX)
            },
    {
        let compression = match compression {
            None => Compression::Uncompressed,
            Some(s) => if eq_ignore_ascii_case_text(s.as_str(), "none") {
                Compression::Uncompressed
            } else {
                return Err(concat_text("Unsupported compression type: ", s.as_str()));
            },
        };
        let required_acks = match required_acks {
            None => RequiredAcks::One,
            Some(s) => if eq_ignore_ascii_case_text(s.as_str(), "none") {
                RequiredAcks::NoAcks
            } else if eq_ignore_ascii_case_text(s.as_str(), "one") {
                RequiredAcks::One
            } else if eq_ignore_ascii_case_text(s.as_str(), "all") {
                RequiredAcks::All
            } else {
                return Err(concat_text("Unknown --required-acks argument: ", s.as_str()));
            },
        };
        let batch_size = to_number(batch_size, 1, usize::MAX as u64) as usize;
        let conn_idle_timeout_ms = to_number(
            conn_idle_timeout,
            default_conn_idle_timeout_ms(),
            u64::MAX,
        );
        let ack_timeout_ms = to_number(ack_timeout, default_ack_timeout_ms(), u64::MAX);
        Ok(KafkaProducerConfig {
            compression,
            required_acks,
            batch_size,
            conn_idle_timeout_ms,
            ack_timeout_ms,
        })
    }
}

impl Default for KafkaProducerConfig {
    /// The settings with every option absent.
    fn default() -> (r: KafkaProducerConfig)
        ensures
            r.compression == Compression::Uncompressed,
            r.required_acks == RequiredAcks::One,
            r.batch_size == 1,
            r.conn_idle_timeout_ms == 540_000,
            r.ack_timeout_ms == 30_000,
    {
        match KafkaProducerConfig::new(None, None, None, None, None) {
            Ok(c) => c,
            Err(_) => KafkaProducerConfig {
                compression: Compression::Uncompressed,
                required_acks: RequiredAcks::One,
                batch_size: 1,
                conn_idle_timeout_ms: 540_000,
                ack_timeout_ms: 30_000,
            },
        }
    }
}

} // verus!
