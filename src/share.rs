//! The share record: one submission outcome, built from what the upstream
//! session knows, and its fixed-layout little-endian wire encoding.
use vstd::prelude::*;
use vstd::utf8::encode_utf8;
use crate::text::{chars_of, lemma_views, parse_unsigned, parse_unsigned_chars, split, split_chars};

verus! {

/// Width of the worker full-name buffer, in bytes.
pub const FULLNAME_LIMIT: usize = 46;

/// Length of the numeric part of an encoded record.
pub const HEADER_LEN: usize = 58;

/// Length of an encoded record.
pub const RECORD_LEN: usize = 104;

/// Outcome of a submission as the upstream node judged it.
#[derive(Debug, Clone, Copy, PartialEq, Eq, Structural)]
pub enum SubmitResult {
    Reject,
    Accept,
}

impl SubmitResult {
    /// The record's code for this outcome: 0 for a reject, 1 for an accept.
    pub open spec fn spec_code(self) -> i32 {
        match self {
            SubmitResult::Reject => 0,
            SubmitResult::Accept => 1,
        }
    }

    pub fn code(&self) -> (r: i32)
        ensures
            r == self.spec_code(),
    {
        match self {
            SubmitResult::Reject => 0,
            SubmitResult::Accept => 1,
        }
    }
}

/// One submission outcome. `worker_hash_id`, `blkbits` and `share_diff` are
/// reserved and always zero in records this library builds.
#[derive(Debug, Clone, Copy)]
pub struct Share {
    pub job_id: u64,
    pub worker_hash_id: i64,
    pub difficulty: u64,
    pub ip: u32,
    pub user_id: i32,
    pub timestamp: u32,
    pub blkbits: u32,
    pub result: i32,
    pub height: i32,
    pub share_diff: u64,
    pub server_id: u16,
    pub fullname: [u8; FULLNAME_LIMIT],
}

/// Why a share could not be built.
#[derive(Debug, Clone, Copy, PartialEq, Eq, Structural)]
pub enum ShareError {
    /// The pool id is not of the shape `<prefix>-<number>`.
    InvalidServerId,
    /// The worker address is not a dotted quad, optionally followed by `:port`.
    InvalidAddress,
    /// The worker's full name takes more bytes than the name buffer holds.
    FullnameTooLong,
}

/// The numeric server id in a pool id of the shape `<prefix>-<number>`.
pub open spec fn server_id_of(s: Seq<char>) -> Option<nat> {
    let fields = split(s, '-');
    if fields.len() >= 2 {
        parse_unsigned(fields[1], 65535)
    } else {
        None
    }
}

/// The address `a.b.c.d` (before any `:port`) as the integer whose lowest
/// byte is `a` and whose highest is `d`: the octets in reverse of network
/// order.
pub open spec fn inet_addr_of(s: Seq<char>) -> Option<nat> {
    let octets = split(split(s, ':')[0], '.');
    if octets.len() == 4 && parse_unsigned(octets[0], 255) is Some && parse_unsigned(
        octets[1],
        255,
    ) is Some && parse_unsigned(octets[2], 255) is Some && parse_unsigned(octets[3], 255) is Some {
        Some(
            parse_unsigned(octets[0], 255)->0 + parse_unsigned(octets[1], 255)->0 * 0x100
                + parse_unsigned(octets[2], 255)->0 * 0x10000 + parse_unsigned(octets[3], 255)->0
                * 0x1000000,
        )
    } else {
        None
    }
}

/// The name buffer for a full name: its UTF-8 bytes, then zero bytes up to
/// the buffer's width.
pub open spec fn padded_name(name: Seq<char>) -> Seq<u8> {
    encode_utf8(name) + Seq::new((FULLNAME_LIMIT - encode_utf8(name).len()) as nat, |i: int| 0u8)
}

pub open spec fn fits_name_buffer(name: Seq<char>) -> bool {
    encode_utf8(name).len() <= FULLNAME_LIMIT
}

/// `s` is the share built from these values; see `Share::new`.
pub open spec fn share_for(
    s: Share,
    job_id: u64,
    server_id: Seq<char>,
    worker_addr: Seq<char>,
    worker_id: usize,
    difficulty: u64,
    fullname: Seq<char>,
    result: SubmitResult,
    height: i32,
    timestamp: u32,
) -> bool {
    &&& s.job_id == job_id
    &&& s.worker_hash_id == 0
    &&& s.difficulty == difficulty
    &&& s.ip == inet_addr_of(worker_addr)->0
    &&& s.user_id == worker_id as i32
    &&& s.timestamp == timestamp
    &&& s.blkbits == 0
    &&& s.result == result.spec_code()
    &&& s.height == height
    &&& s.share_diff == 0
    &&& s.server_id == server_id_of(server_id)->0
    &&& s.fullname@ == padded_name(fullname)
}

fn get_server_id(server_id: &str) -> (r: Option<u16>)
    ensures
        match server_id_of(server_id@) {
            Some(v) => r == Some(v as u16),
            None => r is None,
        },
{
    let fields = split_chars(&chars_of(server_id), '-');
    proof {
        lemma_views(fields@);
    }
    if fields.len() >= 2 {
        match parse_unsigned_chars(&fields[1], 65535) {
            Some(v) => Some(v as u16),
            None => None,
        }
    } else {
        None
    }
}

fn get_inet_addr(worker_addr: &str) -> (r: Option<u32>)
    ensures
        match inet_addr_of(worker_addr@) {
            Some(v) => r == Some(v as u32),
            None => r is None,
        },
{
    let parts = split_chars(&chars_of(worker_addr), ':');
    proof {
        lemma_views(parts@);
        crate::text::lemma_split_nonempty(worker_addr@, ':');
    }
    let octets = split_chars(&parts[0], '.');
    proof {
        lemma_views(octets@);
    }
    if octets.len() != 4 {
        return None;
    }
    let a = parse_unsigned_chars(&octets[0], 255);
    let b = parse_unsigned_chars(&octets[1], 255);
    let c = parse_unsigned_chars(&octets[2], 255);
    let d = parse_unsigned_chars(&octets[3], 255);
    match (a, b, c, d) {
        (Some(a), Some(b), Some(c), Some(d)) => {
            let v: u32 = (a as u32) + (b as u32) * 0x100 + (c as u32) * 0x10000 + (d as u32)
                * 0x1000000;
            Some(v)
        },
        _ => None,
    }
}

fn get_fullname(fullname: &str) -> (r: Option<[u8; FULLNAME_LIMIT]>)
    ensures
        match r {
            Some(buf) => fits_name_buffer(fullname@) && buf@ == padded_name(fullname@),
            None => !fits_name_buffer(fullname@),
        },
{
    let bytes = fullname.as_bytes();
    if bytes.len() > FULLNAME_LIMIT {
        return None;
    }
    let mut buf = [0u8; FULLNAME_LIMIT];
    let mut i: usize = 0;
    while i < bytes.len()
        invariant
            bytes@ == encode_utf8(fullname@),
            bytes@.len() <= FULLNAME_LIMIT,
            i <= bytes@.len(),
            buf@.len() == FULLNAME_LIMIT,
            forall|k: int| 0 <= k < i ==> buf@[k] == bytes@[k],
            forall|k: int| i <= k < FULLNAME_LIMIT ==> buf@[k] == 0u8,
        decreases bytes@.len() - i,
    {
        buf[i] = bytes[i];
        i = i + 1;
    }
    assert(buf@ =~= padded_name(fullname@));
    Some(buf)
}

impl Share {
    /// The share for one submit outcome, or the reason it cannot be built.
    /// The pool id is checked first, then the worker address, then the name.
    pub fn new(
        job_id: u64,
        server_id: String,
        worker_addr: String,
        worker_id: usize,
        difficulty: u64,
        fullname: String,
        result: SubmitResult,
        height: i32,
        timestamp: u32,
    ) -> (r: Result<Share, ShareError>)
        ensures
            server_id_of(server_id@) is None ==> r == Err::<Share, ShareError>(
                ShareError::InvalidServerId,
            ),
            server_id_of(server_id@) is Some && inet_addr_of(worker_addr@) is None ==> r == Err::<
                Share,
                ShareError,
            >(ShareError::InvalidAddress),
            server_id_of(server_id@) is Some && inet_addr_of(worker_addr@) is Some
                && !fits_name_buffer(fullname@) ==> r == Err::<Share, ShareError>(
                ShareError::FullnameTooLong,
            ),
            r is Ok <==> server_id_of(server_id@) is Some && inet_addr_of(worker_addr@) is Some
                && fits_name_buffer(fullname@),
            r matches Ok(s) ==> share_for(
                s,
                job_id,
                server_id@,
                worker_addr@,
                worker_id,
                difficulty,
                fullname@,
                result,
                height,
                timestamp,
            ),
    {
        let server_id = match get_server_id(server_id.as_str()) {
            Some(v) => v,
            None => return Err(ShareError::InvalidServerId),
        };
        let ip = match get_inet_addr(worker_addr.as_str()) {
            Some(v) => v,
            None => return Err(ShareError::InvalidAddress),
        };
        let fullname = match get_fullname(fullname.as_str()) {
            Some(v) => v,
            None => return Err(ShareError::FullnameTooLong),
        };
        Ok(Share {
            job_id,
            worker_hash_id: 0,
            difficulty,
            ip,
            user_id: worker_id as i32,
            timestamp,
            blkbits: 0,
            result: result.code(),
            height,
            share_diff: 0,
            server_id,
            fullname,
        })
    }
}

/// The numeric fields of a record, in wire order.
pub type ShareHeader = (u64, i64, u64, u32, i32, u32, u32, i32, i32, u64, u16);

pub open spec fn le_u16(x: u16) -> Seq<u8> {
    seq![x as u8, (x >> 8u16) as u8]
}

pub open spec fn le_u32(x: u32) -> Seq<u8> {
    seq![x as u8, (x >> 8u32) as u8, (x >> 16u32) as u8, (x >> 24u32) as u8]
}

pub open spec fn le_u64(x: u64) -> Seq<u8> {
    seq![
        x as u8,
        (x >> 8u64) as u8,
        (x >> 16u64) as u8,
        (x >> 24u64) as u8,
        (x >> 32u64) as u8,
        (x >> 40u64) as u8,
        (x >> 48u64) as u8,
        (x >> 56u64) as u8,
    ]
}

/// The numeric fields laid out little-endian, each at its own width, with
/// nothing between them; signed fields in two's complement.
pub open spec fn header_bytes(h: ShareHeader) -> Seq<u8> {
    le_u64(h.0) + le_u64(h.1 as u64) + le_u64(h.2) + le_u32(h.3) + le_u32(h.4 as u32) + le_u32(h.5)
        + le_u32(h.6) + le_u32(h.7 as u32) + le_u32(h.8 as u32) + le_u64(h.9) + le_u16(h.10)
}

pub open spec fn header_of(s: Share) -> ShareHeader {
    (
        s.job_id,
        s.worker_hash_id,
        s.difficulty,
        s.ip,
        s.user_id,
        s.timestamp,
        s.blkbits,
        s.result,
        s.height,
        s.share_diff,
        s.server_id,
    )
}

/// The wire record of a share: the numeric fields, then the name buffer.
pub open spec fn record_bytes(s: Share) -> Seq<u8> {
    header_bytes(header_of(s)) + s.fullname@
}

/// Relies on `bincode::serialize` (fixed-width integers, little-endian, a
/// tuple as its fields one after another) on the numeric fields of `s`.
#[verifier::external_body]
fn serialize_header(s: &Share) -> (r: Option<Vec<u8>>)
    ensures
        r is Some,
        r matches Some(b) ==> b@ == header_bytes(header_of(*s)),
{
    let h: ShareHeader = (
        s.job_id,
        s.worker_hash_id,
        s.difficulty,
        s.ip,
        s.user_id,
        s.timestamp,
        s.blkbits,
        s.result,
        s.height,
        s.share_diff,
        s.server_id,
    );
    bincode::serialize(&h).ok()
}

/// Relies on `bincode::deserialize` reading the numeric fields from the
/// first `HEADER_LEN` bytes of `b`, in the layout `serialize` writes.
#[verifier::external_body]
fn deserialize_header(b: &[u8]) -> (r: Option<ShareHeader>)
    ensures
        b@.len() >= HEADER_LEN ==> r is Some,
        r matches Some(h) ==> b@.len() >= HEADER_LEN && header_bytes(h) == b@.take(
            HEADER_LEN as int,
        ),
{
    bincode::deserialize::<ShareHeader>(b).ok()
}

/// The wire record of `share`.
pub fn encode(share: &Share) -> (r: Vec<u8>)
    ensures
        r@ == record_bytes(*share),
{
    let mut out = match serialize_header(share) {
        Some(b) => b,
        None => Vec::new(),
    };
    let mut i: usize = 0;
    while i < FULLNAME_LIMIT
        invariant
            out@ == header_bytes(header_of(*share)) + share.fullname@.take(i as int),
            i <= FULLNAME_LIMIT,
            share.fullname@.len() == FULLNAME_LIMIT,
        decreases FULLNAME_LIMIT - i,
    {
        out.push(share.fullname[i]);
        i = i + 1;
        assert(out@ =~= header_bytes(header_of(*share)) + share.fullname@.take(i as int));
    }
    assert(share.fullname@.take(FULLNAME_LIMIT as int) =~= share.fullname@);
    out
}

/// The share whose wire record is `bytes`; `None` where `bytes` is not
/// exactly one record long.
pub fn decode(bytes: &[u8]) -> (r: Option<Share>)
    ensures
        r is Some <==> bytes@.len() == RECORD_LEN,
        r matches Some(s) ==> record_bytes(s) == bytes@,
{
    if bytes.len() != RECORD_LEN {
        return None;
    }
    let h = match deserialize_header(bytes) {
        Some(h) => h,
        None => return None,
    };
    let mut fullname = [0u8; FULLNAME_LIMIT];
    let mut i: usize = 0;
    while i < FULLNAME_LIMIT
        invariant
            bytes@.len() == RECORD_LEN,
            fullname@.len() == FULLNAME_LIMIT,
            i <= FULLNAME_LIMIT,
            forall|k: int| 0 <= k < i ==> fullname@[k] == bytes@[HEADER_LEN + k],
        decreases FULLNAME_LIMIT - i,
    {
        fullname[i] = bytes[HEADER_LEN + i];
        i = i + 1;
    }
    let s = Share {
        job_id: h.0,
        worker_hash_id: h.1,
        difficulty: h.2,
        ip: h.3,
        user_id: h.4,
        timestamp: h.5,
        blkbits: h.6,
        result: h.7,
        height: h.8,
        share_diff: h.9,
        server_id: h.10,
        fullname,
    };
    assert(header_of(s) == h);
    assert(record_bytes(s) =~= bytes@);
    Some(s)
}

proof fn lemma_le_u16_injective(x: u16, y: u16)
    requires
        le_u16(x) == le_u16(y),
    ensures
        x == y,
{
    assert(le_u16(x)[0] == le_u16(y)[0] && le_u16(x)[1] == le_u16(y)[1]);
    assert(x == y) by (bit_vector)
        requires
            x as u8 == y as u8,
            (x >> 8u16) as u8 == (y >> 8u16) as u8,
    ;
}

proof fn lemma_le_u32_injective(x: u32, y: u32)
    requires
        le_u32(x) == le_u32(y),
    ensures
        x == y,
{
    assert(le_u32(x)[0] == le_u32(y)[0] && le_u32(x)[1] == le_u32(y)[1]);
    assert(le_u32(x)[2] == le_u32(y)[2] && le_u32(x)[3] == le_u32(y)[3]);
    assert(x == y) by (bit_vector)
        requires
            x as u8 == y as u8,
            (x >> 8u32) as u8 == (y >> 8u32) as u8,
            (x >> 16u32) as u8 == (y >> 16u32) as u8,
            (x >> 24u32) as u8 == (y >> 24u32) as u8,
    ;
}

proof fn lemma_le_u64_injective(x: u64, y: u64)
    requires
        le_u64(x) == le_u64(y),
    ensures
        x == y,
{
    assert(le_u64(x)[0] == le_u64(y)[0] && le_u64(x)[1] == le_u64(y)[1]);
    assert(le_u64(x)[2] == le_u64(y)[2] && le_u64(x)[3] == le_u64(y)[3]);
    assert(le_u64(x)[4] == le_u64(y)[4] && le_u64(x)[5] == le_u64(y)[5]);
    assert(le_u64(x)[6] == le_u64(y)[6] && le_u64(x)[7] == le_u64(y)[7]);
    assert(x == y) by (bit_vector)
        requires
            x as u8 == y as u8,
            (x >> 8u64) as u8 == (y >> 8u64) as u8,
            (x >> 16u64) as u8 == (y >> 16u64) as u8,
            (x >> 24u64) as u8 == (y >> 24u64) as u8,
            (x >> 32u64) as u8 == (y >> 32u64) as u8,
            (x >> 40u64) as u8 == (y >> 40u64) as u8,
            (x >> 48u64) as u8 == (y >> 48u64) as u8,
            (x >> 56u64) as u8 == (y >> 56u64) as u8,
    ;
}

/// Two headers with the same bytes are the same header.
proof fn lemma_header_injective(a: ShareHeader, b: ShareHeader)
    requires
        header_bytes(a) == header_bytes(b),
    ensures
        a == b,
{
    let x = header_bytes(a);
    let y = header_bytes(b);
    assert(x.len() == HEADER_LEN);
    assert(x.subrange(0, 8) =~= le_u64(a.0) && y.subrange(0, 8) =~= le_u64(b.0));
    assert(x.subrange(8, 16) =~= le_u64(a.1 as u64) && y.subrange(8, 16) =~= le_u64(b.1 as u64));
    assert(x.subrange(16, 24) =~= le_u64(a.2) && y.subrange(16, 24) =~= le_u64(b.2));
    assert(x.subrange(24, 28) =~= le_u32(a.3) && y.subrange(24, 28) =~= le_u32(b.3));
    assert(x.subrange(28, 32) =~= le_u32(a.4 as u32) && y.subrange(28, 32) =~= le_u32(b.4 as u32));
    assert(x.subrange(32, 36) =~= le_u32(a.5) && y.subrange(32, 36) =~= le_u32(b.5));
    assert(x.subrange(36, 40) =~= le_u32(a.6) && y.subrange(36, 40) =~= le_u32(b.6));
    assert(x.subrange(40, 44) =~= le_u32(a.7 as u32) && y.subrange(40, 44) =~= le_u32(b.7 as u32));
    assert(x.subrange(44, 48) =~= le_u32(a.8 as u32) && y.subrange(44, 48) =~= le_u32(b.8 as u32));
    assert(x.subrange(48, 56) =~= le_u64(a.9) && y.subrange(48, 56) =~= le_u64(b.9));
    assert(x.subrange(56, 58) =~= le_u16(a.10) && y.subrange(56, 58) =~= le_u16(b.10));
    lemma_le_u64_injective(a.0, b.0);
    lemma_le_u64_injective(a.1 as u64, b.1 as u64);
    lemma_le_u64_injective(a.2, b.2);
    lemma_le_u32_injective(a.3, b.3);
    lemma_le_u32_injective(a.4 as u32, b.4 as u32);
    lemma_le_u32_injective(a.5, b.5);
    lemma_le_u32_injective(a.6, b.6);
    lemma_le_u32_injective(a.7 as u32, b.7 as u32);
    lemma_le_u32_injective(a.8 as u32, b.8 as u32);
    lemma_le_u64_injective(a.9, b.9);
    lemma_le_u16_injective(a.10, b.10);
    let (a1, b1, a4, b4, a7, b7, a8, b8) = (a.1, b.1, a.4, b.4, a.7, b.7, a.8, b.8);
    assert(a1 == b1) by (bit_vector)
        requires
            a1 as u64 == b1 as u64,
    ;
    assert(a4 == b4 && a7 == b7 && a8 == b8) by (bit_vector)
        requires
            a4 as u32 == b4 as u32,
            a7 as u32 == b7 as u32,
            a8 as u32 == b8 as u32,
    ;
}

/// Round trip of the wire record: every share encodes to exactly one
/// record's length, so `decode` accepts it, and the only share whose record
/// equals that of `s` is `s` itself; so decoding an encoded share gives it
/// back, and encoding what was decoded gives the same bytes.
pub proof fn lemma_record_round_trip(s: Share, t: Share)
    ensures
        record_bytes(s).len() == RECORD_LEN,
        record_bytes(t) == record_bytes(s) ==> t == s,
{
    let x = record_bytes(s);
    let y = record_bytes(t);
    assert(header_bytes(header_of(s)).len() == HEADER_LEN);
    assert(header_bytes(header_of(t)).len() == HEADER_LEN);
    if y == x {
        assert(x.take(HEADER_LEN as int) =~= header_bytes(header_of(s)));
        assert(y.take(HEADER_LEN as int) =~= header_bytes(header_of(t)));
        assert(x.skip(HEADER_LEN as int) =~= s.fullname@);
        assert(y.skip(HEADER_LEN as int) =~= t.fullname@);
        lemma_header_injective(header_of(s), header_of(t));
        assert(s.fullname == t.fullname);
    }
}

} // verus!
