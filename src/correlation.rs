//! Correlation ids: the RPC id of an upstream submit carries, base64-encoded,
//! `<worker_id>+<height>+<job_id>+<nonce>+<edge_bits>`, so that the response
//! brings back everything needed to account for it.
use vstd::prelude::*;
use crate::text::{
    all_digits, decimal, lemma_decimal, lemma_parse_decimal, lemma_parse_signed_decimal,
    lemma_split_join, lemma_split_no_sep, lemma_views, parse_i32_chars, parse_signed,
    parse_unsigned, parse_unsigned_chars, push_decimal, push_signed_decimal, signed_decimal,
    split, split_chars,
};

verus! {

/// The context of one upstream submit.
#[derive(Debug, Clone, Copy, PartialEq, Eq, Structural)]
pub struct Correlation {
    pub worker_id: usize,
    pub height: i32,
    pub job_id: u64,
    pub nonce: u64,
    pub edge_bits: u32,
}

/// What `base64::encode` gives for `b`.
pub uninterp spec fn base64_of(b: Seq<u8>) -> Seq<char>;

/// What `base64::decode` gives for `s`: `None` where it reports an error.
pub uninterp spec fn base64_decoded(s: Seq<char>) -> Option<Seq<u8>>;

/// Relies on `base64::encode` (standard alphabet, padded).
#[verifier::external_body]
fn base64_encode(b: &[u8]) -> (r: String)
    ensures
        r@ == base64_of(b@),
{
    base64::encode(b)
}

/// Relies on `base64::decode` (standard alphabet, padded), which reads back
/// what `base64::encode` wrote.
#[verifier::external_body]
fn base64_decode(s: &str) -> (r: Option<Vec<u8>>)
    ensures
        r is None ==> base64_decoded(s@) is None,
        r matches Some(v) ==> base64_decoded(s@) == Some(v@),
        forall|b: Seq<u8>| #[trigger] base64_of(b) == s@ ==> r is Some,
        forall|b: Seq<u8>| #[trigger] base64_of(b) == s@ ==> (r matches Some(v) ==> v@ == b),
{
    base64::decode(s).ok()
}

/// The plain text of a correlation id.
pub open spec fn correlation_text(c: Correlation) -> Seq<char> {
    decimal(c.worker_id as nat) + seq!['+'] + signed_decimal(c.height as int) + seq!['+']
        + decimal(c.job_id as nat) + seq!['+'] + decimal(c.nonce as nat) + seq!['+'] + decimal(
        c.edge_bits as nat,
    )
}

pub open spec fn ascii_bytes(t: Seq<char>) -> Seq<u8> {
    t.map_values(|ch: char| (ch as u32) as u8)
}

pub open spec fn is_ascii_bytes(b: Seq<u8>) -> bool {
    forall|i: int| 0 <= i < b.len() ==> #[trigger] b[i] < 128
}

pub open spec fn ascii_text(b: Seq<u8>) -> Seq<char> {
    b.map_values(|x: u8| x as char)
}

/// The bytes that are base64-encoded into the correlation id of `c`.
pub open spec fn correlation_bytes(c: Correlation) -> Seq<u8> {
    ascii_bytes(correlation_text(c))
}

/// The context read from correlation text: exactly five `+`-separated
/// fields, each a numeral in the range of its field.
pub open spec fn parse_correlation_text(t: Seq<char>) -> Option<Correlation> {
    let f = split(t, '+');
    if f.len() == 5 && parse_unsigned(f[0], usize::MAX as nat) is Some && parse_signed(
        f[1],
        i32::MIN as int,
        i32::MAX as int,
    ) is Some && parse_unsigned(f[2], u64::MAX as nat) is Some && parse_unsigned(
        f[3],
        u64::MAX as nat,
    ) is Some && parse_unsigned(f[4], u32::MAX as nat) is Some {
        Some(
            Correlation {
                worker_id: parse_unsigned(f[0], usize::MAX as nat)->0 as usize,
                height: parse_signed(f[1], i32::MIN as int, i32::MAX as int)->0 as i32,
                job_id: parse_unsigned(f[2], u64::MAX as nat)->0 as u64,
                nonce: parse_unsigned(f[3], u64::MAX as nat)->0 as u64,
                edge_bits: parse_unsigned(f[4], u32::MAX as nat)->0 as u32,
            },
        )
    } else {
        None
    }
}

/// The context read from the bytes of a decoded correlation id; `None` where
/// they are not text of the expected shape.
pub open spec fn parse_correlation(b: Seq<u8>) -> Option<Correlation> {
    if is_ascii_bytes(b) {
        parse_correlation_text(ascii_text(b))
    } else {
        None
    }
}

/// The context read from a correlation id.
pub open spec fn correlation_of(id: Seq<char>) -> Option<Correlation> {
    match base64_decoded(id) {
        Some(b) => parse_correlation(b),
        None => None,
    }
}

/// The correlation text of a submission as the pool sends it: the height
/// written as the unsigned number it is.
pub open spec fn submission_text(
    worker_id: usize,
    height: u64,
    job_id: u64,
    nonce: u64,
    edge_bits: u32,
) -> Seq<char> {
    decimal(worker_id as nat) + seq!['+'] + decimal(height as nat) + seq!['+'] + decimal(
        job_id as nat,
    ) + seq!['+'] + decimal(nonce as nat) + seq!['+'] + decimal(edge_bits as nat)
}

/// The ASCII bytes of `t`, whose characters are all ASCII.
fn ascii_bytes_of(t: &Vec<char>) -> (r: Vec<u8>)
    ensures
        r@ == ascii_bytes(t@),
{
    let mut r: Vec<u8> = Vec::new();
    let mut i: usize = 0;
    while i < t.len()
        invariant
            i <= t@.len(),
            r@ =~= ascii_bytes(t@.take(i as int)),
        decreases t@.len() - i,
    {
        r.push((t[i] as u32) as u8);
        i = i + 1;
        assert(r@ =~= ascii_bytes(t@.take(i as int)));
    }
    assert(t@.take(t@.len() as int) =~= t@);
    r
}

/// The correlation id of a submission from worker `worker_id`.
pub fn encode_submission_id(
    worker_id: usize,
    height: u64,
    job_id: u64,
    nonce: u64,
    edge_bits: u32,
) -> (r: String)
    ensures
        r@ == base64_of(ascii_bytes(submission_text(worker_id, height, job_id, nonce, edge_bits))),
{
    let mut t: Vec<char> = Vec::new();
    push_decimal(&mut t, worker_id as u64);
    t.push('+');
    push_decimal(&mut t, height);
    t.push('+');
    push_decimal(&mut t, job_id);
    t.push('+');
    push_decimal(&mut t, nonce);
    t.push('+');
    push_decimal(&mut t, edge_bits as u64);
    assert(t@ =~= submission_text(worker_id, height, job_id, nonce, edge_bits));
    let b = ascii_bytes_of(&t);
    base64_encode(b.as_slice())
}

/// The bytes that the correlation id of `c` encodes.
pub fn correlation_bytes_of(c: &Correlation) -> (r: Vec<u8>)
    ensures
        r@ == correlation_bytes(*c),
{
    let mut t: Vec<char> = Vec::new();
    push_decimal(&mut t, c.worker_id as u64);
    t.push('+');
    push_signed_decimal(&mut t, c.height);
    t.push('+');
    push_decimal(&mut t, c.job_id);
    t.push('+');
    push_decimal(&mut t, c.nonce);
    t.push('+');
    push_decimal(&mut t, c.edge_bits as u64);
    assert(t@ =~= correlation_text(*c));
    ascii_bytes_of(&t)
}

/// The correlation id of `c`.
pub fn encode_correlation(c: &Correlation) -> (r: String)
    ensures
        r@ == base64_of(correlation_bytes(*c)),
{
    let b = correlation_bytes_of(c);
    base64_encode(b.as_slice())
}

/// The context held in the decoded bytes of a correlation id.
pub fn parse_correlation_bytes(b: &[u8]) -> (r: Option<Correlation>)
    ensures
        r == parse_correlation(b@),
{
    let mut t: Vec<char> = Vec::new();
    let mut i: usize = 0;
    while i < b.len()
        invariant
            i <= b@.len(),
            is_ascii_bytes(b@.take(i as int)),
            t@ =~= ascii_text(b@.take(i as int)),
        decreases b@.len() - i,
    {
        if b[i] >= 128 {
            assert(!is_ascii_bytes(b@));
            return None;
        }
        t.push(b[i] as char);
        i = i + 1;
        assert(t@ =~= ascii_text(b@.take(i as int)));
    }
    assert(b@.take(b@.len() as int) =~= b@);
    let f = split_chars(&t, '+');
    proof {
        lemma_views(f@);
    }
    if f.len() != 5 {
        return None;
    }
    let worker_id = parse_unsigned_chars(&f[0], usize::MAX as u64);
    let height = parse_i32_chars(&f[1]);
    let job_id = parse_unsigned_chars(&f[2], u64::MAX);
    let nonce = parse_unsigned_chars(&f[3], u64::MAX);
    let edge_bits = parse_unsigned_chars(&f[4], u32::MAX as u64);
    match (worker_id, height, job_id, nonce, edge_bits) {
        (Some(w), Some(h), Some(j), Some(n), Some(e)) => Some(
            Correlation {
                worker_id: w as usize,
                height: h,
                job_id: j,
                nonce: n,
                edge_bits: e as u32,
            },
        ),
        _ => None,
    }
}

/// The context carried by the correlation id `id`; `None` where `id` is not
/// base64, or what it encodes is not correlation text.
pub fn decode_correlation(id: &str) -> (r: Option<Correlation>)
    ensures
        r == correlation_of(id@),
        forall|c: Correlation| #[trigger] base64_of(correlation_bytes(c)) == id@ ==> r == Some(c),
        forall|w: usize, h: u64, j: u64, n: u64, e: u32|
            #[trigger] base64_of(ascii_bytes(submission_text(w, h, j, n, e))) == id@ ==> r == (if h
                <= i32::MAX {
                Some(Correlation { worker_id: w, height: h as i32, job_id: j, nonce: n, edge_bits: e })
            } else {
                None
            }),
{
    let r = match base64_decode(id) {
        Some(b) => parse_correlation_bytes(b.as_slice()),
        None => None,
    };
    proof {
        assert forall|c: Correlation| #[trigger] base64_of(correlation_bytes(c)) == id@ implies r
            == Some(c) by {
            lemma_correlation_round_trip(c);
        }
        assert forall|w: usize, h: u64, j: u64, n: u64, e: u32|
            #[trigger] base64_of(ascii_bytes(submission_text(w, h, j, n, e))) == id@ implies r == (if h
                <= i32::MAX {
                Some(Correlation { worker_id: w, height: h as i32, job_id: j, nonce: n, edge_bits: e })
            } else {
                None
            }) by {
            lemma_submission_round_trip(w, h, j, n, e);
        }
    }
    r
}

proof fn lemma_ascii_round_trip(t: Seq<char>)
    requires
        forall|i: int| 0 <= i < t.len() ==> (#[trigger] t[i] as u32) < 128,
    ensures
        is_ascii_bytes(ascii_bytes(t)),
        ascii_text(ascii_bytes(t)) == t,
{
    assert forall|i: int| 0 <= i < t.len() implies (ascii_bytes(t)[i] as char) == t[i] && #[trigger] ascii_bytes(t)[i] < 128 by {
        let ch = t[i];
        assert((ch as u32) < 128);
        let x = (ch as u32) as u8;
        assert(x as u32 == ch as u32);
        assert((x as char) as u32 == x as u32);
        vstd::utf8::char_u32_cast(x as char, x as u32);
        vstd::utf8::char_u32_cast(ch, ch as u32);
        assert((x as char) == ch);
    }
    assert(ascii_text(ascii_bytes(t)) =~= t);
}

proof fn lemma_numeral_chars(n: nat)
    ensures
        forall|i: int| 0 <= i < decimal(n).len() ==> (#[trigger] decimal(n)[i] as u32) < 128,
{
    lemma_decimal(n);
    assert forall|i: int| 0 <= i < decimal(n).len() implies (#[trigger] decimal(n)[i] as u32) < 128 by {
        assert(all_digits(decimal(n)));
        assert(crate::text::is_digit(decimal(n)[i]));
    }
}

/// Correlation ids are a bijection onto their image: the text of every
/// context reads back as that context (so no two contexts share an id), and
/// its bytes are plain ASCII.
pub proof fn lemma_correlation_round_trip(c: Correlation)
    ensures
        parse_correlation(correlation_bytes(c)) == Some(c),
        forall|d: Correlation| correlation_bytes(d) == correlation_bytes(c) ==> d == c,
{
    lemma_correlation_text(c);
    assert forall|d: Correlation| correlation_bytes(d) == correlation_bytes(c) implies d == c by {
        lemma_correlation_text(d);
    }
}

pub open spec fn join_fields(
    a: Seq<char>,
    b: Seq<char>,
    c: Seq<char>,
    d: Seq<char>,
    e: Seq<char>,
) -> Seq<char> {
    a + seq!['+'] + b + seq!['+'] + c + seq!['+'] + d + seq!['+'] + e
}

pub open spec fn all_ascii(t: Seq<char>) -> bool {
    forall|i: int| 0 <= i < t.len() ==> (#[trigger] t[i] as u32) < 128
}

proof fn lemma_join_fields(a: Seq<char>, b: Seq<char>, c: Seq<char>, d: Seq<char>, e: Seq<char>)
    requires
        !a.contains('+') && !b.contains('+') && !c.contains('+') && !d.contains('+') && !e.contains(
            '+',
        ),
        all_ascii(a) && all_ascii(b) && all_ascii(c) && all_ascii(d) && all_ascii(e),
    ensures
        split(join_fields(a, b, c, d, e), '+') == seq![a, b, c, d, e],
        all_ascii(join_fields(a, b, c, d, e)),
{
    let t = join_fields(a, b, c, d, e);
    let r3 = d + seq!['+'] + e;
    let r2 = c + seq!['+'] + r3;
    let r1 = b + seq!['+'] + r2;
    assert(t =~= a + seq!['+'] + r1);
    lemma_split_no_sep(a, '+');
    lemma_split_no_sep(b, '+');
    lemma_split_no_sep(c, '+');
    lemma_split_no_sep(d, '+');
    lemma_split_no_sep(e, '+');
    lemma_split_join(d, e, '+');
    lemma_split_join(c, r3, '+');
    lemma_split_join(b, r2, '+');
    lemma_split_join(a, r1, '+');
    assert(split(t, '+') =~= seq![a, b, c, d, e]);
    assert forall|i: int| 0 <= i < t.len() implies (#[trigger] t[i] as u32) < 128 by {
        let p = a.len() as int;
        let q = p + 1 + b.len();
        let u = q + 1 + c.len();
        let v = u + 1 + d.len();
        if i < p {
            assert(t[i] == a[i]);
        } else if i == p {
        } else if i < q {
            assert(t[i] == b[i - p - 1]);
        } else if i == q {
        } else if i < u {
            assert(t[i] == c[i - q - 1]);
        } else if i == u {
        } else if i < v {
            assert(t[i] == d[i - u - 1]);
        } else if i == v {
        } else {
            assert(t[i] == e[i - v - 1]);
        }
    }
}

/// The correlation id of a submission reads back as its context where the
/// height fits the height field of a record, and not at all where it does not.
pub proof fn lemma_submission_round_trip(
    worker_id: usize,
    height: u64,
    job_id: u64,
    nonce: u64,
    edge_bits: u32,
)
    ensures
        parse_correlation(ascii_bytes(submission_text(worker_id, height, job_id, nonce, edge_bits)))
            == (if height <= i32::MAX {
            Some(
                Correlation { worker_id, height: height as i32, job_id, nonce, edge_bits },
            )
        } else {
            None
        }),
{
    let d0 = decimal(worker_id as nat);
    let d1 = decimal(height as nat);
    let d2 = decimal(job_id as nat);
    let d3 = decimal(nonce as nat);
    let d4 = decimal(edge_bits as nat);
    lemma_parse_decimal(worker_id as nat, usize::MAX as nat);
    lemma_parse_decimal(height as nat, height as nat);
    lemma_parse_decimal(job_id as nat, u64::MAX as nat);
    lemma_parse_decimal(nonce as nat, u64::MAX as nat);
    lemma_parse_decimal(edge_bits as nat, u32::MAX as nat);
    lemma_numeral_chars(worker_id as nat);
    lemma_numeral_chars(height as nat);
    lemma_numeral_chars(job_id as nat);
    lemma_numeral_chars(nonce as nat);
    lemma_numeral_chars(edge_bits as nat);
    let t = submission_text(worker_id, height, job_id, nonce, edge_bits);
    assert(t == join_fields(d0, d1, d2, d3, d4));
    lemma_join_fields(d0, d1, d2, d3, d4);
    lemma_ascii_round_trip(t);
    lemma_decimal(height as nat);
    assert(crate::text::is_digit(d1[0]));
}

proof fn lemma_correlation_text(c: Correlation)
    ensures
        parse_correlation(correlation_bytes(c)) == Some(c),
{
    let d0 = decimal(c.worker_id as nat);
    let s1 = signed_decimal(c.height as int);
    let d2 = decimal(c.job_id as nat);
    let d3 = decimal(c.nonce as nat);
    let d4 = decimal(c.edge_bits as nat);
    lemma_parse_decimal(c.worker_id as nat, usize::MAX as nat);
    lemma_parse_signed_decimal(c.height as int, i32::MIN as int, i32::MAX as int);
    lemma_parse_decimal(c.job_id as nat, u64::MAX as nat);
    lemma_parse_decimal(c.nonce as nat, u64::MAX as nat);
    lemma_parse_decimal(c.edge_bits as nat, u32::MAX as nat);
    lemma_numeral_chars(c.worker_id as nat);
    lemma_numeral_chars(c.job_id as nat);
    lemma_numeral_chars(c.nonce as nat);
    lemma_numeral_chars(c.edge_bits as nat);
    if c.height < 0 {
        lemma_numeral_chars((-c.height) as nat);
    } else {
        lemma_numeral_chars(c.height as nat);
    }
    assert forall|i: int| 0 <= i < s1.len() implies (#[trigger] s1[i] as u32) < 128 by {
        if c.height < 0 && i > 0 {
            assert(s1[i] == decimal((-c.height) as nat)[i - 1]);
        }
    }
    assert(correlation_text(c) == join_fields(d0, s1, d2, d3, d4));
    lemma_join_fields(d0, s1, d2, d3, d4);
    lemma_ascii_round_trip(correlation_text(c));
}

} // verus!
