//! Payload module: a deterministic textual encoding of the payload content.
//!
//! A payload is serialized as one object in a canonical textual form, e.g.
//! `{"sequence_number":12,"config":"c"}`: fixed keys per payload type, the
//! sequence number in decimal with no leading zeros, text fields quoted
//! verbatim (no escapes; text holding a quote, a backslash or a control byte
//! is rejected on encode).  The decoder accepts exactly one whole object and
//! consumes the whole slice.

use vstd::prelude::*;
use vstd::utf8::{decode_utf8, encode_utf8, valid_utf8};
use vstd::string::StringSliceAdditionalSpecFns;

use crate::packet::payload_content::{PayloadContent, SpecPayloadContent};
use crate::packet::payload_type::PayloadType;
use crate::text::bytes_as_str;

verus! {

/// Error returned by [`Payload::write_to`].
#[derive(Debug, Clone, Copy, PartialEq, Eq, Structural)]
pub enum PayloadWriteError {
    /// The destination buffer is too small to fit the serialized payload.
    BufferTooSmall,
    /// A text field cannot be written verbatim (it holds a quote, a
    /// backslash or a control byte).
    Unencodable,
}

/// Error returned by [`Payload::payload_from_json_slice`].
#[derive(Debug, Clone, Copy, PartialEq, Eq, Structural)]
pub enum PayloadFromSliceError {
    /// The slice is not one whole serialized payload of the expected type.
    Deserialize,
}

/// Is the byte a decimal digit?
pub open spec fn is_digit(b: u8) -> bool {
    48 <= b <= 57
}

/// The canonical decimal representation of a nonnegative number.
pub open spec fn dec_rep(n: int) -> Seq<u8>
    decreases n,
    when n >= 0
{
    if n < 10 {
        seq![(48 + n) as u8]
    } else {
        dec_rep(n / 10) + seq![(48 + n % 10) as u8]
    }
}

/// The number a digit sequence denotes.
pub open spec fn dec_val(s: Seq<u8>) -> int
    decreases s.len(),
{
    if s.len() == 0 {
        0
    } else {
        dec_val(s.drop_last()) * 10 + (s.last() - 48)
    }
}

/// The canonical decimal representation denotes the number it was made from,
/// consists of digits, and has no leading zero unless it is exactly "0".
pub proof fn lemma_dec_rep(n: int)
    requires
        n >= 0,
    ensures
        dec_rep(n).len() >= 1,
        forall|j: int| 0 <= j < dec_rep(n).len() ==> is_digit(#[trigger] dec_rep(n)[j]),
        dec_val(dec_rep(n)) == n,
        n >= 10 ==> dec_rep(n).len() >= 2,
        dec_rep(n)[0] == 48 ==> n == 0,
    decreases n,
{
    if n < 10 {
        let s = dec_rep(n);
        assert(s == seq![(48 + n) as u8]);
        assert(s.drop_last() =~= Seq::<u8>::empty());
        assert(dec_val(s) == dec_val(s.drop_last()) * 10 + (s.last() - 48));
        assert(dec_val(s.drop_last()) == 0);
        assert(s.last() == (48 + n) as u8);
    } else {
        lemma_dec_rep(n / 10);
        let s = dec_rep(n);
        assert(s.drop_last() =~= dec_rep(n / 10));
        assert(s.last() == (48 + n % 10) as u8);
        assert(dec_val(s) == (n / 10) * 10 + n % 10);
        assert((n / 10) * 10 + n % 10 == n) by (nonlinear_arith)
            requires n >= 0;
    }
}

/// One past the last digit of the digit run starting at `i`.
pub open spec fn digits_end(src: Seq<u8>, i: int) -> int
    decreases src.len() - i,
    when 0 <= i <= src.len()
{
    if i >= src.len() || !is_digit(src[i]) {
        i
    } else {
        digits_end(src, i + 1)
    }
}

/// The digit run is the same seen from any position inside it.
pub proof fn lemma_digits_end_advance(src: Seq<u8>, i: int, k: int)
    requires
        0 <= i <= k <= src.len(),
        forall|j: int| i <= j < k ==> is_digit(#[trigger] src[j]),
    ensures
        digits_end(src, i) == digits_end(src, k),
    decreases k - i,
{
    if i < k {
        lemma_digits_end_advance(src, i + 1, k);
    }
}

/// A digit run's value only grows as the run extends.
pub proof fn lemma_dec_val_grows(s: Seq<u8>, t: Seq<u8>)
    requires
        dec_val(s) >= 0,
        forall|j: int| 0 <= j < t.len() ==> is_digit(#[trigger] t[j]),
    ensures
        dec_val(s + t) >= dec_val(s),
    decreases t.len(),
{
    if t.len() == 0 {
        assert(s + t =~= s);
    } else {
        lemma_dec_val_grows(s, t.drop_last());
        assert((s + t).drop_last() =~= s + t.drop_last());
        assert(dec_val(s + t) == dec_val(s + t.drop_last()) * 10 + ((s + t).last() - 48));
        assert(dec_val(s + t.drop_last()) * 10 >= dec_val(s + t.drop_last())) by (nonlinear_arith)
            requires dec_val(s + t.drop_last()) >= 0;
    }
}

/// The unsigned number parsed from the digit run starting at `i`: its value
/// and the position after it.  Nothing is parsed from an empty run, a run
/// with a leading zero, or a value beyond 32 bits.
pub open spec fn spec_parse_u32(src: Seq<u8>, i: int) -> Option<(u32, int)>
    recommends
        0 <= i <= src.len(),
{
    let j = digits_end(src, i);
    if j == i {
        None
    } else if src[i] == 48 && j > i + 1 {
        None
    } else if dec_val(src.subrange(i, j)) > u32::MAX {
        None
    } else {
        Some((dec_val(src.subrange(i, j)) as u32, j))
    }
}

/// The bytes of `{"sequence_number":`, every payload's opening.
pub open spec fn json_seq_key() -> Seq<u8> {
    seq![
        0x7bu8, 0x22u8, 0x73u8, 0x65u8, 0x71u8, 0x75u8, 0x65u8, 0x6eu8, 0x63u8, 0x65u8, 0x5fu8,
        0x6eu8, 0x75u8, 0x6du8, 0x62u8, 0x65u8, 0x72u8, 0x22u8, 0x3au8,
    ]
}

/// The bytes of `,"version":"`.
pub open spec fn json_version_key() -> Seq<u8> {
    seq![0x2cu8, 0x22u8, 0x76u8, 0x65u8, 0x72u8, 0x73u8, 0x69u8, 0x6fu8, 0x6eu8, 0x22u8, 0x3au8, 0x22u8]
}

/// The bytes of `,"config":"`.
pub open spec fn json_config_key() -> Seq<u8> {
    seq![0x2cu8, 0x22u8, 0x63u8, 0x6fu8, 0x6eu8, 0x66u8, 0x69u8, 0x67u8, 0x22u8, 0x3au8, 0x22u8]
}

/// The bytes of `"}`, closing a payload whose last field is text.
pub open spec fn json_close_quote() -> Seq<u8> {
    seq![0x22u8, 0x7du8]
}

/// The bytes of `}`, closing a payload whose last field is the number.
pub open spec fn json_close() -> Seq<u8> {
    seq![0x7du8]
}

/// The bytes can stand verbatim inside quotes: no quote, no backslash, no
/// control byte.
pub open spec fn json_safe(bytes: Seq<u8>) -> bool {
    forall|j: int| 0 <= j < bytes.len() ==> #[trigger] bytes[j] != 0x22 && bytes[j] != 0x5c
        && bytes[j] >= 0x20
}

/// The content's text fields can be written verbatim.
pub open spec fn spec_encodable(c: SpecPayloadContent) -> bool {
    match c {
        SpecPayloadContent::Init { version, .. } => json_safe(encode_utf8(version)),
        SpecPayloadContent::InitAck { version, .. } => json_safe(encode_utf8(version)),
        SpecPayloadContent::DeviceConfig { config, .. } => json_safe(encode_utf8(config)),
        _ => true,
    }
}

/// The serialized bytes of a payload content.
pub open spec fn json_of(c: SpecPayloadContent) -> Seq<u8> {
    match c {
        SpecPayloadContent::Init { sequence_number, version } => json_seq_key() + dec_rep(
            sequence_number as int,
        ) + json_version_key() + encode_utf8(version) + json_close_quote(),
        SpecPayloadContent::InitAck { sequence_number, version } => json_seq_key() + dec_rep(
            sequence_number as int,
        ) + json_version_key() + encode_utf8(version) + json_close_quote(),
        SpecPayloadContent::Heartbeat { sequence_number } => json_seq_key() + dec_rep(
            sequence_number as int,
        ) + json_close(),
        SpecPayloadContent::HeartbeatAck { sequence_number } => json_seq_key() + dec_rep(
            sequence_number as int,
        ) + json_close(),
        SpecPayloadContent::DeviceConfig { sequence_number, config } => json_seq_key() + dec_rep(
            sequence_number as int,
        ) + json_config_key() + encode_utf8(config) + json_close_quote(),
        SpecPayloadContent::DeviceConfigAck { sequence_number } => json_seq_key() + dec_rep(
            sequence_number as int,
        ) + json_close(),
    }
}

/// What serializing a payload into `dst_len` bytes gives: the serialized
/// bytes, or the exact error.
pub open spec fn spec_payload_encode(c: SpecPayloadContent, dst_len: int) -> Result<
    Seq<u8>,
    PayloadWriteError,
> {
    if !spec_encodable(c) {
        Err(PayloadWriteError::Unencodable)
    } else if json_of(c).len() > dst_len {
        Err(PayloadWriteError::BufferTooSmall)
    } else {
        Ok(json_of(c))
    }
}

/// Position of the first quote in `src` at or after `from`.
pub open spec fn find_quote(src: Seq<u8>, from: int) -> Option<int>
    decreases src.len() - from,
    when 0 <= from <= src.len()
{
    if from >= src.len() {
        None
    } else if src[from] == 0x22 {
        Some(from)
    } else {
        find_quote(src, from + 1)
    }
}

/// Scanning can skip positions known to hold no quote.
pub proof fn lemma_find_quote_advance(src: Seq<u8>, from: int, to: int)
    requires
        0 <= from <= to <= src.len(),
        forall|j: int| from <= j < to ==> src[j] != 0x22,
    ensures
        find_quote(src, from) == find_quote(src, to),
    decreases to - from,
{
    if from < to {
        lemma_find_quote_advance(src, from + 1, to);
    }
}

/// The text bytes of a string-variant payload tail that starts at `m`: the
/// bytes before the first quote, which must be valid UTF-8 and be followed
/// by exactly `"}`.
pub open spec fn spec_string_tail(src: Seq<u8>, m: int) -> Result<Seq<u8>, PayloadFromSliceError>
    recommends
        0 <= m <= src.len(),
{
    match find_quote(src, m) {
        Some(q) => if q + 2 == src.len() && src[q + 1] == 0x7d && valid_utf8(
            src.subrange(m, q),
        ) {
            Ok(src.subrange(m, q))
        } else {
            Err(PayloadFromSliceError::Deserialize)
        },
        None => Err(PayloadFromSliceError::Deserialize),
    }
}

/// What deserializing one whole payload of type `t` from `src` gives: the
/// content, or the exact error.  The whole slice must be consumed.
pub open spec fn spec_payload_decode(t: PayloadType, src: Seq<u8>) -> Result<
    SpecPayloadContent,
    PayloadFromSliceError,
> {
    let key = json_seq_key();
    if !(src.len() >= key.len() && src.subrange(0, key.len() as int) == key) {
        Err(PayloadFromSliceError::Deserialize)
    } else {
        match spec_parse_u32(src, key.len() as int) {
            None => Err(PayloadFromSliceError::Deserialize),
            Some((sequence_number, j)) => match t {
                PayloadType::Heartbeat => if j + 1 == src.len() && src[j] == 0x7d {
                    Ok(SpecPayloadContent::Heartbeat { sequence_number })
                } else {
                    Err(PayloadFromSliceError::Deserialize)
                },
                PayloadType::HeartbeatAck => if j + 1 == src.len() && src[j] == 0x7d {
                    Ok(SpecPayloadContent::HeartbeatAck { sequence_number })
                } else {
                    Err(PayloadFromSliceError::Deserialize)
                },
                PayloadType::DeviceConfigAck => if j + 1 == src.len() && src[j] == 0x7d {
                    Ok(SpecPayloadContent::DeviceConfigAck { sequence_number })
                } else {
                    Err(PayloadFromSliceError::Deserialize)
                },
                PayloadType::Init => {
                    let vkey = json_version_key();
                    if src.len() >= j + vkey.len() && src.subrange(j, j + vkey.len() as int)
                        == vkey {
                        match spec_string_tail(src, j + vkey.len() as int) {
                            Ok(bytes) => Ok(SpecPayloadContent::Init {
                                sequence_number,
                                version: decode_utf8(bytes),
                            }),
                            Err(e) => Err(e),
                        }
                    } else {
                        Err(PayloadFromSliceError::Deserialize)
                    }
                },
                PayloadType::InitAck => {
                    let vkey = json_version_key();
                    if src.len() >= j + vkey.len() && src.subrange(j, j + vkey.len() as int)
                        == vkey {
                        match spec_string_tail(src, j + vkey.len() as int) {
                            Ok(bytes) => Ok(SpecPayloadContent::InitAck {
                                sequence_number,
                                version: decode_utf8(bytes),
                            }),
                            Err(e) => Err(e),
                        }
                    } else {
                        Err(PayloadFromSliceError::Deserialize)
                    }
                },
                PayloadType::DeviceConfig => {
                    let ckey = json_config_key();
                    if src.len() >= j + ckey.len() && src.subrange(j, j + ckey.len() as int)
                        == ckey {
                        match spec_string_tail(src, j + ckey.len() as int) {
                            Ok(bytes) => Ok(SpecPayloadContent::DeviceConfig {
                                sequence_number,
                                config: decode_utf8(bytes),
                            }),
                            Err(e) => Err(e),
                        }
                    } else {
                        Err(PayloadFromSliceError::Deserialize)
                    }
                },
            },
        }
    }
}

/// A payload that contains some content.
#[derive(Debug, Clone, PartialEq)]
pub struct Payload {
    /// The content of the payload.
    pub content: PayloadContent,
}

impl View for Payload {
    type V = SpecPayloadContent;

    open spec fn view(&self) -> SpecPayloadContent {
        self.content@
    }
}

impl Payload {
    /// Creates a new payload with the given content.
    pub fn new_raw(content: PayloadContent) -> (r: Payload)
        ensures
            r.content == content,
    {
        Payload { content }
    }

    /// Creates a new payload with the given content.
    pub fn new(content: PayloadContent) -> (r: Payload)
        ensures
            r.content == content,
    {
        Payload { content }
    }

    /// Returns the payload type.
    pub fn payload_type(&self) -> (t: PayloadType)
        ensures
            t == self@.spec_payload_type(),
    {
        self.content.payload_type()
    }
}

/// The bytes of `{"sequence_number":`, as a vector.
fn json_seq_key_vec() -> (v: Vec<u8>)
    ensures
        v@ == json_seq_key(),
{
    let v = vec![
        0x7bu8, 0x22u8, 0x73u8, 0x65u8, 0x71u8, 0x75u8, 0x65u8, 0x6eu8, 0x63u8, 0x65u8, 0x5fu8,
        0x6eu8, 0x75u8, 0x6du8, 0x62u8, 0x65u8, 0x72u8, 0x22u8, 0x3au8,
    ];
    proof {
        assert(v@ =~= json_seq_key());
    }
    v
}

/// The bytes of `,"version":"`, as a vector.
fn json_version_key_vec() -> (v: Vec<u8>)
    ensures
        v@ == json_version_key(),
{
    let v = vec![
        0x2cu8, 0x22u8, 0x76u8, 0x65u8, 0x72u8, 0x73u8, 0x69u8, 0x6fu8, 0x6eu8, 0x22u8, 0x3au8,
        0x22u8,
    ];
    proof {
        assert(v@ =~= json_version_key());
    }
    v
}

/// The bytes of `,"config":"`, as a vector.
fn json_config_key_vec() -> (v: Vec<u8>)
    ensures
        v@ == json_config_key(),
{
    let v = vec![0x2cu8, 0x22u8, 0x63u8, 0x6fu8, 0x6eu8, 0x66u8, 0x69u8, 0x67u8, 0x22u8, 0x3au8, 0x22u8];
    proof {
        assert(v@ =~= json_config_key());
    }
    v
}

/// Appends a byte slice to a vector.
fn push_bytes(out: &mut Vec<u8>, bytes: &[u8])
    ensures
        final(out)@ == old(out)@ + bytes@,
{
    let mut k: usize = 0;
    while k < bytes.len()
        invariant
            k <= bytes@.len(),
            out@ == old(out)@ + bytes@.subrange(0, k as int),
        decreases bytes@.len() - k,
    {
        let b = bytes[k];
        out.push(b);
        proof {
            assert(out@ =~= old(out)@ + bytes@.subrange(0, k + 1));
        }
        k += 1;
    }
    proof {
        assert(out@ =~= old(out)@ + bytes@);
    }
}

/// Appends the canonical decimal representation of `n` to a vector.
fn push_dec(n: u32, out: &mut Vec<u8>)
    ensures
        final(out)@ == old(out)@ + dec_rep(n as int),
    decreases n,
{
    if n < 10 {
        out.push((48 + n) as u8);
        proof {
            assert(out@ =~= old(out)@ + dec_rep(n as int));
        }
    } else {
        push_dec(n / 10, out);
        out.push((48 + n % 10) as u8);
        proof {
            assert(out@ =~= old(out)@ + dec_rep(n as int));
        }
    }
}

/// Can the bytes stand verbatim inside quotes?
fn json_safe_check(bytes: &[u8]) -> (b: bool)
    ensures
        b == json_safe(bytes@),
{
    let mut k: usize = 0;
    while k < bytes.len()
        invariant
            k <= bytes@.len(),
            forall|j: int| 0 <= j < k ==> #[trigger] bytes@[j] != 0x22 && bytes@[j] != 0x5c
                && bytes@[j] >= 0x20,
        decreases bytes@.len() - k,
    {
        let b = bytes[k];
        if b == 0x22 || b == 0x5c || b < 0x20 {
            return false;
        }
        k += 1;
    }
    true
}

/// Does `pat` sit at position `at` of `src`?
fn match_at(src: &[u8], at: usize, pat: &Vec<u8>) -> (b: bool)
    requires
        at <= src@.len(),
    ensures
        b == (at + pat@.len() <= src@.len() && src@.subrange(at as int, at + pat@.len())
            == pat@),
{
    if pat.len() > src.len() - at {
        return false;
    }
    let mut k: usize = 0;
    while k < pat.len()
        invariant
            k <= pat@.len(),
            at + pat@.len() <= src@.len(),
            at + pat@.len() <= usize::MAX,
            forall|i: int| 0 <= i < k ==> src@[at + i] == pat@[i],
        decreases pat@.len() - k,
    {
        if src[at + k] != pat[k] {
            proof {
                assert(src@.subrange(at as int, at + pat@.len())[k as int] != pat@[k as int]);
            }
            return false;
        }
        k += 1;
    }
    proof {
        assert(src@.subrange(at as int, at + pat@.len()) =~= pat@);
    }
    true
}

/// Is the byte at `j` a decimal digit?
fn is_digit_at(src: &[u8], j: usize) -> (b: bool)
    requires
        j < src@.len(),
    ensures
        b == is_digit(src@[j as int]),
{
    let b = src[j];
    48 <= b && b <= 57
}

/// Parses the digit run starting at `at`: see [`spec_parse_u32`].
fn parse_u32_at(src: &[u8], at: usize) -> (r: Option<(u32, usize)>)
    requires
        at <= src@.len(),
    ensures
        match r {
            Some((v, j)) => spec_parse_u32(src@, at as int) == Some((v, j as int)) && at < j
                <= src@.len(),
            None => spec_parse_u32(src@, at as int) is None,
        },
{
    let mut j = at;
    while j < src.len() && is_digit_at(src, j)
        invariant
            at <= j <= src@.len(),
            forall|k: int| at <= k < j ==> is_digit(#[trigger] src@[k]),
        decreases src@.len() - j,
    {
        j += 1;
    }
    proof {
        lemma_digits_end_advance(src@, at as int, j as int);
        assert(digits_end(src@, at as int) == j);
    }
    if j == at {
        return None;
    }
    if src[at] == 48 && j > at + 1 {
        return None;
    }
    let mut k = at;
    let mut val: u32 = 0;
    while k < j
        invariant
            at <= k <= j <= src@.len(),
            forall|i: int| at <= i < j ==> is_digit(#[trigger] src@[i]),
            val == dec_val(src@.subrange(at as int, k as int)),
            digits_end(src@, at as int) == j,
        decreases j - k,
    {
        let d = (src[k] - 48) as u32;
        proof {
            assert(src@.subrange(at as int, k + 1).drop_last() =~= src@.subrange(
                at as int,
                k as int,
            ));
            assert(src@.subrange(at as int, k + 1).last() == src@[k as int]);
        }
        if val > 429496729 || (val == 429496729 && d > 5) {
            proof {
                assert(dec_val(src@.subrange(at as int, k + 1)) == val * 10 + d);
                assert(val * 10 + d > u32::MAX) by (nonlinear_arith)
                    requires
                        val > 429496729 || (val == 429496729 && d > 5),
                        d >= 0,
                ;
                lemma_dec_val_grows(
                    src@.subrange(at as int, k + 1),
                    src@.subrange(k + 1, j as int),
                );
                assert(src@.subrange(at as int, k + 1) + src@.subrange(k + 1, j as int)
                    =~= src@.subrange(at as int, j as int));
            }
            return None;
        }
        val = val * 10 + d;
        k += 1;
    }
    Some((val, j))
}

/// Position of the first quote at or after `from`: see [`find_quote`].
fn find_quote_at(src: &[u8], from: usize) -> (r: Option<usize>)
    requires
        from <= src@.len(),
    ensures
        match r {
            Some(q) => find_quote(src@, from as int) == Some(q as int) && from <= q < src@.len(),
            None => find_quote(src@, from as int) is None,
        },
{
    let mut q = from;
    while q < src.len()
        invariant
            from <= q <= src@.len(),
            forall|k: int| from <= k < q ==> src@[k] != 0x22,
        decreases src@.len() - q,
    {
        if src[q] == 0x22 {
            proof {
                lemma_find_quote_advance(src@, from as int, q as int);
            }
            return Some(q);
        }
        q += 1;
    }
    proof {
        lemma_find_quote_advance(src@, from as int, q as int);
    }
    None
}

/// Takes the text that closes a string-variant payload: see
/// [`spec_string_tail`].
fn take_string_tail(src: &[u8], m: usize) -> (r: Result<String, PayloadFromSliceError>)
    requires
        m <= src@.len(),
    ensures
        match r {
            Ok(s) => spec_string_tail(src@, m as int) matches Ok(bytes) && s@ == decode_utf8(
                bytes,
            ),
            Err(e) => spec_string_tail(src@, m as int) == Err::<Seq<u8>, _>(e),
        },
{
    match find_quote_at(src, m) {
        None => Err(PayloadFromSliceError::Deserialize),
        Some(q) => {
            if !(src.len() - q == 2 && src[q + 1] == 0x7d) {
                return Err(PayloadFromSliceError::Deserialize);
            }
            match bytes_as_str(vstd::slice::slice_subrange(src, m, q)) {
                None => Err(PayloadFromSliceError::Deserialize),
                Some(s) => {
                    proof {
                        vstd::utf8::encode_utf8_decode_utf8(s@);
                    }
                    Ok(s.to_owned())
                },
            }
        },
    }
}

impl Payload {
    /// Writes the payload's serialized form into the front of the given
    /// destination buffer, returning how many bytes it takes.
    pub fn write_to(&self, dst: &mut Vec<u8>) -> (r: Result<usize, PayloadWriteError>)
        ensures
            final(dst).len() == old(dst).len(),
            match r {
                Ok(n) => n <= final(dst).len() && spec_payload_encode(self@, old(dst).len() as int)
                    == Ok::<Seq<u8>, PayloadWriteError>(final(dst)@.subrange(0, n as int))
                    && final(dst)@.subrange(n as int, final(dst).len() as int) == old(
                    dst,
                )@.subrange(n as int, old(dst).len() as int),
                Err(e) => spec_payload_encode(self@, old(dst).len() as int)
                    == Err::<Seq<u8>, PayloadWriteError>(e) && final(dst)@ == old(dst)@,
            },
    {
        let mut tmp: Vec<u8> = Vec::new();
        let key = json_seq_key_vec();
        push_bytes(&mut tmp, key.as_slice());
        match &self.content {
            PayloadContent::Init(c) => {
                let vb = vstd::string::StrSliceExecFns::as_bytes_vec(c.version.as_str());
                if !json_safe_check(vb.as_slice()) {
                    return Err(PayloadWriteError::Unencodable);
                }
                push_dec(c.sequence_number, &mut tmp);
                let vkey = json_version_key_vec();
                push_bytes(&mut tmp, vkey.as_slice());
                push_bytes(&mut tmp, vb.as_slice());
                tmp.push(0x22);
                tmp.push(0x7d);
            },
            PayloadContent::InitAck(c) => {
                let vb = vstd::string::StrSliceExecFns::as_bytes_vec(c.version.as_str());
                if !json_safe_check(vb.as_slice()) {
                    return Err(PayloadWriteError::Unencodable);
                }
                push_dec(c.sequence_number, &mut tmp);
                let vkey = json_version_key_vec();
                push_bytes(&mut tmp, vkey.as_slice());
                push_bytes(&mut tmp, vb.as_slice());
                tmp.push(0x22);
                tmp.push(0x7d);
            },
            PayloadContent::Heartbeat(c) => {
                push_dec(c.sequence_number, &mut tmp);
                tmp.push(0x7d);
            },
            PayloadContent::HeartbeatAck(c) => {
                push_dec(c.sequence_number, &mut tmp);
                tmp.push(0x7d);
            },
            PayloadContent::DeviceConfig(c) => {
                let cb = vstd::string::StrSliceExecFns::as_bytes_vec(c.config.as_str());
                if !json_safe_check(cb.as_slice()) {
                    return Err(PayloadWriteError::Unencodable);
                }
                push_dec(c.sequence_number, &mut tmp);
                let ckey = json_config_key_vec();
                push_bytes(&mut tmp, ckey.as_slice());
                push_bytes(&mut tmp, cb.as_slice());
                tmp.push(0x22);
                tmp.push(0x7d);
            },
            PayloadContent::DeviceConfigAck(c) => {
                push_dec(c.sequence_number, &mut tmp);
                tmp.push(0x7d);
            },
        }
        proof {
            assert(tmp@ =~= json_of(self@));
        }
        if tmp.len() > dst.len() {
            return Err(PayloadWriteError::BufferTooSmall);
        }
        let n = tmp.len();
        let mut i: usize = 0;
        while i < n
            invariant
                i <= n,
                n == tmp@.len() <= dst@.len(),
                dst@.len() == old(dst)@.len(),
                forall|j: int| 0 <= j < i ==> dst@[j] == tmp@[j],
                forall|j: int| i <= j < dst@.len() ==> dst@[j] == old(dst)@[j],
            decreases n - i,
        {
            let b = tmp[i];
            dst.set(i, b);
            i += 1;
        }
        proof {
            assert(dst@.subrange(0, n as int) =~= tmp@);
            assert(dst@.subrange(n as int, dst@.len() as int) =~= old(dst)@.subrange(
                n as int,
                old(dst).len() as int,
            ));
        }
        Ok(n)
    }

    /// Returns a payload deserialized from the given slice, with how many
    /// bytes it took: the whole slice, which must hold exactly one
    /// serialized payload of the given type.
    pub fn payload_from_json_slice(payload_type: PayloadType, src: &[u8]) -> (r: Result<
        (Payload, usize),
        PayloadFromSliceError,
    >)
        ensures
            match r {
                Ok((p, n)) => n == src@.len() && spec_payload_decode(payload_type, src@)
                    == Ok::<SpecPayloadContent, PayloadFromSliceError>(p@),
                Err(e) => spec_payload_decode(payload_type, src@)
                    == Err::<SpecPayloadContent, PayloadFromSliceError>(e),
            },
    {
        let key = json_seq_key_vec();
        if !match_at(src, 0, &key) {
            return Err(PayloadFromSliceError::Deserialize);
        }
        match parse_u32_at(src, key.len()) {
            None => Err(PayloadFromSliceError::Deserialize),
            Some((sequence_number, j)) => match payload_type {
                PayloadType::Heartbeat => {
                    if src.len() - j == 1 && src[j] == 0x7d {
                        let content = PayloadContent::Heartbeat(
                            crate::packet::payload_content::Heartbeat { sequence_number },
                        );
                        Ok((Payload { content }, src.len()))
                    } else {
                        Err(PayloadFromSliceError::Deserialize)
                    }
                },
                PayloadType::HeartbeatAck => {
                    if src.len() - j == 1 && src[j] == 0x7d {
                        let content = PayloadContent::HeartbeatAck(
                            crate::packet::payload_content::HeartbeatAck { sequence_number },
                        );
                        Ok((Payload { content }, src.len()))
                    } else {
                        Err(PayloadFromSliceError::Deserialize)
                    }
                },
                PayloadType::DeviceConfigAck => {
                    if src.len() - j == 1 && src[j] == 0x7d {
                        let content = PayloadContent::DeviceConfigAck(
                            crate::packet::payload_content::DeviceConfigAck { sequence_number },
                        );
                        Ok((Payload { content }, src.len()))
                    } else {
                        Err(PayloadFromSliceError::Deserialize)
                    }
                },
                PayloadType::Init => {
                    let vkey = json_version_key_vec();
                    if !match_at(src, j, &vkey) {
                        return Err(PayloadFromSliceError::Deserialize);
                    }
                    proof {
                        vstd::slice::axiom_spec_len(src);
                    }
                    match take_string_tail(src, j + vkey.len()) {
                        Ok(version) => {
                            let content = PayloadContent::Init(
                                crate::packet::payload_content::Init { sequence_number, version },
                            );
                            Ok((Payload { content }, src.len()))
                        },
                        Err(e) => Err(e),
                    }
                },
                PayloadType::InitAck => {
                    let vkey = json_version_key_vec();
                    if !match_at(src, j, &vkey) {
                        return Err(PayloadFromSliceError::Deserialize);
                    }
                    proof {
                        vstd::slice::axiom_spec_len(src);
                    }
                    match take_string_tail(src, j + vkey.len()) {
                        Ok(version) => {
                            let content = PayloadContent::InitAck(
                                crate::packet::payload_content::InitAck {
                                    sequence_number,
                                    version,
                                },
                            );
                            Ok((Payload { content }, src.len()))
                        },
                        Err(e) => Err(e),
                    }
                },
                PayloadType::DeviceConfig => {
                    let ckey = json_config_key_vec();
                    if !match_at(src, j, &ckey) {
                        return Err(PayloadFromSliceError::Deserialize);
                    }
                    proof {
                        vstd::slice::axiom_spec_len(src);
                    }
                    match take_string_tail(src, j + ckey.len()) {
                        Ok(config) => {
                            let content = PayloadContent::DeviceConfig(
                                crate::packet::payload_content::DeviceConfig {
                                    sequence_number,
                                    config,
                                },
                            );
                            Ok((Payload { content }, src.len()))
                        },
                        Err(e) => Err(e),
                    }
                },
            },
        }
    }
}

} // verus!
