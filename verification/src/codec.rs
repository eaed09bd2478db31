//! Byte-level text utilities: decimal formatting, byte/string bridging, and
//! the two percent-encoders for URL parts (path segments and query values).

use vstd::prelude::*;
use vstd::string::{StrSliceExecFns, StringExecFns, StringSliceAdditionalSpecFns};
use vstd::utf8::{encode_utf8, valid_utf8};

verus! {

/// The decimal digit character for `d`.
pub open spec fn digit_char(d: int) -> char {
    if d == 0 { '0' }
    else if d == 1 { '1' }
    else if d == 2 { '2' }
    else if d == 3 { '3' }
    else if d == 4 { '4' }
    else if d == 5 { '5' }
    else if d == 6 { '6' }
    else if d == 7 { '7' }
    else if d == 8 { '8' }
    else { '9' }
}

/// The usual decimal rendering of `n`: most significant digit first, no
/// leading zeroes (a single `'0'` for zero).
pub open spec fn spec_u32_string(n: int) -> Seq<char>
    decreases n,
{
    if n < 10 {
        seq![digit_char(n)]
    } else {
        spec_u32_string(n / 10) + seq![digit_char(n % 10)]
    }
}

fn digit_str(d: u32) -> (r: &'static str)
    requires
        d < 10,
    ensures
        r@ == seq![digit_char(d as int)],
{
    proof {
        reveal_strlit("0");
        reveal_strlit("1");
        reveal_strlit("2");
        reveal_strlit("3");
        reveal_strlit("4");
        reveal_strlit("5");
        reveal_strlit("6");
        reveal_strlit("7");
        reveal_strlit("8");
        reveal_strlit("9");
    }
    let r = match d {
        0 => "0",
        1 => "1",
        2 => "2",
        3 => "3",
        4 => "4",
        5 => "5",
        6 => "6",
        7 => "7",
        8 => "8",
        _ => "9",
    };
    proof {
        assert(r@ =~= seq![digit_char(d as int)]);
    }
    r
}

/// Decimal rendering of a 32-bit number.
pub fn u32_to_string(n: u32) -> (r: String)
    ensures
        r@ == spec_u32_string(n as int),
    decreases n,
{
    if n < 10 {
        let mut s = String::new();
        s.append(digit_str(n));
        proof {
            assert(s@ =~= spec_u32_string(n as int));
        }
        s
    } else {
        let mut s = u32_to_string(n / 10);
        s.append(digit_str(n % 10));
        proof {
            assert(s@ =~= spec_u32_string(n as int));
        }
        s
    }
}

/// The decimal digit byte for `d`.
pub open spec fn digit_byte(d: int) -> u8 {
    (0x30 + d) as u8
}

/// The usual decimal rendering of `n` as bytes: most significant digit
/// first, no leading zeroes (a single `0` digit for zero).
pub open spec fn dec_bytes(n: int) -> Seq<u8>
    decreases n,
{
    if n < 10 {
        seq![digit_byte(n)]
    } else {
        dec_bytes(n / 10) + seq![digit_byte(n % 10)]
    }
}

/// Decimal rendering of a 64-bit number as bytes.
pub fn u64_to_dec_bytes(n: u64) -> (r: Vec<u8>)
    ensures
        r@ == dec_bytes(n as int),
    decreases n,
{
    if n < 10 {
        let mut v: Vec<u8> = Vec::new();
        v.push(0x30 + n as u8);
        proof {
            assert(v@ =~= dec_bytes(n as int));
        }
        v
    } else {
        let mut v = u64_to_dec_bytes(n / 10);
        v.push(0x30 + (n % 10) as u8);
        proof {
            assert(v@ =~= dec_bytes(n as int));
        }
        v
    }
}

/// Whether `b` is a decimal digit byte.
pub open spec fn is_digit(b: u8) -> bool {
    0x30 <= b <= 0x39
}

/// Whether every byte is a decimal digit.
pub open spec fn all_digits(s: Seq<u8>) -> bool {
    forall|i: int| 0 <= i < s.len() ==> is_digit(s[i])
}

/// The number a run of digit bytes denotes.
pub open spec fn dec_value(s: Seq<u8>) -> int
    decreases s.len(),
{
    if s.len() == 0 {
        0
    } else {
        dec_value(s.drop_last()) * 10 + (s.last() - 0x30)
    }
}

proof fn lemma_dec_value_nonneg(s: Seq<u8>)
    requires
        all_digits(s),
    ensures
        dec_value(s) >= 0,
    decreases s.len(),
{
    if s.len() > 0 {
        lemma_dec_value_nonneg(s.drop_last());
    }
}

proof fn lemma_dec_value_prefix(s: Seq<u8>, i: int)
    requires
        all_digits(s),
        0 <= i <= s.len(),
    ensures
        dec_value(s) >= dec_value(s.take(i)),
    decreases s.len() - i,
{
    if i < s.len() {
        assert(all_digits(s.drop_last()));
        lemma_dec_value_nonneg(s.drop_last());
        assert(s.drop_last().take(i) =~= s.take(i));
        if i < s.len() - 1 {
            lemma_dec_value_prefix(s.drop_last(), i);
        } else {
            assert(s.take(i) =~= s.drop_last());
        }
    } else {
        assert(s.take(i) =~= s);
    }
}

/// Which byte sequences parse as a 16-bit number, and to what: one or more
/// digits denoting a value in range.
pub open spec fn spec_parse_u16(s: Seq<u8>) -> Option<u16> {
    if s.len() >= 1 && all_digits(s) && dec_value(s) <= 0xffff {
        Some(dec_value(s) as u16)
    } else {
        None
    }
}

/// Which byte sequences parse as a machine-sized number, and to what.
pub open spec fn spec_parse_usize(s: Seq<u8>) -> Option<usize> {
    if s.len() >= 1 && all_digits(s) && dec_value(s) <= usize::MAX {
        Some(dec_value(s) as usize)
    } else {
        None
    }
}

fn all_digits_exec(s: &[u8]) -> (r: bool)
    ensures
        r == all_digits(s@),
{
    let mut i: usize = 0;
    while i < s.len()
        invariant
            i <= s@.len(),
            forall|j: int| 0 <= j < i ==> is_digit(s@[j]),
        decreases s@.len() - i,
    {
        if s[i] < 0x30 || s[i] > 0x39 {
            return false;
        }
        i += 1;
    }
    true
}

/// Parses a decimal 16-bit number from bytes.
pub fn parse_u16_bytes(s: &[u8]) -> (r: Option<u16>)
    ensures
        r == spec_parse_u16(s@),
{
    if s.len() == 0 || !all_digits_exec(s) {
        return None;
    }
    let mut acc: u32 = 0;
    let mut i: usize = 0;
    while i < s.len()
        invariant
            i <= s@.len(),
            all_digits(s@),
            acc == dec_value(s@.take(i as int)),
            acc <= 0xffff,
        decreases s@.len() - i,
    {
        proof {
            assert(s@.take(i + 1).drop_last() =~= s@.take(i as int));
            assert(s@.take(i + 1).last() == s@[i as int]);
        }
        acc = acc * 10 + (s[i] - 0x30) as u32;
        i += 1;
        if acc > 0xffff {
            proof {
                lemma_dec_value_prefix(s@, i as int);
            }
            return None;
        }
    }
    proof {
        assert(s@.take(s@.len() as int) =~= s@);
    }
    Some(acc as u16)
}

/// Parses a decimal machine-sized number from bytes.
pub fn parse_usize_bytes(s: &[u8]) -> (r: Option<usize>)
    ensures
        r == spec_parse_usize(s@),
{
    if s.len() == 0 || !all_digits_exec(s) {
        return None;
    }
    let mut acc: u128 = 0;
    let mut i: usize = 0;
    while i < s.len()
        invariant
            i <= s@.len(),
            all_digits(s@),
            acc == dec_value(s@.take(i as int)),
            acc <= usize::MAX,
        decreases s@.len() - i,
    {
        proof {
            assert(s@.take(i + 1).drop_last() =~= s@.take(i as int));
            assert(s@.take(i + 1).last() == s@[i as int]);
        }
        acc = acc * 10 + (s[i] - 0x30) as u128;
        i += 1;
        if acc > usize::MAX as u128 {
            proof {
                lemma_dec_value_prefix(s@, i as int);
            }
            return None;
        }
    }
    proof {
        assert(s@.take(s@.len() as int) =~= s@);
    }
    Some(acc as usize)
}

/// Which byte sequences parse as a boolean, and to what.
pub open spec fn spec_parse_bool(s: Seq<u8>) -> Option<bool> {
    if s == encode_utf8("true"@) {
        Some(true)
    } else if s == encode_utf8("false"@) {
        Some(false)
    } else {
        None
    }
}

/// Parses `true` or `false` from bytes.
pub fn parse_bool_bytes(s: &[u8]) -> (r: Option<bool>)
    ensures
        r == spec_parse_bool(s@),
{
    if bytes_eq(s, "true".as_bytes()) {
        Some(true)
    } else if bytes_eq(s, "false".as_bytes()) {
        Some(false)
    } else {
        None
    }
}

/// Whether every byte is plain ASCII.
pub open spec fn all_ascii(s: Seq<u8>) -> bool {
    forall|i: int| 0 <= i < s.len() ==> s[i] < 0x80
}

/// The characters of an ASCII byte sequence, one per byte.
pub open spec fn ascii_chars(s: Seq<u8>) -> Seq<char> {
    Seq::new(s.len(), |i: int| s[i] as char)
}

/// Relies on `String::from_utf8`: ASCII bytes are valid UTF-8, and the
/// resulting string holds exactly the given bytes, hence one character per
/// byte with the same code.
#[verifier::external_body]
pub fn string_from_ascii(v: Vec<u8>) -> (r: String)
    requires
        all_ascii(v@),
    ensures
        r@ == ascii_chars(v@),
{
    match String::from_utf8(v) {
        Ok(s) => s,
        Err(_) => String::new(),
    }
}

/// Relies on `String::from_utf8`: it succeeds exactly on valid UTF-8 and
/// returns a string holding the given bytes unchanged.
#[verifier::external_body]
pub fn bytes_to_string(v: Vec<u8>) -> (r: Option<String>)
    ensures
        match r {
            Some(s) => valid_utf8(v@) && encode_utf8(s@) == v@,
            None => !valid_utf8(v@),
        },
{
    match String::from_utf8(v) {
        Ok(s) => Some(s),
        Err(_) => None,
    }
}

/// Byte-for-byte equality of two slices.
pub fn bytes_eq(a: &[u8], b: &[u8]) -> (r: bool)
    ensures
        r == (a@ == b@),
{
    if a.len() != b.len() {
        proof {
            assert(a@.len() != b@.len());
        }
        return false;
    }
    let mut i: usize = 0;
    while i < a.len()
        invariant
            i <= a@.len(),
            a@.len() == b@.len(),
            forall|j: int| 0 <= j < i ==> a@[j] == b@[j],
        decreases a@.len() - i,
    {
        if a[i] != b[i] {
            return false;
        }
        i += 1;
    }
    proof {
        assert(a@ =~= b@);
    }
    true
}

/// Appends all of `src` to `dst`.
pub fn push_bytes(dst: &mut Vec<u8>, src: &[u8])
    ensures
        final(dst)@ == old(dst)@ + src@,
{
    let mut i: usize = 0;
    while i < src.len()
        invariant
            i <= src@.len(),
            dst@ == old(dst)@ + src@.take(i as int),
        decreases src@.len() - i,
    {
        dst.push(src[i]);
        proof {
            assert(old(dst)@ + src@.take(i as int) + seq![src@[i as int]] =~= old(dst)@
                + src@.take(i + 1));
        }
        i += 1;
    }
    proof {
        assert(src@.take(src@.len() as int) =~= src@);
    }
}

// --- percent-encoding of URL parts ---
//
// The registry addresses instances by URL: application ids and instance ids
// stand in the path, status values and metadata in the query string. The two
// positions escape differently (a space is "%20" in a path segment but "+" in
// a query value), so there are two encoders, and each is paired with the
// decoding the server applies so that a round trip recovers the original.

/// Bytes that must be escaped in a path segment: controls and non-ASCII,
/// space, `"`, `#`, `<`, `>`, backquote, `?`, `{`, `}`, `%` and `/`.
pub open spec fn path_escaped(b: u8) -> bool {
    b < 0x20 || b > 0x7e || b == 0x20 || b == 0x22 || b == 0x23 || b == 0x3c || b == 0x3e || b
        == 0x60 || b == 0x3f || b == 0x7b || b == 0x7d || b == 0x25 || b == 0x2f
}

/// Bytes that must be `%`-escaped in a query value: controls and non-ASCII,
/// `"`, `#`, `<`, `>`, `%` and `+`. A space is not among them: it becomes `+`.
pub open spec fn query_escaped(b: u8) -> bool {
    b < 0x20 || b > 0x7e || b == 0x22 || b == 0x23 || b == 0x3c || b == 0x3e || b == 0x25 || b
        == 0x2b
}

/// The uppercase hexadecimal digit byte for `d`.
pub open spec fn hex_char(d: int) -> u8 {
    if d < 10 {
        (0x30 + d) as u8
    } else {
        (0x37 + d) as u8
    }
}

/// The three-byte escape `%XX` of `b`.
pub open spec fn escape_chunk(b: u8) -> Seq<u8> {
    seq![0x25u8, hex_char(b as int / 16), hex_char(b as int % 16)]
}

/// What one byte contributes to a path-segment encoding.
pub open spec fn path_chunk(b: u8) -> Seq<u8> {
    if path_escaped(b) {
        escape_chunk(b)
    } else {
        seq![b]
    }
}

/// What one byte contributes to a query-value encoding.
pub open spec fn query_chunk(b: u8) -> Seq<u8> {
    if b == 0x20 {
        seq![0x2bu8]
    } else if query_escaped(b) {
        escape_chunk(b)
    } else {
        seq![b]
    }
}

/// Path-segment encoding of a byte sequence.
pub open spec fn path_encoded(s: Seq<u8>) -> Seq<u8>
    decreases s.len(),
{
    if s.len() == 0 {
        Seq::empty()
    } else {
        path_chunk(s[0]) + path_encoded(s.drop_first())
    }
}

/// Query-value encoding of a byte sequence.
pub open spec fn query_encoded(s: Seq<u8>) -> Seq<u8>
    decreases s.len(),
{
    if s.len() == 0 {
        Seq::empty()
    } else {
        query_chunk(s[0]) + query_encoded(s.drop_first())
    }
}

proof fn lemma_path_encoded_push(s: Seq<u8>, b: u8)
    ensures
        path_encoded(s.push(b)) == path_encoded(s) + path_chunk(b),
    decreases s.len(),
{
    if s.len() == 0 {
        assert(s.push(b).drop_first() =~= Seq::<u8>::empty());
        assert(path_encoded(Seq::<u8>::empty()) =~= Seq::<u8>::empty());
        assert(path_encoded(s.push(b)) =~= path_encoded(s) + path_chunk(b));
    } else {
        assert(s.push(b).drop_first() =~= s.drop_first().push(b));
        lemma_path_encoded_push(s.drop_first(), b);
        assert(path_encoded(s.push(b)) =~= path_encoded(s) + path_chunk(b));
    }
}

proof fn lemma_query_encoded_push(s: Seq<u8>, b: u8)
    ensures
        query_encoded(s.push(b)) == query_encoded(s) + query_chunk(b),
    decreases s.len(),
{
    if s.len() == 0 {
        assert(s.push(b).drop_first() =~= Seq::<u8>::empty());
        assert(query_encoded(Seq::<u8>::empty()) =~= Seq::<u8>::empty());
        assert(query_encoded(s.push(b)) =~= query_encoded(s) + query_chunk(b));
    } else {
        assert(s.push(b).drop_first() =~= s.drop_first().push(b));
        lemma_query_encoded_push(s.drop_first(), b);
        assert(query_encoded(s.push(b)) =~= query_encoded(s) + query_chunk(b));
    }
}

/// Every byte an encoder emits is plain ASCII.
pub proof fn lemma_path_encoded_ascii(s: Seq<u8>)
    ensures
        all_ascii(path_encoded(s)),
    decreases s.len(),
{
    if s.len() > 0 {
        lemma_path_encoded_ascii(s.drop_first());
    }
}

/// Every byte the query encoder emits is plain ASCII.
pub proof fn lemma_query_encoded_ascii(s: Seq<u8>)
    ensures
        all_ascii(query_encoded(s)),
    decreases s.len(),
{
    if s.len() > 0 {
        lemma_query_encoded_ascii(s.drop_first());
    }
}

fn hex_char_exec(d: u8) -> (r: u8)
    requires
        d < 16,
    ensures
        r == hex_char(d as int),
{
    if d < 10 {
        0x30 + d
    } else {
        0x37 + d
    }
}

fn path_escaped_exec(b: u8) -> (r: bool)
    ensures
        r == path_escaped(b),
{
    b < 0x20 || b > 0x7e || b == 0x20 || b == 0x22 || b == 0x23 || b == 0x3c || b == 0x3e || b
        == 0x60 || b == 0x3f || b == 0x7b || b == 0x7d || b == 0x25 || b == 0x2f
}

fn query_escaped_exec(b: u8) -> (r: bool)
    ensures
        r == query_escaped(b),
{
    b < 0x20 || b > 0x7e || b == 0x22 || b == 0x23 || b == 0x3c || b == 0x3e || b == 0x25 || b
        == 0x2b
}

fn push_escape(out: &mut Vec<u8>, b: u8)
    ensures
        final(out)@ == old(out)@ + escape_chunk(b),
{
    out.push(0x25);
    out.push(hex_char_exec(b / 16));
    out.push(hex_char_exec(b % 16));
    proof {
        assert(final(out)@ =~= old(out)@ + escape_chunk(b));
    }
}

/// Path-segment percent-encoding over bytes.
pub fn path_encode_bytes(s: &[u8]) -> (r: Vec<u8>)
    ensures
        r@ == path_encoded(s@),
{
    let mut out: Vec<u8> = Vec::new();
    let mut i: usize = 0;
    while i < s.len()
        invariant
            i <= s@.len(),
            out@ == path_encoded(s@.take(i as int)),
        decreases s@.len() - i,
    {
        let b = s[i];
        proof {
            assert(s@.take(i + 1) =~= s@.take(i as int).push(b));
            lemma_path_encoded_push(s@.take(i as int), b);
        }
        if path_escaped_exec(b) {
            push_escape(&mut out, b);
        } else {
            out.push(b);
        }
        i += 1;
    }
    proof {
        assert(s@.take(s@.len() as int) =~= s@);
    }
    out
}

/// Query-value percent-encoding over bytes.
pub fn query_encode_bytes(s: &[u8]) -> (r: Vec<u8>)
    ensures
        r@ == query_encoded(s@),
{
    let mut out: Vec<u8> = Vec::new();
    let mut i: usize = 0;
    while i < s.len()
        invariant
            i <= s@.len(),
            out@ == query_encoded(s@.take(i as int)),
        decreases s@.len() - i,
    {
        let b = s[i];
        proof {
            assert(s@.take(i + 1) =~= s@.take(i as int).push(b));
            lemma_query_encoded_push(s@.take(i as int), b);
        }
        if b == 0x20 {
            out.push(0x2b);
        } else if query_escaped_exec(b) {
            push_escape(&mut out, b);
        } else {
            out.push(b);
        }
        i += 1;
    }
    proof {
        assert(s@.take(s@.len() as int) =~= s@);
    }
    out
}

/// Path-segment encoding of a string; the result is ASCII, one character per
/// encoded byte.
pub fn path_segment_encode(value: &str) -> (r: String)
    ensures
        r@ == ascii_chars(path_encoded(value.spec_bytes())),
{
    let bytes = value.as_bytes_vec();
    let enc = path_encode_bytes(bytes.as_slice());
    proof {
        lemma_path_encoded_ascii(bytes@);
    }
    string_from_ascii(enc)
}

/// Query-value encoding of a string; the result is ASCII, one character per
/// encoded byte.
pub fn query_encode(value: &str) -> (r: String)
    ensures
        r@ == ascii_chars(query_encoded(value.spec_bytes())),
{
    let bytes = value.as_bytes_vec();
    let enc = query_encode_bytes(bytes.as_slice());
    proof {
        lemma_query_encoded_ascii(bytes@);
    }
    string_from_ascii(enc)
}

// --- the decodings the registry server applies ---

/// Whether `b` is a hexadecimal digit byte, either case.
pub open spec fn is_hex_byte(b: u8) -> bool {
    0x30 <= b <= 0x39 || 0x41 <= b <= 0x46 || 0x61 <= b <= 0x66
}

/// The value of a hexadecimal digit byte.
pub open spec fn hex_val(b: u8) -> int {
    if 0x30 <= b <= 0x39 {
        b - 0x30
    } else if 0x41 <= b <= 0x46 {
        b - 0x37
    } else {
        b - 0x57
    }
}

/// Path-segment decoding: each `%XX` becomes the byte `XX`, everything else
/// passes through; a malformed escape fails.
pub open spec fn path_decoded(s: Seq<u8>) -> Option<Seq<u8>>
    decreases s.len(),
{
    if s.len() == 0 {
        Some(Seq::empty())
    } else if s[0] == 0x25 {
        if s.len() >= 3 && is_hex_byte(s[1]) && is_hex_byte(s[2]) {
            match path_decoded(s.skip(3)) {
                Some(rest) => Some(seq![(hex_val(s[1]) * 16 + hex_val(s[2])) as u8] + rest),
                None => None,
            }
        } else {
            None
        }
    } else {
        match path_decoded(s.drop_first()) {
            Some(rest) => Some(seq![s[0]] + rest),
            None => None,
        }
    }
}

/// Query-value decoding: as the path decoding, but `+` becomes a space.
pub open spec fn query_decoded(s: Seq<u8>) -> Option<Seq<u8>>
    decreases s.len(),
{
    if s.len() == 0 {
        Some(Seq::empty())
    } else if s[0] == 0x25 {
        if s.len() >= 3 && is_hex_byte(s[1]) && is_hex_byte(s[2]) {
            match query_decoded(s.skip(3)) {
                Some(rest) => Some(seq![(hex_val(s[1]) * 16 + hex_val(s[2])) as u8] + rest),
                None => None,
            }
        } else {
            None
        }
    } else if s[0] == 0x2b {
        match query_decoded(s.drop_first()) {
            Some(rest) => Some(seq![0x20u8] + rest),
            None => None,
        }
    } else {
        match query_decoded(s.drop_first()) {
            Some(rest) => Some(seq![s[0]] + rest),
            None => None,
        }
    }
}

proof fn lemma_hex_round_trip(b: u8)
    ensures
        is_hex_byte(hex_char(b as int / 16)),
        is_hex_byte(hex_char(b as int % 16)),
        hex_val(hex_char(b as int / 16)) * 16 + hex_val(hex_char(b as int % 16)) == b as int,
{
    vstd::arithmetic::div_mod::lemma_fundamental_div_mod(b as int, 16);
}

/// Decoding a path-segment encoding recovers the original bytes.
pub proof fn lemma_path_round_trip(s: Seq<u8>)
    ensures
        path_decoded(path_encoded(s)) == Some(s),
    decreases s.len(),
{
    if s.len() == 0 {
        assert(path_encoded(s) =~= Seq::<u8>::empty());
    } else {
        let b = s[0];
        let rest = s.drop_first();
        lemma_path_round_trip(rest);
        let enc = path_encoded(s);
        if path_escaped(b) {
            lemma_hex_round_trip(b);
            assert(enc.skip(3) =~= path_encoded(rest));
            assert(seq![(hex_val(enc[1]) * 16 + hex_val(enc[2])) as u8] + rest =~= s);
        } else {
            assert(b != 0x25);
            assert(enc.drop_first() =~= path_encoded(rest));
            assert(seq![b] + rest =~= s);
        }
    }
}

/// Decoding a query-value encoding recovers the original bytes.
pub proof fn lemma_query_round_trip(s: Seq<u8>)
    ensures
        query_decoded(query_encoded(s)) == Some(s),
    decreases s.len(),
{
    if s.len() == 0 {
        assert(query_encoded(s) =~= Seq::<u8>::empty());
    } else {
        let b = s[0];
        let rest = s.drop_first();
        lemma_query_round_trip(rest);
        let enc = query_encoded(s);
        if b == 0x20 {
            assert(enc.drop_first() =~= query_encoded(rest));
            assert(seq![0x20u8] + rest =~= s);
        } else if query_escaped(b) {
            lemma_hex_round_trip(b);
            assert(enc.skip(3) =~= query_encoded(rest));
            assert(seq![(hex_val(enc[1]) * 16 + hex_val(enc[2])) as u8] + rest =~= s);
        } else {
            assert(b != 0x25 && b != 0x2b);
            assert(enc.drop_first() =~= query_encoded(rest));
            assert(seq![b] + rest =~= s);
        }
    }
}

proof fn lemma_chunk_heads_differ(b: u8)
    requires
        path_chunk(b) != query_chunk(b),
    ensures
        path_chunk(b).len() >= 1,
        query_chunk(b).len() >= 1,
        path_chunk(b)[0] != query_chunk(b)[0],
{
    if b == 0x20 {
        assert(path_chunk(b)[0] == 0x25 && query_chunk(b)[0] == 0x2b);
    } else if path_escaped(b) && query_escaped(b) {
        assert(path_chunk(b) =~= query_chunk(b));
        assert(false);
    } else if path_escaped(b) {
        assert(query_chunk(b)[0] == b && b != 0x25);
    } else if query_escaped(b) {
        assert(path_chunk(b)[0] == b && b != 0x25);
    } else {
        assert(path_chunk(b) =~= query_chunk(b));
        assert(false);
    }
}

proof fn lemma_concat_neq(c: Seq<u8>, a: Seq<u8>, b: Seq<u8>)
    requires
        a != b,
    ensures
        c + a != c + b,
{
    if c + a == c + b {
        assert((c + a).len() == (c + b).len());
        assert(a.len() == b.len());
        assert forall|k: int| 0 <= k < a.len() implies a[k] == b[k] by {
            assert((c + a)[c.len() + k] == a[k]);
            assert((c + b)[c.len() + k] == b[k]);
        }
        assert(a =~= b);
        assert(false);
    }
}

proof fn lemma_encodings_differ_at(s: Seq<u8>)
    requires
        exists|i: int| 0 <= i < s.len() && path_chunk(s[i]) != query_chunk(s[i]),
    ensures
        path_encoded(s) != query_encoded(s),
    decreases s.len(),
{
    let b = s[0];
    if path_chunk(b) != query_chunk(b) {
        lemma_chunk_heads_differ(b);
        assert(path_encoded(s)[0] == path_chunk(b)[0]);
        assert(query_encoded(s)[0] == query_chunk(b)[0]);
        if path_encoded(s) == query_encoded(s) {
            assert(false);
        }
    } else {
        let i = choose|i: int|
            0 <= i < s.len() && path_chunk(s[i]) != query_chunk(s[i]);
        assert(i != 0);
        assert(s.drop_first()[i - 1] == s[i]);
        lemma_encodings_differ_at(s.drop_first());
        lemma_concat_neq(path_chunk(b), path_encoded(s.drop_first()), query_encoded(s.drop_first()));
    }
}

/// The two URL encoders must not be confused for one another: on any id that
/// contains a `/` or a space, the path-segment encoding and the query
/// encoding of the same bytes are different strings.
pub proof fn lemma_path_query_encodings_differ(s: Seq<u8>)
    requires
        exists|i: int| 0 <= i < s.len() && (s[i] == 0x2f || s[i] == 0x20),
    ensures
        path_encoded(s) != query_encoded(s),
{
    let i = choose|i: int| 0 <= i < s.len() && (s[i] == 0x2f || s[i] == 0x20);
    assert(path_chunk(s[i]) != query_chunk(s[i])) by {
        if s[i] == 0x2f {
            if path_chunk(s[i]) == query_chunk(s[i]) {
                assert(path_chunk(s[i])[0] == query_chunk(s[i])[0]);
                assert(false);
            }
        } else {
            if path_chunk(s[i]) == query_chunk(s[i]) {
                assert(path_chunk(s[i])[0] == query_chunk(s[i])[0]);
                assert(false);
            }
        }
    };
    lemma_encodings_differ_at(s);
}

fn is_hex_byte_exec(b: u8) -> (r: bool)
    ensures
        r == is_hex_byte(b),
{
    (0x30 <= b && b <= 0x39) || (0x41 <= b && b <= 0x46) || (0x61 <= b && b <= 0x66)
}

fn hex_val_exec(b: u8) -> (r: u8)
    requires
        is_hex_byte(b),
    ensures
        r as int == hex_val(b),
        r < 16,
{
    if 0x30 <= b && b <= 0x39 {
        b - 0x30
    } else if 0x41 <= b && b <= 0x46 {
        b - 0x37
    } else {
        b - 0x57
    }
}

fn path_decode_from(s: &[u8], pos: usize) -> (r: Option<Vec<u8>>)
    requires
        pos <= s@.len(),
    ensures
        match r {
            Some(v) => path_decoded(s@.skip(pos as int)) == Some(v@),
            None => path_decoded(s@.skip(pos as int)) is None,
        },
    decreases s@.len() - pos,
{
    if pos == s.len() {
        proof {
            assert(s@.skip(pos as int) =~= Seq::<u8>::empty());
        }
        Some(Vec::new())
    } else {
        let ghost tail = s@.skip(pos as int);
        proof {
            assert(tail[0] == s@[pos as int]);
            assert(tail.drop_first() =~= s@.skip(pos as int + 1));
        }
        if s[pos] == 0x25 {
            if s.len() - pos >= 3 && is_hex_byte_exec(s[pos + 1]) && is_hex_byte_exec(s[pos + 2]) {
                proof {
                    assert(tail.len() >= 3);
                    assert(tail[1] == s@[pos as int + 1] && tail[2] == s@[pos as int + 2]);
                    assert(tail.skip(3) =~= s@.skip(pos as int + 3));
                }
                let b: u8 = hex_val_exec(s[pos + 1]) * 16 + hex_val_exec(s[pos + 2]);
                match path_decode_from(s, pos + 3) {
                    Some(mut rest) => {
                        rest.insert(0, b);
                        proof {
                            assert(rest@ =~= seq![b] + rest@.drop_first());
                        }
                        Some(rest)
                    },
                    None => None,
                }
            } else {
                None
            }
        } else {
            let b = s[pos];
            match path_decode_from(s, pos + 1) {
                Some(mut rest) => {
                    rest.insert(0, b);
                    proof {
                        assert(rest@ =~= seq![b] + rest@.drop_first());
                    }
                    Some(rest)
                },
                None => None,
            }
        }
    }
}

/// Path-segment percent-decoding over bytes, as the registry server applies
/// it.
pub fn path_decode_bytes(s: &[u8]) -> (r: Option<Vec<u8>>)
    ensures
        match r {
            Some(v) => path_decoded(s@) == Some(v@),
            None => path_decoded(s@) is None,
        },
{
    proof {
        assert(s@.skip(0) =~= s@);
    }
    path_decode_from(s, 0)
}

fn query_decode_from(s: &[u8], pos: usize) -> (r: Option<Vec<u8>>)
    requires
        pos <= s@.len(),
    ensures
        match r {
            Some(v) => query_decoded(s@.skip(pos as int)) == Some(v@),
            None => query_decoded(s@.skip(pos as int)) is None,
        },
    decreases s@.len() - pos,
{
    if pos == s.len() {
        proof {
            assert(s@.skip(pos as int) =~= Seq::<u8>::empty());
        }
        Some(Vec::new())
    } else {
        let ghost tail = s@.skip(pos as int);
        proof {
            assert(tail[0] == s@[pos as int]);
            assert(tail.drop_first() =~= s@.skip(pos as int + 1));
        }
        if s[pos] == 0x25 {
            if s.len() - pos >= 3 && is_hex_byte_exec(s[pos + 1]) && is_hex_byte_exec(s[pos + 2]) {
                proof {
                    assert(tail.len() >= 3);
                    assert(tail[1] == s@[pos as int + 1] && tail[2] == s@[pos as int + 2]);
                    assert(tail.skip(3) =~= s@.skip(pos as int + 3));
                }
                let b: u8 = hex_val_exec(s[pos + 1]) * 16 + hex_val_exec(s[pos + 2]);
                match query_decode_from(s, pos + 3) {
                    Some(mut rest) => {
                        rest.insert(0, b);
                        proof {
                            assert(rest@ =~= seq![b] + rest@.drop_first());
                        }
                        Some(rest)
                    },
                    None => None,
                }
            } else {
                None
            }
        } else {
            let b = if s[pos] == 0x2b {
                0x20
            } else {
                s[pos]
            };
            match query_decode_from(s, pos + 1) {
                Some(mut rest) => {
                    rest.insert(0, b);
                    proof {
                        assert(rest@ =~= seq![b] + rest@.drop_first());
                    }
                    Some(rest)
                },
                None => None,
            }
        }
    }
}

/// Query-value percent-decoding over bytes, as the registry server applies
/// it.
pub fn query_decode_bytes(s: &[u8]) -> (r: Option<Vec<u8>>)
    ensures
        match r {
            Some(v) => query_decoded(s@) == Some(v@),
            None => query_decoded(s@) is None,
        },
{
    proof {
        assert(s@.skip(0) =~= s@);
    }
    query_decode_from(s, 0)
}

} // verus!
