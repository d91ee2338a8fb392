//! Checking a password against the Pwned Passwords range API with
//! k-anonymity: only the first five hex digits of the password's SHA-1 leave
//! the machine, and the reply is matched against the rest locally.
use vstd::prelude::*;
use sha1::Digest;
use crate::text::{
    chars_eq, chars_of, find_char, lemma_lines_last, lemma_lines_step, lines_of, push_char, slice_chars, strip_cr,
    string_of, to_uppercase, trim, trim_chars, uppercase,
};

verus! {

/// The SHA-1 digest of these bytes, as computed by the `sha1` crate.
pub uninterp spec fn sha1_digest(data: Seq<u8>) -> Seq<u8>;

/// Hashes `data` with `sha1::Sha1` (`new`, `update`, `finalize`). Claimed: the
/// result is the named digest of the bytes, and it is 20 bytes long (SHA-1
/// digests are 160 bits; `finalize` returns a 20-byte array).
#[verifier::external_body]
fn sha1_bytes(data: &[u8]) -> (r: Vec<u8>)
    ensures
        r@ == sha1_digest(data@),
        r@.len() == 20,
{
    let mut hasher = sha1::Sha1::new();
    hasher.update(data);
    hasher.finalize().to_vec()
}

/// The upper-case hexadecimal digits.
pub open spec fn hex_digits() -> Seq<char> {
    seq!['0', '1', '2', '3', '4', '5', '6', '7', '8', '9', 'A', 'B', 'C', 'D', 'E', 'F']
}

/// Bytes written as upper-case hex, two digits per byte, high digit first.
pub open spec fn hex_upper(bytes: Seq<u8>) -> Seq<char> {
    Seq::new(
        (bytes.len() * 2) as nat,
        |i: int|
            if i % 2 == 0 {
                hex_digits()[(bytes[i / 2] / 16) as int]
            } else {
                hex_digits()[(bytes[i / 2] % 16) as int]
            },
    )
}

/// The value of an upper-case hex digit.
pub open spec fn hex_digit_value(c: char) -> int {
    if '0' <= c && c <= '9' {
        (c as int) - ('0' as int)
    } else {
        (c as int) - ('A' as int) + 10
    }
}

/// An upper-case hex digit: `0`-`9` or `A`-`F`.
pub open spec fn is_upper_hex_digit(c: char) -> bool {
    ('0' <= c && c <= '9') || ('A' <= c && c <= 'F')
}

proof fn lemma_digit_value(k: int)
    requires
        0 <= k < 16,
    ensures
        is_upper_hex_digit(hex_digits()[k]),
        hex_digit_value(hex_digits()[k]) == k,
{
}

/// The hex text of bytes has two upper-case digits per byte, high digit
/// first: read back, digit pair `i` gives byte `i`.
pub proof fn lemma_hex_reads_back(bytes: Seq<u8>)
    ensures
        hex_upper(bytes).len() == 2 * bytes.len(),
        forall|i: int| 0 <= i < hex_upper(bytes).len() ==> is_upper_hex_digit(#[trigger] hex_upper(bytes)[i]),
        forall|i: int| 0 <= i < bytes.len() ==> hex_digit_value(hex_upper(bytes)[2 * i]) * 16 + hex_digit_value(
            hex_upper(bytes)[2 * i + 1],
        ) == #[trigger] bytes[i],
{
    let h = hex_upper(bytes);
    assert forall|i: int| 0 <= i < h.len() implies is_upper_hex_digit(#[trigger] h[i]) by {
        let b = bytes[i / 2];
        lemma_digit_value((b / 16) as int);
        lemma_digit_value((b % 16) as int);
    }
    assert forall|i: int| 0 <= i < bytes.len() implies hex_digit_value(h[2 * i]) * 16 + hex_digit_value(h[2 * i + 1])
        == #[trigger] bytes[i] by {
        let b = bytes[i];
        assert((2 * i) / 2 == i && (2 * i) % 2 == 0);
        assert((2 * i + 1) / 2 == i && (2 * i + 1) % 2 == 1);
        lemma_digit_value((b / 16) as int);
        lemma_digit_value((b % 16) as int);
        assert((b / 16) * 16 + b % 16 == b);
    }
}

/// Encodes bytes as an upper-case hex string.
pub fn hex_encode(bytes: &[u8]) -> (r: String)
    ensures
        r@ == hex_upper(bytes@),
{
    let digits: Vec<char> = vec!['0', '1', '2', '3', '4', '5', '6', '7', '8', '9', 'A', 'B', 'C', 'D', 'E', 'F'];
    assert(digits@ =~= hex_digits());
    let mut r = String::new();
    let mut i: usize = 0;
    while i < bytes.len()
        invariant
            i <= bytes@.len(),
            digits@ == hex_digits(),
            r@ == hex_upper(bytes@.take(i as int)),
        decreases bytes.len() - i,
    {
        let b = bytes[i];
        push_char(&mut r, digits[(b / 16) as usize]);
        push_char(&mut r, digits[(b % 16) as usize]);
        assert(r@ =~= hex_upper(bytes@.take(i + 1)));
        i += 1;
    }
    assert(bytes@.take(bytes@.len() as int) =~= bytes@);
    r
}

/// The upper-case hex SHA-1 of the UTF-8 bytes of `input`.
pub open spec fn sha1_hex_of(input: Seq<char>) -> Seq<char> {
    hex_upper(sha1_digest(vstd::utf8::encode_utf8(input)))
}

/// The upper-case hex SHA-1 digest of a string's UTF-8 bytes (40 digits).
pub fn sha1_hex(input: &str) -> (r: String)
    ensures
        r@ == sha1_hex_of(input@),
        r@.len() == 40,
{
    let digest = sha1_bytes(input.as_bytes());
    hex_encode(digest.as_slice())
}

/// The part of a password's hash sent to the range API (the first five hex
/// digits) and the part matched locally (the other 35): only five digits
/// leave, and the two parts together are the whole hash.
pub fn hibp_range_parts(password: &str) -> (r: (String, String))
    ensures
        r.0@ == sha1_hex_of(password@).take(5),
        r.1@ == sha1_hex_of(password@).skip(5),
        r.0@.len() == 5,
        r.1@.len() == 35,
        r.0@ + r.1@ == sha1_hex_of(password@),
{
    let hash = sha1_hex(password);
    let hc = chars_of(hash.as_str());
    let prefix = slice_chars(&hc, 0, 5);
    let suffix = slice_chars(&hc, 5, hc.len());
    assert(prefix@ =~= sha1_hex_of(password@).take(5));
    assert(suffix@ =~= sha1_hex_of(password@).skip(5));
    assert(prefix@ + suffix@ =~= sha1_hex_of(password@));
    (string_of(&prefix), string_of(&suffix))
}

/// The value of a run of decimal digits.
pub open spec fn digits_value(t: Seq<char>) -> int
    decreases t.len(),
{
    if t.len() == 0 {
        0
    } else {
        digits_value(t.drop_last()) * 10 + ((t.last() as int) - ('0' as int))
    }
}

/// Every character is a decimal digit.
pub open spec fn all_digits(t: Seq<char>) -> bool {
    forall|k: int| 0 <= k < t.len() ==> '0' <= #[trigger] t[k] <= '9'
}

/// What `str::parse::<u64>` gives: an optional `+` followed by at least one
/// decimal digit, with a value that fits in 64 bits.
pub open spec fn parse_u64(s: Seq<char>) -> Option<u64> {
    let t = if s.len() > 0 && s[0] == '+' { s.skip(1) } else { s };
    if t.len() > 0 && all_digits(t) && digits_value(t) <= u64::MAX {
        Some(digits_value(t) as u64)
    } else {
        None
    }
}

proof fn lemma_digits_value_monotone(t: Seq<char>, k: int)
    requires
        all_digits(t),
        0 <= k <= t.len(),
    ensures
        digits_value(t.take(k)) <= digits_value(t),
        digits_value(t.take(k)) >= 0,
    decreases t.len() - k,
{
    if k < t.len() {
        assert(t.take(k + 1).drop_last() =~= t.take(k));
        lemma_digits_value_monotone(t, k + 1);
        assert(digits_value(t.take(k + 1)) == digits_value(t.take(k)) * 10 + ((t[k] as int) - ('0' as int)));
    } else {
        assert(t.take(k) =~= t);
        lemma_digits_value_nonneg(t);
    }
}

proof fn lemma_digits_value_nonneg(t: Seq<char>)
    requires
        all_digits(t),
    ensures
        digits_value(t) >= 0,
    decreases t.len(),
{
    if t.len() > 0 {
        lemma_digits_value_nonneg(t.drop_last());
    }
}

/// Parses a decimal count as `str::parse::<u64>` does.
fn parse_u64_chars(s: &Vec<char>) -> (r: Option<u64>)
    ensures
        r == parse_u64(s@),
{
    let start: usize = if s.len() > 0 && s[0] == '+' { 1 } else { 0 };
    let ghost t = if s@.len() > 0 && s@[0] == '+' { s@.skip(1) } else { s@ };
    assert(t =~= s@.skip(start as int));
    if start == s.len() {
        return None;
    }
    let mut v: u64 = 0;
    let mut i: usize = start;
    while i < s.len()
        invariant
            start <= i <= s@.len(),
            start < s@.len(),
            t == s@.skip(start as int),
            t == (if s@.len() > 0 && s@[0] == '+' { s@.skip(1) } else { s@ }),
            all_digits(t.take(i - start)),
            v as int == digits_value(t.take(i - start)),
        decreases s.len() - i,
    {
        let c = s[i];
        assert(t[i - start] == c);
        assert(t.take(i - start + 1).drop_last() =~= t.take(i - start));
        assert(t.take(i - start + 1).last() == c);
        if !('0' <= c && c <= '9') {
            assert(!all_digits(t));
            return None;
        }
        let d = ((c as u32) - ('0' as u32)) as u64;
        assert(d as int == (c as int) - ('0' as int));
        assert(d <= 9);
        if v > (u64::MAX - d) / 10 {
            proof {
                assert(digits_value(t.take(i - start + 1)) == v * 10 + d);
                assert(v * 10 + d > u64::MAX) by (nonlinear_arith)
                    requires
                        v > (u64::MAX - d) / 10,
                        d <= 9,
                ;
                if all_digits(t) {
                    lemma_digits_value_monotone(t, i - start + 1);
                }
            }
            return None;
        }
        assert(v * 10 + d <= u64::MAX) by (nonlinear_arith)
            requires
                v <= (u64::MAX - d) / 10,
                d <= 9,
        ;
        v = v * 10 + d;
        i += 1;
        assert(all_digits(t.take(i - start)));
    }
    assert(t.take(i - start) =~= t);
    Some(v)
}

/// `c` is the one colon of `line`.
pub open spec fn single_colon_at(line: Seq<char>, c: int) -> bool {
    0 <= c < line.len() && line[c] == ':' && forall|k: int| 0 <= k < line.len() && k != c ==> line[k] != ':'
}

/// The count a line of the range reply gives when it is the line of the hash
/// suffix `suffix_up` (upper-cased): the line must be two fields around one
/// colon, the first matching the suffix (trimmed, case-insensitively), the
/// second a count (trimmed; 0 when it does not parse).
pub open spec fn line_count(line: Seq<char>, suffix_up: Seq<char>) -> Option<u64> {
    if exists|c: int| single_colon_at(line, c) {
        let c = choose|c: int| single_colon_at(line, c);
        if uppercase(trim(line.take(c))) == suffix_up {
            Some(
                match parse_u64(trim(line.skip(c + 1))) {
                    Some(n) => n,
                    None => 0,
                },
            )
        } else {
            None
        }
    } else {
        None
    }
}

/// The count of the first line that is the suffix's line, or 0 when none is.
pub open spec fn count_in_lines(ls: Seq<Seq<char>>, suffix_up: Seq<char>) -> u64
    decreases ls.len(),
{
    if ls.len() == 0 {
        0
    } else {
        match line_count(ls[0], suffix_up) {
            Some(n) => n,
            None => count_in_lines(ls.drop_first(), suffix_up),
        }
    }
}

/// The count a line gives for the suffix, as `line_count` says.
fn line_count_exec(line: &Vec<char>, suffix_up: &Vec<char>) -> (r: Option<u64>)
    ensures
        r == line_count(line@, suffix_up@),
{
    let c = match find_char(line, ':', 0) {
        None => {
            assert(!exists|c: int| single_colon_at(line@, c));
            return None;
        },
        Some(c) => c,
    };
    let n = line.len();
    assert(c < n);
    if find_char(line, ':', c + 1).is_some() {
        assert(!exists|c2: int| single_colon_at(line@, c2)) by {
            if exists|c2: int| single_colon_at(line@, c2) {
                let c2 = choose|c2: int| single_colon_at(line@, c2);
                assert(line@[c as int] == ':');
            }
        }
        return None;
    }
    assert(single_colon_at(line@, c as int));
    proof {
        let c2 = choose|c2: int| single_colon_at(line@, c2);
        if c2 != c {
            assert(line@[c as int] == ':');
        }
    }
    let key = trim_chars(&slice_chars(line, 0, c));
    let value = trim_chars(&slice_chars(line, c + 1, n));
    assert(line@.subrange(0, c as int) =~= line@.take(c as int));
    assert(line@.subrange(c + 1, n as int) =~= line@.skip(c + 1));
    let key_up = to_uppercase(string_of(&key).as_str());
    let key_up_chars = chars_of(key_up.as_str());
    if chars_eq(&key_up_chars, suffix_up) {
        match parse_u64_chars(&value) {
            Some(v) => Some(v),
            None => Some(0),
        }
    } else {
        None
    }
}

/// The number of times the range reply `body` says the hash suffix `suffix`
/// was seen: the count on the first line for the suffix (matched
/// case-insensitively), or 0 when no line is for it.
pub fn count_in_range_response(body: &str, suffix: &str) -> (r: u64)
    ensures
        r == count_in_lines(lines_of(body@), uppercase(suffix@)),
{
    let s = chars_of(body);
    let up = to_uppercase(suffix);
    let upc = chars_of(up.as_str());
    let n = s.len();
    let mut pos: usize = 0;
    assert(s@.skip(0) =~= s@);
    while pos < n
        invariant
            n == s@.len(),
            pos <= n,
            s@ == body@,
            upc@ == uppercase(suffix@),
            count_in_lines(lines_of(body@), uppercase(suffix@)) == count_in_lines(lines_of(s@.skip(pos as int)), upc@),
        decreases n - pos,
    {
        match find_char(&s, '\n', pos) {
            Some(i) => {
                let raw = slice_chars(&s, pos, i);
                let line = if raw.len() > 0 && raw[raw.len() - 1] == '\r' {
                    slice_chars(&raw, 0, raw.len() - 1)
                } else {
                    raw
                };
                assert(line@ =~= strip_cr(s@.subrange(pos as int, i as int)));
                proof {
                    lemma_lines_step(s@, pos as int, i as int);
                    let ls = lines_of(s@.skip(pos as int));
                    assert(ls[0] == line@);
                    assert(ls.drop_first() =~= lines_of(s@.skip(i + 1)));
                }
                if let Some(v) = line_count_exec(&line, &upc) {
                    return v;
                }
                pos = i + 1;
            },
            None => {
                proof {
                    lemma_lines_last(s@, pos as int);
                    let ls = lines_of(s@.skip(pos as int));
                    assert(ls.drop_first() =~= Seq::<Seq<char>>::empty());
                }
                let line = slice_chars(&s, pos, n);
                assert(line@ =~= s@.skip(pos as int));
                if let Some(v) = line_count_exec(&line, &upc) {
                    return v;
                }
                pos = n;
                assert(s@.skip(n as int) =~= Seq::<char>::empty());
            },
        }
    }
    assert(s@.skip(n as int) =~= Seq::<char>::empty());
    0
}

} // verus!
