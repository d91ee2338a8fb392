//! Character-level string helpers shared by the rules of the toolkit.
use vstd::prelude::*;

verus! {

broadcast use vstd::string::group_string_axioms;

/// What `str::to_lowercase` returns for a string with these characters
/// (Unicode lowercase mapping, which may change the length).
pub uninterp spec fn lowercase(s: Seq<char>) -> Seq<char>;

/// What `str::to_uppercase` returns for a string with these characters
/// (Unicode uppercase mapping, which may change the length).
pub uninterp spec fn uppercase(s: Seq<char>) -> Seq<char>;

/// Calls `str::to_lowercase`. Claimed: the result is the named lowercase
/// mapping of the argument's characters, and on ASCII text it maps `A`-`Z`
/// to `a`-`z` and keeps every other character (the Unicode lowercase mapping
/// of the ASCII range); nothing else is stated of it.
#[verifier::external_body]
pub(crate) fn to_lowercase(s: &str) -> (r: String)
    ensures
        r@ == lowercase(s@),
        is_ascii_chars(s@) ==> r@ == s@.map_values(|c: char| ascii_lower(c)),
{
    s.to_lowercase()
}

/// All characters are ASCII.
pub open spec fn is_ascii_chars(s: Seq<char>) -> bool {
    forall|i: int| 0 <= i < s.len() ==> (#[trigger] s[i] as int) < 128
}

/// `c` with an ASCII uppercase letter mapped to its lowercase letter.
pub open spec fn ascii_lower(c: char) -> char {
    if 'A' <= c && c <= 'Z' {
        ((c as int) + 32) as char
    } else {
        c
    }
}

/// Lowering ASCII text keeps it ASCII, and lowering it again changes nothing.
pub proof fn lemma_ascii_lower_twice(s: Seq<char>)
    requires
        is_ascii_chars(s),
    ensures
        is_ascii_chars(s.map_values(|c: char| ascii_lower(c))),
        s.map_values(|c: char| ascii_lower(c)).map_values(|c: char| ascii_lower(c)) == s.map_values(|c: char| ascii_lower(c)),
{
    let l = s.map_values(|c: char| ascii_lower(c));
    assert forall|i: int| 0 <= i < l.len() implies (#[trigger] l[i] as int) < 128 by {
        assert(l[i] == ascii_lower(s[i]));
        assert((s[i] as int) < 128);
    }
    assert(l.map_values(|c: char| ascii_lower(c)) =~= l);
}

/// `c` with an ASCII lowercase letter mapped to its uppercase letter.
pub open spec fn ascii_upper(c: char) -> char {
    if 'a' <= c && c <= 'z' {
        ((c as int) - 32) as char
    } else {
        c
    }
}

/// Calls `str::to_uppercase`. Claimed: the result is the named uppercase
/// mapping of the argument's characters, and on ASCII text it maps `a`-`z`
/// to `A`-`Z` and keeps every other character (the Unicode uppercase mapping
/// of the ASCII range); nothing else is stated of it.
#[verifier::external_body]
pub(crate) fn to_uppercase(s: &str) -> (r: String)
    ensures
        r@ == uppercase(s@),
        is_ascii_chars(s@) ==> r@ == s@.map_values(|c: char| ascii_upper(c)),
{
    s.to_uppercase()
}

/// Calls `String::push`, which appends one character at the end.
#[verifier::external_body]
pub(crate) fn push_char(s: &mut String, c: char)
    ensures
        final(s)@ == old(s)@.push(c),
{
    s.push(c);
}

/// The characters of a string slice, in order.
pub fn chars_of(s: &str) -> (r: Vec<char>)
    ensures
        r@ == s@,
{
    let mut r: Vec<char> = Vec::new();
    for c in it: s.chars()
        invariant
            it.seq() == s@,
            r@ == it.seq().take(it.index() as int),
    {
        r.push(c);
    }
    r
}

/// A string made of the given characters.
pub fn string_of(cs: &Vec<char>) -> (r: String)
    ensures
        r@ == cs@,
{
    let mut r = String::new();
    let mut i: usize = 0;
    while i < cs.len()
        invariant
            i <= cs.len(),
            r@ == cs@.take(i as int),
        decreases cs.len() - i,
    {
        push_char(&mut r, cs[i]);
        assert(cs@.take(i + 1) =~= cs@.take(i as int).push(cs@[i as int]));
        i += 1;
    }
    assert(cs@.take(cs.len() as int) =~= cs@);
    r
}

/// `n` occurs in `h` starting at position `i`.
pub open spec fn occurs_at(h: Seq<char>, n: Seq<char>, i: int) -> bool {
    0 <= i && i + n.len() <= h.len() && h.subrange(i, i + n.len()) == n
}

/// `n` occurs somewhere in `h` (as `str::contains` with a string pattern).
pub open spec fn has_substring(h: Seq<char>, n: Seq<char>) -> bool {
    exists|i: int| #[trigger] occurs_at(h, n, i)
}

/// `p` is a prefix of `s`.
pub open spec fn has_prefix(s: Seq<char>, p: Seq<char>) -> bool {
    p.len() <= s.len() && s.take(p.len() as int) == p
}

fn occurs_at_exec(h: &Vec<char>, n: &Vec<char>, i: usize) -> (r: bool)
    requires
        i + n@.len() <= h@.len(),
    ensures
        r == occurs_at(h@, n@, i as int),
{
    let mut j: usize = 0;
    while j < n.len()
        invariant
            j <= n@.len(),
            i + n@.len() <= h.len(),
            forall|k: int| 0 <= k < j ==> h@[i + k] == n@[k],
        decreases n.len() - j,
    {
        if h[i + j] != n[j] {
            assert(h@.subrange(i as int, i + n@.len())[j as int] != n@[j as int]);
            return false;
        }
        j += 1;
    }
    assert(h@.subrange(i as int, i + n@.len()) =~= n@);
    true
}

/// Whether `n` occurs in `h`.
pub fn contains_chars(h: &Vec<char>, n: &Vec<char>) -> (r: bool)
    ensures
        r == has_substring(h@, n@),
{
    if n.len() > h.len() {
        return false;
    }
    let last: usize = h.len() - n.len();
    let mut i: usize = 0;
    loop
        invariant
            last == h@.len() - n@.len(),
            i <= last,
            forall|k: int| 0 <= k < i ==> !occurs_at(h@, n@, k),
        decreases last - i,
    {
        if occurs_at_exec(h, n, i) {
            return true;
        }
        if i == last {
            return false;
        }
        i += 1;
    }
}

/// Whether the string `h` contains the string `n`.
pub fn contains_str(h: &Vec<char>, n: &str) -> (r: bool)
    ensures
        r == has_substring(h@, n@),
{
    let nc = chars_of(n);
    contains_chars(h, &nc)
}

/// Whether two character sequences are equal.
pub fn chars_eq(a: &Vec<char>, b: &Vec<char>) -> (r: bool)
    ensures
        r == (a@ == b@),
{
    if a.len() != b.len() {
        return false;
    }
    let mut i: usize = 0;
    while i < a.len()
        invariant
            a@.len() == b@.len(),
            i <= a@.len(),
            forall|k: int| 0 <= k < i ==> a@[k] == b@[k],
        decreases a.len() - i,
    {
        if a[i] != b[i] {
            return false;
        }
        i += 1;
    }
    assert(a@ =~= b@);
    true
}

/// Whether two string slices hold the same characters.
pub fn str_eq(a: &str, b: &str) -> (r: bool)
    ensures
        r == (a@ == b@),
{
    let ac = chars_of(a);
    let bc = chars_of(b);
    chars_eq(&ac, &bc)
}

/// Whether `s` starts with `p`.
pub fn starts_with_str(s: &Vec<char>, p: &str) -> (r: bool)
    ensures
        r == has_prefix(s@, p@),
{
    let pc = chars_of(p);
    if pc.len() > s.len() {
        return false;
    }
    let mut i: usize = 0;
    while i < pc.len()
        invariant
            pc@ == p@,
            pc@.len() <= s@.len(),
            i <= pc@.len(),
            forall|k: int| 0 <= k < i ==> s@[k] == pc@[k],
        decreases pc.len() - i,
    {
        if s[i] != pc[i] {
            assert(s@.take(pc@.len() as int)[i as int] != pc@[i as int]);
            return false;
        }
        i += 1;
    }
    assert(s@.take(pc@.len() as int) =~= pc@);
    true
}

/// The string `a` followed by `b` followed by `c`.
pub fn concat3(a: &str, b: &str, c: &str) -> (r: String)
    ensures
        r@ == a@ + b@ + c@,
{
    let mut r = String::from_str(a);
    r.append(b);
    r.append(c);
    r
}

/// The position of the first `c` in `s` at or after `from`, if any.
pub fn find_char(s: &Vec<char>, c: char, from: usize) -> (r: Option<usize>)
    requires
        from <= s@.len(),
    ensures
        match r {
            Some(i) => from <= i < s@.len() && s@[i as int] == c && forall|k: int|
                from <= k < i ==> s@[k] != c,
            None => forall|k: int| from <= k < s@.len() ==> s@[k] != c,
        },
{
    let mut i = from;
    while i < s.len()
        invariant
            from <= i <= s@.len(),
            forall|k: int| from <= k < i ==> s@[k] != c,
        decreases s.len() - i,
    {
        if s[i] == c {
            return Some(i);
        }
        i += 1;
    }
    None
}

/// The characters of `s` from `from` up to (not including) `to`.
pub fn slice_chars(s: &Vec<char>, from: usize, to: usize) -> (r: Vec<char>)
    requires
        from <= to <= s@.len(),
    ensures
        r@ == s@.subrange(from as int, to as int),
{
    let mut r: Vec<char> = Vec::new();
    let mut i = from;
    while i < to
        invariant
            from <= i <= to <= s@.len(),
            r@ == s@.subrange(from as int, i as int),
        decreases to - i,
    {
        r.push(s[i]);
        assert(s@.subrange(from as int, i + 1) =~= s@.subrange(from as int, i as int).push(s@[i as int]));
        i += 1;
    }
    r
}

/// The position of the last dot in `d`, if any.
pub fn last_dot(d: &Vec<char>) -> (r: Option<usize>)
    ensures
        match r {
            Some(l) => l < d@.len() && d@[l as int] == '.' && forall|q: int| l < q < d@.len() ==> d@[q] != '.',
            None => forall|q: int| 0 <= q < d@.len() ==> d@[q] != '.',
        },
{
    let mut i = d.len();
    while i > 0
        invariant
            i <= d@.len(),
            forall|q: int| i <= q < d@.len() ==> d@[q] != '.',
        decreases i,
    {
        if d[i - 1] == '.' {
            return Some(i - 1);
        }
        i -= 1;
    }
    None
}

/// `i` is the position of the first `c` in `s`.
pub open spec fn first_at(s: Seq<char>, c: char, i: int) -> bool {
    0 <= i < s.len() && s[i] == c && forall|k: int| 0 <= k < i ==> s[k] != c
}

/// `c` is white space as `char::is_whitespace` has it (Unicode White_Space).
pub open spec fn is_white(c: char) -> bool {
    ||| c == '\t' || c == '\n' || c == '\u{0B}' || c == '\u{0C}' || c == '\r' || c == ' '
    ||| c == '\u{85}' || c == '\u{A0}' || c == '\u{1680}'
    ||| ('\u{2000}' as int) <= (c as int) <= ('\u{200A}' as int)
    ||| c == '\u{2028}' || c == '\u{2029}' || c == '\u{202F}' || c == '\u{205F}' || c == '\u{3000}'
}

fn is_white_exec(c: char) -> (r: bool)
    ensures
        r == is_white(c),
{
    c == '\t' || c == '\n' || c == '\u{0B}' || c == '\u{0C}' || c == '\r' || c == ' ' || c == '\u{85}'
        || c == '\u{A0}' || c == '\u{1680}' || ('\u{2000}' <= c && c <= '\u{200A}') || c == '\u{2028}'
        || c == '\u{2029}' || c == '\u{202F}' || c == '\u{205F}' || c == '\u{3000}'
}

/// `a` and `b` bound `s` without its leading and trailing white space (as
/// `str::trim` cuts it).
pub open spec fn trim_bounds(s: Seq<char>, a: int, b: int) -> bool {
    &&& 0 <= a <= b <= s.len()
    &&& forall|k: int| 0 <= k < a ==> is_white(#[trigger] s[k])
    &&& forall|k: int| b <= k < s.len() ==> is_white(#[trigger] s[k])
    &&& (a < b ==> !is_white(s[a]) && !is_white(s[b - 1]))
    &&& (a == b ==> a == s.len())
}

/// `s` without leading and trailing white space, as `str::trim` gives it.
pub open spec fn trim(s: Seq<char>) -> Seq<char> {
    let (a, b) = choose|a: int, b: int| trim_bounds(s, a, b);
    s.subrange(a, b)
}

proof fn lemma_trim_bounds_unique(s: Seq<char>, a1: int, b1: int, a2: int, b2: int)
    requires
        trim_bounds(s, a1, b1),
        trim_bounds(s, a2, b2),
    ensures
        s.subrange(a1, b1) == s.subrange(a2, b2),
{
    if a1 < b1 && a2 < b2 {
        if a1 < a2 {
            assert(is_white(s[a1]));
        }
        if a2 < a1 {
            assert(is_white(s[a2]));
        }
        if b1 < b2 {
            assert(is_white(s[b2 - 1]));
        }
        if b2 < b1 {
            assert(is_white(s[b1 - 1]));
        }
    } else if a1 < b1 {
        assert(is_white(s[a1]));
    } else if a2 < b2 {
        assert(is_white(s[a2]));
    }
}

/// `s` without leading and trailing white space.
pub fn trim_chars(s: &Vec<char>) -> (r: Vec<char>)
    ensures
        r@ == trim(s@),
{
    let mut a: usize = 0;
    while a < s.len() && is_white_exec(s[a])
        invariant
            a <= s@.len(),
            forall|k: int| 0 <= k < a ==> is_white(#[trigger] s@[k]),
        decreases s.len() - a,
    {
        a += 1;
    }
    let mut b: usize = s.len();
    while b > a && is_white_exec(s[b - 1])
        invariant
            a <= b <= s@.len(),
            forall|k: int| b <= k < s@.len() ==> is_white(#[trigger] s@[k]),
            a < s@.len() ==> !is_white(s@[a as int]),
        decreases b,
    {
        b -= 1;
    }
    assert(trim_bounds(s@, a as int, b as int));
    proof {
        let (a2, b2) = choose|a2: int, b2: int| trim_bounds(s@, a2, b2);
        lemma_trim_bounds_unique(s@, a as int, b as int, a2, b2);
    }
    slice_chars(s, a, b)
}

/// A line without the carriage return that ends it, if one does.
pub open spec fn strip_cr(l: Seq<char>) -> Seq<char> {
    if l.len() > 0 && l.last() == '\r' {
        l.drop_last()
    } else {
        l
    }
}

/// The lines of a text as `str::lines` gives them: split after each `\n`,
/// with the `\n` and a `\r` before it dropped; no empty line after a final `\n`.
pub open spec fn lines_of(s: Seq<char>) -> Seq<Seq<char>>
    decreases s.len(),
{
    if s.len() == 0 {
        seq![]
    } else if exists|i: int| first_at(s, '\n', i) {
        let i = choose|i: int| first_at(s, '\n', i);
        seq![strip_cr(s.take(i))] + lines_of(s.skip(i + 1))
    } else {
        seq![s]
    }
}

/// The lines from `pos` on: the line that ends at the newline at `i`, then
/// the lines after it.
pub proof fn lemma_lines_step(s: Seq<char>, pos: int, i: int)
    requires
        0 <= pos <= i < s.len(),
        s[i] == '\n',
        forall|k: int| pos <= k < i ==> s[k] != '\n',
    ensures
        lines_of(s.skip(pos)) == seq![strip_cr(s.subrange(pos, i))] + lines_of(s.skip(i + 1)),
{
    let t = s.skip(pos);
    assert(first_at(t, '\n', i - pos));
    let j = choose|j: int| first_at(t, '\n', j);
    if j < i - pos {
        assert(t[j] == s[pos + j]);
    }
    if j > i - pos {
        assert(t[i - pos] == '\n');
    }
    assert(t.take(i - pos) =~= s.subrange(pos, i));
    assert(t.skip(i - pos + 1) =~= s.skip(i + 1));
}

/// Text from `pos` on with no newline is one last line.
pub proof fn lemma_lines_last(s: Seq<char>, pos: int)
    requires
        0 <= pos < s.len(),
        forall|k: int| pos <= k < s.len() ==> s[k] != '\n',
    ensures
        lines_of(s.skip(pos)) == seq![s.skip(pos)],
{
    let t = s.skip(pos);
    assert(!exists|i: int| first_at(t, '\n', i)) by {
        if exists|i: int| first_at(t, '\n', i) {
            let i = choose|i: int| first_at(t, '\n', i);
            assert(t[i] == s[pos + i]);
        }
    }
}

} // verus!
