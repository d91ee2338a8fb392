//! Finding trackers on web pages: the tracker database, the scan of a page's
//! resources, and the tallies of a scan.
pub mod report;
pub mod scanner;
pub mod tracker_db;

use vstd::prelude::*;
use crate::text::{
    chars_of, find_char, has_prefix, lemma_lines_last, lemma_lines_step, lines_of, slice_chars, starts_with_str,
    string_of, strip_cr, trim, trim_chars,
};

verus! {

/// A trimmed line names a page to scan: it is not empty and starts with
/// `http://` or `https://`.
pub open spec fn is_page_url(l: Seq<char>) -> bool {
    l.len() > 0 && (has_prefix(l, "http://"@) || has_prefix(l, "https://"@))
}

/// The pages listed in lines `ls`: each line trimmed, kept when it names a
/// page, in order.
pub open spec fn urls_in_lines(ls: Seq<Seq<char>>) -> Seq<Seq<char>>
    decreases ls.len(),
{
    if ls.len() == 0 {
        seq![]
    } else {
        let t = trim(ls[0]);
        (if is_page_url(t) { seq![t] } else { seq![] }) + urls_in_lines(ls.drop_first())
    }
}

/// The line, trimmed, when it names a page.
fn page_url_of(line: &Vec<char>) -> (r: Option<String>)
    ensures
        match r {
            Some(u) => is_page_url(trim(line@)) && u@ == trim(line@),
            None => !is_page_url(trim(line@)),
        },
{
    let t = trim_chars(line);
    if t.len() > 0 && (starts_with_str(&t, "http://") || starts_with_str(&t, "https://")) {
        Some(string_of(&t))
    } else {
        None
    }
}

/// The pages a URL list names, one per line (`str::lines`): each line is
/// trimmed and kept when it is not empty and starts with `http://` or
/// `https://`; other lines are passed over.
pub fn urls_to_scan(content: &str) -> (r: Vec<String>)
    ensures
        r@.map_values(|u: String| u@) == urls_in_lines(lines_of(content@)),
{
    let s = chars_of(content);
    let n = s.len();
    let mut r: Vec<String> = Vec::new();
    let mut pos: usize = 0;
    assert(s@.skip(0) =~= s@);
    while pos < n
        invariant
            n == s@.len(),
            pos <= n,
            s@ == content@,
            urls_in_lines(lines_of(content@)) == r@.map_values(|u: String| u@) + urls_in_lines(
                lines_of(s@.skip(pos as int)),
            ),
        decreases n - pos,
    {
        let ghost before = r@.map_values(|u: String| u@);
        match find_char(&s, '\n', pos) {
            Some(i) => {
                let raw = slice_chars(&s, pos, i);
                let line = if raw.len() > 0 && raw[raw.len() - 1] == '\r' {
                    slice_chars(&raw, 0, raw.len() - 1)
                } else {
                    raw
                };
                assert(line@ =~= strip_cr(s@.subrange(pos as int, i as int)));
                let ghost ls = lines_of(s@.skip(pos as int));
                proof {
                    lemma_lines_step(s@, pos as int, i as int);
                    assert(ls[0] == line@);
                    assert(ls.drop_first() =~= lines_of(s@.skip(i + 1)));
                }
                let ghost head: Seq<Seq<char>> = if is_page_url(trim(line@)) { seq![trim(line@)] } else { seq![] };
                assert(urls_in_lines(ls) == head + urls_in_lines(lines_of(s@.skip(i + 1))));
                if let Some(u) = page_url_of(&line) {
                    r.push(u);
                }
                assert(r@.map_values(|u: String| u@) =~= before + head);
                assert(before + urls_in_lines(ls) =~= (before + head) + urls_in_lines(lines_of(s@.skip(i + 1))));
                pos = i + 1;
            },
            None => {
                let ghost ls = lines_of(s@.skip(pos as int));
                proof {
                    lemma_lines_last(s@, pos as int);
                    assert(ls.drop_first() =~= Seq::<Seq<char>>::empty());
                }
                let line = slice_chars(&s, pos, n);
                assert(line@ =~= s@.skip(pos as int));
                let ghost head: Seq<Seq<char>> = if is_page_url(trim(line@)) { seq![trim(line@)] } else { seq![] };
                assert(urls_in_lines(ls) == head + urls_in_lines(ls.drop_first()));
                assert(urls_in_lines(ls) =~= head);
                if let Some(u) = page_url_of(&line) {
                    r.push(u);
                }
                assert(r@.map_values(|u: String| u@) =~= before + head);
                pos = n;
                assert(s@.skip(n as int) =~= Seq::<char>::empty());
                assert(urls_in_lines(lines_of(s@.skip(n as int))) =~= Seq::<Seq<char>>::empty());
            },
        }
    }
    assert(s@.skip(n as int) =~= Seq::<char>::empty());
    assert(urls_in_lines(lines_of(s@.skip(n as int))) =~= Seq::<Seq<char>>::empty());
    assert(r@.map_values(|u: String| u@) + Seq::<Seq<char>>::empty() =~= r@.map_values(|u: String| u@));
    r
}

} // verus!
