//! Case-insensitive replacement of a model name inside a line of a model file.

use vstd::prelude::*;
use crate::text::{all_ascii, ascii_lowered, chars_of, is_ascii, lowercase, str_lowercase, string_of};

verus! {

/// `needle` stands in `hay` at position `i`.
pub open spec fn occurs_at(hay: Seq<char>, needle: Seq<char>, i: int) -> bool {
    0 <= i && i + needle.len() <= hay.len() && hay.subrange(i, i + needle.len()) == needle
}

/// `needle` stands in `hay` at some position `pos` or later.
pub open spec fn occurs_from(hay: Seq<char>, needle: Seq<char>, pos: int) -> bool {
    exists|i: int| pos <= i && #[trigger] occurs_at(hay, needle, i)
}

/// Leftmost, non-overlapping replacement from position `pos` on: wherever
/// `lower_from` stands in `lower_line`, the characters of `line` at those
/// positions are replaced by `to`; all other characters of `line` are kept,
/// and past the last occurrence the rest of `line` is kept as it is.
pub open spec fn replace_run(
    line: Seq<char>,
    lower_line: Seq<char>,
    lower_from: Seq<char>,
    to: Seq<char>,
    pos: int,
) -> Seq<char>
    decreases lower_line.len() - pos,
{
    if lower_from.len() == 0 || pos < 0 || pos >= lower_line.len() || !occurs_from(
        lower_line,
        lower_from,
        pos,
    ) {
        line.subrange(pos, line.len() as int)
    } else if occurs_at(lower_line, lower_from, pos) {
        to + replace_run(line, lower_line, lower_from, to, pos + lower_from.len())
    } else {
        seq![line[pos]] + replace_run(line, lower_line, lower_from, to, pos + 1)
    }
}

/// Where the scan of `replace_run` from `pos` ends: the end of the last
/// occurrence that it replaces, or `pos` where it replaces none.
pub open spec fn scan_end(lower_line: Seq<char>, lower_from: Seq<char>, pos: int) -> int
    decreases lower_line.len() - pos,
{
    if lower_from.len() == 0 || pos < 0 || pos >= lower_line.len() || !occurs_from(
        lower_line,
        lower_from,
        pos,
    ) {
        pos
    } else if occurs_at(lower_line, lower_from, pos) {
        scan_end(lower_line, lower_from, pos + lower_from.len())
    } else {
        scan_end(lower_line, lower_from, pos + 1)
    }
}

/// Replacement of every occurrence of `from` in `line` by `to`, comparing
/// both after `str::to_lowercase`; an empty `from` leaves the line as it is.
pub open spec fn replace_no_case_spec(line: Seq<char>, from: Seq<char>, to: Seq<char>) -> Seq<
    char,
> {
    if from.len() == 0 {
        line
    } else {
        replace_run(line, str_lowercase(line), str_lowercase(from), to, 0)
    }
}

/// The number of bytes of a character in UTF-8.
pub open spec fn utf8_width(c: char) -> nat {
    let u = c as u32;
    if u < 0x80 {
        1
    } else if u < 0x800 {
        2
    } else if u < 0x10000 {
        3
    } else {
        4
    }
}

/// The number of bytes of `s` in UTF-8.
pub open spec fn utf8_len(s: Seq<char>) -> nat
    decreases s.len(),
{
    if s.len() == 0 {
        0
    } else {
        utf8_len(s.drop_last()) + utf8_width(s.last())
    }
}

/// The first `m` characters of `line` and of its lowercase form `lower`
/// have the same UTF-8 widths, so byte offsets up to there carry over.
pub open spec fn widths_agree_upto(line: Seq<char>, lower: Seq<char>, m: int) -> bool {
    &&& 0 <= m <= line.len()
    &&& m <= lower.len()
    &&& forall|i: int| 0 <= i < m ==> utf8_width(#[trigger] lower[i]) == utf8_width(line[i])
}

fn width_of(c: char) -> (w: usize)
    ensures
        w == utf8_width(c),
{
    let u = c as u32;
    if u < 0x80 {
        1
    } else if u < 0x800 {
        2
    } else if u < 0x10000 {
        3
    } else {
        4
    }
}

/// Decides `widths_agree_upto(s, l, m)`.
fn widths_agree_exec(s: &Vec<char>, l: &Vec<char>, m: usize) -> (b: bool)
    ensures
        b == widths_agree_upto(s@, l@, m as int),
{
    if m > s.len() || m > l.len() {
        return false;
    }
    let mut i: usize = 0;
    while i < m
        invariant
            m <= s.len(),
            m <= l.len(),
            i <= m,
            forall|k: int| 0 <= k < i ==> utf8_width(#[trigger] l@[k]) == utf8_width(s@[k]),
        decreases m - i,
    {
        if width_of(l[i]) != width_of(s[i]) {
            return false;
        }
        i = i + 1;
    }
    true
}

/// The number of bytes of `s` in UTF-8.
fn utf8_len_exec(s: &Vec<char>) -> (n: u128)
    ensures
        n == utf8_len(s@),
{
    let mut n: u128 = 0;
    let mut i: usize = 0;
    while i < s.len()
        invariant
            i <= s.len(),
            n == utf8_len(s@.take(i as int)),
            n <= 4 * i,
        decreases s.len() - i,
    {
        assert(s@.take(i + 1).drop_last() =~= s@.take(i as int));
        assert(i < 0x1_0000_0000_0000_0000u128);
        n = n + width_of(s[i]) as u128;
        i = i + 1;
    }
    assert(s@.take(i as int) =~= s@);
    n
}

fn occurs_at_exec(hay: &Vec<char>, needle: &Vec<char>, i: usize) -> (b: bool)
    requires
        i + needle.len() <= hay.len(),
    ensures
        b == occurs_at(hay@, needle@, i as int),
{
    let mut k: usize = 0;
    while k < needle.len()
        invariant
            i + needle.len() <= hay.len(),
            k <= needle.len(),
            forall|x: int| 0 <= x < k ==> hay@[i + x] == #[trigger] needle@[x],
        decreases needle.len() - k,
    {
        if hay[i + k] != needle[k] {
            assert(hay@.subrange(i as int, i + needle.len())[k as int] != needle@[k as int]);
            return false;
        }
        k = k + 1;
    }
    assert(hay@.subrange(i as int, i + needle.len()) =~= needle@);
    true
}

/// The first position at or after `pos` where `needle` stands in `hay`.
fn next_occurrence(hay: &Vec<char>, needle: &Vec<char>, pos: usize) -> (r: Option<usize>)
    ensures
        match r {
            Some(i) => pos <= i && occurs_at(hay@, needle@, i as int) && forall|k: int|
                pos <= k < i ==> !#[trigger] occurs_at(hay@, needle@, k),
            None => !occurs_from(hay@, needle@, pos as int),
        },
{
    let mut i: usize = pos;
    while i <= hay.len() && needle.len() <= hay.len() - i
        invariant
            pos <= i,
            forall|k: int| pos <= k < i ==> !#[trigger] occurs_at(hay@, needle@, k),
        decreases hay.len() + 1 - i,
    {
        if occurs_at_exec(hay, needle, i) {
            return Some(i);
        }
        proof {
            if needle.len() == 0 {
                assert(hay@.subrange(i as int, i as int) =~= needle@);
            }
        }
        i = i + 1;
    }
    assert forall|k: int| pos <= k implies !#[trigger] occurs_at(hay@, needle@, k) by {
        if k >= i {
            assert(k + needle.len() > hay.len());
        }
    }
    None
}

proof fn lemma_scan_reaches(lower_line: Seq<char>, lower_from: Seq<char>, pos: int)
    requires
        0 <= pos,
    ensures
        pos <= scan_end(lower_line, lower_from, pos),
    decreases lower_line.len() - pos,
{
    if lower_from.len() == 0 || pos >= lower_line.len() || !occurs_from(lower_line, lower_from, pos) {
    } else if occurs_at(lower_line, lower_from, pos) {
        lemma_scan_reaches(lower_line, lower_from, pos + lower_from.len());
    } else {
        lemma_scan_reaches(lower_line, lower_from, pos + 1);
    }
}

/// From `pos`, the scan skips to the first occurrence at `i`.
proof fn lemma_scan_skip(lower_line: Seq<char>, lower_from: Seq<char>, pos: int, i: int)
    requires
        0 <= pos <= i,
        lower_from.len() > 0,
        occurs_at(lower_line, lower_from, i),
        forall|k: int| pos <= k < i ==> !#[trigger] occurs_at(lower_line, lower_from, k),
    ensures
        scan_end(lower_line, lower_from, pos) == scan_end(lower_line, lower_from, i + lower_from.len()),
        i + lower_from.len() <= scan_end(lower_line, lower_from, pos),
    decreases i - pos,
{
    assert(occurs_from(lower_line, lower_from, pos));
    if pos < i {
        lemma_scan_skip(lower_line, lower_from, pos + 1, i);
    }
    lemma_scan_reaches(lower_line, lower_from, i + lower_from.len());
}

/// From `pos`, the replacement copies `line` up to the first occurrence at
/// `i`, then writes `to`.
proof fn lemma_run_skip(
    line: Seq<char>,
    lower_line: Seq<char>,
    lower_from: Seq<char>,
    to: Seq<char>,
    pos: int,
    i: int,
)
    requires
        0 <= pos <= i <= line.len(),
        lower_from.len() > 0,
        occurs_at(lower_line, lower_from, i),
        forall|k: int| pos <= k < i ==> !#[trigger] occurs_at(lower_line, lower_from, k),
    ensures
        replace_run(line, lower_line, lower_from, to, pos) == line.subrange(pos, i) + to
            + replace_run(line, lower_line, lower_from, to, i + lower_from.len()),
    decreases i - pos,
{
    assert(occurs_from(lower_line, lower_from, pos));
    if pos < i {
        lemma_run_skip(line, lower_line, lower_from, to, pos + 1, i);
        assert(seq![line[pos]] + line.subrange(pos + 1, i) =~= line.subrange(pos, i));
        assert(seq![line[pos]] + (line.subrange(pos + 1, i) + to + replace_run(
            line,
            lower_line,
            lower_from,
            to,
            i + lower_from.len(),
        )) =~= line.subrange(pos, i) + to + replace_run(
            line,
            lower_line,
            lower_from,
            to,
            i + lower_from.len(),
        ));
    } else {
        assert(line.subrange(pos, i) =~= Seq::<char>::empty());
        assert(to + replace_run(line, lower_line, lower_from, to, i + lower_from.len())
            =~= line.subrange(pos, i) + to + replace_run(
            line,
            lower_line,
            lower_from,
            to,
            i + lower_from.len(),
        ));
    }
}

/// Where the replacement from position 0 ends (see `scan_end`).
fn scan_end_exec(ll: &Vec<char>, lf: &Vec<char>) -> (e: usize)
    requires
        lf.len() > 0,
    ensures
        e == scan_end(ll@, lf@, 0),
{
    let mut pos: usize = 0;
    loop
        invariant
            lf.len() > 0,
            scan_end(ll@, lf@, pos as int) == scan_end(ll@, lf@, 0),
        decreases ll.len() + 1 - pos,
    {
        match next_occurrence(ll, lf, pos) {
            None => {
                return pos;
            },
            Some(i) => {
                proof {
                    lemma_scan_skip(ll@, lf@, pos as int, i as int);
                }
                pos = i + lf.len();
            },
        }
    }
}

/// Byte offsets in the lowercase forms of `line` and `from` carry over to
/// `line` and `from` as far as the replacement reads them: `from` keeps its
/// UTF-8 length (so skipping an occurrence skips as many bytes in both), and
/// `line` keeps the width of each character up to the end of the last
/// occurrence that is replaced. An empty `from` needs nothing.
pub open spec fn offsets_agree(line: Seq<char>, from: Seq<char>) -> bool {
    let ll = str_lowercase(line);
    let lf = str_lowercase(from);
    from.len() > 0 ==> lf.len() > 0 && utf8_len(lf) == utf8_len(from) && widths_agree_upto(
        line,
        ll,
        scan_end(ll, lf, 0),
    )
}

/// Replaces every occurrence of `from` in `line` by `to`, comparing case
/// insensitively. The byte offsets found in the lowercase forms must carry
/// over to `line` (`offsets_agree`); `replace_no_case_checked` decides that.
pub fn replace_no_case(line: &str, from: &str, to: &str) -> (r: String)
    requires
        offsets_agree(line@, from@),
    ensures
        r@ == replace_no_case_spec(line@, from@, to@),
{
    let fc = chars_of(from);
    let lc = chars_of(line);
    if fc.len() == 0 {
        return string_of(&lc);
    }
    let ll = lowercase(&lc);
    let lf = lowercase(&fc);
    let tc = chars_of(to);
    replace_chars(&lc, &ll, &lf, &tc)
}

fn replace_chars(lc: &Vec<char>, ll: &Vec<char>, lf: &Vec<char>, tc: &Vec<char>) -> (r: String)
    requires
        lf.len() > 0,
        scan_end(ll@, lf@, 0) <= lc.len(),
    ensures
        r@ == replace_run(lc@, ll@, lf@, tc@, 0),
{
    let ghost whole = replace_run(lc@, ll@, lf@, tc@, 0);
    let ghost e = scan_end(ll@, lf@, 0);
    let mut out: Vec<char> = Vec::new();
    let mut pos: usize = 0;
    proof {
        lemma_scan_reaches(ll@, lf@, 0);
    }
    loop
        invariant
            lf.len() > 0,
            e == scan_end(ll@, lf@, 0),
            e <= lc.len(),
            scan_end(ll@, lf@, pos as int) == e,
            pos <= e,
            whole == replace_run(lc@, ll@, lf@, tc@, 0),
            out@ + replace_run(lc@, ll@, lf@, tc@, pos as int) == whole,
        ensures
            !occurs_from(ll@, lf@, pos as int),
        decreases ll.len() + 1 - pos,
    {
        match next_occurrence(ll, lf, pos) {
            None => {
                break;
            },
            Some(i) => {
                proof {
                    lemma_scan_skip(ll@, lf@, pos as int, i as int);
                    lemma_scan_reaches(ll@, lf@, i + lf.len());
                    lemma_run_skip(lc@, ll@, lf@, tc@, pos as int, i as int);
                }
                let ghost before = out@;
                let mut k: usize = pos;
                while k < i
                    invariant
                        pos <= k <= i,
                        i <= lc.len(),
                        out@ == before + lc@.subrange(pos as int, k as int),
                    decreases i - k,
                {
                    out.push(lc[k]);
                    k = k + 1;
                    assert(out@ =~= before + lc@.subrange(pos as int, k as int));
                }
                let ghost mid = out@;
                let mut k: usize = 0;
                while k < tc.len()
                    invariant
                        k <= tc.len(),
                        out@ == mid + tc@.take(k as int),
                    decreases tc.len() - k,
                {
                    out.push(tc[k]);
                    k = k + 1;
                    assert(out@ =~= mid + tc@.take(k as int));
                }
                assert(tc@.take(k as int) =~= tc@);
                assert(before + (lc@.subrange(pos as int, i as int) + tc@ + replace_run(
                    lc@,
                    ll@,
                    lf@,
                    tc@,
                    i + lf.len(),
                )) =~= out@ + replace_run(lc@, ll@, lf@, tc@, i + lf.len()));
                pos = i + lf.len();
            },
        }
    }
    assert(replace_run(lc@, ll@, lf@, tc@, pos as int) == lc@.subrange(pos as int, lc.len() as int));
    let ghost before = out@;
    let mut i: usize = pos;
    while i < lc.len()
        invariant
            pos <= i <= lc.len(),
            out@ == before + lc@.subrange(pos as int, i as int),
        decreases lc.len() - i,
    {
        out.push(lc[i]);
        i = i + 1;
        assert(out@ =~= before + lc@.subrange(pos as int, i as int));
    }
    string_of(&out)
}

/// The lowercase form of `from` stands somewhere in the lowercase form of
/// `line`.
pub open spec fn name_occurs(line: Seq<char>, from: Seq<char>) -> bool {
    exists|i: int| occurs_at(str_lowercase(line), str_lowercase(from), i)
}

/// The replacement, wherever it is well defined: where the offsets carry
/// over, `replace_no_case`; where they do not but the name does not occur
/// at all, the line unchanged; `None` where the name occurs at offsets that
/// do not carry over to the line.
pub open spec fn replace_checked_spec(line: Seq<char>, from: Seq<char>, to: Seq<char>) -> Option<Seq<char>> {
    if offsets_agree(line, from) {
        Some(replace_no_case_spec(line, from, to))
    } else if !name_occurs(line, from) {
        Some(line)
    } else {
        None
    }
}

/// `replace_no_case` where it is well defined (see `replace_checked_spec`).
pub fn replace_no_case_checked(line: &str, from: &str, to: &str) -> (r: Option<String>)
    ensures
        match replace_checked_spec(line@, from@, to@) {
            Some(t) => r matches Some(s) && s@ == t,
            None => r is None,
        },
        all_ascii(line@) && all_ascii(from@) ==> (r matches Some(s) && s@ == replace_no_case_spec(
            line@,
            from@,
            to@,
        )),
{
    let fc = chars_of(from);
    if fc.len() > 0 {
        let lc = chars_of(line);
        let ll = lowercase(&lc);
        let lf = lowercase(&fc);
        proof {
            if all_ascii(line@) && all_ascii(from@) {
                law_ascii_offsets_agree(line@, from@);
            }
        }
        let agree = if lf.len() == 0 {
            false
        } else if utf8_len_exec(&lf) != utf8_len_exec(&fc) {
            false
        } else {
            let e = scan_end_exec(&ll, &lf);
            widths_agree_exec(&lc, &ll, e)
        };
        if !agree {
            match next_occurrence(&ll, &lf, 0) {
                Some(i) => {
                    return None;
                },
                None => {
                    assert forall|i: int| !occurs_at(ll@, lf@, i) by {
                        if 0 <= i {
                            assert(!occurs_at(ll@, lf@, i));
                        }
                    }
                    return Some(string_of(&lc));
                },
            }
        }
    }
    Some(replace_no_case(line, from, to))
}

proof fn lemma_ascii_utf8_len(s: Seq<char>)
    requires
        all_ascii(s),
    ensures
        utf8_len(s) == s.len(),
    decreases s.len(),
{
    if s.len() > 0 {
        assert(is_ascii(s[s.len() - 1]));
        assert(all_ascii(s.drop_last())) by {
            assert forall|i: int| 0 <= i < s.drop_last().len() implies is_ascii(
                #[trigger] s.drop_last()[i],
            ) by {
                assert(is_ascii(s[i]));
            }
        }
        lemma_ascii_utf8_len(s.drop_last());
    }
}

proof fn lemma_lowered_ascii(s: Seq<char>, l: Seq<char>)
    requires
        all_ascii(s),
        ascii_lowered(s, l),
    ensures
        all_ascii(l),
{
    assert forall|i: int| 0 <= i < l.len() implies is_ascii(#[trigger] l[i]) by {
        assert(is_ascii(s[i]));
        if 'A' <= s[i] <= 'Z' {
        }
    }
}

proof fn lemma_scan_end_bound(lower_line: Seq<char>, lower_from: Seq<char>, pos: int)
    requires
        0 <= pos <= lower_line.len(),
    ensures
        scan_end(lower_line, lower_from, pos) <= lower_line.len(),
    decreases lower_line.len() - pos,
{
    if lower_from.len() == 0 || pos >= lower_line.len() || !occurs_from(lower_line, lower_from, pos) {
    } else if occurs_at(lower_line, lower_from, pos) {
        lemma_scan_end_bound(lower_line, lower_from, pos + lower_from.len());
    } else {
        lemma_scan_end_bound(lower_line, lower_from, pos + 1);
    }
}

/// Law: in an all-ASCII line and name, whose lowercase forms are the ASCII
/// lowercasing (as `str::to_lowercase` gives them), every offset carries
/// over, so the replacement is always defined.
pub proof fn law_ascii_offsets_agree(line: Seq<char>, from: Seq<char>)
    requires
        all_ascii(line),
        all_ascii(from),
        ascii_lowered(line, str_lowercase(line)),
        ascii_lowered(from, str_lowercase(from)),
    ensures
        offsets_agree(line, from),
{
    let ll = str_lowercase(line);
    let lf = str_lowercase(from);
    lemma_lowered_ascii(line, ll);
    lemma_lowered_ascii(from, lf);
    lemma_ascii_utf8_len(lf);
    lemma_ascii_utf8_len(from);
    lemma_scan_end_bound(ll, lf, 0);
    lemma_scan_reaches(ll, lf, 0);
    assert forall|i: int| 0 <= i < scan_end(ll, lf, 0) implies utf8_width(#[trigger] ll[i])
        == utf8_width(line[i]) by {
        assert(is_ascii(ll[i]));
        assert(is_ascii(line[i]));
    }
}

/// Law: the replacement writes `to` for the first occurrence of the name
/// (compared in lowercase) and keeps the line before it; from there on it
/// goes on in the same way.
pub proof fn law_first_occurrence_replaced(line: Seq<char>, from: Seq<char>, to: Seq<char>, i: int)
    requires
        from.len() > 0,
        offsets_agree(line, from),
        occurs_at(str_lowercase(line), str_lowercase(from), i),
        forall|k: int| 0 <= k < i ==> !#[trigger] occurs_at(str_lowercase(line), str_lowercase(from), k),
    ensures
        replace_no_case_spec(line, from, to) == line.subrange(0, i) + to + replace_run(
            line,
            str_lowercase(line),
            str_lowercase(from),
            to,
            i + str_lowercase(from).len(),
        ),
{
    let ll = str_lowercase(line);
    let lf = str_lowercase(from);
    lemma_scan_skip(ll, lf, 0, i);
    lemma_run_skip(line, ll, lf, to, 0, i);
}

/// Law: the replacement keeps every character of the line from position
/// `pos` on where the name no longer occurs from there.
pub proof fn law_rest_without_name_is_kept(line: Seq<char>, from: Seq<char>, to: Seq<char>, pos: int)
    requires
        0 <= pos,
        !occurs_from(str_lowercase(line), str_lowercase(from), pos),
    ensures
        replace_run(line, str_lowercase(line), str_lowercase(from), to, pos) == line.subrange(
            pos,
            line.len() as int,
        ),
{
}

/// Law: a line in which the model name does not occur (in any case) is
/// kept as it is.
pub proof fn law_line_without_name_is_kept(line: Seq<char>, from: Seq<char>, to: Seq<char>)
    requires
        forall|i: int| !occurs_at(str_lowercase(line), str_lowercase(from), i),
    ensures
        replace_no_case_spec(line, from, to) == line,
{
    if from.len() > 0 {
        assert(!occurs_from(str_lowercase(line), str_lowercase(from), 0));
        assert(line.subrange(0, line.len() as int) =~= line);
    }
}

} // verus!
