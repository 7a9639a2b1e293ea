//! Character-level text utilities shared by the parsers: Unicode white space,
//! trimming, decimal numbers, and conversions between `str` and `Vec<char>`.

use vstd::prelude::*;

verus! {

/// The Unicode `White_Space` property, as `char::is_whitespace` documents it.
pub open spec fn is_white(c: char) -> bool {
    let u = c as u32;
    ||| (0x9 <= u && u <= 0xD)
    ||| u == 0x20
    ||| u == 0x85
    ||| u == 0xA0
    ||| u == 0x1680
    ||| (0x2000 <= u && u <= 0x200A)
    ||| u == 0x2028
    ||| u == 0x2029
    ||| u == 0x202F
    ||| u == 0x205F
    ||| u == 0x3000
}

/// Decides `is_white` for one character.
pub fn is_white_char(c: char) -> (b: bool)
    ensures
        b == is_white(c),
{
    let u = c as u32;
    (0x9 <= u && u <= 0xD) || u == 0x20 || u == 0x85 || u == 0xA0 || u == 0x1680 || (0x2000 <= u
        && u <= 0x200A) || u == 0x2028 || u == 0x2029 || u == 0x202F || u == 0x205F || u == 0x3000
}


/// Drops leading white space.
pub open spec fn trim_start(s: Seq<char>) -> Seq<char>
    decreases s.len(),
{
    if s.len() > 0 && is_white(s[0]) {
        trim_start(s.drop_first())
    } else {
        s
    }
}

/// Drops trailing white space.
pub open spec fn trim_end(s: Seq<char>) -> Seq<char>
    decreases s.len(),
{
    if s.len() > 0 && is_white(s.last()) {
        trim_end(s.drop_last())
    } else {
        s
    }
}

/// `str::trim`: drops white space at both ends.
pub open spec fn trim(s: Seq<char>) -> Seq<char> {
    trim_end(trim_start(s))
}

/// Copies `s[lo..hi]` into a new vector.
pub fn sub_chars(s: &Vec<char>, lo: usize, hi: usize) -> (r: Vec<char>)
    requires
        lo <= hi <= s.len(),
    ensures
        r@ == s@.subrange(lo as int, hi as int),
{
    let mut r: Vec<char> = Vec::new();
    let mut i: usize = lo;
    while i < hi
        invariant
            lo <= i <= hi <= s.len(),
            r@ == s@.subrange(lo as int, i as int),
        decreases hi - i,
    {
        r.push(s[i]);
        i = i + 1;
        assert(r@ =~= s@.subrange(lo as int, i as int));
    }
    r
}

/// The bounds of `trim(s[lo..hi])` inside `s`.
pub fn trim_bounds(s: &Vec<char>, lo: usize, hi: usize) -> (r: (usize, usize))
    requires
        lo <= hi <= s.len(),
    ensures
        lo <= r.0 <= r.1 <= hi,
        s@.subrange(r.0 as int, r.1 as int) == trim(s@.subrange(lo as int, hi as int)),
{
    let mut a: usize = lo;
    while a < hi && is_white_char(s[a])
        invariant
            lo <= a <= hi <= s.len(),
            trim_start(s@.subrange(lo as int, hi as int)) == trim_start(
                s@.subrange(a as int, hi as int),
            ),
        decreases hi - a,
    {
        assert(s@.subrange(a as int, hi as int).drop_first() =~= s@.subrange(
            a + 1,
            hi as int,
        ));
        a = a + 1;
    }
    assert(trim_start(s@.subrange(a as int, hi as int)) == s@.subrange(a as int, hi as int));
    let mut b: usize = hi;
    while b > a && is_white_char(s[b - 1])
        invariant
            lo <= a <= b <= hi <= s.len(),
            trim(s@.subrange(lo as int, hi as int)) == trim_end(s@.subrange(a as int, b as int)),
        decreases b - a,
    {
        assert(s@.subrange(a as int, b as int).drop_last() =~= s@.subrange(
            a as int,
            b - 1,
        ));
        b = b - 1;
    }
    assert(trim_end(s@.subrange(a as int, b as int)) == s@.subrange(a as int, b as int));
    (a, b)
}

/// `s[lo..hi].trim()` as a new vector.
pub fn trim_chars(s: &Vec<char>, lo: usize, hi: usize) -> (r: Vec<char>)
    requires
        lo <= hi <= s.len(),
    ensures
        r@ == trim(s@.subrange(lo as int, hi as int)),
{
    let (a, b) = trim_bounds(s, lo, hi);
    sub_chars(s, a, b)
}

/// The characters of a string slice.
pub fn chars_of(s: &str) -> (v: Vec<char>)
    ensures
        v@ == s@,
{
    let mut v: Vec<char> = Vec::new();
    for c in it: s.chars()
        invariant
            v@ == it.seq().take(it.index() as int),
    {
        v.push(c);
    }
    v
}

/// Calls `<String as FromIterator<&char>>::from_iter`; claims that the
/// string holds exactly the given characters, in order.
#[verifier::external_body]
pub(crate) fn string_of(v: &Vec<char>) -> (s: String)
    ensures
        s@ == v@,
{
    v.iter().collect()
}


/// What `str::to_lowercase` returns for a string with the given characters.
pub uninterp spec fn str_lowercase(s: Seq<char>) -> Seq<char>;

/// `c` is an ASCII character.
pub open spec fn is_ascii(c: char) -> bool {
    (c as u32) < 128
}

/// Every character of `s` is ASCII.
pub open spec fn all_ascii(s: Seq<char>) -> bool {
    forall|i: int| 0 <= i < s.len() ==> is_ascii(#[trigger] s[i])
}

/// `l` is `s` with the ASCII letters `A` to `Z` made `a` to `z` and every
/// other character kept.
pub open spec fn ascii_lowered(s: Seq<char>, l: Seq<char>) -> bool {
    &&& l.len() == s.len()
    &&& forall|i: int|
        0 <= i < s.len() ==> if 'A' <= #[trigger] s[i] <= 'Z' {
            l[i] as u32 == s[i] as u32 + 32
        } else {
            l[i] == s[i]
        }
}

/// Calls `str::to_lowercase` on the string of the given characters (the
/// Unicode lowercase mapping of the whole string). Claims that the
/// characters of the result are `str_lowercase` of the input's characters,
/// a function of them alone, and that an all-ASCII string is lowercased
/// character for character, `A` to `Z` becoming `a` to `z` (their Unicode
/// lowercase mapping) and all other ASCII characters kept; and, as each
/// character lowercases to one or more characters, that the result is at
/// least as long as the input. Nothing more is said of the mapping (not,
/// for one, that lowercasing twice changes nothing).
#[verifier::external_body]
pub(crate) fn lowercase(s: &Vec<char>) -> (r: Vec<char>)
    ensures
        r@ == str_lowercase(s@),
        all_ascii(s@) ==> ascii_lowered(s@, r@),
        r@.len() >= s@.len(),
{
    let text: String = s.iter().collect();
    text.to_lowercase().chars().collect()
}

/// The character of a decimal digit.
pub open spec fn digit_char(d: int) -> char {
    if d == 0 {
        '0'
    } else if d == 1 {
        '1'
    } else if d == 2 {
        '2'
    } else if d == 3 {
        '3'
    } else if d == 4 {
        '4'
    } else if d == 5 {
        '5'
    } else if d == 6 {
        '6'
    } else if d == 7 {
        '7'
    } else if d == 8 {
        '8'
    } else {
        '9'
    }
}

/// The value of a decimal digit character, if it is one.
pub open spec fn digit_value(c: char) -> Option<nat> {
    if '0' <= c && c <= '9' {
        Some((c as u32 - '0' as u32) as nat)
    } else {
        None
    }
}

/// The decimal notation of `n`, as `format!("{}", n)` prints it.
pub open spec fn decimal(n: nat) -> Seq<char>
    decreases n,
{
    if n < 10 {
        seq![digit_char(n as int)]
    } else {
        decimal(n / 10).push(digit_char((n % 10) as int))
    }
}

fn digit_of(d: usize) -> (c: char)
    requires
        d < 10,
    ensures
        c == digit_char(d as int),
{
    if d == 0 {
        '0'
    } else if d == 1 {
        '1'
    } else if d == 2 {
        '2'
    } else if d == 3 {
        '3'
    } else if d == 4 {
        '4'
    } else if d == 5 {
        '5'
    } else if d == 6 {
        '6'
    } else if d == 7 {
        '7'
    } else if d == 8 {
        '8'
    } else {
        '9'
    }
}

/// The decimal notation of `n`.
pub fn decimal_chars(n: usize) -> (r: Vec<char>)
    ensures
        r@ == decimal(n as nat),
    decreases n,
{
    if n < 10 {
        let mut r: Vec<char> = Vec::new();
        r.push(digit_of(n));
        assert(r@ =~= seq![digit_char(n as int)]);
        r
    } else {
        let mut r = decimal_chars(n / 10);
        r.push(digit_of(n % 10));
        r
    }
}

/// The value of a nonempty run of decimal digits, or `None` if some
/// character is not a digit.
pub open spec fn digits_value(d: Seq<char>) -> Option<nat>
    decreases d.len(),
{
    if d.len() == 0 {
        Some(0)
    } else {
        match (digits_value(d.drop_last()), digit_value(d.last())) {
            (Some(v), Some(x)) => Some(v * 10 + x),
            _ => None,
        }
    }
}

/// What `<usize as FromStr>::from_str` accepts: an optional `+`, then at least
/// one ASCII digit, with a value that fits in `usize`.
pub open spec fn parse_usize(s: Seq<char>) -> Option<nat> {
    let d = if s.len() > 0 && s[0] == '+' {
        s.drop_first()
    } else {
        s
    };
    if d.len() == 0 {
        None
    } else {
        match digits_value(d) {
            Some(v) => if v <= usize::MAX {
                Some(v)
            } else {
                None
            },
            None => None,
        }
    }
}

proof fn lemma_digits_value_prefix(d: Seq<char>, i: int)
    requires
        0 <= i <= d.len(),
        digits_value(d) is Some,
    ensures
        digits_value(d.take(i)) is Some,
        digits_value(d.take(i))->0 <= digits_value(d)->0,
    decreases d.len() - i,
{
    if i < d.len() {
        assert(d.drop_last().take(i) =~= d.take(i)) by {
        }
        if d.len() > 0 {
            lemma_digits_value_prefix(d.drop_last(), i);
        }
    } else {
        assert(d.take(i) =~= d);
    }
}

/// Parses a decimal `usize` as `str::parse::<usize>` does; `None` where that
/// returns an error.
pub fn parse_usize_chars(s: &Vec<char>) -> (r: Option<usize>)
    ensures
        r matches Some(v) ==> parse_usize(s@) == Some(v as nat),
        r is None ==> parse_usize(s@) is None,
{
    let start: usize = if s.len() > 0 && s[0] == '+' {
        1
    } else {
        0
    };
    let ghost d = if s@.len() > 0 && s@[0] == '+' {
        s@.drop_first()
    } else {
        s@
    };
    assert(d =~= s@.subrange(start as int, s@.len() as int));
    if start == s.len() {
        return None;
    }
    let mut v: usize = 0;
    let mut i: usize = start;
    while i < s.len()
        invariant
            start <= i <= s.len(),
            d =~= s@.subrange(start as int, s@.len() as int),
            d == (if s@.len() > 0 && s@[0] == '+' {
                s@.drop_first()
            } else {
                s@
            }),
            d.len() > 0,
            digits_value(d.take(i - start)) == Some(v as nat),
        decreases s.len() - i,
    {
        let c = s[i];
        assert(d.take(i - start + 1).drop_last() =~= d.take(i - start));
        assert(d.take(i - start + 1).last() == c);
        if !('0' <= c && c <= '9') {
            proof {
                assert(digit_value(c) is None);
                assert(digits_value(d.take(i - start + 1)) is None);
                if digits_value(d) is Some {
                    lemma_digits_value_prefix(d, i - start + 1);
                }
                assert(digits_value(d) is None);
                assert(parse_usize(s@) is None);
            }
            return None;
        }
        let x: usize = (c as u32 - '0' as u32) as usize;
        let ghost whole = v as nat * 10 + x as nat;
        if v > (usize::MAX - x) / 10 {
            proof {
                assert(whole > usize::MAX) by (nonlinear_arith)
                    requires
                        v > (usize::MAX - x) / 10,
                        whole == v * 10 + x,
                        x < 10,
                ;
                assert(digits_value(d.take(i - start + 1)) == Some(whole));
                if digits_value(d) is Some {
                    lemma_digits_value_prefix(d, i - start + 1);
                }
                assert(parse_usize(s@) is None);
            }
            return None;
        }
        assert(v * 10 + x <= usize::MAX) by (nonlinear_arith)
            requires
                v <= (usize::MAX - x) / 10,
                x < 10,
        ;
        v = v * 10 + x;
        i = i + 1;
    }
    assert(d.take(i - start) =~= d);
    Some(v)
}


/// The character sequences held by a vector of character vectors.
pub open spec fn views(v: Seq<Vec<char>>) -> Seq<Seq<char>> {
    v.map_values(|x: Vec<char>| x@)
}

/// A line without its final carriage return, if it has one.
pub open spec fn strip_cr(l: Seq<char>) -> Seq<char> {
    if l.len() > 0 && l.last() == '\r' {
        l.drop_last()
    } else {
        l
    }
}

/// `str::lines` from a line that starts at `a`, scanning at `b`: lines end at
/// `\n`, a `\r` just before that `\n` is dropped, and a final line without
/// `\n` is kept as it is (no empty line after a final `\n`).
pub open spec fn lines_from(s: Seq<char>, a: int, b: int) -> Seq<Seq<char>>
    decreases s.len() - b,
{
    if b >= s.len() {
        if a < s.len() {
            seq![s.subrange(a, s.len() as int)]
        } else {
            seq![]
        }
    } else if s[b] == '\n' {
        seq![strip_cr(s.subrange(a, b))] + lines_from(s, b + 1, b + 1)
    } else {
        lines_from(s, a, b + 1)
    }
}

/// `str::lines`.
pub open spec fn lines_of(s: Seq<char>) -> Seq<Seq<char>> {
    lines_from(s, 0, 0)
}

/// Splits a text into lines as `str::lines` does.
pub fn split_lines(s: &Vec<char>) -> (r: Vec<Vec<char>>)
    ensures
        views(r@) == lines_of(s@),
{
    let mut r: Vec<Vec<char>> = Vec::new();
    let mut a: usize = 0;
    let mut b: usize = 0;
    while b < s.len()
        invariant
            a <= b <= s.len(),
            views(r@) + lines_from(s@, a as int, b as int) == lines_of(s@),
        decreases s.len() - b,
    {
        if s[b] == '\n' {
            let end: usize = if b > a && s[b - 1] == '\r' {
                b - 1
            } else {
                b
            };
            let line = sub_chars(s, a, end);
            assert(line@ == strip_cr(s@.subrange(a as int, b as int))) by {
                if b > a && s@[b - 1] == '\r' {
                    assert(s@.subrange(a as int, b as int).drop_last() =~= s@.subrange(
                        a as int,
                        b - 1,
                    ));
                }
            }
            let ghost before = r@;
            r.push(line);
            assert(views(r@) =~= views(before).push(line@));
            assert(views(r@) + lines_from(s@, b + 1, b + 1) =~= views(before) + (seq![
                strip_cr(s@.subrange(a as int, b as int)),
            ] + lines_from(s@, b + 1, b + 1)));
            a = b + 1;
        }
        b = b + 1;
    }
    if a < s.len() {
        let line = sub_chars(s, a, s.len());
        let ghost before = r@;
        r.push(line);
        assert(views(r@) =~= views(before).push(line@));
    }
    assert(views(r@) =~= lines_of(s@));
    r
}


/// The first position at or after `i` that holds `c`.
pub open spec fn index_from(s: Seq<char>, c: char, i: int) -> Option<int>
    decreases s.len() - i,
{
    if i < 0 || i >= s.len() {
        None
    } else if s[i] == c {
        Some(i)
    } else {
        index_from(s, c, i + 1)
    }
}

/// `str::find` for a single character.
pub open spec fn first_index(s: Seq<char>, c: char) -> Option<int> {
    index_from(s, c, 0)
}

/// Finds the first position of `c` in `s`.
pub fn find_char(s: &Vec<char>, c: char) -> (r: Option<usize>)
    ensures
        r matches Some(k) ==> first_index(s@, c) == Some(k as int) && k < s.len() && s@[k as int]
            == c,
        r is None ==> first_index(s@, c) is None,
{
    let mut i: usize = 0;
    while i < s.len()
        invariant
            i <= s.len(),
            first_index(s@, c) == index_from(s@, c, i as int),
        decreases s.len() - i,
    {
        if s[i] == c {
            return Some(i);
        }
        i = i + 1;
    }
    None
}

/// Appends the characters of `s`.
pub fn push_all(out: &mut Vec<char>, s: &Vec<char>)
    ensures
        final(out)@ == old(out)@ + s@,
{
    let ghost before = out@;
    let mut i: usize = 0;
    while i < s.len()
        invariant
            i <= s.len(),
            out@ == before + s@.take(i as int),
        decreases s.len() - i,
    {
        out.push(s[i]);
        i = i + 1;
        assert(out@ =~= before + s@.take(i as int));
    }
    assert(s@.take(i as int) =~= s@);
}

/// Appends the characters of a string slice.
pub fn push_str(out: &mut Vec<char>, s: &str)
    ensures
        final(out)@ == old(out)@ + s@,
{
    let c = chars_of(s);
    push_all(out, &c);
}

/// Whether two character vectors are equal.
pub fn chars_eq(a: &Vec<char>, b: &Vec<char>) -> (r: bool)
    ensures
        r == (a@ == b@),
{
    if a.len() != b.len() {
        return false;
    }
    let mut i: usize = 0;
    while i < a.len()
        invariant
            a.len() == b.len(),
            i <= a.len(),
            forall|k: int| 0 <= k < i ==> a@[k] == b@[k],
        decreases a.len() - i,
    {
        if a[i] != b[i] {
            return false;
        }
        i = i + 1;
    }
    assert(a@ =~= b@);
    true
}

/// A copy of a character vector.
pub fn copy_chars(a: &Vec<char>) -> (r: Vec<char>)
    ensures
        r@ == a@,
{
    let mut r: Vec<char> = Vec::new();
    push_all(&mut r, a);
    assert(r@ =~= a@);
    r
}


/// `str::split_whitespace` from a word that starts at `a`, scanning at `b`.
pub open spec fn words_from(s: Seq<char>, a: int, b: int) -> Seq<Seq<char>>
    decreases s.len() - b,
{
    if b >= s.len() {
        if a < b {
            seq![s.subrange(a, b)]
        } else {
            seq![]
        }
    } else if is_white(s[b]) {
        (if a < b {
            seq![s.subrange(a, b)]
        } else {
            seq![]
        }) + words_from(s, b + 1, b + 1)
    } else {
        words_from(s, a, b + 1)
    }
}

/// `str::split_whitespace`: the maximal runs of non-white characters.
pub open spec fn words(s: Seq<char>) -> Seq<Seq<char>> {
    words_from(s, 0, 0)
}

/// Splits at white space as `str::split_whitespace` does.
pub fn split_words(s: &Vec<char>) -> (r: Vec<Vec<char>>)
    ensures
        views(r@) == words(s@),
{
    let mut r: Vec<Vec<char>> = Vec::new();
    let mut a: usize = 0;
    let mut b: usize = 0;
    assert(views(r@) =~= seq![]);
    while b < s.len()
        invariant
            a <= b <= s.len(),
            views(r@) + words_from(s@, a as int, b as int) == words(s@),
        decreases s.len() - b,
    {
        if is_white_char(s[b]) {
            let ghost before = views(r@);
            if a < b {
                let w = sub_chars(s, a, b);
                r.push(w);
                assert(views(r@) =~= before.push(w@));
                assert(views(r@) + words_from(s@, b + 1, b + 1) =~= before + (seq![
                    s@.subrange(a as int, b as int),
                ] + words_from(s@, b + 1, b + 1)));
            } else {
                assert(seq![] + words_from(s@, b + 1, b + 1) =~= words_from(s@, b + 1, b + 1));
            }
            a = b + 1;
        }
        b = b + 1;
    }
    if a < b {
        let w = sub_chars(s, a, b);
        let ghost before = views(r@);
        r.push(w);
        assert(views(r@) =~= before.push(w@));
    }
    assert(views(r@) =~= words(s@));
    r
}

/// The words `ws[i..]` joined by single spaces (`[&str]::join(" ")`).
pub open spec fn join_from(ws: Seq<Seq<char>>, i: int) -> Seq<char>
    decreases ws.len() - i,
{
    if i < 0 || i >= ws.len() {
        seq![]
    } else if i == ws.len() - 1 {
        ws[i]
    } else {
        ws[i] + seq![' '] + join_from(ws, i + 1)
    }
}

/// Joins `ws[from..]` with single spaces.
pub fn join_words(ws: &Vec<Vec<char>>, from: usize) -> (r: Vec<char>)
    ensures
        r@ == join_from(views(ws@), from as int),
{
    let ghost v = views(ws@);
    let mut out: Vec<char> = Vec::new();
    let mut i: usize = from;
    if i >= ws.len() {
        return out;
    }
    assert(out@ + join_from(v, i as int) =~= join_from(v, from as int));
    while i < ws.len()
        invariant
            v == views(ws@),
            from <= i <= ws.len(),
            out@ + join_from(v, i as int) == join_from(v, from as int),
        decreases ws.len() - i,
    {
        assert(v[i as int] == ws@[i as int]@);
        let ghost before = out@;
        push_all(&mut out, &ws[i]);
        if i + 1 < ws.len() {
            out.push(' ');
            assert(before + join_from(v, i as int) =~= out@ + join_from(v, i + 1));
        } else {
            assert(before + join_from(v, i as int) =~= out@ + join_from(v, i + 1));
        }
        i = i + 1;
    }
    assert(out@ + join_from(v, i as int) =~= out@);
    out
}


/// The number of white characters in front of `s`: `trim_start(s)` is
/// what follows them.
pub fn leading_white(s: &Vec<char>) -> (a: usize)
    ensures
        a <= s.len(),
        trim_start(s@) == s@.skip(a as int),
{
    let mut a: usize = 0;
    assert(s@.skip(0) =~= s@);
    while a < s.len() && is_white_char(s[a])
        invariant
            a <= s.len(),
            trim_start(s@) == trim_start(s@.skip(a as int)),
        decreases s.len() - a,
    {
        assert(s@.skip(a as int).drop_first() =~= s@.skip(a + 1));
        a = a + 1;
    }
    a
}

} // verus!
