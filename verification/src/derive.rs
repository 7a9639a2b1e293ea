//! Deriving the `match=` and `substitute=` lines of a rule from the names of
//! a source model and a target model, in the wildcard style of the standard
//! rule file (`pm??_chest???` and `??a*`).

use vstd::prelude::*;
use crate::names::{glob_at, glob_matches, is_forbidden, subst_run, substitute};
use crate::text::{chars_of, lowercase, str_lowercase, string_of};

verus! {

/// The name has the shape of an armour part of the standard rule file: `p`,
/// the gender `m` or `f`, two characters (race and phenotype), then `_`.
pub open spec fn standard_part_name(s: Seq<char>) -> bool {
    &&& s.len() >= 5
    &&& s[0] == 'p'
    &&& (s[1] == 'm' || s[1] == 'f')
    &&& s[4] == '_'
}

/// `c` is an ASCII decimal digit.
pub open spec fn is_digit(c: char) -> bool {
    '0' <= c <= '9'
}

/// The number of decimal digits at the end of `s`.
pub open spec fn trailing_digits(s: Seq<char>) -> nat
    decreases s.len(),
{
    if s.len() > 0 && is_digit(s.last()) {
        trailing_digits(s.drop_last()) + 1
    } else {
        0
    }
}

/// Position `i` of the source name becomes `?` in the derived `match=`
/// pattern: the race and phenotype of a standard part name, and every
/// digit of the trailing number.
pub open spec fn wild_at(s: Seq<char>, i: int) -> bool {
    (standard_part_name(s) && (i == 2 || i == 3)) || i >= s.len() - trailing_digits(s)
}

/// The derived `match=` pattern of the source name `s`.
pub open spec fn match_pattern(s: Seq<char>) -> Seq<char> {
    Seq::new(s.len(), |i: int| if wild_at(s, i) { '?' } else { s[i] })
}

/// One past the last position at which `s` and `t` differ among the first
/// `n` (0 where they agree on all of them).
pub open spec fn diff_end(s: Seq<char>, t: Seq<char>, n: int) -> int
    decreases n,
{
    if n <= 0 {
        0
    } else if s[n - 1] != t[n - 1] {
        n
    } else {
        diff_end(s, t, n - 1)
    }
}

/// The length of the longest common prefix of `s` and `t` from position `k`.
pub open spec fn common_from(s: Seq<char>, t: Seq<char>, k: int) -> int
    decreases s.len() - k,
{
    if 0 <= k < s.len() && k < t.len() && s[k] == t[k] {
        common_from(s, t, k + 1)
    } else {
        k
    }
}

/// The derived `substitute=` pattern from the source name `s` to the target
/// name `t`. Names of one length: `?` where they agree and the target's
/// character where they differ, up to the last difference, then `*` for the
/// common rest (`*` alone for equal names). Names of different lengths: `?`
/// for the common prefix, then the rest of the target.
pub open spec fn subst_pattern(s: Seq<char>, t: Seq<char>) -> Seq<char> {
    if s.len() == t.len() {
        let d = diff_end(s, t, s.len() as int);
        let body = Seq::new(d as nat, |i: int| if s[i] == t[i] { '?' } else { t[i] });
        if d < s.len() {
            body.push('*')
        } else {
            body
        }
    } else {
        let p = common_from(s, t, 0);
        Seq::new(p as nat, |i: int| '?') + t.subrange(p, t.len() as int)
    }
}

/// `c` stands for itself in a `substitute=` pattern.
pub open spec fn literal_char(c: char) -> bool {
    c != '?' && c != '*' && !is_forbidden(c)
}

proof fn lemma_same_length_glob(p: Seq<char>, s: Seq<char>, i: int)
    requires
        p.len() == s.len(),
        0 <= i <= s.len(),
        forall|k: int| i <= k < s.len() ==> p[k] == '?' || #[trigger] p[k] == s[k],
    ensures
        glob_at(p, s, i, i),
    decreases s.len() - i,
{
    if i < s.len() {
        lemma_same_length_glob(p, s, i + 1);
        if p[i] == '*' {
            assert(glob_at(p, s, i, i + 1));
        }
    }
}

/// Law: the derived `match=` pattern matches the source name it came from.
pub proof fn law_match_pattern_matches_source(s: Seq<char>)
    ensures
        glob_matches(match_pattern(s), s),
{
    assert forall|k: int| 0 <= k < s.len() implies match_pattern(s)[k] == '?' || #[trigger] match_pattern(s)[k] == s[k] by {}
    lemma_same_length_glob(match_pattern(s), s, 0);
}

/// `out` after the first `k` pattern characters have written `t.take(k)`
/// over `old`.
pub open spec fn written(old: Seq<char>, t: Seq<char>, k: int) -> Seq<char> {
    if k < old.len() {
        t.take(k) + old.subrange(k, old.len() as int)
    } else {
        t.take(k)
    }
}

/// Pattern character `c` at position `i` writes `t[i]` over `old`: a `?`
/// over a character that already is `t[i]`, or `t[i]` itself.
pub open spec fn writes_target(old: Seq<char>, t: Seq<char>, c: char, i: int) -> bool {
    (c == '?' && i < old.len() && old[i] == t[i]) || (c == t[i] && literal_char(t[i]))
}

proof fn lemma_write_run(old: Seq<char>, t: Seq<char>, q: Seq<char>)
    requires
        q.len() <= t.len(),
        forall|i: int| 0 <= i < q.len() ==> writes_target(old, t, #[trigger] q[i], i),
    ensures
        subst_run(old, q) == (written(old, t, q.len() as int), q.len()),
    decreases q.len(),
{
    let k = q.len() as int;
    if k == 0 {
        assert(t.take(0) + old.subrange(0, old.len() as int) =~= old);
        if old.len() == 0 {
            assert(t.take(0) =~= old);
        }
    } else {
        let pq = q.drop_last();
        assert forall|i: int| 0 <= i < pq.len() implies writes_target(old, t, #[trigger] pq[i], i) by {
            assert(pq[i] == q[i]);
            assert(writes_target(old, t, q[i], i));
        }
        lemma_write_run(old, t, pq);
        let prev = written(old, t, k - 1);
        let c = q[k - 1];
        assert(q.last() == c);
        assert(writes_target(old, t, q[k - 1], k - 1));
        if c == '?' {
            assert(written(old, t, k) =~= prev);
        } else if k - 1 < old.len() {
            assert(prev.update(k - 1, c) =~= written(old, t, k));
        } else {
            assert(prev.push(c) =~= written(old, t, k));
        }
    }
}

proof fn lemma_diff_end(s: Seq<char>, t: Seq<char>, n: int)
    requires
        0 <= n <= s.len(),
        n <= t.len(),
    ensures
        0 <= diff_end(s, t, n) <= n,
        forall|i: int| diff_end(s, t, n) <= i < n ==> #[trigger] s[i] == t[i],
    decreases n,
{
    if n > 0 && s[n - 1] == t[n - 1] {
        lemma_diff_end(s, t, n - 1);
    }
}

proof fn lemma_common_from(s: Seq<char>, t: Seq<char>, k: int)
    requires
        0 <= k <= s.len(),
        k <= t.len(),
    ensures
        k <= common_from(s, t, k) <= s.len(),
        common_from(s, t, k) <= t.len(),
        forall|i: int| k <= i < common_from(s, t, k) ==> #[trigger] s[i] == t[i],
    decreases s.len() - k,
{
    if k < s.len() && k < t.len() && s[k] == t[k] {
        lemma_common_from(s, t, k + 1);
    }
}

/// Law: where every character of the target name stands for itself in a
/// pattern, the derived `substitute=` pattern turns the source name into the
/// target name.
pub proof fn law_subst_pattern_gives_target(s: Seq<char>, t: Seq<char>)
    requires
        forall|i: int| 0 <= i < t.len() ==> literal_char(#[trigger] t[i]),
    ensures
        substitute(s, subst_pattern(s, t)) == t,
{
    let q = subst_pattern(s, t);
    if s.len() == t.len() {
        let d = diff_end(s, t, s.len() as int);
        lemma_diff_end(s, t, s.len() as int);
        let body = Seq::new(d as nat, |i: int| if s[i] == t[i] { '?' } else { t[i] });
        assert forall|i: int| 0 <= i < body.len() implies writes_target(s, t, #[trigger] body[i], i) by {
            assert(literal_char(t[i]));
        }
        lemma_write_run(s, t, body);
        if d < s.len() {
            assert(q.drop_last() =~= body);
            assert(q.last() == '*');
            assert(written(s, t, d) =~= t);
        } else {
            assert(written(s, t, d) =~= t);
        }
    } else {
        let p = common_from(s, t, 0);
        lemma_common_from(s, t, 0);
        assert forall|i: int| 0 <= i < q.len() implies writes_target(s, t, #[trigger] q[i], i) by {
            if i >= p {
                assert(literal_char(t[i]));
            }
        }
        lemma_write_run(s, t, q);
        assert(written(s, t, t.len() as int).take(t.len() as int) =~= t);
        assert(t.take(t.len() as int) =~= t);
    }
}

fn is_digit_exec(c: char) -> (b: bool)
    ensures
        b == is_digit(c),
{
    '0' <= c && c <= '9'
}

/// The derived `match=` pattern of a lowercase source name.
fn match_pattern_exec(s: &Vec<char>) -> (r: Vec<char>)
    ensures
        r@ == match_pattern(s@),
{
    let standard = s.len() >= 5 && s[0] == 'p' && (s[1] == 'm' || s[1] == 'f') && s[4] == '_';
    let mut first_digit: usize = s.len();
    assert(s@.take(s.len() as int) =~= s@);
    while first_digit > 0 && is_digit_exec(s[first_digit - 1])
        invariant
            first_digit <= s.len(),
            trailing_digits(s@) == (s.len() - first_digit) + trailing_digits(
                s@.take(first_digit as int),
            ),
        decreases first_digit,
    {
        assert(s@.take(first_digit as int).drop_last() =~= s@.take(first_digit - 1));
        assert(s@.take(first_digit as int).last() == s@[first_digit - 1]);
        first_digit = first_digit - 1;
    }
    proof {
        if first_digit > 0 {
            assert(s@.take(first_digit as int).last() == s@[first_digit - 1]);
        }
    }
    let mut r: Vec<char> = Vec::new();
    let mut i: usize = 0;
    while i < s.len()
        invariant
            i <= s.len(),
            first_digit == s.len() - trailing_digits(s@),
            standard == standard_part_name(s@),
            r@ =~= match_pattern(s@).take(i as int),
        decreases s.len() - i,
    {
        if (standard && (i == 2 || i == 3)) || i >= first_digit {
            r.push('?');
        } else {
            r.push(s[i]);
        }
        i = i + 1;
        assert(r@ =~= match_pattern(s@).take(i as int));
    }
    r
}

/// The derived `substitute=` pattern between two lowercase names.
fn subst_pattern_exec(s: &Vec<char>, t: &Vec<char>) -> (r: Vec<char>)
    ensures
        r@ == subst_pattern(s@, t@),
{
    let mut r: Vec<char> = Vec::new();
    if s.len() == t.len() {
        let mut d: usize = s.len();
        while d > 0 && s[d - 1] == t[d - 1]
            invariant
                d <= s.len(),
                s.len() == t.len(),
                diff_end(s@, t@, s.len() as int) == diff_end(s@, t@, d as int),
            decreases d,
        {
            d = d - 1;
        }
        let ghost body = Seq::new(d as nat, |i: int| if s@[i] == t@[i] { '?' } else { t@[i] });
        let mut i: usize = 0;
        while i < d
            invariant
                i <= d <= s.len(),
                s.len() == t.len(),
                body == Seq::new(d as nat, |i: int| if s@[i] == t@[i] { '?' } else { t@[i] }),
                r@ =~= body.take(i as int),
            decreases d - i,
        {
            if s[i] == t[i] {
                r.push('?');
            } else {
                r.push(t[i]);
            }
            i = i + 1;
            assert(r@ =~= body.take(i as int));
        }
        assert(body.take(d as int) =~= body);
        if d < s.len() {
            r.push('*');
        }
    } else {
        let mut p: usize = 0;
        while p < s.len() && p < t.len() && s[p] == t[p]
            invariant
                p <= s.len(),
                p <= t.len(),
                common_from(s@, t@, 0) == common_from(s@, t@, p as int),
            decreases s.len() - p,
        {
            p = p + 1;
        }
        let mut i: usize = 0;
        while i < p
            invariant
                i <= p,
                r@ =~= Seq::new(i as nat, |k: int| '?'),
            decreases p - i,
        {
            r.push('?');
            i = i + 1;
            assert(r@ =~= Seq::new(i as nat, |k: int| '?'));
        }
        let ghost head = r@;
        let mut k: usize = p;
        while k < t.len()
            invariant
                p <= k <= t.len(),
                r@ =~= head + t@.subrange(p as int, k as int),
            decreases t.len() - k,
        {
            r.push(t[k]);
            k = k + 1;
            assert(r@ =~= head + t@.subrange(p as int, k as int));
        }
    }
    r
}

/// The `match=` and `substitute=` patterns derived from two names that are
/// already lowercase: the match pattern matches `source`, and where every
/// character of `target` stands for itself, the substitute pattern turns
/// `source` into `target`.
pub fn derive_rule_lower(source: &Vec<char>, target: &Vec<char>) -> (r: (Vec<char>, Vec<char>))
    ensures
        r.0@ == match_pattern(source@),
        r.1@ == subst_pattern(source@, target@),
        glob_matches(r.0@, source@),
        (forall|i: int| 0 <= i < target@.len() ==> literal_char(#[trigger] target@[i]))
            ==> substitute(source@, r.1@) == target@,
{
    proof {
        law_match_pattern_matches_source(source@);
        if forall|i: int| 0 <= i < target@.len() ==> literal_char(#[trigger] target@[i]) {
            law_subst_pattern_gives_target(source@, target@);
        }
    }
    (match_pattern_exec(source), subst_pattern_exec(source, target))
}

/// The `match=` and `substitute=` lines for turning the model named `source`
/// into the model named `target`, both compared in lowercase like every
/// model name: the patterns of `derive_rule_lower` on the lowercase names.
pub fn derive_name_rule(source: &str, target: &str) -> (r: (String, String))
    ensures
        r.0@ == match_pattern(str_lowercase(source@)),
        r.1@ == subst_pattern(str_lowercase(source@), str_lowercase(target@)),
        glob_matches(r.0@, str_lowercase(source@)),
        (forall|i: int|
            0 <= i < str_lowercase(target@).len() ==> literal_char(
                #[trigger] str_lowercase(target@)[i],
            )) ==> substitute(str_lowercase(source@), r.1@) == str_lowercase(target@),
{
    let s = lowercase(&chars_of(source));
    let t = lowercase(&chars_of(target));
    let (m, sub) = derive_rule_lower(&s, &t);
    (string_of(&m), string_of(&sub))
}

} // verus!
