//! Model names: wildcard matching of a name against a rule's `match=`
//! pattern, and building the target name from a rule's `substitute=` pattern.

use vstd::prelude::*;
use crate::text::{chars_of, string_of};

verus! {

/// Glob semantics of `p[i..]` against `s[j..]`: `*` matches any run of
/// characters (the empty run too), `?` exactly one character, and every other
/// character itself.
pub open spec fn glob_at(p: Seq<char>, s: Seq<char>, i: int, j: int) -> bool
    decreases p.len() - i, s.len() - j,
{
    if i >= p.len() {
        j >= s.len()
    } else if p[i] == '*' {
        glob_at(p, s, i + 1, j) || (j < s.len() && glob_at(p, s, i, j + 1))
    } else {
        j < s.len() && (p[i] == '?' || p[i] == s[j]) && glob_at(p, s, i + 1, j + 1)
    }
}

/// The whole text `s` matches the whole pattern `p`.
pub open spec fn glob_matches(p: Seq<char>, s: Seq<char>) -> bool {
    glob_at(p, s, 0, 0)
}

/// `p[i..i+len]` holds no `*` and matches `s[j..j+len]` character by character.
pub open spec fn lit_match(p: Seq<char>, s: Seq<char>, i: int, j: int, len: int) -> bool {
    &&& 0 <= i
    &&& 0 <= j
    &&& 0 <= len
    &&& i + len <= p.len()
    &&& j + len <= s.len()
    &&& forall|k: int|
        0 <= k < len ==> #[trigger] p[i + k] != '*' && (p[i + k] == '?' || p[i + k] == s[j + k])
}

/// `p[i..i+len]` holds no `*`.
pub open spec fn no_star(p: Seq<char>, i: int, len: int) -> bool {
    &&& 0 <= i
    &&& 0 <= len
    &&& i + len <= p.len()
    &&& forall|k: int| 0 <= k < len ==> #[trigger] p[i + k] != '*'
}

/// Some suffix `s[m..]` with `m >= lo` matches `p[i..]`.
pub open spec fn star_tail(p: Seq<char>, s: Seq<char>, i: int, lo: int) -> bool {
    exists|m: int| lo <= m <= s.len() && #[trigger] glob_at(p, s, i, m)
}

proof fn lemma_lit_run(p: Seq<char>, s: Seq<char>, i: int, j: int, len: int)
    requires
        lit_match(p, s, i, j, len),
    ensures
        glob_at(p, s, i, j) == glob_at(p, s, i + len, j + len),
    decreases len,
{
    if len > 0 {
        assert(p[i + 0] != '*' && (p[i + 0] == '?' || p[i + 0] == s[j + 0]));
        assert(lit_match(p, s, i + 1, j + 1, len - 1)) by {
            assert forall|k: int| 0 <= k < len - 1 implies #[trigger] p[i + 1 + k] != '*' && (p[i
                + 1 + k] == '?' || p[i + 1 + k] == s[j + 1 + k]) by {
                assert(p[i + (k + 1)] != '*' && (p[i + (k + 1)] == '?' || p[i + (k + 1)] == s[j + (k
                    + 1)]));
            }
        }
        lemma_lit_run(p, s, i + 1, j + 1, len - 1);
    }
}

proof fn lemma_star(p: Seq<char>, s: Seq<char>, i: int, j: int)
    requires
        0 <= i < p.len(),
        p[i] == '*',
        0 <= j <= s.len(),
    ensures
        glob_at(p, s, i, j) == star_tail(p, s, i + 1, j),
    decreases s.len() - j,
{
    if glob_at(p, s, i + 1, j) {
        assert(star_tail(p, s, i + 1, j));
    } else if j < s.len() {
        lemma_star(p, s, i, j + 1);
        if star_tail(p, s, i + 1, j) {
            let m = choose|m: int| j <= m <= s.len() && #[trigger] glob_at(p, s, i + 1, m);
            assert(m != j);
            assert(star_tail(p, s, i + 1, j + 1));
        }
    } else {
        if star_tail(p, s, i + 1, j) {
            let m = choose|m: int| j <= m <= s.len() && #[trigger] glob_at(p, s, i + 1, m);
            assert(m == j);
        }
    }
}

proof fn lemma_segment(p: Seq<char>, s: Seq<char>, i: int, m: int, len: int)
    requires
        no_star(p, i, len),
        0 <= m <= s.len(),
        glob_at(p, s, i, m),
    ensures
        m + len <= s.len(),
        glob_at(p, s, i + len, m + len),
    decreases len,
{
    if len > 0 {
        assert(p[i + 0] != '*');
        assert(no_star(p, i + 1, len - 1)) by {
            assert forall|k: int| 0 <= k < len - 1 implies #[trigger] p[i + 1 + k] != '*' by {
                assert(p[i + (k + 1)] != '*');
            }
        }
        lemma_segment(p, s, i + 1, m + 1, len - 1);
    }
}

proof fn lemma_new_star(p: Seq<char>, s: Seq<char>, k: int, mi: int, wi: int, si: int)
    requires
        0 <= k,
        k + 1 <= wi < p.len(),
        p[wi] == '*',
        lit_match(p, s, k + 1, mi, si - mi),
        wi - (k + 1) == si - mi,
    ensures
        star_tail(p, s, k + 1, mi) == star_tail(p, s, wi + 1, si),
{
    let len = si - mi;
    lemma_lit_run(p, s, k + 1, mi, len);
    lemma_star(p, s, wi, si);
    if star_tail(p, s, wi + 1, si) {
        assert(glob_at(p, s, k + 1, mi));
    }
    if star_tail(p, s, k + 1, mi) {
        let m = choose|m: int| mi <= m <= s.len() && #[trigger] glob_at(p, s, k + 1, m);
        assert(no_star(p, k + 1, len)) by {
            assert forall|x: int| 0 <= x < len implies #[trigger] p[k + 1 + x] != '*' by {
                assert(p[k + 1 + x] != '*' && (p[k + 1 + x] == '?' || p[k + 1 + x] == s[mi + x]));
            }
        }
        lemma_segment(p, s, k + 1, m, len);
        lemma_star(p, s, wi, m + len);
        let m2 = choose|m2: int| m + len <= m2 <= s.len() && #[trigger] glob_at(p, s, wi + 1, m2);
        assert(si <= m2 <= s.len() && glob_at(p, s, wi + 1, m2));
    }
}

proof fn lemma_tail_at_end(p: Seq<char>, s: Seq<char>, k: int, mi: int, wi: int)
    requires
        0 <= k,
        k + 1 <= wi <= p.len(),
        lit_match(p, s, k + 1, mi, s.len() - mi),
        wi - (k + 1) == s.len() - mi,
    ensures
        star_tail(p, s, k + 1, mi) == glob_at(p, s, wi, s.len() as int),
{
    let len = s.len() - mi;
    lemma_lit_run(p, s, k + 1, mi, len);
    if glob_at(p, s, wi, s.len() as int) {
        assert(glob_at(p, s, k + 1, mi));
    }
    if star_tail(p, s, k + 1, mi) {
        let m = choose|m: int| mi <= m <= s.len() && #[trigger] glob_at(p, s, k + 1, m);
        assert(no_star(p, k + 1, len)) by {
            assert forall|x: int| 0 <= x < len implies #[trigger] p[k + 1 + x] != '*' by {
                assert(p[k + 1 + x] != '*' && (p[k + 1 + x] == '?' || p[k + 1 + x] == s[mi + x]));
            }
        }
        lemma_segment(p, s, k + 1, m, len);
        assert(m == mi);
    }
}

/// Wildcard match of a whole model name against a pattern: `*` matches any
/// run of characters, `?` any single character. Both are expected in lower
/// case; the comparison itself is exact.
pub fn wildcard_match(pattern: &str, text: &str) -> (b: bool)
    ensures
        b == glob_matches(pattern@, text@),
{
    let wild = chars_of(pattern);
    let txt = chars_of(text);
    let ghost p = wild@;
    let ghost s = txt@;
    let mut wi: usize = 0;
    let mut si: usize = 0;
    let mut star: Option<usize> = None;
    let mut mi: usize = 0;
    while si < txt.len()
        invariant
            p == wild@,
            s == txt@,
            p == pattern@,
            s == text@,
            wi <= wild.len(),
            mi <= si <= txt.len(),
            match star {
                None => glob_matches(p, s) == glob_at(p, s, wi as int, si as int),
                Some(k) => {
                    &&& k < wi
                    &&& p[k as int] == '*'
                    &&& wi - (k + 1) == si - mi
                    &&& lit_match(p, s, k + 1, mi as int, si - mi)
                    &&& glob_matches(p, s) == star_tail(p, s, k + 1, mi as int)
                },
            },
        decreases txt.len() - mi, txt.len() - si, wild.len() - wi,
    {
        if wi < wild.len() && wild[wi] == '*' {
            proof {
                match star {
                    None => {
                        lemma_star(p, s, wi as int, si as int);
                    },
                    Some(k) => {
                        lemma_new_star(p, s, k as int, mi as int, wi as int, si as int);
                    },
                }
            }
            star = Some(wi);
            mi = si;
            wi = wi + 1;
        } else if wi < wild.len() && (wild[wi] == '?' || wild[wi] == txt[si]) {
            proof {
                match star {
                    None => {},
                    Some(k) => {
                        let len = si - mi;
                        assert(lit_match(p, s, k + 1, mi as int, len + 1)) by {
                            assert forall|x: int| 0 <= x < len + 1 implies #[trigger] p[k + 1 + x]
                                != '*' && (p[k + 1 + x] == '?' || p[k + 1 + x] == s[mi + x]) by {
                                if x < len {
                                    assert(p[k + 1 + x] != '*' && (p[k + 1 + x] == '?' || p[k + 1
                                        + x] == s[mi + x]));
                                }
                            }
                        }
                    },
                }
            }
            wi = wi + 1;
            si = si + 1;
        } else if let Some(k) = star {
            proof {
                let len = si - mi;
                lemma_lit_run(p, s, k + 1, mi as int, len);
                assert(!glob_at(p, s, wi as int, si as int));
                assert(star_tail(p, s, k + 1, mi as int) == star_tail(p, s, k + 1, mi + 1)) by {
                    if star_tail(p, s, k + 1, mi as int) {
                        let m = choose|m: int| mi <= m <= s.len() && #[trigger] glob_at(
                            p,
                            s,
                            k + 1,
                            m,
                        );
                        assert(m != mi);
                    }
                }
                assert(lit_match(p, s, k + 1, mi + 1, 0));
            }
            wi = k + 1;
            mi = mi + 1;
            si = mi;
        } else {
            assert(!glob_at(p, s, wi as int, si as int));
            return false;
        }
    }
    proof {
        match star {
            None => {},
            Some(k) => {
                lemma_tail_at_end(p, s, k as int, mi as int, wi as int);
            },
        }
    }
    while wi < wild.len() && wild[wi] == '*'
        invariant
            p == wild@,
            s == txt@,
            wi <= wild.len(),
            si == txt.len(),
            glob_matches(p, s) == glob_at(p, s, wi as int, si as int),
        decreases wild.len() - wi,
    {
        wi = wi + 1;
    }
    wi == wild.len()
}


/// Characters that cannot stand in a file name; `substitute=` skips them.
pub open spec fn is_forbidden(c: char) -> bool {
    c == '\\' || c == '/' || c == ':' || c == '"' || c == '<' || c == '>' || c == '|'
}

/// One character of a `substitute=` pattern applied to the name built so far
/// and the current position in it: `?` keeps the character under the
/// position, `*` moves past the end (keeping the rest), a forbidden character
/// is skipped, and any other character overwrites (or, past the end,
/// appends) and advances.
pub open spec fn subst_step(out: Seq<char>, idx: nat, c: char) -> (Seq<char>, nat) {
    if c == '?' {
        (out, idx + 1)
    } else if c == '*' {
        (out, out.len())
    } else if is_forbidden(c) {
        (out, idx)
    } else if idx < out.len() {
        (out.update(idx as int, c), idx + 1)
    } else {
        (out.push(c), idx + 1)
    }
}

/// The name and position after the whole pattern `subst` has been applied to
/// `old`, starting at position 0.
pub open spec fn subst_run(old: Seq<char>, subst: Seq<char>) -> (Seq<char>, nat)
    decreases subst.len(),
{
    if subst.len() == 0 {
        (old, 0)
    } else {
        let prev = subst_run(old, subst.drop_last());
        subst_step(prev.0, prev.1, subst.last())
    }
}

/// The target name: the result of `subst_run`, cut off at the final position
/// when that lies inside it.
pub open spec fn substitute(old: Seq<char>, subst: Seq<char>) -> Seq<char> {
    let r = subst_run(old, subst);
    if r.1 < r.0.len() {
        r.0.take(r.1 as int)
    } else {
        r.0
    }
}

/// Builds a target model name from `old_name` and a `substitute=` pattern.
pub fn build_substitute(old_name: &str, subst: &str) -> (r: String)
    requires
        old_name@.len() + subst@.len() <= usize::MAX,
    ensures
        r@ == substitute(old_name@, subst@),
{
    let mut out = chars_of(old_name);
    let pat = chars_of(subst);
    let ghost old = out@;
    let mut idx: usize = 0;
    let mut k: usize = 0;
    while k < pat.len()
        invariant
            old == old_name@,
            pat@ == subst@,
            k <= pat.len(),
            old.len() + pat.len() <= usize::MAX,
            subst_run(old, pat@.take(k as int)) == (out@, idx as nat),
            out.len() <= old.len() + k,
            idx <= old.len() + k,
        decreases pat.len() - k,
    {
        let c = pat[k];
        assert(pat@.take(k + 1).drop_last() =~= pat@.take(k as int));
        assert(pat@.take(k + 1).last() == c);
        if c == '?' {
            idx = idx + 1;
        } else if c == '*' {
            idx = out.len();
        } else if c == '\\' || c == '/' || c == ':' || c == '"' || c == '<' || c == '>' || c
            == '|' {
        } else if idx < out.len() {
            out.set(idx, c);
            idx = idx + 1;
        } else {
            out.push(c);
            idx = idx + 1;
        }
        k = k + 1;
    }
    assert(pat@.take(k as int) =~= pat@);
    if idx < out.len() {
        out.truncate(idx);
        assert(out@ =~= subst_run(old, pat@).0.take(idx as int));
    }
    string_of(&out)
}


proof fn lemma_lone_star_from(s: Seq<char>, j: int)
    requires
        0 <= j <= s.len(),
    ensures
        glob_at(seq!['*'], s, 0, j),
    decreases s.len() - j,
{
    let p = seq!['*'];
    assert(p.len() == 1 && p[0] == '*');
    assert(glob_at(p, s, 1, s.len() as int));
    if j < s.len() {
        lemma_lone_star_from(s, j + 1);
    }
}

/// Law: the pattern `*` matches every name.
pub proof fn law_lone_star_matches_everything(s: Seq<char>)
    ensures
        glob_matches(seq!['*'], s),
{
    lemma_lone_star_from(s, 0);
}

/// No `*` and no `?` in `p`.
pub open spec fn is_plain(p: Seq<char>) -> bool {
    forall|k: int| 0 <= k < p.len() ==> #[trigger] p[k] != '*' && p[k] != '?'
}

proof fn lemma_plain_from(p: Seq<char>, s: Seq<char>, i: int, j: int)
    requires
        is_plain(p),
        0 <= i <= p.len(),
        0 <= j <= s.len(),
    ensures
        glob_at(p, s, i, j) == (p.skip(i) == s.skip(j)),
    decreases p.len() - i,
{
    if i < p.len() {
        assert(p[i] != '*' && p[i] != '?');
        if j < s.len() {
            lemma_plain_from(p, s, i + 1, j + 1);
            assert(p.skip(i) =~= seq![p[i]] + p.skip(i + 1));
            assert(s.skip(j) =~= seq![s[j]] + s.skip(j + 1));
            if p.skip(i) == s.skip(j) {
                assert(p.skip(i)[0] == s.skip(j)[0]);
                assert(p.skip(i + 1) =~= p.skip(i).drop_first());
                assert(s.skip(j + 1) =~= s.skip(j).drop_first());
            }
        } else {
            assert(s.skip(j).len() == 0);
        }
    } else {
        assert(p.skip(i).len() == 0);
        if j < s.len() {
            assert(s.skip(j).len() > 0);
        } else {
            assert(s.skip(j) =~= p.skip(i));
        }
    }
}

/// Law: a pattern without wildcards matches exactly the one name equal to it.
pub proof fn law_plain_pattern_matches_only_itself(p: Seq<char>, s: Seq<char>)
    requires
        is_plain(p),
    ensures
        glob_matches(p, s) <==> p == s,
{
    lemma_plain_from(p, s, 0, 0);
    assert(p.skip(0) =~= p);
    assert(s.skip(0) =~= s);
}

/// `p` and `s` have the same length and every character of `p` is `?` or
/// the character of `s` at the same place.
pub open spec fn fits_charwise(p: Seq<char>, s: Seq<char>) -> bool {
    p.len() == s.len() && forall|k: int| 0 <= k < p.len() ==> #[trigger] p[k] == '?' || p[k] == s[k]
}

proof fn lemma_star_free_from(p: Seq<char>, s: Seq<char>, i: int, j: int)
    requires
        no_star(p, 0, p.len() as int),
        0 <= i <= p.len(),
        0 <= j <= s.len(),
    ensures
        glob_at(p, s, i, j) == fits_charwise(p.skip(i), s.skip(j)),
    decreases p.len() - i,
{
    if i < p.len() {
        assert(p[0 + i] != '*');
        if j < s.len() {
            lemma_star_free_from(p, s, i + 1, j + 1);
            let a = p.skip(i);
            let b = s.skip(j);
            if fits_charwise(a, b) {
                assert(a[0] == '?' || a[0] == b[0]);
                assert forall|k: int| 0 <= k < a.len() - 1 implies #[trigger] p.skip(i + 1)[k] == '?'
                    || p.skip(i + 1)[k] == s.skip(j + 1)[k] by {
                    assert(a[k + 1] == '?' || a[k + 1] == b[k + 1]);
                }
            }
            if glob_at(p, s, i, j) {
                assert forall|k: int| 0 <= k < a.len() implies #[trigger] a[k] == '?' || a[k] == b[k] by {
                    if k > 0 {
                        assert(p.skip(i + 1)[k - 1] == '?' || p.skip(i + 1)[k - 1] == s.skip(j + 1)[k - 1]);
                    }
                }
            }
        } else {
            assert(s.skip(j).len() == 0);
        }
    } else {
        assert(p.skip(i).len() == 0);
        if j >= s.len() {
            assert(fits_charwise(p.skip(i), s.skip(j)));
        }
    }
}

/// Law: a pattern without `*` matches exactly the names of its length whose
/// characters equal the pattern's wherever the pattern has no `?`.
pub proof fn law_star_free_pattern_matches_charwise(p: Seq<char>, s: Seq<char>)
    requires
        forall|k: int| 0 <= k < p.len() ==> #[trigger] p[k] != '*',
    ensures
        glob_matches(p, s) <==> fits_charwise(p, s),
{
    assert(no_star(p, 0, p.len() as int)) by {
        assert forall|k: int| 0 <= k < p.len() implies #[trigger] p[0 + k] != '*' by {
            assert(p[k] != '*');
        }
    }
    lemma_star_free_from(p, s, 0, 0);
    assert(p.skip(0) =~= p);
    assert(s.skip(0) =~= s);
}

/// Law: the `substitute=` pattern `*` (the default) keeps the name unchanged.
pub proof fn law_star_substitute_keeps_name(old: Seq<char>)
    ensures
        substitute(old, seq!['*']) == old,
{
    let subst = seq!['*'];
    assert(subst.drop_last() =~= Seq::<char>::empty());
    assert(subst.last() == '*');
    assert(subst_run(old, subst.drop_last()) == (old, 0nat));
    assert(subst_run(old, subst) == (old, old.len()));
}

/// No wildcard and no forbidden character in `subst`.
pub open spec fn is_literal_subst(subst: Seq<char>) -> bool {
    forall|k: int|
        0 <= k < subst.len() ==> #[trigger] subst[k] != '*' && subst[k] != '?' && !is_forbidden(
            subst[k],
        )
}

proof fn lemma_literal_run(old: Seq<char>, subst: Seq<char>)
    requires
        is_literal_subst(subst),
    ensures
        subst_run(old, subst).1 == subst.len(),
        subst_run(old, subst).0 == (if subst.len() <= old.len() {
            subst + old.skip(subst.len() as int)
        } else {
            subst
        }),
    decreases subst.len(),
{
    if subst.len() > 0 {
        let prev = subst.drop_last();
        assert(is_literal_subst(prev)) by {
            assert forall|k: int| 0 <= k < prev.len() implies #[trigger] prev[k] != '*' && prev[k]
                != '?' && !is_forbidden(prev[k]) by {
                assert(prev[k] == subst[k]);
            }
        }
        lemma_literal_run(old, prev);
        let c = subst.last();
        assert(c == subst[subst.len() - 1]);
        let r = subst_run(old, prev);
        if subst.len() <= old.len() {
            assert(r.0.update(prev.len() as int, c) =~= subst + old.skip(subst.len() as int));
        } else if prev.len() < old.len() {
            assert(r.0.update(prev.len() as int, c) =~= subst);
        } else {
            assert(r.0.push(c) =~= subst);
        }
    }
}

/// Law: a `substitute=` pattern made of plain characters only yields exactly
/// that pattern as the new name.
pub proof fn law_literal_substitute_is_the_name(old: Seq<char>, subst: Seq<char>)
    requires
        is_literal_subst(subst),
    ensures
        substitute(old, subst) == subst,
{
    lemma_literal_run(old, subst);
    let r = subst_run(old, subst);
    if subst.len() < old.len() {
        assert(r.0.take(subst.len() as int) =~= subst);
    }
}


/// The patterns of a list of rules, as characters.
pub open spec fn patterns_view(v: Seq<(String, String)>) -> Seq<(Seq<char>, Seq<char>)> {
    v.map_values(|p: (String, String)| (p.0@, p.1@))
}

/// For the rules from the `i`-th on (each a `match=` and a `substitute=`
/// pattern), in order: the index of each rule whose pattern matches `stem`,
/// with the target name it gives.
pub open spec fn targets_from(stem: Seq<char>, rules: Seq<(Seq<char>, Seq<char>)>, i: int) -> Seq<(int, Seq<char>)>
    decreases rules.len() - i,
{
    if i < 0 || i >= rules.len() {
        seq![]
    } else {
        (if glob_matches(rules[i].0, stem) {
            seq![(i, substitute(stem, rules[i].1))]
        } else {
            seq![]
        }) + targets_from(stem, rules, i + 1)
    }
}

/// The index/name pairs of a list, as characters.
pub open spec fn targets_view(v: Seq<(usize, String)>) -> Seq<(int, Seq<char>)> {
    v.map_values(|t: (usize, String)| (t.0 as int, t.1@))
}

/// The rules that apply to the model named `stem`, in rule order, each with
/// the target name it gives. A model matched by no rule gets none.
pub fn rule_targets(stem: &str, rules: &Vec<(String, String)>) -> (r: Vec<(usize, String)>)
    requires
        forall|i: int| 0 <= i < rules.len() ==> stem@.len() + (#[trigger] rules@[i]).1@.len() <= usize::MAX,
    ensures
        targets_view(r@) == targets_from(stem@, patterns_view(rules@), 0),
{
    let ghost rv = patterns_view(rules@);
    let mut out: Vec<(usize, String)> = Vec::new();
    let mut i: usize = 0;
    assert(targets_view(out@) =~= seq![]);
    while i < rules.len()
        invariant
            rv == patterns_view(rules@),
            i <= rules.len(),
            forall|k: int| 0 <= k < rules.len() ==> stem@.len() + (#[trigger] rules@[k]).1@.len() <= usize::MAX,
            targets_view(out@) + targets_from(stem@, rv, i as int) == targets_from(stem@, rv, 0),
        decreases rules.len() - i,
    {
        assert(rv[i as int] == (rules@[i as int].0@, rules@[i as int].1@));
        let ghost before = targets_view(out@);
        if wildcard_match(rules[i].0.as_str(), stem) {
            let name = build_substitute(stem, rules[i].1.as_str());
            let ghost nv = name@;
            out.push((i, name));
            assert(targets_view(out@) =~= before.push((i as int, nv)));
            assert(before + targets_from(stem@, rv, i as int) =~= targets_view(out@) + targets_from(stem@, rv, i + 1));
        } else {
            assert(before + targets_from(stem@, rv, i as int) =~= before + targets_from(stem@, rv, i + 1));
        }
        i = i + 1;
    }
    assert(targets_view(out@) + seq![] =~= targets_view(out@));
    out
}

} // verus!
