//! What a rule section that leaves out a tuple key gets: the identity
//! transform over the whole coordinate range.

use vstd::prelude::*;
use crate::ini::{lookup, SectionModel};
use crate::rules::{
    section_rule, tokens_from, tuple_key, tuple_spec, tuple_tokens, tuples_from, lookup_or,
    n_tuple_keys, NumberClass, LoadFault,
};
use crate::text::{is_white, trim, trim_end, trim_start};

verus! {

/// A number token as it stands in a tuple: not empty, with no comma and no
/// white space.
pub open spec fn bare_token(p: Seq<char>) -> bool {
    p.len() > 0 && forall|i: int| 0 <= i < p.len() ==> #[trigger] p[i] != ',' && !is_white(p[i])
}

/// The inside of `( p0 , p1 , ... )`: each token with a space on either
/// side, separated by commas.
pub open spec fn tuple_body(parts: Seq<Seq<char>>) -> Seq<char>
    decreases parts.len(),
{
    if parts.len() == 0 {
        seq![]
    } else if parts.len() == 1 {
        seq![' '] + parts[0] + seq![' ']
    } else {
        seq![' '] + parts[0] + seq![' '] + seq![','] + tuple_body(parts.drop_first())
    }
}

/// The tuple value `( p0 , p1 , ... )`.
pub open spec fn tuple_text(parts: Seq<Seq<char>>) -> Seq<char> {
    seq!['('] + tuple_body(parts) + seq![')']
}

proof fn lemma_skip_piece(s: Seq<char>, a: int, b: int, c: int)
    requires
        0 <= a <= b <= c <= s.len(),
        forall|i: int| b <= i < c ==> #[trigger] s[i] != ',',
    ensures
        tokens_from(s, a, b) == tokens_from(s, a, c),
    decreases c - b,
{
    if b < c {
        lemma_skip_piece(s, a, b + 1, c);
    }
}

proof fn lemma_shift(u: Seq<char>, v: Seq<char>, a: int, b: int)
    requires
        0 <= a <= b <= v.len(),
    ensures
        tokens_from(u + v, u.len() + a, u.len() + b) == tokens_from(v, a, b),
    decreases v.len() - b,
{
    let s = u + v;
    if b >= v.len() {
        assert(s.subrange(u.len() + a, s.len() as int) =~= v.subrange(a, v.len() as int));
    } else {
        assert(s[u.len() + b] == v[b]);
        if v[b] == ',' {
            assert(s.subrange(u.len() + a, u.len() + b) =~= v.subrange(a, b));
            lemma_shift(u, v, b + 1, b + 1);
        } else {
            lemma_shift(u, v, a, b + 1);
        }
    }
}

proof fn lemma_trim_piece(p: Seq<char>)
    requires
        bare_token(p),
    ensures
        trim(seq![' '] + p + seq![' ']) == p,
{
    let x = seq![' '] + p + seq![' '];
    assert(is_white(' '));
    assert(x[0] == ' ');
    assert(x.drop_first() =~= p + seq![' ']);
    assert(!is_white(p[0]));
    assert((p + seq![' '])[0] == p[0]);
    assert(trim_start(p + seq![' ']) == p + seq![' ']);
    assert(trim_start(x) == p + seq![' ']);
    assert((p + seq![' ']).last() == ' ');
    assert((p + seq![' ']).drop_last() =~= p);
    assert(!is_white(p[p.len() - 1]));
    assert(trim_end(p) == p);
}

proof fn lemma_body_tokens(parts: Seq<Seq<char>>)
    requires
        parts.len() >= 1,
        forall|i: int| 0 <= i < parts.len() ==> bare_token(#[trigger] parts[i]),
    ensures
        tokens_from(tuple_body(parts), 0, 0) == parts,
    decreases parts.len(),
{
    let p0 = parts[0];
    assert(bare_token(p0));
    let piece = seq![' '] + p0 + seq![' '];
    lemma_trim_piece(p0);
    assert forall|i: int| 0 <= i < piece.len() implies #[trigger] piece[i] != ',' by {
        if 1 <= i < piece.len() - 1 {
            assert(piece[i] == p0[i - 1]);
        }
    }
    if parts.len() == 1 {
        let body = tuple_body(parts);
        assert(body == piece);
        lemma_skip_piece(body, 0, 0, body.len() as int);
        assert(body.subrange(0, body.len() as int) =~= body);
        assert(tokens_from(body, 0, 0) =~= parts);
    } else {
        let rest = parts.drop_first();
        assert forall|i: int| 0 <= i < rest.len() implies bare_token(#[trigger] rest[i]) by {
            assert(rest[i] == parts[i + 1]);
        }
        lemma_body_tokens(rest);
        let u = piece + seq![','];
        let rb = tuple_body(rest);
        let body = tuple_body(parts);
        assert(body =~= u + rb);
        let pl = piece.len() as int;
        assert forall|i: int| 0 <= i < pl implies #[trigger] body[i] != ',' by {
            assert(body[i] == piece[i]);
        }
        lemma_skip_piece(body, 0, 0, pl);
        assert(body[pl] == ',');
        assert(body.subrange(0, pl) =~= piece);
        lemma_shift(u, rb, 0, 0);
        assert(tokens_from(body, 0, pl) == seq![p0] + tokens_from(body, pl + 1, pl + 1));
        assert(seq![p0] + rest =~= parts);
    }
}

/// Law: the tuple value `( p0 , p1 , ... )` of bare number tokens reads as
/// exactly those tokens.
pub proof fn law_tuple_text_tokens(parts: Seq<Seq<char>>)
    requires
        parts.len() >= 1,
        forall|i: int| 0 <= i < parts.len() ==> bare_token(#[trigger] parts[i]),
    ensures
        tuple_tokens(tuple_text(parts)) == Some(parts),
{
    let t = tuple_text(parts);
    let body = tuple_body(parts);
    assert(!is_white('('));
    assert(!is_white(')'));
    assert(t[0] == '(');
    assert(t.last() == ')');
    assert(trim_start(t) == t);
    assert(trim_end(t) == t);
    assert(t.subrange(1, t.len() - 1) =~= body);
    lemma_body_tokens(parts);
}

proof fn lemma_tuples_from(sec: SectionModel, name: Seq<char>, cls: spec_fn(Seq<char>) -> NumberClass, j: int)
    requires
        0 <= j <= n_tuple_keys(),
        tuples_from(sec, name, cls, j) is Ok,
    ensures
        ({
            let ts = tuples_from(sec, name, cls, j)->Ok_0;
            &&& ts.len() == n_tuple_keys() - j
            &&& forall|i: int|
                j <= i < n_tuple_keys() ==> tuple_spec(
                    lookup_or(sec, tuple_key(i).0, tuple_key(i).1),
                    tuple_key(i).2,
                    cls,
                ) == Ok::<Seq<Seq<char>>, crate::rules::TupleFault>(#[trigger] ts[i - j])
        }),
    decreases n_tuple_keys() - j,
{
    if j < n_tuple_keys() {
        lemma_tuples_from(sec, name, cls, j + 1);
        let k = tuple_key(j);
        let raw = lookup_or(sec, k.0, k.1);
        let t = tuple_spec(raw, k.2, cls)->Ok_0;
        let rest = tuples_from(sec, name, cls, j + 1)->Ok_0;
        let ts = tuples_from(sec, name, cls, j)->Ok_0;
        assert(ts == seq![t] + rest);
        assert forall|i: int| j <= i < n_tuple_keys() implies tuple_spec(
            lookup_or(sec, tuple_key(i).0, tuple_key(i).1),
            tuple_key(i).2,
            cls,
        ) == Ok::<Seq<Seq<char>>, crate::rules::TupleFault>(#[trigger] ts[i - j]) by {
            if i > j {
                assert(ts[i - j] == rest[i - (j + 1)]);
            }
        }
    }
}

proof fn lemma_default_tokens(i: int, parts: Seq<Seq<char>>)
    requires
        0 <= i < n_tuple_keys(),
        tuple_key(i).1 == tuple_text(parts),
        parts.len() >= 1,
        forall|k: int| 0 <= k < parts.len() ==> bare_token(#[trigger] parts[k]),
    ensures
        forall|sec: SectionModel, cls: spec_fn(Seq<char>) -> NumberClass|
            lookup(sec, tuple_key(i).0) is None && #[trigger] tuple_spec(
                lookup_or(sec, tuple_key(i).0, tuple_key(i).1),
                tuple_key(i).2,
                cls,
            ) is Ok ==> tuple_spec(lookup_or(sec, tuple_key(i).0, tuple_key(i).1), tuple_key(i).2, cls)
                == Ok::<Seq<Seq<char>>, crate::rules::TupleFault>(parts),
{
    law_tuple_text_tokens(parts);
}

proof fn lemma_bare_numbers()
    ensures
        bare_token("-999.0"@),
        bare_token("999.0"@),
        bare_token("1.0"@),
        bare_token("0.0"@),
{
    reveal_strlit("-999.0");
    reveal_strlit("999.0");
    reveal_strlit("1.0");
    reveal_strlit("0.0");
    assert(!is_white('-') && !is_white('9') && !is_white('.') && !is_white('0') && !is_white('1'));
}

proof fn lemma_default_texts()
    ensures
        tuple_key(0).1 == tuple_text(seq!["-999.0"@, "-999.0"@, "-999.0"@]),
        tuple_key(1).1 == tuple_text(seq!["1.0"@, "1.0"@, "1.0"@]),
        tuple_key(2).1 == tuple_text(seq!["0.0"@, "0.0"@, "0.0"@]),
        tuple_key(3).1 == tuple_text(seq!["0.0"@, "0.0"@, "0.0"@]),
        tuple_key(4).1 == tuple_text(seq!["-999.0"@, "-999.0"@, "-999.0"@]),
        tuple_key(5).1 == tuple_text(seq!["999.0"@, "999.0"@, "999.0"@]),
        tuple_key(6).1 == tuple_text(seq!["1.0"@, "1.0"@]),
        tuple_key(7).1 == tuple_text(seq!["0.0"@]),
        tuple_key(8).1 == tuple_text(seq!["0.0"@, "0.0"@]),
        tuple_key(9).1 == tuple_text(seq!["-999.0"@, "-999.0"@]),
        tuple_key(10).1 == tuple_text(seq!["999.0"@, "999.0"@]),
{
    reveal_strlit("-999.0");
    reveal_strlit("999.0");
    reveal_strlit("1.0");
    reveal_strlit("0.0");
    reveal_strlit("( -999.0 , -999.0 , -999.0 )");
    reveal_strlit("( 1.0 , 1.0 , 1.0 )");
    reveal_strlit("( 0.0 , 0.0 , 0.0 )");
    reveal_strlit("( 999.0 , 999.0 , 999.0 )");
    reveal_strlit("( 1.0 , 1.0 )");
    reveal_strlit("( 0.0 )");
    reveal_strlit("( 0.0 , 0.0 )");
    reveal_strlit("( -999.0 , -999.0 )");
    reveal_strlit("( 999.0 , 999.0 )");
    reveal_with_fuel(tuple_body, 4);
    assert(tuple_text(seq!["-999.0"@, "-999.0"@, "-999.0"@]) =~= "( -999.0 , -999.0 , -999.0 )"@);
    assert(tuple_text(seq!["1.0"@, "1.0"@, "1.0"@]) =~= "( 1.0 , 1.0 , 1.0 )"@);
    assert(tuple_text(seq!["0.0"@, "0.0"@, "0.0"@]) =~= "( 0.0 , 0.0 , 0.0 )"@);
    assert(tuple_text(seq!["999.0"@, "999.0"@, "999.0"@]) =~= "( 999.0 , 999.0 , 999.0 )"@);
    assert(tuple_text(seq!["1.0"@, "1.0"@]) =~= "( 1.0 , 1.0 )"@);
    assert(tuple_text(seq!["0.0"@]) =~= "( 0.0 )"@);
    assert(tuple_text(seq!["0.0"@, "0.0"@]) =~= "( 0.0 , 0.0 )"@);
    assert(tuple_text(seq!["-999.0"@, "-999.0"@]) =~= "( -999.0 , -999.0 )"@);
    assert(tuple_text(seq!["999.0"@, "999.0"@]) =~= "( 999.0 , 999.0 )"@);
}

/// Law: a loaded rule has one tuple per tuple key, and each key that its
/// section leaves out gets the identity transform over the whole range:
/// no absolute `position` (all -999.0), `scale` and `tscale` 1.0, `rotate`,
/// `translate`, `trotate` and `ttranslate` 0.0, and a `minimum`/`maximum`
/// (and `tminimum`/`tmaximum`) range from -999.0 to 999.0 on every axis.
pub proof fn law_absent_tuple_keys_take_identity_defaults(sec: SectionModel, name: Seq<char>, cls: spec_fn(Seq<char>) -> NumberClass)
    ensures
        section_rule(sec, name, cls) matches Ok(r) ==> {
            let lo = "-999.0"@;
            let hi = "999.0"@;
            let one = "1.0"@;
            let zero = "0.0"@;
            &&& r.tuples.len() == 11
            &&& lookup(sec, "position"@) is None ==> r.tuples[0] == seq![lo, lo, lo]
            &&& lookup(sec, "scale"@) is None ==> r.tuples[1] == seq![one, one, one]
            &&& lookup(sec, "rotate"@) is None ==> r.tuples[2] == seq![zero, zero, zero]
            &&& lookup(sec, "translate"@) is None ==> r.tuples[3] == seq![zero, zero, zero]
            &&& lookup(sec, "minimum"@) is None ==> r.tuples[4] == seq![lo, lo, lo]
            &&& lookup(sec, "maximum"@) is None ==> r.tuples[5] == seq![hi, hi, hi]
            &&& lookup(sec, "tscale"@) is None ==> r.tuples[6] == seq![one, one]
            &&& lookup(sec, "trotate"@) is None ==> r.tuples[7] == seq![zero]
            &&& lookup(sec, "ttranslate"@) is None ==> r.tuples[8] == seq![zero, zero]
            &&& lookup(sec, "tminimum"@) is None ==> r.tuples[9] == seq![lo, lo]
            &&& lookup(sec, "tmaximum"@) is None ==> r.tuples[10] == seq![hi, hi]
        },
{
    let lo = "-999.0"@;
    let hi = "999.0"@;
    let one = "1.0"@;
    let zero = "0.0"@;
    lemma_bare_numbers();
    lemma_default_texts();
    if section_rule(sec, name, cls) is Ok {
        lemma_tuples_from(sec, name, cls, 0);
        let ts = tuples_from(sec, name, cls, 0)->Ok_0;
        assert(section_rule(sec, name, cls)->Ok_0.tuples == ts);
        lemma_default_tokens(0, seq![lo, lo, lo]);
        lemma_default_tokens(1, seq![one, one, one]);
        lemma_default_tokens(2, seq![zero, zero, zero]);
        lemma_default_tokens(3, seq![zero, zero, zero]);
        lemma_default_tokens(4, seq![lo, lo, lo]);
        lemma_default_tokens(5, seq![hi, hi, hi]);
        lemma_default_tokens(6, seq![one, one]);
        lemma_default_tokens(7, seq![zero]);
        lemma_default_tokens(8, seq![zero, zero]);
        lemma_default_tokens(9, seq![lo, lo]);
        lemma_default_tokens(10, seq![hi, hi]);
        assert(tuple_spec(lookup_or(sec, tuple_key(0).0, tuple_key(0).1), tuple_key(0).2, cls) == Ok::<Seq<Seq<char>>, crate::rules::TupleFault>(ts[0 - 0]));
        assert(tuple_spec(lookup_or(sec, tuple_key(1).0, tuple_key(1).1), tuple_key(1).2, cls) == Ok::<Seq<Seq<char>>, crate::rules::TupleFault>(ts[1 - 0]));
        assert(tuple_spec(lookup_or(sec, tuple_key(2).0, tuple_key(2).1), tuple_key(2).2, cls) == Ok::<Seq<Seq<char>>, crate::rules::TupleFault>(ts[2 - 0]));
        assert(tuple_spec(lookup_or(sec, tuple_key(3).0, tuple_key(3).1), tuple_key(3).2, cls) == Ok::<Seq<Seq<char>>, crate::rules::TupleFault>(ts[3 - 0]));
        assert(tuple_spec(lookup_or(sec, tuple_key(4).0, tuple_key(4).1), tuple_key(4).2, cls) == Ok::<Seq<Seq<char>>, crate::rules::TupleFault>(ts[4 - 0]));
        assert(tuple_spec(lookup_or(sec, tuple_key(5).0, tuple_key(5).1), tuple_key(5).2, cls) == Ok::<Seq<Seq<char>>, crate::rules::TupleFault>(ts[5 - 0]));
        assert(tuple_spec(lookup_or(sec, tuple_key(6).0, tuple_key(6).1), tuple_key(6).2, cls) == Ok::<Seq<Seq<char>>, crate::rules::TupleFault>(ts[6 - 0]));
        assert(tuple_spec(lookup_or(sec, tuple_key(7).0, tuple_key(7).1), tuple_key(7).2, cls) == Ok::<Seq<Seq<char>>, crate::rules::TupleFault>(ts[7 - 0]));
        assert(tuple_spec(lookup_or(sec, tuple_key(8).0, tuple_key(8).1), tuple_key(8).2, cls) == Ok::<Seq<Seq<char>>, crate::rules::TupleFault>(ts[8 - 0]));
        assert(tuple_spec(lookup_or(sec, tuple_key(9).0, tuple_key(9).1), tuple_key(9).2, cls) == Ok::<Seq<Seq<char>>, crate::rules::TupleFault>(ts[9 - 0]));
        assert(tuple_spec(lookup_or(sec, tuple_key(10).0, tuple_key(10).1), tuple_key(10).2, cls) == Ok::<Seq<Seq<char>>, crate::rules::TupleFault>(ts[10 - 0]));
    }
}

} // verus!
