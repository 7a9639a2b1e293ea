//! Loading the transform rules (`[Global] nTransforms` and the sections
//! `[s0]`..) from an INI text. Numbers stay text here; which texts are
//! numbers is asked of a classifier that the caller supplies.

use vstd::prelude::*;
use crate::ini::{
    find_section, get_str, get_value, ini_message, lookup, parse_ini, parse_ini_spec,
    section_index, IniError, IniFault, IniModel, IniSection, ParseError,
    SectionModel,
};
use crate::text::{
    chars_eq, chars_of, copy_chars, decimal, decimal_chars, lowercase, parse_usize,
    parse_usize_chars, push_all, push_str, str_lowercase, string_of, sub_chars, trim, trim_chars,
    views,
};

verus! {

/// What the caller's number parser makes of a token.
#[derive(PartialEq, Eq, Structural)]
pub enum NumberClass {
    /// A finite number.
    Finite,
    /// Not a number at all.
    Invalid,
    /// A number that is infinite or not a number.
    NotFinite,
}

/// The classifier gives one answer per token text, whatever vector holds it.
pub open spec fn classifier_is_function<F: Fn(&Vec<char>) -> NumberClass>(f: F) -> bool {
    &&& forall|a: &Vec<char>| #[trigger] call_requires(f, (a,))
    &&& forall|a: &Vec<char>, b: &Vec<char>, r1: NumberClass, r2: NumberClass|
        a@ == b@ && #[trigger] call_ensures(f, (a,), r1) && #[trigger] call_ensures(f, (b,), r2)
            ==> r1 == r2
}

/// The classifier answers `r` for some vector holding the text `t`.
pub open spec fn answers<F: Fn(&Vec<char>) -> NumberClass>(f: F, t: Seq<char>, r: NumberClass) -> bool {
    exists|a: &Vec<char>| a@ == t && #[trigger] call_ensures(f, (a,), r)
}

/// The classifier's answer for a token text.
pub open spec fn class_of<F: Fn(&Vec<char>) -> NumberClass>(f: F, t: Seq<char>) -> NumberClass {
    choose|r: NumberClass| #[trigger] answers(f, t, r)
}

/// What the classifier answered for a vector is its answer for the text.
pub proof fn lemma_class_of<F: Fn(&Vec<char>) -> NumberClass>(f: F, a: &Vec<char>, c: NumberClass)
    requires
        classifier_is_function(f),
        call_ensures(f, (a,), c),
    ensures
        class_of(f, a@) == c,
{
    assert(answers(f, a@, c));
    let c2 = class_of(f, a@);
    assert(answers(f, a@, c2));
    let x = choose|x: &Vec<char>| x@ == a@ && #[trigger] call_ensures(f, (x,), c2);
}

/// Why a tuple value was rejected.
pub enum TupleFault {
    NotTuple,
    EmptyValue(nat),
    InvalidNumber(Seq<char>),
    NotFinite(Seq<char>),
    WrongCount(nat, nat),
}

/// Why a tuple value was rejected.
pub enum TupleError {
    /// Not of the form `( ... )`.
    NotTuple,
    /// The token at this 1-based position is empty.
    EmptyValue(usize),
    /// This token is not a number.
    InvalidNumber(Vec<char>),
    /// This token is a number that is not finite.
    NotFinite(Vec<char>),
    /// Expected and found number of tokens.
    WrongCount(usize, usize),
}

impl View for TupleError {
    type V = TupleFault;

    open spec fn view(&self) -> TupleFault {
        match self {
            TupleError::NotTuple => TupleFault::NotTuple,
            TupleError::EmptyValue(p) => TupleFault::EmptyValue(*p as nat),
            TupleError::InvalidNumber(t) => TupleFault::InvalidNumber(t@),
            TupleError::NotFinite(t) => TupleFault::NotFinite(t@),
            TupleError::WrongCount(e, g) => TupleFault::WrongCount(*e as nat, *g as nat),
        }
    }
}

/// `str::split(',')` from a piece that starts at `a`, scanning at `b`, each
/// piece trimmed.
pub open spec fn tokens_from(s: Seq<char>, a: int, b: int) -> Seq<Seq<char>>
    decreases s.len() - b,
{
    if b >= s.len() {
        seq![trim(s.subrange(a, s.len() as int))]
    } else if s[b] == ',' {
        seq![trim(s.subrange(a, b))] + tokens_from(s, b + 1, b + 1)
    } else {
        tokens_from(s, a, b + 1)
    }
}

/// The trimmed comma-separated tokens of a value of the form `( ... )`.
pub open spec fn tuple_tokens(raw: Seq<char>) -> Option<Seq<Seq<char>>> {
    let t = trim(raw);
    if t.len() >= 2 && t[0] == '(' && t.last() == ')' {
        Some(tokens_from(t.subrange(1, t.len() - 1), 0, 0))
    } else {
        None
    }
}

/// The first bad token at or after `i`: empty, not a number, or not finite.
pub open spec fn first_bad_token(toks: Seq<Seq<char>>, cls: spec_fn(Seq<char>) -> NumberClass, i: int) -> Option<TupleFault>
    decreases toks.len() - i,
{
    if i < 0 || i >= toks.len() {
        None
    } else if toks[i].len() == 0 {
        Some(TupleFault::EmptyValue((i + 1) as nat))
    } else if cls(toks[i]) == NumberClass::Invalid {
        Some(TupleFault::InvalidNumber(toks[i]))
    } else if cls(toks[i]) == NumberClass::NotFinite {
        Some(TupleFault::NotFinite(toks[i]))
    } else {
        first_bad_token(toks, cls, i + 1)
    }
}

/// A tuple value `( t1 , t2 , ... )` read as exactly `expected` finite
/// number tokens.
pub open spec fn tuple_spec(raw: Seq<char>, expected: nat, cls: spec_fn(Seq<char>) -> NumberClass) -> Result<Seq<Seq<char>>, TupleFault> {
    match tuple_tokens(raw) {
        None => Err(TupleFault::NotTuple),
        Some(toks) => match first_bad_token(toks, cls, 0) {
            Some(f) => Err(f),
            None => if toks.len() == expected {
                Ok(toks)
            } else {
                Err(TupleFault::WrongCount(expected, toks.len()))
            },
        },
    }
}

/// Reads a tuple value of `expected` numbers; the tokens are kept as text.
pub fn parse_tuple<F: Fn(&Vec<char>) -> NumberClass>(raw: &Vec<char>, expected: usize, classify: &F) -> (r: Result<Vec<Vec<char>>, TupleError>)
    requires
        classifier_is_function(*classify),
    ensures
        match tuple_spec(raw@, expected as nat, |t: Seq<char>| class_of(*classify, t)) {
            Ok(toks) => r matches Ok(v) && crate::text::views(v@) == toks,
            Err(f) => r matches Err(e) && e@ == f,
        },
{
    let ghost cls = |t: Seq<char>| class_of(*classify, t);
    let text = trim_chars(raw, 0, raw.len());
    assert(raw@.subrange(0, raw@.len() as int) =~= raw@);
    if !(text.len() >= 2 && text[0] == '(' && text[text.len() - 1] == ')') {
        return Err(TupleError::NotTuple);
    }
    let body = sub_chars(&text, 1, text.len() - 1);
    let ghost all = tokens_from(body@, 0, 0);
    assert(tuple_tokens(raw@) == Some(all));
    let mut toks: Vec<Vec<char>> = Vec::new();
    let mut a: usize = 0;
    let mut b: usize = 0;
    loop
        invariant_except_break
            toks.len() <= a,
            crate::text::views(toks@) + tokens_from(body@, a as int, b as int) == all,
            first_bad_token(all, cls, 0) == first_bad_token(all, cls, toks.len() as int),
        invariant
            a <= b <= body.len(),
            body.len() < usize::MAX,
            all == tokens_from(body@, 0, 0),
            tuple_tokens(raw@) == Some(all),
            classifier_is_function(*classify),
            cls == (|t: Seq<char>| class_of(*classify, t)),
        ensures
            crate::text::views(toks@) == all,
            first_bad_token(all, cls, 0) is None,
        decreases body.len() - b, (if b < body.len() { 1int } else { 0int }),
    {
        if b < body.len() && body[b] != ',' {
            b = b + 1;
        } else {
            let tok = trim_chars(&body, a, b);
            let i = toks.len();
            let ghost before = toks@;
            assert(all[i as int] == tok@) by {
                if b >= body.len() {
                    assert(tokens_from(body@, a as int, b as int) == seq![tok@]);
                } else {
                    assert(tokens_from(body@, a as int, b as int)[0] == tok@);
                }
                assert(all == crate::text::views(before) + tokens_from(body@, a as int, b as int));
            }
            if tok.len() == 0 {
                assert(first_bad_token(all, cls, i as int) == Some(TupleFault::EmptyValue((i + 1) as nat)));
                return Err(TupleError::EmptyValue(i + 1));
            }
            let c = classify(&tok);
            assert(cls(tok@) == c) by {
                assert(answers(*classify, tok@, c));
                let c2 = class_of(*classify, tok@);
                assert(answers(*classify, tok@, c2));
                let x = choose|x: &Vec<char>| x@ == tok@ && #[trigger] call_ensures(*classify, (x,), c2);
            }
            match c {
                NumberClass::Invalid => {
                    return Err(TupleError::InvalidNumber(tok));
                },
                NumberClass::NotFinite => {
                    return Err(TupleError::NotFinite(tok));
                },
                NumberClass::Finite => {},
            }
            assert(first_bad_token(all, cls, i as int) == first_bad_token(all, cls, i + 1));
            toks.push(tok);
            assert(crate::text::views(toks@) =~= crate::text::views(before).push(all[i as int]));
            if b >= body.len() {
                assert(crate::text::views(toks@) =~= all);
                assert(first_bad_token(all, cls, toks.len() as int) is None);
                break;
            }
            assert(crate::text::views(toks@) + tokens_from(body@, b + 1, b + 1) =~= all);
            b = b + 1;
            a = b;
        }
    }
    assert(all.len() == toks.len());
    if toks.len() != expected {
        return Err(TupleError::WrongCount(expected, toks.len()));
    }
    Ok(toks)
}


/// The tuple-valued keys of a rule section in the order they are read, with
/// their defaults and their number of values.
pub open spec fn tuple_key(i: int) -> (Seq<char>, Seq<char>, nat) {
    if i == 0 {
        ("position"@, "( -999.0 , -999.0 , -999.0 )"@, 3)
    } else if i == 1 {
        ("scale"@, "( 1.0 , 1.0 , 1.0 )"@, 3)
    } else if i == 2 {
        ("rotate"@, "( 0.0 , 0.0 , 0.0 )"@, 3)
    } else if i == 3 {
        ("translate"@, "( 0.0 , 0.0 , 0.0 )"@, 3)
    } else if i == 4 {
        ("minimum"@, "( -999.0 , -999.0 , -999.0 )"@, 3)
    } else if i == 5 {
        ("maximum"@, "( 999.0 , 999.0 , 999.0 )"@, 3)
    } else if i == 6 {
        ("tscale"@, "( 1.0 , 1.0 )"@, 2)
    } else if i == 7 {
        ("trotate"@, "( 0.0 )"@, 1)
    } else if i == 8 {
        ("ttranslate"@, "( 0.0 , 0.0 )"@, 2)
    } else if i == 9 {
        ("tminimum"@, "( -999.0 , -999.0 )"@, 2)
    } else {
        ("tmaximum"@, "( 999.0 , 999.0 )"@, 2)
    }
}

/// The number of tuple-valued keys.
pub open spec fn n_tuple_keys() -> int {
    11
}

fn tuple_key_exec(i: usize) -> (r: (&'static str, &'static str, usize))
    requires
        i < 11,
    ensures
        r.0@ == tuple_key(i as int).0,
        r.1@ == tuple_key(i as int).1,
        r.2 == tuple_key(i as int).2,
{
    if i == 0 {
        ("position", "( -999.0 , -999.0 , -999.0 )", 3)
    } else if i == 1 {
        ("scale", "( 1.0 , 1.0 , 1.0 )", 3)
    } else if i == 2 {
        ("rotate", "( 0.0 , 0.0 , 0.0 )", 3)
    } else if i == 3 {
        ("translate", "( 0.0 , 0.0 , 0.0 )", 3)
    } else if i == 4 {
        ("minimum", "( -999.0 , -999.0 , -999.0 )", 3)
    } else if i == 5 {
        ("maximum", "( 999.0 , 999.0 , 999.0 )", 3)
    } else if i == 6 {
        ("tscale", "( 1.0 , 1.0 )", 2)
    } else if i == 7 {
        ("trotate", "( 0.0 )", 1)
    } else if i == 8 {
        ("ttranslate", "( 0.0 , 0.0 )", 2)
    } else if i == 9 {
        ("tminimum", "( -999.0 , -999.0 )", 2)
    } else {
        ("tmaximum", "( 999.0 , 999.0 )", 2)
    }
}

/// The keys a rule section may hold.
pub open spec fn is_known_key(k: Seq<char>) -> bool {
    ||| k == "match"@
    ||| k == "substitute"@
    ||| k == "tbitmap"@
    ||| exists|i: int| 0 <= i < n_tuple_keys() && k == #[trigger] tuple_key(i).0
}

/// The value of `key` in a section, or `default`.
pub open spec fn lookup_or(sec: SectionModel, key: Seq<char>, default: Seq<char>) -> Seq<char> {
    match lookup(sec, key) {
        Some(v) => v,
        None => default,
    }
}

/// Why the rules could not be loaded (the model of `LoadError`).
pub enum LoadFault {
    Ini(nat, IniFault),
    GlobalMissing,
    CountMissing,
    CountInvalid(Seq<char>),
    CountZero,
    SectionMissing(Seq<char>),
    MatchMissing(Seq<char>),
    MatchEmpty(Seq<char>),
    Tuple(Seq<char>, Seq<char>, Seq<char>, TupleFault),
}

/// The tuples of a section from the `i`-th tuple key on.
pub open spec fn tuples_from(sec: SectionModel, name: Seq<char>, cls: spec_fn(Seq<char>) -> NumberClass, i: int) -> Result<Seq<Seq<Seq<char>>>, LoadFault>
    decreases n_tuple_keys() - i,
{
    if i < 0 || i >= n_tuple_keys() {
        Ok(seq![])
    } else {
        let k = tuple_key(i);
        let raw = lookup_or(sec, k.0, k.1);
        match tuple_spec(raw, k.2, cls) {
            Err(f) => Err(LoadFault::Tuple(name, k.0, raw, f)),
            Ok(t) => match tuples_from(sec, name, cls, i + 1) {
                Ok(rest) => Ok(seq![t] + rest),
                Err(e) => Err(e),
            },
        }
    }
}

/// A loaded rule: match and substitute patterns in lower case, the tuple
/// values as number tokens (in the order of `tuple_key`), and the texture
/// restriction in lower case.
pub struct RuleModel {
    pub match_pat: Seq<char>,
    pub substitute: Seq<char>,
    pub tuples: Seq<Seq<Seq<char>>>,
    pub tbitmap: Option<Seq<char>>,
}

/// The `tbitmap=` restriction: a non-empty value, in lower case.
pub open spec fn tbitmap_of(sec: SectionModel) -> Option<Seq<char>> {
    match lookup(sec, "tbitmap"@) {
        Some(v) => if v.len() > 0 {
            Some(str_lowercase(v))
        } else {
            None
        },
        None => None,
    }
}

/// The rule that a section named `name` holds.
pub open spec fn section_rule(sec: SectionModel, name: Seq<char>, cls: spec_fn(Seq<char>) -> NumberClass) -> Result<RuleModel, LoadFault> {
    match lookup(sec, "match"@) {
        None => Err(LoadFault::MatchMissing(name)),
        Some(m) => {
            let mp = str_lowercase(m);
            if mp.len() == 0 {
                Err(LoadFault::MatchEmpty(name))
            } else {
                match tuples_from(sec, name, cls, 0) {
                    Err(e) => Err(e),
                    Ok(ts) => Ok(
                        RuleModel {
                            match_pat: mp,
                            substitute: str_lowercase(lookup_or(sec, "substitute"@, "*"@)),
                            tuples: ts,
                            tbitmap: tbitmap_of(sec),
                        },
                    ),
                }
            }
        },
    }
}

/// The unknown keys of a section from entry `i` on, each with the section name.
pub open spec fn unknown_from(sec: SectionModel, name: Seq<char>, i: int) -> Seq<(Seq<char>, Seq<char>)>
    decreases sec.1.len() - i,
{
    if i < 0 || i >= sec.1.len() {
        seq![]
    } else if is_known_key(sec.1[i].0) {
        unknown_from(sec, name, i + 1)
    } else {
        seq![(name, sec.1[i].0)] + unknown_from(sec, name, i + 1)
    }
}

/// The name of the `k`-th rule section.
pub open spec fn rule_section_name(k: nat) -> Seq<char> {
    "s"@ + decimal(k)
}

/// Warnings and rules (or the first fault) for rule sections `k`..`count`.
pub open spec fn load_from(ini: IniModel, count: nat, k: nat, cls: spec_fn(Seq<char>) -> NumberClass) -> (Seq<(Seq<char>, Seq<char>)>, Result<Seq<RuleModel>, LoadFault>)
    decreases count - k,
{
    if k >= count {
        (seq![], Ok(seq![]))
    } else {
        let name = rule_section_name(k);
        match section_index(ini, name) {
            None => (seq![], Err(LoadFault::SectionMissing(name))),
            Some(si) => {
                let w = unknown_from(ini[si], name, 0);
                match section_rule(ini[si], name, cls) {
                    Err(e) => (w, Err(e)),
                    Ok(r) => {
                        let rest = load_from(ini, count, k + 1, cls);
                        (
                            w + rest.0,
                            match rest.1 {
                                Ok(rs) => Ok(seq![r] + rs),
                                Err(e) => Err(e),
                            },
                        )
                    },
                }
            },
        }
    }
}

/// The unknown-key warnings and the rules (or the first fault) of an INI text.
pub open spec fn load_spec(text: Seq<char>, cls: spec_fn(Seq<char>) -> NumberClass) -> (Seq<(Seq<char>, Seq<char>)>, Result<Seq<RuleModel>, LoadFault>) {
    match parse_ini_spec(text) {
        Err(e) => (seq![], Err(LoadFault::Ini(e.0, e.1))),
        Ok(ini) => match section_index(ini, "global"@) {
            None => (seq![], Err(LoadFault::GlobalMissing)),
            Some(g) => match lookup(ini[g], "ntransforms"@) {
                None => (seq![], Err(LoadFault::CountMissing)),
                Some(raw) => match parse_usize(raw) {
                    None => (seq![], Err(LoadFault::CountInvalid(raw))),
                    Some(n) => if n == 0 {
                        (seq![], Err(LoadFault::CountZero))
                    } else {
                        load_from(ini, n, 0, cls)
                    },
                },
            },
        },
    }
}


/// A loaded rule section.
pub struct TransformRule {
    /// The `match=` pattern, in lower case.
    pub match_pat: Vec<char>,
    /// The `substitute=` pattern (default `*`), in lower case.
    pub substitute: Vec<char>,
    /// The number tokens of `position`, `scale`, `rotate`, `translate`,
    /// `minimum`, `maximum`, `tscale`, `trotate`, `ttranslate`, `tminimum`
    /// and `tmaximum`, in this order (see `tuple_key`).
    pub tuples: Vec<Vec<Vec<char>>>,
    /// The `tbitmap=` restriction, in lower case, if set and not empty.
    pub tbitmap: Option<Vec<char>>,
}

/// The token lists of a list of tuples.
pub open spec fn tuples_view(v: Seq<Vec<Vec<char>>>) -> Seq<Seq<Seq<char>>> {
    v.map_values(|x: Vec<Vec<char>>| views(x@))
}

/// An optional character vector, as characters.
pub open spec fn opt_view(o: Option<Vec<char>>) -> Option<Seq<char>> {
    match o {
        Some(v) => Some(v@),
        None => None,
    }
}

impl View for TransformRule {
    type V = RuleModel;

    open spec fn view(&self) -> RuleModel {
        RuleModel {
            match_pat: self.match_pat@,
            substitute: self.substitute@,
            tuples: tuples_view(self.tuples@),
            tbitmap: opt_view(self.tbitmap),
        }
    }
}

/// A loaded rule's names are set: a non-empty `match=` pattern, and a
/// `tbitmap=` restriction that is non-empty where there is one.
pub open spec fn rule_names_set(r: RuleModel) -> bool {
    r.match_pat.len() > 0 && (r.tbitmap matches Some(b) ==> b.len() > 0)
}

/// Every rule of `rs` has its names set.
pub open spec fn all_names_set(rs: Seq<RuleModel>) -> bool {
    forall|i: int| 0 <= i < rs.len() ==> rule_names_set(#[trigger] rs[i])
}

/// The models of a list of rules.
pub open spec fn rules_view(v: Seq<TransformRule>) -> Seq<RuleModel> {
    v.map_values(|r: TransformRule| r@)
}

/// Pairs of character vectors, as characters.
pub open spec fn pairs_view(v: Seq<(Vec<char>, Vec<char>)>) -> Seq<(Seq<char>, Seq<char>)> {
    v.map_values(|p: (Vec<char>, Vec<char>)| (p.0@, p.1@))
}

/// Why the rules could not be loaded.
pub enum LoadError {
    /// The text is not valid INI.
    Ini(IniError),
    /// No `[Global]` section.
    GlobalMissing,
    /// No `nTransforms` key in `[Global]`.
    CountMissing,
    /// `nTransforms` is not a number; holds its value.
    CountInvalid(Vec<char>),
    /// `nTransforms` is 0.
    CountZero,
    /// A rule section `[sK]` is missing; holds its name.
    SectionMissing(Vec<char>),
    /// A rule section lacks `match=`; holds the section name.
    MatchMissing(Vec<char>),
    /// A rule section has an empty `match=`; holds the section name.
    MatchEmpty(Vec<char>),
    /// A tuple value was rejected: section, key, value, reason.
    Tuple(Vec<char>, Vec<char>, Vec<char>, TupleError),
}

impl View for LoadError {
    type V = LoadFault;

    open spec fn view(&self) -> LoadFault {
        match self {
            LoadError::Ini(e) => LoadFault::Ini(e@.0, e@.1),
            LoadError::GlobalMissing => LoadFault::GlobalMissing,
            LoadError::CountMissing => LoadFault::CountMissing,
            LoadError::CountInvalid(v) => LoadFault::CountInvalid(v@),
            LoadError::CountZero => LoadFault::CountZero,
            LoadError::SectionMissing(n) => LoadFault::SectionMissing(n@),
            LoadError::MatchMissing(n) => LoadFault::MatchMissing(n@),
            LoadError::MatchEmpty(n) => LoadFault::MatchEmpty(n@),
            LoadError::Tuple(n, k, v, f) => LoadFault::Tuple(n@, k@, v@, f@),
        }
    }
}

/// `Ok(acc + rest)` where `r` is `Ok(rest)`, else the fault of `r`.
pub open spec fn prepend_ok<T>(acc: Seq<T>, r: Result<Seq<T>, LoadFault>) -> Result<Seq<T>, LoadFault> {
    match r {
        Ok(rest) => Ok(acc + rest),
        Err(e) => Err(e),
    }
}

fn section_tuples<F: Fn(&Vec<char>) -> NumberClass>(sec: &IniSection, name: &Vec<char>, classify: &F) -> (r: Result<Vec<Vec<Vec<char>>>, LoadError>)
    requires
        classifier_is_function(*classify),
    ensures
        match tuples_from(sec@, name@, |t: Seq<char>| class_of(*classify, t), 0) {
            Ok(ts) => r matches Ok(v) && tuples_view(v@) == ts,
            Err(f) => r matches Err(e) && e@ == f,
        },
{
    let ghost cls = |t: Seq<char>| class_of(*classify, t);
    let mut acc: Vec<Vec<Vec<char>>> = Vec::new();
    let mut i: usize = 0;
    assert(tuples_view(acc@) =~= seq![]);
    assert(prepend_ok(seq![], tuples_from(sec@, name@, cls, 0)) =~= tuples_from(sec@, name@, cls, 0));
    while i < 11
        invariant
            i <= 11,
            classifier_is_function(*classify),
            cls == (|t: Seq<char>| class_of(*classify, t)),
            tuples_from(sec@, name@, cls, 0) == prepend_ok(tuples_view(acc@), tuples_from(sec@, name@, cls, i as int)),
        decreases 11 - i,
    {
        let (key, default, n) = tuple_key_exec(i);
        let raw = get_str(sec, key, default);
        assert(raw@ == lookup_or(sec@, tuple_key(i as int).0, tuple_key(i as int).1));
        match parse_tuple(&raw, n, classify) {
            Err(f) => {
                return Err(LoadError::Tuple(copy_chars(name), chars_of(key), raw, f));
            },
            Ok(t) => {
                let ghost before = tuples_view(acc@);
                acc.push(t);
                assert(tuples_view(acc@) =~= before.push(views(t@)));
                assert(prepend_ok(before, tuples_from(sec@, name@, cls, i as int)) =~= prepend_ok(tuples_view(acc@), tuples_from(sec@, name@, cls, i + 1))) by {
                    match tuples_from(sec@, name@, cls, i + 1) {
                        Ok(rest) => {
                            assert(before + (seq![views(t@)] + rest) =~= tuples_view(acc@) + rest);
                        },
                        Err(e) => {},
                    }
                }
            },
        }
        i = i + 1;
    }
    assert(tuples_view(acc@) + seq![] =~= tuples_view(acc@));
    Ok(acc)
}

fn is_known_key_exec(k: &Vec<char>) -> (b: bool)
    ensures
        b == is_known_key(k@),
{
    if chars_eq(k, &chars_of("match")) || chars_eq(k, &chars_of("substitute")) || chars_eq(k, &chars_of("tbitmap")) {
        return true;
    }
    let mut i: usize = 0;
    while i < 11
        invariant
            i <= 11,
            forall|j: int| 0 <= j < i ==> k@ != #[trigger] tuple_key(j).0,
        decreases 11 - i,
    {
        let (key, _default, _n) = tuple_key_exec(i);
        if chars_eq(k, &chars_of(key)) {
            assert(k@ == tuple_key(i as int).0);
            return true;
        }
        i = i + 1;
    }
    false
}

fn unknown_keys(sec: &IniSection, name: &Vec<char>) -> (r: Vec<(Vec<char>, Vec<char>)>)
    ensures
        pairs_view(r@) == unknown_from(sec@, name@, 0),
{
    let ghost m = sec@;
    let mut out: Vec<(Vec<char>, Vec<char>)> = Vec::new();
    let mut i: usize = 0;
    assert(pairs_view(out@) =~= seq![]);
    while i < sec.entries.len()
        invariant
            m == sec@,
            m.1.len() == sec.entries.len(),
            i <= sec.entries.len(),
            pairs_view(out@) + unknown_from(m, name@, i as int) == unknown_from(m, name@, 0),
        decreases sec.entries.len() - i,
    {
        assert(m.1[i as int] == sec.entries@[i as int]@);
        if !is_known_key_exec(&sec.entries[i].key) {
            let ghost before = pairs_view(out@);
            out.push((copy_chars(name), copy_chars(&sec.entries[i].key)));
            assert(pairs_view(out@) =~= before.push((name@, m.1[i as int].0)));
            assert(before + unknown_from(m, name@, i as int) =~= pairs_view(out@) + unknown_from(m, name@, i + 1));
        }
        i = i + 1;
    }
    assert(pairs_view(out@) + seq![] =~= pairs_view(out@));
    out
}

fn load_section<F: Fn(&Vec<char>) -> NumberClass>(sec: &IniSection, name: &Vec<char>, classify: &F) -> (r: Result<TransformRule, LoadError>)
    requires
        classifier_is_function(*classify),
    ensures
        match section_rule(sec@, name@, |t: Seq<char>| class_of(*classify, t)) {
            Ok(rule) => r matches Ok(v) && v@ == rule,
            Err(f) => r matches Err(e) && e@ == f,
        },
        r matches Ok(v) ==> rule_names_set(v@),
{
    let m = match get_value(sec, "match") {
        None => {
            return Err(LoadError::MatchMissing(copy_chars(name)));
        },
        Some(m) => m,
    };
    let match_pat = lowercase(&m);
    if match_pat.len() == 0 {
        return Err(LoadError::MatchEmpty(copy_chars(name)));
    }
    let sub_raw = get_str(sec, "substitute", "*");
    let substitute = lowercase(&sub_raw);
    let tuples = match section_tuples(sec, name, classify) {
        Err(e) => {
            return Err(e);
        },
        Ok(t) => t,
    };
    let tbitmap = match get_value(sec, "tbitmap") {
        Some(v) => if v.len() > 0 {
            Some(lowercase(&v))
        } else {
            None
        },
        None => None,
    };
    Ok(TransformRule { match_pat, substitute, tuples, tbitmap })
}

fn section_name(k: usize) -> (r: Vec<char>)
    ensures
        r@ == rule_section_name(k as nat),
{
    let mut r = chars_of("s");
    let d = decimal_chars(k);
    push_all(&mut r, &d);
    r
}

/// The warnings and rules gathered so far, followed by those of the rest.
pub open spec fn join_load(
    w: Seq<(Seq<char>, Seq<char>)>,
    rs: Seq<RuleModel>,
    rest: (Seq<(Seq<char>, Seq<char>)>, Result<Seq<RuleModel>, LoadFault>),
) -> (Seq<(Seq<char>, Seq<char>)>, Result<Seq<RuleModel>, LoadFault>) {
    (w + rest.0, prepend_ok(rs, rest.1))
}

/// Loads the rules of an INI text: the unknown keys met (with their
/// sections) and the rules, or the first fault.
pub fn load_rules<F: Fn(&Vec<char>) -> NumberClass>(text: &str, classify: &F) -> (r: (Vec<(Vec<char>, Vec<char>)>, Result<Vec<TransformRule>, LoadError>))
    requires
        classifier_is_function(*classify),
    ensures
        pairs_view(r.0@) == load_spec(text@, |t: Seq<char>| class_of(*classify, t)).0,
        match load_spec(text@, |t: Seq<char>| class_of(*classify, t)).1 {
            Ok(rs) => r.1 matches Ok(v) && rules_view(v@) == rs,
            Err(f) => r.1 matches Err(e) && e@ == f,
        },
        r.1 matches Ok(v) ==> all_names_set(rules_view(v@)),
{
    let ghost cls = |t: Seq<char>| class_of(*classify, t);
    let mut warns: Vec<(Vec<char>, Vec<char>)> = Vec::new();
    assert(pairs_view(warns@) =~= seq![]);
    let ini = match parse_ini(text) {
        Err(e) => {
            return (warns, Err(LoadError::Ini(e)));
        },
        Ok(ini) => ini,
    };
    let ghost im = ini@;
    let g = match find_section(&ini.sections, &chars_of("global")) {
        None => {
            return (warns, Err(LoadError::GlobalMissing));
        },
        Some(g) => g,
    };
    assert(im[g as int] == ini.sections@[g as int]@);
    let raw = match get_value(&ini.sections[g], "ntransforms") {
        None => {
            return (warns, Err(LoadError::CountMissing));
        },
        Some(raw) => raw,
    };
    let count = match parse_usize_chars(&raw) {
        None => {
            return (warns, Err(LoadError::CountInvalid(raw)));
        },
        Some(c) => c,
    };
    if count == 0 {
        return (warns, Err(LoadError::CountZero));
    }
    assert(load_spec(text@, cls) == load_from(im, count as nat, 0, cls));
    let mut rules: Vec<TransformRule> = Vec::new();
    let mut k: usize = 0;
    assert(rules_view(rules@) =~= seq![]);
    assert(join_load(seq![], seq![], load_from(im, count as nat, 0, cls)) =~= load_from(im, count as nat, 0, cls));
    while k < count
        invariant
            k <= count,
            im == ini@,
            classifier_is_function(*classify),
            cls == (|t: Seq<char>| class_of(*classify, t)),
            load_from(im, count as nat, 0, cls) == join_load(pairs_view(warns@), rules_view(rules@), load_from(im, count as nat, k as nat, cls)),
            load_spec(text@, cls) == load_from(im, count as nat, 0, cls),
            all_names_set(rules_view(rules@)),
        decreases count - k,
    {
        let name = section_name(k);
        match find_section(&ini.sections, &name) {
            None => {
                assert(join_load(pairs_view(warns@), rules_view(rules@), load_from(im, count as nat, k as nat, cls)).0 =~= pairs_view(warns@));
                return (warns, Err(LoadError::SectionMissing(name)));
            },
            Some(si) => {
                assert(im[si as int] == ini.sections@[si as int]@);
                let w = unknown_keys(&ini.sections[si], &name);
                let ghost before_w = pairs_view(warns@);
                let mut j: usize = 0;
                while j < w.len()
                    invariant
                        j <= w.len(),
                        pairs_view(warns@) == before_w + pairs_view(w@).take(j as int),
                    decreases w.len() - j,
                {
                    let ghost bw = pairs_view(warns@);
                    warns.push((copy_chars(&w[j].0), copy_chars(&w[j].1)));
                    assert(pairs_view(warns@) =~= bw.push(pairs_view(w@)[j as int]));
                    assert(pairs_view(w@).take(j + 1) =~= pairs_view(w@).take(j as int).push(pairs_view(w@)[j as int]));
                    j = j + 1;
                }
                assert(pairs_view(w@).take(j as int) =~= pairs_view(w@));
                match load_section(&ini.sections[si], &name, classify) {
                    Err(e) => {
                        return (warns, Err(e));
                    },
                    Ok(rule) => {
                        let ghost br = rules_view(rules@);
                        rules.push(rule);
                        assert(rules_view(rules@) =~= br.push(rule@));
                        let ghost rest = load_from(im, count as nat, (k + 1) as nat, cls);
                        assert(join_load(before_w, br, load_from(im, count as nat, k as nat, cls)) =~= join_load(pairs_view(warns@), rules_view(rules@), rest)) by {
                            match rest.1 {
                                Ok(rs) => {
                                    assert(br + (seq![rule@] + rs) =~= rules_view(rules@) + rs);
                                },
                                Err(e) => {},
                            }
                        }
                    },
                }
            },
        }
        k = k + 1;
    }
    assert(pairs_view(warns@) + seq![] =~= pairs_view(warns@));
    assert(rules_view(rules@) + seq![] =~= rules_view(rules@));
    (warns, Ok(rules))
}


/// The end of the text of a rejected tuple value `raw`.
pub open spec fn tuple_message(raw: Seq<char>, f: TupleFault) -> Seq<char> {
    match f {
        TupleFault::NotTuple => "expected a tuple, got '"@ + raw + "'"@,
        TupleFault::EmptyValue(p) => "empty value at position "@ + decimal(p),
        TupleFault::InvalidNumber(t) => "invalid number '"@ + t + "'"@,
        TupleFault::NotFinite(t) => "number '"@ + t + "' is not finite"@,
        TupleFault::WrongCount(e, g) => "expected "@ + decimal(e) + " value(s), got "@ + decimal(
            g,
        ),
    }
}

/// The text of a load fault for the rule file at `path`.
pub open spec fn load_message(path: Seq<char>, f: LoadFault) -> Seq<char> {
    match f {
        LoadFault::Ini(n, e) => ini_message(path, (n, e)),
        LoadFault::GlobalMissing => path + ": Section [Global]: missing"@,
        LoadFault::CountMissing => path + ": Section [Global], Key 'nTransforms': missing"@,
        LoadFault::CountInvalid(raw) => path + ": Section [Global], Key 'nTransforms': invalid number '"@
            + raw + "'"@,
        LoadFault::CountZero => path
            + ": Section [Global], Key 'nTransforms': must be greater than 0"@,
        LoadFault::SectionMissing(n) => path + ": Section ["@ + n + "]: missing"@,
        LoadFault::MatchMissing(n) => path + ": Section ["@ + n + "], Key 'match': missing"@,
        LoadFault::MatchEmpty(n) => path + ": Section ["@ + n
            + "], Key 'match': must not be empty"@,
        LoadFault::Tuple(n, k, raw, tf) => path + ": Section ["@ + n + "], Key '"@ + k + "': "@
            + tuple_message(raw, tf),
    }
}

fn push_tuple_message(out: &mut Vec<char>, raw: &Vec<char>, f: &TupleError)
    ensures
        final(out)@ == old(out)@ + tuple_message(raw@, f@),
{
    let ghost start = out@;
    match f {
        TupleError::NotTuple => {
            push_str(out, "expected a tuple, got '");
            push_all(out, raw);
            push_str(out, "'");
        },
        TupleError::EmptyValue(p) => {
            push_str(out, "empty value at position ");
            push_all(out, &decimal_chars(*p));
        },
        TupleError::InvalidNumber(t) => {
            push_str(out, "invalid number '");
            push_all(out, t);
            push_str(out, "'");
        },
        TupleError::NotFinite(t) => {
            push_str(out, "number '");
            push_all(out, t);
            push_str(out, "' is not finite");
        },
        TupleError::WrongCount(e, g) => {
            push_str(out, "expected ");
            push_all(out, &decimal_chars(*e));
            push_str(out, " value(s), got ");
            push_all(out, &decimal_chars(*g));
        },
    }
    assert(out@ =~= start + tuple_message(raw@, f@));
}

/// Renders a load fault for the rule file at `path`.
pub fn load_error_message(path: &str, e: &LoadError) -> (r: String)
    ensures
        r@ == load_message(path@, e@),
{
    if let LoadError::Ini(ie) = e {
        return crate::ini::ini_error_message(path, ie);
    }
    let mut out: Vec<char> = Vec::new();
    push_str(&mut out, path);
    match e {
        LoadError::Ini(_) => {},
        LoadError::GlobalMissing => {
            push_str(&mut out, ": Section [Global]: missing");
        },
        LoadError::CountMissing => {
            push_str(&mut out, ": Section [Global], Key 'nTransforms': missing");
        },
        LoadError::CountInvalid(raw) => {
            push_str(&mut out, ": Section [Global], Key 'nTransforms': invalid number '");
            push_all(&mut out, raw);
            push_str(&mut out, "'");
        },
        LoadError::CountZero => {
            push_str(&mut out, ": Section [Global], Key 'nTransforms': must be greater than 0");
        },
        LoadError::SectionMissing(n) => {
            push_str(&mut out, ": Section [");
            push_all(&mut out, n);
            push_str(&mut out, "]: missing");
        },
        LoadError::MatchMissing(n) => {
            push_str(&mut out, ": Section [");
            push_all(&mut out, n);
            push_str(&mut out, "], Key 'match': missing");
        },
        LoadError::MatchEmpty(n) => {
            push_str(&mut out, ": Section [");
            push_all(&mut out, n);
            push_str(&mut out, "], Key 'match': must not be empty");
        },
        LoadError::Tuple(n, k, raw, tf) => {
            push_str(&mut out, ": Section [");
            push_all(&mut out, n);
            push_str(&mut out, "], Key '");
            push_all(&mut out, k);
            push_str(&mut out, "': ");
            push_tuple_message(&mut out, raw, tf);
        },
    }
    string_of(&out)
}

/// Loads the transform rules of the rule file at `path` with text
/// `ini_text`: the unknown keys met in rule sections (with their section),
/// and the rules or a `ParseError` that says where and why.
pub fn load_transform_rules<F: Fn(&Vec<char>) -> NumberClass>(path: &str, ini_text: &str, classify: &F) -> (r: (Vec<(Vec<char>, Vec<char>)>, Result<Vec<TransformRule>, ParseError>))
    requires
        classifier_is_function(*classify),
    ensures
        pairs_view(r.0@) == load_spec(ini_text@, |t: Seq<char>| class_of(*classify, t)).0,
        match load_spec(ini_text@, |t: Seq<char>| class_of(*classify, t)).1 {
            Ok(rs) => r.1 matches Ok(v) && rules_view(v@) == rs,
            Err(f) => r.1 matches Err(pe) && pe.0@ == load_message(path@, f),
        },
        r.1 matches Ok(v) ==> all_names_set(rules_view(v@)),
{
    let (warns, res) = load_rules(ini_text, classify);
    match res {
        Ok(rules) => (warns, Ok(rules)),
        Err(e) => (warns, Err(ParseError(load_error_message(path, &e)))),
    }
}

} // verus!
