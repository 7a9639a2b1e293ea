//! Reading the geometry of a model for fitting: the `verts` and `tverts`
//! blocks and the `position` lines, line by line. Numbers stay text; the
//! caller's classifier tells which tokens are finite numbers.

use vstd::prelude::*;
use crate::model::{model_error_chars, model_error_text};
use crate::rules::{class_of, classifier_is_function, lemma_class_of, NumberClass};
use crate::text::{
    chars_eq, chars_of, copy_chars, decimal_chars, lowercase, parse_usize, parse_usize_chars,
    push_all, push_str, split_words, str_lowercase, string_of, views, words,
};

verus! {

/// What the next line is read as (the model of `GeoExpect`).
pub enum GeoExpectModel {
    Line,
    Items { verts: bool, remaining: nat, block: Seq<char> },
}

/// The model of a `GeometryReader`.
pub struct GeoModel {
    pub path: Seq<char>,
    pub line_no: nat,
    pub expect: GeoExpectModel,
}

/// What the caller does with one line (the model of `GeoAction`).
pub enum GeoActionModel {
    Vertex(Seq<Seq<char>>),
    Texture(Seq<Seq<char>>),
    Position(Seq<Seq<char>>),
    Skip,
    Fail(Seq<char>),
    Done,
}

/// The tokens of a number line: not one is rejected as not a number; then
/// there are enough of them (`exact`: exactly as many) and all are finite.
pub open spec fn geo_fault(toks: Seq<Seq<char>>, needed: nat, exact: bool, cls: spec_fn(Seq<char>) -> NumberClass) -> Option<bool> {
    if exists|i: int| 0 <= i < toks.len() && cls(#[trigger] toks[i]) == NumberClass::Invalid {
        Some(true)
    } else if (if exact {
        toks.len() != needed
    } else {
        toks.len() < needed
    }) || exists|i: int| 0 <= i < toks.len() && cls(#[trigger] toks[i]) == NumberClass::NotFinite {
        Some(false)
    } else {
        None
    }
}

/// One line outside a block; `st.line_no` is already its number.
pub open spec fn geo_line(st: GeoModel, line: Seq<char>, cls: spec_fn(Seq<char>) -> NumberClass) -> (GeoModel, GeoActionModel) {
    let ws = words(line);
    let kw = str_lowercase(
        if ws.len() > 0 {
            ws[0]
        } else {
            seq![]
        },
    );
    let n = st.line_no;
    if kw == "verts"@ || kw == "tverts"@ {
        if ws.len() < 2 {
            (st, GeoActionModel::Fail(model_error_text(st.path, n, kw, "Count missing"@)))
        } else {
            match parse_usize(ws[1]) {
                None => (
                    st,
                    GeoActionModel::Fail(
                        model_error_text(st.path, n, kw, "invalid count '"@ + ws[1] + "'"@),
                    ),
                ),
                Some(c) => (
                    GeoModel {
                        expect: if c == 0 {
                            GeoExpectModel::Line
                        } else {
                            GeoExpectModel::Items { verts: kw == "verts"@, remaining: c, block: kw }
                        },
                        ..st
                    },
                    GeoActionModel::Skip,
                ),
            }
        }
    } else if kw == "position"@ {
        let toks = if ws.len() > 0 {
            ws.skip(1)
        } else {
            ws
        };
        match geo_fault(toks, 3, true, cls) {
            Some(true) => (
                st,
                GeoActionModel::Fail(
                    model_error_text(st.path, n, "position"@, "invalid number"@),
                ),
            ),
            Some(false) => (
                st,
                GeoActionModel::Fail(
                    model_error_text(
                        st.path,
                        n,
                        "position"@,
                        "exactly 3 finite numbers expected"@,
                    ),
                ),
            ),
            None => (st, GeoActionModel::Position(toks)),
        }
    } else {
        (st, GeoActionModel::Skip)
    }
}

/// One input (a line, or `None` at the end of the file) applied to the
/// reader's state.
pub open spec fn geo_step(st: GeoModel, input: Option<Seq<char>>, cls: spec_fn(Seq<char>) -> NumberClass) -> (GeoModel, GeoActionModel) {
    match st.expect {
        GeoExpectModel::Items { verts, remaining, block } => {
            let n = st.line_no + 1;
            let st1 = GeoModel { line_no: n, ..st };
            let needed: nat = if verts {
                3
            } else {
                2
            };
            match input {
                None => (
                    st1,
                    GeoActionModel::Fail(
                        model_error_text(st.path, n, block, "unexpected end of file"@),
                    ),
                ),
                Some(line) => {
                    let toks = words(line);
                    match geo_fault(toks, needed, false, cls) {
                        Some(true) => (
                            st1,
                            GeoActionModel::Fail(
                                model_error_text(st.path, n, block, "invalid number"@),
                            ),
                        ),
                        Some(false) => (
                            st1,
                            GeoActionModel::Fail(
                                model_error_text(
                                    st.path,
                                    n,
                                    block,
                                    "at least "@ + crate::text::decimal(needed)
                                        + " finite numbers expected"@,
                                ),
                            ),
                        ),
                        None => (
                            GeoModel {
                                expect: if remaining <= 1 {
                                    GeoExpectModel::Line
                                } else {
                                    GeoExpectModel::Items {
                                        verts,
                                        remaining: (remaining - 1) as nat,
                                        block,
                                    }
                                },
                                ..st1
                            },
                            if verts {
                                GeoActionModel::Vertex(toks.take(3))
                            } else {
                                GeoActionModel::Texture(toks.take(2))
                            },
                        ),
                    }
                },
            }
        },
        GeoExpectModel::Line => match input {
            None => (st, GeoActionModel::Done),
            Some(line) => geo_line(GeoModel { line_no: st.line_no + 1, ..st }, line, cls),
        },
    }
}

/// What the next line is read as.
pub enum GeoExpect {
    Line,
    Items { verts: bool, remaining: usize, block: Vec<char> },
}

impl View for GeoExpect {
    type V = GeoExpectModel;

    open spec fn view(&self) -> GeoExpectModel {
        match self {
            GeoExpect::Line => GeoExpectModel::Line,
            GeoExpect::Items { verts, remaining, block } => GeoExpectModel::Items {
                verts: *verts,
                remaining: *remaining as nat,
                block: block@,
            },
        }
    }
}

/// The state of reading the geometry of one model file.
pub struct GeometryReader {
    path: Vec<char>,
    line_no: usize,
    expect: GeoExpect,
}

impl View for GeometryReader {
    type V = GeoModel;

    closed spec fn view(&self) -> GeoModel {
        GeoModel { path: self.path@, line_no: self.line_no as nat, expect: self.expect@ }
    }
}

/// What the caller does with one line.
pub enum GeoAction {
    /// A vertex: the first three numbers of the line.
    Vertex(Vec<Vec<char>>),
    /// A texture vertex: the first two numbers of the line.
    Texture(Vec<Vec<char>>),
    /// A `position` line: its three numbers.
    Position(Vec<Vec<char>>),
    /// Nothing to record.
    Skip,
    /// Stop: the file is rejected with this text.
    Fail(String),
    /// The end of the file, with no block left open.
    Done,
}

impl View for GeoAction {
    type V = GeoActionModel;

    open spec fn view(&self) -> GeoActionModel {
        match self {
            GeoAction::Vertex(t) => GeoActionModel::Vertex(views(t@)),
            GeoAction::Texture(t) => GeoActionModel::Texture(views(t@)),
            GeoAction::Position(t) => GeoActionModel::Position(views(t@)),
            GeoAction::Skip => GeoActionModel::Skip,
            GeoAction::Fail(s) => GeoActionModel::Fail(s@),
            GeoAction::Done => GeoActionModel::Done,
        }
    }
}

fn geo_fault_exec<F: Fn(&Vec<char>) -> NumberClass>(toks: &Vec<Vec<char>>, needed: usize, exact: bool, classify: &F) -> (r: Option<bool>)
    requires
        classifier_is_function(*classify),
    ensures
        r == geo_fault(views(toks@), needed as nat, exact, |t: Seq<char>| class_of(*classify, t)),
{
    let ghost cls = |t: Seq<char>| class_of(*classify, t);
    let ghost v = views(toks@);
    let mut invalid = false;
    let mut not_finite = false;
    let mut i: usize = 0;
    while i < toks.len()
        invariant
            v == views(toks@),
            cls == (|t: Seq<char>| class_of(*classify, t)),
            classifier_is_function(*classify),
            i <= toks.len(),
            invalid == exists|j: int| 0 <= j < i && cls(#[trigger] v[j]) == NumberClass::Invalid,
            not_finite == exists|j: int| 0 <= j < i && cls(#[trigger] v[j]) == NumberClass::NotFinite,
        decreases toks.len() - i,
    {
        let c = classify(&toks[i]);
        proof {
            lemma_class_of(*classify, &toks@[i as int], c);
            assert(v[i as int] == toks@[i as int]@);
        }
        if c == NumberClass::Invalid {
            invalid = true;
        }
        if c == NumberClass::NotFinite {
            not_finite = true;
        }
        i = i + 1;
    }
    let count_bad = if exact {
        toks.len() != needed
    } else {
        toks.len() < needed
    };
    if invalid {
        Some(true)
    } else if count_bad || not_finite {
        Some(false)
    } else {
        None
    }
}

fn first_tokens(toks: &Vec<Vec<char>>, from: usize, to: usize) -> (r: Vec<Vec<char>>)
    requires
        from <= to <= toks.len(),
    ensures
        views(r@) == views(toks@).subrange(from as int, to as int),
{
    let mut r: Vec<Vec<char>> = Vec::new();
    let mut i: usize = from;
    assert(views(r@) =~= views(toks@).subrange(from as int, from as int));
    while i < to
        invariant
            from <= i <= to <= toks.len(),
            views(r@) == views(toks@).subrange(from as int, i as int),
        decreases to - i,
    {
        let ghost before = views(r@);
        r.push(copy_chars(&toks[i]));
        assert(views(r@) =~= before.push(views(toks@)[i as int]));
        assert(views(r@) =~= views(toks@).subrange(from as int, i + 1));
        i = i + 1;
    }
    r
}

fn geo_fail(m: Vec<char>) -> (r: GeoAction)
    ensures
        r@ == GeoActionModel::Fail(m@),
{
    GeoAction::Fail(string_of(&m))
}

impl GeometryReader {
    /// Starts reading the model file at `path` (used in error texts).
    pub fn new(path: &str) -> (r: GeometryReader)
        ensures
            r@ == (GeoModel { path: path@, line_no: 0, expect: GeoExpectModel::Line }),
    {
        GeometryReader { path: chars_of(path), line_no: 0, expect: GeoExpect::Line }
    }

    /// The number of lines read so far.
    pub fn line_no(&self) -> (n: usize)
        ensures
            n == self@.line_no,
    {
        self.line_no
    }

    fn line_exec<F: Fn(&Vec<char>) -> NumberClass>(&mut self, line: &Vec<char>, classify: &F) -> (r: GeoAction)
        requires
            old(self)@.expect == GeoExpectModel::Line,
            classifier_is_function(*classify),
        ensures
            (final(self)@, r@) == geo_line(old(self)@, line@, |t: Seq<char>| class_of(*classify, t)),
    {
        let ws = split_words(line);
        let ghost wv = views(ws@);
        let first = if ws.len() > 0 {
            copy_chars(&ws[0])
        } else {
            Vec::new()
        };
        assert(first@ == (if wv.len() > 0 { wv[0] } else { seq![] }));
        let kw = lowercase(&first);
        let n = self.line_no;
        let is_verts = chars_eq(&kw, &chars_of("verts"));
        if is_verts || chars_eq(&kw, &chars_of("tverts")) {
            if ws.len() < 2 {
                return geo_fail(model_error_chars(&self.path, n, &kw, &chars_of("Count missing")));
            }
            assert(wv[1] == ws@[1]@);
            match parse_usize_chars(&ws[1]) {
                None => {
                    let mut m = chars_of("invalid count '");
                    push_all(&mut m, &ws[1]);
                    push_str(&mut m, "'");
                    return geo_fail(model_error_chars(&self.path, n, &kw, &m));
                },
                Some(c) => {
                    if c == 0 {
                        self.expect = GeoExpect::Line;
                    } else {
                        self.expect = GeoExpect::Items { verts: is_verts, remaining: c, block: kw };
                    }
                    return GeoAction::Skip;
                },
            }
        }
        if chars_eq(&kw, &chars_of("position")) {
            let start: usize = if ws.len() > 0 {
                1
            } else {
                0
            };
            let toks = first_tokens(&ws, start, ws.len());
            assert(views(toks@) =~= (if wv.len() > 0 { wv.skip(1) } else { wv }));
            match geo_fault_exec(&toks, 3, true, classify) {
                Some(true) => {
                    return geo_fail(model_error_chars(&self.path, n, &chars_of("position"), &chars_of("invalid number")));
                },
                Some(false) => {
                    return geo_fail(model_error_chars(&self.path, n, &chars_of("position"), &chars_of("exactly 3 finite numbers expected")));
                },
                None => {
                    return GeoAction::Position(toks);
                },
            }
        }
        GeoAction::Skip
    }

    /// Reads the next input: `Some(line)` for a line of the file, `None` at
    /// its end.
    pub fn step<F: Fn(&Vec<char>) -> NumberClass>(&mut self, line: Option<&str>, classify: &F) -> (r: GeoAction)
        requires
            old(self)@.line_no < usize::MAX,
            classifier_is_function(*classify),
        ensures
            (final(self)@, r@) == geo_step(old(self)@, crate::rewrite::input_view(line), |t: Seq<char>| class_of(*classify, t)),
    {
        let items = match &self.expect {
            GeoExpect::Items { verts, remaining, block } => Some((*verts, *remaining, copy_chars(block))),
            GeoExpect::Line => None,
        };
        match items {
            Some((verts, remaining, block)) => {
                self.line_no = self.line_no + 1;
                let needed: usize = if verts {
                    3
                } else {
                    2
                };
                match line {
                    None => geo_fail(model_error_chars(&self.path, self.line_no, &block, &chars_of("unexpected end of file"))),
                    Some(l) => {
                        let lc = chars_of(l);
                        let toks = split_words(&lc);
                        match geo_fault_exec(&toks, needed, false, classify) {
                            Some(true) => geo_fail(model_error_chars(&self.path, self.line_no, &block, &chars_of("invalid number"))),
                            Some(false) => {
                                let mut m = chars_of("at least ");
                                push_all(&mut m, &decimal_chars(needed));
                                push_str(&mut m, " finite numbers expected");
                                geo_fail(model_error_chars(&self.path, self.line_no, &block, &m))
                            },
                            None => {
                                if remaining <= 1 {
                                    self.expect = GeoExpect::Line;
                                } else {
                                    self.expect = GeoExpect::Items { verts, remaining: remaining - 1, block };
                                }
                                let picked = first_tokens(&toks, 0, needed);
                                assert(views(toks@).subrange(0, needed as int) =~= views(toks@).take(needed as int));
                                if verts {
                                    GeoAction::Vertex(picked)
                                } else {
                                    GeoAction::Texture(picked)
                                }
                            },
                        }
                    },
                }
            },
            None => match line {
                None => GeoAction::Done,
                Some(l) => {
                    self.line_no = self.line_no + 1;
                    let lc = chars_of(l);
                    self.line_exec(&lc, classify)
                },
            },
        }
    }
}

/// Law: a `verts COUNT` header opens a block whose next COUNT lines give
/// vertex positions (the first three numbers of each), a `tverts COUNT`
/// header one whose lines give texture coordinates (the first two numbers);
/// a line of finite numbers in such a block with fewer than that many
/// numbers rejects the model.
pub proof fn law_geometry_blocks(st: GeoModel, line: Seq<char>, c: nat, cls: spec_fn(Seq<char>) -> NumberClass)
    ensures
        st.expect == GeoExpectModel::Line && words(line).len() >= 2 && parse_usize(words(line)[1])
            == Some(c) && c > 0 ==> ({
            let kw = str_lowercase(words(line)[0]);
            &&& kw == "verts"@ ==> geo_step(st, Some(line), cls).0.expect == GeoExpectModel::Items {
                verts: true,
                remaining: c,
                block: kw,
            }
            &&& kw == "tverts"@ ==> geo_step(st, Some(line), cls).0.expect == GeoExpectModel::Items {
                verts: false,
                remaining: c,
                block: kw,
            }
        }),
        (st.expect matches GeoExpectModel::Items { verts, remaining, .. } && remaining > 0 && forall|
            i: int,
        | 0 <= i < words(line).len() ==> cls(#[trigger] words(line)[i]) == NumberClass::Finite)
            ==> match st.expect {
            GeoExpectModel::Items { verts, .. } => if verts {
                &&& words(line).len() >= 3 ==> geo_step(st, Some(line), cls).1
                    == GeoActionModel::Vertex(words(line).take(3))
                &&& words(line).len() < 3 ==> geo_step(st, Some(line), cls).1 is Fail
            } else {
                &&& words(line).len() >= 2 ==> geo_step(st, Some(line), cls).1
                    == GeoActionModel::Texture(words(line).take(2))
                &&& words(line).len() < 2 ==> geo_step(st, Some(line), cls).1 is Fail
            },
            _ => true,
        },
{
    reveal_strlit("verts");
    reveal_strlit("tverts");
    assert("verts"@.len() != "tverts"@.len());
}

} // verus!
