//! The decisions of rewriting a model: for each line read (or the end of the
//! file), what to write, which numbers to transform, or why to stop. The
//! reading, writing and floating-point work stay with the caller.

use vstd::prelude::*;
use crate::model::{model_error_chars, model_error_text, BitmapMode, BitmapModel};
use crate::names::{build_substitute, substitute};
use crate::replace::{replace_checked_spec, replace_no_case_checked};
use crate::rules::{class_of, classifier_is_function, lemma_class_of, NumberClass};
use crate::text::{
    chars_eq, chars_of, copy_chars, decimal, decimal_chars, join_from, join_words, lowercase,
    leading_white, parse_usize, parse_usize_chars, push_all, push_str, split_words, str_lowercase,
    string_of, sub_chars, trim_start, views, words,
};

verus! {

/// The kind of numbers a block holds.
#[derive(Clone, Copy, PartialEq, Eq, Structural)]
pub enum ItemKind {
    /// `verts`, `animverts`: positions.
    Vertex,
    /// `normals`: directions.
    Normal,
    /// `tangents`: a direction and a handedness.
    Tangent,
    /// `tverts`, `animtverts`: texture coordinates of the primary channel.
    Texture,
    /// `tverts1`..`tverts3`: texture coordinates of the extra channels.
    ExtraTexture,
}

/// The block a lowercase keyword opens.
pub open spec fn block_kind(k: Seq<char>) -> Option<ItemKind> {
    if k == "verts"@ || k == "animverts"@ {
        Some(ItemKind::Vertex)
    } else if k == "normals"@ {
        Some(ItemKind::Normal)
    } else if k == "tangents"@ {
        Some(ItemKind::Tangent)
    } else if k == "tverts"@ || k == "animtverts"@ {
        Some(ItemKind::Texture)
    } else if k == "tverts1"@ || k == "tverts2"@ || k == "tverts3"@ {
        Some(ItemKind::ExtraTexture)
    } else {
        None
    }
}

/// What the lines of a counted block are.
#[derive(Clone, Copy, PartialEq, Eq, Structural)]
pub enum BlockKind {
    /// Number lines of the given kind, checked and transformed.
    Numbers(ItemKind),
    /// Lines copied as they are (`weights`, `constraints`): their values
    /// do not depend on the model's size.
    Copied,
}

/// The counted block a lowercase keyword opens.
pub open spec fn block_of(k: Seq<char>) -> Option<BlockKind> {
    match block_kind(k) {
        Some(kind) => Some(BlockKind::Numbers(kind)),
        None => if k == "weights"@ || k == "constraints"@ {
            Some(BlockKind::Copied)
        } else {
            None
        },
    }
}

/// What is read after the header of a block of kind `b` with `c` lines.
pub open spec fn block_expect(b: BlockKind, c: nat, block: Seq<char>) -> ExpectModel {
    if c == 0 {
        ExpectModel::Line
    } else {
        match b {
            BlockKind::Numbers(kind) => ExpectModel::Items { kind, remaining: c, block },
            BlockKind::Copied => ExpectModel::Copies { remaining: c, block },
        }
    }
}

/// How many numbers a line of a block holds.
pub open spec fn item_width(k: ItemKind) -> nat {
    if k == ItemKind::Tangent {
        4
    } else {
        3
    }
}

fn block_kind_exec(k: &Vec<char>) -> (r: Option<ItemKind>)
    ensures
        r == block_kind(k@),
{
    if chars_eq(k, &chars_of("verts")) || chars_eq(k, &chars_of("animverts")) {
        Some(ItemKind::Vertex)
    } else if chars_eq(k, &chars_of("normals")) {
        Some(ItemKind::Normal)
    } else if chars_eq(k, &chars_of("tangents")) {
        Some(ItemKind::Tangent)
    } else if chars_eq(k, &chars_of("tverts")) || chars_eq(k, &chars_of("animtverts")) {
        Some(ItemKind::Texture)
    } else if chars_eq(k, &chars_of("tverts1")) || chars_eq(k, &chars_of("tverts2")) || chars_eq(
        k,
        &chars_of("tverts3"),
    ) {
        Some(ItemKind::ExtraTexture)
    } else {
        None
    }
}

fn block_of_exec(k: &Vec<char>) -> (r: Option<BlockKind>)
    ensures
        r == block_of(k@),
{
    match block_kind_exec(k) {
        Some(kind) => Some(BlockKind::Numbers(kind)),
        None => if chars_eq(k, &chars_of("weights")) || chars_eq(k, &chars_of("constraints")) {
            Some(BlockKind::Copied)
        } else {
            None
        },
    }
}

/// What the next input line is read as.
pub enum ExpectModel {
    /// A line to dispatch on its keyword.
    Line,
    /// One of the `remaining` number lines of a block.
    Items { kind: ItemKind, remaining: nat, block: Seq<char> },
    /// One of the `remaining` lines of a block that are copied.
    Copies { remaining: nat, block: Seq<char> },
}

/// The model of a `ModelRewriter`.
pub struct RewriterModel {
    pub path: Seq<char>,
    pub src_stem: Seq<char>,
    pub dest_stem: Seq<char>,
    pub substitute: Seq<char>,
    pub mode: BitmapModel,
    pub material_mode: BitmapModel,
    pub line_no: nat,
    pub position_seen: bool,
    pub last_bitmap: Seq<char>,
    pub expect: ExpectModel,
}

/// What the caller does with one input line.
pub enum ActionModel {
    Write(Seq<char>),
    Item { kind: ItemKind, tokens: Seq<Seq<char>>, line: Seq<char>, bitmap: Seq<char> },
    Position { tokens: Seq<Seq<char>>, first: bool },
    Fail(Seq<char>),
    Done,
}

/// Why the numbers of a line were rejected.
#[derive(PartialEq, Eq, Structural)]
pub enum NumbersFault {
    /// Some token is not a number.
    Invalid,
    /// Not exactly the expected count of numbers, or one is not finite.
    Count,
}

/// The verdict on the number tokens of a line: any token that is not a
/// number rejects it first; then a wrong count or a number that is not
/// finite.
pub open spec fn numbers_fault(toks: Seq<Seq<char>>, expected: nat, cls: spec_fn(Seq<char>) -> NumberClass) -> Option<NumbersFault> {
    if exists|i: int| 0 <= i < toks.len() && cls(#[trigger] toks[i]) == NumberClass::Invalid {
        Some(NumbersFault::Invalid)
    } else if toks.len() != expected || exists|i: int| 0 <= i < toks.len() && cls(#[trigger] toks[i])
        == NumberClass::NotFinite {
        Some(NumbersFault::Count)
    } else {
        None
    }
}

/// The text of a number fault about the line (or value list) `text`.
pub open spec fn numbers_message(f: NumbersFault, text: Seq<char>, expected: nat, got: nat) -> Seq<char> {
    if f == NumbersFault::Invalid {
        "invalid number in '"@ + text + "'"@
    } else {
        decimal(expected) + " numbers expected, received "@ + decimal(got)
    }
}

/// The model name replaced in `text`, where that is well defined.
pub open spec fn renamed(st: RewriterModel, text: Seq<char>) -> Option<Seq<char>> {
    replace_checked_spec(text, st.src_stem, st.dest_stem)
}

/// The error text for a line whose model name cannot be replaced.
pub open spec fn rename_fault(st: RewriterModel, block: Seq<char>) -> ActionModel {
    ActionModel::Fail(
        model_error_text(
            st.path,
            st.line_no,
            block,
            "text cannot be matched case-insensitively"@,
        ),
    )
}

/// Writes `text` with the model name replaced, or fails.
pub open spec fn write_renamed(st: RewriterModel, block: Seq<char>, text: Seq<char>) -> (RewriterModel, ActionModel) {
    match renamed(st, text) {
        Some(t) => (st, ActionModel::Write(t)),
        None => (st, rename_fault(st, block)),
    }
}

/// The white space in front of the first word of a line.
pub open spec fn indent(line: Seq<char>) -> Seq<char> {
    line.take(line.len() - trim_start(line).len())
}

/// The words after the first one.
pub open spec fn rest_words(ws: Seq<Seq<char>>) -> Seq<Seq<char>> {
    if ws.len() > 0 {
        ws.skip(1)
    } else {
        ws
    }
}

/// One line outside a block; `st.line_no` is already its number.
pub open spec fn line_step(st: RewriterModel, line: Seq<char>, cls: spec_fn(Seq<char>) -> NumberClass) -> (RewriterModel, ActionModel) {
    let ws = words(line);
    let kw = str_lowercase(
        if ws.len() > 0 {
            ws[0]
        } else {
            seq![]
        },
    );
    let n = st.line_no;
    match block_of(kw) {
        Some(b) => {
            if ws.len() < 2 {
                (st, ActionModel::Fail(model_error_text(st.path, n, kw, "Quantity missing"@)))
            } else {
                match parse_usize(ws[1]) {
                    None => (
                        st,
                        ActionModel::Fail(
                            model_error_text(
                                st.path,
                                n,
                                kw,
                                "invalid quantity '"@ + ws[1] + "'"@,
                            ),
                        ),
                    ),
                    Some(c) => match renamed(st, line) {
                        None => (st, rename_fault(st, kw)),
                        Some(t) => (
                            RewriterModel { expect: block_expect(b, c, kw), ..st },
                            ActionModel::Write(t),
                        ),
                    },
                }
            }
        },
        None => {
            if kw == "bitmap"@ {
                if ws.len() < 2 {
                    (
                        st,
                        ActionModel::Fail(
                            model_error_text(st.path, n, "bitmap"@, "Key/Value missing"@),
                        ),
                    )
                } else {
                    let st2 = RewriterModel { last_bitmap: str_lowercase(ws[1]), ..st };
                    match st.mode {
                        BitmapModel::Keep => (st2, ActionModel::Write(line)),
                        BitmapModel::RenameToModel => write_renamed(st2, "bitmap"@, line),
                        BitmapModel::RenameTo(name) => (
                            st2,
                            ActionModel::Write(indent(line) + "bitmap "@ + name),
                        ),
                    }
                }
            } else if kw == "position"@ {
                let toks = rest_words(ws);
                match numbers_fault(toks, 3, cls) {
                    Some(f) => (
                        st,
                        ActionModel::Fail(
                            model_error_text(
                                st.path,
                                n,
                                "position"@,
                                numbers_message(f, join_from(ws, 1), 3, toks.len()),
                            ),
                        ),
                    ),
                    None => (
                        RewriterModel { position_seen: true, ..st },
                        ActionModel::Position { tokens: toks, first: !st.position_seen },
                    ),
                }
            } else if kw == "materialname"@ {
                match st.material_mode {
                    BitmapModel::Keep => (st, ActionModel::Write(line)),
                    BitmapModel::RenameToModel => write_renamed(st, "materialname"@, line),
                    BitmapModel::RenameTo(name) => (
                        st,
                        ActionModel::Write(indent(line) + "materialname "@ + name),
                    ),
                }
            } else if kw == "filedependancy"@ || kw == "filedependency"@ {
                (st, ActionModel::Write(line))
            } else if kw == "setsupermodel"@ {
                if ws.len() < 2 {
                    (
                        st,
                        ActionModel::Fail(
                            model_error_text(st.path, n, "setsupermodel"@, "model name missing"@),
                        ),
                    )
                } else if ws.len() < 3 {
                    (
                        st,
                        ActionModel::Fail(
                            model_error_text(
                                st.path,
                                n,
                                "setsupermodel"@,
                                "supermodel name missing"@,
                            ),
                        ),
                    )
                } else if ws[2].len() + st.substitute.len() > usize::MAX {
                    (
                        st,
                        ActionModel::Fail(
                            model_error_text(
                                st.path,
                                n,
                                "setsupermodel"@,
                                "supermodel name too long"@,
                            ),
                        ),
                    )
                } else {
                    match renamed(st, ws[1]) {
                        None => (st, rename_fault(st, "setsupermodel"@)),
                        Some(m) => (
                            st,
                            ActionModel::Write(
                                "setsupermodel "@ + m + " "@ + substitute(ws[2], st.substitute),
                            ),
                        ),
                    }
                }
            } else {
                write_renamed(st, kw, line)
            }
        },
    }
}

/// One input (a line, or `None` at the end of the file) applied to the
/// rewriter's state: the next state and what the caller does.
pub open spec fn step_spec(st: RewriterModel, input: Option<Seq<char>>, cls: spec_fn(Seq<char>) -> NumberClass) -> (RewriterModel, ActionModel) {
    match st.expect {
        ExpectModel::Items { kind, remaining, block } => {
            let n = st.line_no + 1;
            let st1 = RewriterModel { line_no: n, ..st };
            match input {
                None => (
                    st1,
                    ActionModel::Fail(
                        model_error_text(st.path, n, block, "unexpected end of file"@),
                    ),
                ),
                Some(line) => {
                    let toks = words(line);
                    let w = item_width(kind);
                    match numbers_fault(toks, w, cls) {
                        Some(f) => (
                            st1,
                            ActionModel::Fail(
                                model_error_text(
                                    st.path,
                                    n,
                                    block,
                                    numbers_message(f, line, w, toks.len()),
                                ),
                            ),
                        ),
                        None => (
                            RewriterModel {
                                expect: if remaining <= 1 {
                                    ExpectModel::Line
                                } else {
                                    ExpectModel::Items {
                                        kind,
                                        remaining: (remaining - 1) as nat,
                                        block,
                                    }
                                },
                                ..st1
                            },
                            ActionModel::Item { kind, tokens: toks, line, bitmap: st.last_bitmap },
                        ),
                    }
                },
            }
        },
        ExpectModel::Copies { remaining, block } => {
            let n = st.line_no + 1;
            let st1 = RewriterModel { line_no: n, ..st };
            match input {
                None => (
                    st1,
                    ActionModel::Fail(
                        model_error_text(st.path, n, block, "unexpected end of file"@),
                    ),
                ),
                Some(line) => (
                    RewriterModel {
                        expect: if remaining <= 1 {
                            ExpectModel::Line
                        } else {
                            ExpectModel::Copies { remaining: (remaining - 1) as nat, block }
                        },
                        ..st1
                    },
                    ActionModel::Write(line),
                ),
            }
        },
        ExpectModel::Line => match input {
            None => (st, ActionModel::Done),
            Some(line) => line_step(RewriterModel { line_no: st.line_no + 1, ..st }, line, cls),
        },
    }
}


/// What the next input line is read as.
pub enum Expect {
    Line,
    Items { kind: ItemKind, remaining: usize, block: Vec<char> },
    Copies { remaining: usize, block: Vec<char> },
}

impl View for Expect {
    type V = ExpectModel;

    open spec fn view(&self) -> ExpectModel {
        match self {
            Expect::Line => ExpectModel::Line,
            Expect::Items { kind, remaining, block } => ExpectModel::Items {
                kind: *kind,
                remaining: *remaining as nat,
                block: block@,
            },
            Expect::Copies { remaining, block } => ExpectModel::Copies {
                remaining: *remaining as nat,
                block: block@,
            },
        }
    }
}

/// The state of rewriting one model with one rule.
pub struct ModelRewriter {
    path: Vec<char>,
    src_stem: Vec<char>,
    dest_stem: Vec<char>,
    substitute: Vec<char>,
    mode: BitmapMode,
    material_mode: BitmapMode,
    line_no: usize,
    position_seen: bool,
    last_bitmap: Vec<char>,
    expect: Expect,
}

impl View for ModelRewriter {
    type V = RewriterModel;

    closed spec fn view(&self) -> RewriterModel {
        RewriterModel {
            path: self.path@,
            src_stem: self.src_stem@,
            dest_stem: self.dest_stem@,
            substitute: self.substitute@,
            mode: self.mode@,
            material_mode: self.material_mode@,
            line_no: self.line_no as nat,
            position_seen: self.position_seen,
            last_bitmap: self.last_bitmap@,
            expect: self.expect@,
        }
    }
}

/// What the caller does with one input line.
pub enum LineAction {
    /// Write this line.
    Write(String),
    /// A number line of a block: transform `tokens` (already checked to be
    /// finite numbers, as many as the kind holds), or write `line` unchanged
    /// where the rule leaves it; `bitmap` is the last `bitmap` name seen.
    Item { kind: ItemKind, tokens: Vec<Vec<char>>, line: String, bitmap: Vec<char> },
    /// A `position` line with three checked numbers; `first` for the first
    /// one of the file.
    Position { tokens: Vec<Vec<char>>, first: bool },
    /// Stop: the model is rejected with this text.
    Fail(String),
    /// The end of the file, with no block left open.
    Done,
}

impl View for LineAction {
    type V = ActionModel;

    open spec fn view(&self) -> ActionModel {
        match self {
            LineAction::Write(s) => ActionModel::Write(s@),
            LineAction::Item { kind, tokens, line, bitmap } => ActionModel::Item {
                kind: *kind,
                tokens: views(tokens@),
                line: line@,
                bitmap: bitmap@,
            },
            LineAction::Position { tokens, first } => ActionModel::Position {
                tokens: views(tokens@),
                first: *first,
            },
            LineAction::Fail(s) => ActionModel::Fail(s@),
            LineAction::Done => ActionModel::Done,
        }
    }
}

/// An input line, as characters.
pub open spec fn input_view(line: Option<&str>) -> Option<Seq<char>> {
    match line {
        Some(l) => Some(l@),
        None => None,
    }
}

/// The state before the first line of a model.
pub open spec fn initial_model(
    path: Seq<char>,
    src_stem: Seq<char>,
    dest_stem: Seq<char>,
    substitute: Seq<char>,
    mode: BitmapModel,
    material_mode: BitmapModel,
) -> RewriterModel {
    RewriterModel {
        path,
        src_stem,
        dest_stem,
        substitute,
        mode,
        material_mode,
        line_no: 0,
        position_seen: false,
        last_bitmap: seq![],
        expect: ExpectModel::Line,
    }
}

fn check_numbers<F: Fn(&Vec<char>) -> NumberClass>(toks: &Vec<Vec<char>>, expected: usize, classify: &F) -> (r: Option<NumbersFault>)
    requires
        classifier_is_function(*classify),
    ensures
        r == numbers_fault(views(toks@), expected as nat, |t: Seq<char>| class_of(*classify, t)),
{
    let ghost cls = |t: Seq<char>| class_of(*classify, t);
    let ghost v = views(toks@);
    let mut invalid = false;
    let mut not_finite = false;
    let mut i: usize = 0;
    while i < toks.len()
        invariant
            v == views(toks@),
            cls == (|t: Seq<char>| class_of(*classify, t)),
            classifier_is_function(*classify),
            i <= toks.len(),
            invalid == exists|j: int| 0 <= j < i && cls(#[trigger] v[j]) == NumberClass::Invalid,
            not_finite == exists|j: int| 0 <= j < i && cls(#[trigger] v[j]) == NumberClass::NotFinite,
        decreases toks.len() - i,
    {
        let c = classify(&toks[i]);
        proof {
            lemma_class_of(*classify, &toks@[i as int], c);
            assert(v[i as int] == toks@[i as int]@);
        }
        if c == NumberClass::Invalid {
            invalid = true;
        }
        if c == NumberClass::NotFinite {
            not_finite = true;
        }
        i = i + 1;
    }
    if invalid {
        Some(NumbersFault::Invalid)
    } else if toks.len() != expected || not_finite {
        Some(NumbersFault::Count)
    } else {
        None
    }
}

fn numbers_message_exec(f: &NumbersFault, text: &Vec<char>, expected: usize, got: usize) -> (r: Vec<char>)
    ensures
        r@ == numbers_message(*f, text@, expected as nat, got as nat),
{
    match f {
        NumbersFault::Invalid => {
            let mut m = chars_of("invalid number in '");
            push_all(&mut m, text);
            push_str(&mut m, "'");
            m
        },
        NumbersFault::Count => {
            let mut m = decimal_chars(expected);
            push_str(&mut m, " numbers expected, received ");
            push_all(&mut m, &decimal_chars(got));
            m
        },
    }
}

fn fail(m: Vec<char>) -> (r: LineAction)
    ensures
        r@ == ActionModel::Fail(m@),
{
    LineAction::Fail(string_of(&m))
}

impl ModelRewriter {
    /// The rewriter is in a consistent state: a block being read still has
    /// lines left.
    pub closed spec fn wf(&self) -> bool {
        match self.expect {
            Expect::Items { remaining, .. } => remaining > 0,
            Expect::Copies { remaining, .. } => remaining > 0,
            Expect::Line => true,
        }
    }

    /// Starts rewriting the model file at `path` (used in error texts) whose
    /// name `src_stem` becomes `dest_stem`, for a rule with the given
    /// `substitute=` pattern and the given choices for `bitmap` and
    /// `materialname` lines.
    pub fn new(
        path: &str,
        src_stem: &str,
        dest_stem: &str,
        substitute: &str,
        mode: BitmapMode,
        material_mode: BitmapMode,
    ) -> (r: ModelRewriter)
        ensures
            r.wf(),
            r@ == initial_model(
                path@,
                src_stem@,
                dest_stem@,
                substitute@,
                mode@,
                material_mode@,
            ),
    {
        let r = ModelRewriter {
            path: chars_of(path),
            src_stem: chars_of(src_stem),
            dest_stem: chars_of(dest_stem),
            substitute: chars_of(substitute),
            mode,
            material_mode,
            line_no: 0,
            position_seen: false,
            last_bitmap: Vec::new(),
            expect: Expect::Line,
        };
        assert(r@.last_bitmap =~= seq![]);
        r
    }

    /// The number of lines read so far.
    pub fn line_no(&self) -> (n: usize)
        ensures
            n == self@.line_no,
    {
        self.line_no
    }

    /// The block whose number lines are being read, if any.
    pub fn pending_block(&self) -> (r: Option<String>)
        ensures
            match self@.expect {
                ExpectModel::Items { block, .. } => r matches Some(b) && b@ == block,
                ExpectModel::Copies { block, .. } => r matches Some(b) && b@ == block,
                ExpectModel::Line => r is None,
            },
    {
        match &self.expect {
            Expect::Items { block, .. } => Some(string_of(block)),
            Expect::Copies { block, .. } => Some(string_of(block)),
            Expect::Line => None,
        }
    }

    fn renamed_exec(&self, text: &Vec<char>) -> (r: Option<Vec<char>>)
        ensures
            r matches Some(t) ==> renamed(self@, text@) == Some(t@),
            r is None ==> renamed(self@, text@) is None,
    {
        let line = string_of(text);
        let from = string_of(&self.src_stem);
        let to = string_of(&self.dest_stem);
        match replace_no_case_checked(line.as_str(), from.as_str(), to.as_str()) {
            Some(t) => Some(chars_of(t.as_str())),
            None => None,
        }
    }

    fn write_renamed_exec(&self, block: &Vec<char>, text: &Vec<char>) -> (r: LineAction)
        ensures
            (self@, r@) == write_renamed(self@, block@, text@),
    {
        match self.renamed_exec(text) {
            Some(t) => LineAction::Write(string_of(&t)),
            None => fail(
                model_error_chars(
                    &self.path,
                    self.line_no,
                    block,
                    &chars_of("text cannot be matched case-insensitively"),
                ),
            ),
        }
    }

    fn line_step_exec<F: Fn(&Vec<char>) -> NumberClass>(&mut self, line: &Vec<char>, classify: &F) -> (r: LineAction)
        requires
            old(self).wf(),
            old(self)@.expect == ExpectModel::Line,
            classifier_is_function(*classify),
        ensures
            final(self).wf(),
            (final(self)@, r@) == line_step(old(self)@, line@, |t: Seq<char>| class_of(*classify, t)),
    {
        let ghost st = self@;
        let ws = split_words(line);
        let ghost wv = views(ws@);
        let first = if ws.len() > 0 {
            copy_chars(&ws[0])
        } else {
            Vec::new()
        };
        assert(first@ == (if wv.len() > 0 { wv[0] } else { seq![] }));
        let kw = lowercase(&first);
        let n = self.line_no;
        match block_of_exec(&kw) {
            Some(b) => {
                if ws.len() < 2 {
                    return fail(model_error_chars(&self.path, n, &kw, &chars_of("Quantity missing")));
                }
                assert(wv[1] == ws@[1]@);
                match parse_usize_chars(&ws[1]) {
                    None => {
                        let mut m = chars_of("invalid quantity '");
                        push_all(&mut m, &ws[1]);
                        push_str(&mut m, "'");
                        return fail(model_error_chars(&self.path, n, &kw, &m));
                    },
                    Some(c) => {
                        match self.renamed_exec(line) {
                            None => {
                                return fail(
                                    model_error_chars(
                                        &self.path,
                                        n,
                                        &kw,
                                        &chars_of("text cannot be matched case-insensitively"),
                                    ),
                                );
                            },
                            Some(t) => {
                                if c == 0 {
                                    self.expect = Expect::Line;
                                } else {
                                    match b {
                                        BlockKind::Numbers(kind) => {
                                            self.expect = Expect::Items { kind, remaining: c, block: kw };
                                        },
                                        BlockKind::Copied => {
                                            self.expect = Expect::Copies { remaining: c, block: kw };
                                        },
                                    }
                                }
                                return LineAction::Write(string_of(&t));
                            },
                        }
                    },
                }
            },
            None => {},
        }
        if chars_eq(&kw, &chars_of("bitmap")) {
            if ws.len() < 2 {
                return fail(model_error_chars(&self.path, n, &chars_of("bitmap"), &chars_of("Key/Value missing")));
            }
            assert(wv[1] == ws@[1]@);
            self.last_bitmap = lowercase(&ws[1]);
            match &self.mode {
                BitmapMode::Keep => {
                    return LineAction::Write(string_of(line));
                },
                BitmapMode::RenameToModel => {
                    return self.write_renamed_exec(&chars_of("bitmap"), line);
                },
                BitmapMode::RenameTo(name) => {
                    let a = leading_white(line);
                    let mut out = sub_chars(line, 0, a);
                    assert(out@ == indent(line@)) by {
                        assert(line@.take(a as int) =~= line@.subrange(0, a as int));
                    }
                    push_str(&mut out, "bitmap ");
                    push_str(&mut out, name.as_str());
                    return LineAction::Write(string_of(&out));
                },
            }
        }
        if chars_eq(&kw, &chars_of("position")) {
            let mut toks: Vec<Vec<char>> = Vec::new();
            let start: usize = if ws.len() > 0 {
                1
            } else {
                0
            };
            let mut i: usize = start;
            assert(views(toks@) =~= wv.subrange(start as int, start as int));
            while i < ws.len()
                invariant
                    wv == views(ws@),
                    start <= i <= ws.len(),
                    views(toks@) == wv.subrange(start as int, i as int),
                decreases ws.len() - i,
            {
                let ghost before = views(toks@);
                toks.push(copy_chars(&ws[i]));
                assert(views(toks@) =~= before.push(wv[i as int]));
                assert(views(toks@) =~= wv.subrange(start as int, i + 1));
                i = i + 1;
            }
            assert(views(toks@) =~= rest_words(wv));
            match check_numbers(&toks, 3, classify) {
                Some(f) => {
                    let joined = join_words(&ws, 1);
                    let m = numbers_message_exec(&f, &joined, 3, toks.len());
                    return fail(model_error_chars(&self.path, n, &chars_of("position"), &m));
                },
                None => {
                    let first_position = !self.position_seen;
                    self.position_seen = true;
                    return LineAction::Position { tokens: toks, first: first_position };
                },
            }
        }
        if chars_eq(&kw, &chars_of("materialname")) {
            match &self.material_mode {
                BitmapMode::Keep => {
                    return LineAction::Write(string_of(line));
                },
                BitmapMode::RenameToModel => {
                    return self.write_renamed_exec(&chars_of("materialname"), line);
                },
                BitmapMode::RenameTo(name) => {
                    let a = leading_white(line);
                    let mut out = sub_chars(line, 0, a);
                    assert(out@ == indent(line@)) by {
                        assert(line@.take(a as int) =~= line@.subrange(0, a as int));
                    }
                    push_str(&mut out, "materialname ");
                    push_str(&mut out, name.as_str());
                    return LineAction::Write(string_of(&out));
                },
            }
        }
        if chars_eq(&kw, &chars_of("filedependancy")) || chars_eq(&kw, &chars_of("filedependency")) {
            return LineAction::Write(string_of(line));
        }
        if chars_eq(&kw, &chars_of("setsupermodel")) {
            if ws.len() < 2 {
                return fail(model_error_chars(&self.path, n, &chars_of("setsupermodel"), &chars_of("model name missing")));
            }
            if ws.len() < 3 {
                return fail(model_error_chars(&self.path, n, &chars_of("setsupermodel"), &chars_of("supermodel name missing")));
            }
            assert(wv[1] == ws@[1]@);
            assert(wv[2] == ws@[2]@);
            if ws[2].len() > usize::MAX - self.substitute.len() {
                return fail(model_error_chars(&self.path, n, &chars_of("setsupermodel"), &chars_of("supermodel name too long")));
            }
            match self.renamed_exec(&ws[1]) {
                None => {
                    return fail(
                        model_error_chars(
                            &self.path,
                            n,
                            &chars_of("setsupermodel"),
                            &chars_of("text cannot be matched case-insensitively"),
                        ),
                    );
                },
                Some(m) => {
                    let sup = string_of(&ws[2]);
                    let sub = string_of(&self.substitute);
                    let new_super = build_substitute(sup.as_str(), sub.as_str());
                    let mut out = chars_of("setsupermodel ");
                    push_all(&mut out, &m);
                    push_str(&mut out, " ");
                    push_str(&mut out, new_super.as_str());
                    return LineAction::Write(string_of(&out));
                },
            }
        }
        self.write_renamed_exec(&kw, line)
    }

    /// Reads the next input: `Some(line)` for a line of the model file (without
    /// its line ending), `None` at the end of the file. `classify` tells
    /// which tokens are numbers.
    pub fn step<F: Fn(&Vec<char>) -> NumberClass>(&mut self, line: Option<&str>, classify: &F) -> (r: LineAction)
        requires
            old(self).wf(),
            old(self)@.line_no < usize::MAX,
            classifier_is_function(*classify),
        ensures
            final(self).wf(),
            (final(self)@, r@) == step_spec(old(self)@, input_view(line), |t: Seq<char>| class_of(*classify, t)),
    {
        let copies = match &self.expect {
            Expect::Copies { remaining, block } => Some((*remaining, copy_chars(block))),
            _ => None,
        };
        match copies {
            Some((remaining, block)) => {
                self.line_no = self.line_no + 1;
                match line {
                    None => {
                        return fail(model_error_chars(&self.path, self.line_no, &block, &chars_of("unexpected end of file")));
                    },
                    Some(l) => {
                        if remaining <= 1 {
                            self.expect = Expect::Line;
                        } else {
                            self.expect = Expect::Copies { remaining: remaining - 1, block };
                        }
                        return LineAction::Write(l.to_string());
                    },
                }
            },
            None => {},
        }
        let items = match &self.expect {
            Expect::Items { kind, remaining, block } => Some((*kind, *remaining, copy_chars(block))),
            _ => None,
        };
        match items {
            Some((kind, remaining, block)) => {
                self.line_no = self.line_no + 1;
                match line {
                    None => {
                        return fail(model_error_chars(&self.path, self.line_no, &block, &chars_of("unexpected end of file")));
                    },
                    Some(l) => {
                        let lc = chars_of(l);
                        let toks = split_words(&lc);
                        let w: usize = if kind == ItemKind::Tangent {
                            4
                        } else {
                            3
                        };
                        match check_numbers(&toks, w, classify) {
                            Some(f) => {
                                let m = numbers_message_exec(&f, &lc, w, toks.len());
                                return fail(model_error_chars(&self.path, self.line_no, &block, &m));
                            },
                            None => {
                                if remaining <= 1 {
                                    self.expect = Expect::Line;
                                } else {
                                    self.expect = Expect::Items { kind, remaining: remaining - 1, block };
                                }
                                return LineAction::Item {
                                    kind,
                                    tokens: toks,
                                    line: string_of(&lc),
                                    bitmap: copy_chars(&self.last_bitmap),
                                };
                            },
                        }
                    },
                }
            },
            None => match line {
                None => LineAction::Done,
                Some(l) => {
                    self.line_no = self.line_no + 1;
                    let lc = chars_of(l);
                    self.line_step_exec(&lc, classify)
                },
            },
        }
    }
}


/// Law: a step never forgets that a `position` line was seen, and a
/// `position` line is announced as the first exactly when none was seen
/// before it.
pub proof fn law_position_step(st: RewriterModel, input: Option<Seq<char>>, cls: spec_fn(Seq<char>) -> NumberClass)
    ensures
        st.position_seen ==> step_spec(st, input, cls).0.position_seen,
        step_spec(st, input, cls).1 matches ActionModel::Position { first, .. } ==> first
            == !st.position_seen && step_spec(st, input, cls).0.position_seen,
{
}

/// The actions of a run of the rewriter over a sequence of inputs.
pub open spec fn run_from(st: RewriterModel, inputs: Seq<Option<Seq<char>>>, cls: spec_fn(Seq<char>) -> NumberClass) -> Seq<ActionModel>
    decreases inputs.len(),
{
    if inputs.len() == 0 {
        seq![]
    } else {
        let (next, a) = step_spec(st, inputs[0], cls);
        seq![a] + run_from(next, inputs.drop_first(), cls)
    }
}

/// How many actions announce the first `position` line of the file.
pub open spec fn first_positions(acts: Seq<ActionModel>) -> nat
    decreases acts.len(),
{
    if acts.len() == 0 {
        0
    } else {
        (if acts[0] matches ActionModel::Position { first: true, .. } {
            1nat
        } else {
            0nat
        }) + first_positions(acts.drop_first())
    }
}

/// Law: over any run, at most one `position` line takes the role of the
/// root pivot (the absolute override), and none once a `position` line was
/// seen.
pub proof fn law_one_pivot_per_model(st: RewriterModel, inputs: Seq<Option<Seq<char>>>, cls: spec_fn(Seq<char>) -> NumberClass)
    ensures
        first_positions(run_from(st, inputs, cls)) <= (if st.position_seen {
            0nat
        } else {
            1nat
        }),
    decreases inputs.len(),
{
    if inputs.len() > 0 {
        let (next, a) = step_spec(st, inputs[0], cls);
        law_position_step(st, inputs[0], cls);
        law_one_pivot_per_model(next, inputs.drop_first(), cls);
        let acts = run_from(st, inputs, cls);
        assert(acts[0] == a);
        assert(acts.drop_first() =~= run_from(next, inputs.drop_first(), cls));
    }
}

/// Law: inside a block every line is a number line of that block (or the
/// model is rejected), and the block ends after its announced count.
pub proof fn law_block_lines_are_items(st: RewriterModel, input: Option<Seq<char>>, cls: spec_fn(Seq<char>) -> NumberClass)
    requires
        st.expect matches ExpectModel::Items { remaining, .. } && remaining > 0,
    ensures
        step_spec(st, input, cls).1 is Item || step_spec(st, input, cls).1 is Fail,
        step_spec(st, input, cls).1 is Item ==> (match st.expect {
            ExpectModel::Items { kind, remaining, block } => {
                &&& step_spec(st, input, cls).1->Item_kind == kind
                &&& if remaining == 1 {
                    step_spec(st, input, cls).0.expect == ExpectModel::Line
                } else {
                    step_spec(st, input, cls).0.expect == ExpectModel::Items {
                        kind,
                        remaining: (remaining - 1) as nat,
                        block,
                    }
                }
            },
            _ => false,
        }),
{
}

/// Law: inside a `weights` or `constraints` block every line is written
/// exactly as it was read, the block ends after its announced count, and an
/// end of file inside it rejects the model.
pub proof fn law_copied_block_lines_are_kept(st: RewriterModel, input: Option<Seq<char>>, cls: spec_fn(Seq<char>) -> NumberClass)
    requires
        st.expect matches ExpectModel::Copies { remaining, .. } && remaining > 0,
    ensures
        match input {
            Some(line) => step_spec(st, input, cls).1 == ActionModel::Write(line),
            None => step_spec(st, input, cls).1 is Fail,
        },
        input is Some ==> (match st.expect {
            ExpectModel::Copies { remaining, block } => if remaining == 1 {
                step_spec(st, input, cls).0.expect == ExpectModel::Line
            } else {
                step_spec(st, input, cls).0.expect == ExpectModel::Copies {
                    remaining: (remaining - 1) as nat,
                    block,
                }
            },
            _ => false,
        }),
{
}

/// Law: every line read, inside a block or not, advances the line number
/// by one.
pub proof fn law_line_numbers_count_lines(st: RewriterModel, line: Seq<char>, cls: spec_fn(Seq<char>) -> NumberClass)
    ensures
        step_spec(st, Some(line), cls).0.line_no == st.line_no + 1,
{
}


proof fn lemma_bitmap_is_no_block()
    ensures
        block_of("bitmap"@) is None,
{
    reveal_strlit("weights");
    reveal_strlit("constraints");
    reveal_strlit("bitmap");
    assert("bitmap"@[0] != "weights"@[0]);
    assert("bitmap"@[0] != "constraints"@[0]);
    reveal_strlit("bitmap");
    reveal_strlit("verts");
    reveal_strlit("animverts");
    reveal_strlit("normals");
    reveal_strlit("tangents");
    reveal_strlit("tverts");
    reveal_strlit("animtverts");
    reveal_strlit("tverts1");
    reveal_strlit("tverts2");
    reveal_strlit("tverts3");
    assert("bitmap"@[0] != "verts"@[0]);
    assert("bitmap"@[0] != "animverts"@[0]);
    assert("bitmap"@[0] != "normals"@[0]);
    assert("bitmap"@[0] != "tangents"@[0]);
    assert("bitmap"@[0] != "tverts"@[0]);
    assert("bitmap"@[0] != "animtverts"@[0]);
    assert("bitmap"@[0] != "tverts1"@[0]);
    assert("bitmap"@[0] != "tverts2"@[0]);
    assert("bitmap"@[0] != "tverts3"@[0]);
}

/// Law: without `--rename-bitmap` a `bitmap` line is written exactly as it
/// was read.
pub proof fn law_bitmap_line_kept_by_default(st: RewriterModel, line: Seq<char>, cls: spec_fn(Seq<char>) -> NumberClass)
    requires
        st.expect == ExpectModel::Line,
        st.mode == BitmapModel::Keep,
        words(line).len() >= 2,
        str_lowercase(words(line)[0]) == "bitmap"@,
    ensures
        step_spec(st, Some(line), cls).1 == ActionModel::Write(line),
        step_spec(st, Some(line), cls).0.last_bitmap == str_lowercase(words(line)[1]),
{
    lemma_bitmap_is_no_block();
}

proof fn lemma_block_keywords_distinct()
    ensures
        block_of("verts"@) == Some(BlockKind::Numbers(ItemKind::Vertex)),
        block_of("animverts"@) == Some(BlockKind::Numbers(ItemKind::Vertex)),
        block_of("normals"@) == Some(BlockKind::Numbers(ItemKind::Normal)),
        block_of("tangents"@) == Some(BlockKind::Numbers(ItemKind::Tangent)),
        block_of("tverts"@) == Some(BlockKind::Numbers(ItemKind::Texture)),
        block_of("animtverts"@) == Some(BlockKind::Numbers(ItemKind::Texture)),
        block_of("tverts1"@) == Some(BlockKind::Numbers(ItemKind::ExtraTexture)),
        block_of("tverts2"@) == Some(BlockKind::Numbers(ItemKind::ExtraTexture)),
        block_of("tverts3"@) == Some(BlockKind::Numbers(ItemKind::ExtraTexture)),
        block_of("weights"@) == Some(BlockKind::Copied),
        block_of("constraints"@) == Some(BlockKind::Copied),
{
    reveal_strlit("verts");
    reveal_strlit("animverts");
    reveal_strlit("normals");
    reveal_strlit("tangents");
    reveal_strlit("tverts");
    reveal_strlit("animtverts");
    reveal_strlit("tverts1");
    reveal_strlit("tverts2");
    reveal_strlit("tverts3");
    reveal_strlit("weights");
    reveal_strlit("constraints");
    assert("animverts"@[0] != "verts"@[0]);
    assert("normals"@[0] != "verts"@[0]);
    assert("normals"@[0] != "animverts"@[0]);
    assert("tangents"@[0] != "verts"@[0]);
    assert("tangents"@[0] != "animverts"@[0]);
    assert("tangents"@[0] != "normals"@[0]);
    assert("tverts"@[1] != "verts"@[1]);
    assert("tverts"@[0] != "animverts"@[0]);
    assert("tverts"@[0] != "normals"@[0]);
    assert("tverts"@[1] != "tangents"@[1]);
    assert("animtverts"@[4] != "animverts"@[4]);
    assert("animtverts"@[0] != "verts"@[0]);
    assert("animtverts"@[0] != "normals"@[0]);
    assert("animtverts"@[0] != "tangents"@[0]);
    assert("tverts1"@[1] != "verts"@[1]);
    assert("tverts1"@[0] != "animverts"@[0]);
    assert("tverts1"@[0] != "normals"@[0]);
    assert("tverts1"@[1] != "tangents"@[1]);
    assert("tverts1"@.len() != "tverts"@.len());
    assert("tverts1"@[0] != "animtverts"@[0]);
    assert("tverts2"@[1] != "verts"@[1]);
    assert("tverts2"@[0] != "animverts"@[0]);
    assert("tverts2"@[0] != "normals"@[0]);
    assert("tverts2"@[1] != "tangents"@[1]);
    assert("tverts2"@.len() != "tverts"@.len());
    assert("tverts2"@[0] != "animtverts"@[0]);
    assert("tverts2"@[6] != "tverts1"@[6]);
    assert("tverts3"@[1] != "verts"@[1]);
    assert("tverts3"@[0] != "animverts"@[0]);
    assert("tverts3"@[0] != "normals"@[0]);
    assert("tverts3"@[1] != "tangents"@[1]);
    assert("tverts3"@.len() != "tverts"@.len());
    assert("tverts3"@[0] != "animtverts"@[0]);
    assert("tverts3"@[6] != "tverts1"@[6]);
    assert("tverts3"@[6] != "tverts2"@[6]);
    let w = "weights"@;
    let c = "constraints"@;
    assert(w[0] != "verts"@[0] && w[0] != "animverts"@[0] && w[0] != "normals"@[0]);
    assert(w[0] != "tangents"@[0] && w[0] != "tverts"@[0] && w[0] != "animtverts"@[0]);
    assert(w[0] != "tverts1"@[0] && w[0] != "tverts2"@[0] && w[0] != "tverts3"@[0]);
    assert(c[0] != "verts"@[0] && c[0] != "animverts"@[0] && c[0] != "normals"@[0]);
    assert(c[0] != "tangents"@[0] && c[0] != "tverts"@[0] && c[0] != "animtverts"@[0]);
    assert(c[0] != "tverts1"@[0] && c[0] != "tverts2"@[0] && c[0] != "tverts3"@[0]);
    assert(c[0] != w[0]);
}

/// Law: a block header `KEYWORD COUNT` (keyword in any case, a count above
/// zero, a line whose model name can be replaced) is written with the name
/// replaced and opens a block of COUNT lines of the keyword's kind: `verts`
/// and `animverts` hold vertex positions, `normals` normals, `tangents`
/// tangents, `tverts` and `animtverts` primary texture coordinates,
/// `tverts1` to `tverts3` extra texture coordinates, and the lines of
/// `weights` and `constraints` are copied.
pub proof fn law_block_headers_open_their_kind(st: RewriterModel, line: Seq<char>, c: nat, cls: spec_fn(Seq<char>) -> NumberClass)
    requires
        st.expect == ExpectModel::Line,
        words(line).len() >= 2,
        parse_usize(words(line)[1]) == Some(c),
        c > 0,
        renamed(st, line) is Some,
    ensures
        ({
            let kw = str_lowercase(words(line)[0]);
            let next = step_spec(st, Some(line), cls);
            &&& (kw == "verts"@ || kw == "animverts"@) ==> next.0.expect == ExpectModel::Items {
                kind: ItemKind::Vertex,
                remaining: c,
                block: kw,
            }
            &&& kw == "normals"@ ==> next.0.expect == ExpectModel::Items {
                kind: ItemKind::Normal,
                remaining: c,
                block: kw,
            }
            &&& kw == "tangents"@ ==> next.0.expect == ExpectModel::Items {
                kind: ItemKind::Tangent,
                remaining: c,
                block: kw,
            }
            &&& (kw == "tverts"@ || kw == "animtverts"@) ==> next.0.expect == ExpectModel::Items {
                kind: ItemKind::Texture,
                remaining: c,
                block: kw,
            }
            &&& (kw == "tverts1"@ || kw == "tverts2"@ || kw == "tverts3"@) ==> next.0.expect
                == ExpectModel::Items { kind: ItemKind::ExtraTexture, remaining: c, block: kw }
            &&& (kw == "weights"@ || kw == "constraints"@) ==> next.0.expect
                == ExpectModel::Copies { remaining: c, block: kw }
            &&& block_of(kw) is Some ==> next.1 == ActionModel::Write(renamed(st, line)->Some_0)
        }),
{
    lemma_block_keywords_distinct();
}

/// Law: inside a number block a line of finite numbers is an item exactly
/// when it holds as many numbers as the kind has coordinates: four for a
/// tangent (direction and handedness), three for every other kind; a line
/// with any other count rejects the model.
pub proof fn law_item_lines_hold_their_count(st: RewriterModel, line: Seq<char>, cls: spec_fn(Seq<char>) -> NumberClass)
    requires
        st.expect matches ExpectModel::Items { remaining, .. } && remaining > 0,
        forall|i: int| 0 <= i < words(line).len() ==> cls(#[trigger] words(line)[i]) == NumberClass::Finite,
    ensures
        match st.expect {
            ExpectModel::Items { kind, .. } => {
                &&& kind == ItemKind::Tangent ==> (step_spec(st, Some(line), cls).1 is Item
                    <==> words(line).len() == 4)
                &&& kind != ItemKind::Tangent ==> (step_spec(st, Some(line), cls).1 is Item
                    <==> words(line).len() == 3)
                &&& !(step_spec(st, Some(line), cls).1 is Item) ==> step_spec(st, Some(line), cls).1 is Fail
            },
            _ => true,
        },
{
}

proof fn lemma_materialname_is_no_other_keyword()
    ensures
        block_of("materialname"@) is None,
        "materialname"@ != "bitmap"@,
        "materialname"@ != "position"@,
{
    reveal_strlit("materialname");
    reveal_strlit("bitmap");
    reveal_strlit("position");
    reveal_strlit("weights");
    reveal_strlit("constraints");
    reveal_strlit("verts");
    reveal_strlit("animverts");
    reveal_strlit("normals");
    reveal_strlit("tangents");
    reveal_strlit("tverts");
    reveal_strlit("animtverts");
    reveal_strlit("tverts1");
    reveal_strlit("tverts2");
    reveal_strlit("tverts3");
    let m = "materialname"@;
    assert(m[0] != "verts"@[0]);
    assert(m[0] != "animverts"@[0]);
    assert(m[0] != "normals"@[0]);
    assert(m[0] != "tangents"@[0]);
    assert(m[0] != "tverts"@[0]);
    assert(m[0] != "animtverts"@[0]);
    assert(m[0] != "tverts1"@[0]);
    assert(m[0] != "tverts2"@[0]);
    assert(m[0] != "tverts3"@[0]);
    assert(m[0] != "weights"@[0]);
    assert(m[0] != "constraints"@[0]);
    assert(m[0] != "bitmap"@[0]);
    assert(m[0] != "position"@[0]);
}

/// Law: without `--rename-materialname` a `materialname` line is written
/// exactly as it was read.
pub proof fn law_materialname_line_kept_by_default(st: RewriterModel, line: Seq<char>, cls: spec_fn(Seq<char>) -> NumberClass)
    requires
        st.expect == ExpectModel::Line,
        st.material_mode == BitmapModel::Keep,
        words(line).len() >= 1,
        str_lowercase(words(line)[0]) == "materialname"@,
    ensures
        step_spec(st, Some(line), cls).1 == ActionModel::Write(line),
{
    lemma_materialname_is_no_other_keyword();
}

proof fn lemma_file_dependency_is_no_other_keyword(k: Seq<char>)
    requires
        k == "filedependancy"@ || k == "filedependency"@,
    ensures
        block_of(k) is None,
        k != "bitmap"@,
        k != "position"@,
        k != "materialname"@,
{
    reveal_strlit("filedependancy");
    reveal_strlit("filedependency");
    reveal_strlit("materialname");
    reveal_strlit("bitmap");
    reveal_strlit("position");
    reveal_strlit("weights");
    reveal_strlit("constraints");
    reveal_strlit("verts");
    reveal_strlit("animverts");
    reveal_strlit("normals");
    reveal_strlit("tangents");
    reveal_strlit("tverts");
    reveal_strlit("animtverts");
    reveal_strlit("tverts1");
    reveal_strlit("tverts2");
    reveal_strlit("tverts3");
    assert(k[0] == 'f');
    assert(k[0] != "verts"@[0]);
    assert(k[0] != "animverts"@[0]);
    assert(k[0] != "normals"@[0]);
    assert(k[0] != "tangents"@[0]);
    assert(k[0] != "tverts"@[0]);
    assert(k[0] != "animtverts"@[0]);
    assert(k[0] != "tverts1"@[0]);
    assert(k[0] != "tverts2"@[0]);
    assert(k[0] != "tverts3"@[0]);
    assert(k[0] != "weights"@[0]);
    assert(k[0] != "constraints"@[0]);
    assert(k[0] != "bitmap"@[0]);
    assert(k[0] != "position"@[0]);
    assert(k[0] != "materialname"@[0]);
}

/// Law: how the named lines of a model are written. A `bitmap` line under
/// `--rename-bitmap=NAME` becomes `bitmap NAME` at the same indent, and
/// under `--rename-bitmap` gets the model name replaced; a `materialname`
/// line does the same under its own option; a `filedependancy` (or
/// `filedependency`) line is copied as it is.
pub proof fn law_named_lines(st: RewriterModel, line: Seq<char>, cls: spec_fn(Seq<char>) -> NumberClass)
    requires
        st.expect == ExpectModel::Line,
        words(line).len() >= 1,
    ensures
        ({
            let kw = str_lowercase(words(line)[0]);
            let act = step_spec(st, Some(line), cls).1;
            &&& kw == "bitmap"@ && words(line).len() >= 2 ==> match st.mode {
                BitmapModel::RenameTo(n) => act == ActionModel::Write(indent(line) + "bitmap "@ + n),
                BitmapModel::RenameToModel => renamed(st, line) matches Some(t) ==> act
                    == ActionModel::Write(t),
                BitmapModel::Keep => act == ActionModel::Write(line),
            }
            &&& kw == "materialname"@ ==> match st.material_mode {
                BitmapModel::RenameTo(n) => act == ActionModel::Write(
                    indent(line) + "materialname "@ + n,
                ),
                BitmapModel::RenameToModel => renamed(st, line) matches Some(t) ==> act
                    == ActionModel::Write(t),
                BitmapModel::Keep => act == ActionModel::Write(line),
            }
            &&& (kw == "filedependancy"@ || kw == "filedependency"@) ==> act == ActionModel::Write(
                line,
            )
        }),
{
    let kw = str_lowercase(words(line)[0]);
    lemma_bitmap_is_no_block();
    lemma_materialname_is_no_other_keyword();
    if kw == "filedependancy"@ || kw == "filedependency"@ {
        lemma_file_dependency_is_no_other_keyword(kw);
    }
    if kw == "bitmap"@ {
        reveal_strlit("bitmap");
        reveal_strlit("position");
        assert("bitmap"@[0] != "position"@[0]);
    }
}

} // verus!
