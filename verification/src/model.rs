//! Rewriting an ASCII model line by line: the command-line choice for
//! `bitmap` lines, the error texts, the block counts, and the decisions for
//! every line (kept in `ModelRewriter`).

use vstd::prelude::*;
use crate::text::{
    chars_eq, chars_of, copy_chars, decimal, decimal_chars, parse_usize, parse_usize_chars,
    push_all, push_str, string_of, sub_chars,
};

verus! {

/// What happens to a `bitmap <name>` line.
pub enum BitmapMode {
    /// The line stays as it is.
    Keep,
    /// The model name in the line is replaced like in any other line.
    RenameToModel,
    /// The line becomes `bitmap <name>` with this name (indent kept).
    RenameTo(String),
}

/// The model of a `BitmapMode`.
pub enum BitmapModel {
    Keep,
    RenameToModel,
    RenameTo(Seq<char>),
}

impl View for BitmapMode {
    type V = BitmapModel;

    open spec fn view(&self) -> BitmapModel {
        match self {
            BitmapMode::Keep => BitmapModel::Keep,
            BitmapMode::RenameToModel => BitmapModel::RenameToModel,
            BitmapMode::RenameTo(n) => BitmapModel::RenameTo(n@),
        }
    }
}

/// The texts of a list of strings.
pub open spec fn strings_view(v: Seq<String>) -> Seq<Seq<char>> {
    v.map_values(|s: String| s@)
}

/// The choice that the option `flag` makes among the arguments from the
/// `i`-th on: the first `flag=NAME` (with `prefix` being `flag=`) or bare
/// `flag` decides; without either the line is kept.
pub open spec fn flag_mode_from(args: Seq<Seq<char>>, i: int, prefix: Seq<char>, flag: Seq<char>) -> BitmapModel
    decreases args.len() - i,
{
    if i < 0 || i >= args.len() {
        BitmapModel::Keep
    } else if args[i].len() >= prefix.len() && args[i].take(prefix.len() as int) == prefix {
        BitmapModel::RenameTo(args[i].skip(prefix.len() as int))
    } else if args[i] == flag {
        BitmapModel::RenameToModel
    } else {
        flag_mode_from(args, i + 1, prefix, flag)
    }
}

/// The bitmap choice of the arguments from the `i`-th on: the first
/// `--rename-bitmap=NAME` or `--rename-bitmap` decides; without either the
/// line is kept.
pub open spec fn bitmap_mode_from(args: Seq<Seq<char>>, i: int) -> BitmapModel {
    flag_mode_from(args, i, "--rename-bitmap="@, "--rename-bitmap"@)
}

/// The `materialname` choice of the arguments from the `i`-th on: the first
/// `--rename-materialname=NAME` or `--rename-materialname` decides; without
/// either the line is kept.
pub open spec fn material_mode_from(args: Seq<Seq<char>>, i: int) -> BitmapModel {
    flag_mode_from(args, i, "--rename-materialname="@, "--rename-materialname"@)
}

/// Whether `s` starts with `p`.
fn starts_with(s: &Vec<char>, p: &Vec<char>) -> (b: bool)
    ensures
        b == (s@.len() >= p@.len() && s@.take(p@.len() as int) == p@),
{
    if s.len() < p.len() {
        return false;
    }
    let head = sub_chars(s, 0, p.len());
    assert(head@ =~= s@.take(p@.len() as int));
    chars_eq(&head, p)
}

/// Reads the option `flag` (with `prefix` being `flag=`) from the raw
/// arguments.
fn parse_flag_mode(args: &Vec<String>, prefix: &str, flag: &str) -> (m: BitmapMode)
    ensures
        m@ == flag_mode_from(strings_view(args@), 0, prefix@, flag@),
{
    let ghost a = strings_view(args@);
    let pc = chars_of(prefix);
    let fc = chars_of(flag);
    let mut i: usize = 0;
    while i < args.len()
        invariant
            a == strings_view(args@),
            pc@ == prefix@,
            fc@ == flag@,
            i <= args.len(),
            flag_mode_from(a, 0, prefix@, flag@) == flag_mode_from(a, i as int, prefix@, flag@),
        decreases args.len() - i,
    {
        let c = chars_of(args[i].as_str());
        assert(c@ == a[i as int]);
        if starts_with(&c, &pc) {
            let name = sub_chars(&c, pc.len(), c.len());
            assert(name@ =~= a[i as int].skip(pc@.len() as int));
            return BitmapMode::RenameTo(string_of(&name));
        }
        if chars_eq(&c, &fc) {
            return BitmapMode::RenameToModel;
        }
        i = i + 1;
    }
    BitmapMode::Keep
}

/// Reads `--rename-bitmap` / `--rename-bitmap=NAME` from the raw arguments.
pub fn parse_bitmap_mode(args: &Vec<String>) -> (m: BitmapMode)
    ensures
        m@ == bitmap_mode_from(strings_view(args@), 0),
{
    parse_flag_mode(args, "--rename-bitmap=", "--rename-bitmap")
}

/// Reads `--rename-materialname` / `--rename-materialname=NAME` from the raw
/// arguments.
pub fn parse_material_mode(args: &Vec<String>) -> (m: BitmapMode)
    ensures
        m@ == material_mode_from(strings_view(args@), 0),
{
    parse_flag_mode(args, "--rename-materialname=", "--rename-materialname")
}

/// The text of an error in a model file: `path:line: Block 'block': message`.
pub open spec fn model_error_text(path: Seq<char>, line: nat, block: Seq<char>, message: Seq<
    char,
>) -> Seq<char> {
    path + ":"@ + decimal(line) + ": Block '"@ + block + "': "@ + message
}

pub fn model_error_chars(path: &Vec<char>, line: usize, block: &Vec<char>, message: &Vec<char>) -> (r:
    Vec<char>)
    ensures
        r@ == model_error_text(path@, line as nat, block@, message@),
{
    let mut out = copy_chars(path);
    push_str(&mut out, ":");
    push_all(&mut out, &decimal_chars(line));
    push_str(&mut out, ": Block '");
    push_all(&mut out, block);
    push_str(&mut out, "': ");
    push_all(&mut out, message);
    out
}

/// The text of an error at `line` of the model file at `path`, in `block`.
pub fn model_error(path: &str, line: usize, block: &str, message: &str) -> (r: String)
    ensures
        r@ == model_error_text(path@, line as nat, block@, message@),
{
    let r = model_error_chars(&chars_of(path), line, &chars_of(block), &chars_of(message));
    string_of(&r)
}

/// Reads the count of a block header (`verts 12`): the token after the
/// keyword, as a decimal number.
pub fn parse_block_count(path: &str, line_no: usize, block: &str, token: Option<&str>) -> (r:
    Result<usize, String>)
    ensures
        match token {
            None => r matches Err(m) && m@ == model_error_text(
                path@,
                line_no as nat,
                block@,
                "Quantity missing"@,
            ),
            Some(t) => match parse_usize(t@) {
                Some(n) => r == Ok::<usize, String>(n as usize),
                None => r matches Err(m) && m@ == model_error_text(
                    path@,
                    line_no as nat,
                    block@,
                    "invalid quantity '"@ + t@ + "'"@,
                ),
            },
        },
{
    match token {
        None => Err(model_error(path, line_no, block, "Quantity missing")),
        Some(t) => {
            let c = chars_of(t);
            match parse_usize_chars(&c) {
                Some(n) => Ok(n),
                None => {
                    let mut msg = chars_of("invalid quantity '");
                    push_all(&mut msg, &c);
                    push_str(&mut msg, "'");
                    let r = model_error_chars(&chars_of(path), line_no, &chars_of(block), &msg);
                    Err(string_of(&r))
                },
            }
        },
    }
}

/// `s` is one plain path component on every platform: not empty, no
/// separator (`/` or `\\`), no drive colon, and neither `.` nor `..`.
pub open spec fn plain_name(s: Seq<char>) -> bool {
    &&& s.len() > 0
    &&& !s.contains('/')
    &&& !s.contains('\\')
    &&& !s.contains(':')
    &&& s != "."@
    &&& s != ".."@
}

/// `n` stands somewhere in `p` as a contiguous piece.
pub open spec fn piece_of(n: Seq<char>, p: Seq<char>) -> bool {
    exists|i: int| 0 <= i && i + n.len() <= p.len() && #[trigger] p.subrange(i, i + n.len()) == n
}

/// `p` has no final component: it is empty, the root `/`, or ends in `..`.
pub open spec fn ends_without_name(p: Seq<char>) -> bool {
    ||| p.len() == 0
    ||| p == "/"@
    ||| p == ".."@
    ||| (p.len() >= 3 && p.subrange(p.len() - 3, p.len() as int) == "/.."@)
}

/// `p` is a directory part, `/` and the plain component `n`, written so that
/// no platform reads a prefix into it: no `\\`, no `:`, and no leading `//`.
pub open spec fn dir_then_name(p: Seq<char>, n: Seq<char>) -> bool {
    &&& plain_name(n)
    &&& p.len() > n.len()
    &&& p[p.len() - n.len() - 1] == '/'
    &&& p.subrange(p.len() - n.len(), p.len() as int) == n
    &&& !p.contains('\\')
    &&& !p.contains(':')
    &&& !(p.len() >= 2 && p[0] == '/' && p[1] == '/')
}

/// The directory part of a path `p` that ends with `/` and `n`.
pub open spec fn dir_part(p: Seq<char>, n: Seq<char>) -> Seq<char> {
    p.take(p.len() - n.len() - 1)
}

/// `d` without the `/` characters at its end.
pub open spec fn trim_slashes(d: Seq<char>) -> Seq<char>
    decreases d.len(),
{
    if d.len() > 0 && d.last() == '/' {
        trim_slashes(d.drop_last())
    } else {
        d
    }
}

/// The directory part `d` is its own parent path: once its trailing `/` are
/// gone it does not end in a `.` component (which a parent path drops).
pub open spec fn tidy_dir(d: Seq<char>) -> bool {
    let e = trim_slashes(d);
    !(e.len() >= 2 && e[e.len() - 2] == '/' && e[e.len() - 1] == '.')
}

/// `t` is the directory `dir`, one separator (`/` or `\\`) and `name`.
pub open spec fn joined_path(t: Seq<char>, dir: Seq<char>, name: Seq<char>) -> bool {
    &&& t.len() == dir.len() + 1 + name.len()
    &&& t.take(dir.len() as int) == dir
    &&& (t[dir.len() as int] == '/' || t[dir.len() as int] == '\\')
    &&& t.subrange(dir.len() + 1int, t.len() as int) == name
}

/// `t` ends with `suffix`.
pub open spec fn ends_with(t: Seq<char>, suffix: Seq<char>) -> bool {
    t.len() >= suffix.len() && t.subrange(t.len() - suffix.len(), t.len() as int) == suffix
}

/// Calls `Path::file_name` on the path `p`: its final component, if it has
/// one. Claimed here only what holds under every platform's path syntax: a
/// component is a non-empty piece of the path, and holds no `/` unless the
/// path has a `\\` (a Windows verbatim path does not split at `/`); a path
/// that is one plain component, or a directory part, `/` and a plain
/// component, has that component as its file name; an empty path, the root
/// and a path ending in `..` (with no `\\`) have none. Which component it is
/// otherwise depends on the platform and is not stated.
#[verifier::external_body]
fn path_file_name(p: &str) -> (r: Option<String>)
    ensures
        r.is_some() ==> r.unwrap()@.len() > 0 && piece_of(r.unwrap()@, p@)
            && (!p@.contains('\\') ==> !r.unwrap()@.contains('/')),
        plain_name(p@) ==> r.is_some() && r.unwrap()@ == p@,
        forall|n: Seq<char>| #[trigger] dir_then_name(p@, n) ==> r.is_some() && r.unwrap()@ == n,
        !p@.contains('\\') && ends_without_name(p@) ==> r.is_none(),
{
    std::path::Path::new(p).file_name().map(|n| n.to_string_lossy().into_owned())
}

/// Calls `Path::with_file_name` on the path `p`: its parent path, then
/// `name` (pop, then push). Claimed here for a plain `name` only: the
/// result ends with `name`; it is `name` itself where `p` is one plain
/// component (whose parent is empty); and where `p` is a directory part, `/`
/// and a plain component, with a directory part that is its own parent once
/// its trailing `/` are gone, the result is that directory, one separator
/// and `name`. Which separator (`/` or `\\`) is the platform's and is not
/// stated; nor is the result for other paths.
#[verifier::external_body]
fn path_with_file_name(p: &str, name: &str) -> (r: String)
    ensures
        plain_name(name@) ==> ends_with(r@, name@),
        plain_name(name@) && plain_name(p@) ==> r@ == name@,
        forall|n: Seq<char>|
            #[trigger] dir_then_name(p@, n) && plain_name(name@) && tidy_dir(dir_part(p@, n))
                ==> joined_path(r@, trim_slashes(dir_part(p@, n)), name@),
{
    std::path::Path::new(p).with_file_name(name).to_string_lossy().into_owned()
}

/// The name of the temporary file for a target whose file name is
/// `file_name` (`None`: the path has none): that name with `.tmp` appended,
/// or the error text for `out_path`.
pub fn temporary_file_name(out_path: &str, file_name: Option<&str>) -> (r: Result<String, String>)
    ensures
        match file_name {
            Some(n) => r matches Ok(t) && t@ == n@ + ".tmp"@,
            None => r matches Err(m) && m@ == "target path '"@ + out_path@ + "' has no file name"@,
        },
{
    match file_name {
        Some(n) => {
            let mut t = chars_of(n);
            push_str(&mut t, ".tmp");
            Ok(string_of(&t))
        },
        None => {
            let mut m = chars_of("target path '");
            push_str(&mut m, out_path);
            push_str(&mut m, "' has no file name");
            Err(string_of(&m))
        },
    }
}

/// The temporary path next to `out_path` that a model is written to before
/// it is published: its file name with `.tmp` appended. A path without a
/// file name gives the error text. Where the file name is a plain
/// component, the temporary path ends with it and `.tmp`; the separator
/// before it is the platform's.
pub fn temporary_path(out_path: &str) -> (r: Result<String, String>)
    ensures
        r matches Err(m) ==> m@ == "target path '"@ + out_path@ + "' has no file name"@,
        !out_path@.contains('\\') && ends_without_name(out_path@) ==> r is Err,
        plain_name(out_path@) ==> (r matches Ok(t) && t@ == out_path@ + ".tmp"@),
        forall|n: Seq<char>| #[trigger] dir_then_name(out_path@, n) ==> (r matches Ok(t)
            && ends_with(t@, n + ".tmp"@)),
        forall|n: Seq<char>| #[trigger] dir_then_name(out_path@, n) && tidy_dir(
            dir_part(out_path@, n),
        ) ==> (r matches Ok(t) && joined_path(t@, trim_slashes(dir_part(out_path@, n)), n + ".tmp"@)),
        r matches Ok(t) ==> exists|n: Seq<char>|
            n.len() > 0 && piece_of(n, out_path@)
            && (!out_path@.contains('\\') ==> !n.contains('/'))
            && (plain_name(n) ==> ends_with(t@, n + ".tmp"@)),
{
    match path_file_name(out_path) {
        None => temporary_file_name(out_path, None),
        Some(name) => {
            let tmp = match temporary_file_name(out_path, Some(name.as_str())) {
                Ok(t) => t,
                Err(e) => {
                    return Err(e);
                },
            };
            proof {
                if plain_name(name@) {
                    lemma_tmp_name_plain(name@);
                }
            }
            let t = path_with_file_name(out_path, tmp.as_str());
            proof {
                reveal_strlit(".tmp");
                assert(tmp@ == name@ + ".tmp"@);
            }
            Ok(t)
        },
    }
}

/// Appending `.tmp` to a plain component gives a plain component.
proof fn lemma_tmp_name_plain(n: Seq<char>)
    requires
        plain_name(n),
    ensures
        plain_name(n + ".tmp"@),
{
    let t = n + ".tmp"@;
    reveal_strlit(".tmp");
    assert(t.len() == n.len() + 4);
    assert forall|i: int| 0 <= i < t.len() implies t[i] != '/' && t[i] != '\\' && t[i] != ':' by {
        if i < n.len() {
            assert(t[i] == n[i]);
        }
    }
    if t == "."@ || t == ".."@ {
        reveal_strlit(".");
        reveal_strlit("..");
    }
}

} // verus!
