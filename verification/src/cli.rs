//! The command line: which mode runs, with which files and options.

use vstd::prelude::*;
use crate::model::{
    bitmap_mode_from, flag_mode_from, material_mode_from, parse_bitmap_mode, parse_material_mode, strings_view,
    BitmapMode, BitmapModel,
};
use crate::text::{chars_eq, chars_of, string_of};

verus! {

/// What the command line asks for (the model of `Command`).
pub enum CommandModel {
    Values { source: Seq<char>, target: Seq<char> },
    ValuesUsage,
    Transform {
        ini: Seq<char>,
        source: Seq<char>,
        dest: Seq<char>,
        debug: bool,
        mode: BitmapModel,
        material: BitmapModel,
    },
    Usage,
}

/// What the command line asks for.
pub enum Command {
    /// `--values`/`-v` with a source and a target model: fit transform values.
    Values { source: String, target: String },
    /// `--values`/`-v` without exactly two files: show its usage.
    ValuesUsage,
    /// Transform models: rule file, source file or folder, target folder,
    /// with the choices for `bitmap` (`mode`) and `materialname` lines.
    Transform {
        ini: String,
        source: String,
        dest: String,
        debug: bool,
        mode: BitmapMode,
        material: BitmapMode,
    },
    /// Anything else: show the usage.
    Usage,
}

impl View for Command {
    type V = CommandModel;

    open spec fn view(&self) -> CommandModel {
        match self {
            Command::Values { source, target } => CommandModel::Values {
                source: source@,
                target: target@,
            },
            Command::ValuesUsage => CommandModel::ValuesUsage,
            Command::Transform { ini, source, dest, debug, mode, material } => CommandModel::Transform {
                ini: ini@,
                source: source@,
                dest: dest@,
                debug: *debug,
                mode: mode@,
                material: material@,
            },
            Command::Usage => CommandModel::Usage,
        }
    }
}

/// `--values` or `-v`.
pub open spec fn is_values_flag(a: Seq<char>) -> bool {
    a == "--values"@ || a == "-v"@
}

/// `--debug` or `-d`.
pub open spec fn is_debug_flag(a: Seq<char>) -> bool {
    a == "--debug"@ || a == "-d"@
}

/// `--rename-bitmap` or `--rename-bitmap=NAME`.
pub open spec fn is_bitmap_flag(a: Seq<char>) -> bool {
    let p = "--rename-bitmap="@;
    a == "--rename-bitmap"@ || (a.len() >= p.len() && a.take(p.len() as int) == p)
}

/// `--rename-materialname` or `--rename-materialname=NAME`.
pub open spec fn is_material_flag(a: Seq<char>) -> bool {
    let p = "--rename-materialname="@;
    a == "--rename-materialname"@ || (a.len() >= p.len() && a.take(p.len() as int) == p)
}

/// The arguments from the `i`-th on that are not `--values`/`-v`.
pub open spec fn without_values_flags(args: Seq<Seq<char>>, i: int) -> Seq<Seq<char>>
    decreases args.len() - i,
{
    if i < 0 || i >= args.len() {
        seq![]
    } else if is_values_flag(args[i]) {
        without_values_flags(args, i + 1)
    } else {
        seq![args[i]] + without_values_flags(args, i + 1)
    }
}

/// The arguments from the `i`-th on that are no option of the transform
/// mode.
pub open spec fn without_options(args: Seq<Seq<char>>, i: int) -> Seq<Seq<char>>
    decreases args.len() - i,
{
    if i < 0 || i >= args.len() {
        seq![]
    } else if is_debug_flag(args[i]) || is_bitmap_flag(args[i]) || is_material_flag(args[i]) {
        without_options(args, i + 1)
    } else {
        seq![args[i]] + without_options(args, i + 1)
    }
}

/// What the arguments (without the program name) ask for.
pub open spec fn command_spec(args: Seq<Seq<char>>) -> CommandModel {
    if exists|i: int| 0 <= i < args.len() && is_values_flag(#[trigger] args[i]) {
        let rest = without_values_flags(args, 0);
        if rest.len() == 2 {
            CommandModel::Values { source: rest[0], target: rest[1] }
        } else {
            CommandModel::ValuesUsage
        }
    } else {
        let files = without_options(args, 0);
        if files.len() == 3 {
            CommandModel::Transform {
                ini: files[0],
                source: files[1],
                dest: files[2],
                debug: exists|i: int| 0 <= i < args.len() && is_debug_flag(#[trigger] args[i]),
                mode: bitmap_mode_from(args, 0),
                material: material_mode_from(args, 0),
            }
        } else {
            CommandModel::Usage
        }
    }
}

fn is_one_of(a: &Vec<char>, x: &str, y: &str) -> (b: bool)
    ensures
        b == (a@ == x@ || a@ == y@),
{
    chars_eq(a, &chars_of(x)) || chars_eq(a, &chars_of(y))
}

/// `a` is the option `flag` or starts with `prefix` (`flag=`).
fn is_option(a: &Vec<char>, flag: &str, prefix: &str) -> (b: bool)
    ensures
        b == (a@ == flag@ || (a@.len() >= prefix@.len() && a@.take(prefix@.len() as int) == prefix@)),
{
    let p = chars_of(prefix);
    if chars_eq(a, &chars_of(flag)) {
        return true;
    }
    if a.len() < p.len() {
        return false;
    }
    let head = crate::text::sub_chars(a, 0, p.len());
    assert(head@ =~= a@.take(p@.len() as int));
    chars_eq(&head, &p)
}

/// Reads the command line (the arguments after the program name).
pub fn parse_command_line(args: &Vec<String>) -> (c: Command)
    ensures
        c@ == command_spec(strings_view(args@)),
{
    let ghost a = strings_view(args@);
    let mut values = false;
    let mut debug = false;
    let mut rest: Vec<String> = Vec::new();
    let mut files: Vec<String> = Vec::new();
    let mut i: usize = 0;
    assert(strings_view(rest@) =~= seq![]);
    assert(strings_view(files@) =~= seq![]);
    while i < args.len()
        invariant
            a == strings_view(args@),
            i <= args.len(),
            values == exists|j: int| 0 <= j < i && is_values_flag(#[trigger] a[j]),
            debug == exists|j: int| 0 <= j < i && is_debug_flag(#[trigger] a[j]),
            strings_view(rest@) + without_values_flags(a, i as int) == without_values_flags(a, 0),
            strings_view(files@) + without_options(a, i as int) == without_options(a, 0),
        decreases args.len() - i,
    {
        let c = chars_of(args[i].as_str());
        assert(c@ == a[i as int]);
        let is_values = is_one_of(&c, "--values", "-v");
        let is_debug = is_one_of(&c, "--debug", "-d");
        let is_bitmap = is_option(&c, "--rename-bitmap", "--rename-bitmap=");
        let is_material = is_option(&c, "--rename-materialname", "--rename-materialname=");
        if is_values {
            values = true;
        } else {
            let ghost before = strings_view(rest@);
            rest.push(string_of(&c));
            assert(strings_view(rest@) =~= before.push(a[i as int]));
            assert(before + without_values_flags(a, i as int) =~= strings_view(rest@)
                + without_values_flags(a, i + 1));
        }
        if is_debug {
            debug = true;
        }
        if !is_debug && !is_bitmap && !is_material {
            let ghost before = strings_view(files@);
            files.push(string_of(&c));
            assert(strings_view(files@) =~= before.push(a[i as int]));
            assert(before + without_options(a, i as int) =~= strings_view(files@) + without_options(
                a,
                i + 1,
            ));
        }
        i = i + 1;
    }
    assert(strings_view(rest@) + seq![] =~= strings_view(rest@));
    assert(strings_view(files@) + seq![] =~= strings_view(files@));
    if values {
        if rest.len() == 2 {
            let target = rest.pop().unwrap();
            let source = rest.pop().unwrap();
            return Command::Values { source, target };
        }
        return Command::ValuesUsage;
    }
    if files.len() == 3 {
        let mode = parse_bitmap_mode(args);
        let material = parse_material_mode(args);
        let dest = files.pop().unwrap();
        let source = files.pop().unwrap();
        let ini = files.pop().unwrap();
        return Command::Transform { ini, source, dest, debug, mode, material };
    }
    Command::Usage
}

/// `a` is an ordinary argument: it does not start with `-`.
pub open spec fn plain_arg(a: Seq<char>) -> bool {
    a.len() > 0 && a[0] != '-'
}

proof fn lemma_plain_arg_is_no_option(a: Seq<char>)
    requires
        plain_arg(a),
    ensures
        !is_values_flag(a),
        !is_debug_flag(a),
        !is_bitmap_flag(a),
        !is_material_flag(a),
        flag_mode_from(seq![a], 0, "--rename-bitmap="@, "--rename-bitmap"@) == BitmapModel::Keep,
        flag_mode_from(seq![a], 0, "--rename-materialname="@, "--rename-materialname"@)
            == BitmapModel::Keep,
{
    reveal_strlit("--values");
    reveal_strlit("-v");
    reveal_strlit("--debug");
    reveal_strlit("-d");
    reveal_strlit("--rename-bitmap");
    reveal_strlit("--rename-bitmap=");
    reveal_strlit("--rename-materialname");
    reveal_strlit("--rename-materialname=");
    let p = "--rename-bitmap="@;
    let q = "--rename-materialname="@;
    if a.len() >= p.len() && a.take(p.len() as int) == p {
        assert(a[0] == a.take(p.len() as int)[0]);
    }
    if a.len() >= q.len() && a.take(q.len() as int) == q {
        assert(a[0] == a.take(q.len() as int)[0]);
    }
    assert(flag_mode_from(seq![a], 1, p, "--rename-bitmap"@) == BitmapModel::Keep);
    assert(flag_mode_from(seq![a], 1, q, "--rename-materialname"@) == BitmapModel::Keep);
}

proof fn lemma_flag_mode_skips(args: Seq<Seq<char>>, i: int, prefix: Seq<char>, flag: Seq<char>)
    requires
        0 <= i < args.len(),
        prefix.len() > 0,
        prefix[0] == '-',
        flag.len() > 0,
        flag[0] == '-',
        forall|j: int| i <= j < args.len() ==> plain_arg(#[trigger] args[j]),
    ensures
        flag_mode_from(args, i, prefix, flag) == BitmapModel::Keep,
    decreases args.len() - i,
{
    let a = args[i];
    assert(plain_arg(a));
    if a.len() >= prefix.len() && a.take(prefix.len() as int) == prefix {
        assert(a[0] == a.take(prefix.len() as int)[0]);
    }
    if i + 1 < args.len() {
        lemma_flag_mode_skips(args, i + 1, prefix, flag);
    }
}

/// Law: an option given before three ordinary arguments (none starting
/// with `-`) is never taken for a file: the three arguments are the rule
/// file, the source and the target folder, and the option sets what it
/// names. `--rename-bitmap` renames the `bitmap` line to the model name,
/// `--rename-materialname` the `materialname` line, `--rename-bitmap=NAME`
/// sets the `bitmap` line to NAME, and `-d`/`--debug` turns on debugging;
/// everything else keeps its default (no debugging, lines kept).
pub proof fn law_option_is_no_file(f: Seq<char>, a: Seq<char>, b: Seq<char>, c: Seq<char>)
    requires
        plain_arg(a),
        plain_arg(b),
        plain_arg(c),
    ensures
        f == "--rename-bitmap"@ ==> command_spec(seq![f, a, b, c]) == (CommandModel::Transform {
            ini: a,
            source: b,
            dest: c,
            debug: false,
            mode: BitmapModel::RenameToModel,
            material: BitmapModel::Keep,
        }),
        f == "--rename-materialname"@ ==> command_spec(seq![f, a, b, c]) == (CommandModel::Transform {
            ini: a,
            source: b,
            dest: c,
            debug: false,
            mode: BitmapModel::Keep,
            material: BitmapModel::RenameToModel,
        }),
        (f == "-d"@ || f == "--debug"@) ==> command_spec(seq![f, a, b, c]) == (CommandModel::Transform {
            ini: a,
            source: b,
            dest: c,
            debug: true,
            mode: BitmapModel::Keep,
            material: BitmapModel::Keep,
        }),
        forall|name: Seq<char>|
            f == #[trigger] ("--rename-bitmap="@ + name) ==> command_spec(seq![f, a, b, c]) == (
            CommandModel::Transform {
                ini: a,
                source: b,
                dest: c,
                debug: false,
                mode: BitmapModel::RenameTo(name),
                material: BitmapModel::Keep,
            }),
{
    reveal_strlit("--values");
    reveal_strlit("-v");
    reveal_strlit("--debug");
    reveal_strlit("-d");
    reveal_strlit("--rename-bitmap");
    reveal_strlit("--rename-bitmap=");
    reveal_strlit("--rename-materialname");
    reveal_strlit("--rename-materialname=");
    let args = seq![f, a, b, c];
    let pb = "--rename-bitmap="@;
    let pm = "--rename-materialname="@;
    let fb = "--rename-bitmap"@;
    let fm = "--rename-materialname"@;
    lemma_plain_arg_is_no_option(a);
    lemma_plain_arg_is_no_option(b);
    lemma_plain_arg_is_no_option(c);
    assert forall|j: int| 1 <= j < args.len() implies plain_arg(#[trigger] args[j]) by {}
    lemma_flag_mode_skips(args, 1, pb, fb);
    lemma_flag_mode_skips(args, 1, pm, fm);
    assert(without_options(args, 4) == Seq::<Seq<char>>::empty());
    assert(without_options(args, 3) =~= seq![c]);
    assert(without_options(args, 2) =~= seq![b, c]);
    assert(without_options(args, 1) =~= seq![a, b, c]);
    if f == fb {
        assert(f.len() < pb.len());
        assert(f.len() != pm.len() && f.len() < pm.len());
        assert(f != fm);
        assert(!is_values_flag(f));
        assert(!is_debug_flag(f));
        assert(is_bitmap_flag(f));
        assert(without_options(args, 0) =~= seq![a, b, c]);
        assert(!exists|i: int| 0 <= i < args.len() && is_values_flag(#[trigger] args[i])) by {
            assert forall|i: int| 0 <= i < args.len() implies !is_values_flag(#[trigger] args[i]) by {
                if i == 0 {
                } else {
                    assert(plain_arg(args[i]));
                }
            }
        }
        assert(!exists|i: int| 0 <= i < args.len() && is_debug_flag(#[trigger] args[i])) by {
            assert forall|i: int| 0 <= i < args.len() implies !is_debug_flag(#[trigger] args[i]) by {
                if i > 0 {
                    assert(plain_arg(args[i]));
                }
            }
        }
    }
    if f == fm {
        assert(f.len() < pm.len());
        assert(f.len() > pb.len());
        assert(f[15] != pb[15]);
        assert(f.take(pb.len() as int)[15] == f[15]);
        assert(f != fb);
        assert(!is_values_flag(f));
        assert(!is_debug_flag(f));
        assert(is_material_flag(f));
        assert(without_options(args, 0) =~= seq![a, b, c]);
        assert(!exists|i: int| 0 <= i < args.len() && is_values_flag(#[trigger] args[i])) by {
            assert forall|i: int| 0 <= i < args.len() implies !is_values_flag(#[trigger] args[i]) by {
                if i > 0 {
                    assert(plain_arg(args[i]));
                }
            }
        }
        assert(!exists|i: int| 0 <= i < args.len() && is_debug_flag(#[trigger] args[i])) by {
            assert forall|i: int| 0 <= i < args.len() implies !is_debug_flag(#[trigger] args[i]) by {
                if i > 0 {
                    assert(plain_arg(args[i]));
                }
            }
        }
    }
    if f == "-d"@ || f == "--debug"@ {
        assert(f.len() < pb.len() && f.len() < pm.len());
        assert(f != fb && f != fm);
        assert(!is_values_flag(f)) by {
            if f == "--debug"@ {
                assert(f[2] != "--values"@[2]);
            } else {
                assert(f[1] != "-v"@[1]);
            }
        }
        assert(is_debug_flag(f));
        assert(without_options(args, 0) =~= seq![a, b, c]);
        assert(is_debug_flag(args[0]));
        assert(!exists|i: int| 0 <= i < args.len() && is_values_flag(#[trigger] args[i])) by {
            assert forall|i: int| 0 <= i < args.len() implies !is_values_flag(#[trigger] args[i]) by {
                if i > 0 {
                    assert(plain_arg(args[i]));
                }
            }
        }
    }
    assert forall|name: Seq<char>| f == #[trigger] ("--rename-bitmap="@ + name) implies command_spec(
        seq![f, a, b, c],
    ) == (CommandModel::Transform {
        ini: a,
        source: b,
        dest: c,
        debug: false,
        mode: BitmapModel::RenameTo(name),
        material: BitmapModel::Keep,
    }) by {
        assert(f.take(pb.len() as int) =~= pb);
        assert(f.skip(pb.len() as int) =~= name);
        assert(is_bitmap_flag(f));
        assert(f[2] != "--values"@[2]);
        assert(f.len() > 2);
        assert(!is_values_flag(f));
        assert(!is_debug_flag(f));
        assert(f[15] != pm[15]);
        if f.len() >= pm.len() && f.take(pm.len() as int) == pm {
            assert(f.take(pm.len() as int)[15] == f[15]);
        }
        assert(f != fm);
        assert(without_options(args, 0) =~= seq![a, b, c]);
        assert(!exists|i: int| 0 <= i < args.len() && is_values_flag(#[trigger] args[i])) by {
            assert forall|i: int| 0 <= i < args.len() implies !is_values_flag(#[trigger] args[i]) by {
                if i > 0 {
                    assert(plain_arg(args[i]));
                }
            }
        }
        assert(!exists|i: int| 0 <= i < args.len() && is_debug_flag(#[trigger] args[i])) by {
            assert forall|i: int| 0 <= i < args.len() implies !is_debug_flag(#[trigger] args[i]) by {
                if i > 0 {
                    assert(plain_arg(args[i]));
                }
            }
        }
    }
}

/// Law: `--values` or `-v` anywhere with two ordinary arguments asks to fit
/// the first (the source model) to the second (the target model).
pub proof fn law_values_with_two_models(f: Seq<char>, a: Seq<char>, b: Seq<char>)
    requires
        f == "--values"@ || f == "-v"@,
        plain_arg(a),
        plain_arg(b),
    ensures
        command_spec(seq![f, a, b]) == (CommandModel::Values { source: a, target: b }),
        command_spec(seq![a, f, b]) == (CommandModel::Values { source: a, target: b }),
        command_spec(seq![a, b, f]) == (CommandModel::Values { source: a, target: b }),
{
    lemma_plain_arg_is_no_option(a);
    lemma_plain_arg_is_no_option(b);
    assert(is_values_flag(f));
    let s1 = seq![f, a, b];
    let s2 = seq![a, f, b];
    let s3 = seq![a, b, f];
    assert(is_values_flag(s1[0]));
    assert(is_values_flag(s2[1]));
    assert(is_values_flag(s3[2]));
    assert(without_values_flags(s1, 3) == Seq::<Seq<char>>::empty());
    assert(without_values_flags(s1, 2) =~= seq![b]);
    assert(without_values_flags(s1, 1) =~= seq![a, b]);
    assert(without_values_flags(s1, 0) =~= seq![a, b]);
    assert(without_values_flags(s2, 3) == Seq::<Seq<char>>::empty());
    assert(without_values_flags(s2, 2) =~= seq![b]);
    assert(without_values_flags(s2, 1) =~= seq![b]);
    assert(without_values_flags(s2, 0) =~= seq![a, b]);
    assert(without_values_flags(s3, 3) == Seq::<Seq<char>>::empty());
    assert(without_values_flags(s3, 2) == Seq::<Seq<char>>::empty());
    assert(without_values_flags(s3, 1) =~= seq![b]);
    assert(without_values_flags(s3, 0) =~= seq![a, b]);
}

} // verus!
