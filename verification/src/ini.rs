//! The INI format of the rule files: `[section]` headers, `key=value` lines,
//! `;` and `#` comments. Section names and keys are compared in lower case.

use vstd::prelude::*;
use crate::text::{
    chars_eq, chars_of, copy_chars, decimal, decimal_chars, find_char, first_index, lines_of, lowercase,
    push_all, push_str, split_lines, str_lowercase, string_of, trim, trim_chars, views,
};

verus! {

/// A key with its value, both as characters.
pub type EntryModel = (Seq<char>, Seq<char>);

/// A section: its name and its entries in the order they were read.
pub type SectionModel = (Seq<char>, Seq<EntryModel>);

/// All sections in the order they were first seen.
pub type IniModel = Seq<SectionModel>;

/// One `key=value` line of a section.
pub struct IniEntry {
    pub key: Vec<char>,
    pub value: Vec<char>,
}

impl View for IniEntry {
    type V = EntryModel;

    open spec fn view(&self) -> EntryModel {
        (self.key@, self.value@)
    }
}

/// The entries of a list, as models.
pub open spec fn entries_view(v: Seq<IniEntry>) -> Seq<EntryModel> {
    v.map_values(|e: IniEntry| e@)
}

/// One section of an INI text.
pub struct IniSection {
    pub name: Vec<char>,
    pub entries: Vec<IniEntry>,
}

impl View for IniSection {
    type V = SectionModel;

    open spec fn view(&self) -> SectionModel {
        (self.name@, entries_view(self.entries@))
    }
}

/// The sections of a list, as models.
pub open spec fn sections_view(v: Seq<IniSection>) -> IniModel {
    v.map_values(|s: IniSection| s@)
}

/// A parsed INI text.
pub struct Ini {
    pub sections: Vec<IniSection>,
}

impl View for Ini {
    type V = IniModel;

    open spec fn view(&self) -> IniModel {
        sections_view(self.sections@)
    }
}

/// Why an INI text was rejected (the model of `IniErrorKind`).
pub enum IniFault {
    UnterminatedHeader(Seq<char>),
    ContentAfterHeader,
    EmptySectionName,
    DuplicateSection(Seq<char>),
    MissingEquals(Seq<char>),
    EmptyKey(Seq<char>),
    DuplicateKey(Seq<char>, Seq<char>),
}

/// Why an INI text was rejected.
pub enum IniErrorKind {
    /// A `[` line without `]`; holds the trimmed line.
    UnterminatedHeader(Vec<char>),
    /// Something other than white space after `]`.
    ContentAfterHeader,
    /// `[]` or a header of white space only.
    EmptySectionName,
    /// A section header seen before; holds the lowercase name.
    DuplicateSection(Vec<char>),
    /// A line that is neither header, comment nor `key=value`; holds the
    /// current section.
    MissingEquals(Vec<char>),
    /// `=value` with nothing before the `=`; holds the current section.
    EmptyKey(Vec<char>),
    /// A key seen before in the same section; holds section and key.
    DuplicateKey(Vec<char>, Vec<char>),
}

impl View for IniErrorKind {
    type V = IniFault;

    open spec fn view(&self) -> IniFault {
        match self {
            IniErrorKind::UnterminatedHeader(l) => IniFault::UnterminatedHeader(l@),
            IniErrorKind::ContentAfterHeader => IniFault::ContentAfterHeader,
            IniErrorKind::EmptySectionName => IniFault::EmptySectionName,
            IniErrorKind::DuplicateSection(s) => IniFault::DuplicateSection(s@),
            IniErrorKind::MissingEquals(s) => IniFault::MissingEquals(s@),
            IniErrorKind::EmptyKey(s) => IniFault::EmptyKey(s@),
            IniErrorKind::DuplicateKey(s, k) => IniFault::DuplicateKey(s@, k@),
        }
    }
}

/// A rejected INI text: the 1-based line number and the reason.
pub struct IniError {
    pub line_no: usize,
    pub kind: IniErrorKind,
}

impl View for IniError {
    type V = (nat, IniFault);

    open spec fn view(&self) -> (nat, IniFault) {
        (self.line_no as nat, self.kind@)
    }
}

/// The first section at or after `i` with the given name.
pub open spec fn section_from(secs: IniModel, name: Seq<char>, i: int) -> Option<int>
    decreases secs.len() - i,
{
    if i < 0 || i >= secs.len() {
        None
    } else if secs[i].0 == name {
        Some(i)
    } else {
        section_from(secs, name, i + 1)
    }
}

/// The section with the given name.
pub open spec fn section_index(secs: IniModel, name: Seq<char>) -> Option<int> {
    section_from(secs, name, 0)
}

/// The first entry at or after `i` with the given key.
pub open spec fn key_from(entries: Seq<EntryModel>, key: Seq<char>, i: int) -> Option<int>
    decreases entries.len() - i,
{
    if i < 0 || i >= entries.len() {
        None
    } else if entries[i].0 == key {
        Some(i)
    } else {
        key_from(entries, key, i + 1)
    }
}

/// The entry with the given key.
pub open spec fn key_index(entries: Seq<EntryModel>, key: Seq<char>) -> Option<int> {
    key_from(entries, key, 0)
}

/// The section that lines before any header belong to.
pub open spec fn global_name() -> Seq<char> {
    seq!['g', 'l', 'o', 'b', 'a', 'l']
}

/// One line (number `n`) of an INI text applied to the sections read so far
/// and the current section name.
pub open spec fn ini_line(secs: IniModel, current: Seq<char>, n: nat, raw: Seq<char>) -> Result<
    (IniModel, Seq<char>),
    (nat, IniFault),
> {
    let line = trim(raw);
    if line.len() == 0 || line[0] == ';' || line[0] == '#' {
        Ok((secs, current))
    } else if line[0] == '[' {
        match first_index(line, ']') {
            None => Err((n, IniFault::UnterminatedHeader(line))),
            Some(end) => {
                if trim(line.subrange(end + 1, line.len() as int)).len() != 0 {
                    Err((n, IniFault::ContentAfterHeader))
                } else {
                    let name = trim(line.subrange(1, end));
                    if name.len() == 0 {
                        Err((n, IniFault::EmptySectionName))
                    } else {
                        let cur = str_lowercase(name);
                        if section_index(secs, cur) is Some {
                            Err((n, IniFault::DuplicateSection(cur)))
                        } else {
                            Ok((secs.push((cur, seq![])), cur))
                        }
                    }
                }
            },
        }
    } else {
        match first_index(line, '=') {
            None => Err((n, IniFault::MissingEquals(current))),
            Some(eq) => {
                let key = str_lowercase(trim(line.subrange(0, eq)));
                if key.len() == 0 {
                    Err((n, IniFault::EmptyKey(current)))
                } else {
                    let value = trim(line.subrange(eq + 1, line.len() as int));
                    let secs2 = if section_index(secs, current) is Some {
                        secs
                    } else {
                        secs.push((current, seq![]))
                    };
                    let idx = section_index(secs2, current)->0;
                    if key_index(secs2[idx].1, key) is Some {
                        Err((n, IniFault::DuplicateKey(current, key)))
                    } else {
                        Ok((secs2.update(idx, (current, secs2[idx].1.push((key, value)))), current))
                    }
                }
            },
        }
    }
}

/// The lines of an INI text applied in order, starting with no sections and
/// `global` as the current section; the first rejected line ends it.
pub open spec fn ini_fold(lines: Seq<Seq<char>>) -> Result<(IniModel, Seq<char>), (nat, IniFault)>
    decreases lines.len(),
{
    if lines.len() == 0 {
        Ok((seq![], global_name()))
    } else {
        match ini_fold(lines.drop_last()) {
            Ok(st) => ini_line(st.0, st.1, lines.len(), lines.last()),
            Err(e) => Err(e),
        }
    }
}

/// What an INI text parses to.
pub open spec fn parse_ini_spec(text: Seq<char>) -> Result<IniModel, (nat, IniFault)> {
    match ini_fold(lines_of(text)) {
        Ok(st) => Ok(st.0),
        Err(e) => Err(e),
    }
}


proof fn lemma_section_from_push(secs: IniModel, x: SectionModel, name: Seq<char>, i: int)
    requires
        0 <= i <= secs.len(),
        section_from(secs, name, i) is None,
        x.0 == name,
    ensures
        section_from(secs.push(x), name, i) == Some(secs.len() as int),
    decreases secs.len() - i,
{
    if i < secs.len() {
        assert(secs.push(x)[i] == secs[i]);
        lemma_section_from_push(secs, x, name, i + 1);
    }
}

proof fn lemma_section_from_found(secs: IniModel, name: Seq<char>, i: int)
    requires
        0 <= i,
    ensures
        section_from(secs, name, i) matches Some(k) ==> i <= k < secs.len() && secs[k].0 == name,
    decreases secs.len() - i,
{
    if 0 <= i < secs.len() && secs[i].0 != name {
        lemma_section_from_found(secs, name, i + 1);
    }
}

/// Finds a section by name.
pub fn find_section(secs: &Vec<IniSection>, name: &Vec<char>) -> (r: Option<usize>)
    ensures
        r matches Some(k) ==> section_index(sections_view(secs@), name@) == Some(k as int) && k
            < secs.len(),
        r is None ==> section_index(sections_view(secs@), name@) is None,
{
    let ghost m = sections_view(secs@);
    let mut i: usize = 0;
    while i < secs.len()
        invariant
            m == sections_view(secs@),
            i <= secs.len(),
            section_index(m, name@) == section_from(m, name@, i as int),
        decreases secs.len() - i,
    {
        assert(m[i as int] == secs@[i as int]@);
        if chars_eq(&secs[i].name, name) {
            return Some(i);
        }
        i = i + 1;
    }
    None
}

/// Finds an entry by key.
pub fn find_key(entries: &Vec<IniEntry>, key: &Vec<char>) -> (r: Option<usize>)
    ensures
        r matches Some(k) ==> key_index(entries_view(entries@), key@) == Some(k as int) && k
            < entries.len(),
        r is None ==> key_index(entries_view(entries@), key@) is None,
{
    let ghost m = entries_view(entries@);
    let mut i: usize = 0;
    while i < entries.len()
        invariant
            m == entries_view(entries@),
            i <= entries.len(),
            key_index(m, key@) == key_from(m, key@, i as int),
        decreases entries.len() - i,
    {
        assert(m[i as int] == entries@[i as int]@);
        if chars_eq(&entries[i].key, key) {
            return Some(i);
        }
        i = i + 1;
    }
    None
}

fn fault(n: usize, kind: IniErrorKind) -> (r: Result<(), IniError>)
    ensures
        r matches Err(e) && e@ == (n as nat, kind@),
{
    Err(IniError { line_no: n, kind })
}

/// Applies one line (number `n`) to the sections read so far.
fn apply_line(secs: &mut Vec<IniSection>, current: &mut Vec<char>, n: usize, raw: &Vec<char>) -> (r:
    Result<(), IniError>)
    ensures
        match ini_line(sections_view(old(secs)@), old(current)@, n as nat, raw@) {
            Ok(st) => r is Ok && sections_view(final(secs)@) == st.0 && final(current)@ == st.1,
            Err(e) => r matches Err(x) && x@ == e,
        },
{
    let ghost secs0 = sections_view(secs@);
    let line = trim_chars(raw, 0, raw.len());
    assert(raw@.subrange(0, raw@.len() as int) =~= raw@);
    if line.len() == 0 || line[0] == ';' || line[0] == '#' {
        return Ok(());
    }
    if line[0] == '[' {
        match find_char(&line, ']') {
            None => {
                return fault(n, IniErrorKind::UnterminatedHeader(line));
            },
            Some(end) => {
                let rest = trim_chars(&line, end + 1, line.len());
                if rest.len() != 0 {
                    return fault(n, IniErrorKind::ContentAfterHeader);
                }
                let name = trim_chars(&line, 1, end);
                if name.len() == 0 {
                    return fault(n, IniErrorKind::EmptySectionName);
                }
                let cur = lowercase(&name);
                if find_section(secs, &cur).is_some() {
                    return fault(n, IniErrorKind::DuplicateSection(cur));
                }
                let sec = IniSection { name: copy_chars(&cur), entries: Vec::new() };
                assert(sec@ == (cur@, Seq::<EntryModel>::empty())) by {
                    assert(entries_view(sec.entries@) =~= Seq::<EntryModel>::empty());
                }
                secs.push(sec);
                assert(sections_view(secs@) =~= secs0.push(sec@));
                *current = cur;
                return Ok(());
            },
        }
    }
    match find_char(&line, '=') {
        None => {
            let c = copy_chars(current);
            fault(n, IniErrorKind::MissingEquals(c))
        },
        Some(eq) => {
            let key0 = trim_chars(&line, 0, eq);
            let key = lowercase(&key0);
            if key.len() == 0 {
                let c = copy_chars(current);
                return fault(n, IniErrorKind::EmptyKey(c));
            }
            let value = trim_chars(&line, eq + 1, line.len());
            let idx = match find_section(secs, current) {
                Some(i) => i,
                None => {
                    let sec = IniSection { name: copy_chars(current), entries: Vec::new() };
                    assert(sec@ == (current@, Seq::<EntryModel>::empty())) by {
                        assert(entries_view(sec.entries@) =~= Seq::<EntryModel>::empty());
                    }
                    secs.push(sec);
                    assert(sections_view(secs@) =~= secs0.push(sec@));
                    proof {
                        lemma_section_from_push(secs0, sec@, current@, 0);
                    }
                    secs.len() - 1
                },
            };
            let ghost secs2 = sections_view(secs@);
            assert(secs2[idx as int] == secs@[idx as int]@);
            if find_key(&secs[idx].entries, &key).is_some() {
                let c = copy_chars(current);
                return fault(n, IniErrorKind::DuplicateKey(c, key));
            }
            let ghost key_view = key@;
            let mut sec = secs.remove(idx);
            proof {
                lemma_section_from_found(secs2, current@, 0);
            }
            let ghost old_entries = entries_view(sec.entries@);
            sec.entries.push(IniEntry { key, value });
            assert(entries_view(sec.entries@) =~= old_entries.push((key_view, value@)));
            let ghost new_view = sec@;
            secs.insert(idx, sec);
            assert(sections_view(secs@) =~= secs2.update(idx as int, new_view));
            Ok(())
        },
    }
}

/// Parses an INI text.
pub fn parse_ini(text: &str) -> (r: Result<Ini, IniError>)
    ensures
        match parse_ini_spec(text@) {
            Ok(m) => r matches Ok(ini) && ini@ == m,
            Err(e) => r matches Err(x) && x@ == e,
        },
{
    let chars = chars_of(text);
    let lines = split_lines(&chars);
    let ghost all = views(lines@);
    let mut secs: Vec<IniSection> = Vec::new();
    let mut current: Vec<char> = chars_of("global");
    proof {
        reveal_strlit("global");
        assert(current@ =~= global_name());
        assert(sections_view(secs@) =~= seq![]);
        assert(all.take(0) =~= Seq::<Seq<char>>::empty());
    }
    let mut n: usize = 0;
    while n < lines.len()
        invariant
            all == views(lines@),
            all == lines_of(text@),
            n <= lines.len(),
            ini_fold(all.take(n as int)) == Ok::<(IniModel, Seq<char>), (nat, IniFault)>(
                (sections_view(secs@), current@),
            ),
        decreases lines.len() - n,
    {
        assert(all.take(n + 1).drop_last() =~= all.take(n as int));
        assert(all.take(n + 1).last() == lines@[n as int]@);
        match apply_line(&mut secs, &mut current, n + 1, &lines[n]) {
            Ok(()) => {},
            Err(e) => {
                proof {
                    assert(all.take(n + 1) =~= all.take(n + 1));
                    lemma_fold_stops(all, n as int + 1);
                }
                return Err(e);
            },
        }
        n = n + 1;
    }
    assert(all.take(n as int) =~= all);
    Ok(Ini { sections: secs })
}

proof fn lemma_fold_stops(all: Seq<Seq<char>>, k: int)
    requires
        0 < k <= all.len(),
        ini_fold(all.take(k)) is Err,
    ensures
        ini_fold(all) == ini_fold(all.take(k)),
    decreases all.len() - k,
{
    if k < all.len() {
        assert(all.take(k + 1).drop_last() =~= all.take(k));
        assert(ini_fold(all.take(k + 1)) == ini_fold(all.take(k)));
        lemma_fold_stops(all, k + 1);
    } else {
        assert(all.take(k) =~= all);
    }
}


/// The value of `key` in a section, if the section has it.
pub open spec fn lookup(sec: SectionModel, key: Seq<char>) -> Option<Seq<char>> {
    match key_index(sec.1, key) {
        Some(i) => Some(sec.1[i].1),
        None => None,
    }
}

/// The value of `key` in a section, if it has one.
pub fn get_value(section: &IniSection, key: &str) -> (r: Option<Vec<char>>)
    ensures
        r matches Some(v) ==> lookup(section@, key@) == Some(v@),
        r is None ==> lookup(section@, key@) is None,
{
    let k = chars_of(key);
    match find_key(&section.entries, &k) {
        Some(i) => {
            assert(entries_view(section.entries@)[i as int] == section.entries@[i as int]@);
            Some(copy_chars(&section.entries[i].value))
        },
        None => None,
    }
}

/// The value of `key` in a section, or `default` where the section lacks it.
pub fn get_str(section: &IniSection, key: &str, default: &str) -> (r: Vec<char>)
    ensures
        r@ == (match lookup(section@, key@) {
            Some(v) => v,
            None => default@,
        }),
{
    let k = chars_of(key);
    match find_key(&section.entries, &k) {
        Some(i) => {
            assert(entries_view(section.entries@)[i as int] == section.entries@[i as int]@);
            copy_chars(&section.entries[i].value)
        },
        None => chars_of(default),
    }
}

/// The text of an INI error, as the rule loader reports it.
pub open spec fn ini_message(path: Seq<char>, e: (nat, IniFault)) -> Seq<char> {
    let head = path + ":"@ + decimal(e.0) + ": "@;
    match e.1 {
        IniFault::UnterminatedHeader(l) => head + "block header: unterminated header '"@ + l
            + "'"@,
        IniFault::ContentAfterHeader => head + "block header: unexpected content after '[...]'"@,
        IniFault::EmptySectionName => head + "block header: empty section name"@,
        IniFault::DuplicateSection(s) => head + "Section ["@ + s + "]: defined twice"@,
        IniFault::MissingEquals(s) => head + "Section ["@ + s + "]: key/value without '='"@,
        IniFault::EmptyKey(s) => head + "Section ["@ + s + "]: empty key"@,
        IniFault::DuplicateKey(s, k) => head + "Section ["@ + s + "], Key '"@ + k
            + "': defined twice"@,
    }
}

/// Renders an INI error for the file at `path`.
pub fn ini_error_message(path: &str, e: &IniError) -> (r: String)
    ensures
        r@ == ini_message(path@, e@),
{
    let mut out: Vec<char> = Vec::new();
    push_str(&mut out, path);
    push_str(&mut out, ":");
    let d = decimal_chars(e.line_no);
    push_all(&mut out, &d);
    push_str(&mut out, ": ");
    match &e.kind {
        IniErrorKind::UnterminatedHeader(l) => {
            push_str(&mut out, "block header: unterminated header '");
            push_all(&mut out, l);
            push_str(&mut out, "'");
        },
        IniErrorKind::ContentAfterHeader => {
            push_str(&mut out, "block header: unexpected content after '[...]'");
        },
        IniErrorKind::EmptySectionName => {
            push_str(&mut out, "block header: empty section name");
        },
        IniErrorKind::DuplicateSection(s) => {
            push_str(&mut out, "Section [");
            push_all(&mut out, s);
            push_str(&mut out, "]: defined twice");
        },
        IniErrorKind::MissingEquals(s) => {
            push_str(&mut out, "Section [");
            push_all(&mut out, s);
            push_str(&mut out, "]: key/value without '='");
        },
        IniErrorKind::EmptyKey(s) => {
            push_str(&mut out, "Section [");
            push_all(&mut out, s);
            push_str(&mut out, "]: empty key");
        },
        IniErrorKind::DuplicateKey(s, k) => {
            push_str(&mut out, "Section [");
            push_all(&mut out, s);
            push_str(&mut out, "], Key '");
            push_all(&mut out, k);
            push_str(&mut out, "': defined twice");
        },
    }
    string_of(&out)
}

/// A rejected rule file, with the text that says where and why.
#[derive(Debug)]
pub struct ParseError(pub String);

/// Parses the INI text of the file at `path`; a rejected text comes back as
/// a `ParseError` whose text is `ini_message`.
pub fn parse_ini_with_path(path: &str, text: &str, _debug: bool) -> (r: Result<Ini, ParseError>)
    ensures
        match parse_ini_spec(text@) {
            Ok(m) => r matches Ok(ini) && ini@ == m,
            Err(e) => r matches Err(pe) && pe.0@ == ini_message(path@, e),
        },
{
    match parse_ini(text) {
        Ok(ini) => Ok(ini),
        Err(e) => Err(ParseError(ini_error_message(path, &e))),
    }
}


/// No two sections share a name, and no section holds a key twice.
pub open spec fn ini_well_formed(secs: IniModel) -> bool {
    &&& forall|i: int, j: int| 0 <= i < j < secs.len() ==> #[trigger] secs[i].0 != #[trigger] secs[j].0
    &&& forall|i: int| 0 <= i < secs.len() ==> keys_distinct(#[trigger] secs[i].1)
}

/// No key occurs twice among the entries.
pub open spec fn keys_distinct(entries: Seq<EntryModel>) -> bool {
    forall|i: int, j: int| 0 <= i < j < entries.len() ==> #[trigger] entries[i].0 != #[trigger] entries[j].0
}

proof fn lemma_section_from_none(secs: IniModel, name: Seq<char>, i: int, j: int)
    requires
        0 <= i <= j < secs.len(),
        section_from(secs, name, i) is None,
    ensures
        secs[j].0 != name,
    decreases j - i,
{
    if i < j {
        lemma_section_from_none(secs, name, i + 1, j);
    }
}

proof fn lemma_key_from_none(entries: Seq<EntryModel>, key: Seq<char>, i: int, j: int)
    requires
        0 <= i <= j < entries.len(),
        key_from(entries, key, i) is None,
    ensures
        entries[j].0 != key,
    decreases j - i,
{
    if i < j {
        lemma_key_from_none(entries, key, i + 1, j);
    }
}

proof fn lemma_line_keeps_well_formed(secs: IniModel, current: Seq<char>, n: nat, raw: Seq<char>)
    requires
        ini_well_formed(secs),
    ensures
        ini_line(secs, current, n, raw) matches Ok(st) ==> ini_well_formed(st.0),
{
    if let Ok(st) = ini_line(secs, current, n, raw) {
        let line = crate::text::trim(raw);
        if line.len() == 0 || line[0] == ';' || line[0] == '#' {
        } else if line[0] == '[' {
            let end = first_index(line, ']')->0;
            let cur = str_lowercase(crate::text::trim(line.subrange(1, end)));
            let out = secs.push((cur, seq![]));
            assert(st.0 == out);
            assert forall|i: int, j: int| 0 <= i < j < out.len() implies #[trigger] out[i].0
                != #[trigger] out[j].0 by {
                if j == secs.len() {
                    lemma_section_from_none(secs, cur, 0, i);
                } else {
                    assert(out[i] == secs[i] && out[j] == secs[j]);
                }
            }
            assert forall|i: int| 0 <= i < out.len() implies keys_distinct(#[trigger] out[i].1) by {
                if i < secs.len() {
                    assert(out[i] == secs[i]);
                }
            }
        } else {
            let eq = first_index(line, '=')->0;
            let key = str_lowercase(crate::text::trim(line.subrange(0, eq)));
            let value = crate::text::trim(line.subrange(eq + 1, line.len() as int));
            let secs2 = if section_index(secs, current) is Some {
                secs
            } else {
                secs.push((current, seq![]))
            };
            assert(ini_well_formed(secs2)) by {
                if section_index(secs, current) is None {
                    assert forall|i: int, j: int| 0 <= i < j < secs2.len() implies #[trigger] secs2[i].0
                        != #[trigger] secs2[j].0 by {
                        if j == secs.len() {
                            lemma_section_from_none(secs, current, 0, i);
                        } else {
                            assert(secs2[i] == secs[i] && secs2[j] == secs[j]);
                        }
                    }
                    assert forall|i: int| 0 <= i < secs2.len() implies keys_distinct(#[trigger] secs2[i].1) by {
                        if i < secs.len() {
                            assert(secs2[i] == secs[i]);
                        } else {
                            assert(secs2[i].1 =~= Seq::<EntryModel>::empty());
                        }
                    }
                    lemma_section_from_push(secs, (current, seq![]), current, 0);
                }
            }
            if section_index(secs, current) is Some {
                lemma_section_from_found(secs, current, 0);
            } else {
                lemma_section_from_push(secs, (current, seq![]), current, 0);
            }
            assert(section_index(secs2, current) is Some);
            let idx = section_index(secs2, current)->0;
            lemma_section_from_found(secs2, current, 0);
            assert(0 <= idx < secs2.len() && secs2[idx].0 == current);
            let old_entries = secs2[idx].1;
            assert(keys_distinct(old_entries));
            let entries = old_entries.push((key, value));
            let out = secs2.update(idx, (current, entries));
            assert(st.0 == out);
            assert(keys_distinct(entries)) by {
                assert forall|i: int, j: int| 0 <= i < j < entries.len() implies #[trigger] entries[i].0
                    != #[trigger] entries[j].0 by {
                    if j == old_entries.len() {
                        lemma_key_from_none(old_entries, key, 0, i);
                        assert(entries[i] == old_entries[i]);
                    } else {
                        assert(entries[i] == old_entries[i] && entries[j] == old_entries[j]);
                        assert(old_entries[i].0 != old_entries[j].0);
                    }
                }
            }
            assert forall|i: int, j: int| 0 <= i < j < out.len() implies #[trigger] out[i].0
                != #[trigger] out[j].0 by {
                assert(out[i].0 == secs2[i].0 && out[j].0 == secs2[j].0);
            }
            assert forall|i: int| 0 <= i < out.len() implies keys_distinct(#[trigger] out[i].1) by {
                if i != idx {
                    assert(out[i] == secs2[i]);
                }
            }
        }
    }
}

proof fn lemma_fold_well_formed(lines: Seq<Seq<char>>)
    ensures
        ini_fold(lines) matches Ok(st) ==> ini_well_formed(st.0),
    decreases lines.len(),
{
    if lines.len() > 0 {
        lemma_fold_well_formed(lines.drop_last());
        if let Ok(st) = ini_fold(lines.drop_last()) {
            lemma_line_keeps_well_formed(st.0, st.1, lines.len(), lines.last());
        }
    }
}

/// Law: a parsed INI text never holds a section name twice, nor a key twice
/// in one section (a repeated one is rejected, never merged or overwritten).
pub proof fn law_parsed_names_and_keys_are_unique(text: Seq<char>)
    ensures
        parse_ini_spec(text) matches Ok(m) ==> ini_well_formed(m),
{
    lemma_fold_well_formed(crate::text::lines_of(text));
}

} // verus!
