//! The shortcut parser: a single forward pass over the lines of a `.url`
//! file that extracts the numeric run key and the declared icon basename
//! from the `[InternetShortcut]` section, or rejects the file with a
//! descriptive error.
//!
//! The grammar is stated first, as spec functions over character
//! sequences; the executable matchers and the line scanner are proved
//! against it, and the laws at the end of the file say how the scanner
//! behaves on whole classes of inputs.

use vstd::prelude::*;

use crate::text::{ends_with, starts_with, str_ends_with, str_eq, str_starts_with};

verus! {

// ---------------------------------------------------------------------
// The grammar.
// ---------------------------------------------------------------------

/// The exact line that opens the target section.
pub open spec fn section_header() -> Seq<char> {
    "[InternetShortcut]"@
}

/// The fixed prefix of a run-command line; the rest of the line is the key.
pub open spec fn run_prefix() -> Seq<char> {
    "URL=steam://rungameid/"@
}

/// The fixed prefix of an icon declaration line.
pub open spec fn icon_prefix() -> Seq<char> {
    "IconFile="@
}

/// The extension an icon basename must carry.
pub open spec fn icon_ext() -> Seq<char> {
    ".ico"@
}

/// The path separator that splits an icon value into directory and basename.
pub open spec fn path_sep() -> char {
    '\\'
}

pub open spec fn is_ascii_digit(c: char) -> bool {
    '0' <= c && c <= '9'
}

pub open spec fn digits_only(s: Seq<char>) -> bool {
    forall|i: int| 0 <= i < s.len() ==> is_ascii_digit(#[trigger] s[i])
}

/// The key a run-command line carries: everything after the fixed prefix.
pub open spec fn run_key(line: Seq<char>) -> Seq<char> {
    line.subrange(run_prefix().len() as int, line.len() as int)
}

/// A run-command line: the fixed prefix followed by one or more digits,
/// with nothing after them.
pub open spec fn is_run_command(line: Seq<char>) -> bool {
    &&& starts_with(line, run_prefix())
    &&& line.len() > run_prefix().len()
    &&& digits_only(run_key(line))
}

/// The value of an icon declaration line: everything after its prefix.
pub open spec fn icon_value(line: Seq<char>) -> Seq<char> {
    line.subrange(icon_prefix().len() as int, line.len() as int)
}

/// Index of the last path separator in `v`, or -1 when there is none.
pub open spec fn last_sep(v: Seq<char>) -> int
    decreases v.len(),
{
    if v.len() == 0 {
        -1
    } else if v[v.len() - 1] == path_sep() {
        v.len() - 1
    } else {
        last_sep(v.drop_last())
    }
}

/// A well-formed basename: one or more characters, none a dot or a
/// separator, followed by the fixed extension.
pub open spec fn basename_ok(q: Seq<char>) -> bool {
    &&& q.len() > icon_ext().len()
    &&& ends_with(q, icon_ext())
    &&& forall|i: int| 0 <= i < q.len() - icon_ext().len()
            ==> #[trigger] q[i] != '.' && q[i] != path_sep()
}

/// An icon declaration line: the fixed prefix, then a value with at least
/// one separator whose part after the last separator is a well-formed
/// basename.
pub open spec fn is_icon_line(line: Seq<char>) -> bool {
    &&& starts_with(line, icon_prefix())
    &&& last_sep(icon_value(line)) >= 0
    &&& basename_ok(icon_value(line).subrange(
            last_sep(icon_value(line)) + 1,
            icon_value(line).len() as int,
        ))
}

/// The directory part of an icon declaration: everything through the
/// last separator, separator kept.
pub open spec fn icon_dir(line: Seq<char>) -> Seq<char> {
    icon_value(line).subrange(0, last_sep(icon_value(line)) + 1)
}

/// The basename part of an icon declaration: everything after the last
/// separator, extension kept.
pub open spec fn icon_file(line: Seq<char>) -> Seq<char> {
    icon_value(line).subrange(last_sep(icon_value(line)) + 1, icon_value(line).len() as int)
}

// ---------------------------------------------------------------------
// Executable matchers.
// ---------------------------------------------------------------------

/// Index of the last path separator in `v`, if any.
fn find_last_sep(v: &str) -> (r: Option<usize>)
    ensures
        match r {
            Option::None => last_sep(v@) == -1,
            Option::Some(k) => last_sep(v@) == k && k < v@.len(),
        },
{
    let vlen = v.unicode_len();
    proof {
        assert(v@.take(vlen as int) =~= v@);
    }
    let mut j: usize = vlen;
    while j > 0
        invariant
            vlen == v@.len(),
            j <= vlen,
            last_sep(v@) == last_sep(v@.take(j as int)),
        decreases j,
    {
        let c = v.get_char(j - 1);
        proof {
            assert(v@.take(j as int).len() == j);
            assert(v@.take(j as int)[j - 1] == v@[j - 1]);
            assert(v@.take(j as int).drop_last() =~= v@.take(j - 1));
        }
        if c == '\\' {
            return Some(j - 1);
        }
        j -= 1;
    }
    proof {
        assert(v@.take(0).len() == 0);
    }
    None
}

/// Match a run-command line `URL=steam://rungameid/<digits>` and capture
/// the digit run.
pub fn match_run_command(line: &str) -> (r: Option<String>)
    ensures
        r is Some <==> is_run_command(line@),
        r is Some ==> r->Some_0@ == run_key(line@),
{
    let prefix: &str = "URL=steam://rungameid/";
    proof {
        assert(prefix@ == run_prefix());
    }
    if !str_starts_with(line, prefix) {
        return None;
    }
    let plen = prefix.unicode_len();
    let llen = line.unicode_len();
    if llen <= plen {
        return None;
    }
    let mut i: usize = plen;
    while i < llen
        invariant
            plen == run_prefix().len(),
            llen == line@.len(),
            plen < llen,
            plen <= i <= llen,
            starts_with(line@, run_prefix()),
            forall|j: int| plen <= j < i ==> is_ascii_digit(#[trigger] line@[j]),
        decreases llen - i,
    {
        let c = line.get_char(i);
        if c < '0' || c > '9' {
            proof {
                assert(run_key(line@)[i - plen] == line@[i as int]);
                assert(!digits_only(run_key(line@)));
            }
            return None;
        }
        i += 1;
    }
    let key = line.substring_char(plen, llen).to_owned();
    proof {
        assert forall|j: int| 0 <= j < run_key(line@).len() implies is_ascii_digit(
            #[trigger] run_key(line@)[j],
        ) by {
            assert(run_key(line@)[j] == line@[j + plen]);
        }
    }
    Some(key)
}

/// Match an icon declaration line `IconFile=<dir><basename>.ico` and
/// capture the directory (with its trailing separator) and the basename.
pub fn match_icon_line(line: &str) -> (r: Option<(String, String)>)
    ensures
        r is Some <==> is_icon_line(line@),
        r is Some ==> r->Some_0.0@ == icon_dir(line@) && r->Some_0.1@ == icon_file(line@),
{
    let prefix: &str = "IconFile=";
    proof {
        assert(prefix@ == icon_prefix());
    }
    if !str_starts_with(line, prefix) {
        return None;
    }
    let plen = prefix.unicode_len();
    let llen = line.unicode_len();
    let value = line.substring_char(plen, llen);
    proof {
        assert(value@ == icon_value(line@));
    }
    let Some(k) = find_last_sep(value) else {
        return None;
    };
    let vlen = value.unicode_len();
    let basename = value.substring_char(k + 1, vlen);
    proof {
        assert(basename@ == icon_file(line@));
    }
    let ext: &str = ".ico";
    proof {
        assert(ext@ == icon_ext());
    }
    let blen = basename.unicode_len();
    let elen = ext.unicode_len();
    if blen <= elen {
        return None;
    }
    if !str_ends_with(basename, ext) {
        return None;
    }
    let mut i: usize = 0;
    let stem_len = blen - elen;
    while i < stem_len
        invariant
            blen == basename@.len(),
            elen == icon_ext().len(),
            stem_len == blen - elen,
            blen > elen,
            i <= stem_len,
            basename@ == icon_file(line@),
            forall|j: int| 0 <= j < i ==> #[trigger] basename@[j] != '.' && basename@[j] != path_sep(),
        decreases stem_len - i,
    {
        let c = basename.get_char(i);
        if c == '.' || c == '\\' {
            proof {
                assert(!basename_ok(basename@));
            }
            return None;
        }
        i += 1;
    }
    let dir = value.substring_char(0, k + 1).to_owned();
    proof {
        assert(dir@ == icon_dir(line@));
        assert(basename_ok(basename@));
    }
    Some((dir, basename.to_owned()))
}

// ---------------------------------------------------------------------
// The scan, one line at a time.
// ---------------------------------------------------------------------

/// Abstract outcome of scanning one shortcut file.
pub enum SpecParse {
    Parsed { key: Seq<char>, icon: Seq<char> },
    DuplicateKey,
    DuplicateIcon,
    UnrecognizedDir { dir: Seq<char> },
    Incomplete,
}

/// Abstract scanning state: whether the scan is inside the target
/// section, and the fields captured so far.
pub struct SpecState {
    pub in_section: bool,
    pub key: Option<Seq<char>>,
    pub icon: Option<Seq<char>>,
}

/// One step of the scan: go on with a new state, or abort.
pub enum SpecStep {
    Next(SpecState),
    Abort(SpecParse),
}

pub open spec fn init_state() -> SpecState {
    SpecState { in_section: false, key: None, icon: None }
}

/// What one line does to the scanning state. The section header always
/// (re)enters the section; outside the section every line is ignored;
/// inside it, a new bracketed header leaves the section, a run command
/// or an icon declaration captures its field — at most once each, and an
/// icon declaration only for the configured directory — and every other
/// line is ignored.
pub open spec fn spec_step(st: SpecState, line: Seq<char>, dir: Seq<char>) -> SpecStep {
    if line == section_header() {
        SpecStep::Next(SpecState { in_section: true, ..st })
    } else if !st.in_section {
        SpecStep::Next(st)
    } else if line.len() > 0 && line[0] == '[' {
        SpecStep::Next(SpecState { in_section: false, ..st })
    } else if is_run_command(line) {
        if st.key is Some {
            SpecStep::Abort(SpecParse::DuplicateKey)
        } else {
            SpecStep::Next(SpecState { key: Some(run_key(line)), ..st })
        }
    } else if is_icon_line(line) {
        if st.icon is Some {
            SpecStep::Abort(SpecParse::DuplicateIcon)
        } else if icon_dir(line) != dir {
            SpecStep::Abort(SpecParse::UnrecognizedDir { dir: icon_dir(line) })
        } else {
            SpecStep::Next(SpecState { icon: Some(icon_file(line)), ..st })
        }
    } else {
        SpecStep::Next(st)
    }
}

/// Run the scan over a sequence of lines, stopping at the first abort.
pub open spec fn spec_scan(st: SpecState, lines: Seq<Seq<char>>, dir: Seq<char>) -> SpecStep
    decreases lines.len(),
{
    if lines.len() == 0 {
        SpecStep::Next(st)
    } else {
        match spec_step(st, lines[0], dir) {
            SpecStep::Abort(o) => SpecStep::Abort(o),
            SpecStep::Next(st2) => spec_scan(st2, lines.drop_first(), dir),
        }
    }
}

/// After all lines: both fields, or the file is not a recognized shortcut.
pub open spec fn finish(st: SpecState) -> SpecParse {
    match (st.key, st.icon) {
        (Some(k), Some(f)) => SpecParse::Parsed { key: k, icon: f },
        _ => SpecParse::Incomplete,
    }
}

/// The outcome of parsing a whole file against a configured directory.
pub open spec fn spec_parse(lines: Seq<Seq<char>>, dir: Seq<char>) -> SpecParse {
    match spec_scan(init_state(), lines, dir) {
        SpecStep::Abort(o) => o,
        SpecStep::Next(st) => finish(st),
    }
}

pub open spec fn line_views(lines: Seq<String>) -> Seq<Seq<char>> {
    lines.map_values(|l: String| l@)
}

pub open spec fn opt_view(o: Option<String>) -> Option<Seq<char>> {
    match o {
        Option::None => None,
        Option::Some(s) => Some(s@),
    }
}

// ---------------------------------------------------------------------
// Executable parser.
// ---------------------------------------------------------------------

/// A successfully parsed shortcut: the numeric key, kept as text, and the
/// basename (extension kept) of the icon it declares.
#[derive(Debug)]
pub struct ParsedShortcut {
    pub key: String,
    pub icon_filename: String,
}

/// Why a shortcut file was rejected.
#[derive(Debug)]
pub enum ParseError {
    /// A second run-command line inside the target section.
    DuplicateKey,
    /// A second icon declaration inside the target section.
    DuplicateIcon,
    /// An icon declaration naming a directory other than the configured
    /// one; the offending directory is carried along.
    UnrecognizedIconDir(String),
    /// The file never yielded both fields.
    NotRecognized,
}

/// The failure text each error carries, naming the offending file.
pub open spec fn message_of(e: ParseError, filename: Seq<char>) -> Seq<char> {
    match e {
        ParseError::DuplicateKey => "Game ID already set for shortcut: "@ + filename,
        ParseError::DuplicateIcon => "Icon path and/or name already set for shortcut: "@
            + filename,
        ParseError::UnrecognizedIconDir(d) => "Unrecognized icon directory `"@ + d@
            + "` for shortcut: "@ + filename,
        ParseError::NotRecognized => "Shortcut could not be parsed or was not a Steam shortcut file: "@
            + filename,
    }
}

impl ParseError {
    /// Render the failure as the run's fatal message, naming the file it
    /// came from.
    pub fn message(&self, filename: &str) -> (r: String)
        ensures
            r@ == message_of(*self, filename@),
    {
        match self {
            ParseError::DuplicateKey => {
                let r = String::from_str("Game ID already set for shortcut: ").concat(filename);
                proof {
                    assert(r@ =~= message_of(*self, filename@));
                }
                r
            },
            ParseError::DuplicateIcon => {
                let r = String::from_str("Icon path and/or name already set for shortcut: ")
                    .concat(filename);
                proof {
                    assert(r@ =~= message_of(*self, filename@));
                }
                r
            },
            ParseError::UnrecognizedIconDir(d) => {
                let r = String::from_str("Unrecognized icon directory `").concat(d.as_str())
                    .concat("` for shortcut: ").concat(filename);
                proof {
                    assert(r@ =~= message_of(*self, filename@));
                }
                r
            },
            ParseError::NotRecognized => {
                let r = String::from_str(
                    "Shortcut could not be parsed or was not a Steam shortcut file: ",
                ).concat(filename);
                proof {
                    assert(r@ =~= message_of(*self, filename@));
                }
                r
            },
        }
    }
}

/// How an executable parse result corresponds to an abstract outcome.
pub open spec fn models(r: Result<ParsedShortcut, ParseError>, o: SpecParse) -> bool {
    match r {
        Result::Ok(p) => o == (SpecParse::Parsed { key: p.key@, icon: p.icon_filename@ }),
        Result::Err(ParseError::DuplicateKey) => o == SpecParse::DuplicateKey,
        Result::Err(ParseError::DuplicateIcon) => o == SpecParse::DuplicateIcon,
        Result::Err(ParseError::UnrecognizedIconDir(d)) => o == (SpecParse::UnrecognizedDir {
            dir: d@,
        }),
        Result::Err(ParseError::NotRecognized) => o == SpecParse::Incomplete,
    }
}

/// Scanning a longer run of lines is scanning the first part, then — if
/// that did not abort — scanning the rest from where it left off.
proof fn lemma_scan_append(st: SpecState, l1: Seq<Seq<char>>, l2: Seq<Seq<char>>, dir: Seq<char>)
    ensures
        spec_scan(st, l1 + l2, dir) == (match spec_scan(st, l1, dir) {
            SpecStep::Abort(o) => SpecStep::Abort(o),
            SpecStep::Next(s) => spec_scan(s, l2, dir),
        }),
    decreases l1.len(),
{
    if l1.len() == 0 {
        assert(l1 + l2 =~= l2);
    } else {
        assert((l1 + l2)[0] == l1[0]);
        match spec_step(st, l1[0], dir) {
            SpecStep::Abort(o) => {
                assert((l1 + l2).len() > 0);
            },
            SpecStep::Next(s2) => {
                lemma_scan_append(s2, l1.drop_first(), l2, dir);
                assert((l1 + l2).drop_first() =~= l1.drop_first() + l2);
            },
        }
    }
}

/// Scanning one more line is one more step.
proof fn lemma_scan_snoc(st: SpecState, l: Seq<Seq<char>>, x: Seq<char>, dir: Seq<char>)
    ensures
        spec_scan(st, l.push(x), dir) == (match spec_scan(st, l, dir) {
            SpecStep::Abort(o) => SpecStep::Abort(o),
            SpecStep::Next(s) => spec_step(s, x, dir),
        }),
{
    assert(l.push(x) =~= l + seq![x]);
    lemma_scan_append(st, l, seq![x], dir);
    assert(seq![x].drop_first() =~= Seq::<Seq<char>>::empty());
    assert(seq![x][0] == x);
    match spec_scan(st, l, dir) {
        SpecStep::Abort(o) => {
        },
        SpecStep::Next(s) => {
            assert(spec_scan(s, seq![x], dir) == (match spec_step(s, x, dir) {
                SpecStep::Abort(o) => SpecStep::Abort(o),
                SpecStep::Next(s2) => spec_scan(s2, seq![x].drop_first(), dir),
            }));
            match spec_step(s, x, dir) {
                SpecStep::Abort(o2) => {
                },
                SpecStep::Next(s2) => {
                    assert(spec_scan(s2, Seq::<Seq<char>>::empty(), dir) == SpecStep::Next(s2));
                },
            }
        },
    }
}

/// Parse the lines of one candidate shortcut file against the configured
/// icon directory `dir` (given with its trailing separator). The result
/// is exactly what the abstract scan says: the captured key and icon
/// basename when the target section holds one of each, and the matching
/// error otherwise.
pub fn parse_shortcut(lines: &Vec<String>, dir: &str) -> (r: Result<ParsedShortcut, ParseError>)
    ensures
        models(r, spec_parse(line_views(lines@), dir@)),
{
    let header: &str = "[InternetShortcut]";
    proof {
        assert(header@ == section_header());
    }
    let ghost all = line_views(lines@);
    let mut in_section: bool = false;
    let mut key: Option<String> = None;
    let mut icon: Option<String> = None;
    let n = lines.len();
    let mut i: usize = 0;
    proof {
        assert(all.take(0) =~= Seq::<Seq<char>>::empty());
    }
    while i < n
        invariant
            n == lines@.len(),
            i <= n,
            all == line_views(lines@),
            header@ == section_header(),
            spec_scan(init_state(), all.take(i as int), dir@) == (SpecStep::Next(SpecState {
                in_section: in_section,
                key: opt_view(key),
                icon: opt_view(icon),
            })),
        decreases n - i,
    {
        let ghost pre = SpecState { in_section: in_section, key: opt_view(key), icon: opt_view(icon) };
        let line: &str = lines[i].as_str();
        proof {
            assert(all[i as int] == line@);
            assert(all.take(i + 1) =~= all.take(i as int).push(all[i as int]));
            lemma_scan_snoc(init_state(), all.take(i as int), all[i as int], dir@);
        }
        if str_eq(line, header) {
            in_section = true;
        } else if !in_section {
            // a line outside the target section is ignored
        } else if line.unicode_len() > 0 && line.get_char(0) == '[' {
            in_section = false;
        } else if let Some(k) = match_run_command(line) {
            if key.is_some() {
                proof {
                    assert(spec_step(pre, line@, dir@) == SpecStep::Abort(SpecParse::DuplicateKey));
                    lemma_scan_append(init_state(), all.take(i + 1), all.skip(i + 1), dir@);
                    assert(all.take(i + 1) + all.skip(i + 1) =~= all);
                }
                return Err(ParseError::DuplicateKey);
            }
            key = Some(k);
        } else if let Some((d, f)) = match_icon_line(line) {
            if icon.is_some() {
                proof {
                    assert(spec_step(pre, line@, dir@) == SpecStep::Abort(SpecParse::DuplicateIcon));
                    lemma_scan_append(init_state(), all.take(i + 1), all.skip(i + 1), dir@);
                    assert(all.take(i + 1) + all.skip(i + 1) =~= all);
                }
                return Err(ParseError::DuplicateIcon);
            }
            if !str_eq(d.as_str(), dir) {
                proof {
                    assert(spec_step(pre, line@, dir@) == (SpecStep::Abort(
                        SpecParse::UnrecognizedDir { dir: d@ },
                    )));
                    lemma_scan_append(init_state(), all.take(i + 1), all.skip(i + 1), dir@);
                    assert(all.take(i + 1) + all.skip(i + 1) =~= all);
                }
                return Err(ParseError::UnrecognizedIconDir(d));
            }
            icon = Some(f);
        } else {
            // an unrecognized line inside the target section is ignored
        }
        i += 1;
    }
    proof {
        assert(all.take(n as int) =~= all);
    }
    match (key, icon) {
        (Some(k), Some(f)) => Ok(ParsedShortcut { key: k, icon_filename: f }),
        _ => Err(ParseError::NotRecognized),
    }
}

// ---------------------------------------------------------------------
// Laws of the scan.
// ---------------------------------------------------------------------

/// A run-command line is not the section header and does not open a
/// bracketed section of its own.
proof fn lemma_run_command_shape(line: Seq<char>)
    requires
        is_run_command(line),
    ensures
        line != section_header(),
        line.len() > 0,
        line[0] != '[',
{
    reveal_strlit("URL=steam://rungameid/");
    reveal_strlit("[InternetShortcut]");
    assert(line.subrange(0, run_prefix().len() as int)[0] == line[0]);
    assert(line[0] == 'U');
    if line == section_header() {
        assert(line[0] == '[');
    }
}

/// An icon declaration line is not the section header, does not open a
/// section, and is not a run-command line.
proof fn lemma_icon_line_shape(line: Seq<char>)
    requires
        is_icon_line(line),
    ensures
        line != section_header(),
        line.len() > 0,
        line[0] != '[',
        !is_run_command(line),
{
    reveal_strlit("IconFile=");
    reveal_strlit("[InternetShortcut]");
    reveal_strlit("URL=steam://rungameid/");
    assert(line.subrange(0, icon_prefix().len() as int)[0] == line[0]);
    assert(line[0] == 'I');
    if line == section_header() {
        assert(line[0] == '[');
    }
    if is_run_command(line) {
        assert(line.subrange(0, run_prefix().len() as int)[0] == line[0]);
        assert(line[0] == 'U');
    }
}

/// One unfolding of the scan on a non-empty line sequence.
proof fn lemma_scan_unfold(st: SpecState, lines: Seq<Seq<char>>, dir: Seq<char>)
    requires
        lines.len() > 0,
    ensures
        spec_scan(st, lines, dir) == (match spec_step(st, lines[0], dir) {
            SpecStep::Abort(o) => SpecStep::Abort(o),
            SpecStep::Next(s) => spec_scan(s, lines.drop_first(), dir),
        }),
{
}

/// While the scan stands outside the target section, lines other than the
/// section header leave the state untouched.
proof fn lemma_scan_outside_section(st: SpecState, lines: Seq<Seq<char>>, dir: Seq<char>)
    requires
        !st.in_section,
        forall|i: int| 0 <= i < lines.len() ==> lines[i] != section_header(),
    ensures
        spec_scan(st, lines, dir) == SpecStep::Next(st),
    decreases lines.len(),
{
    if lines.len() > 0 {
        assert(lines[0] != section_header());
        assert(forall|i: int|
            0 <= i < lines.drop_first().len() ==> lines.drop_first()[i] == lines[i + 1]);
        lemma_scan_outside_section(st, lines.drop_first(), dir);
    }
}

/// A file that never holds the section header is reported as not a
/// recognized shortcut: no field is ever captured from it.
pub proof fn lemma_no_header_not_recognized(lines: Seq<Seq<char>>, dir: Seq<char>)
    requires
        forall|i: int| 0 <= i < lines.len() ==> lines[i] != section_header(),
    ensures
        spec_parse(lines, dir) == SpecParse::Incomplete,
{
    lemma_scan_outside_section(init_state(), lines, dir);
}

/// Lines that come before the first section header — among them whole
/// other sections — are ignored: they change nothing about the outcome.
pub proof fn lemma_lines_before_header_ignored(
    pre: Seq<Seq<char>>,
    rest: Seq<Seq<char>>,
    dir: Seq<char>,
)
    requires
        forall|i: int| 0 <= i < pre.len() ==> pre[i] != section_header(),
    ensures
        spec_parse(pre + rest, dir) == spec_parse(rest, dir),
{
    lemma_scan_outside_section(init_state(), pre, dir);
    lemma_scan_append(init_state(), pre, rest, dir);
}

/// A bracketed line other than the section header leaves the target
/// section, and the lines of the section it opens — as long as none of
/// them is the section header itself — are ignored: whatever state the
/// scan was in, it goes on to the rest with the same captured fields and
/// outside the target section.
pub proof fn lemma_other_section_ignored(
    st: SpecState,
    h: Seq<char>,
    body: Seq<Seq<char>>,
    rest: Seq<Seq<char>>,
    dir: Seq<char>,
)
    requires
        h.len() > 0,
        h[0] == '[',
        h != section_header(),
        forall|i: int| 0 <= i < body.len() ==> body[i] != section_header(),
    ensures
        spec_scan(st, seq![h] + body + rest, dir) == spec_scan(
            SpecState { in_section: false, key: st.key, icon: st.icon },
            rest,
            dir,
        ),
{
    let st2 = SpecState { in_section: false, key: st.key, icon: st.icon };
    assert(seq![h] + body + rest =~= seq![h] + (body + rest));
    lemma_scan_append(st, seq![h], body + rest, dir);
    lemma_scan_unfold(st, seq![h], dir);
    assert(seq![h][0] == h);
    assert(seq![h].drop_first() =~= Seq::<Seq<char>>::empty());
    if st.in_section {
        assert(spec_step(st, h, dir) == SpecStep::Next(st2));
    } else {
        assert(spec_step(st, h, dir) == SpecStep::Next(st));
        assert(st == st2);
    }
    assert(spec_scan(st2, Seq::<Seq<char>>::empty(), dir) == SpecStep::Next(st2));
    assert(spec_scan(st, seq![h], dir) == SpecStep::Next(st2));
    lemma_scan_append(st2, body, rest, dir);
    lemma_scan_outside_section(st2, body, dir);
}

/// The header followed by one run command and one icon declaration naming
/// the configured directory parses to exactly the captured key and the
/// captured basename.
pub proof fn lemma_complete_pair(u: Seq<char>, c: Seq<char>, dir: Seq<char>)
    requires
        is_run_command(u),
        is_icon_line(c),
        icon_dir(c) == dir,
    ensures
        spec_parse(seq![section_header(), u, c], dir) == (SpecParse::Parsed {
            key: run_key(u),
            icon: icon_file(c),
        }),
{
    lemma_scan_three(u, c, dir);
}

/// Evaluate the three-line scan `[header, u, c]` for any run command `u`
/// and icon declaration `c`: the key is captured, then the icon is either
/// captured or its directory rejected.
proof fn lemma_scan_three(u: Seq<char>, c: Seq<char>, dir: Seq<char>)
    requires
        is_run_command(u),
        is_icon_line(c),
    ensures
        icon_dir(c) == dir ==> spec_parse(seq![section_header(), u, c], dir)
            == (SpecParse::Parsed { key: run_key(u), icon: icon_file(c) }),
        icon_dir(c) != dir ==> spec_parse(seq![section_header(), u, c], dir)
            == (SpecParse::UnrecognizedDir { dir: icon_dir(c) }),
{
    lemma_run_command_shape(u);
    lemma_icon_line_shape(c);
    let l = seq![section_header(), u, c];
    let st1 = SpecState { in_section: true, key: None, icon: None };
    let st2 = SpecState { in_section: true, key: Some(run_key(u)), icon: None };
    assert(spec_step(init_state(), section_header(), dir) == SpecStep::Next(st1));
    assert(spec_step(st1, u, dir) == SpecStep::Next(st2));
    lemma_scan_unfold(init_state(), l, dir);
    assert(l.drop_first() =~= seq![u, c]);
    lemma_scan_unfold(st1, seq![u, c], dir);
    assert(seq![u, c].drop_first() =~= seq![c]);
    lemma_scan_unfold(st2, seq![c], dir);
    assert(seq![c].drop_first() =~= Seq::<Seq<char>>::empty());
    if icon_dir(c) == dir {
        let st3 = SpecState { in_section: true, key: Some(run_key(u)), icon: Some(icon_file(c)) };
        assert(spec_step(st2, c, dir) == SpecStep::Next(st3));
        assert(spec_scan(st3, Seq::<Seq<char>>::empty(), dir) == SpecStep::Next(st3));
        assert(spec_scan(init_state(), l, dir) == SpecStep::Next(st3));
    } else {
        assert(spec_step(st2, c, dir) == (SpecStep::Abort(SpecParse::UnrecognizedDir {
            dir: icon_dir(c),
        })));
    }
}

/// Two run commands inside the target section: the scan fails with the
/// duplicate-key error at the second one.
pub proof fn lemma_duplicate_key(u1: Seq<char>, u2: Seq<char>, dir: Seq<char>)
    requires
        is_run_command(u1),
        is_run_command(u2),
    ensures
        spec_parse(seq![section_header(), u1, u2], dir) == SpecParse::DuplicateKey,
{
    lemma_run_command_shape(u1);
    lemma_run_command_shape(u2);
    let l = seq![section_header(), u1, u2];
    let st1 = SpecState { in_section: true, key: None, icon: None };
    let st2 = SpecState { in_section: true, key: Some(run_key(u1)), icon: None };
    assert(spec_step(init_state(), section_header(), dir) == SpecStep::Next(st1));
    assert(spec_step(st1, u1, dir) == SpecStep::Next(st2));
    assert(spec_step(st2, u2, dir) == SpecStep::Abort(SpecParse::DuplicateKey));
    lemma_scan_unfold(init_state(), l, dir);
    assert(l.drop_first() =~= seq![u1, u2]);
    lemma_scan_unfold(st1, seq![u1, u2], dir);
    assert(seq![u1, u2].drop_first() =~= seq![u2]);
    lemma_scan_unfold(st2, seq![u2], dir);
}

/// Two icon declarations inside the target section, the first one valid:
/// the scan fails with the duplicate-icon error.
pub proof fn lemma_duplicate_icon(c1: Seq<char>, c2: Seq<char>, dir: Seq<char>)
    requires
        is_icon_line(c1),
        is_icon_line(c2),
        icon_dir(c1) == dir,
    ensures
        spec_parse(seq![section_header(), c1, c2], dir) == SpecParse::DuplicateIcon,
{
    lemma_icon_line_shape(c1);
    lemma_icon_line_shape(c2);
    let l = seq![section_header(), c1, c2];
    let st1 = SpecState { in_section: true, key: None, icon: None };
    let st2 = SpecState { in_section: true, key: None, icon: Some(icon_file(c1)) };
    assert(spec_step(init_state(), section_header(), dir) == SpecStep::Next(st1));
    assert(spec_step(st1, c1, dir) == SpecStep::Next(st2));
    assert(spec_step(st2, c2, dir) == SpecStep::Abort(SpecParse::DuplicateIcon));
    lemma_scan_unfold(init_state(), l, dir);
    assert(l.drop_first() =~= seq![c1, c2]);
    lemma_scan_unfold(st1, seq![c1, c2], dir);
    assert(seq![c1, c2].drop_first() =~= seq![c2]);
    lemma_scan_unfold(st2, seq![c2], dir);
}

/// An icon declaration whose directory differs from the configured one
/// fails with the unrecognized-directory error, carrying that directory —
/// even beside a valid run command.
pub proof fn lemma_unrecognized_dir(u: Seq<char>, c: Seq<char>, dir: Seq<char>)
    requires
        is_run_command(u),
        is_icon_line(c),
        icon_dir(c) != dir,
    ensures
        spec_parse(seq![section_header(), u, c], dir) == (SpecParse::UnrecognizedDir {
            dir: icon_dir(c),
        }),
{
    lemma_scan_three(u, c, dir);
}

/// A header and a run command with no icon declaration: the file is
/// incomplete, not silently skipped.
pub proof fn lemma_key_alone_incomplete(u: Seq<char>, dir: Seq<char>)
    requires
        is_run_command(u),
    ensures
        spec_parse(seq![section_header(), u], dir) == SpecParse::Incomplete,
{
    lemma_run_command_shape(u);
    let l = seq![section_header(), u];
    let st1 = SpecState { in_section: true, key: None, icon: None };
    let st2 = SpecState { in_section: true, key: Some(run_key(u)), icon: None };
    assert(spec_step(init_state(), section_header(), dir) == SpecStep::Next(st1));
    assert(spec_step(st1, u, dir) == SpecStep::Next(st2));
    lemma_scan_unfold(init_state(), l, dir);
    assert(l.drop_first() =~= seq![u]);
    lemma_scan_unfold(st1, seq![u], dir);
    assert(seq![u].drop_first() =~= Seq::<Seq<char>>::empty());
    assert(spec_scan(st2, Seq::<Seq<char>>::empty(), dir) == SpecStep::Next(st2));
}

/// A header and a valid icon declaration with no run command: the file is
/// incomplete, not silently skipped.
pub proof fn lemma_icon_alone_incomplete(c: Seq<char>, dir: Seq<char>)
    requires
        is_icon_line(c),
        icon_dir(c) == dir,
    ensures
        spec_parse(seq![section_header(), c], dir) == SpecParse::Incomplete,
{
    lemma_icon_line_shape(c);
    let l = seq![section_header(), c];
    let st1 = SpecState { in_section: true, key: None, icon: None };
    let st2 = SpecState { in_section: true, key: None, icon: Some(icon_file(c)) };
    assert(spec_step(init_state(), section_header(), dir) == SpecStep::Next(st1));
    assert(spec_step(st1, c, dir) == SpecStep::Next(st2));
    lemma_scan_unfold(init_state(), l, dir);
    assert(l.drop_first() =~= seq![c]);
    lemma_scan_unfold(st1, seq![c], dir);
    assert(seq![c].drop_first() =~= Seq::<Seq<char>>::empty());
    assert(spec_scan(st2, Seq::<Seq<char>>::empty(), dir) == SpecStep::Next(st2));
}

} // verus!
