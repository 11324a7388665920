//! The body of a status block: one labelled field per line, and the
//! documentation block that may run over several lines.

use vstd::prelude::*;
use crate::doc::parse_doc;
use crate::doc::Doc;
use crate::error::CtlError;
use crate::header::parse_header;
use crate::header::read_header;
use crate::header::HeaderView;
use crate::kinds::AutoStartStatus;
use crate::kinds::State;
use crate::text::after_prefix;
use crate::text::chars_of;
use crate::text::cut_at_first;
use crate::text::cut_first;
use crate::text::ends_with;
use crate::text::find;
use crate::text::first_where;
use crate::text::has_prefix;
use crate::text::has_suffix;
use crate::text::is_paren;
use crate::text::is_str;
use crate::text::lines;
use crate::text::lines_of;
use crate::text::not_space;
use crate::text::space;
use crate::text::parse_u64;
use crate::text::parsed_u64;
use crate::text::removed;
use crate::text::slice_of;
use crate::text::split;
use crate::text::split_on;
use crate::text::starts_with;
use crate::text::string_of;
use crate::text::trim;
use crate::text::trim_start;
use crate::text::trimmed;
use crate::text::views;
use crate::text::without;
use crate::text::CharClass;
use crate::unit::doc_views;
use crate::unit::opt_docs;
use crate::unit::unit_outcome;
use crate::unit::Unit;
use crate::unit::UnitView;

verus! {

/// The labels that a line of the status block can begin with.
#[derive(Clone, Copy, Debug, PartialEq, Eq, Structural)]
pub enum LineKind {
    /// `Loaded: `, the load state with script, boot policy and preset.
    Loaded,
    /// `Transient: `, whether the unit was made at run time.
    Transient,
    /// `Active: `, known and passed over: activity is probed by itself.
    Active,
    /// `Docs: `, the first line of the documentation block.
    Docs,
    /// `What: `, what a mount unit mounts.
    What,
    /// `Where: `, where a mount unit mounts it.
    Where,
    /// `Main PID: `, the main process.
    MainPid,
    /// `Cntrl PID: `, the control process.
    CntrlPid,
    /// `Process: `, known and passed over.
    Process,
    /// `CGroup: `, known and passed over.
    CGroup,
    /// `Tasks: `, known and passed over.
    Tasks,
    /// `Memory: `, the memory in use.
    Memory,
    /// `CPU: `, the processor time used.
    Cpu,
}

impl LineKind {
    /// The text that a line of this kind begins with.
    pub open spec fn prefix(self) -> Seq<char> {
        match self {
            LineKind::Loaded => "Loaded: "@,
            LineKind::Transient => "Transient: "@,
            LineKind::Active => "Active: "@,
            LineKind::Docs => "Docs: "@,
            LineKind::What => "What: "@,
            LineKind::Where => "Where: "@,
            LineKind::MainPid => "Main PID: "@,
            LineKind::CntrlPid => "Cntrl PID: "@,
            LineKind::Process => "Process: "@,
            LineKind::CGroup => "CGroup: "@,
            LineKind::Tasks => "Tasks: "@,
            LineKind::Memory => "Memory: "@,
            LineKind::Cpu => "CPU: "@,
        }
    }

    /// The kinds in the order in which a line is tested against them.
    pub open spec fn table() -> Seq<LineKind> {
        seq![
            LineKind::Loaded,
            LineKind::Transient,
            LineKind::Active,
            LineKind::Docs,
            LineKind::What,
            LineKind::Where,
            LineKind::MainPid,
            LineKind::CntrlPid,
            LineKind::Process,
            LineKind::CGroup,
            LineKind::Tasks,
            LineKind::Memory,
            LineKind::Cpu,
        ]
    }

    /// Executable form of [`LineKind::prefix`].
    pub fn prefix_str(self) -> (r: &'static str)
        ensures
            r@ == self.prefix(),
    {
        match self {
            LineKind::Loaded => "Loaded: ",
            LineKind::Transient => "Transient: ",
            LineKind::Active => "Active: ",
            LineKind::Docs => "Docs: ",
            LineKind::What => "What: ",
            LineKind::Where => "Where: ",
            LineKind::MainPid => "Main PID: ",
            LineKind::CntrlPid => "Cntrl PID: ",
            LineKind::Process => "Process: ",
            LineKind::CGroup => "CGroup: ",
            LineKind::Tasks => "Tasks: ",
            LineKind::Memory => "Memory: ",
            LineKind::Cpu => "CPU: ",
        }
    }

    /// Executable form of [`LineKind::table`].
    pub fn dispatch_table() -> (t: Vec<LineKind>)
        ensures
            t@ == LineKind::table(),
    {
        let mut t: Vec<LineKind> = Vec::new();
        t.push(LineKind::Loaded);
        t.push(LineKind::Transient);
        t.push(LineKind::Active);
        t.push(LineKind::Docs);
        t.push(LineKind::What);
        t.push(LineKind::Where);
        t.push(LineKind::MainPid);
        t.push(LineKind::CntrlPid);
        t.push(LineKind::Process);
        t.push(LineKind::CGroup);
        t.push(LineKind::Tasks);
        t.push(LineKind::Memory);
        t.push(LineKind::Cpu);
        assert(t@ =~= LineKind::table());
        t
    }
}

/// The first kind of the table, from index `i` on, whose prefix `line`
/// begins with.
pub open spec fn kind_from(line: Seq<char>, i: int) -> Option<LineKind>
    decreases LineKind::table().len() - i,
{
    if i < 0 || i >= LineKind::table().len() {
        None
    } else if starts_with(line, LineKind::table()[i].prefix()) {
        Some(LineKind::table()[i])
    } else {
        kind_from(line, i + 1)
    }
}

/// The kind of a line whose leading whitespace is gone; `None` for a line
/// that begins with no known label.
pub open spec fn line_kind(line: Seq<char>) -> Option<LineKind> {
    kind_from(line, 0)
}

/// Finds the kind of a line and what follows the label.
pub fn classify_line(line: &Vec<char>) -> (r: Option<(LineKind, Vec<char>)>)
    ensures
        match r {
            Some((kind, rest)) => line_kind(line@) == Some(kind) && rest@ == line@.skip(
                kind.prefix().len() as int,
            ),
            None => line_kind(line@) is None,
        },
{
    let table = LineKind::dispatch_table();
    let mut i: usize = 0;
    while i < table.len()
        invariant
            i <= table.len(),
            table@ == LineKind::table(),
            line_kind(line@) == kind_from(line@, i as int),
        decreases table.len() - i,
    {
        let kind = table[i];
        match after_prefix(line, kind.prefix_str()) {
            Some(rest) => {
                return Some((kind, rest));
            },
            None => {},
        }
        i += 1;
    }
    None
}

/// Where the scan of a status block stands.
#[derive(Clone, Copy, Debug, PartialEq, Eq, Structural)]
pub enum ScanState {
    /// Outside a documentation block.
    Scanning,
    /// Inside the documentation block that a `Docs: ` line opened; `indent`
    /// is the number of whitespace characters that line began with.
    InDocsBlock { indent: usize },
}

/// Number of whitespace characters that a line begins with.
pub open spec fn indent_of(line: Seq<char>) -> nat {
    first_where(line, not_space())
}

/// Whether `line`, which begins with no known label, continues the
/// documentation block: the scan is inside one, and the line is indented
/// more deeply than the line that opened it.
pub open spec fn is_continuation(state: ScanState, line: Seq<char>) -> bool {
    match state {
        ScanState::Scanning => false,
        ScanState::InDocsBlock { indent } => indent_of(line) > indent,
    }
}

/// `list` with `x` added at its end; a missing list counts as empty.
pub open spec fn pushed<T>(list: Option<Seq<T>>, x: T) -> Seq<T> {
    match list {
        Some(l) => l.push(x),
        None => seq![x],
    }
}

/// The record after one documentation descriptor was offered: a descriptor
/// that parses is added, any other changes nothing.
pub open spec fn add_doc(u: UnitView, text: Seq<char>) -> UnitView {
    match parse_doc(text) {
        Ok(d) => UnitView { docs: Some(pushed(u.docs, d)), ..u },
        Err(_) => u,
    }
}

/// The record after a `Loaded: ` line.
///
/// `loaded (script; policy; preset)` sets the state to loaded and takes
/// the script; the policy, if present, sets the boot policy, an unknown
/// one standing for disabled; the preset, if present, is on when it ends
/// with `enabled`. The brackets and a script are needed: without them the
/// line changes nothing. `masked` sets the state to masked and clears the
/// script.
pub open spec fn apply_loaded(u: UnitView, rest: Seq<char>) -> UnitView {
    if starts_with(rest, "loaded "@) {
        let body = rest.skip("loaded "@.len() as int);
        if body.len() >= 2 && body[0] == '(' && body.last() == ')' {
            let items = split(body.subrange(1, body.len() - 1), ';');
            let script = trim(items[0]);
            if script.len() > 0 {
                UnitView {
                    state: State::Loaded,
                    script: script,
                    auto_start: if items.len() > 1 {
                        AutoStartStatus::decode_spec(trim(items[1]))
                    } else {
                        u.auto_start
                    },
                    preset: if items.len() > 2 {
                        ends_with(trim(items[2]), "enabled"@)
                    } else {
                        u.preset
                    },
                    ..u
                }
            } else {
                u
            }
        } else {
            u
        }
    } else if starts_with(rest, "masked"@) {
        UnitView { state: State::Masked, script: Seq::empty(), ..u }
    } else {
        u
    }
}

/// The process id that a token writes; 0 when it writes none.
pub open spec fn pid_of(token: Seq<char>) -> u64 {
    match parse_u64(token) {
        Some(n) => n,
        None => 0,
    }
}

/// The record after a `Main PID: ` or `Cntrl PID: ` line: up to the first
/// whitespace the process id, after it the process name without its
/// brackets. A line without whitespace changes nothing.
pub open spec fn apply_pid(u: UnitView, rest: Seq<char>) -> UnitView {
    match cut_first(rest, space()) {
        Some((id, name)) => UnitView {
            pid: Some(pid_of(id)),
            process: Some(without(name, is_paren())),
            ..u
        },
        None => u,
    }
}

/// The record after a line of the given kind, `rest` being what follows
/// the label.
pub open spec fn apply_field(u: UnitView, kind: LineKind, rest: Seq<char>) -> UnitView {
    match kind {
        LineKind::Loaded => apply_loaded(u, rest),
        LineKind::Transient => if rest == "yes"@ {
            UnitView { transient: true, ..u }
        } else {
            u
        },
        LineKind::Docs => add_doc(u, rest),
        LineKind::What => UnitView { mounted: Some(rest), ..u },
        LineKind::Where => UnitView { mountpoint: Some(rest), ..u },
        LineKind::MainPid => apply_pid(u, rest),
        LineKind::CntrlPid => apply_pid(u, rest),
        LineKind::Memory => UnitView { memory: Some(trim(rest)), ..u },
        LineKind::Cpu => UnitView { cpu: Some(trim(rest)), ..u },
        LineKind::Active => u,
        LineKind::Process => u,
        LineKind::CGroup => u,
        LineKind::Tasks => u,
    }
}

/// The state after a line of the given kind.
pub open spec fn state_after(kind: LineKind, line: Seq<char>) -> ScanState {
    if kind == LineKind::Docs {
        ScanState::InDocsBlock { indent: indent_of(line) as usize }
    } else {
        ScanState::Scanning
    }
}

/// One step of the scan: the record and the state after `line`.
///
/// A line that begins, after its indentation, with a known label is
/// handled by its kind; a `Docs: ` line opens the documentation block and
/// every other label closes it. A line without a label is offered as a
/// documentation descriptor when it continues the block, and is passed
/// over, closing the block, when it does not.
pub open spec fn step(u: UnitView, state: ScanState, line: Seq<char>) -> (UnitView, ScanState) {
    let body = trim_start(line);
    match line_kind(body) {
        Some(kind) => (
            apply_field(u, kind, body.skip(kind.prefix().len() as int)),
            state_after(kind, line),
        ),
        None => if is_continuation(state, line) {
            (add_doc(u, body), state)
        } else {
            (u, ScanState::Scanning)
        },
    }
}

/// The record and the state after all of `lines`, taken in order.
pub open spec fn scan(lines: Seq<Seq<char>>, u: UnitView, state: ScanState) -> (
    UnitView,
    ScanState,
)
    decreases lines.len(),
{
    if lines.len() == 0 {
        (u, state)
    } else {
        let before = scan(lines.drop_last(), u, state);
        step(before.0, before.1, lines.last())
    }
}

/// Adds `d` at the end of `list`, making the list if it is missing.
fn push_doc(list: &mut Option<Vec<Doc>>, d: Doc)
    ensures
        opt_docs(*final(list)) == Some(pushed(opt_docs(*old(list)), d@)),
{
    let mut items: Vec<Doc> = match list.take() {
        Some(l) => l,
        None => Vec::new(),
    };
    let ghost before = doc_views(items@);
    items.push(d);
    assert(doc_views(items@) == before.push(d@));
    *list = Some(items);
}

/// Executable form of [`add_doc`].
pub fn offer_doc(u: &mut Unit, text: &Vec<char>)
    ensures
        final(u)@ == add_doc(old(u)@, text@),
{
    match Doc::from_chars(text) {
        Ok(d) => {
            push_doc(&mut u.docs, d);
        },
        Err(_) => {},
    }
}

/// Executable form of [`apply_loaded`].
pub fn read_loaded(u: &mut Unit, rest: &Vec<char>)
    ensures
        final(u)@ == apply_loaded(old(u)@, rest@),
{
    match after_prefix(rest, "loaded ") {
        Some(body) => {
            let n: usize = body.len();
            if n >= 2 && body[0] == '(' && body[n - 1] == ')' {
                let inner = slice_of(&body, 1, n - 1);
                let items = split_on(&inner, ';');
                assert(views(items@).len() == items@.len());
                proof {
                    crate::text::lemma_split_nonempty(inner@, ';');
                }
                assert(views(items@)[0] == items@[0]@);
                let script = trimmed(&items[0]);
                if script.len() > 0 {
                    u.state = State::Loaded;
                    u.script = string_of(&script);
                    if items.len() > 1 {
                        assert(views(items@)[1] == items@[1]@);
                        u.auto_start = AutoStartStatus::decode(&trimmed(&items[1]));
                    }
                    if items.len() > 2 {
                        assert(views(items@)[2] == items@[2]@);
                        u.preset = has_suffix(&trimmed(&items[2]), &chars_of("enabled"));
                    }
                }
            }
        },
        None => {
            if has_prefix(rest, &chars_of("masked")) {
                u.state = State::Masked;
                u.script = String::new();
            }
        },
    }
}

/// Executable form of [`apply_pid`].
pub fn read_pid(u: &mut Unit, rest: &Vec<char>)
    ensures
        final(u)@ == apply_pid(old(u)@, rest@),
{
    match cut_at_first(rest, CharClass::Space) {
        Some((id, name)) => {
            let pid: u64 = match parsed_u64(&id) {
                Some(n) => n,
                None => 0,
            };
            u.pid = Some(pid);
            u.process = Some(string_of(&removed(&name, CharClass::Paren)));
        },
        None => {},
    }
}

/// Executable form of [`apply_field`].
pub fn read_field(u: &mut Unit, kind: LineKind, rest: &Vec<char>)
    ensures
        final(u)@ == apply_field(old(u)@, kind, rest@),
{
    match kind {
        LineKind::Loaded => read_loaded(u, rest),
        LineKind::Transient => {
            if is_str(rest, "yes") {
                u.transient = true;
            }
        },
        LineKind::Docs => offer_doc(u, rest),
        LineKind::What => {
            u.mounted = Some(string_of(rest));
        },
        LineKind::Where => {
            u.mountpoint = Some(string_of(rest));
        },
        LineKind::MainPid => read_pid(u, rest),
        LineKind::CntrlPid => read_pid(u, rest),
        LineKind::Memory => {
            u.memory = Some(string_of(&trimmed(rest)));
        },
        LineKind::Cpu => {
            u.cpu = Some(string_of(&trimmed(rest)));
        },
        LineKind::Active => {},
        LineKind::Process => {},
        LineKind::CGroup => {},
        LineKind::Tasks => {},
    }
}

/// Executable form of [`step`].
pub fn read_line(u: &mut Unit, state: ScanState, line: &Vec<char>) -> (next: ScanState)
    ensures
        (final(u)@, next) == step(old(u)@, state, line@),
{
    assert(line@.skip(0) == line@);
    let indent = find(line, 0, CharClass::NotSpace);
    let body = slice_of(line, indent, line.len());
    match classify_line(&body) {
        Some((kind, rest)) => {
            read_field(u, kind, &rest);
            match kind {
                LineKind::Docs => ScanState::InDocsBlock { indent },
                _ => ScanState::Scanning,
            }
        },
        None => {
            match state {
                ScanState::InDocsBlock { indent: opened } => {
                    if indent > opened {
                        offer_doc(u, &body);
                        state
                    } else {
                        ScanState::Scanning
                    }
                },
                ScanState::Scanning => ScanState::Scanning,
            }
        },
    }
}

/// Executable form of [`scan`], over the lines from index `from` on.
pub fn read_lines(u: &mut Unit, lines: &Vec<Vec<char>>, from: usize) -> (state: ScanState)
    requires
        from <= lines.len(),
    ensures
        (final(u)@, state) == scan(
            views(lines@).skip(from as int),
            old(u)@,
            ScanState::Scanning,
        ),
{
    let ghost all = views(lines@).skip(from as int);
    let mut state = ScanState::Scanning;
    let mut i: usize = from;
    assert(all.take(0) == Seq::<Seq<char>>::empty());
    while i < lines.len()
        invariant
            from <= i <= lines.len(),
            all == views(lines@).skip(from as int),
            (u@, state) == scan(all.take(i - from), old(u)@, ScanState::Scanning),
        decreases lines.len() - i,
    {
        assert(all.take(i - from + 1).drop_last() == all.take(i - from));
        assert(all.take(i - from + 1).last() == lines@[i as int]@);
        state = read_line(u, state, &lines[i]);
        i += 1;
    }
    assert(all.take(lines.len() - from) == all);
    state
}

/// The record that a header starts: the header's name, type and
/// description, and nothing else known.
pub open spec fn started(h: HeaderView) -> UnitView {
    UnitView { name: h.name, utype: h.utype, description: h.description, ..UnitView::empty() }
}

/// The reading of a whole status block: the header from its first line,
/// then the scan of the lines after it. A block without a line has no
/// header, and so no type: `DecodeFailure`.
pub open spec fn parse_status(text: Seq<char>) -> Result<UnitView, CtlError> {
    let all = lines(text);
    if all.len() == 0 {
        Err(CtlError::DecodeFailure)
    } else {
        match parse_header(all[0]) {
            Err(e) => Err(e),
            Ok(h) => Ok(scan(all.skip(1), started(h), ScanState::Scanning).0),
        }
    }
}

/// Reads a whole status block.
///
/// The only failure is `DecodeFailure`, for a header that names no unit
/// type. Every other line that cannot be read leaves its field as it was.
pub fn read_status(text: &str) -> (r: Result<Unit, CtlError>)
    ensures
        unit_outcome(r) == parse_status(text@),
        r is Err ==> r == Err::<Unit, CtlError>(CtlError::DecodeFailure),
        r is Ok ==> r->Ok_0@.wf(),
{
    let v = chars_of(text);
    let all = lines_of(&v);
    assert(views(all@).len() == all@.len());
    if all.len() == 0 {
        return Err(CtlError::DecodeFailure);
    }
    assert(views(all@)[0] == all@[0]@);
    match read_header(&all[0]) {
        Err(e) => Err(e),
        Ok(h) => {
            let mut u = Unit::default();
            u.name = h.name;
            u.utype = h.utype;
            u.description = h.description;
            assert(u@ == started(h@));
            proof {
                lemma_scan_keeps_wf(views(all@).skip(1), u@, ScanState::Scanning);
            }
            let _ = read_lines(&mut u, &all, 1);
            Ok(u)
        },
    }
}

/// A status block is read exactly when its first line is a header that
/// can be read; the record then has the header's name, type and
/// description, and load state and script agree.
pub proof fn lemma_status_ok(text: Seq<char>)
    ensures
        parse_status(text) is Ok <==> lines(text).len() > 0 && parse_header(lines(text)[0]) is Ok,
        parse_status(text) is Err ==> parse_status(text) == Err::<UnitView, CtlError>(
            CtlError::DecodeFailure,
        ),
        parse_status(text) matches Ok(u) ==> {
            let h = parse_header(lines(text)[0])->Ok_0;
            u.name == h.name && u.utype == h.utype && u.description == h.description && u.wf()
        },
{
    let all = lines(text);
    if all.len() > 0 {
        crate::header::lemma_header_ok(all[0]);
        if parse_header(all[0]) is Ok {
            let h = parse_header(all[0])->Ok_0;
            lemma_scan_keeps_header(all.skip(1), started(h), ScanState::Scanning);
            lemma_scan_keeps_wf(all.skip(1), started(h), ScanState::Scanning);
        }
    }
}

/// Two readings of the same status block give the same outcome, character
/// for character.
pub proof fn lemma_same_text_same_unit(
    text: Seq<char>,
    first: Result<Unit, CtlError>,
    second: Result<Unit, CtlError>,
)
    requires
        unit_outcome(first) == parse_status(text),
        unit_outcome(second) == parse_status(text),
    ensures
        unit_outcome(first) == unit_outcome(second),
        first is Ok <==> second is Ok,
        first is Ok ==> first->Ok_0@ == second->Ok_0@,
        first is Err ==> first->Err_0 == second->Err_0,
{
}

/// One step leaves the link between load state and script intact.
pub proof fn lemma_step_keeps_wf(u: UnitView, state: ScanState, line: Seq<char>)
    requires
        u.wf(),
    ensures
        step(u, state, line).0.wf(),
{
}

/// A scan leaves the link between load state and script intact.
pub proof fn lemma_scan_keeps_wf(rows: Seq<Seq<char>>, u: UnitView, state: ScanState)
    requires
        u.wf(),
    ensures
        scan(rows, u, state).0.wf(),
    decreases rows.len(),
{
    if rows.len() > 0 {
        lemma_scan_keeps_wf(rows.drop_last(), u, state);
        let before = scan(rows.drop_last(), u, state);
        lemma_step_keeps_wf(before.0, before.1, rows.last());
    }
}

/// A scan never changes what the header gave: name, type and description.
pub proof fn lemma_scan_keeps_header(rows: Seq<Seq<char>>, u: UnitView, state: ScanState)
    ensures
        scan(rows, u, state).0.name == u.name,
        scan(rows, u, state).0.utype == u.utype,
        scan(rows, u, state).0.description == u.description,
    decreases rows.len(),
{
    if rows.len() > 0 {
        lemma_scan_keeps_header(rows.drop_last(), u, state);
    }
}

/// The documentation block is entered by a `Docs: ` line only, and a line
/// without a label keeps the scan inside it only when it continues it. So
/// a descriptor on a line of its own is accepted only right after a
/// `Docs: ` line or after another accepted line.
pub proof fn lemma_docs_block(u: UnitView, state: ScanState, line: Seq<char>)
    ensures
        step(u, state, line).1 is InDocsBlock ==> line_kind(trim_start(line)) == Some(
            LineKind::Docs,
        ) || (line_kind(trim_start(line)) is None && is_continuation(state, line)),
        line_kind(trim_start(line)) is None && state is Scanning ==> step(u, state, line) == (
            u,
            ScanState::Scanning,
        ),
        line_kind(trim_start(line)) is None && !is_continuation(state, line) ==> step(
            u,
            state,
            line,
        ) == (u, ScanState::Scanning),
{
}

} // verus!
