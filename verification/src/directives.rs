//! The directive dump of a unit: one `Key=Value` pair per line.

use vstd::prelude::*;
use crate::status::pushed;
use crate::text::chars_of;
use crate::text::cut_at_only;
use crate::text::cut_once;
use crate::text::is_str;
use crate::text::lines;
use crate::text::lines_of;
use crate::text::string_of;
use crate::text::string_views;
use crate::text::views;
use crate::unit::opt_texts;
use crate::unit::Unit;
use crate::unit::UnitView;

verus! {

/// The record after one line of the dump.
///
/// A line counts when it holds exactly one `=`. The keys `Wants`,
/// `WantedBy`, `Also`, `Before` and `After` add the value at the end of
/// their list; `ExecStart`, `ExecReload`, `Restart` and `KillMode` set
/// their field, a later line replacing an earlier one. Every other line
/// changes nothing.
pub open spec fn apply_directive(u: UnitView, line: Seq<char>) -> UnitView {
    match cut_once(line, '=') {
        None => u,
        Some((key, value)) => {
            if key == "Wants"@ {
                UnitView { wants: Some(pushed(u.wants, value)), ..u }
            } else if key == "WantedBy"@ {
                UnitView { wanted_by: Some(pushed(u.wanted_by, value)), ..u }
            } else if key == "Also"@ {
                UnitView { also: Some(pushed(u.also, value)), ..u }
            } else if key == "Before"@ {
                UnitView { before: Some(pushed(u.before, value)), ..u }
            } else if key == "After"@ {
                UnitView { after: Some(pushed(u.after, value)), ..u }
            } else if key == "ExecStart"@ {
                UnitView { exec_start: Some(value), ..u }
            } else if key == "ExecReload"@ {
                UnitView { exec_reload: Some(value), ..u }
            } else if key == "Restart"@ {
                UnitView { restart_policy: Some(value), ..u }
            } else if key == "KillMode"@ {
                UnitView { kill_mode: Some(value), ..u }
            } else {
                u
            }
        },
    }
}

/// The record after all of `rows`, taken in order.
pub open spec fn apply_directives(rows: Seq<Seq<char>>, u: UnitView) -> UnitView
    decreases rows.len(),
{
    if rows.len() == 0 {
        u
    } else {
        apply_directive(apply_directives(rows.drop_last(), u), rows.last())
    }
}

/// The record after a whole directive dump.
pub open spec fn with_directives(u: UnitView, text: Seq<char>) -> UnitView {
    apply_directives(lines(text), u)
}

/// Adds `value` at the end of `list`, making the list if it is missing.
fn push_text(list: &mut Option<Vec<String>>, value: String)
    ensures
        opt_texts(*final(list)) == Some(pushed(opt_texts(*old(list)), value@)),
{
    let mut items: Vec<String> = match list.take() {
        Some(l) => l,
        None => Vec::new(),
    };
    let ghost before = string_views(items@);
    items.push(value);
    assert(string_views(items@) == before.push(value@));
    *list = Some(items);
}

/// Executable form of [`apply_directive`].
pub fn read_directive(u: &mut Unit, line: &Vec<char>)
    ensures
        final(u)@ == apply_directive(old(u)@, line@),
{
    match cut_at_only(line, '=') {
        None => {},
        Some((key, value)) => {
            let val = string_of(&value);
            if is_str(&key, "Wants") {
                push_text(&mut u.wants, val);
            } else if is_str(&key, "WantedBy") {
                push_text(&mut u.wanted_by, val);
            } else if is_str(&key, "Also") {
                push_text(&mut u.also, val);
            } else if is_str(&key, "Before") {
                push_text(&mut u.before, val);
            } else if is_str(&key, "After") {
                push_text(&mut u.after, val);
            } else if is_str(&key, "ExecStart") {
                u.exec_start = Some(val);
            } else if is_str(&key, "ExecReload") {
                u.exec_reload = Some(val);
            } else if is_str(&key, "Restart") {
                u.restart_policy = Some(val);
            } else if is_str(&key, "KillMode") {
                u.kill_mode = Some(val);
            }
        },
    }
}

/// Reads a whole directive dump into `u`.
pub fn read_directives(u: &mut Unit, text: &str)
    ensures
        final(u)@ == with_directives(old(u)@, text@),
{
    let v = chars_of(text);
    let rows = lines_of(&v);
    let mut i: usize = 0;
    assert(views(rows@).take(0) == Seq::<Seq<char>>::empty());
    while i < rows.len()
        invariant
            i <= rows.len(),
            views(rows@) == lines(text@),
            u@ == apply_directives(views(rows@).take(i as int), old(u)@),
        decreases rows.len() - i,
    {
        assert(views(rows@).take(i + 1).drop_last() == views(rows@).take(i as int));
        assert(views(rows@).take(i + 1).last() == rows@[i as int]@);
        read_directive(u, &rows[i]);
        i += 1;
    }
    assert(views(rows@).take(rows.len() as int) == views(rows@));
}

/// The directives leave load state and script as they are, and with them
/// the link between the two.
pub proof fn lemma_directives_keep_wf(rows: Seq<Seq<char>>, u: UnitView)
    ensures
        apply_directives(rows, u).state == u.state,
        apply_directives(rows, u).script == u.script,
        u.wf() ==> apply_directives(rows, u).wf(),
    decreases rows.len(),
{
    if rows.len() > 0 {
        lemma_directives_keep_wf(rows.drop_last(), u);
    }
}

/// The directives leave what the header gave as it is.
pub proof fn lemma_directives_keep_header(rows: Seq<Seq<char>>, u: UnitView)
    ensures
        apply_directives(rows, u).name == u.name,
        apply_directives(rows, u).utype == u.utype,
        apply_directives(rows, u).description == u.description,
    decreases rows.len(),
{
    if rows.len() > 0 {
        lemma_directives_keep_header(rows.drop_last(), u);
    }
}

} // verus!
