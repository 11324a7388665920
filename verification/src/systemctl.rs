//! The entry points: what to ask the tool, and what its answers mean.
//!
//! Nothing here starts a process. A caller runs the tool with the
//! arguments that this module gives, captures what it wrote and how it
//! ended in a [`RunResult`], and hands that back to be read.

use vstd::prelude::*;
use crate::directives::read_directives;
use crate::directives::with_directives;
use crate::error::CtlError;
use crate::listing::parse_listing;
use crate::listing::read_listing;
use crate::listing::row_views;
use crate::listing::rows_outcome;
use crate::listing::unit_files;
use crate::listing::UnitList;
use crate::listing::UnitListView;
use crate::outcome::classify;
use crate::outcome::classify_spec;
use crate::outcome::RunResult;
use crate::status::parse_status;
use crate::status::read_status;
use crate::text::chars_of;
use crate::text::is_str;
use crate::text::string_views;
use crate::text::trim_end;
use crate::text::trimmed_end;
use crate::unit::unit_outcome;
use crate::unit::Unit;
use crate::unit::UnitView;

verus! {

/// Where the tool is found when no other path is given.
pub const SYSTEMCTL_PATH: &'static str = "/usr/bin/systemctl";

/// How the tool is called: where it is, and which arguments every call
/// begins with.
#[derive(Clone, Debug)]
pub struct SystemCtl {
    /// Arguments that come before those of every call, such as `--user`.
    additional_args: Vec<String>,
    /// The path of the tool; [`SYSTEMCTL_PATH`] when absent.
    path: Option<String>,
}

/// Collects the settings of a [`SystemCtl`].
#[derive(Clone, Debug)]
pub struct SystemCtlBuilder {
    additional_args: Vec<String>,
    path: Option<String>,
}

impl SystemCtlBuilder {
    /// The arguments collected so far.
    pub closed spec fn args(&self) -> Seq<Seq<char>> {
        string_views(self.additional_args@)
    }

    /// The path collected so far.
    pub closed spec fn path_text(&self) -> Option<Seq<char>> {
        match self.path {
            Some(p) => Some(p@),
            None => None,
        }
    }

    /// Sets the arguments that every call begins with.
    pub fn additional_args(self, args: Vec<String>) -> (r: SystemCtlBuilder)
        ensures
            r.args() == string_views(args@),
            r.path_text() == self.path_text(),
    {
        SystemCtlBuilder { additional_args: args, path: self.path }
    }

    /// Sets the path of the tool.
    pub fn path(self, path: String) -> (r: SystemCtlBuilder)
        ensures
            r.args() == self.args(),
            r.path_text() == Some(path@),
    {
        SystemCtlBuilder { additional_args: self.additional_args, path: Some(path) }
    }

    /// The settings as collected.
    pub fn build(self) -> (r: SystemCtl)
        ensures
            r.args() == self.args(),
            r.path_text() == self.path_text(),
    {
        SystemCtl { additional_args: self.additional_args, path: self.path }
    }
}

impl Default for SystemCtl {
    fn default() -> (r: SystemCtl)
        ensures
            r.args() == Seq::<Seq<char>>::empty(),
            r.path_text() is None,
    {
        let r = SystemCtl { additional_args: Vec::new(), path: None };
        assert(string_views(r.additional_args@) == Seq::<Seq<char>>::empty());
        r
    }
}

/// The arguments of a listing query: the verb, then `--type` and
/// `--state` with their values for the filters that are given, then the
/// name pattern if there is one.
pub open spec fn listing_args(
    type_filter: Option<Seq<char>>,
    state_filter: Option<Seq<char>>,
    glob: Option<Seq<char>>,
) -> Seq<Seq<char>> {
    seq!["list-unit-files"@] + (match type_filter {
        Some(f) => seq!["--type"@, f],
        None => Seq::empty(),
    }) + (match state_filter {
        Some(f) => seq!["--state"@, f],
        None => Seq::empty(),
    }) + (match glob {
        Some(g) => seq![g],
        None => Seq::empty(),
    })
}

/// What an optional string slice holds.
pub open spec fn opt_str(o: Option<&str>) -> Option<Seq<char>> {
    match o {
        Some(s) => Some(s@),
        None => None,
    }
}

/// The answer of an activity probe: the tool's output, without trailing
/// whitespace, is the word `active`.
pub open spec fn active_spec(run: &RunResult) -> Result<bool, CtlError> {
    match classify_spec(run.exit_code) {
        Err(e) => Err(e),
        Ok(_) => Ok(trim_end(run.stdout@) == "active"@),
    }
}

/// The rows that a listing query gave.
pub open spec fn listing_spec(run: &RunResult) -> Result<Seq<UnitListView>, CtlError> {
    match classify_spec(run.exit_code) {
        Err(e) => Err(e),
        Ok(_) => parse_listing(run.stdout@),
    }
}

/// Whether a listing query for one unit found it: whether it gave a row.
pub open spec fn exists_spec(run: &RunResult) -> Result<bool, CtlError> {
    match listing_spec(run) {
        Err(e) => Err(e),
        Ok(rows) => Ok(rows.len() > 0),
    }
}

/// The record of a unit, from the four queries about it.
///
/// A listing that was read and is empty means that the unit is not known.
/// Else the status query decides: its exit code, then its header. The
/// directive dump adds to the record when its query succeeded, and the
/// activity probe sets the `active` flag or fails the record. A listing or
/// a dump that could not be had is `None`.
pub open spec fn unit_spec(
    listing: Option<&RunResult>,
    status: &RunResult,
    cat: Option<&RunResult>,
    active: &RunResult,
) -> Result<UnitView, CtlError> {
    if listing is Some && exists_spec(listing->0) == Ok::<bool, CtlError>(false) {
        Err(CtlError::NotFound)
    } else {
        match classify_spec(status.exit_code) {
            Err(e) => Err(e),
            Ok(_) => match parse_status(status.stdout@) {
                Err(e) => Err(e),
                Ok(u) => {
                    let v = if cat is Some && classify_spec(cat->0.exit_code) is Ok {
                        with_directives(u, cat->0.stdout@)
                    } else {
                        u
                    };
                    match active_spec(active) {
                        Err(e) => Err(e),
                        Ok(a) => Ok(UnitView { active: a, ..v }),
                    }
                },
            },
        }
    }
}

/// When a record is built, and when not.
///
/// The result is `NotFound` exactly when the listing was read and is
/// empty. Else a status query that does not count as made, and then an
/// activity probe that does not, fail the record with the error of their
/// exit code, and a header that cannot be read fails it with
/// `DecodeFailure`. In every other case there is a record; a dump that
/// cannot be used and lines that cannot be read never fail it.
pub proof fn lemma_unit_failures(
    listing: Option<&RunResult>,
    status: &RunResult,
    cat: Option<&RunResult>,
    active: &RunResult,
)
    ensures
        unit_spec(listing, status, cat, active) == Err::<UnitView, CtlError>(CtlError::NotFound)
            <==> (listing is Some && exists_spec(listing->0) == Ok::<bool, CtlError>(false)),
        unit_spec(listing, status, cat, active) is Ok <==> {
            &&& !(listing is Some && exists_spec(listing->0) == Ok::<bool, CtlError>(false))
            &&& classify_spec(status.exit_code) is Ok
            &&& parse_status(status.stdout@) is Ok
            &&& classify_spec(active.exit_code) is Ok
        },
        unit_spec(listing, status, cat, active) matches Ok(u) ==> u.wf() && u.name == parse_status(
            status.stdout@,
        )->Ok_0.name && u.utype == parse_status(status.stdout@)->Ok_0.utype,
{
    crate::status::lemma_status_ok(status.stdout@);
    if cat is Some {
        if parse_status(status.stdout@) is Ok {
            crate::directives::lemma_directives_keep_wf(
                crate::text::lines(cat->0.stdout@),
                parse_status(status.stdout@)->Ok_0,
            );
            crate::directives::lemma_directives_keep_header(
                crate::text::lines(cat->0.stdout@),
                parse_status(status.stdout@)->Ok_0,
            );
        }
    }
}

/// Two records built from the same four answers are the same, character
/// for character, and so are two failures.
pub proof fn lemma_same_answers_same_unit(
    listing: Option<&RunResult>,
    status: &RunResult,
    cat: Option<&RunResult>,
    active: &RunResult,
    first: Result<Unit, CtlError>,
    second: Result<Unit, CtlError>,
)
    requires
        unit_outcome(first) == unit_spec(listing, status, cat, active),
        unit_outcome(second) == unit_spec(listing, status, cat, active),
    ensures
        unit_outcome(first) == unit_outcome(second),
        first is Ok <==> second is Ok,
        first is Ok ==> first->Ok_0@ == second->Ok_0@,
        first is Err ==> first->Err_0 == second->Err_0,
{
}

impl SystemCtl {
    /// The arguments that every call begins with.
    pub closed spec fn args(&self) -> Seq<Seq<char>> {
        string_views(self.additional_args@)
    }

    /// The path that was set, if one was.
    pub closed spec fn path_text(&self) -> Option<Seq<char>> {
        match self.path {
            Some(p) => Some(p@),
            None => None,
        }
    }

    /// Starts collecting settings: no arguments, no path.
    pub fn builder() -> (r: SystemCtlBuilder)
        ensures
            r.args() == Seq::<Seq<char>>::empty(),
            r.path_text() is None,
    {
        let r = SystemCtlBuilder { additional_args: Vec::new(), path: None };
        assert(string_views(r.additional_args@) == Seq::<Seq<char>>::empty());
        r
    }

    /// The path of the tool.
    pub fn get_path(&self) -> (r: &str)
        ensures
            r@ == match self.path_text() {
                Some(p) => p,
                None => SYSTEMCTL_PATH@,
            },
    {
        match &self.path {
            Some(p) => p.as_str(),
            None => SYSTEMCTL_PATH,
        }
    }

    /// The full argument list of a call: the arguments that every call
    /// begins with, then those of this call.
    pub fn arguments(&self, args: &Vec<String>) -> (r: Vec<String>)
        ensures
            string_views(r@) == self.args() + string_views(args@),
    {
        let mut out: Vec<String> = Vec::new();
        let mut i: usize = 0;
        assert(string_views(out@) == self.args().take(0));
        while i < self.additional_args.len()
            invariant
                i <= self.additional_args.len(),
                string_views(out@) == self.args().take(i as int),
            decreases self.additional_args.len() - i,
        {
            let ghost before = string_views(out@);
            out.push(self.additional_args[i].clone());
            i += 1;
            assert(string_views(out@) == before.push(self.additional_args@[i - 1]@));
            assert(self.args().take(i as int) == self.args().take(i - 1).push(
                self.additional_args@[i - 1]@,
            ));
        }
        assert(self.args().take(self.additional_args.len() as int) == self.args());
        let mut j: usize = 0;
        assert(string_views(out@) == self.args() + string_views(args@).take(0));
        while j < args.len()
            invariant
                j <= args.len(),
                string_views(out@) == self.args() + string_views(args@).take(j as int),
            decreases args.len() - j,
        {
            let ghost before = string_views(out@);
            out.push(args[j].clone());
            j += 1;
            assert(string_views(out@) == before.push(args@[j - 1]@));
            assert(string_views(args@).take(j as int) == string_views(args@).take(j - 1).push(
                args@[j - 1]@,
            ));
        }
        assert(string_views(args@).take(args.len() as int) == string_views(args@));
        out
    }

    /// The arguments of a listing query with the given filters.
    pub fn list_units_args(
        type_filter: Option<&str>,
        state_filter: Option<&str>,
        glob: Option<&str>,
    ) -> (r: Vec<String>)
        ensures
            string_views(r@) == listing_args(
                opt_str(type_filter),
                opt_str(state_filter),
                opt_str(glob),
            ),
    {
        let mut args: Vec<String> = Vec::new();
        args.push("list-unit-files".to_owned());
        assert(string_views(args@) == seq!["list-unit-files"@]);
        let ghost a0 = string_views(args@);
        match type_filter {
            Some(f) => {
                args.push("--type".to_owned());
                args.push(f.to_owned());
                assert(string_views(args@) == a0 + seq!["--type"@, f@]);
            },
            None => {
                assert(string_views(args@) == a0 + Seq::<Seq<char>>::empty());
            },
        }
        let ghost a1 = string_views(args@);
        match state_filter {
            Some(f) => {
                args.push("--state".to_owned());
                args.push(f.to_owned());
                assert(string_views(args@) == a1 + seq!["--state"@, f@]);
            },
            None => {
                assert(string_views(args@) == a1 + Seq::<Seq<char>>::empty());
            },
        }
        let ghost a2 = string_views(args@);
        match glob {
            Some(g) => {
                args.push(g.to_owned());
                assert(string_views(args@) == a2 + seq![g@]);
            },
            None => {
                assert(string_views(args@) == a2 + Seq::<Seq<char>>::empty());
            },
        }
        args
    }

    /// Decides whether a finished call counts as made. Exit codes 0, 1 and
    /// 3 do, and the captured result is handed on to be read; code 4, any
    /// other code and death by signal do not.
    pub fn systemctl_capture<'a>(&self, run: &'a RunResult) -> (r: Result<&'a RunResult, CtlError>)
        ensures
            match r {
                Ok(kept) => kept == run && classify_spec(run.exit_code) is Ok,
                Err(e) => classify_spec(run.exit_code) == Err::<crate::outcome::Outcome, CtlError>(
                    e,
                ),
            },
    {
        match classify(run.exit_code) {
            Ok(_) => Ok(run),
            Err(e) => Err(e),
        }
    }

    /// Whether the unit is running, from the result of an `is-active`
    /// query.
    pub fn is_active(&self, run: &RunResult) -> (r: Result<bool, CtlError>)
        ensures
            r == active_spec(run),
    {
        let status = self.systemctl_capture(run)?;
        let text = trimmed_end(&chars_of(status.stdout.as_str()));
        Ok(is_str(&text, "active"))
    }

    /// The rows of the unit-file listing, from the result of a
    /// `list-unit-files` query.
    pub fn list_units_full(&self, run: &RunResult) -> (r: Result<Vec<UnitList>, CtlError>)
        ensures
            rows_outcome(r) == listing_spec(run),
    {
        let content = self.systemctl_capture(run)?;
        read_listing(content.stdout.as_str())
    }

    /// The unit-file names of the listing, in order.
    pub fn list_units(&self, run: &RunResult) -> (r: Result<Vec<String>, CtlError>)
        ensures
            match r {
                Ok(names) => listing_spec(run) is Ok && string_views(names@) == unit_files(
                    listing_spec(run)->Ok_0,
                ),
                Err(e) => listing_spec(run) == Err::<Seq<UnitListView>, CtlError>(e),
            },
    {
        let rows = self.list_units_full(run)?;
        let mut names: Vec<String> = Vec::new();
        let mut i: usize = 0;
        assert(string_views(names@) == unit_files(row_views(rows@).take(0)));
        while i < rows.len()
            invariant
                i <= rows.len(),
                string_views(names@) == unit_files(row_views(rows@).take(i as int)),
            decreases rows.len() - i,
        {
            let ghost before = string_views(names@);
            names.push(rows[i].unit_file.clone());
            i += 1;
            assert(string_views(names@) == before.push(rows@[i - 1].unit_file@));
            assert(unit_files(row_views(rows@).take(i as int)) == unit_files(
                row_views(rows@).take(i - 1),
            ).push(rows@[i - 1].unit_file@));
        }
        assert(row_views(rows@).take(rows.len() as int) == row_views(rows@));
        Ok(names)
    }

    /// The names of the services that are disabled, from the result of the
    /// listing query with the arguments of
    /// `list_units_args(Some("service"), Some("disabled"), None)`. The tool
    /// has applied the filters; the rows are taken as they come.
    pub fn list_disabled_services(&self, run: &RunResult) -> (r: Result<Vec<String>, CtlError>)
        ensures
            match r {
                Ok(names) => listing_spec(run) is Ok && string_views(names@) == unit_files(
                    listing_spec(run)->Ok_0,
                ),
                Err(e) => listing_spec(run) == Err::<Seq<UnitListView>, CtlError>(e),
            },
    {
        self.list_units(run)
    }

    /// The names of the services that are enabled, from the result of the
    /// listing query with the arguments of
    /// `list_units_args(Some("service"), Some("enabled"), None)`. The tool
    /// has applied the filters; the rows are taken as they come.
    pub fn list_enabled_services(&self, run: &RunResult) -> (r: Result<Vec<String>, CtlError>)
        ensures
            match r {
                Ok(names) => listing_spec(run) is Ok && string_views(names@) == unit_files(
                    listing_spec(run)->Ok_0,
                ),
                Err(e) => listing_spec(run) == Err::<Seq<UnitListView>, CtlError>(e),
            },
    {
        self.list_units(run)
    }

    /// Whether the unit is known, from the result of a listing query for
    /// its name: whether the listing has a row.
    pub fn unit_exists(&self, run: &RunResult) -> (r: Result<bool, CtlError>)
        ensures
            r == exists_spec(run),
    {
        let rows = self.list_units_full(run)?;
        assert(row_views(rows@).len() == rows@.len());
        Ok(!rows.is_empty())
    }

    /// Builds the record of a unit from the four queries about it.
    ///
    /// `listing` is the listing query for the unit's name and `cat` the
    /// directive dump; either is `None` when the query could not be made.
    /// `status` is the status query and `active` the activity probe.
    pub fn create_unit(
        &self,
        listing: Option<&RunResult>,
        status: &RunResult,
        cat: Option<&RunResult>,
        active: &RunResult,
    ) -> (r: Result<Unit, CtlError>)
        ensures
            unit_outcome(r) == unit_spec(listing, status, cat, active),
            r is Ok ==> r->Ok_0@.wf(),
    {
        match listing {
            Some(l) => {
                match self.unit_exists(l) {
                    Ok(false) => {
                        return Err(CtlError::NotFound);
                    },
                    _ => {},
                }
            },
            None => {},
        }
        let captured = self.systemctl_capture(status)?;
        let mut u = read_status(captured.stdout.as_str())?;
        match cat {
            Some(c) => {
                match self.systemctl_capture(c) {
                    Ok(content) => {
                        read_directives(&mut u, content.stdout.as_str());
                        proof {
                            crate::directives::lemma_directives_keep_wf(
                                crate::text::lines(content.stdout@),
                                parse_status(status.stdout@)->Ok_0,
                            );
                        }
                    },
                    Err(_) => {},
                }
            },
            None => {},
        }
        u.active = self.is_active(active)?;
        Ok(u)
    }
}

} // verus!
