//! The record of one unit, and the reading of the texts that describe it.

use vstd::prelude::*;
use crate::doc::Doc;
use crate::doc::DocView;
use crate::error::CtlError;
use crate::kinds::AutoStartStatus;
use crate::kinds::State;
use crate::kinds::Type;
use crate::text::string_views;

verus! {

/// One unit of the service manager, as its status and its configuration
/// describe it.
#[derive(Clone, Debug, PartialEq, Eq)]
pub struct Unit {
    /// The name of the unit, without the type suffix.
    pub name: String,
    /// The type of the unit, which the suffix of its file name gives.
    pub utype: Type,
    /// The free text that describes the unit.
    pub description: Option<String>,
    /// Whether the configuration is loaded.
    pub state: State,
    /// The boot policy.
    pub auto_start: AutoStartStatus,
    /// Whether the unit is running now.
    pub active: bool,
    /// Whether the vendor's default is to start the unit at boot.
    pub preset: bool,
    /// The path of the configuration file; empty unless the unit is loaded.
    pub script: String,
    /// The `Restart` directive.
    pub restart_policy: Option<String>,
    /// The `KillMode` directive.
    pub kill_mode: Option<String>,
    /// The name of the main process.
    pub process: Option<String>,
    /// The id of the main process.
    pub pid: Option<u64>,
    /// The number of running tasks.
    pub tasks: Option<u64>,
    /// The processor time used, as the tool wrote it.
    pub cpu: Option<String>,
    /// The memory used, as the tool wrote it.
    pub memory: Option<String>,
    /// What is mounted, for a mount unit.
    pub mounted: Option<String>,
    /// Where it is mounted, for a mount unit.
    pub mountpoint: Option<String>,
    /// The documentation that the unit refers to.
    pub docs: Option<Vec<Doc>>,
    /// The `Wants` directives, in file order.
    pub wants: Option<Vec<String>>,
    /// The `WantedBy` directives, in file order.
    pub wanted_by: Option<Vec<String>>,
    /// The `Also` directives, in file order.
    pub also: Option<Vec<String>>,
    /// The `Before` directives, in file order.
    pub before: Option<Vec<String>>,
    /// The `After` directives, in file order.
    pub after: Option<Vec<String>>,
    /// The `ExecStart` directive.
    pub exec_start: Option<String>,
    /// The `ExecReload` directive.
    pub exec_reload: Option<String>,
    /// Whether the unit was made at run time.
    pub transient: bool,
}

/// What a [`Unit`] holds, as sequences.
pub struct UnitView {
    pub name: Seq<char>,
    pub utype: Type,
    pub description: Option<Seq<char>>,
    pub state: State,
    pub auto_start: AutoStartStatus,
    pub active: bool,
    pub preset: bool,
    pub script: Seq<char>,
    pub restart_policy: Option<Seq<char>>,
    pub kill_mode: Option<Seq<char>>,
    pub process: Option<Seq<char>>,
    pub pid: Option<u64>,
    pub tasks: Option<u64>,
    pub cpu: Option<Seq<char>>,
    pub memory: Option<Seq<char>>,
    pub mounted: Option<Seq<char>>,
    pub mountpoint: Option<Seq<char>>,
    pub docs: Option<Seq<DocView>>,
    pub wants: Option<Seq<Seq<char>>>,
    pub wanted_by: Option<Seq<Seq<char>>>,
    pub also: Option<Seq<Seq<char>>>,
    pub before: Option<Seq<Seq<char>>>,
    pub after: Option<Seq<Seq<char>>>,
    pub exec_start: Option<Seq<char>>,
    pub exec_reload: Option<Seq<char>>,
    pub transient: bool,
}

/// What an optional string holds.
pub open spec fn opt_text(o: Option<String>) -> Option<Seq<char>> {
    match o {
        Some(s) => Some(s@),
        None => None,
    }
}

/// What an optional list of strings holds.
pub open spec fn opt_texts(o: Option<Vec<String>>) -> Option<Seq<Seq<char>>> {
    match o {
        Some(v) => Some(string_views(v@)),
        None => None,
    }
}

/// What the documents of `v` hold.
pub open spec fn doc_views(v: Seq<Doc>) -> Seq<DocView> {
    v.map_values(|d: Doc| d@)
}

/// What an optional list of documents holds.
pub open spec fn opt_docs(o: Option<Vec<Doc>>) -> Option<Seq<DocView>> {
    match o {
        Some(v) => Some(doc_views(v@)),
        None => None,
    }
}

impl View for Unit {
    type V = UnitView;

    open spec fn view(&self) -> UnitView {
        UnitView {
            name: self.name@,
            utype: self.utype,
            description: opt_text(self.description),
            state: self.state,
            auto_start: self.auto_start,
            active: self.active,
            preset: self.preset,
            script: self.script@,
            restart_policy: opt_text(self.restart_policy),
            kill_mode: opt_text(self.kill_mode),
            process: opt_text(self.process),
            pid: self.pid,
            tasks: self.tasks,
            cpu: opt_text(self.cpu),
            memory: opt_text(self.memory),
            mounted: opt_text(self.mounted),
            mountpoint: opt_text(self.mountpoint),
            docs: opt_docs(self.docs),
            wants: opt_texts(self.wants),
            wanted_by: opt_texts(self.wanted_by),
            also: opt_texts(self.also),
            before: opt_texts(self.before),
            after: opt_texts(self.after),
            exec_start: opt_text(self.exec_start),
            exec_reload: opt_text(self.exec_reload),
            transient: self.transient,
        }
    }
}

impl UnitView {
    /// The record of which nothing is known yet: a masked service without
    /// a name, every optional field absent.
    pub open spec fn empty() -> UnitView {
        UnitView {
            name: Seq::empty(),
            utype: Type::Service,
            description: None,
            state: State::Masked,
            auto_start: AutoStartStatus::Disabled,
            active: false,
            preset: false,
            script: Seq::empty(),
            restart_policy: None,
            kill_mode: None,
            process: None,
            pid: None,
            tasks: None,
            cpu: None,
            memory: None,
            mounted: None,
            mountpoint: None,
            docs: None,
            wants: None,
            wanted_by: None,
            also: None,
            before: None,
            after: None,
            exec_start: None,
            exec_reload: None,
            transient: false,
        }
    }

    /// The link between load state and script: a loaded unit has a
    /// script, a masked one has none.
    pub open spec fn wf(self) -> bool {
        self.state == State::Loaded <==> self.script.len() > 0
    }
}

/// What the outcome of a reading holds.
pub open spec fn unit_outcome(r: Result<Unit, CtlError>) -> Result<UnitView, CtlError> {
    match r {
        Ok(u) => Ok(u@),
        Err(e) => Err(e),
    }
}

impl Default for Unit {
    fn default() -> (u: Unit)
        ensures
            u@ == UnitView::empty(),
            u@.wf(),
    {
        Unit {
            name: String::new(),
            utype: Type::Service,
            description: None,
            state: State::Masked,
            auto_start: AutoStartStatus::Disabled,
            active: false,
            preset: false,
            script: String::new(),
            restart_policy: None,
            kill_mode: None,
            process: None,
            pid: None,
            tasks: None,
            cpu: None,
            memory: None,
            mounted: None,
            mountpoint: None,
            docs: None,
            wants: None,
            wanted_by: None,
            also: None,
            before: None,
            after: None,
            exec_start: None,
            exec_reload: None,
            transient: false,
        }
    }
}

} // verus!
