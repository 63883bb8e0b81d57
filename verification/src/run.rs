//! The protocol of a run. The caller performs the outside work (reading
//! configuration, running rustdoc, printing) and reports back; the run
//! decides what comes next, package by package, and how the run ends.
use vstd::prelude::*;
use vstd::string::StringExecFns;
use crate::args::CheckExternalTypesArgs;
use crate::config::{config_source, is_config_source, ConfigSource};
use crate::model::{Metadata, Package};
use crate::output_format::OutputFormat;
use crate::package::{
    check_package, is_first_node, is_proc_macro, lib_name, resolve_features_for_package, resolved_features,
    skip_reason_text, CheckPlan, SkipReason,
};
use crate::report::{has_errors, is_markdown_table, markdown_table, rows_have_locations, locations_known, Finding};
use crate::text::texts;
use crate::workspace::{is_members_by_name, is_workspace_mode, members_by_name};

verus! {

/// How a run ends.
#[derive(Clone, Debug, PartialEq, Eq)]
pub enum Outcome {
    /// Every checked package passed (or the findings were tabulated).
    Success,
    /// Some checked package has findings that are errors.
    ValidationErrors,
    /// The run could not be completed, for the reason given.
    Failure(String),
}

/// The process exit status for an outcome.
pub open spec fn exit_status(o: Outcome) -> i32 {
    match o {
        Outcome::Success => 0,
        Outcome::ValidationErrors => 1,
        Outcome::Failure(_) => 2,
    }
}

/// The process exit status for an outcome: 0 on success, 1 when validation
/// errors were found, 2 when the run failed.
pub fn exit_code(o: &Outcome) -> (c: i32)
    ensures
        c == exit_status(*o),
{
    match o {
        Outcome::Success => 0,
        Outcome::ValidationErrors => 1,
        Outcome::Failure(_) => 2,
    }
}

/// The outcome of a run that went through all its packages.
pub open spec fn final_outcome(had_validation_errors: bool) -> Outcome {
    if had_validation_errors {
        Outcome::ValidationErrors
    } else {
        Outcome::Success
    }
}

/// What the run waits for.
#[derive(Clone, Copy, Debug, PartialEq, Eq, Structural)]
pub enum Phase {
    /// The configuration of the current package to be loaded.
    AwaitConfig,
    /// The current package to be checked.
    AwaitCheck,
    /// A report on the current package to be printed.
    AwaitReport,
    /// Nothing: the run is over.
    Finished,
}

/// What the caller reports back.
#[derive(Clone, Debug, PartialEq, Eq)]
pub enum Event {
    /// The configuration was read and parsed.
    ConfigLoaded,
    /// The configuration could not be read or parsed.
    ConfigFailed(String),
    /// The package was documented and examined, with these findings.
    Checked(Vec<Finding>),
    /// Documenting or examining the package failed.
    CheckFailed(String),
    /// The report asked for was printed.
    Reported,
}

/// What the caller is to do next.
#[derive(Clone, Debug, PartialEq, Eq)]
pub enum Action {
    /// Print `announce` (if any) to standard error, then load the
    /// configuration of package `package` (an index into the metadata's
    /// packages) from `source`.
    LoadConfig { package: usize, announce: Option<String>, source: ConfigSource },
    /// Document package `package` with rustdoc, its library being
    /// `lib_name`, with `features` enabled, and examine its public types.
    Check { package: usize, lib_name: String, features: Vec<String> },
    /// Print this line to standard error.
    ReportSkip { message: String },
    /// Print the findings of package `package` as error messages.
    ReportErrors { package: usize },
    /// Print these lines to standard output.
    ReportTable { lines: Vec<String> },
    /// End the run with this outcome.
    Exit(Outcome),
}

/// The state of a run, as the contracts speak of it.
pub struct RunView {
    /// The metadata of the run.
    pub metadata: Metadata,
    /// The features named on the command line.
    pub features: Option<Seq<Seq<char>>>,
    /// The configuration file named on the command line.
    pub config: Option<Seq<char>>,
    /// The output format.
    pub format: OutputFormat,
    /// Whether unsupported packages are skipped.
    pub skip_unsupported: bool,
    /// Whether the run covers a workspace.
    pub workspace_mode: bool,
    /// The packages to check, as indices into the metadata's packages.
    pub order: Seq<usize>,
    /// The position in `order` of the current package.
    pub pos: int,
    /// What the run waits for.
    pub phase: Phase,
    /// Whether a checked package had error findings.
    pub had_validation_errors: bool,
}

impl RunView {
    /// The indices are in range, and a run that waits has a current package.
    pub open spec fn wf(self) -> bool {
        &&& self.metadata.wf()
        &&& forall|i: int| 0 <= i < self.order.len() ==> #[trigger] self.order[i] < self.metadata.packages@.len()
        &&& 0 <= self.pos <= self.order.len()
        &&& self.phase != Phase::Finished ==> self.pos < self.order.len()
        &&& self.format == OutputFormat::MarkdownTable ==> !self.had_validation_errors
    }

    /// The package at the current position.
    pub open spec fn package(self) -> Package {
        self.metadata.packages@[self.order[self.pos] as int]
    }

    /// The two states belong to the same run.
    pub open spec fn same_run(self, other: RunView) -> bool {
        &&& self.metadata == other.metadata
        &&& self.features == other.features
        &&& self.config == other.config
        &&& self.format == other.format
        &&& self.skip_unsupported == other.skip_unsupported
        &&& self.workspace_mode == other.workspace_mode
        &&& self.order == other.order
    }
}

/// The line announcing a package in workspace mode.
pub open spec fn announce_text(name: Seq<char>) -> Seq<char> {
    "Checking package: "@ + name + "..."@
}

/// The line reporting a skipped package.
pub open spec fn skip_message(name: Seq<char>, reason: SkipReason) -> Seq<char> {
    "Skipping "@ + name + ": "@ + skip_reason_text(reason)
}

/// The failure for an unsupported package when skipping was not asked for.
pub open spec fn unsupported_message(name: Seq<char>, reason: SkipReason) -> Seq<char> {
    "Package '"@ + name + "' is not supported: "@ + skip_reason_text(reason)
        + ". Use --skip-unsupported to skip."@
}

/// The failure when features are listed for a workspace.
pub open spec fn workspace_features_message() -> Seq<char> {
    "--features is not supported for workspace targets. Use --all-features instead, or run on individual packages."@
}

/// `a` ends the run with a failure carrying `msg`.
pub open spec fn fails_with(a: Action, msg: Seq<char>) -> bool {
    a matches Action::Exit(Outcome::Failure(m)) && m@ == msg
}

/// `a` is what comes when the run moves to position `v.pos`: the current
/// package's configuration is loaded, or, past the last package, the run
/// ends with its final outcome.
pub open spec fn opens_next(v: RunView, a: Action) -> bool {
    if v.pos < v.order.len() {
        &&& v.phase == Phase::AwaitConfig
        &&& a matches Action::LoadConfig { package, announce, source }
        &&& package == v.order[v.pos]
        &&& (v.workspace_mode ==> (announce matches Some(t) && t@ == announce_text(v.package().name@)))
        &&& (!v.workspace_mode ==> announce is None)
        &&& is_config_source(source, v.config, v.package().metadata@)
    } else {
        &&& v.phase == Phase::Finished
        &&& a == Action::Exit(final_outcome(v.had_validation_errors))
    }
}

/// The features to build the current package with: those named on the
/// command line, else those that cargo resolved.
pub open spec fn run_features(v: RunView) -> Result<Seq<Seq<char>>, Seq<char>> {
    match v.features {
        Some(fs) => Ok(fs),
        None => resolved_features(v.metadata, v.package()),
    }
}

/// Why the current package cannot be checked, if it cannot.
pub open spec fn unsupported_reason(p: Package) -> Option<SkipReason> {
    if is_proc_macro(p) {
        Some(SkipReason::ProcMacro)
    } else if lib_name(p) is None {
        Some(SkipReason::NoLibTarget)
    } else {
        None
    }
}

/// What follows once the current package's configuration is loaded: its
/// features are settled (a failure ends the run), then it is checked, or,
/// when it cannot be, skipped with a note or failed.
pub open spec fn after_config(v: RunView, phase: Phase, a: Action) -> bool {
    let p = v.package();
    match run_features(v) {
        Err(msg) => phase == Phase::Finished && fails_with(a, msg),
        Ok(fs) => match unsupported_reason(p) {
            Some(reason) => if v.skip_unsupported {
                &&& phase == Phase::AwaitReport
                &&& a matches Action::ReportSkip { message }
                &&& message@ == skip_message(p.name@, reason)
            } else {
                phase == Phase::Finished && fails_with(a, unsupported_message(p.name@, reason))
            },
            None => {
                &&& phase == Phase::AwaitCheck
                &&& a matches Action::Check { package, lib_name: l, features }
                &&& package == v.order[v.pos]
                &&& lib_name(p) == Some(l@)
                &&& texts(features@) == fs
            },
        },
    }
}

/// The run, in state `v`, can take event `e`.
pub open spec fn accepts_event(v: RunView, e: Event) -> bool {
    match v.phase {
        Phase::AwaitConfig => e is ConfigLoaded || e is ConfigFailed,
        Phase::AwaitCheck => e is CheckFailed || (e matches Event::Checked(fs) && (v.format
            == OutputFormat::MarkdownTable ==> rows_have_locations(fs@))),
        Phase::AwaitReport => e is Reported,
        Phase::Finished => false,
    }
}

/// Taking event `e` moves the run from `old` to `new` and asks for `a`.
pub open spec fn steps_to(old: RunView, e: Event, new: RunView, a: Action) -> bool {
    &&& new.same_run(old)
    &&& match e {
        Event::ConfigFailed(msg) => new.phase == Phase::Finished && new.pos == old.pos
            && new.had_validation_errors == old.had_validation_errors && fails_with(a, msg@),
        Event::CheckFailed(msg) => new.phase == Phase::Finished && new.pos == old.pos
            && new.had_validation_errors == old.had_validation_errors && fails_with(a, msg@),
        Event::ConfigLoaded => new.pos == old.pos && new.had_validation_errors
            == old.had_validation_errors && after_config(old, new.phase, a),
        Event::Checked(fs) => {
            &&& new.pos == old.pos
            &&& new.phase == Phase::AwaitReport
            &&& if old.format == OutputFormat::Errors {
                &&& new.had_validation_errors == (old.had_validation_errors || exists|i: int|
                    0 <= i < fs@.len() && (#[trigger] fs@[i]).is_error)
                &&& a == Action::ReportErrors { package: old.order[old.pos] }
            } else {
                &&& new.had_validation_errors == old.had_validation_errors
                &&& a matches Action::ReportTable { lines }
                &&& is_markdown_table(texts(lines@), old.package().name@, old.workspace_mode, fs@)
            }
        },
        Event::Reported => new.had_validation_errors == old.had_validation_errors && new.pos
            == old.pos + 1 && opens_next(new, a),
    }
}

/// A procedural-macro package is never documented: once its configuration
/// is loaded, the run skips it with a note or ends on it with a failure.
pub proof fn law_proc_macro_never_checked(old: RunView, new: RunView, a: Action)
    requires
        steps_to(old, Event::ConfigLoaded, new, a),
        is_proc_macro(old.package()),
    ensures
        !(a is Check),
        run_features(old) is Ok && old.skip_unsupported ==> (a matches Action::ReportSkip { message }
            && message@ == skip_message(old.package().name@, SkipReason::ProcMacro)),
        run_features(old) is Ok && !old.skip_unsupported ==> fails_with(
            a,
            unsupported_message(old.package().name@, SkipReason::ProcMacro),
        ),
{
}

/// A package is documented only under the name of its one library target,
/// and only when it is no procedural macro.
pub proof fn law_checked_under_its_library_name(old: RunView, new: RunView, a: Action)
    requires
        steps_to(old, Event::ConfigLoaded, new, a),
        a is Check,
    ensures
        a matches Action::Check { package, lib_name: l, features } && package == old.order[old.pos]
            && !is_proc_macro(old.package()) && lib_name(old.package()) == Some(l@)
            && run_features(old) == Ok::<Seq<Seq<char>>, Seq<char>>(texts(features@)),
{
}

/// With `--skip-unsupported`, a package that cannot be checked does not end
/// the run: it is reported as skipped and the run waits to go on.
pub proof fn law_skipping_keeps_the_run_going(old: RunView, new: RunView, a: Action)
    requires
        steps_to(old, Event::ConfigLoaded, new, a),
        old.skip_unsupported,
        unsupported_reason(old.package()) is Some,
        run_features(old) is Ok,
    ensures
        new.phase == Phase::AwaitReport,
        a is ReportSkip,
        new.had_validation_errors == old.had_validation_errors,
{
}

/// A run that reports in Markdown never ends with validation errors: the
/// table is the report, and the run succeeds unless it fails.
pub proof fn law_tables_never_end_in_validation_errors(v: RunView, a: Action)
    requires
        v.wf(),
        v.format == OutputFormat::MarkdownTable,
        opens_next(v, a),
    ensures
        a != Action::Exit(Outcome::ValidationErrors),
{
}

/// In state `v`, event `e` reports a checked package with an error finding
/// while the run reports errors (not a table).
pub open spec fn reports_error(v: RunView, e: Event) -> bool {
    &&& v.format == OutputFormat::Errors
    &&& e matches Event::Checked(fs)
    &&& exists|j: int| 0 <= j < fs@.len() && (#[trigger] fs@[j]).is_error
}

/// The error flag is never cleared, and is raised only by a package with an
/// error finding in the errors format; such a package always raises it.
pub proof fn law_error_flag_is_sticky(old: RunView, e: Event, new: RunView, a: Action)
    requires
        steps_to(old, e, new, a),
    ensures
        old.had_validation_errors ==> new.had_validation_errors,
        new.had_validation_errors ==> old.had_validation_errors || reports_error(old, e),
        reports_error(old, e) ==> new.had_validation_errors,
{
}

/// Over a whole run, from its start: the error flag is set exactly when some
/// package so far was checked with an error finding in the errors format.
pub proof fn law_error_flag_over_a_run(states: Seq<RunView>, events: Seq<Event>, actions: Seq<Action>)
    requires
        states.len() == events.len() + 1,
        actions.len() == events.len(),
        !states[0].had_validation_errors,
        forall|i: int| 0 <= i < events.len() ==> steps_to(#[trigger] states[i], events[i], states[i + 1], actions[i]),
    ensures
        states.last().had_validation_errors <==> exists|i: int| 0 <= i < events.len() && reports_error(#[trigger] states[i], events[i]),
    decreases events.len(),
{
    let n = events.len() as int;
    if n > 0 {
        let s1 = states.drop_last();
        let e1 = events.drop_last();
        let a1 = actions.drop_last();
        assert forall|i: int| 0 <= i < e1.len() implies steps_to(#[trigger] s1[i], e1[i], s1[i + 1], a1[i]) by {
            assert(steps_to(states[i], events[i], states[i + 1], actions[i]));
        }
        law_error_flag_over_a_run(s1, e1, a1);
        assert(steps_to(states[n - 1], events[n - 1], states[n], actions[n - 1]));
        law_error_flag_is_sticky(states[n - 1], events[n - 1], states[n], actions[n - 1]);
        if exists|i: int| 0 <= i < n && reports_error(#[trigger] states[i], events[i]) {
            let i = choose|i: int| 0 <= i < n && reports_error(#[trigger] states[i], events[i]);
            if i < n - 1 {
                assert(reports_error(s1[i], e1[i]));
            }
        }
        if exists|i: int| 0 <= i < e1.len() && reports_error(#[trigger] s1[i], e1[i]) {
            let i = choose|i: int| 0 <= i < e1.len() && reports_error(#[trigger] s1[i], e1[i]);
            assert(reports_error(states[i], events[i]));
        }
    }
}

/// Past its last package a run ends in validation errors exactly when its
/// error flag is set, and succeeds otherwise.
pub proof fn law_run_end_follows_error_flag(v: RunView, a: Action)
    requires
        opens_next(v, a),
        v.pos >= v.order.len(),
    ensures
        v.had_validation_errors ==> a == Action::Exit(Outcome::ValidationErrors),
        !v.had_validation_errors ==> a == Action::Exit(Outcome::Success),
{
}

/// Without `--features`, a package is documented with the features of the
/// resolve node whose id is that package's id (the first such node); with
/// `--features`, with exactly the listed features.
pub proof fn law_checked_with_own_features(old: RunView, new: RunView, a: Action)
    requires
        old.wf(),
        old.phase == Phase::AwaitConfig,
        steps_to(old, Event::ConfigLoaded, new, a),
        a is Check,
    ensures
        a matches Action::Check { package, features, .. } && {
            &&& old.features matches Some(fs) ==> texts(features@) == fs
            &&& old.features is None ==> (old.metadata.resolve matches Some(nodes) && exists|i: int|
                0 <= i < nodes@.len() && (#[trigger] nodes@[i]).id@ == old.metadata.packages@[package as int].id@
                    && (forall|j: int| 0 <= j < i ==> (#[trigger] nodes@[j]).id@ != nodes@[i].id@)
                    && texts(features@) == texts(nodes@[i].features@))
        },
{
    if old.features is None {
        let p = old.package();
        match old.metadata.resolve {
            Some(nodes) => {
                if exists|i: int| is_first_node(nodes@, p.id@, i) {
                    let i = choose|i: int| is_first_node(nodes@, p.id@, i);
                    assert(nodes@[i].id@ == p.id@);
                }
            },
            None => {},
        }
    }
}

/// `v` and `a` are how a run with options `args` over metadata `m` starts.
pub open spec fn starts_run(args: CheckExternalTypesArgs, m: Metadata, v: RunView, a: Action) -> bool {
    &&& v.metadata == m
    &&& v.features == match args.features {
        Some(fs) => Some(texts(fs@)),
        None => None::<Seq<Seq<char>>>,
    }
    &&& v.config == match args.config {
        Some(c) => Some(c@),
        None => None::<Seq<char>>,
    }
    &&& v.format == args.output_format
    &&& v.skip_unsupported == args.skip_unsupported
    &&& v.workspace_mode == is_workspace_mode(m)
    &&& v.pos == 0
    &&& !v.had_validation_errors
    &&& if is_workspace_mode(m) && args.features is Some {
        v.phase == Phase::Finished && fails_with(a, workspace_features_message())
    } else {
        &&& is_workspace_mode(m) ==> is_members_by_name(m, v.order)
        &&& !is_workspace_mode(m) ==> v.order == seq![m.root->0]
        &&& opens_next(v, a)
    }
}

/// When the manifest has a root package, the run is no workspace run: it
/// checks that package alone, announces nothing and loads its configuration
/// first, whatever workspace members there are and whatever features are
/// listed.
pub proof fn law_root_package_is_checked_alone(args: CheckExternalTypesArgs, m: Metadata, v: RunView, a: Action)
    requires
        starts_run(args, m, v, a),
        m.root is Some,
    ensures
        !v.workspace_mode,
        v.order == seq![m.root->0],
        a matches Action::LoadConfig { package, announce, .. } && package == m.root->0 && announce is None,
{
}

/// Without a root package the run covers the workspace: it refuses listed
/// features, and otherwise goes through the members.
pub proof fn law_no_root_means_workspace(args: CheckExternalTypesArgs, m: Metadata, v: RunView, a: Action)
    requires
        starts_run(args, m, v, a),
        m.root is None,
    ensures
        v.workspace_mode,
        args.features is Some ==> fails_with(a, workspace_features_message()),
        args.features is None ==> v.order.len() == m.members@.len(),
{
    if args.features is None {
        crate::workspace::law_members_by_name_sorted(m, v.order);
    }
}

/// A run of the tool over the packages of a manifest.
pub struct Run {
    metadata: Metadata,
    features: Option<Vec<String>>,
    config: Option<String>,
    format: OutputFormat,
    skip_unsupported: bool,
    workspace_mode: bool,
    order: Vec<usize>,
    pos: usize,
    phase: Phase,
    had_validation_errors: bool,
}

impl View for Run {
    type V = RunView;

    closed spec fn view(&self) -> RunView {
        RunView {
            metadata: self.metadata,
            features: match self.features {
                Some(fs) => Some(texts(fs@)),
                None => None,
            },
            config: match self.config {
                Some(c) => Some(c@),
                None => None,
            },
            format: self.format,
            skip_unsupported: self.skip_unsupported,
            workspace_mode: self.workspace_mode,
            order: self.order@,
            pos: self.pos as int,
            phase: self.phase,
            had_validation_errors: self.had_validation_errors,
        }
    }
}

impl Run {
    /// Starts a run. A workspace run checks every member in order of name,
    /// a package run checks the root package; listing features is refused
    /// for a workspace. Returns the run and its first action.
    pub fn start(args: &CheckExternalTypesArgs, metadata: Metadata) -> (r: (Run, Action))
        requires
            metadata.wf(),
        ensures
            r.0@.wf(),
            starts_run(*args, metadata, r.0@, r.1),
    {
        let features = match &args.features {
            Some(fs) => {
                let x = fs.clone();
                assert(texts(x@) =~= texts(fs@));
                Some(x)
            },
            None => None,
        };
        let config = match &args.config {
            Some(c) => Some(c.clone()),
            None => None,
        };
        let workspace_mode = metadata.root.is_none();
        if workspace_mode && args.features.is_some() {
            let run = Run {
                metadata,
                features,
                config,
                format: args.output_format,
                skip_unsupported: args.skip_unsupported,
                workspace_mode,
                order: Vec::new(),
                pos: 0,
                phase: Phase::Finished,
                had_validation_errors: false,
            };
            let msg = String::from_str(
                "--features is not supported for workspace targets. Use --all-features instead, or run on individual packages.",
            );
            return (run, Action::Exit(Outcome::Failure(msg)));
        }
        let order = match metadata.root {
            Some(root) => {
                let mut v: Vec<usize> = Vec::new();
                v.push(root);
                assert(v@ =~= seq![root]);
                v
            },
            None => members_by_name(&metadata),
        };
        proof {
            if workspace_mode {
                crate::workspace::law_members_by_name_sorted(metadata, order@);
                assert forall|i: int| 0 <= i < order@.len() implies #[trigger] order@[i] < metadata.packages@.len() by {
                    let perm = choose|perm: Seq<int>|
                        #[trigger] crate::workspace::is_name_order(metadata, perm) && order@.len() == perm.len()
                            && forall|i: int| 0 <= i < order@.len() ==> #[trigger] order@[i] == metadata.members@[perm[i]];
                    assert(order@[i] == metadata.members@[perm[i]]);
                }
            }
        }
        let mut run = Run {
            metadata,
            features,
            config,
            format: args.output_format,
            skip_unsupported: args.skip_unsupported,
            workspace_mode,
            order,
            pos: 0,
            phase: Phase::AwaitConfig,
            had_validation_errors: false,
        };
        let a = run.open_next();
        (run, a)
    }

    /// Moves to the current position: asks for the package's configuration,
    /// or ends the run past the last package.
    fn open_next(&mut self) -> (a: Action)
        requires
            old(self)@.metadata.wf(),
            forall|i: int| 0 <= i < old(self)@.order.len() ==> #[trigger] old(self)@.order[i] < old(self)@.metadata.packages@.len(),
            old(self)@.pos <= old(self)@.order.len(),
            old(self)@.format == OutputFormat::MarkdownTable ==> !old(self)@.had_validation_errors,
        ensures
            final(self)@.wf(),
            final(self)@.same_run(old(self)@),
            final(self)@.pos == old(self)@.pos,
            final(self)@.had_validation_errors == old(self)@.had_validation_errors,
            opens_next(final(self)@, a),
    {
        if self.pos < self.order.len() {
            self.phase = Phase::AwaitConfig;
            let index = self.order[self.pos];
            let p = &self.metadata.packages[index];
            let announce = if self.workspace_mode {
                let mut t = String::from_str("Checking package: ");
                t.append(p.name.as_str());
                t.append("...");
                Some(t)
            } else {
                None
            };
            let source = config_source(&self.config, p);
            Action::LoadConfig { package: index, announce, source }
        } else {
            self.phase = Phase::Finished;
            if self.had_validation_errors {
                Action::Exit(Outcome::ValidationErrors)
            } else {
                Action::Exit(Outcome::Success)
            }
        }
    }

    /// Whether the run can take this event now.
    pub fn accepts(&self, e: &Event) -> (r: bool)
        ensures
            r == accepts_event(self@, *e),
    {
        match self.phase {
            Phase::AwaitConfig => match e {
                Event::ConfigLoaded => true,
                Event::ConfigFailed(_) => true,
                _ => false,
            },
            Phase::AwaitCheck => match e {
                Event::CheckFailed(_) => true,
                Event::Checked(fs) => match self.format {
                    OutputFormat::MarkdownTable => locations_known(fs),
                    OutputFormat::Errors => true,
                },
                _ => false,
            },
            Phase::AwaitReport => match e {
                Event::Reported => true,
                _ => false,
            },
            Phase::Finished => false,
        }
    }

    /// Takes the caller's report of the last action and decides the next.
    pub fn step(&mut self, e: Event) -> (a: Action)
        requires
            old(self)@.wf(),
            accepts_event(old(self)@, e),
        ensures
            final(self)@.wf(),
            steps_to(old(self)@, e, final(self)@, a),
    {
        match e {
            Event::ConfigFailed(msg) => {
                self.phase = Phase::Finished;
                Action::Exit(Outcome::Failure(msg))
            },
            Event::CheckFailed(msg) => {
                self.phase = Phase::Finished;
                Action::Exit(Outcome::Failure(msg))
            },
            Event::ConfigLoaded => self.after_config(),
            Event::Checked(fs) => {
                let index = self.order[self.pos];
                self.phase = Phase::AwaitReport;
                match self.format {
                    OutputFormat::Errors => {
                        if has_errors(&fs) {
                            self.had_validation_errors = true;
                        }
                        Action::ReportErrors { package: index }
                    },
                    OutputFormat::MarkdownTable => {
                        let lines = markdown_table(
                            self.metadata.packages[index].name.as_str(),
                            self.workspace_mode,
                            &fs,
                        );
                        Action::ReportTable { lines }
                    },
                }
            },
            Event::Reported => {
                let n = self.order.len();
                assert(self.pos < n);
                self.pos = self.pos + 1;
                self.open_next()
            },
        }
    }

    fn after_config(&mut self) -> (a: Action)
        requires
            old(self)@.wf(),
            old(self)@.phase == Phase::AwaitConfig,
        ensures
            final(self)@.wf(),
            final(self)@.same_run(old(self)@),
            final(self)@.pos == old(self)@.pos,
            final(self)@.had_validation_errors == old(self)@.had_validation_errors,
            after_config(old(self)@, final(self)@.phase, a),
    {
        let index = self.order[self.pos];
        let features = match &self.features {
            Some(fs) => {
                let x = fs.clone();
                assert(texts(x@) =~= texts(fs@));
                x
            },
            None => match resolve_features_for_package(&self.metadata, &self.metadata.packages[index]) {
                Ok(fs) => fs,
                Err(msg) => {
                    self.phase = Phase::Finished;
                    return Action::Exit(Outcome::Failure(msg));
                },
            },
        };
        let p = &self.metadata.packages[index];
        match check_package(p) {
            CheckPlan::Check(name) => {
                self.phase = Phase::AwaitCheck;
                Action::Check { package: index, lib_name: name, features }
            },
            CheckPlan::Skip(reason) => {
                let reason_text = reason.text();
                if self.skip_unsupported {
                    self.phase = Phase::AwaitReport;
                    let mut message = String::from_str("Skipping ");
                    message.append(p.name.as_str());
                    message.append(": ");
                    message.append(reason_text.as_str());
                    Action::ReportSkip { message }
                } else {
                    self.phase = Phase::Finished;
                    let mut message = String::from_str("Package '");
                    message.append(p.name.as_str());
                    message.append("' is not supported: ");
                    message.append(reason_text.as_str());
                    message.append(". Use --skip-unsupported to skip.");
                    Action::Exit(Outcome::Failure(message))
                }
            },
        }
    }
}

} // verus!
