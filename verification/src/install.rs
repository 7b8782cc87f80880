//! The installation orchestrator, as an explicit transaction: a state machine
//! from events to filesystem actions.
//!
//! The machine decides; its driver performs.  Each `step` consumes the outcome
//! of the previous action and says what to do next, and its contract pins the
//! whole decision to the transition function `spec_step`: the next phase and
//! the returned step are its value at the old state and the event, for every
//! state and event.  The ghost history of emitted actions carries the two
//! safety laws besides: until the one promoting rename has been issued nothing
//! ever writes at or under the final installation path, so an interrupted
//! installation leaves the target wholly absent (`lemma_staging_atomicity`);
//! and rejecting an already-installed package emits no mutating action at all,
//! so a repeated installation leaves the filesystem exactly as it was.

use vstd::prelude::*;
use vstd::string::*;

use crate::config::Config;
use crate::manifest::{
    manifest_json, manifest_of, package_metadata_for_requested_package, read_installed_manifest,
    sanitize_x, sanitized, spec_binaries, InstalledPackage, InstalledPackageView, PackageRootView,
};
use crate::shim::{parent_dir, script_text, Binary, BinaryView};
use crate::storage::{b64_of, json_of, Metadata, MetadataV1, MetadataView};
use crate::text::{
    find_char, find_char_x, lemma_find_char, lemma_join_within, lemma_within_common, path_join,
    path_join_x, rfind_char, rfind_char_x, trim_x, trimmed, within, within_x,
};
use crate::version::NodePackageVersion;

verus! {

/// What can go wrong during an installation.
#[derive(Debug, PartialEq, Eq)]
pub enum Errors {
    /// A filesystem or process failure, with a short description.
    IoError(String),
    /// The installed package's own manifest could not be understood.
    MetadataParseError(String),
    /// An installation directory for this package already exists.
    PackageAlreadyInstalled(String),
    /// The package-manager client exited unsuccessfully.
    InstallationFailed,
}

/// The mathematical content of an installation error.
pub ghost enum ErrorView {
    IoError(Seq<char>),
    MetadataParseError(Seq<char>),
    PackageAlreadyInstalled(Seq<char>),
    InstallationFailed,
}

impl View for Errors {
    type V = ErrorView;

    open spec fn view(&self) -> ErrorView {
        match self {
            Errors::IoError(s) => ErrorView::IoError(s@),
            Errors::MetadataParseError(s) => ErrorView::MetadataParseError(s@),
            Errors::PackageAlreadyInstalled(s) => ErrorView::PackageAlreadyInstalled(s@),
            Errors::InstallationFailed => ErrorView::InstallationFailed,
        }
    }
}

/// The first line of a command's output, trimmed.
pub open spec fn spec_first_line_trimmed(s: Seq<char>) -> Seq<char> {
    match find_char(s, '\n', 0) {
        Some(k) => trimmed(s.subrange(0, k)),
        None => trimmed(s),
    }
}

/// Takes the first line of a command's output, trimmed: how the runtime
/// version query and the runtime locator read their collaborators' output.
pub fn first_line_trimmed(s: &str) -> (r: String)
    ensures
        r@ == spec_first_line_trimmed(s@),
{
    let len = s.unicode_len();
    let line = match find_char_x(s, '\n', 0) {
        Some(k) => {
            proof {
                lemma_find_char(s@, '\n', 0);
            }
            s.substring_char(0, k)
        },
        None => {
            proof {
                assert(s@.subrange(0, len as int) =~= s@);
            }
            s.substring_char(0, len)
        },
    };
    trim_x(line).to_owned()
}

/// One filesystem or process action for the driver to perform.  Paths are
/// plain strings; the driver owes each action exactly what its description
/// says, and hands the outcome back as the matching event.
pub enum Action {
    /// Ask the runtime for its version; answer with its raw standard output.
    QueryRuntimeVersion,
    /// Resolve the runtime binary: run the platform lookup, take the first
    /// line of its output trimmed (see `first_line_trimmed`), canonicalize it
    /// to an absolute, symlink-free path, and answer with that path.
    LocateRuntime,
    /// Answer whether this path exists.
    CheckInstalled { path: String },
    /// Create a fresh directory with a unique temporary name directly inside
    /// `parent` and answer with its path.  The name must be newly made up (as
    /// a temporary-directory library guarantees), so it never lands on an
    /// installation directory's path.
    CreateStage { parent: String },
    /// Write a file with these exact bytes, creating or truncating it.
    WriteFile { path: String, contents: Vec<u8> },
    /// Run the package-manager client's install command with `dir` as its
    /// working directory, streams inherited; the client works beneath that
    /// directory.  Answer with its exit outcome.
    RunClient { dir: String },
    /// Read a file; answer with its text if it could be read.
    ReadFile { path: String },
    /// Rename `from` to `to` in one atomic filesystem operation, failing if
    /// `to` exists.
    Promote { from: String, to: String },
    /// Write an executable launcher script with these exact contents, then
    /// mark it executable where the platform has a permission model.
    CreateShim { path: String, contents: String },
    /// Remove this abandoned staging directory and everything beneath it.
    RemoveStage { path: String },
}

/// The outcome of an action, handed back to the machine.
pub enum Event {
    RuntimeVersion { stdout: Option<String> },
    RuntimeLocation { path: Option<String> },
    Installed { exists: bool },
    StageCreated { path: Option<String> },
    FileWritten { ok: bool },
    /// `None`: the client could not be run at all; `Some(success)` otherwise.
    ClientExited { outcome: Option<bool> },
    FileRead { contents: Option<String> },
    Promoted { ok: bool },
    ShimCreated { ok: bool },
    StageRemoved,
}

/// What the machine asks for next: another action, or the final outcome.
pub enum Step {
    Do(Action),
    Done(Result<(), Errors>),
}

/// The mathematical content of an action.
pub ghost enum ActionView {
    QueryRuntimeVersion,
    LocateRuntime,
    CheckInstalled { path: Seq<char> },
    CreateStage { parent: Seq<char> },
    WriteFile { path: Seq<char>, contents: Seq<u8> },
    RunClient { dir: Seq<char> },
    ReadFile { path: Seq<char> },
    Promote { from: Seq<char>, to: Seq<char> },
    CreateShim { path: Seq<char>, contents: Seq<char> },
    RemoveStage { path: Seq<char> },
}

impl View for Action {
    type V = ActionView;

    open spec fn view(&self) -> ActionView {
        match self {
            Action::QueryRuntimeVersion => ActionView::QueryRuntimeVersion,
            Action::LocateRuntime => ActionView::LocateRuntime,
            Action::CheckInstalled { path } => ActionView::CheckInstalled { path: path@ },
            Action::CreateStage { parent } => ActionView::CreateStage { parent: parent@ },
            Action::WriteFile { path, contents } => ActionView::WriteFile {
                path: path@,
                contents: contents@,
            },
            Action::RunClient { dir } => ActionView::RunClient { dir: dir@ },
            Action::ReadFile { path } => ActionView::ReadFile { path: path@ },
            Action::Promote { from, to } => ActionView::Promote { from: from@, to: to@ },
            Action::CreateShim { path, contents } => ActionView::CreateShim {
                path: path@,
                contents: contents@,
            },
            Action::RemoveStage { path } => ActionView::RemoveStage { path: path@ },
        }
    }
}

/// The mathematical content of an event.
pub ghost enum EventView {
    RuntimeVersion { stdout: Option<Seq<char>> },
    RuntimeLocation { path: Option<Seq<char>> },
    Installed { exists: bool },
    StageCreated { path: Option<Seq<char>> },
    FileWritten { ok: bool },
    ClientExited { outcome: Option<bool> },
    FileRead { contents: Option<Seq<char>> },
    Promoted { ok: bool },
    ShimCreated { ok: bool },
    StageRemoved,
}

/// The view of an optional string.
pub open spec fn opt_view(s: Option<String>) -> Option<Seq<char>> {
    match s {
        Some(x) => Some(x@),
        None => None,
    }
}

impl View for Event {
    type V = EventView;

    open spec fn view(&self) -> EventView {
        match self {
            Event::RuntimeVersion { stdout } => EventView::RuntimeVersion {
                stdout: opt_view(*stdout),
            },
            Event::RuntimeLocation { path } => EventView::RuntimeLocation { path: opt_view(*path) },
            Event::Installed { exists } => EventView::Installed { exists: *exists },
            Event::StageCreated { path } => EventView::StageCreated { path: opt_view(*path) },
            Event::FileWritten { ok } => EventView::FileWritten { ok: *ok },
            Event::ClientExited { outcome } => EventView::ClientExited { outcome: *outcome },
            Event::FileRead { contents } => EventView::FileRead { contents: opt_view(*contents) },
            Event::Promoted { ok } => EventView::Promoted { ok: *ok },
            Event::ShimCreated { ok } => EventView::ShimCreated { ok: *ok },
            Event::StageRemoved => EventView::StageRemoved,
        }
    }
}

/// The mathematical content of a step.
pub ghost enum StepView {
    Do(ActionView),
    Done(Result<(), ErrorView>),
}

impl View for Step {
    type V = StepView;

    open spec fn view(&self) -> StepView {
        match self {
            Step::Do(a) => StepView::Do(a@),
            Step::Done(res) => StepView::Done(
                match res {
                    Ok(_) => Ok(()),
                    Err(e) => Err(e@),
                },
            ),
        }
    }
}

/// Whether an action changes the filesystem at all.
pub open spec fn is_mutating(a: Action) -> bool {
    match a {
        Action::QueryRuntimeVersion => false,
        Action::LocateRuntime => false,
        Action::CheckInstalled { .. } => false,
        Action::ReadFile { .. } => false,
        Action::CreateStage { .. } => true,
        Action::WriteFile { .. } => true,
        Action::RunClient { .. } => true,
        Action::Promote { .. } => true,
        Action::CreateShim { .. } => true,
        Action::RemoveStage { .. } => true,
    }
}

/// Whether an action can write at or under `root`.  A stage creation stays
/// clear of any tree its parent does not lie in, because its fresh name is
/// newly made up; the client and a recursive removal work beneath their
/// directory, so they reach `root` also when `root` lies beneath them.
pub open spec fn touches(a: Action, root: Seq<char>) -> bool {
    match a {
        Action::QueryRuntimeVersion => false,
        Action::LocateRuntime => false,
        Action::CheckInstalled { .. } => false,
        Action::ReadFile { .. } => false,
        Action::CreateStage { parent } => within(parent@, root),
        Action::WriteFile { path, .. } => within(path@, root),
        Action::RunClient { dir } => within(dir@, root) || within(root, dir@),
        Action::Promote { from, to } => within(from@, root) || within(to@, root) || within(
            root,
            from@,
        ) || within(root, to@),
        Action::CreateShim { path, .. } => within(path@, root),
        Action::RemoveStage { path } => within(path@, root) || within(root, path@),
    }
}

/// Whether the promoting rename has been issued.
pub open spec fn promoted(h: Seq<Action>) -> bool {
    exists|i: int| 0 <= i < h.len() && h[i] is Promote
}

/// A history stays promoted as it grows, and promoting promotes.
proof fn lemma_promoted_push(h: Seq<Action>, a: Action)
    ensures
        promoted(h) ==> promoted(h.push(a)),
        a is Promote ==> promoted(h.push(a)),
        (!promoted(h) && !(a is Promote)) ==> !promoted(h.push(a)),
{
    if promoted(h) {
        let i = choose|i: int| 0 <= i < h.len() && h[i] is Promote;
        assert(h.push(a)[i] is Promote);
    }
    if a is Promote {
        assert(h.push(a)[h.len() as int] is Promote);
    }
    if !promoted(h) && !(a is Promote) {
        assert forall|i: int| 0 <= i < h.push(a).len() implies !(#[trigger] h.push(a)[i]
            is Promote) by {
            if i < h.len() {
                assert(h.push(a)[i] == h[i]);
            } else {
                assert(h.push(a)[i] == a);
            }
        }
    }
}

/// A history that stays clear of `root` stays clear when a clear action joins.
proof fn lemma_clear_push(h: Seq<Action>, a: Action, root: Seq<char>)
    requires
        forall|i: int| 0 <= i < h.len() ==> !touches(#[trigger] h[i], root),
        !touches(a, root),
    ensures
        forall|i: int| 0 <= i < h.push(a).len() ==> !touches(#[trigger] h.push(a)[i], root),
{
    assert forall|i: int| 0 <= i < h.push(a).len() implies !touches(#[trigger] h.push(a)[i], root)
        by {
        if i < h.len() {
            assert(h.push(a)[i] == h[i]);
        } else {
            assert(h.push(a)[i] == a);
        }
    }
}

/// Where the machine stands between events.
enum Phase {
    QueryVersion,
    LocateRuntime { node_version: String },
    CheckTarget { node_version: String, node_path: String },
    MakeStage { node_version: String, node_path: String },
    WriteManifest { node_version: String, node_path: String, stage: String },
    RunningClient { node_version: String, node_path: String, stage: String },
    ReadManifest { node_version: String, node_path: String, stage: String },
    Promoting { shims: Vec<Binary>, stage: String },
    MakeShims { shims: Vec<Binary>, next: usize },
    Cleanup { stage: String, err: Errors },
    Finished,
}

/// The mathematical content of a phase: where the machine stands, with every
/// value it carries as a plain mathematical value.
pub ghost enum PhaseView {
    QueryVersion,
    LocateRuntime { node_version: Seq<char> },
    CheckTarget { node_version: Seq<char>, node_path: Seq<char> },
    MakeStage { node_version: Seq<char>, node_path: Seq<char> },
    WriteManifest { node_version: Seq<char>, node_path: Seq<char>, stage: Seq<char> },
    RunningClient { node_version: Seq<char>, node_path: Seq<char>, stage: Seq<char> },
    ReadManifest { node_version: Seq<char>, node_path: Seq<char>, stage: Seq<char> },
    Promoting { shims: Seq<BinaryView>, stage: Seq<char> },
    MakeShims { shims: Seq<BinaryView>, next: int },
    Cleanup { stage: Seq<char>, err: ErrorView },
    Finished,
}

/// The views of a sequence of shim requests.
pub open spec fn bins_view(s: Seq<Binary>) -> Seq<BinaryView> {
    s.map_values(|b: Binary| b@)
}

/// The mathematical content of one installation in progress: the request's
/// parts, the derived paths, and the machine's phase.
pub ghost struct FlowView {
    pub request_name: Seq<char>,
    pub requested_version: Seq<char>,
    pub installations_dir: Seq<char>,
    pub bin_dir: Seq<char>,
    pub target: Seq<char>,
    pub phase: PhaseView,
}

/// One installation in progress.
pub struct InstallFlow {
    request: NodePackageVersion,
    installations_dir: String,
    bin_dir: String,
    target: String,
    phase: Phase,
    history: Ghost<Seq<Action>>,
}

/// The mathematical content of a phase.
spec fn phase_view(p: Phase) -> PhaseView {
    match p {
        Phase::QueryVersion => PhaseView::QueryVersion,
        Phase::LocateRuntime { node_version } => PhaseView::LocateRuntime {
            node_version: node_version@,
        },
        Phase::CheckTarget { node_version, node_path } => PhaseView::CheckTarget {
            node_version: node_version@,
            node_path: node_path@,
        },
        Phase::MakeStage { node_version, node_path } => PhaseView::MakeStage {
            node_version: node_version@,
            node_path: node_path@,
        },
        Phase::WriteManifest { node_version, node_path, stage } => PhaseView::WriteManifest {
            node_version: node_version@,
            node_path: node_path@,
            stage: stage@,
        },
        Phase::RunningClient { node_version, node_path, stage } => PhaseView::RunningClient {
            node_version: node_version@,
            node_path: node_path@,
            stage: stage@,
        },
        Phase::ReadManifest { node_version, node_path, stage } => PhaseView::ReadManifest {
            node_version: node_version@,
            node_path: node_path@,
            stage: stage@,
        },
        Phase::Promoting { shims, stage } => PhaseView::Promoting {
            shims: bins_view(shims@),
            stage: stage@,
        },
        Phase::MakeShims { shims, next } => PhaseView::MakeShims {
            shims: bins_view(shims@),
            next: next as int,
        },
        Phase::Cleanup { stage, err } => PhaseView::Cleanup { stage: stage@, err: err@ },
        Phase::Finished => PhaseView::Finished,
    }
}

impl View for InstallFlow {
    type V = FlowView;

    closed spec fn view(&self) -> FlowView {
        FlowView {
            request_name: self.request@.name,
            requested_version: (match self.request@.version {
                Some(v) => v,
                None => "latest"@,
            }),
            installations_dir: self.installations_dir@,
            bin_dir: self.bin_dir@,
            target: self.target@,
            phase: phase_view(self.phase),
        }
    }
}

impl InstallFlow {
    /// Every action the machine has asked for so far, oldest first.
    pub closed spec fn history(&self) -> Seq<Action> {
        self.history@
    }

    /// The final installation path this run would create.
    pub open spec fn target_view(&self) -> Seq<char> {
        self@.target
    }

    /// The shared bin directory this run publishes shims into.
    pub open spec fn bin_dir_view(&self) -> Seq<char> {
        self@.bin_dir
    }

    /// The requested package's name.
    pub open spec fn request_name(&self) -> Seq<char> {
        self@.request_name
    }

    /// Whether the machine is waiting for the answer to the existence check.
    pub open spec fn awaiting_install_check(&self) -> bool {
        self@.phase is CheckTarget
    }

    /// The directory that holds one installation directory per package.
    pub open spec fn installations_dir_view(&self) -> Seq<char> {
        self@.installations_dir
    }

    /// The requested version, defaulting to `latest`.
    pub open spec fn requested_version(&self) -> Seq<char> {
        self@.requested_version
    }

    /// The runtime version noted so far, once the query has answered.
    pub open spec fn runtime_version(&self) -> Option<Seq<char>> {
        match self@.phase {
            PhaseView::LocateRuntime { node_version } => Some(node_version),
            PhaseView::CheckTarget { node_version, .. } => Some(node_version),
            PhaseView::MakeStage { node_version, .. } => Some(node_version),
            PhaseView::WriteManifest { node_version, .. } => Some(node_version),
            PhaseView::RunningClient { node_version, .. } => Some(node_version),
            PhaseView::ReadManifest { node_version, .. } => Some(node_version),
            _ => None,
        }
    }

    /// The live staging directory, while one exists.
    pub open spec fn current_stage(&self) -> Option<Seq<char>> {
        match self@.phase {
            PhaseView::WriteManifest { stage, .. } => Some(stage),
            PhaseView::RunningClient { stage, .. } => Some(stage),
            PhaseView::ReadManifest { stage, .. } => Some(stage),
            PhaseView::Promoting { stage, .. } => Some(stage),
            PhaseView::Cleanup { stage, .. } => Some(stage),
            _ => None,
        }
    }

    /// The planned shims stand for this request: each carries a record naming
    /// the requested package, its script path is its binary's name under the
    /// bin directory, and its runtime path has a directory part.
    pub closed spec fn shims_wf(&self, shims: Seq<Binary>) -> bool {
        forall|k: int|
            0 <= k < shims.len() ==> {
                &&& rfind_char((#[trigger] shims[k])@.node_binary_path, '/') is Some
                &&& shims[k]@.metadata.package_name == self.request@.name
                &&& shims[k]@.symlink_path == path_join(
                    self.bin_dir@,
                    shims[k]@.metadata.binary_name,
                )
            }
    }

    /// The machine's well-formedness: the target path is the derived one; no
    /// emitted action touches the target while nothing has been promoted; the
    /// phases before staging have a wholly non-mutating history; a live stage
    /// is disjoint from the target; shim phases come after promotion, and
    /// their runtime paths have a directory part.
    pub closed spec fn inv(&self) -> bool {
        &&& self.target@ == path_join(
            self.installations_dir@,
            sanitized(self.request@.name),
        )
        &&& (!promoted(self.history@) ==> forall|i: int|
            0 <= i < self.history@.len() ==> !touches(#[trigger] self.history@[i], self.target@))
        &&& match self.phase {
            Phase::QueryVersion | Phase::LocateRuntime { .. } | Phase::CheckTarget { .. } => forall|
                i: int,
            |
                0 <= i < self.history@.len() ==> !is_mutating(#[trigger] self.history@[i]),
            _ => true,
        }
        &&& match self.phase {
            Phase::WriteManifest { ref stage, .. } | Phase::RunningClient { ref stage, .. }
                | Phase::ReadManifest { ref stage, .. } | Phase::Promoting { ref stage, .. }
                | Phase::Cleanup { ref stage, .. } => !within(stage@, self.target@) && !within(
                self.target@,
                stage@,
            ),
            _ => true,
        }
        &&& match self.phase {
            Phase::CheckTarget { ref node_path, .. } | Phase::MakeStage { ref node_path, .. }
                | Phase::WriteManifest { ref node_path, .. } | Phase::RunningClient {
                ref node_path,
                ..
            } | Phase::ReadManifest { ref node_path, .. } => rfind_char(node_path@, '/') is Some,
            _ => true,
        }
        &&& match self.phase {
            Phase::Promoting { ref shims, .. } => self.shims_wf(shims@),
            Phase::MakeShims { ref shims, .. } => self.shims_wf(shims@),
            _ => true,
        }
        &&& match self.phase {
            Phase::Promoting { .. } | Phase::MakeShims { .. } => promoted(self.history@),
            _ => true,
        }
        &&& match self.phase {
            Phase::QueryVersion | Phase::LocateRuntime { .. } | Phase::CheckTarget { .. }
                | Phase::MakeStage { .. } | Phase::WriteManifest { .. } | Phase::RunningClient {
                ..
            } | Phase::ReadManifest { .. } => !promoted(self.history@),
            _ => true,
        }
    }

    /// Opens an installation: the machine's first request is the runtime
    /// version query, and nothing has been touched.
    pub fn begin(request: NodePackageVersion, config: &Config) -> (r: (InstallFlow, Action))
        ensures
            r.0.inv(),
            r.1 is QueryRuntimeVersion,
            r.0.history() == seq![Action::QueryRuntimeVersion],
            !promoted(r.0.history()),
            r.0@ == (FlowView {
                request_name: request@.name,
                requested_version: (match request@.version {
                    Some(v) => v,
                    None => "latest"@,
                }),
                installations_dir: path_join(config@, "installations"@),
                bin_dir: path_join(config@, "bin"@),
                target: path_join(path_join(config@, "installations"@), sanitized(request@.name)),
                phase: PhaseView::QueryVersion,
            }),
    {
        let ghost h0: Seq<Action> = seq![Action::QueryRuntimeVersion];
        let installations_dir = config.installations_dir();
        let bin_dir = config.bin_dir();
        let dir_name = sanitize_x(request.name());
        let target = path_join_x(installations_dir.as_str(), dir_name.as_str());
        let flow = InstallFlow {
            request,
            installations_dir,
            bin_dir,
            target,
            phase: Phase::QueryVersion,
            history: Ghost(h0),
        };
        proof {
            assert(!promoted(flow.history@));
            assert(forall|i: int|
                0 <= i < flow.history@.len() ==> flow.history@[i] == Action::QueryRuntimeVersion);
        }
        (flow, Action::QueryRuntimeVersion)
    }
}

/// A path inside a stage that is mutually clear of the target stays clear of
/// the target.
proof fn lemma_sub_path_clear(stage: Seq<char>, tgt: Seq<char>, p: Seq<char>)
    requires
        within(p, stage),
        !within(stage, tgt),
        !within(tgt, stage),
    ensures
        !within(p, tgt),
{
    if within(p, tgt) {
        lemma_within_common(p, stage, tgt);
    }
}

/// A directory does not lie within any of its own children.
proof fn lemma_parent_not_within_child(dir: Seq<char>, name: Seq<char>)
    ensures
        !within(dir, path_join(dir, name)),
{
    reveal_strlit("/");
    let t = path_join(dir, name);
    assert(t.len() == dir.len() + 1 + name.len());
}

/// The shim planned for one entry of the manifest's normalized mapping: its
/// record names the entry's binary, the requested package and the active
/// runtime version; its script path is the binary's name under the bin
/// directory; its launch target is the binary's link under the final
/// installation; and it launches through the given runtime.
pub open spec fn spec_shim(
    e: (Seq<char>, Seq<char>),
    pkg: Seq<char>,
    ver: Seq<char>,
    node: Seq<char>,
    inst: Seq<char>,
    bin: Seq<char>,
) -> BinaryView {
    BinaryView {
        metadata: (MetadataView { binary_name: e.0, package_name: pkg, node_version: ver }),
        symlink_path: path_join(bin, e.0),
        target_path: path_join(path_join(path_join(inst, "node_modules"@), ".bin"@), e.0),
        node_binary_path: node,
    }
}

/// The whole planned publication for an installed package: one shim per entry
/// of its manifest's normalized `bin` mapping, in mapping order.
pub open spec fn spec_shim_plan(
    p: InstalledPackageView,
    pkg: Seq<char>,
    ver: Seq<char>,
    node: Seq<char>,
    inst: Seq<char>,
    bin: Seq<char>,
) -> Seq<BinaryView> {
    spec_binaries(p).map_values(|e: (Seq<char>, Seq<char>)| spec_shim(e, pkg, ver, node, inst, bin))
}

/// The action that publishes one planned shim: its full script text, written
/// at its own path.
pub open spec fn spec_shim_action(b: BinaryView) -> ActionView {
    ActionView::CreateShim {
        path: b.symlink_path,
        contents: script_text(
            b64_of(json_of(b.metadata)),
            parent_dir(b.node_binary_path),
            b.target_path,
        ),
    }
}

/// How one generated shim relates to its binary entry and its surroundings:
/// exactly the planned shim of `spec_shim`, spelt field by field.
pub open spec fn shim_matches(
    b: BinaryView,
    n: Seq<char>,
    pkg: Seq<char>,
    ver: Seq<char>,
    node: Seq<char>,
    inst: Seq<char>,
    bin: Seq<char>,
) -> bool {
    &&& b.metadata == (MetadataView { binary_name: n, package_name: pkg, node_version: ver })
    &&& b.symlink_path == path_join(bin, n)
    &&& b.target_path == path_join(path_join(path_join(inst, "node_modules"@), ".bin"@), n)
    &&& b.node_binary_path == node
}

/// Plans one shim per discovered binary: for the k-th entry of the normalized
/// mapping, a shim for exactly that binary name, carrying the requested
/// package's name and the active runtime version, placed in the bin directory
/// and launching the binary's link under the final installation directory.
pub fn shim_plan(
    installed: InstalledPackage,
    package_name: &str,
    node_version: &str,
    node_path: &str,
    install_path: &str,
    bin_dir: &str,
) -> (r: Vec<Binary>)
    ensures
        r@.len() == spec_binaries(installed@).len(),
        bins_view(r@) == spec_shim_plan(
            installed@,
            package_name@,
            node_version@,
            node_path@,
            install_path@,
            bin_dir@,
        ),
        forall|k: int|
            0 <= k < r@.len() ==> shim_matches(
                (#[trigger] r@[k])@,
                spec_binaries(installed@)[k].0,
                package_name@,
                node_version@,
                node_path@,
                install_path@,
                bin_dir@,
            ),
        forall|k1: int, k2: int|
            0 <= k1 < k2 < r@.len() && spec_binaries(installed@)[k1].0 != spec_binaries(
                installed@,
            )[k2].0 ==> (#[trigger] r@[k1])@.symlink_path != (#[trigger] r@[k2])@.symlink_path,
{
    let ghost entries = spec_binaries(installed@);
    let bins = installed.binaries();
    let dot_bin = path_join_x(path_join_x(install_path, "node_modules").as_str(), ".bin");
    let mut out: Vec<Binary> = Vec::new();
    let mut k: usize = 0;
    while k < bins.len()
        invariant
            k <= bins@.len(),
            crate::manifest::pairs_view(bins@) == entries,
            dot_bin@ == path_join(path_join(install_path@, "node_modules"@), ".bin"@),
            out@.len() == k,
            forall|m: int|
                0 <= m < k ==> shim_matches(
                    (#[trigger] out@[m])@,
                    entries[m].0,
                    package_name@,
                    node_version@,
                    node_path@,
                    install_path@,
                    bin_dir@,
                ),
        decreases bins@.len() - k,
    {
        let name = bins[k].0.clone();
        let record = Metadata::V1(
            MetadataV1 {
                binary_name: name.clone(),
                package_name: package_name.to_owned(),
                node_version: node_version.to_owned(),
            },
        );
        let shim = Binary::new(
            record,
            path_join_x(bin_dir, name.as_str()),
            path_join_x(dot_bin.as_str(), name.as_str()),
            node_path.to_owned(),
        );
        proof {
            assert(entries[k as int].0 == bins@[k as int].0@);
        }
        out.push(shim);
        k += 1;
    }
    proof {
        assert forall|k1: int, k2: int|
            0 <= k1 < k2 < out@.len() && entries[k1].0 != entries[k2].0 implies (
        #[trigger] out@[k1])@.symlink_path != (#[trigger] out@[k2])@.symlink_path by {
            if out@[k1]@.symlink_path == out@[k2]@.symlink_path {
                crate::text::lemma_path_join_injective(bin_dir@, entries[k1].0, entries[k2].0);
            }
        }
        let plan = spec_shim_plan(
            installed@,
            package_name@,
            node_version@,
            node_path@,
            install_path@,
            bin_dir@,
        );
        assert(bins_view(out@) =~= plan) by {
            assert forall|m: int| 0 <= m < out@.len() implies bins_view(out@)[m] == plan[m] by {
                assert(bins_view(out@)[m] == out@[m]@);
                assert(plan[m] == spec_shim(
                    entries[m],
                    package_name@,
                    node_version@,
                    node_path@,
                    install_path@,
                    bin_dir@,
                ));
                assert(shim_matches(
                    out@[m]@,
                    entries[m].0,
                    package_name@,
                    node_version@,
                    node_path@,
                    install_path@,
                    bin_dir@,
                ));
            }
        }
    }
    out
}

/// The machine's whole transition relation, as a function: the next phase and
/// what the machine asks for, for every phase and event.  `step` follows this
/// exactly, so every decision of the installation algorithm is pinned: which
/// action follows which outcome, with which arguments; which failure maps to
/// which error of the taxonomy, and that every failure with a live stage first
/// orders that stage's removal; and that after a successful promotion exactly
/// the shims planned from the manifest that was read are published, in mapping
/// order.  The stage is opened inside the installations directory itself:
/// every promotion target lies in that directory too, which keeps the rename
/// on one volume, and nothing ever scans the installations directory, so a
/// leftover stage can collide with nothing.
pub open spec fn spec_step(v: FlowView, ev: EventView) -> (PhaseView, StepView) {
    match (v.phase, ev) {
        (PhaseView::QueryVersion, EventView::RuntimeVersion { stdout }) => match stdout {
            Some(out) => (
                PhaseView::LocateRuntime { node_version: spec_first_line_trimmed(out) },
                StepView::Do(ActionView::LocateRuntime),
            ),
            None => (
                PhaseView::Finished,
                StepView::Done(
                    Err(ErrorView::IoError("the runtime version query produced no output"@)),
                ),
            ),
        },
        (PhaseView::LocateRuntime { node_version }, EventView::RuntimeLocation { path }) => match path {
            Some(p) => if rfind_char(p, '/') is Some {
                (
                    PhaseView::CheckTarget { node_version, node_path: p },
                    StepView::Do(ActionView::CheckInstalled { path: v.target }),
                )
            } else {
                (
                    PhaseView::Finished,
                    StepView::Done(
                        Err(ErrorView::IoError("the runtime location is not an absolute path"@)),
                    ),
                )
            },
            None => (
                PhaseView::Finished,
                StepView::Done(
                    Err(ErrorView::IoError("the runtime binary could not be located"@)),
                ),
            ),
        },
        (PhaseView::CheckTarget { node_version, node_path }, EventView::Installed { exists }) => if exists {
            (
                PhaseView::Finished,
                StepView::Done(Err(ErrorView::PackageAlreadyInstalled(v.request_name))),
            )
        } else {
            (
                PhaseView::MakeStage { node_version, node_path },
                StepView::Do(ActionView::CreateStage { parent: v.installations_dir }),
            )
        },
        (PhaseView::MakeStage { node_version, node_path }, EventView::StageCreated { path }) => match path {
            Some(st) => if within(st, v.target) || within(v.target, st) {
                (
                    PhaseView::Finished,
                    StepView::Done(
                        Err(
                            ErrorView::IoError(
                                "the staging directory collides with the installation path"@,
                            ),
                        ),
                    ),
                )
            } else {
                (
                    PhaseView::WriteManifest { node_version, node_path, stage: st },
                    StepView::Do(
                        ActionView::WriteFile {
                            path: path_join(st, "package.json"@),
                            contents: manifest_json(
                                (PackageRootView {
                                    name: sanitized(v.request_name) + "_global_installation"@,
                                    dependencies: seq![(v.request_name, v.requested_version)],
                                    engines_node: node_version,
                                }),
                            ),
                        },
                    ),
                )
            },
            None => (
                PhaseView::Finished,
                StepView::Done(
                    Err(ErrorView::IoError("no staging directory could be created"@)),
                ),
            ),
        },
        (
            PhaseView::WriteManifest { node_version, node_path, stage },
            EventView::FileWritten { ok },
        ) => if ok {
            (
                PhaseView::RunningClient { node_version, node_path, stage },
                StepView::Do(ActionView::RunClient { dir: stage }),
            )
        } else {
            (
                PhaseView::Cleanup {
                    stage,
                    err: ErrorView::IoError("the manifest could not be written into the stage"@),
                },
                StepView::Do(ActionView::RemoveStage { path: stage }),
            )
        },
        (
            PhaseView::RunningClient { node_version, node_path, stage },
            EventView::ClientExited { outcome },
        ) => match outcome {
            Some(true) => (
                PhaseView::ReadManifest { node_version, node_path, stage },
                StepView::Do(
                    ActionView::ReadFile {
                        path: path_join(
                            path_join(path_join(stage, "node_modules"@), v.request_name),
                            "package.json"@,
                        ),
                    },
                ),
            ),
            Some(false) => (
                PhaseView::Cleanup { stage, err: ErrorView::InstallationFailed },
                StepView::Do(ActionView::RemoveStage { path: stage }),
            ),
            None => (
                PhaseView::Cleanup {
                    stage,
                    err: ErrorView::IoError("the package-manager client could not be run"@),
                },
                StepView::Do(ActionView::RemoveStage { path: stage }),
            ),
        },
        (
            PhaseView::ReadManifest { node_version, node_path, stage },
            EventView::FileRead { contents },
        ) => match contents {
            Some(text) => match manifest_of(text) {
                Some(p) => (
                    PhaseView::Promoting {
                        shims: spec_shim_plan(
                            p,
                            v.request_name,
                            node_version,
                            node_path,
                            v.target,
                            v.bin_dir,
                        ),
                        stage,
                    },
                    StepView::Do(ActionView::Promote { from: stage, to: v.target }),
                ),
                None => (
                    PhaseView::Cleanup {
                        stage,
                        err: ErrorView::MetadataParseError(
                            "the installed package's manifest has no accepted shape"@,
                        ),
                    },
                    StepView::Do(ActionView::RemoveStage { path: stage }),
                ),
            },
            None => (
                PhaseView::Cleanup {
                    stage,
                    err: ErrorView::IoError(
                        "the installed package's manifest could not be read"@,
                    ),
                },
                StepView::Do(ActionView::RemoveStage { path: stage }),
            ),
        },
        (PhaseView::Promoting { shims, stage }, EventView::Promoted { ok }) => if ok {
            if shims.len() == 0 {
                (PhaseView::Finished, StepView::Done(Ok(())))
            } else {
                (
                    PhaseView::MakeShims { shims, next: 1 },
                    StepView::Do(spec_shim_action(shims[0])),
                )
            }
        } else {
            (
                PhaseView::Cleanup {
                    stage,
                    err: ErrorView::IoError("the staged directory could not be promoted"@),
                },
                StepView::Do(ActionView::RemoveStage { path: stage }),
            )
        },
        (PhaseView::MakeShims { shims, next }, EventView::ShimCreated { ok }) => if !ok {
            (
                PhaseView::Finished,
                StepView::Done(
                    Err(
                        ErrorView::IoError(
                            "a launcher script could not be created; earlier ones stay in place"@,
                        ),
                    ),
                ),
            )
        } else if next < shims.len() {
            (
                PhaseView::MakeShims { shims, next: next + 1 },
                StepView::Do(spec_shim_action(shims[next])),
            )
        } else {
            (PhaseView::Finished, StepView::Done(Ok(())))
        },
        (PhaseView::Cleanup { stage: _, err }, EventView::StageRemoved) => (
            PhaseView::Finished,
            StepView::Done(Err(err)),
        ),
        _ => (
            PhaseView::Finished,
            StepView::Done(
                Err(ErrorView::IoError("an event arrived that no pending action asked for"@)),
            ),
        ),
    }
}

impl InstallFlow {
    /// Consumes the outcome of the previous action and decides what happens
    /// next, exactly as `spec_step` says: the new phase and the returned step
    /// are the transition function's value at the old state and the event.
    /// Besides that and the machine's well-formedness, the contract records
    /// exactly the actions asked for and pins down two laws: an existing
    /// installation is rejected as `PackageAlreadyInstalled` with a history
    /// that never mutated anything, so the filesystem stands exactly as it
    /// was; and a successful outcome only ever follows the promoting rename.
    pub fn step(&mut self, event: Event) -> (r: Step)
        requires
            old(self).inv(),
        ensures
            final(self).inv(),
            final(self)@.phase == spec_step(old(self)@, event@).0,
            r@ == spec_step(old(self)@, event@).1,
            final(self)@.request_name == old(self)@.request_name,
            final(self)@.requested_version == old(self)@.requested_version,
            final(self)@.installations_dir == old(self)@.installations_dir,
            final(self)@.bin_dir == old(self)@.bin_dir,
            final(self)@.target == old(self)@.target,
            match r {
                Step::Do(a) => final(self).history() == old(self).history().push(a),
                Step::Done(_) => final(self).history() == old(self).history(),
            },
            (old(self).awaiting_install_check() && (event matches Event::Installed {
                exists: true,
            })) ==> {
                &&& r matches Step::Done(res) && res matches Err(e) && e
                    matches Errors::PackageAlreadyInstalled(n) && n@ == old(self).request_name()
                &&& final(self).history() == old(self).history()
                &&& forall|i: int|
                    0 <= i < old(self).history().len() ==> !is_mutating(
                        #[trigger] old(self).history()[i],
                    )
            },
            (r matches Step::Done(res) && res is Ok) ==> promoted(final(self).history()),
    {
        let ghost pre = self.history@;
        let ghost tgt = self.target@;
        let mut ph = Phase::Finished;
        core::mem::swap(&mut ph, &mut self.phase);
        match (ph, event) {
            (Phase::QueryVersion, Event::RuntimeVersion { stdout }) => match stdout {
                Some(out) => {
                    let v = first_line_trimmed(out.as_str());
                    self.phase = Phase::LocateRuntime { node_version: v };
                    let a = Action::LocateRuntime;
                    proof {
                        lemma_clear_push(pre, a, tgt);
                        lemma_promoted_push(pre, a);
                        self.history@ = pre.push(a);
                    }
                    Step::Do(a)
                },
                None => Step::Done(
                    Err(Errors::IoError("the runtime version query produced no output".to_owned())),
                ),
            },
            (Phase::LocateRuntime { node_version }, Event::RuntimeLocation { path }) => match path {
                Some(p) => match rfind_char_x(p.as_str(), '/') {
                    Some(_) => {
                        let a = Action::CheckInstalled { path: self.target.clone() };
                        self.phase = Phase::CheckTarget { node_version, node_path: p };
                        proof {
                            lemma_clear_push(pre, a, tgt);
                            lemma_promoted_push(pre, a);
                            self.history@ = pre.push(a);
                        }
                        Step::Do(a)
                    },
                    None => Step::Done(
                        Err(
                            Errors::IoError(
                                "the runtime location is not an absolute path".to_owned(),
                            ),
                        ),
                    ),
                },
                None => Step::Done(
                    Err(Errors::IoError("the runtime binary could not be located".to_owned())),
                ),
            },
            (Phase::CheckTarget { node_version, node_path }, Event::Installed { exists }) => {
                if exists {
                    Step::Done(
                        Err(Errors::PackageAlreadyInstalled(self.request.name.clone())),
                    )
                } else {
                    let a = Action::CreateStage { parent: self.installations_dir.clone() };
                    self.phase = Phase::MakeStage { node_version, node_path };
                    proof {
                        lemma_parent_not_within_child(
                            self.installations_dir@,
                            sanitized(self.request@.name),
                        );
                        lemma_clear_push(pre, a, tgt);
                        self.history@ = pre.push(a);
                    }
                    Step::Do(a)
                }
            },
            (Phase::MakeStage { node_version, node_path }, Event::StageCreated { path }) => match path {
                Some(st) => {
                    if within_x(st.as_str(), self.target.as_str()) || within_x(
                        self.target.as_str(),
                        st.as_str(),
                    ) {
                        Step::Done(
                            Err(
                                Errors::IoError(
                                    "the staging directory collides with the installation path".to_owned(),
                                ),
                            ),
                        )
                    } else {
                        let pkg = package_metadata_for_requested_package(
                            self.request.name(),
                            self.request.version(),
                            node_version.as_str(),
                        );
                        let contents = pkg.render();
                        let fpath = path_join_x(st.as_str(), "package.json");
                        let a = Action::WriteFile { path: fpath, contents };
                        proof {
                            lemma_join_within(st@, "package.json"@);
                            lemma_sub_path_clear(st@, tgt, path_join(st@, "package.json"@));
                            lemma_clear_push(pre, a, tgt);
                            self.history@ = pre.push(a);
                        }
                        self.phase = Phase::WriteManifest { node_version, node_path, stage: st };
                        Step::Do(a)
                    }
                },
                None => Step::Done(
                    Err(Errors::IoError("no staging directory could be created".to_owned())),
                ),
            },
            (
                Phase::WriteManifest { node_version, node_path, stage },
                Event::FileWritten { ok },
            ) => {
                if ok {
                    let a = Action::RunClient { dir: stage.clone() };
                    proof {
                        lemma_clear_push(pre, a, tgt);
                        lemma_promoted_push(pre, a);
                        self.history@ = pre.push(a);
                    }
                    self.phase = Phase::RunningClient { node_version, node_path, stage };
                    Step::Do(a)
                } else {
                    let a = Action::RemoveStage { path: stage.clone() };
                    proof {
                        lemma_clear_push(pre, a, tgt);
                        lemma_promoted_push(pre, a);
                        self.history@ = pre.push(a);
                    }
                    self.phase = Phase::Cleanup {
                        stage,
                        err: Errors::IoError(
                            "the manifest could not be written into the stage".to_owned(),
                        ),
                    };
                    Step::Do(a)
                }
            },
            (
                Phase::RunningClient { node_version, node_path, stage },
                Event::ClientExited { outcome },
            ) => match outcome {
                Some(true) => {
                    let inner = path_join_x(
                        path_join_x(stage.as_str(), "node_modules").as_str(),
                        self.request.name(),
                    );
                    let fpath = path_join_x(inner.as_str(), "package.json");
                    let a = Action::ReadFile { path: fpath };
                    proof {
                        lemma_clear_push(pre, a, tgt);
                        lemma_promoted_push(pre, a);
                        self.history@ = pre.push(a);
                    }
                    self.phase = Phase::ReadManifest { node_version, node_path, stage };
                    Step::Do(a)
                },
                Some(false) => {
                    let a = Action::RemoveStage { path: stage.clone() };
                    proof {
                        lemma_clear_push(pre, a, tgt);
                        lemma_promoted_push(pre, a);
                        self.history@ = pre.push(a);
                    }
                    self.phase = Phase::Cleanup { stage, err: Errors::InstallationFailed };
                    Step::Do(a)
                },
                None => {
                    let a = Action::RemoveStage { path: stage.clone() };
                    proof {
                        lemma_clear_push(pre, a, tgt);
                        lemma_promoted_push(pre, a);
                        self.history@ = pre.push(a);
                    }
                    self.phase = Phase::Cleanup {
                        stage,
                        err: Errors::IoError(
                            "the package-manager client could not be run".to_owned(),
                        ),
                    };
                    Step::Do(a)
                },
            },
            (
                Phase::ReadManifest { node_version, node_path, stage },
                Event::FileRead { contents },
            ) => match contents {
                Some(text) => match read_installed_manifest(text.as_str()) {
                    Some(ip) => {
                        let shims = shim_plan(
                            ip,
                            self.request.name(),
                            node_version.as_str(),
                            node_path.as_str(),
                            self.target.as_str(),
                            self.bin_dir.as_str(),
                        );
                        let a = Action::Promote { from: stage.clone(), to: self.target.clone() };
                        proof {
                            lemma_promoted_push(pre, a);
                            self.history@ = pre.push(a);
                        }
                        self.phase = Phase::Promoting { shims, stage };
                        Step::Do(a)
                    },
                    None => {
                        let a = Action::RemoveStage { path: stage.clone() };
                        proof {
                            lemma_clear_push(pre, a, tgt);
                            lemma_promoted_push(pre, a);
                            self.history@ = pre.push(a);
                        }
                        self.phase = Phase::Cleanup {
                            stage,
                            err: Errors::MetadataParseError(
                                "the installed package's manifest has no accepted shape".to_owned(),
                            ),
                        };
                        Step::Do(a)
                    },
                },
                None => {
                    let a = Action::RemoveStage { path: stage.clone() };
                    proof {
                        lemma_clear_push(pre, a, tgt);
                        lemma_promoted_push(pre, a);
                        self.history@ = pre.push(a);
                    }
                    self.phase = Phase::Cleanup {
                        stage,
                        err: Errors::IoError(
                            "the installed package's manifest could not be read".to_owned(),
                        ),
                    };
                    Step::Do(a)
                },
            },
            (Phase::Promoting { shims, stage }, Event::Promoted { ok }) => {
                if ok {
                    if shims.len() == 0 {
                        Step::Done(Ok(()))
                    } else {
                        let contents = shims[0].script_src();
                        let a = Action::CreateShim {
                            path: shims[0].symlink_path.clone(),
                            contents,
                        };
                        proof {
                            lemma_promoted_push(pre, a);
                            self.history@ = pre.push(a);
                        }
                        self.phase = Phase::MakeShims { shims, next: 1 };
                        Step::Do(a)
                    }
                } else {
                    let a = Action::RemoveStage { path: stage.clone() };
                    proof {
                        lemma_promoted_push(pre, a);
                        self.history@ = pre.push(a);
                    }
                    self.phase = Phase::Cleanup {
                        stage,
                        err: Errors::IoError(
                            "the staged directory could not be promoted".to_owned(),
                        ),
                    };
                    Step::Do(a)
                }
            },
            (Phase::MakeShims { shims, next }, Event::ShimCreated { ok }) => {
                if !ok {
                    Step::Done(
                        Err(
                            Errors::IoError(
                                "a launcher script could not be created; earlier ones stay in place".to_owned(),
                            ),
                        ),
                    )
                } else if next < shims.len() {
                    let contents = shims[next].script_src();
                    let a = Action::CreateShim {
                        path: shims[next].symlink_path.clone(),
                        contents,
                    };
                    proof {
                        lemma_promoted_push(pre, a);
                        self.history@ = pre.push(a);
                    }
                    self.phase = Phase::MakeShims { shims, next: next + 1 };
                    Step::Do(a)
                } else {
                    Step::Done(Ok(()))
                }
            },
            (Phase::Cleanup { stage: _, err }, Event::StageRemoved) => Step::Done(Err(err)),
            (_, _) => Step::Done(
                Err(Errors::IoError("an event arrived that no pending action asked for".to_owned())),
            ),
        }
    }
}

/// Staging is atomic: as long as the promoting rename has not been issued, no
/// action the machine ever asked for writes at or under the final installation
/// path, so an interruption anywhere leaves the target wholly absent.
pub proof fn lemma_staging_atomicity(m: &InstallFlow)
    requires
        m.inv(),
        !promoted(m.history()),
    ensures
        forall|i: int|
            0 <= i < m.history().len() ==> !touches(#[trigger] m.history()[i], m.target_view()),
{
}

} // verus!
