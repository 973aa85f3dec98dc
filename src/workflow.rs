use vstd::prelude::*;

use crate::document::{at_most_once, get_entry, Item, Tree};
use crate::error::{RegistrationError, Section};
use crate::path::PathWrapper;
use crate::registrar::{
    bindings_of, dependencies_of, dependency_entry, lemma_binding_appended,
    lemma_dependency_single, register_binding, register_dependency, with_binding,
    with_dependency,
};

verus! {

/// How one run of the project-creation tool ended.
#[derive(Debug, Clone, PartialEq)]
pub enum ToolOutcome {
    /// The tool could not be launched; carries the system's description.
    NotLaunched(String),
    /// The tool ran; whether it exited successfully, and what it wrote to its two streams.
    Exited { success: bool, stdout: String, stderr: String },
}

/// Where a registration run stands.
#[derive(Debug, Clone, PartialEq)]
pub enum Stage {
    /// Nothing done yet.
    Init,
    /// The tool created the unit; the manifest is being updated.
    ToolInvoked,
    /// The manifest was written; the binding configuration is being loaded.
    ManifestUpdated,
    /// The binding configuration was updated in memory and is being written.
    BindingUpdated,
    /// Both documents were written.
    Done,
    /// The unit's directory was there already: nothing was done.
    AlreadyExists,
    /// The run stopped on this error.
    Failed(RegistrationError),
}

/// What the outside world reports back to a registration run.
#[derive(Debug, PartialEq)]
pub enum Event {
    /// Whether the unit's directory exists.
    DirectoryChecked(bool),
    /// How the project-creation tool ended.
    ToolFinished(ToolOutcome),
    /// The document last asked for, read and parsed, or why that failed.
    DocumentLoaded(Result<Item, RegistrationError>),
    /// Whether the document last handed out was written.
    DocumentWritten(Result<(), RegistrationError>),
}

/// What a registration run asks the outside world to do next.
#[derive(Debug, PartialEq)]
pub enum Action {
    /// Run the project-creation tool with these arguments.
    RunTool(Vec<String>),
    /// Read and parse the dependency manifest.
    LoadManifest,
    /// Write this dependency manifest.
    WriteManifest(Item),
    /// Read and parse the binding configuration.
    LoadBinding,
    /// Write this binding configuration.
    WriteBinding(Item),
    /// Nothing more: the run has ended.
    Finish,
}

/// The model of an `Action`.
pub enum Request {
    RunTool(Seq<Seq<char>>),
    LoadManifest,
    WriteManifest(Tree),
    LoadBinding,
    WriteBinding(Tree),
    Finish,
}

impl View for Action {
    type V = Request;

    open spec fn view(&self) -> Request {
        match self {
            Action::RunTool(args) => Request::RunTool(
                Seq::new(args@.len(), |i: int| args@[i]@),
            ),
            Action::LoadManifest => Request::LoadManifest,
            Action::WriteManifest(doc) => Request::WriteManifest(doc@),
            Action::LoadBinding => Request::LoadBinding,
            Action::WriteBinding(doc) => Request::WriteBinding(doc@),
            Action::Finish => Request::Finish,
        }
    }
}

/// The arguments that have the tool create a library unit called `name`.
pub open spec fn tool_arguments(name: Seq<char>) -> Seq<Seq<char>> {
    seq!["new"@, "--lib"@, name]
}

/// The error that a tool outcome stops the run with, if any.
pub open spec fn tool_failure(outcome: ToolOutcome) -> Option<RegistrationError> {
    match outcome {
        ToolOutcome::NotLaunched(message) => Some(RegistrationError::ToolUnavailable(message)),
        ToolOutcome::Exited { success, stdout, stderr } => if success {
            None
        } else {
            Some(RegistrationError::ToolExecutionFailed { stdout, stderr })
        },
    }
}

/// One transition of a registration run for the unit `name`: the next stage and request.
/// An event that does not belong to the stage, and any event once the run has ended,
/// leave the stage as it is and ask for nothing more.
pub open spec fn next(stage: Stage, event: Event, name: Seq<char>) -> (Stage, Request) {
    match (stage, event) {
        (Stage::Init, Event::DirectoryChecked(exists)) => if exists {
            (Stage::AlreadyExists, Request::Finish)
        } else {
            (Stage::Init, Request::RunTool(tool_arguments(name)))
        },
        (Stage::Init, Event::ToolFinished(outcome)) => match tool_failure(outcome) {
            Some(e) => (Stage::Failed(e), Request::Finish),
            None => (Stage::ToolInvoked, Request::LoadManifest),
        },
        (Stage::ToolInvoked, Event::DocumentLoaded(Ok(doc))) => if dependencies_of(doc@).is_some() {
            (Stage::ToolInvoked, Request::WriteManifest(with_dependency(doc@, name)))
        } else {
            (
                Stage::Failed(RegistrationError::SchemaError(Section::Dependencies)),
                Request::Finish,
            )
        },
        (Stage::ToolInvoked, Event::DocumentWritten(Ok(()))) => (
            Stage::ManifestUpdated,
            Request::LoadBinding,
        ),
        (Stage::ManifestUpdated, Event::DocumentLoaded(Ok(doc))) => if bindings_of(doc@).is_some() {
            (Stage::BindingUpdated, Request::WriteBinding(with_binding(doc@, name)))
        } else {
            (
                Stage::Failed(RegistrationError::SchemaError(Section::ExtraBindings)),
                Request::Finish,
            )
        },
        (Stage::BindingUpdated, Event::DocumentWritten(Ok(()))) => (Stage::Done, Request::Finish),
        (Stage::ToolInvoked, Event::DocumentLoaded(Err(e))) => (Stage::Failed(e), Request::Finish),
        (Stage::ToolInvoked, Event::DocumentWritten(Err(e))) => (Stage::Failed(e), Request::Finish),
        (Stage::ManifestUpdated, Event::DocumentLoaded(Err(e))) => (
            Stage::Failed(e),
            Request::Finish,
        ),
        (Stage::BindingUpdated, Event::DocumentWritten(Err(e))) => (
            Stage::Failed(e),
            Request::Finish,
        ),
        (stage, _) => (stage, Request::Finish),
    }
}

/// The stage and the requests after handing a run the events `events` one by one.
pub open spec fn run(stage: Stage, events: Seq<Event>, name: Seq<char>) -> (Stage, Seq<Request>)
    decreases events.len(),
{
    if events.len() == 0 {
        (stage, Seq::empty())
    } else {
        let (s, r) = next(stage, events[0], name);
        let (last, rest) = run(s, events.drop_first(), name);
        (last, seq![r] + rest)
    }
}

/// Classifies how the project-creation tool ended.
pub fn check_tool_outcome(outcome: ToolOutcome) -> (r: Result<(), RegistrationError>)
    ensures
        r == match tool_failure(outcome) {
            Some(e) => Err(e),
            None => Ok::<(), RegistrationError>(()),
        },
{
    match outcome {
        ToolOutcome::NotLaunched(message) => Err(RegistrationError::ToolUnavailable(message)),
        ToolOutcome::Exited { success, stdout, stderr } => if success {
            Ok(())
        } else {
            Err(RegistrationError::ToolExecutionFailed { stdout, stderr })
        },
    }
}

/// The program that creates units.
pub fn tool_program() -> (r: String)
    ensures
        r@ == "cargo"@,
{
    String::from_str("cargo")
}

/// The arguments that have the tool create a library unit called `name`.
pub fn tool_argument_list(name: &str) -> (r: Vec<String>)
    ensures
        Action::RunTool(r)@ == Request::RunTool(tool_arguments(name@)),
{
    let mut args: Vec<String> = Vec::new();
    args.push(String::from_str("new"));
    args.push(String::from_str("--lib"));
    args.push(name.to_owned());
    assert(Seq::new(args@.len(), |i: int| args@[i]@) =~= tool_arguments(name@));
    args
}

/// One registration run: the unit's name, the workspace it goes in, and where the run stands.
pub struct Registration {
    name: String,
    root: String,
    stage: Stage,
}

impl Registration {
    /// The name of the unit being registered.
    pub closed spec fn unit_name(&self) -> Seq<char> {
        self.name@
    }

    /// The workspace root.
    pub closed spec fn workspace(&self) -> Seq<char> {
        self.root@
    }

    /// Where the run stands.
    pub closed spec fn current(&self) -> Stage {
        self.stage
    }

    /// A run that registers the unit `name` in the workspace at `root`.
    pub fn new(root: &str, name: &str) -> (r: Registration)
        ensures
            r.unit_name() == name@,
            r.workspace() == root@,
            r.current() == Stage::Init,
    {
        Registration { name: name.to_owned(), root: root.to_owned(), stage: Stage::Init }
    }

    /// Where the run stands.
    pub fn stage(&self) -> (r: &Stage)
        ensures
            *r == self.current(),
    {
        &self.stage
    }

    /// The unit's directory: the workspace root, then the unit's name.
    pub fn unit_directory(&self) -> (r: PathWrapper)
        ensures
            r@ == seq![self.workspace(), self.unit_name()],
    {
        PathWrapper::from_root(self.root.as_str()).join(self.name.as_str())
    }

    /// The dependency manifest: `cbindgen-meta/Cargo.toml` under the workspace root.
    pub fn manifest_path(&self) -> (r: PathWrapper)
        ensures
            r@ == seq![self.workspace(), "cbindgen-meta"@, "Cargo.toml"@],
    {
        PathWrapper::from_root(self.root.as_str()).join("cbindgen-meta").join("Cargo.toml")
    }

    /// The binding configuration: `cbindgen.toml` under the workspace root.
    pub fn binding_path(&self) -> (r: PathWrapper)
        ensures
            r@ == seq![self.workspace(), "cbindgen.toml"@],
    {
        PathWrapper::from_root(self.root.as_str()).join("cbindgen.toml")
    }

    /// Whether the run has ended.
    pub fn is_finished(&self) -> (r: bool)
        ensures
            r == (self.current() is Done || self.current() is AlreadyExists
                || self.current() is Failed),
    {
        match self.stage {
            Stage::Done | Stage::AlreadyExists | Stage::Failed(_) => true,
            _ => false,
        }
    }

    /// The process exit status that reports the run: 0 when the unit was registered or
    /// was there already, 1 otherwise.
    pub fn exit_code(&self) -> (r: i32)
        ensures
            r == (if self.current() is Done || self.current() is AlreadyExists {
                0i32
            } else {
                1i32
            }),
    {
        match self.stage {
            Stage::Done | Stage::AlreadyExists => 0,
            _ => 1,
        }
    }

    /// Hands the run one event; returns what it asks for next.
    pub fn step(&mut self, event: Event) -> (r: Action)
        ensures
            final(self).unit_name() == old(self).unit_name(),
            final(self).workspace() == old(self).workspace(),
            (final(self).current(), r@) == next(old(self).current(), event, old(self).unit_name()),
    {
        match (&self.stage, event) {
            (Stage::Init, Event::DirectoryChecked(exists)) => if exists {
                self.stage = Stage::AlreadyExists;
                Action::Finish
            } else {
                Action::RunTool(tool_argument_list(self.name.as_str()))
            },
            (Stage::Init, Event::ToolFinished(outcome)) => match check_tool_outcome(outcome) {
                Err(e) => {
                    self.stage = Stage::Failed(e);
                    Action::Finish
                },
                Ok(()) => {
                    self.stage = Stage::ToolInvoked;
                    Action::LoadManifest
                },
            },
            (Stage::ToolInvoked, Event::DocumentLoaded(Ok(mut doc))) => match register_dependency(
                &mut doc,
                self.name.as_str(),
            ) {
                Ok(()) => Action::WriteManifest(doc),
                Err(e) => {
                    self.stage = Stage::Failed(e);
                    Action::Finish
                },
            },
            (Stage::ToolInvoked, Event::DocumentWritten(Ok(()))) => {
                self.stage = Stage::ManifestUpdated;
                Action::LoadBinding
            },
            (Stage::ManifestUpdated, Event::DocumentLoaded(Ok(mut doc))) => match register_binding(
                &mut doc,
                self.name.as_str(),
            ) {
                Ok(()) => {
                    self.stage = Stage::BindingUpdated;
                    Action::WriteBinding(doc)
                },
                Err(e) => {
                    self.stage = Stage::Failed(e);
                    Action::Finish
                },
            },
            (Stage::BindingUpdated, Event::DocumentWritten(Ok(()))) => {
                self.stage = Stage::Done;
                Action::Finish
            },
            (Stage::ToolInvoked, Event::DocumentLoaded(Err(e)))
            | (Stage::ToolInvoked, Event::DocumentWritten(Err(e)))
            | (Stage::ManifestUpdated, Event::DocumentLoaded(Err(e)))
            | (Stage::BindingUpdated, Event::DocumentWritten(Err(e))) => {
                self.stage = Stage::Failed(e);
                Action::Finish
            },
            _ => Action::Finish,
        }
    }
}

/// The requests of a run that asks for nothing more: `n` times `Finish`.
pub open spec fn finishes(n: nat) -> Seq<Request> {
    Seq::new(n, |i: int| Request::Finish)
}

/// A run that has ended stays where it is and asks for nothing more, whatever it is told.
pub proof fn lemma_ended_run_stays(stage: Stage, events: Seq<Event>, name: Seq<char>)
    requires
        stage is Done || stage is AlreadyExists || stage is Failed,
    ensures
        run(stage, events, name) == (stage, finishes(events.len())),
    decreases events.len(),
{
    if events.len() > 0 {
        lemma_ended_run_stays(stage, events.drop_first(), name);
        assert(seq![Request::Finish] + finishes((events.len() - 1) as nat) =~= finishes(
            events.len(),
        ));
    }
}

/// When the unit's directory is there already, the run ends at once as a no-op: it never
/// asks for the tool or for a document, whatever it is told afterwards.
pub proof fn lemma_existing_unit_is_noop(name: Seq<char>, later: Seq<Event>)
    ensures
        run(Stage::Init, seq![Event::DirectoryChecked(true)] + later, name) == (
            Stage::AlreadyExists,
            finishes(later.len() + 1),
        ),
{
    let events = seq![Event::DirectoryChecked(true)] + later;
    assert(events.drop_first() =~= later);
    lemma_ended_run_stays(Stage::AlreadyExists, later, name);
    assert(seq![Request::Finish] + finishes(later.len()) =~= finishes(later.len() + 1));
}

/// When the tool exits unsuccessfully the run fails with what the tool wrote, and never
/// asks for a document afterwards, whatever it is told.
pub proof fn lemma_tool_failure_stops(
    name: Seq<char>,
    stdout: String,
    stderr: String,
    later: Seq<Event>,
)
    ensures
        run(
            Stage::Init,
            seq![
                Event::DirectoryChecked(false),
                Event::ToolFinished(ToolOutcome::Exited { success: false, stdout, stderr }),
            ] + later,
            name,
        ) == (
            Stage::Failed(RegistrationError::ToolExecutionFailed { stdout, stderr }),
            seq![Request::RunTool(tool_arguments(name))] + finishes(later.len() + 1),
        ),
{
    let failure = Event::ToolFinished(ToolOutcome::Exited { success: false, stdout, stderr });
    let events = seq![Event::DirectoryChecked(false), failure] + later;
    let failed = Stage::Failed(RegistrationError::ToolExecutionFailed { stdout, stderr });
    assert(events.drop_first() =~= seq![failure] + later);
    assert((seq![failure] + later).drop_first() =~= later);
    lemma_ended_run_stays(failed, later, name);
    assert(seq![Request::Finish] + finishes(later.len()) =~= finishes(later.len() + 1));
    assert(run(Stage::Init, seq![failure] + later, name) == (failed, finishes(later.len() + 1)));
}

/// The document part of a run: once the tool has created the unit, the manifest and then
/// the binding configuration are loaded, updated and written, and the run is `Done`.
#[verifier::rlimit(100)]
pub proof fn lemma_document_steps(name: Seq<char>, manifest: Item, binding: Item)
    requires
        dependencies_of(manifest@).is_some(),
        bindings_of(binding@).is_some(),
    ensures
        run(
            Stage::ToolInvoked,
            seq![
                Event::DocumentLoaded(Ok(manifest)),
                Event::DocumentWritten(Ok(())),
                Event::DocumentLoaded(Ok(binding)),
                Event::DocumentWritten(Ok(())),
            ],
            name,
        ) == (
            Stage::Done,
            seq![
                Request::WriteManifest(with_dependency(manifest@, name)),
                Request::LoadBinding,
                Request::WriteBinding(with_binding(binding@, name)),
                Request::Finish,
            ],
        ),
{
    let e2 = seq![
        Event::DocumentLoaded(Ok(manifest)),
        Event::DocumentWritten(Ok(())),
        Event::DocumentLoaded(Ok(binding)),
        Event::DocumentWritten(Ok(())),
    ];
    let e3 = e2.drop_first();
    let e4 = e3.drop_first();
    let e5 = e4.drop_first();
    let e6 = e5.drop_first();
    let wm = Request::WriteManifest(with_dependency(manifest@, name));
    let wb = Request::WriteBinding(with_binding(binding@, name));
    assert(e6.len() == 0);
    let r5 = run(Stage::BindingUpdated, e5, name);
    let r4 = run(Stage::ManifestUpdated, e4, name);
    let r3 = run(Stage::ToolInvoked, e3, name);
    let r2 = run(Stage::ToolInvoked, e2, name);
    assert(e5[0] == Event::DocumentWritten(Ok(())));
    assert(e5.drop_first().len() == 0);
    assert(run(Stage::Done, e5.drop_first(), name) == (Stage::Done, Seq::<Request>::empty()));
    assert(seq![Request::Finish] + Seq::<Request>::empty() =~= seq![Request::Finish]);
    assert(r5 == (Stage::Done, seq![Request::Finish]));
    assert(r4 == (Stage::Done, seq![wb] + r5.1));
    assert(r3 == (Stage::Done, seq![Request::LoadBinding] + r4.1));
    assert(r2 == (Stage::Done, seq![wm] + r3.1));
    assert(r2.1 =~= seq![wm, Request::LoadBinding, wb, Request::Finish]);
}

/// A full run for a unit whose directory is not there, in which the tool and every
/// document step succeed, ends `Done`. It runs the tool once, writes the manifest with the
/// unit's one dependency entry, then writes the binding configuration with the unit's name
/// appended once to `parse.extra_bindings`.
#[verifier::rlimit(100)]
pub proof fn lemma_full_run(
    name: Seq<char>,
    stdout: String,
    stderr: String,
    manifest: Item,
    binding: Item,
)
    requires
        dependencies_of(manifest@).is_some(),
        bindings_of(binding@).is_some(),
    ensures
        run(
            Stage::Init,
            seq![
                Event::DirectoryChecked(false),
                Event::ToolFinished(ToolOutcome::Exited { success: true, stdout, stderr }),
                Event::DocumentLoaded(Ok(manifest)),
                Event::DocumentWritten(Ok(())),
                Event::DocumentLoaded(Ok(binding)),
                Event::DocumentWritten(Ok(())),
            ],
            name,
        ) == (
            Stage::Done,
            seq![
                Request::RunTool(tool_arguments(name)),
                Request::LoadManifest,
                Request::WriteManifest(with_dependency(manifest@, name)),
                Request::LoadBinding,
                Request::WriteBinding(with_binding(binding@, name)),
                Request::Finish,
            ],
        ),
        get_entry(dependencies_of(with_dependency(manifest@, name)).unwrap(), name) == Some(
            dependency_entry(name),
        ),
        bindings_of(with_binding(binding@, name)) == Some(
            bindings_of(binding@).unwrap().push(Tree::Text(name)),
        ),
        at_most_once(dependencies_of(manifest@).unwrap(), name) ==> at_most_once(
            dependencies_of(with_dependency(manifest@, name)).unwrap(),
            name,
        ),
        !bindings_of(binding@).unwrap().contains(Tree::Text(name)) ==> forall|i: int|
            0 <= i < bindings_of(with_binding(binding@, name)).unwrap().len()
                && bindings_of(with_binding(binding@, name)).unwrap()[i] == Tree::Text(name)
                ==> i == bindings_of(binding@).unwrap().len(),
{
    let tail = seq![
        Event::DocumentLoaded(Ok(manifest)),
        Event::DocumentWritten(Ok(())),
        Event::DocumentLoaded(Ok(binding)),
        Event::DocumentWritten(Ok(())),
    ];
    let tool = Event::ToolFinished(ToolOutcome::Exited { success: true, stdout, stderr });
    let events = seq![Event::DirectoryChecked(false), tool] + tail;
    assert(events =~= seq![
        Event::DirectoryChecked(false),
        tool,
        Event::DocumentLoaded(Ok(manifest)),
        Event::DocumentWritten(Ok(())),
        Event::DocumentLoaded(Ok(binding)),
        Event::DocumentWritten(Ok(())),
    ]);
    assert(events.drop_first() =~= seq![tool] + tail);
    assert((seq![tool] + tail).drop_first() =~= tail);
    lemma_document_steps(name, manifest, binding);
    let r2 = run(Stage::ToolInvoked, tail, name);
    let r1 = run(Stage::Init, seq![tool] + tail, name);
    assert(r1 == (Stage::Done, seq![Request::LoadManifest] + r2.1));
    assert(run(Stage::Init, events, name).1 =~= seq![
        Request::RunTool(tool_arguments(name)),
        Request::LoadManifest,
        Request::WriteManifest(with_dependency(manifest@, name)),
        Request::LoadBinding,
        Request::WriteBinding(with_binding(binding@, name)),
        Request::Finish,
    ]);
    lemma_dependency_single(manifest@, name);
    lemma_binding_appended(binding@, name);
    let before = bindings_of(binding@).unwrap();
    if !before.contains(Tree::Text(name)) {
        assert forall|i: int| 0 <= i < before.len() implies before.push(Tree::Text(name))[i]
            != Tree::Text(name) by {
            assert(before.push(Tree::Text(name))[i] == before[i]);
        }
    }
}

} // verus!
