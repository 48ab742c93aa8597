//! A launch from its command to its running service: what is asked of the host, in
//! its order.
use crate::environment::Environment;
use crate::error::{io, Error, ErrorView, Result, Source, SourceKind};
use crate::ospath;
use crate::ospath::parent;
use crate::service::application;
use crate::service::application::{remove_stale, Application, ApplicationView, Launch};
use crate::service::command::{AppCommand, AppCommandView, Graphics};
use crate::service::sandbox;
use crate::service::sandbox::{bwrap_argv, GraphicsRuntime, SandboxView};
use crate::service::seal;
use crate::service::seal::sealed_environment;
use crate::service::unit::{trimmed, CommandOutput};
use crate::stage;
use crate::stage::{Act, Rehearsal, Stage};
use crate::testbed::{Testbed, TestbedView};
use crate::text;
use crate::text::{copy_bytes, text_bytes};
use vstd::prelude::*;
use vstd::utf8::*;

verus! {

// ---------------------------------------------------------------------------
// What the host tells of the command's paths
// ---------------------------------------------------------------------------

/// Whether resolving a path can come to an outcome.
pub open spec fn resolves_to<R: Fn(&Vec<u8>) -> std::result::Result<Vec<u8>, Source>>(
    resolve: &R,
    path: Seq<u8>,
    outcome: std::result::Result<Vec<u8>, Source>,
) -> bool {
    exists|place: &Vec<u8>| place@ == path && #[trigger] resolve.ensures((place,), outcome)
}

/// Whether a host operation may be asked for on a path. Of no other path is
/// anything known.
pub open spec fn within_reach<T, C: Fn(&Vec<u8>) -> T>(act: &C, path: Seq<u8>) -> bool {
    forall|place: &Vec<u8>| place@ == path ==> #[trigger] act.requires((place,))
}

/// Whether the host can tell so of a path being a file.
pub open spec fn tells<I: Fn(&Vec<u8>) -> bool>(is_file: &I, path: Seq<u8>, verdict: bool) -> bool {
    exists|place: &Vec<u8>| place@ == path && #[trigger] is_file.ensures((place,), verdict)
}

/// What the host tells of a command's paths.
pub struct Paths {
    /// The binary, resolved.
    pub binary: std::result::Result<Vec<u8>, Source>,
    /// Whether the resolved binary is a file.
    pub is_file: bool,
    /// The borrows, resolved.
    pub borrows: Seq<std::result::Result<Vec<u8>, Source>>,
}

impl Paths {
    /// Whether the host can tell so of a command's paths.
    pub open spec fn told<
        R: Fn(&Vec<u8>) -> std::result::Result<Vec<u8>, Source>,
        I: Fn(&Vec<u8>) -> bool,
    >(self, command: AppCommandView, resolve: &R, is_file: &I) -> bool {
        &&& resolves_to(resolve, command.binary, self.binary)
        &&& self.binary matches Ok(path) ==> tells(is_file, path@, self.is_file)
        &&& self.borrows.len() == command.borrows.len()
        &&& forall|i: int|
            0 <= i < self.borrows.len() ==> resolves_to(
                resolve,
                command.borrows[i],
                #[trigger] self.borrows[i],
            )
    }

    /// The borrows' mounts: what each resolved to, at the path it was asked for.
    pub open spec fn mounts(self, command: AppCommandView) -> Seq<(Seq<u8>, Seq<u8>)> {
        Seq::new(
            self.borrows.len(),
            |i: int| (self.borrows[i]->Ok_0@, command.borrows[i]),
        )
    }
}

fn resolve_all<R: Fn(&Vec<u8>) -> std::result::Result<Vec<u8>, Source>>(
    paths: &Vec<Vec<u8>>,
    resolve: &R,
) -> (resolved: Vec<std::result::Result<Vec<u8>, Source>>)
    requires
        forall|i: int|
            0 <= i < paths@.len() ==> within_reach(resolve, #[trigger] text::views(paths@)[i]),
    ensures
        resolved@.len() == paths@.len(),
        forall|i: int|
            0 <= i < resolved@.len() ==> resolves_to(
                resolve,
                text::views(paths@)[i],
                #[trigger] resolved@[i],
            ),
{
    let mut resolved: Vec<std::result::Result<Vec<u8>, Source>> = Vec::new();
    let mut index: usize = 0;
    while index < paths.len()
        invariant
            index <= paths.len(),
            resolved@.len() == index,
            forall|i: int|
                0 <= i < paths@.len() ==> within_reach(resolve, #[trigger] text::views(paths@)[i]),
            forall|i: int|
                0 <= i < index ==> resolves_to(
                    resolve,
                    text::views(paths@)[i],
                    #[trigger] resolved@[i],
                ),
        decreases paths.len() - index,
    {
        assert(within_reach(resolve, text::views(paths@)[index as int]));
        let outcome = resolve(&paths[index]);
        assert(resolves_to(resolve, text::views(paths@)[index as int], outcome));
        resolved.push(outcome);
        index += 1;
    }
    resolved
}

// ---------------------------------------------------------------------------
// Chores before the service starts
// ---------------------------------------------------------------------------

/// What a chore does to the host.
#[derive(Clone, Copy, Debug, PartialEq, Eq, Structural)]
pub enum Task {
    /// Create the directory of a file.
    Directory,
    /// Create an empty file.
    File,
    /// Remove a file that an earlier run may have left.
    Removal,
}

/// One chore before the service starts.
#[derive(Debug)]
pub struct Chore {
    pub task: Task,
    pub operation: &'static str,
    pub path: Vec<u8>,
}

/// Content of a [`Chore`].
#[verifier::ext_equal]
pub struct ChoreView {
    pub task: Task,
    pub operation: Seq<char>,
    pub path: Seq<u8>,
}

impl View for Chore {
    type V = ChoreView;

    open spec fn view(&self) -> ChoreView {
        ChoreView { task: self.task, operation: self.operation@, path: self.path@ }
    }
}

/// Contents of a list of chores.
pub open spec fn chores(list: Seq<Chore>) -> Seq<ChoreView> {
    Seq::new(list.len(), |i: int| list[i]@)
}

/// The chores of a launch: both logs, and a clean place for its witness.
pub open spec fn chores_of(application: ApplicationView) -> Seq<ChoreView> {
    let logs = seq![
        ChoreView {
            task: Task::Directory,
            operation: "create log directory"@,
            path: application.stdout,
        },
        ChoreView { task: Task::File, operation: "create service log"@, path: application.stdout },
        ChoreView {
            task: Task::Directory,
            operation: "create log directory"@,
            path: application.stderr,
        },
        ChoreView { task: Task::File, operation: "create service log"@, path: application.stderr },
    ];
    match application.witness {
        None => logs,
        Some(witness) => logs + seq![
            ChoreView {
                task: Task::Directory,
                operation: "create witness parent"@,
                path: witness.host,
            },
            ChoreView {
                task: Task::Removal,
                operation: "remove stale witness"@,
                path: witness.host,
            },
            ChoreView {
                task: Task::Removal,
                operation: "remove stale frame journal"@,
                path: witness.frame_host,
            },
        ],
    }
}

/// One thing that a chore asks of the host.
#[derive(Debug)]
pub enum Deed {
    /// Create a directory with its parents.
    Directory(Vec<u8>),
    /// Create an empty file.
    File(Vec<u8>),
    /// Remove a file.
    Removal(Vec<u8>),
}

/// Content of a [`Deed`].
#[verifier::ext_equal]
pub enum DeedView {
    Directory(Seq<u8>),
    File(Seq<u8>),
    Removal(Seq<u8>),
}

impl View for Deed {
    type V = DeedView;

    open spec fn view(&self) -> DeedView {
        match self {
            Deed::Directory(path) => DeedView::Directory(path@),
            Deed::File(path) => DeedView::File(path@),
            Deed::Removal(path) => DeedView::Removal(path@),
        }
    }
}

impl Act for Deed {
    fn noted(&self) -> (copy: Self) {
        match self {
            Deed::Directory(path) => Deed::Directory(copy_bytes(path.as_slice())),
            Deed::File(path) => Deed::File(copy_bytes(path.as_slice())),
            Deed::Removal(path) => Deed::Removal(copy_bytes(path.as_slice())),
        }
    }
}

/// What a host operation's outcome means. A stale file may already be gone.
pub open spec fn judged(
    task: Task,
    operation: Seq<char>,
    path: Seq<u8>,
    outcome: std::result::Result<(), Source>,
) -> std::result::Result<(), ErrorView> {
    match outcome {
        Ok(_) => Ok(()),
        Err(source) => if task == Task::Removal && source.kind == SourceKind::NotFound {
            Ok(())
        } else {
            Err(ErrorView::Io { operation, path, source: source@ })
        },
    }
}

impl ChoreView {
    /// What the chore asks of the host, and of which path. A file without a parent
    /// needs no directory.
    pub open spec fn deed(self) -> Option<(DeedView, Seq<u8>)> {
        match self.task {
            Task::Directory => match ospath::parent_of(self.path) {
                None => None,
                Some(directory) => Some((DeedView::Directory(directory), directory)),
            },
            Task::File => Some((DeedView::File(self.path), self.path)),
            Task::Removal => Some((DeedView::Removal(self.path), self.path)),
        }
    }

    /// Whether the chore can leave the host so, with an outcome.
    pub open spec fn does<P: Stage<Deed, Source>>(
        self,
        before: P,
        outcome: std::result::Result<(), ErrorView>,
        after: P,
    ) -> bool {
        match self.deed() {
            None => outcome == Ok::<(), ErrorView>(()) && after == before,
            Some((deed, path)) => exists|made: std::result::Result<(), Source>| #[trigger]
                P::goes(before, deed, made, after) && outcome == judged(
                    self.task,
                    self.operation,
                    path,
                    made,
                ),
        }
    }
}

/// Whether a list of chores was done in order, each once, by way of these hosts.
pub open spec fn done_by<P: Stage<Deed, Source>>(hosts: Seq<P>, list: Seq<ChoreView>) -> bool {
    &&& hosts.len() == list.len() + 1
    &&& forall|i: int|
        0 <= i < list.len() ==> (#[trigger] list[i]).does(hosts[i], Ok(()), hosts[i + 1])
}

/// Whether a list of chores can fail at one of them, those before it done.
pub open spec fn fails_at<P: Stage<Deed, Source>>(
    hosts: Seq<P>,
    list: Seq<ChoreView>,
    at: int,
    error: ErrorView,
    after: P,
) -> bool {
    &&& 0 <= at < list.len()
    &&& done_by(hosts, list.take(at))
    &&& list[at].does(hosts.last(), Err(error), after)
}

/// Whether a list of chores, done in order until one fails, can leave the host so, with
/// an outcome.
pub open spec fn all_done<P: Stage<Deed, Source>>(
    list: Seq<ChoreView>,
    before: P,
    outcome: std::result::Result<(), ErrorView>,
    after: P,
) -> bool {
    match outcome {
        Ok(_) => exists|hosts: Seq<P>| #[trigger]
            done_by(hosts, list) && stage::spans(hosts, before, after),
        Err(error) => exists|hosts: Seq<P>, at: int|
            hosts[0] == before && #[trigger] fails_at(hosts, list, at, error, after),
    }
}

fn judge(
    task: Task,
    operation: &'static str,
    path: &Vec<u8>,
    outcome: std::result::Result<(), Source>,
) -> (verdict: Result<()>)
    ensures
        crate::host::told(verdict) == judged(task, operation@, path@, outcome),
{
    if task == Task::Removal {
        return remove_stale(path, operation, outcome);
    }
    match outcome {
        Ok(_) => Ok(()),
        Err(source) => Err(io(operation, path, source)),
    }
}

impl Chore {
    /// Do the chore.
    pub fn perform<P: Stage<Deed, Source>>(&self, host: &mut P) -> (verdict: Result<()>)
        ensures
            self@.does(*old(host), crate::host::told(verdict), *final(host)),
    {
        match self.task {
            Task::Directory => match parent(self.path.as_slice()) {
                None => Ok(()),
                Some(directory) => {
                    let deed = Deed::Directory(copy_bytes(directory.as_slice()));
                    let made = host.perform(&deed);
                    let ghost given = made;
                    assert(P::goes(*old(host), DeedView::Directory(directory@), given, *host));
                    judge(self.task, self.operation, &directory, made)
                },
            },
            Task::File => {
                let deed = Deed::File(copy_bytes(self.path.as_slice()));
                let made = host.perform(&deed);
                let ghost given = made;
                assert(P::goes(*old(host), DeedView::File(self.path@), given, *host));
                judge(self.task, self.operation, &self.path, made)
            },
            Task::Removal => {
                let deed = Deed::Removal(copy_bytes(self.path.as_slice()));
                let made = host.perform(&deed);
                let ghost given = made;
                assert(P::goes(*old(host), DeedView::Removal(self.path@), given, *host));
                judge(self.task, self.operation, &self.path, made)
            },
        }
    }
}

fn perform_all<P: Stage<Deed, Source>>(list: &Vec<Chore>, host: &mut P) -> (verdict: Result<()>)
    ensures
        all_done(chores(list@), *old(host), crate::host::told(verdict), *final(host)),
{
    let ghost all = chores(list@);
    let ghost mut hosts: Seq<P> = seq![*host];
    assert(all.take(0) =~= Seq::<ChoreView>::empty());
    let mut index: usize = 0;
    while index < list.len()
        invariant
            index <= list.len(),
            all == chores(list@),
            done_by(hosts, all.take(index as int)),
            hosts[0] == *old(host),
            hosts.last() == *host,
        decreases list.len() - index,
    {
        assert(all[index as int] == list@[index as int]@);
        match list[index].perform(host) {
            Ok(unit) => {
                assert(unit == ());
            },
            Err(error) => {
                assert(fails_at(hosts, all, index as int, error@, *host));
                return Err(error);
            },
        }
        proof {
            let done = all.take(index as int);
            let longer = all.take(index + 1);
            let passed = hosts.push(*host);
            assert(done_by(passed, longer)) by {
                assert forall|i: int| 0 <= i < longer.len() implies (#[trigger] longer[i]).does(
                    passed[i],
                    Ok(()),
                    passed[i + 1],
                ) by {
                    if i < index {
                        assert(longer[i] == done[i]);
                    }
                }
            }
            hosts = passed;
        }
        index += 1;
    }
    assert(all.take(index as int) =~= all);
    Ok(())
}

/// What a list of chores asks of the host.
pub open spec fn deeds(list: Seq<ChoreView>) -> Seq<DeedView>
    decreases list.len(),
{
    if list.len() == 0 {
        Seq::empty()
    } else {
        match list.last().deed() {
            None => deeds(list.drop_last()),
            Some((deed, _)) => deeds(list.drop_last()).push(deed),
        }
    }
}

/// Chores done to their end ask for each of their deeds once, in their order, and for
/// nothing else.
pub proof fn law_chores_are_done_to_the_letter(
    hosts: Seq<Rehearsal<Deed>>,
    list: Seq<ChoreView>,
)
    requires
        done_by(hosts, list),
    ensures
        hosts.last()@ == hosts[0]@ + deeds(list),
    decreases list.len(),
{
    if list.len() > 0 {
        let last = list.len() - 1;
        let shorter = list.drop_last();
        let fewer = hosts.drop_last();
        assert(done_by(fewer, shorter)) by {
            assert forall|i: int| 0 <= i < shorter.len() implies (#[trigger] shorter[i]).does(
                fewer[i],
                Ok(()),
                fewer[i + 1],
            ) by {
                assert(shorter[i] == list[i]);
            }
        }
        law_chores_are_done_to_the_letter(fewer, shorter);
        assert(list[last].does(hosts[last], Ok(()), hosts[last + 1]));
    }
    assert(hosts.last()@ =~= hosts[0]@ + deeds(list));
}

impl Launch {
    /// The chores before the service starts.
    pub fn chores(&self) -> (list: Vec<Chore>)
        ensures
            chores(list@) == chores_of(self.application@),
    {
        let stdout = self.application.stdout_path();
        let stderr = self.application.stderr_path();
        let mut list: Vec<Chore> = Vec::new();
        list.push(
            Chore {
                task: Task::Directory,
                operation: "create log directory",
                path: copy_bytes(stdout.as_slice()),
            },
        );
        list.push(
            Chore {
                task: Task::File,
                operation: "create service log",
                path: copy_bytes(stdout.as_slice()),
            },
        );
        list.push(
            Chore {
                task: Task::Directory,
                operation: "create log directory",
                path: copy_bytes(stderr.as_slice()),
            },
        );
        list.push(
            Chore {
                task: Task::File,
                operation: "create service log",
                path: copy_bytes(stderr.as_slice()),
            },
        );
        match self.application.seal() {
            Some(witness) => {
                list.push(
                    Chore {
                        task: Task::Directory,
                        operation: "create witness parent",
                        path: copy_bytes(witness.host.as_slice()),
                    },
                );
                list.push(
                    Chore {
                        task: Task::Removal,
                        operation: "remove stale witness",
                        path: copy_bytes(witness.host.as_slice()),
                    },
                );
                list.push(
                    Chore {
                        task: Task::Removal,
                        operation: "remove stale frame journal",
                        path: copy_bytes(witness.frame_host.as_slice()),
                    },
                );
            },
            None => {},
        }
        assert(chores(list@) =~~= chores_of(self.application@));
        list
    }
}

// ---------------------------------------------------------------------------
// The service
// ---------------------------------------------------------------------------

/// A run of the user manager's starter: its rendering, and what came of it.
#[derive(Debug)]
pub struct Spawned {
    pub rendering: String,
    pub outcome: std::result::Result<CommandOutput, Source>,
}

/// Whether starting a service with a line of arguments can go so.
pub open spec fn spawns<S: FnOnce(&Vec<Vec<u8>>) -> Spawned>(
    spawn: S,
    line: Seq<Seq<u8>>,
    spawned: Spawned,
) -> bool {
    exists|arguments: &Vec<Vec<u8>>|
        text::views(arguments@) == line && #[trigger] spawn.ensures((arguments,), spawned)
}

/// What a run of the starter means for a launch.
pub open spec fn admitted(application: ApplicationView, spawned: Spawned) -> std::result::Result<
    ApplicationView,
    ErrorView,
> {
    match spawned.outcome {
        Err(source) => Err(
            ErrorView::Io {
                operation: "spawn transient application service"@,
                path: text::word("systemd-run"),
                source: source@,
            },
        ),
        Ok(output) => if output.success {
            Ok(application)
        } else {
            Err(
                ErrorView::Containment {
                    layer: "systemd"@,
                    detail: "`"@ + spawned.rendering@ + "` returned "@ + output.status@
                        + "; stdout: "@ + trimmed(output.stdout@) + "; stderr: "@ + trimmed(
                        output.stderr@,
                    ),
                },
            )
        },
    }
}

/// The content of a launch's outcome.
pub open spec fn raised(outcome: Result<Application>) -> std::result::Result<
    ApplicationView,
    ErrorView,
> {
    match outcome {
        Ok(application) => Ok(application@),
        Err(error) => Err(error@),
    }
}

/// The environment of a launch's sandbox.
pub open spec fn sealed(
    testbed: TestbedView,
    command: AppCommandView,
    application: ApplicationView,
) -> Map<Seq<u8>, Seq<u8>> {
    seal::seal_of(testbed.display, command.graphics, application.witness).union_prefer_right(
        command.env,
    )
}

/// The sandbox of a launch.
pub open spec fn sandbox_of(
    testbed: TestbedView,
    command: AppCommandView,
    binary: Seq<u8>,
    mounts: Seq<(Seq<u8>, Seq<u8>)>,
    graphics: GraphicsRuntime,
    environment: Environment,
) -> SandboxView {
    SandboxView {
        root: testbed.root,
        binary,
        graphics: graphics@,
        network: command.network,
        display: testbed.display,
        borrows: mounts,
        environment: environment.listing(),
    }
}

/// Whether starting a launch's service can come to an outcome. The graphics are
/// resolved first, and the service is started around the sandbox alone.
pub open spec fn starts<
    G: FnOnce(Graphics) -> Result<GraphicsRuntime>,
    S: FnOnce(&Vec<Vec<u8>>) -> Spawned,
>(
    testbed: TestbedView,
    command: AppCommandView,
    application: ApplicationView,
    binary: Seq<u8>,
    mounts: Seq<(Seq<u8>, Seq<u8>)>,
    graphics: G,
    spawn: S,
    outcome: std::result::Result<ApplicationView, ErrorView>,
) -> bool {
    exists|granted: Result<GraphicsRuntime>, environment: Environment| #[trigger]
        graphics.ensures((command.graphics,), granted) && #[trigger] environment@ == sealed(
            testbed,
            command,
            application,
        ) && match granted {
            Err(error) => outcome == Err::<ApplicationView, _>(error@),
            Ok(runtime) => match sandbox_of(
                testbed,
                command,
                binary,
                mounts,
                runtime,
                environment,
            ).shape() {
                Err(error) => outcome == Err::<ApplicationView, _>(error),
                Ok(shape) => exists|spawned: Spawned| #[trigger]
                    spawns(
                        spawn,
                        application::service_arguments(
                            application.unit,
                            testbed.root,
                            application.stdout,
                            application.stderr,
                            command.runtime,
                            command.network,
                            sandbox::launch_arguments(shape, command.args),
                        ),
                        spawned,
                    ) && outcome == admitted(application, spawned),
            },
        }
}

/// Whether a launch's service may be started: its graphics are asked for, and once
/// they are granted and the sandbox has a shape, the service is started with its own
/// arguments and no others.
pub open spec fn startable<
    G: FnOnce(Graphics) -> Result<GraphicsRuntime>,
    S: FnOnce(&Vec<Vec<u8>>) -> Spawned,
>(
    testbed: TestbedView,
    command: AppCommandView,
    application: ApplicationView,
    binary: Seq<u8>,
    mounts: Seq<(Seq<u8>, Seq<u8>)>,
    graphics: G,
    spawn: S,
) -> bool {
    &&& graphics.requires((command.graphics,))
    &&& forall|runtime: GraphicsRuntime, environment: Environment, arguments: &Vec<Vec<u8>>|
        graphics.ensures((command.graphics,), Ok(runtime)) && environment@ == sealed(
            testbed,
            command,
            application,
        ) && Some(text::views(arguments@)) == service_line(
            testbed,
            command,
            application,
            #[trigger] sandbox_of(testbed, command, binary, mounts, runtime, environment),
        ) ==> #[trigger] spawn.requires((arguments,))
}

/// The arguments that start a launch's service around its sandbox, if the sandbox
/// has a shape.
pub open spec fn service_line(
    testbed: TestbedView,
    command: AppCommandView,
    application: ApplicationView,
    sandbox: SandboxView,
) -> Option<Seq<Seq<u8>>> {
    match sandbox.shape() {
        Err(_) => None,
        Ok(shape) => Some(
            application::service_arguments(
                application.unit,
                testbed.root,
                application.stdout,
                application.stderr,
                command.runtime,
                command.network,
                sandbox::launch_arguments(shape, command.args),
            ),
        ),
    }
}

impl Launch {
    /// Start the launch's service around its sandbox.
    pub fn start<
        G: FnOnce(Graphics) -> Result<GraphicsRuntime>,
        S: FnOnce(&Vec<Vec<u8>>) -> Spawned,
    >(self, testbed: &Testbed, command: &AppCommand, graphics: G, spawn: S) -> (application: Result<
        Application,
    >)
        requires
            startable(
                testbed@,
                command@,
                self.application@,
                self.binary@,
                sandbox::mounts(self.borrows@),
                graphics,
                spawn,
            ),
        ensures
            starts(
                testbed@,
                command@,
                self.application@,
                self.binary@,
                sandbox::mounts(self.borrows@),
                graphics,
                spawn,
                raised(application),
            ),
    {
        let environment = sealed_environment(
            testbed.display_seal(),
            command,
            self.application.seal(),
        );
        assert(environment@ == sealed(testbed@, command@, self.application@));
        let granted = graphics(command.graphics_authority());
        assert(graphics.ensures((command@.graphics,), granted));
        let runtime = match granted {
            Ok(runtime) => runtime,
            Err(error) => {
                return Err(error);
            },
        };
        let bwrap = match bwrap_argv(
            testbed.root(),
            testbed.display_seal(),
            command,
            &self.binary,
            &self.borrows,
            &runtime,
            &environment,
        ) {
            Ok(bwrap) => bwrap,
            Err(error) => {
                return Err(error);
            },
        };
        let arguments = self.service_argv(testbed, command, &bwrap);
        assert(Some(text::views(arguments@)) == service_line(
            testbed@,
            command@,
            self.application@,
            sandbox_of(
                testbed@,
                command@,
                self.binary@,
                sandbox::mounts(self.borrows@),
                runtime,
                environment,
            ),
        ));
        let spawned = spawn(&arguments);
        assert(spawns(spawn, text::views(arguments@), spawned));
        match spawned.outcome {
            Ok(output) => self.started(spawned.rendering.as_str(), &output),
            Err(source) => Err(
                io(
                    "spawn transient application service",
                    &text_bytes("systemd-run"),
                    source,
                ),
            ),
        }
    }
}

/// Whether an admitted launch may go on: once all of its chores are done, its service
/// may be started.
pub open spec fn launchable<
    P: Stage<Deed, Source>,
    G: FnOnce(Graphics) -> Result<GraphicsRuntime>,
    S: FnOnce(&Vec<Vec<u8>>) -> Spawned,
>(
    testbed: TestbedView,
    command: AppCommandView,
    application: ApplicationView,
    paths: Paths,
    host: P,
    graphics: G,
    spawn: S,
) -> bool {
    forall|ready: P| #[trigger]
        all_done(chores_of(application), host, Ok(()), ready) ==> startable(
            testbed,
            command,
            application,
            paths.binary->Ok_0@,
            paths.mounts(command),
            graphics,
            spawn,
        )
}

impl Application {
    /// Launch a command as a transient service: its paths are resolved, its logs
    /// and its witness get their place, and its service is started.
    pub fn raise<
        R: Fn(&Vec<u8>) -> std::result::Result<Vec<u8>, Source>,
        I: Fn(&Vec<u8>) -> bool,
        P: Stage<Deed, Source>,
        G: FnOnce(Graphics) -> Result<GraphicsRuntime>,
        S: FnOnce(&Vec<Vec<u8>>) -> Spawned,
    >(
        testbed: &Testbed,
        command: &AppCommand,
        ordinal: u64,
        resolve: &R,
        is_file: &I,
        host: &mut P,
        graphics: G,
        spawn: S,
    ) -> (application: Result<Application>)
        requires
            within_reach(resolve, command@.binary),
            forall|path: Vec<u8>| #[trigger]
                resolves_to(resolve, command@.binary, Ok(path)) ==> within_reach(is_file, path@),
            forall|i: int|
                0 <= i < command@.borrows.len() ==> within_reach(
                    resolve,
                    #[trigger] command@.borrows[i],
                ),
            forall|paths: Paths| #[trigger]
                paths.told(command@, resolve, is_file) && application::launch_fault(
                    command@,
                    command.listing(),
                    paths.binary,
                    paths.is_file,
                    paths.borrows,
                ) is None ==> launchable(
                    testbed@,
                    command@,
                    application::named(testbed@, command@, ordinal),
                    paths,
                    *old(host),
                    graphics,
                    spawn,
                ),
        ensures
            exists|paths: Paths| #[trigger]
                paths.told(command@, resolve, is_file) && match application::launch_fault(
                    command@,
                    command.listing(),
                    paths.binary,
                    paths.is_file,
                    paths.borrows,
                ) {
                    Some(fault) => raised(application) == Err::<ApplicationView, _>(fault)
                        && *final(host) == *old(host),
                    None => {
                        let named = application::named(testbed@, command@, ordinal);
                        let list = chores_of(named);
                        ||| application matches Err(error) && all_done(
                            list,
                            *old(host),
                            Err(error@),
                            *final(host),
                        )
                        ||| all_done(list, *old(host), Ok(()), *final(host)) && starts(
                            testbed@,
                            command@,
                            named,
                            paths.binary->Ok_0@,
                            paths.mounts(command@),
                            graphics,
                            spawn,
                            raised(application),
                        )
                    },
                },
    {
        let binary = resolve(command.binary());
        assert(resolves_to(resolve, command@.binary, binary));
        let mut file: bool = false;
        match &binary {
            Ok(path) => {
                file = is_file(path);
                assert(tells(is_file, path@, file));
            },
            Err(_) => {},
        }
        let borrows = resolve_all(command.borrows(), resolve);
        let ghost paths = Paths { binary, is_file: file, borrows: borrows@ };
        assert(paths.told(command@, resolve, is_file));
        let launch = match Launch::raise(testbed, command, ordinal, binary, file, borrows) {
            Ok(launch) => launch,
            Err(error) => {
                return Err(error);
            },
        };
        assert(sandbox::mounts(launch.borrows@) =~= paths.mounts(command@));
        let list = launch.chores();
        match perform_all(&list, host) {
            Ok(unit) => {
                assert(unit == ());
            },
            Err(error) => {
                return Err(error);
            },
        }
        launch.start(testbed, command, graphics, spawn)
    }
}

/// A launch makes both logs afresh and clears the place of its own two journals, and it
/// removes nothing else.
pub proof fn law_launches_prepare_their_own_files(application: ApplicationView, path: Seq<u8>)
    ensures
        deeds(chores_of(application)).contains(DeedView::File(path)) <==> path == application.stdout
            || path == application.stderr,
        deeds(chores_of(application)).contains(DeedView::Removal(path)) <==> (
        application.witness matches Some(witness) && (path == witness.host || path
            == witness.frame_host)),
        ospath::parent_of(application.stdout) matches Some(directory) ==> deeds(
            chores_of(application),
        ).contains(DeedView::Directory(directory)),
        application.witness matches Some(witness) ==> (ospath::parent_of(
            witness.host,
        ) matches Some(directory) ==> deeds(chores_of(application)).contains(
            DeedView::Directory(directory),
        )),
{
    let list = chores_of(application);
    lemma_deeds(list);
    assert(list[0].deed() == (match ospath::parent_of(application.stdout) {
        None => None::<(DeedView, Seq<u8>)>,
        Some(directory) => Some((DeedView::Directory(directory), directory)),
    }));
    assert(list[1].deed() == Some((DeedView::File(application.stdout), application.stdout)));
    assert(list[3].deed() == Some((DeedView::File(application.stderr), application.stderr)));
    if let Some(witness) = application.witness {
        assert(list[4].deed() == (match ospath::parent_of(witness.host) {
            None => None::<(DeedView, Seq<u8>)>,
            Some(directory) => Some((DeedView::Directory(directory), directory)),
        }));
        assert(list[5].deed() == Some((DeedView::Removal(witness.host), witness.host)));
        assert(list[6].deed() == Some((DeedView::Removal(witness.frame_host), witness.frame_host)));
    }
}

proof fn lemma_deeds(list: Seq<ChoreView>)
    ensures
        forall|i: int|
            0 <= i < list.len() ==> ((#[trigger] list[i]).deed() matches Some((deed, _)) ==> deeds(
                list,
            ).contains(deed)),
        forall|deed: DeedView| #[trigger]
            deeds(list).contains(deed) ==> exists|i: int|
                0 <= i < list.len() && ((#[trigger] list[i]).deed() matches Some((done, _))
                    && done == deed),
    decreases list.len(),
{
    if list.len() > 0 {
        let front = list.drop_last();
        let rest = deeds(front);
        let whole = deeds(list);
        lemma_deeds(front);
        assert forall|i: int| 0 <= i < list.len() implies ((#[trigger] list[i]).deed() matches Some(
            (deed, _),
        ) ==> whole.contains(deed)) by {
            if let Some((deed, _)) = list[i].deed() {
                if i < front.len() {
                    assert(front[i] == list[i]);
                    assert(rest.contains(deed));
                    let at = choose|at: int| 0 <= at < rest.len() && rest[at] == deed;
                    assert(whole[at] == deed);
                } else {
                    assert(whole[whole.len() - 1] == deed);
                }
            }
        }
        assert forall|deed: DeedView| #[trigger] whole.contains(deed) implies exists|i: int|
            0 <= i < list.len() && ((#[trigger] list[i]).deed() matches Some((done, _)) && done
                == deed) by {
            let at = choose|at: int| 0 <= at < whole.len() && whole[at] == deed;
            if at < rest.len() {
                assert(rest[at] == deed);
                assert(rest.contains(deed));
                let i = choose|i: int|
                    0 <= i < front.len() && ((#[trigger] front[i]).deed() matches Some((done, _))
                        && done == deed);
                assert(list[i] == front[i]);
            } else {
                assert(list[list.len() - 1].deed() matches Some((done, _)) && done == deed);
            }
        }
    }
}

/// Only a file to be removed may be missing; every other failure of a chore is one.
pub proof fn law_only_missing_leftovers_are_forgiven(
    task: Task,
    operation: Seq<char>,
    path: Seq<u8>,
    outcome: std::result::Result<(), Source>,
)
    ensures
        judged(task, operation, path, outcome) is Ok <==> outcome is Ok || (task == Task::Removal
            && outcome->Err_0.kind == SourceKind::NotFound),
        judged(task, operation, path, outcome) matches Err(error) ==> (error matches ErrorView::Io {
            path: place,
            ..
        } && place == path),
{
}

/// A launch runs only where its graphics were granted, its sandbox has a shape, and the user
/// manager started its service; it then goes by the names it was given.
pub proof fn law_launches_run_once_granted<
    G: FnOnce(Graphics) -> Result<GraphicsRuntime>,
    S: FnOnce(&Vec<Vec<u8>>) -> Spawned,
>(
    testbed: TestbedView,
    command: AppCommandView,
    application: ApplicationView,
    binary: Seq<u8>,
    mounts: Seq<(Seq<u8>, Seq<u8>)>,
    graphics: G,
    spawn: S,
    running: ApplicationView,
)
    requires
        starts(testbed, command, application, binary, mounts, graphics, spawn, Ok(running)),
    ensures
        running == application,
        exists|runtime: GraphicsRuntime| #[trigger]
            graphics.ensures((command.graphics,), Ok::<GraphicsRuntime, Error>(runtime)),
        exists|line: &Vec<Vec<u8>>, spawned: Spawned| #[trigger]
            spawn.ensures((line,), spawned) && (spawned.outcome matches Ok(output)
                && output.success) && text::views(line@).contains(encode_utf8(application.unit)),
{
    let (granted, environment) = choose|
        granted: Result<GraphicsRuntime>,
        environment: Environment,
    |
        #[trigger] graphics.ensures((command.graphics,), granted) && #[trigger] environment@ == sealed(
            testbed,
            command,
            application,
        ) && match granted {
            Err(error) => false,
            Ok(runtime) => match sandbox_of(
                testbed,
                command,
                binary,
                mounts,
                runtime,
                environment,
            ).shape() {
                Err(error) => false,
                Ok(shape) => exists|spawned: Spawned| #[trigger]
                    spawns(
                        spawn,
                        application::service_arguments(
                            application.unit,
                            testbed.root,
                            application.stdout,
                            application.stderr,
                            command.runtime,
                            command.network,
                            sandbox::launch_arguments(shape, command.args),
                        ),
                        spawned,
                    ) && Ok::<_, ErrorView>(running) == admitted(application, spawned),
            },
        };
    let runtime = granted->Ok_0;
    assert(graphics.ensures((command.graphics,), Ok::<GraphicsRuntime, Error>(runtime)));
    let shape = sandbox_of(testbed, command, binary, mounts, runtime, environment).shape()->Ok_0;
    let words = application::service_arguments(
        application.unit,
        testbed.root,
        application.stdout,
        application.stderr,
        command.runtime,
        command.network,
        sandbox::launch_arguments(shape, command.args),
    );
    let spawned = choose|spawned: Spawned| #[trigger]
        spawns(spawn, words, spawned) && Ok::<_, ErrorView>(running) == admitted(
            application,
            spawned,
        );
    let line = choose|arguments: &Vec<Vec<u8>>|
        text::views(arguments@) == words && #[trigger] spawn.ensures((arguments,), spawned);
    assert(words[4] == encode_utf8(application.unit));
    assert(text::views(line@).contains(encode_utf8(application.unit)));
    assert(spawn.ensures((line,), spawned));
}

} // verus!
