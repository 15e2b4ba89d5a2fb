//! The resolution of a dependency tree, one fetched manifest at a time.
//!
//! A run starts with the address of the root manifest. The caller fetches the
//! address that the resolver names, hands the reply to [`Resolver::step`], and
//! goes on until no address is left. The resolver walks the tree depth first:
//! a manifest's parent, with all that the parent leads to, comes before the
//! manifest's own dependencies, and these are taken in the order of their
//! declaration, each with all that it leads to before the next.
//!
//! Where two branches lead to one identity, the branch that is walked first
//! resolves it and the other drops it, whatever version it names. Three things
//! are resolved although their identity may be registered: a parent, an
//! identity that one manifest declares twice, and a manifest that gives
//! another identity than the declaration that led to it. There the later
//! version replaces the earlier.
//!
//! Manifests can name each other in a circle. The resolver does not look for
//! that: the caller bounds the number of fetches.
use vstd::prelude::*;
use crate::pom::coordinate::effective;
use crate::pom::error::{CauseModel, ErrorModel, FetchCause, ResolveError};
use crate::pom::filter::{excluded_set, followed, select_dependencies};
use crate::pom::pom_url;
use crate::pom::registry::{all_resolved, distinct_keys, versions_of, Registry};
use crate::pom::structure::{
    clone_dependencies,
    clone_exclusions,
    declarations_of,
    text_of,
    Declaration,
    Dependency,
    Exclusion,
    Key,
    Manifest,
    Project,
};
use crate::pom::DependencyInfo;

verus! {

/// What came back for an address that the resolver asked for.
#[derive(Debug, PartialEq, Eq)]
pub enum Reply {
    /// No response: the text describes the transport failure.
    Failed(String),
    /// A response with its status and, decoded, its body: the manifest, or
    /// the reason why the body is none.
    Answered { status: i32, body: Result<Project, String> },
}

/// Model of a [`Reply`].
pub enum ReplyModel {
    Failed(Seq<char>),
    Answered { status: int, body: Result<Manifest, Seq<char>> },
}

impl View for Reply {
    type V = ReplyModel;

    open spec fn view(&self) -> ReplyModel {
        match self {
            Reply::Failed(text) => ReplyModel::Failed(text@),
            Reply::Answered { status, body } => ReplyModel::Answered {
                status: *status as int,
                body: match body {
                    Ok(project) => Ok(project@),
                    Err(text) => Err(text@),
                },
            },
        }
    }
}

/// One piece of pending work.
pub enum Pending {
    /// A manifest to fetch, with the identities that the edge leading to it
    /// keeps out of its dependencies.
    Fetch { url: Seq<char>, exclusions: Set<Key> },
    /// The dependencies of a manifest whose parent is being resolved: they
    /// are judged once the parent is done, against the registry as it then
    /// stands.
    Filter { declared: Seq<Declaration>, exclusions: Set<Key> },
}

/// The state of a run: what is registered, and the work that is pending, the
/// next piece last.
pub struct State {
    pub registry: Map<Key, Seq<char>>,
    pub stack: Seq<Pending>,
}

/// The state in which a run starts.
pub open spec fn initial(url: Seq<char>) -> State {
    State {
        registry: Map::empty(),
        stack: seq![Pending::Fetch { url, exclusions: Set::empty() }],
    }
}

/// The fetch that follows a declaration.
pub open spec fn task_of(declaration: Declaration) -> Pending {
    Pending::Fetch {
        url: pom_url(declaration.group, declaration.artifact, declaration.version.unwrap()),
        exclusions: declaration.excluded(),
    }
}

/// The fetches for a list of declarations as they are stacked: the first
/// declaration's fetch last, so that it is the next one.
pub open spec fn tasks_of(chosen: Seq<Declaration>) -> Seq<Pending> {
    Seq::new(chosen.len(), |k: int| task_of(chosen[chosen.len() - 1 - k]))
}

/// Every declaration of the list names a version.
pub open spec fn all_versioned(list: Seq<Declaration>) -> bool {
    forall|i: int| 0 <= i < list.len() ==> (#[trigger] list[i]).version.is_some()
}

/// The declaration at `at` names no version, and every one before it does.
pub open spec fn unversioned_at(list: Seq<Declaration>, at: int) -> bool {
    &&& 0 <= at < list.len()
    &&& list[at].version.is_none()
    &&& forall|j: int| 0 <= j < at ==> (#[trigger] list[j]).version.is_some()
}

/// The first declaration of the list that names no version, where there is
/// one.
pub open spec fn first_unversioned(list: Seq<Declaration>) -> Declaration {
    list[choose|at: int| unversioned_at(list, at)]
}

/// The error for a coordinate that is declared without a version.
pub open spec fn missing_version(group: Seq<char>, artifact: Seq<char>) -> ErrorModel {
    ErrorModel::MissingVersion { group, artifact }
}

/// Judges the dependency lists that are due: while the next piece of work is
/// a list, it is replaced by the fetches of its followed declarations. A
/// followed declaration without a version ends the run, with an error that
/// names the first such declaration.
pub open spec fn settle(state: State) -> Result<State, ErrorModel>
    decreases state.stack.len(),
{
    if state.stack.len() == 0 {
        Ok(state)
    } else {
        match state.stack.last() {
            Pending::Fetch { .. } => Ok(state),
            Pending::Filter { declared, exclusions } => {
                let chosen = followed(declared, state.registry, exclusions);
                if !all_versioned(chosen) {
                    Err(
                        missing_version(
                            first_unversioned(chosen).group,
                            first_unversioned(chosen).artifact,
                        ),
                    )
                } else if chosen.len() == 0 {
                    settle(State { registry: state.registry, stack: state.stack.drop_last() })
                } else {
                    Ok(
                        State {
                            registry: state.registry,
                            stack: state.stack.drop_last() + tasks_of(chosen),
                        },
                    )
                }
            },
        }
    }
}

/// Takes in the manifest that was fetched for the next piece of work, which
/// is a fetch with the exclusions given. The manifest's effective coordinate
/// is registered, replacing an earlier version of the same identity. Its
/// dependencies wait until its parent, if it has one, is resolved.
pub open spec fn absorb(rest: State, exclusions: Set<Key>, manifest: Manifest) -> Result<
    State,
    ErrorModel,
> {
    match effective(manifest) {
        Err(e) => Err(e),
        Ok((group, artifact, version)) => {
            let registry = rest.registry.insert((group, artifact), version);
            let stack = match manifest.dependencies {
                Some(declared) => rest.stack.push(Pending::Filter { declared, exclusions }),
                None => rest.stack,
            };
            match manifest.parent {
                None => settle(State { registry, stack }),
                Some(parent) => match parent.version {
                    None => Err(missing_version(parent.group, parent.artifact)),
                    Some(version) => Ok(
                        State {
                            registry,
                            stack: stack.push(
                                Pending::Fetch {
                                    url: pom_url(parent.group, parent.artifact, version),
                                    exclusions: Set::empty(),
                                },
                            ),
                        },
                    ),
                },
            }
        },
    }
}

/// One step of a run: the reply to the fetch that is next. A failed
/// transport and a status other than 200 are fetch errors, a body that is no
/// manifest is a parse error, and each ends the run. With nothing pending the
/// state stays as it is.
pub open spec fn step(state: State, reply: ReplyModel) -> Result<State, ErrorModel> {
    if state.stack.len() == 0 {
        Ok(state)
    } else {
        match state.stack.last() {
            Pending::Filter { .. } => settle(state),
            Pending::Fetch { url, exclusions } => match reply {
                ReplyModel::Failed(text) => Err(
                    ErrorModel::Fetch { url, cause: CauseModel::Transport(text) },
                ),
                ReplyModel::Answered { status, body } => if status != 200 {
                    Err(ErrorModel::Fetch { url, cause: CauseModel::Status(status) })
                } else {
                    match body {
                        Err(text) => Err(ErrorModel::Parse { url, cause: text }),
                        Ok(manifest) => absorb(
                            State { registry: state.registry, stack: state.stack.drop_last() },
                            exclusions,
                            manifest,
                        ),
                    }
                },
            },
        }
    }
}

/// A state between two steps: no dependency list is due.
pub open spec fn settled(state: State) -> bool {
    state.stack.len() == 0 || state.stack.last() is Fetch
}

/// The address that is to be fetched next; none when the run is over.
pub open spec fn next_of(state: State) -> Option<Seq<char>> {
    if state.stack.len() == 0 {
        None
    } else {
        match state.stack.last() {
            Pending::Fetch { url, .. } => Some(url),
            Pending::Filter { .. } => None,
        }
    }
}

/// A piece of pending work as the resolver holds it.
enum Frame {
    Fetch { url: String, exclusions: Vec<Exclusion> },
    Filter { declared: Vec<Dependency>, exclusions: Vec<Exclusion> },
}

impl View for Frame {
    type V = Pending;

    closed spec fn view(&self) -> Pending {
        match self {
            Frame::Fetch { url, exclusions } => Pending::Fetch {
                url: url@,
                exclusions: excluded_set(exclusions@),
            },
            Frame::Filter { declared, exclusions } => Pending::Filter {
                declared: declarations_of(declared@),
                exclusions: excluded_set(exclusions@),
            },
        }
    }
}

/// The models of the pieces of work on a stack.
spec fn frames_of(stack: Seq<Frame>) -> Seq<Pending> {
    stack.map_values(|f: Frame| f@)
}

/// Looks for a declaration without a version. Finds the first one.
fn check_versions(chosen: &Vec<Dependency>) -> (checked: Result<(), ResolveError>)
    ensures
        match checked {
            Ok(()) => all_versioned(declarations_of(chosen@)),
            Err(e) => !all_versioned(declarations_of(chosen@)) && e@ == missing_version(
                first_unversioned(declarations_of(chosen@)).group,
                first_unversioned(declarations_of(chosen@)).artifact,
            ),
        },
{
    let ghost models = declarations_of(chosen@);
    let mut i: usize = 0;
    while i < chosen.len()
        invariant
            i <= chosen.len(),
            models == declarations_of(chosen@),
            forall|j: int| 0 <= j < i ==> (#[trigger] models[j]).version.is_some(),
        decreases chosen.len() - i,
    {
        if chosen[i].version.is_none() {
            proof {
                assert(unversioned_at(models, i as int));
                let c = choose|at: int| unversioned_at(models, at);
                if c < i {
                    assert(models[c].version.is_some());
                } else if i < c {
                    assert(models[i as int].version.is_some());
                }
            }
            return Err(
                ResolveError::MissingVersion {
                    group_id: chosen[i].group_id.clone(),
                    artifact_id: chosen[i].artifact_id.clone(),
                },
            );
        }
        i = i + 1;
    }
    Ok(())
}

/// Stacks the fetches of the chosen declarations, the first one's last.
fn push_tasks(stack: &mut Vec<Frame>, chosen: &Vec<Dependency>)
    requires
        all_versioned(declarations_of(chosen@)),
    ensures
        frames_of(final(stack)@) == frames_of(old(stack)@) + tasks_of(declarations_of(chosen@)),
{
    let ghost models = declarations_of(chosen@);
    let ghost below = frames_of(stack@);
    let n: usize = chosen.len();
    let mut i: usize = n;
    proof {
        assert(tasks_of(models).take(0) =~= Seq::<Pending>::empty());
        assert(frames_of(stack@) =~= below + tasks_of(models).take(0));
    }
    while i > 0
        invariant
            n == chosen.len(),
            models == declarations_of(chosen@),
            all_versioned(models),
            i <= n,
            frames_of(stack@) == below + tasks_of(models).take(n - i),
        decreases i,
    {
        i = i - 1;
        let dependency = &chosen[i];
        assert(models[i as int].version.is_some());
        match dependency.to_pom_url() {
            Err(_) => {},
            Ok(url) => {
                let exclusions: Vec<Exclusion> = match &dependency.exclusions {
                    Some(list) => clone_exclusions(&list.exclusions),
                    None => Vec::new(),
                };
                proof {
                    assert(excluded_set(exclusions@) =~= models[i as int].excluded());
                }
                let frame = Frame::Fetch { url, exclusions };
                assert(frame@ == task_of(models[i as int]));
                let ghost before = stack@;
                stack.push(frame);
                proof {
                    assert(frames_of(stack@) =~= frames_of(before).push(frame@));
                    assert(tasks_of(models).take(n - i) =~= tasks_of(models).take(n - i - 1).push(
                        task_of(models[i as int]),
                    ));
                    assert(frames_of(stack@) =~= below + tasks_of(models).take(n - i));
                }
            },
        }
    }
    proof {
        assert(tasks_of(models).take(n as int) =~= tasks_of(models));
    }
}

/// A resolution run in progress: the registry of what is resolved, and the
/// work that is pending.
pub struct Resolver {
    registry: Registry,
    stack: Vec<Frame>,
}

impl View for Resolver {
    type V = State;

    closed spec fn view(&self) -> State {
        State { registry: self.registry@, stack: frames_of(self.stack@) }
    }
}

impl Resolver {
    /// Starts a run at the manifest with the given address.
    pub fn new(url: &str) -> (resolver: Self)
        ensures
            resolver@ == initial(url@),
    {
        let mut stack: Vec<Frame> = Vec::new();
        let exclusions: Vec<Exclusion> = Vec::new();
        proof {
            assert(excluded_set(exclusions@) =~= Set::<Key>::empty());
        }
        stack.push(Frame::Fetch { url: String::from_str(url), exclusions });
        let resolver = Resolver { registry: Registry::new(), stack };
        proof {
            assert(resolver@.stack =~= initial(url@).stack);
        }
        resolver
    }

    /// The address of the manifest whose reply the next step takes; none when
    /// the run is over.
    pub fn next_url(&self) -> (url: Option<String>)
        ensures
            text_of(url) == next_of(self@),
    {
        let n: usize = self.stack.len();
        if n == 0 {
            None
        } else {
            match &self.stack[n - 1] {
                Frame::Fetch { url, .. } => Some(url.clone()),
                Frame::Filter { .. } => None,
            }
        }
    }

    /// Whether the run is over: nothing is pending.
    pub fn is_done(&self) -> (done: bool)
        ensures
            done == (self@.stack.len() == 0),
    {
        self.stack.len() == 0
    }

    /// Judges the dependency lists that are due.
    fn settle(self) -> (next: Result<Resolver, ResolveError>)
        ensures
            match next {
                Ok(resolver) => settle(self@) == Ok::<State, ErrorModel>(resolver@),
                Err(e) => settle(self@) == Err::<State, ErrorModel>(e@),
            },
    {
        let mut this = self;
        loop
            invariant
                settle(this@) == settle(self@),
            decreases this.stack.len(),
        {
            let n: usize = this.stack.len();
            if n == 0 {
                return Ok(this);
            }
            let due: bool = match &this.stack[n - 1] {
                Frame::Filter { .. } => true,
                Frame::Fetch { .. } => false,
            };
            if !due {
                return Ok(this);
            }
            let ghost before = this@;
            let frame = this.stack.pop().unwrap();
            proof {
                assert(frames_of(this.stack@) =~= before.stack.drop_last());
            }
            match frame {
                Frame::Fetch { .. } => {},
                Frame::Filter { declared, exclusions } => {
                    let chosen = select_dependencies(&declared, &this.registry, &exclusions);
                    match check_versions(&chosen) {
                        Err(e) => {
                            return Err(e);
                        },
                        Ok(()) => {
                            push_tasks(&mut this.stack, &chosen);
                            if chosen.len() > 0 {
                                return Ok(this);
                            }
                            proof {
                                assert(tasks_of(declarations_of(chosen@)) =~= Seq::<
                                    Pending,
                                >::empty());
                                assert(this@.stack =~= before.stack.drop_last());
                            }
                        },
                    }
                },
            }
        }
    }

    /// Takes in the manifest fetched for a piece of work that has been taken
    /// off the stack.
    fn absorb(self, exclusions: Vec<Exclusion>, project: &Project) -> (next: Result<
        Resolver,
        ResolveError,
    >)
        ensures
            match next {
                Ok(resolver) => absorb(self@, excluded_set(exclusions@), project@) == Ok::<
                    State,
                    ErrorModel,
                >(resolver@),
                Err(e) => absorb(self@, excluded_set(exclusions@), project@) == Err::<
                    State,
                    ErrorModel,
                >(e@),
            },
    {
        let mut this = self;
        match project.effective() {
            Err(e) => Err(e),
            Ok((group, artifact, version)) => {
                this.registry.put(DependencyInfo::new(group, artifact), version);
                match &project.dependencies {
                    Some(list) => {
                        let ghost before = this.stack@;
                        let frame = Frame::Filter {
                            declared: clone_dependencies(&list.dependencies),
                            exclusions,
                        };
                        this.stack.push(frame);
                        proof {
                            assert(frames_of(this.stack@) =~= frames_of(before).push(frame@));
                        }
                    },
                    None => {},
                }
                match &project.parent {
                    None => this.settle(),
                    Some(parent) => match parent.to_pom_url() {
                        Err(e) => Err(e),
                        Ok(url) => {
                            let ghost before = this.stack@;
                            let none: Vec<Exclusion> = Vec::new();
                            proof {
                                assert(excluded_set(none@) =~= Set::<Key>::empty());
                            }
                            let frame = Frame::Fetch { url, exclusions: none };
                            this.stack.push(frame);
                            proof {
                                assert(frames_of(this.stack@) =~= frames_of(before).push(frame@));
                            }
                            Ok(this)
                        },
                    },
                }
            },
        }
    }

    /// Takes the reply to the fetch of [`Resolver::next_url`]. The run goes
    /// on with the resolver that is returned, or ends with the error.
    pub fn step(self, reply: &Reply) -> (next: Result<Resolver, ResolveError>)
        ensures
            match next {
                Ok(resolver) => step(self@, reply@) == Ok::<State, ErrorModel>(resolver@),
                Err(e) => step(self@, reply@) == Err::<State, ErrorModel>(e@),
            },
    {
        let mut this = self;
        let n: usize = this.stack.len();
        if n == 0 {
            return Ok(this);
        }
        let due: bool = match &this.stack[n - 1] {
            Frame::Filter { .. } => true,
            Frame::Fetch { .. } => false,
        };
        if due {
            return this.settle();
        }
        let ghost before = this@;
        let frame = this.stack.pop().unwrap();
        proof {
            assert(frames_of(this.stack@) =~= before.stack.drop_last());
        }
        match frame {
            Frame::Filter { .. } => Ok(this),
            Frame::Fetch { url, exclusions } => match reply {
                Reply::Failed(text) => Err(
                    ResolveError::FetchError { url, cause: FetchCause::Transport(text.clone()) },
                ),
                Reply::Answered { status, body } => {
                    if *status != 200 {
                        Err(ResolveError::FetchError { url, cause: FetchCause::Status(*status) })
                    } else {
                        match body {
                            Err(text) => Err(ResolveError::ParseError { url, cause: text.clone() }),
                            Ok(project) => this.absorb(exclusions, project),
                        }
                    }
                },
            },
        }
    }

    /// Ends a run that is over: the resolved coordinates, one per identity.
    /// A run with work pending gives nothing.
    pub fn finish(self) -> (resolved: Option<Vec<Dependency>>)
        ensures
            resolved.is_some() <==> self@.stack.len() == 0,
            match resolved {
                Some(list) => distinct_keys(declarations_of(list@)) && all_resolved(
                    declarations_of(list@),
                ) && versions_of(declarations_of(list@)) == self@.registry,
                None => true,
            },
    {
        if self.stack.len() == 0 {
            Some(self.registry.into_entries())
        } else {
            None
        }
    }
}

} // verus!
