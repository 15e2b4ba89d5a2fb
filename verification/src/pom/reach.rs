//! What a run reaches: every coordinate of a result goes back to the root or
//! to a declaration that may be followed, and every fetch that a run takes
//! up is made before the run ends.
use vstd::prelude::*;
use crate::pom::coordinate::effective;
use crate::pom::error::ErrorModel;
use crate::pom::filter::followed;
use crate::pom::laws::{
    lemma_absorb_settles,
    lemma_followed_was_declared_and_admitted,
    lemma_run_keeps_registered,
    lemma_step_settles,
};
use crate::pom::resolver::{
    absorb,
    initial,
    next_of,
    settle,
    settled,
    step,
    task_of,
    tasks_of,
    Pending,
    ReplyModel,
    State,
};
use crate::pom::structure::{Declaration, Key, Manifest};
use crate::pom::{pom_url, reply_for, run, ServedModel};

verus! {

/// The manifest that a repository serves at an address: the body of a reply
/// with status 200, where that body is a manifest.
pub open spec fn manifest_at(served: Seq<ServedModel>, url: Seq<char>) -> Option<Manifest> {
    match reply_for(served, url) {
        ReplyModel::Answered { status, body } => if status == 200 {
            match body {
                Ok(manifest) => Some(manifest),
                Err(_) => None,
            }
        } else {
            None
        },
        ReplyModel::Failed(_) => None,
    }
}

/// A declaration that can be followed at all: it names a version and is
/// neither declared for tests nor optional.
pub open spec fn eligible(declaration: Declaration) -> bool {
    &&& declaration.version.is_some()
    &&& !declaration.is_test()
    &&& !declaration.is_optional()
}

/// The manifest names, as its parent or in an eligible declaration, the
/// coordinate whose manifest lies at `to`.
pub open spec fn names(manifest: Manifest, to: Seq<char>) -> bool {
    ||| (manifest.parent.is_some() && manifest.parent.unwrap().version.is_some() && to == pom_url(
        manifest.parent.unwrap().group,
        manifest.parent.unwrap().artifact,
        manifest.parent.unwrap().version.unwrap(),
    ))
    ||| (manifest.dependencies.is_some() && exists|j: int|
        0 <= j < manifest.dependencies.unwrap().len() && eligible(
            #[trigger] manifest.dependencies.unwrap()[j],
        ) && task_of(manifest.dependencies.unwrap()[j])->url == to)
}

/// The manifest served at `from` names the coordinate whose manifest lies at
/// `to`.
pub open spec fn leads_to(served: Seq<ServedModel>, from: Seq<char>, to: Seq<char>) -> bool {
    manifest_at(served, from).is_some() && names(manifest_at(served, from).unwrap(), to)
}

/// An address that a run from `root` can come to fetch: the root's, or one
/// that some served manifest leads to.
pub open spec fn within_reach(served: Seq<ServedModel>, root: Seq<char>, url: Seq<char>) -> bool {
    url == root || exists|from: Seq<char>| leads_to(served, from, url)
}

/// The coordinate is the effective coordinate of a manifest served at an
/// address within reach.
pub open spec fn stems_from_reach(
    served: Seq<ServedModel>,
    root: Seq<char>,
    key: Key,
    version: Seq<char>,
) -> bool {
    exists|url: Seq<char>|
        #[trigger] within_reach(served, root, url) && manifest_at(served, url).is_some()
            && effective(manifest_at(served, url).unwrap()) == Ok::<
            (Seq<char>, Seq<char>, Seq<char>),
            ErrorModel,
        >((key.0, key.1, version))
}

/// A piece of pending work that a run from `root` against the repository
/// can hold: a fetch within reach, or the dependency list of a served
/// manifest.
pub open spec fn grounded_work(served: Seq<ServedModel>, root: Seq<char>, work: Pending) -> bool {
    match work {
        Pending::Fetch { url, .. } => within_reach(served, root, url),
        Pending::Filter { declared, .. } => exists|from: Seq<char>|
            (#[trigger] manifest_at(served, from)).is_some() && manifest_at(
                served,
                from,
            ).unwrap().dependencies == Some(declared),
    }
}

/// A state in which every registered coordinate and every piece of pending
/// work goes back to the repository and the root.
pub open spec fn grounded(served: Seq<ServedModel>, root: Seq<char>, state: State) -> bool {
    &&& forall|key: Key| #[trigger]
        state.registry.contains_key(key) ==> stems_from_reach(
            served,
            root,
            key,
            state.registry[key],
        )
    &&& forall|i: int|
        0 <= i < state.stack.len() ==> grounded_work(served, root, #[trigger] state.stack[i])
}

/// Judging the dependency lists that are due keeps a state grounded: every
/// fetch that is stacked is that of an eligible declaration of a served
/// manifest.
pub proof fn lemma_settle_grounded(served: Seq<ServedModel>, root: Seq<char>, state: State)
    requires
        grounded(served, root, state),
        settle(state) is Ok,
    ensures
        grounded(served, root, settle(state)->Ok_0),
    decreases state.stack.len(),
{
    if state.stack.len() > 0 {
        match state.stack.last() {
            Pending::Fetch { .. } => {},
            Pending::Filter { declared, exclusions } => {
                let chosen = followed(declared, state.registry, exclusions);
                let below = State { registry: state.registry, stack: state.stack.drop_last() };
                assert forall|i: int| 0 <= i < below.stack.len() implies grounded_work(
                    served,
                    root,
                    #[trigger] below.stack[i],
                ) by {
                    assert(below.stack[i] == state.stack[i]);
                }
                if chosen.len() == 0 {
                    lemma_settle_grounded(served, root, below);
                } else {
                    let next = settle(state)->Ok_0;
                    assert(grounded_work(served, root, state.stack[state.stack.len() - 1]));
                    let from = choose|from: Seq<char>|
                        (#[trigger] manifest_at(served, from)).is_some() && manifest_at(
                            served,
                            from,
                        ).unwrap().dependencies == Some(declared);
                    let manifest = manifest_at(served, from).unwrap();
                    assert forall|i: int| 0 <= i < next.stack.len() implies grounded_work(
                        served,
                        root,
                        #[trigger] next.stack[i],
                    ) by {
                        if i < below.stack.len() {
                            assert(next.stack[i] == below.stack[i]);
                        } else {
                            let k = i - below.stack.len();
                            let d = chosen[chosen.len() - 1 - k];
                            assert(next.stack[i] == task_of(d));
                            assert(chosen.contains(d));
                            lemma_followed_was_declared_and_admitted(
                                declared,
                                state.registry,
                                exclusions,
                                d,
                            );
                            let j = choose|j: int| 0 <= j < declared.len() && declared[j] == d;
                            assert(eligible(manifest.dependencies.unwrap()[j]));
                            assert(names(manifest, task_of(d)->url));
                            assert(leads_to(served, from, task_of(d)->url));
                        }
                    }
                }
            },
        }
    }
}

/// Taking in the manifest served at an address within reach keeps a state
/// grounded.
pub proof fn lemma_absorb_grounded(
    served: Seq<ServedModel>,
    root: Seq<char>,
    rest: State,
    exclusions: Set<Key>,
    url: Seq<char>,
)
    requires
        grounded(served, root, rest),
        within_reach(served, root, url),
        manifest_at(served, url).is_some(),
        absorb(rest, exclusions, manifest_at(served, url).unwrap()) is Ok,
    ensures
        grounded(served, root, absorb(rest, exclusions, manifest_at(served, url).unwrap())->Ok_0),
{
    let manifest = manifest_at(served, url).unwrap();
    let coordinate = effective(manifest)->Ok_0;
    let registry = rest.registry.insert((coordinate.0, coordinate.1), coordinate.2);
    let stack = match manifest.dependencies {
        Some(declared) => rest.stack.push(Pending::Filter { declared, exclusions }),
        None => rest.stack,
    };
    let middle = State { registry, stack };
    assert forall|key: Key| #[trigger] middle.registry.contains_key(key) implies stems_from_reach(
        served,
        root,
        key,
        middle.registry[key],
    ) by {
        if key == (coordinate.0, coordinate.1) {
            assert(within_reach(served, root, url));
        } else {
            assert(rest.registry.contains_key(key));
        }
    }
    assert forall|i: int| 0 <= i < middle.stack.len() implies grounded_work(
        served,
        root,
        #[trigger] middle.stack[i],
    ) by {
        if i < rest.stack.len() {
            assert(middle.stack[i] == rest.stack[i]);
        } else {
            assert(manifest_at(served, url).is_some());
        }
    }
    match manifest.parent {
        None => {
            lemma_settle_grounded(served, root, middle);
        },
        Some(parent) => {
            let next = absorb(rest, exclusions, manifest)->Ok_0;
            let to = pom_url(parent.group, parent.artifact, parent.version.unwrap());
            assert(names(manifest, to));
            assert(leads_to(served, url, to));
            assert forall|i: int| 0 <= i < next.stack.len() implies grounded_work(
                served,
                root,
                #[trigger] next.stack[i],
            ) by {
                if i < middle.stack.len() {
                    assert(next.stack[i] == middle.stack[i]);
                }
            }
        },
    }
}

/// Every coordinate in the result of a run is the effective coordinate of a
/// manifest that the repository serves at the root's address or at one that
/// a served manifest leads to, as a parent or through a declaration that is
/// neither for tests nor optional. What only declarations for tests and
/// optional declarations lead to is not in the result.
pub proof fn lemma_run_grounded(
    served: Seq<ServedModel>,
    root: Seq<char>,
    state: State,
    limit: nat,
    key: Key,
)
    requires
        grounded(served, root, state),
        settled(state),
        run(state, served, limit) is Ok,
        run(state, served, limit)->Ok_0.contains_key(key),
    ensures
        stems_from_reach(served, root, key, run(state, served, limit)->Ok_0[key]),
    decreases limit,
{
    match next_of(state) {
        None => {},
        Some(url) => {
            let reply = reply_for(served, url);
            let next = step(state, reply)->Ok_0;
            let exclusions = state.stack.last()->Fetch_exclusions;
            let rest = State { registry: state.registry, stack: state.stack.drop_last() };
            assert(grounded_work(served, root, state.stack[state.stack.len() - 1]));
            assert forall|i: int| 0 <= i < rest.stack.len() implies grounded_work(
                served,
                root,
                #[trigger] rest.stack[i],
            ) by {
                assert(rest.stack[i] == state.stack[i]);
            }
            lemma_absorb_grounded(served, root, rest, exclusions, url);
            lemma_step_settles(state, reply);
            lemma_run_grounded(served, root, next, (limit - 1) as nat, key);
        },
    }
}

/// The law of [`lemma_run_grounded`] for a whole run from its root.
pub proof fn lemma_result_within_reach(
    served: Seq<ServedModel>,
    root: Seq<char>,
    limit: nat,
    key: Key,
)
    requires
        run(initial(root), served, limit) is Ok,
        run(initial(root), served, limit)->Ok_0.contains_key(key),
    ensures
        stems_from_reach(served, root, key, run(initial(root), served, limit)->Ok_0[key]),
{
    let start = initial(root);
    assert(start.stack.last() == Pending::Fetch { url: root, exclusions: Set::<Key>::empty() });
    lemma_run_grounded(served, root, start, limit, key);
}

/// Judging the dependency lists that are due leaves every pending fetch
/// where it is.
pub proof fn lemma_settle_keeps_fetches(state: State, at: int)
    requires
        settle(state) is Ok,
        0 <= at < state.stack.len(),
        state.stack[at] is Fetch,
    ensures
        at < settle(state)->Ok_0.stack.len(),
        settle(state)->Ok_0.stack[at] == state.stack[at],
    decreases state.stack.len(),
{
    match state.stack.last() {
        Pending::Fetch { .. } => {},
        Pending::Filter { declared, exclusions } => {
            let chosen = followed(declared, state.registry, exclusions);
            if chosen.len() == 0 {
                lemma_settle_keeps_fetches(
                    State { registry: state.registry, stack: state.stack.drop_last() },
                    at,
                );
            }
        },
    }
}

/// A step leaves every pending fetch but the one it answers where it is.
pub proof fn lemma_step_keeps_fetches(state: State, reply: ReplyModel, at: int)
    requires
        settled(state),
        step(state, reply) is Ok,
        0 <= at < state.stack.len() - 1,
        state.stack[at] is Fetch,
    ensures
        at < step(state, reply)->Ok_0.stack.len(),
        step(state, reply)->Ok_0.stack[at] == state.stack[at],
{
    let exclusions = state.stack.last()->Fetch_exclusions;
    let manifest = reply->Answered_body->Ok_0;
    let rest = State { registry: state.registry, stack: state.stack.drop_last() };
    let coordinate = effective(manifest)->Ok_0;
    let registry = rest.registry.insert((coordinate.0, coordinate.1), coordinate.2);
    let stack = match manifest.dependencies {
        Some(declared) => rest.stack.push(Pending::Filter { declared, exclusions }),
        None => rest.stack,
    };
    assert(stack[at] == state.stack[at]);
    if manifest.parent.is_none() {
        lemma_settle_keeps_fetches(State { registry, stack }, at);
    }
}

/// Every fetch that is pending at some point of a run that comes to an end
/// is made: the repository serves a manifest at its address, and the
/// manifest's identity is in the result.
pub proof fn lemma_pending_fetch_is_resolved(
    served: Seq<ServedModel>,
    state: State,
    limit: nat,
    at: int,
)
    requires
        settled(state),
        run(state, served, limit) is Ok,
        0 <= at < state.stack.len(),
        state.stack[at] is Fetch,
    ensures
        manifest_at(served, state.stack[at]->url).is_some(),
        effective(manifest_at(served, state.stack[at]->url).unwrap()) is Ok,
        ({
            let coordinate = effective(manifest_at(served, state.stack[at]->url).unwrap())->Ok_0;
            run(state, served, limit)->Ok_0.contains_key((coordinate.0, coordinate.1))
        }),
    decreases limit,
{
    let url = next_of(state).unwrap();
    let reply = reply_for(served, url);
    let next = step(state, reply)->Ok_0;
    lemma_step_settles(state, reply);
    if at == state.stack.len() - 1 {
        let exclusions = state.stack.last()->Fetch_exclusions;
        let manifest = reply->Answered_body->Ok_0;
        let rest = State { registry: state.registry, stack: state.stack.drop_last() };
        lemma_absorb_settles(rest, exclusions, manifest);
        let coordinate = effective(manifest)->Ok_0;
        lemma_run_keeps_registered(
            next,
            served,
            (limit - 1) as nat,
            (coordinate.0, coordinate.1),
        );
    } else {
        lemma_step_keeps_fetches(state, reply, at);
        lemma_pending_fetch_is_resolved(served, next, (limit - 1) as nat, at);
    }
}

/// Of a manifest without a parent, every followed declaration is resolved
/// in a run that comes to an end: the repository serves a manifest at the
/// declared coordinate's address, and the identity of that manifest is in
/// the result.
pub proof fn lemma_followed_is_resolved(
    served: Seq<ServedModel>,
    state: State,
    limit: nat,
    declaration: Declaration,
)
    requires
        settled(state),
        run(state, served, limit) is Ok,
        next_of(state).is_some(),
        manifest_at(served, next_of(state).unwrap()).is_some(),
        manifest_at(served, next_of(state).unwrap()).unwrap().parent.is_none(),
        manifest_at(served, next_of(state).unwrap()).unwrap().dependencies.is_some(),
        ({
            let manifest = manifest_at(served, next_of(state).unwrap()).unwrap();
            let coordinate = effective(manifest)->Ok_0;
            followed(
                manifest.dependencies.unwrap(),
                state.registry.insert((coordinate.0, coordinate.1), coordinate.2),
                state.stack.last()->Fetch_exclusions,
            ).contains(declaration)
        }),
    ensures
        manifest_at(served, task_of(declaration)->url).is_some(),
        effective(manifest_at(served, task_of(declaration)->url).unwrap()) is Ok,
        ({
            let coordinate = effective(
                manifest_at(served, task_of(declaration)->url).unwrap(),
            )->Ok_0;
            run(state, served, limit)->Ok_0.contains_key((coordinate.0, coordinate.1))
        }),
{
    let url = next_of(state).unwrap();
    let reply = reply_for(served, url);
    let manifest = manifest_at(served, url).unwrap();
    let exclusions = state.stack.last()->Fetch_exclusions;
    let coordinate = effective(manifest)->Ok_0;
    let registry = state.registry.insert((coordinate.0, coordinate.1), coordinate.2);
    let declared = manifest.dependencies.unwrap();
    let chosen = followed(declared, registry, exclusions);
    let below = state.stack.drop_last();
    let next = step(state, reply)->Ok_0;
    lemma_step_settles(state, reply);
    let middle = State { registry, stack: below.push(Pending::Filter { declared, exclusions }) };
    assert(middle.stack.drop_last() =~= below);
    assert(next.stack == below + tasks_of(chosen));
    let i = choose|i: int| 0 <= i < chosen.len() && chosen[i] == declaration;
    let at = below.len() + (chosen.len() - 1 - i);
    assert(next.stack[at] == tasks_of(chosen)[chosen.len() - 1 - i]);
    assert(next.stack[at] == task_of(declaration));
    lemma_pending_fetch_is_resolved(served, next, (limit - 1) as nat, at);
}

} // verus!
