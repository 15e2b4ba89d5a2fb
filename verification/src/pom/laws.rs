//! What holds of every manifest and of every run.
use vstd::prelude::*;
use crate::pom::coordinate::effective;
use crate::pom::error::ErrorModel;
use crate::pom::filter::{admission, admitted, followed};
use crate::pom::resolver::{
    absorb,
    initial,
    next_of,
    settle,
    settled,
    step,
    tasks_of,
    Pending,
    ReplyModel,
    State,
};
use crate::pom::structure::{Declaration, Key, Manifest};
use crate::pom::{base_url, jar_url, pom_url, reply_for, run, ServedModel};

verus! {

/// A followed declaration is one of those declared, and it passed the test
/// of admission.
pub proof fn lemma_followed_was_declared_and_admitted(
    declared: Seq<Declaration>,
    registry: Map<Key, Seq<char>>,
    exclusions: Set<Key>,
    declaration: Declaration,
)
    requires
        followed(declared, registry, exclusions).contains(declaration),
    ensures
        declared.contains(declaration),
        admitted(declaration, registry, exclusions),
{
    let test = admission(registry, exclusions);
    let chosen = declared.filter(test);
    let i = choose|i: int| 0 <= i < chosen.len() && chosen[i] == declaration;
    declared.lemma_filter_pred(test, i);
    declared.lemma_filter_contains_rev(test, declaration);
}

/// A declaration with the scope `test` is never followed, whatever the
/// registry holds and whatever the edge into the manifest excludes.
pub proof fn lemma_test_scope_is_never_followed(
    declared: Seq<Declaration>,
    registry: Map<Key, Seq<char>>,
    exclusions: Set<Key>,
    declaration: Declaration,
)
    requires
        declaration.is_test(),
    ensures
        !followed(declared, registry, exclusions).contains(declaration),
{
    if followed(declared, registry, exclusions).contains(declaration) {
        lemma_followed_was_declared_and_admitted(declared, registry, exclusions, declaration);
    }
}

/// An optional declaration is never followed.
pub proof fn lemma_optional_is_never_followed(
    declared: Seq<Declaration>,
    registry: Map<Key, Seq<char>>,
    exclusions: Set<Key>,
    declaration: Declaration,
)
    requires
        declaration.is_optional(),
    ensures
        !followed(declared, registry, exclusions).contains(declaration),
{
    if followed(declared, registry, exclusions).contains(declaration) {
        lemma_followed_was_declared_and_admitted(declared, registry, exclusions, declaration);
    }
}

/// A declaration whose identity the edge into the manifest excludes is never
/// followed from that manifest.
pub proof fn lemma_excluded_is_never_followed(
    declared: Seq<Declaration>,
    registry: Map<Key, Seq<char>>,
    exclusions: Set<Key>,
    declaration: Declaration,
)
    requires
        exclusions.contains(declaration.key()),
    ensures
        !followed(declared, registry, exclusions).contains(declaration),
{
    if followed(declared, registry, exclusions).contains(declaration) {
        lemma_followed_was_declared_and_admitted(declared, registry, exclusions, declaration);
    }
}

/// A declaration whose identity is registered is never followed: an identity
/// that was reached once is not resolved again from a manifest read later.
pub proof fn lemma_registered_is_never_followed(
    declared: Seq<Declaration>,
    registry: Map<Key, Seq<char>>,
    exclusions: Set<Key>,
    declaration: Declaration,
)
    requires
        registry.contains_key(declaration.key()),
    ensures
        !followed(declared, registry, exclusions).contains(declaration),
{
    if followed(declared, registry, exclusions).contains(declaration) {
        lemma_followed_was_declared_and_admitted(declared, registry, exclusions, declaration);
    }
}

/// Every declaration that passes the test of admission is followed: nothing
/// is dropped for any other reason, and a missing scope counts as `compile`.
pub proof fn lemma_admitted_is_followed(
    declared: Seq<Declaration>,
    registry: Map<Key, Seq<char>>,
    exclusions: Set<Key>,
    at: int,
)
    requires
        0 <= at < declared.len(),
        admitted(declared[at], registry, exclusions),
    ensures
        followed(declared, registry, exclusions).contains(declared[at]),
{
    declared.lemma_filter_contains(admission(registry, exclusions), at);
}

/// A manifest that names neither group nor version takes both from its
/// parent, and keeps its own artifact name.
pub proof fn lemma_effective_inherits(manifest: Manifest)
    requires
        manifest.group.is_none(),
        manifest.version.is_none(),
        manifest.parent.is_some(),
        manifest.parent.unwrap().version.is_some(),
    ensures
        effective(manifest) == Ok::<(Seq<char>, Seq<char>, Seq<char>), ErrorModel>(
            (
                manifest.parent.unwrap().group,
                manifest.artifact,
                manifest.parent.unwrap().version.unwrap(),
            ),
        ),
{
}

/// A manifest's own group and version stand, whatever its parent names.
pub proof fn lemma_effective_prefers_own(manifest: Manifest)
    requires
        manifest.group.is_some(),
        manifest.version.is_some(),
    ensures
        effective(manifest) == Ok::<(Seq<char>, Seq<char>, Seq<char>), ErrorModel>(
            (manifest.group.unwrap(), manifest.artifact, manifest.version.unwrap()),
        ),
{
}

/// The manifest and the archive of a coordinate lie at the same address but
/// for the extension.
pub proof fn lemma_urls_differ_in_extension(
    group: Seq<char>,
    artifact: Seq<char>,
    version: Seq<char>,
)
    ensures
        pom_url(group, artifact, version).len() == jar_url(group, artifact, version).len(),
        pom_url(group, artifact, version).len() == base_url(group, artifact, version).len() + 4,
        pom_url(group, artifact, version).take(base_url(group, artifact, version).len() as int)
            == base_url(group, artifact, version),
        jar_url(group, artifact, version).take(base_url(group, artifact, version).len() as int)
            == base_url(group, artifact, version),
{
    let base = base_url(group, artifact, version);
    assert(pom_url(group, artifact, version).take(base.len() as int) =~= base);
    assert(jar_url(group, artifact, version).take(base.len() as int) =~= base);
}

/// Judging the dependency lists that are due leaves the registry as it is,
/// and leaves no list due.
pub proof fn lemma_settle(state: State)
    requires
        settle(state) is Ok,
    ensures
        settle(state)->Ok_0.registry == state.registry,
        settled(settle(state)->Ok_0),
    decreases state.stack.len(),
{
    if state.stack.len() > 0 {
        match state.stack.last() {
            Pending::Fetch { .. } => {},
            Pending::Filter { declared, exclusions } => {
                let chosen = followed(declared, state.registry, exclusions);
                if chosen.len() == 0 {
                    lemma_settle(State { registry: state.registry, stack: state.stack.drop_last() });
                } else {
                    let next = settle(state)->Ok_0;
                    assert(next.stack.last() == tasks_of(chosen).last());
                }
            },
        }
    }
}

/// A step that does not end the run leaves no dependency list due.
pub proof fn lemma_step_settles(state: State, reply: ReplyModel)
    requires
        settled(state),
        step(state, reply) is Ok,
    ensures
        settled(step(state, reply)->Ok_0),
{
    if state.stack.len() > 0 {
        match state.stack.last() {
            Pending::Filter { .. } => {},
            Pending::Fetch { url, exclusions } => {
                let manifest = reply->Answered_body->Ok_0;
                let rest = State { registry: state.registry, stack: state.stack.drop_last() };
                lemma_absorb_settles(rest, exclusions, manifest);
            },
        }
    }
}

/// Taking in a manifest leaves no dependency list due, and enters the
/// manifest's effective coordinate in the registry, which is otherwise as
/// before.
pub proof fn lemma_absorb_settles(rest: State, exclusions: Set<Key>, manifest: Manifest)
    requires
        absorb(rest, exclusions, manifest) is Ok,
    ensures
        settled(absorb(rest, exclusions, manifest)->Ok_0),
        effective(manifest) is Ok,
        absorb(rest, exclusions, manifest)->Ok_0.registry == rest.registry.insert(
            (effective(manifest)->Ok_0.0, effective(manifest)->Ok_0.1),
            effective(manifest)->Ok_0.2,
        ),
{
    let coordinate = effective(manifest)->Ok_0;
    let registry = rest.registry.insert((coordinate.0, coordinate.1), coordinate.2);
    let stack = match manifest.dependencies {
        Some(declared) => rest.stack.push(Pending::Filter { declared, exclusions }),
        None => rest.stack,
    };
    if manifest.parent.is_none() {
        lemma_settle(State { registry, stack });
    }
}

/// An identity that is registered stays registered: a step enters or
/// replaces a coordinate and removes none.
pub proof fn lemma_step_keeps_registered(state: State, reply: ReplyModel, key: Key)
    requires
        step(state, reply) is Ok,
        state.registry.contains_key(key),
    ensures
        step(state, reply)->Ok_0.registry.contains_key(key),
{
    if state.stack.len() > 0 {
        match state.stack.last() {
            Pending::Filter { .. } => {
                lemma_settle(state);
            },
            Pending::Fetch { url, exclusions } => {
                let manifest = reply->Answered_body->Ok_0;
                let rest = State { registry: state.registry, stack: state.stack.drop_last() };
                lemma_absorb_settles(rest, exclusions, manifest);
            },
        }
    }
}

/// What is registered at any point of a run is registered at its end.
pub proof fn lemma_run_keeps_registered(
    state: State,
    served: Seq<ServedModel>,
    limit: nat,
    key: Key,
)
    requires
        run(state, served, limit) is Ok,
        state.registry.contains_key(key),
    ensures
        run(state, served, limit)->Ok_0.contains_key(key),
    decreases limit,
{
    match next_of(state) {
        None => {},
        Some(url) => {
            let reply = reply_for(served, url);
            lemma_step_keeps_registered(state, reply, key);
            lemma_run_keeps_registered(step(state, reply)->Ok_0, served, (limit - 1) as nat, key);
        },
    }
}

/// A run that comes to an end has fetched the root manifest and registered
/// its effective coordinate: the result is never empty.
pub proof fn lemma_run_registers_root(url: Seq<char>, served: Seq<ServedModel>, limit: nat)
    requires
        run(initial(url), served, limit) is Ok,
    ensures
        reply_for(served, url) is Answered,
        reply_for(served, url)->Answered_body is Ok,
        effective(reply_for(served, url)->Answered_body->Ok_0) is Ok,
        ({
            let coordinate = effective(
                reply_for(served, url)->Answered_body->Ok_0,
            )->Ok_0;
            run(initial(url), served, limit)->Ok_0.contains_key(
                (coordinate.0, coordinate.1),
            )
        }),
{
    let start = initial(url);
    let reply = reply_for(served, url);
    assert(start.stack.last() == Pending::Fetch { url, exclusions: Set::<Key>::empty() });
    assert(next_of(start) == Some(url));
    let manifest = reply->Answered_body->Ok_0;
    let rest = State { registry: start.registry, stack: start.stack.drop_last() };
    lemma_absorb_settles(rest, Set::<Key>::empty(), manifest);
    let coordinate = effective(manifest)->Ok_0;
    lemma_run_keeps_registered(
        step(start, reply)->Ok_0,
        served,
        (limit - 1) as nat,
        (coordinate.0, coordinate.1),
    );
}

/// A run that came to an end within some number of fetches comes to the same
/// end with any greater number: the bound decides only whether a run is
/// abandoned as unfinished.
pub proof fn lemma_run_limit(state: State, served: Seq<ServedModel>, limit: nat, more: nat)
    requires
        limit <= more,
        run(state, served, limit) != Err::<Map<Key, Seq<char>>, ErrorModel>(
            ErrorModel::Unfinished,
        ),
    ensures
        run(state, served, more) == run(state, served, limit),
    decreases limit,
{
    match next_of(state) {
        None => {},
        Some(url) => {
            if limit > 0 {
                match step(state, reply_for(served, url)) {
                    Err(_) => {},
                    Ok(next) => {
                        lemma_run_limit(next, served, (limit - 1) as nat, (more - 1) as nat);
                    },
                }
            }
        },
    }
}

/// A run registers at most one identity with each fetch: its result holds
/// no more identities than were registered at the start and fetches were
/// allowed.
pub proof fn lemma_run_size(state: State, served: Seq<ServedModel>, limit: nat)
    requires
        settled(state),
        state.registry.dom().finite(),
        run(state, served, limit) is Ok,
    ensures
        run(state, served, limit)->Ok_0.dom().finite(),
        run(state, served, limit)->Ok_0.dom().len() <= state.registry.dom().len() + limit,
    decreases limit,
{
    match next_of(state) {
        None => {},
        Some(url) => {
            let reply = reply_for(served, url);
            let next = step(state, reply)->Ok_0;
            let manifest = reply->Answered_body->Ok_0;
            let rest = State { registry: state.registry, stack: state.stack.drop_last() };
            lemma_absorb_settles(rest, state.stack.last()->Fetch_exclusions, manifest);
            let coordinate = effective(manifest)->Ok_0;
            assert(next.registry.dom() =~= state.registry.dom().insert(
                (coordinate.0, coordinate.1),
            ));
            lemma_run_size(next, served, (limit - 1) as nat);
        },
    }
}

} // verus!
