//! Which of the dependencies that a manifest declares are followed.
use vstd::prelude::*;
use crate::pom::registry::Registry;
use crate::pom::structure::{declarations_of, keys_of, Declaration, Dependency, Exclusion, Key};
use crate::pom::DependencyInfo;

verus! {

/// The identities that a list of exclusions keeps out.
pub open spec fn excluded_set(exclusions: Seq<Exclusion>) -> Set<Key> {
    keys_of(exclusions).to_set()
}

/// A declaration is followed unless its identity is registered already, the
/// edge into the declaring manifest excludes it, it is declared for tests, or
/// it is optional.
pub open spec fn admitted(
    declaration: Declaration,
    registry: Map<Key, Seq<char>>,
    exclusions: Set<Key>,
) -> bool {
    &&& !registry.contains_key(declaration.key())
    &&& !exclusions.contains(declaration.key())
    &&& !declaration.is_test()
    &&& !declaration.is_optional()
}

/// The test that a manifest's declarations are put to.
pub open spec fn admission(registry: Map<Key, Seq<char>>, exclusions: Set<Key>) -> spec_fn(
    Declaration,
) -> bool {
    |d: Declaration| admitted(d, registry, exclusions)
}

/// The declarations of a manifest that are followed, in the order in which
/// they are declared. Each is judged against the registry as it stands when
/// the manifest is read, so an identity that the manifest declares twice is
/// followed twice.
pub open spec fn followed(
    declared: Seq<Declaration>,
    registry: Map<Key, Seq<char>>,
    exclusions: Set<Key>,
) -> Seq<Declaration> {
    declared.filter(admission(registry, exclusions))
}

/// How the followed declarations grow with one more declaration at the end.
pub proof fn lemma_followed_push(
    declared: Seq<Declaration>,
    next: Declaration,
    registry: Map<Key, Seq<char>>,
    exclusions: Set<Key>,
)
    ensures
        followed(declared.push(next), registry, exclusions) == (if admitted(
            next,
            registry,
            exclusions,
        ) {
            followed(declared, registry, exclusions).push(next)
        } else {
            followed(declared, registry, exclusions)
        }),
{
    reveal(Seq::filter);
    assert(declared.push(next).drop_last() =~= declared);
}

/// Nothing is followed of a manifest that declares nothing.
pub proof fn lemma_followed_empty(registry: Map<Key, Seq<char>>, exclusions: Set<Key>)
    ensures
        followed(Seq::<Declaration>::empty(), registry, exclusions) == Seq::<Declaration>::empty(),
{
    reveal(Seq::filter);
}

/// Whether the list of exclusions names the identity that the dependency
/// points at.
pub fn is_excluded(exclusions: &Vec<Exclusion>, dependency: &Dependency) -> (found: bool)
    ensures
        found == excluded_set(exclusions@).contains(dependency@.key()),
{
    let mut i: usize = 0;
    while i < exclusions.len()
        invariant
            i <= exclusions.len(),
            forall|j: int| 0 <= j < i ==> (#[trigger] keys_of(exclusions@)[j]) != dependency@.key(),
        decreases exclusions.len() - i,
    {
        if exclusions[i].group_id == dependency.group_id && exclusions[i].artifact_id
            == dependency.artifact_id {
            proof {
                assert(keys_of(exclusions@)[i as int] == dependency@.key());
            }
            return true;
        }
        i = i + 1;
    }
    false
}

/// Whether a declared dependency is followed, given the registry as it stands
/// and the exclusions of the edge that led to the declaring manifest.
pub fn is_admitted(dependency: &Dependency, registry: &Registry, exclusions: &Vec<Exclusion>) -> (yes:
    bool)
    ensures
        yes == admitted(dependency@, registry@, excluded_set(exclusions@)),
{
    let info = DependencyInfo::new(dependency.group_id.clone(), dependency.artifact_id.clone());
    !registry.contains_key(&info) && !is_excluded(exclusions, dependency) && !dependency.is_test()
        && !dependency.is_optional()
}

/// The declared dependencies that are followed, in the order of declaration.
/// None of them is registered, excluded, declared for tests or optional, and
/// every declaration of which that holds is among them.
pub fn select_dependencies(
    declared: &Vec<Dependency>,
    registry: &Registry,
    exclusions: &Vec<Exclusion>,
) -> (chosen: Vec<Dependency>)
    ensures
        declarations_of(chosen@) == followed(
            declarations_of(declared@),
            registry@,
            excluded_set(exclusions@),
        ),
        forall|i: int|
            0 <= i < chosen.len() ==> admitted(
                #[trigger] declarations_of(chosen@)[i],
                registry@,
                excluded_set(exclusions@),
            ),
{
    let mut chosen: Vec<Dependency> = Vec::new();
    let mut i: usize = 0;
    proof {
        lemma_followed_empty(registry@, excluded_set(exclusions@));
        assert(declarations_of(declared@).take(0) =~= Seq::<Declaration>::empty());
        assert(declarations_of(chosen@) =~= Seq::<Declaration>::empty());
    }
    while i < declared.len()
        invariant
            i <= declared.len(),
            declarations_of(chosen@) == followed(
                declarations_of(declared@).take(i as int),
                registry@,
                excluded_set(exclusions@),
            ),
        decreases declared.len() - i,
    {
        let ghost before = declarations_of(chosen@);
        proof {
            lemma_followed_push(
                declarations_of(declared@).take(i as int),
                declared[i as int]@,
                registry@,
                excluded_set(exclusions@),
            );
            assert(declarations_of(declared@).take(i + 1) =~= declarations_of(declared@).take(
                i as int,
            ).push(declared[i as int]@));
        }
        if is_admitted(&declared[i], registry, exclusions) {
            chosen.push(declared[i].clone());
            proof {
                assert(declarations_of(chosen@) =~= before.push(declared[i as int]@));
            }
        }
        i = i + 1;
    }
    proof {
        assert(declarations_of(declared@).take(declared.len() as int) =~= declarations_of(
            declared@,
        ));
        assert forall|i: int| 0 <= i < chosen.len() implies admitted(
            #[trigger] declarations_of(chosen@)[i],
            registry@,
            excluded_set(exclusions@),
        ) by {
            declarations_of(declared@).lemma_filter_pred(
                admission(registry@, excluded_set(exclusions@)),
                i,
            );
        }
    }
    chosen
}

} // verus!
