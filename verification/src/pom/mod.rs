//! Repository addresses of artifacts, and whole resolution runs.
use vstd::prelude::*;
use crate::pom::error::{ErrorModel, ResolveError};
use crate::pom::registry::{all_resolved, distinct_keys, versions_of};
use crate::pom::laws::lemma_step_settles;
use crate::pom::resolver::{
    initial,
    next_of,
    settled,
    step,
    Reply,
    ReplyModel,
    Resolver,
    State,
};
use crate::pom::structure::{declarations_of, Dependency, Key};

pub mod coordinate;
pub mod error;
pub mod filter;
pub mod laws;
pub mod reach;
pub mod registry;
pub mod resolver;
pub mod structure;

verus! {

/// Identity of an artifact inside a repository: the pair that the registry
/// keys its entries by.
#[derive(Debug, PartialEq, Eq, Hash)]
pub struct DependencyInfo {
    pub group_id: String,
    pub artifact_id: String,
}

impl View for DependencyInfo {
    type V = (Seq<char>, Seq<char>);

    open spec fn view(&self) -> (Seq<char>, Seq<char>) {
        (self.group_id@, self.artifact_id@)
    }
}

impl DependencyInfo {
    pub fn new(group_id: String, artifact_id: String) -> (info: Self)
        ensures
            info.group_id == group_id,
            info.artifact_id == artifact_id,
            info@ == (group_id@, artifact_id@),
    {
        Self { group_id, artifact_id }
    }
}

/// Root of the repository that every address is built under.
pub const MAVEN_URL: &'static str = "https://maven.aliyun.com/repository/public";

/// The group with every `.` turned into `/`: the directory of a group inside
/// the repository.
pub open spec fn group_path(group: Seq<char>) -> Seq<char> {
    group.map_values(|c: char| if c == '.' { '/' } else { c })
}

/// The address of an artifact without its file extension:
/// `{root}/{group path}/{artifact}/{version}/{artifact}-{version}`.
pub open spec fn base_url(group: Seq<char>, artifact: Seq<char>, version: Seq<char>) -> Seq<char> {
    MAVEN_URL@ + seq!['/'] + group_path(group) + seq!['/'] + artifact + seq!['/'] + version
        + seq!['/'] + artifact + seq!['-'] + version
}

/// The address of an artifact's manifest.
pub open spec fn pom_url(group: Seq<char>, artifact: Seq<char>, version: Seq<char>) -> Seq<char> {
    base_url(group, artifact, version) + seq!['.', 'p', 'o', 'm']
}

/// The address of an artifact's archive.
pub open spec fn jar_url(group: Seq<char>, artifact: Seq<char>, version: Seq<char>) -> Seq<char> {
    base_url(group, artifact, version) + seq!['.', 'j', 'a', 'r']
}

/// Appends the directory of `group` to `out`.
fn append_group_path(out: &mut String, group: &str)
    ensures
        final(out)@ == old(out)@ + group_path(group@),
{
    let n: usize = group.unicode_len();
    let mut i: usize = 0;
    while i < n
        invariant
            n == group@.len(),
            i <= n,
            out@ == old(out)@ + group_path(group@.take(i as int)),
        decreases n - i,
    {
        let c: char = group.get_char(i);
        if c == '.' {
            out.append("/");
        } else {
            out.append(group.substring_char(i, i + 1));
        }
        proof {
            reveal_strlit("/");
            assert(group@.take(i + 1) =~= group@.take(i as int).push(group@[i as int]));
            assert(group@.subrange(i as int, i + 1) =~= seq![group@[i as int]]);
            assert("/"@ =~= seq!['/']);
            assert(group_path(group@.take(i + 1)) =~= group_path(group@.take(i as int)) + seq![
                if c == '.' {
                    '/'
                } else {
                    c
                },
            ]);
        }
        i = i + 1;
    }
    proof {
        assert(group@.take(n as int) =~= group@);
    }
}

pub fn build_maven_base_url(group_id: &str, artifact_id: &str, version: &str) -> (url: String)
    ensures
        url@ == base_url(group_id@, artifact_id@, version@),
{
    proof {
        reveal_strlit("/");
        reveal_strlit("-");
    }
    let mut url: String = String::from_str(MAVEN_URL);
    url.append("/");
    append_group_path(&mut url, group_id);
    url.append("/");
    url.append(artifact_id);
    url.append("/");
    url.append(version);
    url.append("/");
    url.append(artifact_id);
    url.append("-");
    url.append(version);
    proof {
        assert("/"@ =~= seq!['/']);
        assert("-"@ =~= seq!['-']);
    }
    url
}

pub fn build_maven_pom_url(group_id: &str, artifact_id: &str, version: &str) -> (url: String)
    ensures
        url@ == pom_url(group_id@, artifact_id@, version@),
{
    proof {
        reveal_strlit(".pom");
    }
    let mut url: String = build_maven_base_url(group_id, artifact_id, version);
    url.append(".pom");
    proof {
        assert(".pom"@ =~= seq!['.', 'p', 'o', 'm']);
    }
    url
}

pub fn build_maven_jar_url(group_id: &str, artifact_id: &str, version: &str) -> (url: String)
    ensures
        url@ == jar_url(group_id@, artifact_id@, version@),
{
    proof {
        reveal_strlit(".jar");
    }
    let mut url: String = build_maven_base_url(group_id, artifact_id, version);
    url.append(".jar");
    proof {
        assert(".jar"@ =~= seq!['.', 'j', 'a', 'r']);
    }
    url
}

/// What a repository holds at one address.
#[derive(Debug, PartialEq, Eq)]
pub struct Served {
    pub url: String,
    pub reply: Reply,
}

/// Model of a [`Served`].
pub struct ServedModel {
    pub url: Seq<char>,
    pub reply: ReplyModel,
}

impl View for Served {
    type V = ServedModel;

    open spec fn view(&self) -> ServedModel {
        ServedModel { url: self.url@, reply: self.reply@ }
    }
}

/// The models of the entries of a repository, in order.
pub open spec fn served_of(list: Seq<Served>) -> Seq<ServedModel> {
    list.map_values(|s: Served| s@)
}

/// The entry at `at` is the first one with this address.
pub open spec fn first_at(served: Seq<ServedModel>, url: Seq<char>, at: int) -> bool {
    &&& 0 <= at < served.len()
    &&& served[at].url == url
    &&& forall|j: int| 0 <= j < at ==> (#[trigger] served[j]).url != url
}

/// The reply of a repository that holds nothing at an address: status 404.
pub open spec fn not_found() -> ReplyModel {
    ReplyModel::Answered { status: 404, body: Err(Seq::empty()) }
}

/// What a repository replies at an address: the reply of its first entry with
/// that address, and status 404 where it has none.
pub open spec fn reply_for(served: Seq<ServedModel>, url: Seq<char>) -> ReplyModel {
    if exists|at: int| first_at(served, url, at) {
        served[choose|at: int| first_at(served, url, at)].reply
    } else {
        not_found()
    }
}

/// The outcome of a run from a state on, against a repository, with at most
/// `limit` fetches: the registry when nothing is pending any more, the error
/// that ended the run, or `Unfinished` where the fetches ran out first.
pub open spec fn run(state: State, served: Seq<ServedModel>, limit: nat) -> Result<
    Map<Key, Seq<char>>,
    ErrorModel,
>
    decreases limit,
{
    match next_of(state) {
        None => Ok(state.registry),
        Some(url) => if limit == 0 {
            Err(ErrorModel::Unfinished)
        } else {
            match step(state, reply_for(served, url)) {
                Err(e) => Err(e),
                Ok(next) => run(next, served, (limit - 1) as nat),
            }
        },
    }
}

/// Where the first entry with this address stands, if there is one.
fn find_served(served: &Vec<Served>, url: &String) -> (at: Option<usize>)
    ensures
        match at {
            Some(i) => first_at(served_of(served@), url@, i as int),
            None => forall|j: int| !first_at(served_of(served@), url@, j),
        },
{
    let mut i: usize = 0;
    while i < served.len()
        invariant
            i <= served.len(),
            forall|j: int| 0 <= j < i ==> (#[trigger] served_of(served@)[j]).url != url@,
        decreases served.len() - i,
    {
        if served[i].url == *url {
            return Some(i);
        }
        i = i + 1;
    }
    None
}

/// Resolves the dependency set of the artifact whose manifest is at `url`,
/// against a repository given as the list of what it holds, fetching at most
/// `limit` manifests. The result has one coordinate per identity; any error
/// ends the run without a result.
pub fn get_dependencies(url: &str, served: &Vec<Served>, limit: usize) -> (resolved: Result<
    Vec<Dependency>,
    ResolveError,
>)
    ensures
        match resolved {
            Ok(list) => distinct_keys(declarations_of(list@)) && all_resolved(
                declarations_of(list@),
            ) && run(initial(url@), served_of(served@), limit as nat) == Ok::<
                Map<Key, Seq<char>>,
                ErrorModel,
            >(versions_of(declarations_of(list@))),
            Err(e) => run(initial(url@), served_of(served@), limit as nat) == Err::<
                Map<Key, Seq<char>>,
                ErrorModel,
            >(e@),
        },
{
    let missing = Reply::Answered { status: 404, body: Err(String::new()) };
    assert(missing@ == not_found());
    let mut resolver = Resolver::new(url);
    let mut left: usize = limit;
    proof {
        assert(initial(url@).stack.last() is Fetch);
    }
    loop
        invariant
            settled(resolver@),
            missing@ == not_found(),
            run(resolver@, served_of(served@), left as nat) == run(
                initial(url@),
                served_of(served@),
                limit as nat,
            ),
        decreases left,
    {
        match resolver.next_url() {
            None => {
                return Ok(resolver.finish().unwrap());
            },
            Some(next) => {
                if left == 0 {
                    return Err(ResolveError::Unfinished);
                }
                let reply: &Reply = match find_served(served, &next) {
                    Some(i) => {
                        proof {
                            let c = choose|at: int| first_at(served_of(served@), next@, at);
                            if c < i {
                                assert(served_of(served@)[c].url != next@);
                            } else if i < c {
                                assert(served_of(served@)[i as int].url != next@);
                            }
                        }
                        &served[i].reply
                    },
                    None => &missing,
                };
                assert(reply@ == reply_for(served_of(served@), next@));
                proof {
                    if step(resolver@, reply@) is Ok {
                        lemma_step_settles(resolver@, reply@);
                    }
                }
                match resolver.step(reply) {
                    Err(e) => {
                        return Err(e);
                    },
                    Ok(next_state) => {
                        resolver = next_state;
                        left = left - 1;
                    },
                }
            },
        }
    }
}

} // verus!
