//! The manifest of a Maven module as a typed record, and the mathematical
//! model of the part of it that resolution reads.
use vstd::prelude::*;
use crate::pom::error::{ErrorModel, ResolveError};
use crate::pom::{build_maven_jar_url, build_maven_pom_url, jar_url, pom_url};

verus! {

/// Identity of an artifact: its group and its artifact name. A version is a
/// value attached to an identity, never part of it.
pub type Key = (Seq<char>, Seq<char>);

/// The characters of an optional string.
pub open spec fn text_of(value: Option<String>) -> Option<Seq<char>> {
    match value {
        Some(s) => Some(s@),
        None => None,
    }
}

/// Model of a [`Dependency`]: one declared dependency of a manifest.
pub struct Declaration {
    pub group: Seq<char>,
    pub artifact: Seq<char>,
    pub version: Option<Seq<char>>,
    pub dtype: Option<Seq<char>>,
    pub scope: Option<Seq<char>>,
    pub optional: Option<bool>,
    pub exclusions: Option<Seq<Key>>,
}

impl Declaration {
    /// The identity that the declaration points at.
    pub open spec fn key(self) -> Key {
        (self.group, self.artifact)
    }

    /// Declared for tests only.
    pub open spec fn is_test(self) -> bool {
        self.scope == Some("test"@)
    }

    /// Declared as optional.
    pub open spec fn is_optional(self) -> bool {
        self.optional == Some(true)
    }

    /// The identities that the declaration keeps out of the manifest it leads
    /// to; none when it has no exclusion block.
    pub open spec fn excluded(self) -> Set<Key> {
        match self.exclusions {
            Some(keys) => keys.to_set(),
            None => Set::empty(),
        }
    }

    /// The declaration that stands for a resolved coordinate: the three parts
    /// of the coordinate and nothing else.
    pub open spec fn resolved(group: Seq<char>, artifact: Seq<char>, version: Seq<char>) -> Declaration {
        Declaration {
            group,
            artifact,
            version: Some(version),
            dtype: None,
            scope: None,
            optional: None,
            exclusions: None,
        }
    }
}

/// Model of a [`Parent`]: the reference of a manifest to the one it inherits
/// from.
pub struct ParentModel {
    pub group: Seq<char>,
    pub artifact: Seq<char>,
    pub version: Option<Seq<char>>,
}

/// Model of a [`Project`]: what resolution reads of a manifest.
pub struct Manifest {
    pub group: Option<Seq<char>>,
    pub artifact: Seq<char>,
    pub version: Option<Seq<char>>,
    pub parent: Option<ParentModel>,
    pub dependencies: Option<Seq<Declaration>>,
}

#[derive(Debug, PartialEq, Eq, Hash)]
pub struct Exclusion {
    pub group_id: String,
    pub artifact_id: String,
}

impl View for Exclusion {
    type V = Key;

    open spec fn view(&self) -> Key {
        (self.group_id@, self.artifact_id@)
    }
}

impl Clone for Exclusion {
    fn clone(&self) -> (copy: Self)
        ensures
            copy@ == self@,
    {
        Exclusion { group_id: self.group_id.clone(), artifact_id: self.artifact_id.clone() }
    }
}

/// The identities of a list of exclusions, in order.
pub open spec fn keys_of(list: Seq<Exclusion>) -> Seq<Key> {
    list.map_values(|e: Exclusion| e@)
}

/// Copies a list of exclusions.
pub fn clone_exclusions(list: &Vec<Exclusion>) -> (copy: Vec<Exclusion>)
    ensures
        keys_of(copy@) == keys_of(list@),
{
    let mut copy: Vec<Exclusion> = Vec::new();
    let mut i: usize = 0;
    while i < list.len()
        invariant
            i <= list.len(),
            copy.len() == i,
            forall|j: int| 0 <= j < i ==> copy[j]@ == list[j]@,
        decreases list.len() - i,
    {
        copy.push(list[i].clone());
        i = i + 1;
    }
    proof {
        assert(keys_of(copy@) =~= keys_of(list@));
    }
    copy
}

#[derive(Debug, PartialEq, Eq, Hash)]
pub struct Exclusions {
    pub exclusions: Vec<Exclusion>,
}

impl View for Exclusions {
    type V = Seq<Key>;

    open spec fn view(&self) -> Seq<Key> {
        keys_of(self.exclusions@)
    }
}

impl Clone for Exclusions {
    fn clone(&self) -> (copy: Self)
        ensures
            copy@ == self@,
    {
        Exclusions { exclusions: clone_exclusions(&self.exclusions) }
    }
}

/// Copies an optional string.
pub fn clone_text(value: &Option<String>) -> (copy: Option<String>)
    ensures
        text_of(copy) == text_of(*value),
{
    match value {
        Some(s) => Some(s.clone()),
        None => None,
    }
}

#[derive(Debug, PartialEq, Eq, Hash)]
pub struct Dependency {
    pub artifact_id: String,
    pub dtype: Option<String>,
    pub group_id: String,
    pub optional: Option<bool>,
    pub scope: Option<String>,
    pub version: Option<String>,
    pub exclusions: Option<Exclusions>,
}

impl View for Dependency {
    type V = Declaration;

    open spec fn view(&self) -> Declaration {
        Declaration {
            group: self.group_id@,
            artifact: self.artifact_id@,
            version: text_of(self.version),
            dtype: text_of(self.dtype),
            scope: text_of(self.scope),
            optional: self.optional,
            exclusions: match self.exclusions {
                Some(x) => Some(x@),
                None => None,
            },
        }
    }
}

impl Clone for Dependency {
    fn clone(&self) -> (copy: Self)
        ensures
            copy@ == self@,
    {
        Dependency {
            artifact_id: self.artifact_id.clone(),
            dtype: clone_text(&self.dtype),
            group_id: self.group_id.clone(),
            optional: self.optional,
            scope: clone_text(&self.scope),
            version: clone_text(&self.version),
            exclusions: match &self.exclusions {
                Some(x) => Some(x.clone()),
                None => None,
            },
        }
    }
}

impl Default for Dependency {
    fn default() -> (empty: Self)
        ensures
            empty@ == (Declaration {
                group: Seq::<char>::empty(),
                artifact: Seq::<char>::empty(),
                version: None,
                dtype: None,
                scope: None,
                optional: None,
                exclusions: None,
            }),
    {
        Dependency {
            artifact_id: String::new(),
            dtype: None,
            group_id: String::new(),
            optional: None,
            scope: None,
            version: None,
            exclusions: None,
        }
    }
}

impl Dependency {
    /// Whether the dependency is declared with the scope `test`.
    pub fn is_test(&self) -> (test: bool)
        ensures
            test == self@.is_test(),
    {
        match &self.scope {
            Some(scope) => {
                let test: String = String::from_str("test");
                *scope == test
            },
            None => false,
        }
    }

    /// Whether the dependency is declared as optional.
    pub fn is_optional(&self) -> (optional: bool)
        ensures
            optional == self@.is_optional(),
    {
        match self.optional {
            Some(optional) => optional,
            None => false,
        }
    }

    /// The address of the manifest of the artifact that is declared, which
    /// exists only where a version is declared.
    pub fn to_pom_url(&self) -> (url: Result<String, ResolveError>)
        ensures
            match url {
                Ok(text) => self@.version.is_some() && text@ == pom_url(
                    self@.group,
                    self@.artifact,
                    self@.version.unwrap(),
                ),
                Err(e) => self@.version.is_none() && e@ == (ErrorModel::MissingVersion {
                    group: self@.group,
                    artifact: self@.artifact,
                }),
            },
    {
        match &self.version {
            Some(version) => Ok(
                build_maven_pom_url(
                    self.group_id.as_str(),
                    self.artifact_id.as_str(),
                    version.as_str(),
                ),
            ),
            None => Err(
                ResolveError::MissingVersion {
                    group_id: self.group_id.clone(),
                    artifact_id: self.artifact_id.clone(),
                },
            ),
        }
    }

    /// The address of the archive of the artifact that is declared, which
    /// exists only where a version is declared.
    pub fn to_jar_url(&self) -> (url: Result<String, ResolveError>)
        ensures
            match url {
                Ok(text) => self@.version.is_some() && text@ == jar_url(
                    self@.group,
                    self@.artifact,
                    self@.version.unwrap(),
                ),
                Err(e) => self@.version.is_none() && e@ == (ErrorModel::MissingVersion {
                    group: self@.group,
                    artifact: self@.artifact,
                }),
            },
    {
        match &self.version {
            Some(version) => Ok(
                build_maven_jar_url(
                    self.group_id.as_str(),
                    self.artifact_id.as_str(),
                    version.as_str(),
                ),
            ),
            None => Err(
                ResolveError::MissingVersion {
                    group_id: self.group_id.clone(),
                    artifact_id: self.artifact_id.clone(),
                },
            ),
        }
    }
}

/// The models of a list of dependencies, in order.
pub open spec fn declarations_of(list: Seq<Dependency>) -> Seq<Declaration> {
    list.map_values(|d: Dependency| d@)
}

/// Copies a list of dependencies.
pub fn clone_dependencies(list: &Vec<Dependency>) -> (copy: Vec<Dependency>)
    ensures
        declarations_of(copy@) == declarations_of(list@),
{
    let mut copy: Vec<Dependency> = Vec::new();
    let mut i: usize = 0;
    while i < list.len()
        invariant
            i <= list.len(),
            copy.len() == i,
            forall|j: int| 0 <= j < i ==> copy[j]@ == list[j]@,
        decreases list.len() - i,
    {
        copy.push(list[i].clone());
        i = i + 1;
    }
    proof {
        assert(declarations_of(copy@) =~= declarations_of(list@));
    }
    copy
}

#[derive(Debug, PartialEq, Eq, Hash, Clone)]
pub struct Dependencies {
    pub dependencies: Vec<Dependency>,
}

impl View for Dependencies {
    type V = Seq<Declaration>;

    open spec fn view(&self) -> Seq<Declaration> {
        declarations_of(self.dependencies@)
    }
}

#[derive(Debug, PartialEq, Eq, Hash, Clone)]
pub struct Parent {
    pub artifact_id: String,
    pub group_id: String,
    pub version: Option<String>,
}

impl View for Parent {
    type V = ParentModel;

    open spec fn view(&self) -> ParentModel {
        ParentModel {
            group: self.group_id@,
            artifact: self.artifact_id@,
            version: text_of(self.version),
        }
    }
}

impl Parent {
    /// The address of the parent's manifest, which exists only where the
    /// reference names a version.
    pub fn to_pom_url(&self) -> (url: Result<String, ResolveError>)
        ensures
            match url {
                Ok(text) => self@.version.is_some() && text@ == pom_url(
                    self@.group,
                    self@.artifact,
                    self@.version.unwrap(),
                ),
                Err(e) => self@.version.is_none() && e@ == (ErrorModel::MissingVersion {
                    group: self@.group,
                    artifact: self@.artifact,
                }),
            },
    {
        match &self.version {
            Some(version) => Ok(
                build_maven_pom_url(
                    self.group_id.as_str(),
                    self.artifact_id.as_str(),
                    version.as_str(),
                ),
            ),
            None => Err(
                ResolveError::MissingVersion {
                    group_id: self.group_id.clone(),
                    artifact_id: self.artifact_id.clone(),
                },
            ),
        }
    }

    /// The address of the parent's archive, which exists only where the
    /// reference names a version.
    pub fn to_jar_url(&self) -> (url: Result<String, ResolveError>)
        ensures
            match url {
                Ok(text) => self@.version.is_some() && text@ == jar_url(
                    self@.group,
                    self@.artifact,
                    self@.version.unwrap(),
                ),
                Err(e) => self@.version.is_none() && e@ == (ErrorModel::MissingVersion {
                    group: self@.group,
                    artifact: self@.artifact,
                }),
            },
    {
        match &self.version {
            Some(version) => Ok(
                build_maven_jar_url(
                    self.group_id.as_str(),
                    self.artifact_id.as_str(),
                    version.as_str(),
                ),
            ),
            None => Err(
                ResolveError::MissingVersion {
                    group_id: self.group_id.clone(),
                    artifact_id: self.artifact_id.clone(),
                },
            ),
        }
    }
}

/// A manifest as it is written: the coordinate of the module, the manifest
/// it inherits from, the dependencies it declares, and the descriptive parts
/// that resolution never reads.
#[derive(Debug, PartialEq, Eq, Hash, Clone)]
pub struct Project {
    pub artifact_id: String,
    pub build: Option<Build>,
    pub contributors: Option<Contributors>,
    pub dependencies: Option<Dependencies>,
    pub dependency_management: Option<Dependencies>,
    pub description: Option<String>,
    pub developers: Option<Developers>,
    pub group_id: Option<String>,
    pub inception_year: Option<String>,
    pub licenses: Option<Licenses>,
    pub model_version: String,
    pub modules: Option<Modules>,
    pub name: Option<String>,
    pub organization: Option<Organization>,
    pub packaging: Option<String>,
    pub parent: Option<Parent>,
    pub plugin_repositories: Option<PluginRepositories>,
    pub profiles: Option<Profiles>,
    pub repositories: Option<Repositories>,
    pub url: Option<String>,
    pub version: Option<String>,
}

impl View for Project {
    type V = Manifest;

    open spec fn view(&self) -> Manifest {
        Manifest {
            group: text_of(self.group_id),
            artifact: self.artifact_id@,
            version: text_of(self.version),
            parent: match self.parent {
                Some(p) => Some(p@),
                None => None,
            },
            dependencies: match self.dependencies {
                Some(d) => Some(d@),
                None => None,
            },
        }
    }
}

impl Default for Project {
    fn default() -> (empty: Self)
        ensures
            empty@ == (Manifest {
                group: None,
                artifact: Seq::<char>::empty(),
                version: None,
                parent: None,
                dependencies: None,
            }),
    {
        Project {
            artifact_id: String::new(),
            build: None,
            contributors: None,
            dependencies: None,
            dependency_management: None,
            description: None,
            developers: None,
            group_id: None,
            inception_year: None,
            licenses: None,
            model_version: String::new(),
            modules: None,
            name: None,
            organization: None,
            packaging: None,
            parent: None,
            plugin_repositories: None,
            profiles: None,
            repositories: None,
            url: None,
            version: None,
        }
    }
}

#[derive(Debug, PartialEq, Eq, Hash, Clone)]
pub struct Licenses {
    pub licenses: Vec<License>,
}

#[derive(Debug, PartialEq, Eq, Hash, Clone)]
pub struct License {
    pub comments: Option<String>,
    pub distribution: Option<String>,
    pub name: String,
    pub url: Option<String>,
}

#[derive(Debug, PartialEq, Eq, Hash, Clone)]
pub struct Organization {
    pub name: Option<String>,
    pub url: Option<String>,
}

#[derive(Debug, PartialEq, Eq, Hash, Clone)]
pub struct Developers {
    pub developers: Vec<Person>,
}

#[derive(Debug, PartialEq, Eq, Hash, Clone)]
pub struct Contributors {
    pub contributors: Vec<Person>,
}

#[derive(Debug, PartialEq, Eq, Hash, Clone)]
pub struct Person {
    pub email: Option<String>,
    pub id: Option<String>,
    pub name: Option<String>,
    pub organization: Option<String>,
    pub organization_url: Option<String>,
    pub roles: Option<Roles>,
    pub timezone: Option<String>,
    pub url: Option<String>,
}

#[derive(Debug, PartialEq, Eq, Hash, Clone)]
pub struct Roles {
    pub roles: Vec<String>,
}

#[derive(Debug, PartialEq, Eq, Hash, Clone)]
pub struct Modules {
    pub modules: Vec<String>,
}

#[derive(Debug, PartialEq, Eq, Hash, Clone)]
pub struct Build {
    pub default_goal: Option<String>,
    pub directory: Option<String>,
    pub extensions: Option<Extensions>,
    pub filters: Option<Filters>,
    pub final_name: Option<String>,
    pub plugin_management: Option<PluginManagement>,
    pub plugins: Option<Plugins>,
    pub resources: Option<Resources>,
    pub test_resources: Option<TestResources>,
}

#[derive(Debug, PartialEq, Eq, Hash, Clone)]
pub struct Filters {
    pub filters: Vec<String>,
}

#[derive(Debug, PartialEq, Eq, Hash, Clone)]
pub struct Resources {
    pub resources: Vec<Resource>,
}

#[derive(Debug, PartialEq, Eq, Hash, Clone)]
pub struct TestResources {
    pub test_resources: Vec<Resource>,
}

#[derive(Debug, PartialEq, Eq, Hash, Clone)]
pub struct Resource {
    pub directory: String,
    pub excludes: Option<Excludes>,
    pub filtering: Option<bool>,
    pub includes: Option<Includes>,
    pub target_path: Option<String>,
}

#[derive(Debug, PartialEq, Eq, Hash, Clone)]
pub struct Includes {
    pub includes: Vec<String>,
}

#[derive(Debug, PartialEq, Eq, Hash, Clone)]
pub struct Excludes {
    pub excludes: Vec<String>,
}

#[derive(Debug, PartialEq, Eq, Hash, Clone)]
pub struct Plugins {
    pub plugins: Vec<Plugin>,
}

#[derive(Debug, PartialEq, Eq, Hash, Clone)]
pub struct PluginManagement {
    pub plugins: Plugins,
}

/// A build plugin. Where the manifest names no group for it, the group is
/// the one that [`default_plugin_group_id`] gives.
#[derive(Debug, PartialEq, Eq, Hash, Clone)]
pub struct Plugin {
    pub artifact_id: String,
    pub configuration: Option<Configuration>,
    pub dependencies: Option<Dependencies>,
    pub executions: Option<Executions>,
    pub extensions: Option<bool>,
    pub group_id: String,
    pub inherited: Option<bool>,
    pub version: Option<String>,
}

/// The group of a plugin that is declared without one.
pub fn default_plugin_group_id() -> (group: String)
    ensures
        group@ == "org.apache.maven.plugins"@,
{
    String::from_str("org.apache.maven.plugins")
}

#[derive(Debug, PartialEq, Eq, Hash, Clone)]
pub struct Executions {
    pub executions: Vec<Execution>,
}

#[derive(Debug, PartialEq, Eq, Hash, Clone)]
pub struct Execution {
    pub configuration: Option<Configuration>,
    pub goals: Option<Goals>,
    pub id: Option<String>,
    pub inherited: Option<bool>,
    pub phase: Option<String>,
}

/// The configuration block of a plugin or an execution. Its content differs
/// from plugin to plugin, so nothing of it is kept.
#[derive(Debug, PartialEq, Eq, Hash, Clone)]
pub struct Configuration {}

#[derive(Debug, PartialEq, Eq, Hash, Clone)]
pub struct Goals {
    pub goals: Vec<String>,
}

#[derive(Debug, PartialEq, Eq, Hash, Clone)]
pub struct Extensions {
    pub extensions: Vec<Extension>,
}

#[derive(Debug, PartialEq, Eq, Hash, Clone)]
pub struct Extension {
    pub artifact_id: String,
    pub group_id: String,
    pub version: Option<String>,
}

#[derive(Debug, PartialEq, Eq, Hash, Clone)]
pub struct Profiles {
    pub profiles: Vec<Profile>,
}

#[derive(Debug, PartialEq, Eq, Hash, Clone)]
pub struct Profile {
    pub activation: Option<Activation>,
    pub id: Option<String>,
    pub dependency_management: Option<DependencyManagement>,
    pub modules: Option<Modules>,
}

#[derive(Debug, PartialEq, Eq, Hash, Clone)]
pub struct Activation {
    pub active_by_default: Option<bool>,
}

#[derive(Debug, PartialEq, Eq, Hash, Clone)]
pub struct DependencyManagement {
    pub dependencies: Dependencies,
}

#[derive(Debug, PartialEq, Eq, Hash, Clone)]
pub struct Repositories {
    pub repositories: Vec<Repository>,
}

#[derive(Debug, PartialEq, Eq, Hash, Clone)]
pub struct PluginRepositories {
    pub repositories: Vec<Repository>,
}

#[derive(Debug, PartialEq, Eq, Hash, Clone)]
pub struct Repository {
    pub id: String,
    pub url: String,
}

} // verus!
