//! The effective coordinate of a manifest: its own, completed from its parent.
use vstd::prelude::*;
use crate::pom::error::{ErrorModel, ResolveError};
use crate::pom::structure::{Manifest, Project};

verus! {

/// The group that a manifest belongs to: its own where it names one, else its
/// parent's.
pub open spec fn effective_group(manifest: Manifest) -> Option<Seq<char>> {
    match (manifest.group, manifest.parent) {
        (Some(group), _) => Some(group),
        (None, Some(parent)) => Some(parent.group),
        (None, None) => None,
    }
}

/// The version of a manifest: its own where it names one, else its parent's.
pub open spec fn effective_version(manifest: Manifest) -> Option<Seq<char>> {
    match (manifest.version, manifest.parent) {
        (Some(version), _) => Some(version),
        (None, Some(parent)) => parent.version,
        (None, None) => None,
    }
}

/// The coordinate `(group, artifact, version)` under which a manifest is
/// registered. A manifest without a group fails with `MissingGroup`, which
/// names the artifact; one with a group and without a version fails with
/// `MissingVersion`, which names group and artifact.
pub open spec fn effective(manifest: Manifest) -> Result<
    (Seq<char>, Seq<char>, Seq<char>),
    ErrorModel,
> {
    if effective_group(manifest).is_none() {
        Err(ErrorModel::MissingGroup { artifact: manifest.artifact })
    } else if effective_version(manifest).is_none() {
        Err(
            ErrorModel::MissingVersion {
                group: effective_group(manifest).unwrap(),
                artifact: manifest.artifact,
            },
        )
    } else {
        Ok((effective_group(manifest).unwrap(), manifest.artifact, effective_version(manifest).unwrap()))
    }
}

impl Project {
    /// The coordinate `(group, artifact, version)` of the module that the
    /// manifest describes, with group and version taken from the parent where
    /// the manifest itself is silent.
    pub fn effective(&self) -> (coordinate: Result<(String, String, String), ResolveError>)
        ensures
            match coordinate {
                Ok((group, artifact, version)) => effective(self@) == Ok::<
                    (Seq<char>, Seq<char>, Seq<char>),
                    ErrorModel,
                >((group@, artifact@, version@)),
                Err(e) => effective(self@) == Err::<(Seq<char>, Seq<char>, Seq<char>), ErrorModel>(
                    e@,
                ),
            },
    {
        let group: String = match &self.group_id {
            Some(group) => group.clone(),
            None => match &self.parent {
                Some(parent) => parent.group_id.clone(),
                None => {
                    return Err(
                        ResolveError::MissingGroup { artifact_id: self.artifact_id.clone() },
                    );
                },
            },
        };
        let inherited: &Option<String> = match &self.parent {
            Some(parent) => &parent.version,
            None => &None,
        };
        let version: String = match (&self.version, inherited) {
            (Some(version), _) => version.clone(),
            (None, Some(version)) => version.clone(),
            (None, None) => {
                return Err(
                    ResolveError::MissingVersion {
                        group_id: group,
                        artifact_id: self.artifact_id.clone(),
                    },
                );
            },
        };
        Ok((group, self.artifact_id.clone(), version))
    }
}

} // verus!
