//! The ways in which a resolution run ends without a result.
use vstd::prelude::*;

verus! {

/// Why a manifest could not be fetched.
#[derive(Debug, PartialEq, Eq, Clone)]
pub enum FetchCause {
    /// The repository answered with a status other than 200.
    Status(i32),
    /// No answer came back; the text describes the transport failure.
    Transport(String),
}

/// Mathematical model of a [`FetchCause`].
pub enum CauseModel {
    Status(int),
    Transport(Seq<char>),
}

impl View for FetchCause {
    type V = CauseModel;

    open spec fn view(&self) -> CauseModel {
        match self {
            FetchCause::Status(code) => CauseModel::Status(*code as int),
            FetchCause::Transport(text) => CauseModel::Transport(text@),
        }
    }
}

/// Why a resolution run was abandoned. A run that meets any of these returns
/// no dependency at all.
#[allow(inconsistent_fields)]
#[derive(Debug, PartialEq, Eq, Clone)]
pub enum ResolveError {
    /// The manifest at `url` could not be fetched.
    FetchError { url: String, cause: FetchCause },
    /// What came back from `url` is no manifest.
    ParseError { url: String, cause: String },
    /// No group can be found for the artifact: neither its manifest nor the
    /// manifest's parent names one.
    MissingGroup { artifact_id: String },
    /// No version can be found for the coordinate: neither its manifest nor
    /// the manifest's parent names one, or it is a parent or a followed
    /// dependency that is declared without one.
    MissingVersion { group_id: String, artifact_id: String },
    /// The run was given a bound on the manifests it may fetch, and manifests
    /// were still pending when it was reached.
    Unfinished,
}

/// Mathematical model of a [`ResolveError`].
#[allow(inconsistent_fields)]
pub enum ErrorModel {
    Fetch { url: Seq<char>, cause: CauseModel },
    Parse { url: Seq<char>, cause: Seq<char> },
    MissingGroup { artifact: Seq<char> },
    MissingVersion { group: Seq<char>, artifact: Seq<char> },
    Unfinished,
}

impl View for ResolveError {
    type V = ErrorModel;

    open spec fn view(&self) -> ErrorModel {
        match self {
            ResolveError::FetchError { url, cause } => ErrorModel::Fetch {
                url: url@,
                cause: cause@,
            },
            ResolveError::ParseError { url, cause } => ErrorModel::Parse {
                url: url@,
                cause: cause@,
            },
            ResolveError::MissingGroup { artifact_id } => ErrorModel::MissingGroup {
                artifact: artifact_id@,
            },
            ResolveError::MissingVersion { group_id, artifact_id } => ErrorModel::MissingVersion {
                group: group_id@,
                artifact: artifact_id@,
            },
            ResolveError::Unfinished => ErrorModel::Unfinished,
        }
    }
}

} // verus!
