//! The engine's error taxonomy.
//!
//! `InvalidLabelSelector` marks a malformed selector (terminal for the
//! attempt, the policy object must be corrected); `InvalidOwnerRef`
//! marks a policy object whose metadata cannot yield an owner
//! reference; `MissingObjectKey` marks a discovered workload that lacks
//! a required metadata field; `UpstreamUnavailable` stands for a
//! list/apply/patch failure reported by the cluster, which the caller
//! retries on a fixed schedule.

use vstd::prelude::*;

use vstd::string::StringExecFns;

verus! {

#[derive(Debug, Clone, PartialEq, Eq)]
pub enum Error {
    InvalidLabelSelector(String),
    InvalidOwnerRef,
    MissingObjectKey(String),
    UpstreamUnavailable(String),
}

/// The human-readable rendering of each error.
pub open spec fn error_message(e: Error) -> Seq<char> {
    match e {
        Error::InvalidLabelSelector(s) => "LabelSelector is invalid: "@ + s@,
        Error::InvalidOwnerRef => "Failed to get owner ref"@,
        Error::MissingObjectKey(s) => "MissingObjectKey: "@ + s@,
        Error::UpstreamUnavailable(s) => "Kubernetes reported error: "@ + s@,
    }
}

impl Error {
    /// Renders the error as a message string.
    pub fn message(&self) -> (m: String)
        ensures
            m@ == error_message(*self),
    {
        match self {
            Error::InvalidLabelSelector(s) => {
                let mut m = "LabelSelector is invalid: ".to_owned();
                m.append(s.as_str());
                m
            },
            Error::InvalidOwnerRef => "Failed to get owner ref".to_owned(),
            Error::MissingObjectKey(s) => {
                let mut m = "MissingObjectKey: ".to_owned();
                m.append(s.as_str());
                m
            },
            Error::UpstreamUnavailable(s) => {
                let mut m = "Kubernetes reported error: ".to_owned();
                m.append(s.as_str());
                m
            },
        }
    }
}

} // verus!
