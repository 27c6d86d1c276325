//! What has to be known of the object store before it can be queried.

use vstd::prelude::*;

verus! {

/// The bucket to serve and how to reach it.
#[derive(Clone, Debug, PartialEq, Eq)]
pub struct S3Config {
    /// The bucket's name.
    pub name: String,
    /// The address of the store.
    pub endpoint: String,
    /// The region that the store expects requests to be signed for.
    pub region: String,
    /// Whether the bucket is addressed by path rather than by host name.
    pub path_style: bool,
    pub access_key_id: String,
    pub secret_access_key: String,
}

} // verus!
