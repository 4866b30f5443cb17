//! The schema of a managed static site: source location, selection policy,
//! credentials, and destination registry.

use vstd::prelude::*;

verus! {

/// The declared desired state of one managed static site.
///
/// Owned by the cluster API and read-only to the core. The selection policy
/// is carried by `branch` and `use_semver`: when `use_semver` is `Some(true)`
/// the branch is ignored, otherwise an explicit branch wins, and with neither
/// the remote's advertised head is used.
#[derive(Debug, Clone)]
pub struct StaticSiteSpec {
    pub git: String,
    pub branch: Option<String>,
    pub use_semver: Option<bool>,
    pub git_credentials: Option<Credentials>,
    pub namespace: Option<String>,
    pub multi_site: Option<bool>,
    pub oci_repo: OciRepo,
    pub oci_credentials: Option<Credentials>,
    pub ingress: Option<IngressConfig>,
}

/// A well-known destination registry provider.
#[derive(Debug, Clone, Copy, PartialEq, Eq, Structural)]
pub enum OciRepoProvider {
    Docker,
    Quay,
}

impl OciRepoProvider {
    /// The provider's fixed authentication endpoint.
    pub fn get_auth_url(&self) -> (r: String)
        ensures
            *self is Docker ==> r@ == "https://index.docker.io/v1/"@,
            *self is Quay ==> r@ == "quay.io"@,
    {
        match self {
            Self::Docker => "https://index.docker.io/v1/".to_owned(),
            Self::Quay => "quay.io".to_owned(),
        }
    }

    /// The provider's fixed push endpoint.
    pub fn get_push_url(&self) -> (r: String)
        ensures
            *self is Docker ==> r@ == "docker.io"@,
            *self is Quay ==> r@ == "quay.io"@,
    {
        match self {
            Self::Docker => "docker.io".to_owned(),
            Self::Quay => "quay.io".to_owned(),
        }
    }
}

/// A custom destination registry given as an explicit endpoint pair.
#[derive(Debug, Clone)]
pub struct CustomOciDestination {
    pub auth_url: String,
    pub push_url: String,
}

/// The destination registry: a well-known provider or a custom endpoint
/// pair, plus the repository path component.
#[derive(Debug, Clone)]
pub struct OciRepo {
    pub provider: Option<OciRepoProvider>,
    pub custom: Option<CustomOciDestination>,
    pub repo: String,
}

/// Credentials, given in place or by reference to a cluster-managed secret.
#[derive(Debug, Clone)]
pub struct Credentials {
    pub plaintext: Option<PlainTextCredentials>,
    pub from_secret: Option<FromSecret>,
}

/// Credentials given directly in the resource.
#[derive(Debug, Clone)]
pub struct PlainTextCredentials {
    pub username: String,
    pub password: String,
}

/// A reference to a cluster-managed secret holding the credentials.
#[derive(Debug, Clone)]
pub struct FromSecret {
    pub secret_name: String,
    pub username_entry: String,
    pub password_entry: String,
}

/// Optional ingress configuration; inert in the core.
#[derive(Debug, Clone)]
pub struct IngressConfig {
    pub ingress_class: Option<String>,
    pub annotations: Option<String>,
}

} // verus!
