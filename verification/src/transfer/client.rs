//! How the client of a store is set up from a credential profile.

use crate::blank::{blank, is_blank, trim, trimmed};
use crate::text::str_eq;
use vstd::prelude::*;

verus! {

/// The region that is used where a profile names none.
pub open spec fn default_region() -> Seq<char> {
    "us-east-1"@
}

/// What a client is built from.
#[derive(Debug, PartialEq, Eq)]
pub struct ClientSettings {
    pub access_key_id: String,
    pub secret_access_key: String,
    pub session_token: Option<String>,
    pub region: String,
    pub endpoint: Option<String>,
    pub force_path_style: bool,
}

/// Why no client could be set up.
#[derive(Clone, Copy, Debug, PartialEq, Eq, Structural)]
pub enum ClientError {
    /// The access key or the secret is blank.
    MissingCredentials,
}

impl ClientError {
    pub open spec fn text(self) -> Seq<char> {
        "Profile credentials are missing"@
    }

    /// The error as the message shown to the user.
    pub fn message(&self) -> (out: String)
        ensures
            out@ == self.text(),
    {
        "Profile credentials are missing".to_owned()
    }
}

/// Whether a provider is addressed by path: the self-hosted and the
/// custom stores.
pub open spec fn addressed_by_path(provider: Seq<char>) -> bool {
    provider == "minio"@ || provider == "custom"@
}

/// A setting without the white space around it, if anything is left.
pub open spec fn setting_of(value: Option<String>) -> Option<Seq<char>> {
    match value {
        Some(v) => if blank(v@) {
            None
        } else {
            Some(trimmed(v@))
        },
        None => None,
    }
}

fn setting(value: &Option<String>) -> (out: Option<String>)
    ensures
        crate::jobs::types::opt_view(out) == setting_of(*value),
{
    match value {
        Some(v) => {
            let t = trim(v.as_str());
            if t.as_str().is_empty() {
                None
            } else {
                Some(t)
            }
        },
        None => None,
    }
}

/// The settings of the client of a profile. Blank credentials are refused.
/// The region and the endpoint go without the white space around them; a
/// blank region counts as the default region, a blank endpoint as none.
/// Self-hosted and custom stores are addressed by path.
pub fn client_settings(
    provider: &str,
    access_key_id: &str,
    secret_access_key: &str,
    session_token: &Option<String>,
    endpoint: &Option<String>,
    region: &Option<String>,
) -> (out: Result<ClientSettings, ClientError>)
    ensures
        (out is Err) == (blank(access_key_id@) || blank(secret_access_key@)),
        out matches Ok(settings) ==> {
            &&& settings.access_key_id@ == access_key_id@
            &&& settings.secret_access_key@ == secret_access_key@
            &&& settings.session_token == *session_token
            &&& settings.region@ == match setting_of(*region) {
                Some(r) => r,
                None => default_region(),
            }
            &&& crate::jobs::types::opt_view(settings.endpoint) == setting_of(*endpoint)
            &&& settings.force_path_style == addressed_by_path(provider@)
        },
{
    if is_blank(access_key_id) || is_blank(secret_access_key) {
        return Err(ClientError::MissingCredentials);
    }
    Ok(
        ClientSettings {
            access_key_id: access_key_id.to_owned(),
            secret_access_key: secret_access_key.to_owned(),
            session_token: session_token.clone(),
            region: match setting(region) {
                Some(r) => r,
                None => "us-east-1".to_owned(),
            },
            endpoint: setting(endpoint),
            force_path_style: str_eq(provider, "minio") || str_eq(provider, "custom"),
        },
    )
}

/// Whether an upload has no local file to send: its local path is blank,
/// and an empty object is put in its place.
pub fn uploads_empty_object(local_path: &str) -> (out: bool)
    ensures
        out == blank(local_path@),
{
    is_blank(local_path)
}

} // verus!
