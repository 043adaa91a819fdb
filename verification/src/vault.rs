//! The credential profiles as the transfers see them: which profile an
//! identity names, whether the vault is open, and the recovery key that is
//! handed to the user.

use crate::text::{concat2, str_eq, with_char};
use vstd::prelude::*;

verus! {

/// How many characters a recovery key has, without the dashes.
pub const RECOVERY_KEY_LENGTH: usize = 24;

/// One credential profile.
#[derive(Debug, PartialEq, Eq)]
pub struct Profile {
    pub id: String,
    pub name: String,
    pub provider: String,
    pub access_key_id: String,
    pub secret_access_key: String,
    pub session_token: Option<String>,
    pub endpoint: Option<String>,
    pub region: Option<String>,
    pub default_bucket: Option<String>,
    pub created_at: String,
    pub updated_at: String,
}

impl Clone for Profile {
    fn clone(&self) -> (out: Self)
        ensures
            out == *self,
    {
        Profile {
            id: self.id.clone(),
            name: self.name.clone(),
            provider: self.provider.clone(),
            access_key_id: self.access_key_id.clone(),
            secret_access_key: self.secret_access_key.clone(),
            session_token: self.session_token.clone(),
            endpoint: self.endpoint.clone(),
            region: self.region.clone(),
            default_bucket: self.default_bucket.clone(),
            created_at: self.created_at.clone(),
            updated_at: self.updated_at.clone(),
        }
    }
}

/// A profile as callers see it: without its secrets.
#[derive(Debug, PartialEq, Eq)]
pub struct ProfileInfo {
    pub id: String,
    pub name: String,
    pub provider: String,
    pub endpoint: Option<String>,
    pub region: Option<String>,
    pub default_bucket: Option<String>,
    pub created_at: String,
    pub updated_at: String,
}

/// What the vault holds.
#[derive(Debug, PartialEq, Eq)]
pub struct VaultData {
    pub profiles: Vec<Profile>,
}

/// The vault while the application runs.
#[derive(Debug, PartialEq, Eq)]
pub struct VaultRuntime {
    pub unlocked: bool,
    pub data: Option<VaultData>,
    pub key: Option<[u8; 32]>,
    pub salt: Option<Vec<u8>>,
    pub recovery_key: Option<[u8; 32]>,
    pub recovery_salt: Option<Vec<u8>>,
}

/// Why the vault did not give what was asked for.
#[derive(Debug, PartialEq, Eq)]
pub enum VaultError {
    /// The vault is locked.
    Locked,
    /// The vault was opened with the recovery key and has no passphrase
    /// key to write with.
    MustRekey,
    /// No profile has the identity.
    ProfileNotFound(String),
}

impl VaultError {
    pub open spec fn text(self) -> Seq<char> {
        match self {
            VaultError::Locked => "Vault is locked"@,
            VaultError::MustRekey => "Vault must be rekeyed before writing"@,
            VaultError::ProfileNotFound(id) => "Profile not found: "@ + id@,
        }
    }

    /// The error as the message shown to the user.
    pub fn message(&self) -> (out: String)
        ensures
            out@ == self.text(),
    {
        match self {
            VaultError::Locked => "Vault is locked".to_owned(),
            VaultError::MustRekey => "Vault must be rekeyed before writing".to_owned(),
            VaultError::ProfileNotFound(id) => concat2("Profile not found: ", id.as_str()),
        }
    }
}

impl VaultRuntime {
    /// A locked vault.
    pub fn new() -> (out: VaultRuntime)
        ensures
            out.is_locked_up(),
    {
        VaultRuntime {
            unlocked: false,
            data: None,
            key: None,
            salt: None,
            recovery_key: None,
            recovery_salt: None,
        }
    }

    /// The vault holds nothing.
    pub open spec fn is_locked_up(self) -> bool {
        &&& !self.unlocked
        &&& self.data is None
        &&& self.key is None
        &&& self.salt is None
        &&& self.recovery_key is None
        &&& self.recovery_salt is None
    }

    /// The vault is open: unlocked, with its data.
    pub open spec fn is_open(self) -> bool {
        self.unlocked && self.data is Some
    }
}

impl Default for VaultRuntime {
    fn default() -> (out: VaultRuntime)
        ensures
            out.is_locked_up(),
    {
        VaultRuntime::new()
    }
}

/// Locks the vault: its data, keys and salts are dropped.
pub fn lock_vault_runtime(vault: &mut VaultRuntime)
    ensures
        final(vault).is_locked_up(),
{
    vault.unlocked = false;
    vault.data = None;
    vault.key = None;
    vault.salt = None;
    vault.recovery_key = None;
    vault.recovery_salt = None;
}

/// Whether `info` shows `profile` without its secrets.
pub open spec fn shows_profile(info: ProfileInfo, profile: Profile) -> bool {
    &&& info.id == profile.id
    &&& info.name == profile.name
    &&& info.provider == profile.provider
    &&& info.endpoint == profile.endpoint
    &&& info.region == profile.region
    &&& info.default_bucket == profile.default_bucket
    &&& info.created_at == profile.created_at
    &&& info.updated_at == profile.updated_at
}

/// A profile as callers see it.
pub fn to_profile_info(profile: &Profile) -> (out: ProfileInfo)
    ensures
        shows_profile(out, *profile),
{
    ProfileInfo {
        id: profile.id.clone(),
        name: profile.name.clone(),
        provider: profile.provider.clone(),
        endpoint: profile.endpoint.clone(),
        region: profile.region.clone(),
        default_bucket: profile.default_bucket.clone(),
        created_at: profile.created_at.clone(),
        updated_at: profile.updated_at.clone(),
    }
}

/// The profiles of the vault as callers see them; none while the vault
/// holds no data.
pub fn profile_infos(vault: &VaultRuntime) -> (out: Vec<ProfileInfo>)
    ensures
        match vault.data {
            Some(data) => out@.len() == data.profiles@.len() && forall|i: int|
                0 <= i < out@.len() ==> shows_profile(#[trigger] out@[i], data.profiles@[i]),
            None => out@.len() == 0,
        },
{
    let mut out: Vec<ProfileInfo> = Vec::new();
    match &vault.data {
        Some(data) => {
            let mut i: usize = 0;
            while i < data.profiles.len()
                invariant
                    0 <= i <= data.profiles.len(),
                    out@.len() == i,
                    forall|k: int|
                        0 <= k < i ==> shows_profile(#[trigger] out@[k], data.profiles@[k]),
                decreases data.profiles.len() - i,
            {
                out.push(to_profile_info(&data.profiles[i]));
                i += 1;
            }
        },
        None => {},
    }
    out
}

/// Whether the vault is open; the error says that it is locked.
pub fn ensure_unlocked(vault: &VaultRuntime) -> (out: Result<(), VaultError>)
    ensures
        out == if vault.is_open() {
            Ok::<(), VaultError>(())
        } else {
            Err::<(), VaultError>(VaultError::Locked)
        },
{
    if !vault.unlocked || vault.data.is_none() {
        return Err(VaultError::Locked);
    }
    Ok(())
}

/// Whether the vault can be written: it is open and holds its passphrase
/// key and salt.
pub fn ensure_writable(vault: &VaultRuntime) -> (out: Result<(), VaultError>)
    ensures
        out == if !vault.is_open() {
            Err::<(), VaultError>(VaultError::Locked)
        } else if vault.key is None || vault.salt is None {
            Err::<(), VaultError>(VaultError::MustRekey)
        } else {
            Ok::<(), VaultError>(())
        },
{
    match ensure_unlocked(vault) {
        Ok(()) => {},
        Err(e) => {
            return Err(e);
        },
    }
    if vault.key.is_none() || vault.salt.is_none() {
        return Err(VaultError::MustRekey);
    }
    Ok(())
}

/// Whether the first profile with the identity `id` stands at `i`.
pub open spec fn is_first_profile(profiles: Seq<Profile>, id: Seq<char>, i: int) -> bool {
    &&& 0 <= i < profiles.len()
    &&& profiles[i].id@ == id
    &&& forall|k: int| 0 <= k < i ==> (#[trigger] profiles[k]).id@ != id
}

/// The profile that an identity names: the first one of that identity. A
/// locked vault and an unknown identity are errors.
pub fn profile_for_id(vault: &VaultRuntime, profile_id: &str) -> (out: Result<Profile, VaultError>)
    ensures
        match out {
            Ok(profile) => vault.is_open() && exists|i: int|
                is_first_profile(vault.data->0.profiles@, profile_id@, i) && profile
                    == vault.data->0.profiles@[i],
            Err(VaultError::Locked) => !vault.is_open(),
            Err(VaultError::ProfileNotFound(id)) => {
                &&& vault.is_open()
                &&& id@ == profile_id@
                &&& forall|k: int|
                    0 <= k < vault.data->0.profiles@.len() ==> (
                    #[trigger] vault.data->0.profiles@[k]).id@ != profile_id@
            },
            Err(VaultError::MustRekey) => false,
        },
{
    if !vault.unlocked {
        return Err(VaultError::Locked);
    }
    match &vault.data {
        None => Err(VaultError::Locked),
        Some(data) => {
            let mut i: usize = 0;
            while i < data.profiles.len()
                invariant
                    0 <= i <= data.profiles.len(),
                    vault.unlocked,
                    vault.data == Some(*data),
                    forall|k: int|
                        0 <= k < i ==> (#[trigger] data.profiles@[k]).id@ != profile_id@,
                decreases data.profiles.len() - i,
            {
                if str_eq(data.profiles[i].id.as_str(), profile_id) {
                    assert(is_first_profile(data.profiles@, profile_id@, i as int));
                    return Ok(data.profiles[i].clone());
                }
                i += 1;
            }
            Err(VaultError::ProfileNotFound(profile_id.to_owned()))
        },
    }
}

/// The characters of a recovery key: letters and digits that are not
/// taken for one another.
pub open spec fn key_alphabet() -> Seq<char> {
    "ABCDEFGHJKLMNPQRSTUVWXYZ23456789"@
}

/// The recovery key of `bytes`: one character of the alphabet for each
/// byte, in groups of four with a dash between the groups.
pub open spec fn recovery_key_of(bytes: Seq<u8>) -> Seq<char>
    decreases bytes.len(),
{
    if bytes.len() == 0 {
        Seq::empty()
    } else {
        let head = recovery_key_of(bytes.drop_last());
        let grouped = if bytes.len() > 1 && (bytes.len() - 1) % 4 == 0 {
            head.push('-')
        } else {
            head
        };
        grouped.push(key_alphabet()[(bytes.last() % 32) as int])
    }
}

/// Writes bytes as a recovery key.
pub fn recovery_key_from_bytes(bytes: &Vec<u8>) -> (out: String)
    ensures
        out@ == recovery_key_of(bytes@),
{
    let alphabet = "ABCDEFGHJKLMNPQRSTUVWXYZ23456789";
    proof {
        reveal_strlit("ABCDEFGHJKLMNPQRSTUVWXYZ23456789");
    }
    let mut out = String::new();
    let mut i: usize = 0;
    assert(bytes@.take(0) =~= Seq::<u8>::empty());
    while i < bytes.len()
        invariant
            0 <= i <= bytes.len(),
            alphabet@ == key_alphabet(),
            alphabet@.len() == 32,
            out@ == recovery_key_of(bytes@.take(i as int)),
        decreases bytes.len() - i,
    {
        assert(bytes@.take(i + 1).drop_last() =~= bytes@.take(i as int));
        if i > 0 && i % 4 == 0 {
            out = with_char(out, '-');
        }
        let index: usize = (bytes[i] % 32) as usize;
        out = with_char(out, alphabet.get_char(index));
        i += 1;
    }
    assert(bytes@.take(i as int) =~= bytes@);
    out
}

/// `rand::thread_rng` and `rand::RngCore::fill_bytes`: `count` random
/// bytes. Of the bytes themselves nothing is claimed.
#[verifier::external_body]
pub(crate) fn random_bytes(count: usize) -> (out: Vec<u8>)
    ensures
        out@.len() == count,
{
    let mut bytes = vec![0u8; count];
    rand::RngCore::fill_bytes(&mut rand::thread_rng(), &mut bytes);
    bytes
}

/// A fresh recovery key: 24 random characters of the alphabet, in groups
/// of four.
pub fn generate_recovery_key() -> (out: String)
    ensures
        exists|bytes: Seq<u8>|
            bytes.len() == RECOVERY_KEY_LENGTH && out@ == #[trigger] recovery_key_of(bytes),
{
    let bytes = random_bytes(RECOVERY_KEY_LENGTH);
    recovery_key_from_bytes(&bytes)
}

} // verus!
