//! The records that the folder synchronisation works on.

use vstd::prelude::*;

verus! {

/// A file found below the local root.
#[derive(Debug, PartialEq, Eq)]
pub struct LocalFileInfo {
    pub relative_path: String,
    pub size: i64,
    pub mtime_ms: i64,
}

impl Clone for LocalFileInfo {
    fn clone(&self) -> (out: Self)
        ensures
            out == *self,
    {
        LocalFileInfo {
            relative_path: self.relative_path.clone(),
            size: self.size,
            mtime_ms: self.mtime_ms,
        }
    }
}

/// An object found below the bucket prefix.
#[derive(Debug, PartialEq, Eq)]
pub struct RemoteFileInfo {
    pub size: i64,
    pub etag: String,
    pub last_modified: String,
}

impl Clone for RemoteFileInfo {
    fn clone(&self) -> (out: Self)
        ensures
            out == *self,
    {
        RemoteFileInfo {
            size: self.size,
            etag: self.etag.clone(),
            last_modified: self.last_modified.clone(),
        }
    }
}

/// One entry of a bucket listing.
#[derive(Debug, PartialEq, Eq)]
pub struct RemoteObject {
    pub key: String,
    pub size: i64,
    pub etag: String,
    pub last_modified: String,
}

impl Clone for RemoteObject {
    fn clone(&self) -> (out: Self)
        ensures
            out == *self,
    {
        RemoteObject {
            key: self.key.clone(),
            size: self.size,
            etag: self.etag.clone(),
            last_modified: self.last_modified.clone(),
        }
    }
}

/// The baseline of one path: both sides as they were when the path was last
/// synchronised.
#[derive(Debug, PartialEq, Eq)]
pub struct FolderSyncFileRecord {
    pub relative_path: String,
    pub local_mtime: i64,
    pub local_size: i64,
    pub remote_etag: String,
    pub remote_last_modified: String,
    pub remote_size: i64,
    pub synced_at: String,
}

impl Clone for FolderSyncFileRecord {
    fn clone(&self) -> (out: Self)
        ensures
            out == *self,
    {
        FolderSyncFileRecord {
            relative_path: self.relative_path.clone(),
            local_mtime: self.local_mtime,
            local_size: self.local_size,
            remote_etag: self.remote_etag.clone(),
            remote_last_modified: self.remote_last_modified.clone(),
            remote_size: self.remote_size,
            synced_at: self.synced_at.clone(),
        }
    }
}

/// One folder-sync rule: a local root kept in step with a bucket prefix.
#[derive(Debug, PartialEq, Eq)]
pub struct FolderSyncRuleRecord {
    pub id: String,
    pub profile_id: String,
    pub bucket: String,
    pub bucket_prefix: String,
    pub local_path: String,
    pub direction: String,
    pub enabled: bool,
    pub conflict_resolution: String,
    pub poll_interval_ms: i64,
    pub exclude_patterns: Vec<String>,
    pub last_sync_at: Option<String>,
    pub last_sync_status: Option<String>,
    pub last_sync_error: Option<String>,
    pub created_at: String,
}

impl FolderSyncRuleRecord {
    /// Whether two rules hold the same values.
    pub open spec fn same_as(self, other: FolderSyncRuleRecord) -> bool {
        &&& self.id == other.id
        &&& self.profile_id == other.profile_id
        &&& self.bucket == other.bucket
        &&& self.bucket_prefix == other.bucket_prefix
        &&& self.local_path == other.local_path
        &&& self.direction == other.direction
        &&& self.enabled == other.enabled
        &&& self.conflict_resolution == other.conflict_resolution
        &&& self.poll_interval_ms == other.poll_interval_ms
        &&& self.exclude_patterns@ == other.exclude_patterns@
        &&& self.last_sync_at == other.last_sync_at
        &&& self.last_sync_status == other.last_sync_status
        &&& self.last_sync_error == other.last_sync_error
        &&& self.created_at == other.created_at
    }
}

impl Clone for FolderSyncRuleRecord {
    fn clone(&self) -> (out: Self)
        ensures
            out.same_as(*self),
    {
        FolderSyncRuleRecord {
            id: self.id.clone(),
            profile_id: self.profile_id.clone(),
            bucket: self.bucket.clone(),
            bucket_prefix: self.bucket_prefix.clone(),
            local_path: self.local_path.clone(),
            direction: self.direction.clone(),
            enabled: self.enabled,
            conflict_resolution: self.conflict_resolution.clone(),
            poll_interval_ms: self.poll_interval_ms,
            exclude_patterns: crate::text::clone_strings(&self.exclude_patterns),
            last_sync_at: self.last_sync_at.clone(),
            last_sync_status: self.last_sync_status.clone(),
            last_sync_error: self.last_sync_error.clone(),
            created_at: self.created_at.clone(),
        }
    }
}

/// Which way a rule carries changes.
#[derive(Clone, Copy, Debug, PartialEq, Eq, Structural)]
pub enum SyncDirection {
    LocalToRemote,
    RemoteToLocal,
    Bidirectional,
}

/// What a rule does with a path that changed on both sides.
#[derive(Clone, Copy, Debug, PartialEq, Eq, Structural)]
pub enum ConflictPolicy {
    LocalWins,
    RemoteWins,
    NewerWins,
    Manual,
}

/// What a pass does with one path.
#[derive(Clone, Copy, Debug, PartialEq, Eq, Structural)]
pub enum SyncAction {
    Upload,
    Download,
    DeleteLocal,
    DeleteRemote,
    Conflict,
}

/// Why a pass does it.
#[derive(Clone, Copy, Debug, PartialEq, Eq, Structural)]
pub enum SyncReason {
    LocalWins,
    RemoteWins,
    LocalNewer,
    RemoteNewer,
    BothChanged,
    LocalChanged,
    RemoteChanged,
    ReuploadRemoteDeleted,
    RemoteDeleted,
    NewLocal,
    RedownloadLocalDeleted,
    LocalDeleted,
    NewRemote,
}

/// The direction that a rule's text stands for: everything but the two
/// one-way names is bidirectional.
pub open spec fn direction_of(text: Seq<char>) -> SyncDirection {
    if text == "local-to-remote"@ {
        SyncDirection::LocalToRemote
    } else if text == "remote-to-local"@ {
        SyncDirection::RemoteToLocal
    } else {
        SyncDirection::Bidirectional
    }
}

/// The policy that a rule's text stands for: everything but the three
/// automatic names leaves the conflict to the user.
pub open spec fn policy_of(text: Seq<char>) -> ConflictPolicy {
    if text == "local-wins"@ {
        ConflictPolicy::LocalWins
    } else if text == "remote-wins"@ {
        ConflictPolicy::RemoteWins
    } else if text == "newer-wins"@ {
        ConflictPolicy::NewerWins
    } else {
        ConflictPolicy::Manual
    }
}

impl SyncDirection {
    /// Reads a rule's direction.
    pub fn parse(text: &str) -> (out: SyncDirection)
        ensures
            out == direction_of(text@),
    {
        if crate::text::str_eq(text, "local-to-remote") {
            SyncDirection::LocalToRemote
        } else if crate::text::str_eq(text, "remote-to-local") {
            SyncDirection::RemoteToLocal
        } else {
            SyncDirection::Bidirectional
        }
    }

    /// Whether changes of the local side are carried to the remote side.
    pub open spec fn uploads(self) -> bool {
        self != SyncDirection::RemoteToLocal
    }

    /// Whether changes of the remote side are carried to the local side.
    pub open spec fn downloads(self) -> bool {
        self != SyncDirection::LocalToRemote
    }
}

impl ConflictPolicy {
    /// Reads a rule's conflict policy.
    pub fn parse(text: &str) -> (out: ConflictPolicy)
        ensures
            out == policy_of(text@),
    {
        if crate::text::str_eq(text, "local-wins") {
            ConflictPolicy::LocalWins
        } else if crate::text::str_eq(text, "remote-wins") {
            ConflictPolicy::RemoteWins
        } else if crate::text::str_eq(text, "newer-wins") {
            ConflictPolicy::NewerWins
        } else {
            ConflictPolicy::Manual
        }
    }
}

impl SyncAction {
    pub open spec fn text(self) -> Seq<char> {
        match self {
            SyncAction::Upload => "upload"@,
            SyncAction::Download => "download"@,
            SyncAction::DeleteLocal => "delete-local"@,
            SyncAction::DeleteRemote => "delete-remote"@,
            SyncAction::Conflict => "conflict"@,
        }
    }

    /// The action's name in a diff.
    pub fn as_str(&self) -> (out: &'static str)
        ensures
            out@ == self.text(),
    {
        match self {
            SyncAction::Upload => "upload",
            SyncAction::Download => "download",
            SyncAction::DeleteLocal => "delete-local",
            SyncAction::DeleteRemote => "delete-remote",
            SyncAction::Conflict => "conflict",
        }
    }
}

impl SyncReason {
    pub open spec fn text(self) -> Seq<char> {
        match self {
            SyncReason::LocalWins => "Conflict resolved: local wins"@,
            SyncReason::RemoteWins => "Conflict resolved: remote wins"@,
            SyncReason::LocalNewer => "Conflict resolved: local is newer"@,
            SyncReason::RemoteNewer => "Conflict resolved: remote is newer"@,
            SyncReason::BothChanged => "Both sides changed"@,
            SyncReason::LocalChanged => "Local file changed"@,
            SyncReason::RemoteChanged => "Remote file changed"@,
            SyncReason::ReuploadRemoteDeleted => "Re-upload (remote deleted)"@,
            SyncReason::RemoteDeleted => "Remote deleted"@,
            SyncReason::NewLocal => "New local file"@,
            SyncReason::RedownloadLocalDeleted => "Re-download (local deleted)"@,
            SyncReason::LocalDeleted => "Local deleted"@,
            SyncReason::NewRemote => "New remote file"@,
        }
    }

    /// The reason as shown in a diff.
    pub fn as_str(&self) -> (out: &'static str)
        ensures
            out@ == self.text(),
    {
        match self {
            SyncReason::LocalWins => "Conflict resolved: local wins",
            SyncReason::RemoteWins => "Conflict resolved: remote wins",
            SyncReason::LocalNewer => "Conflict resolved: local is newer",
            SyncReason::RemoteNewer => "Conflict resolved: remote is newer",
            SyncReason::BothChanged => "Both sides changed",
            SyncReason::LocalChanged => "Local file changed",
            SyncReason::RemoteChanged => "Remote file changed",
            SyncReason::ReuploadRemoteDeleted => "Re-upload (remote deleted)",
            SyncReason::RemoteDeleted => "Remote deleted",
            SyncReason::NewLocal => "New local file",
            SyncReason::RedownloadLocalDeleted => "Re-download (local deleted)",
            SyncReason::LocalDeleted => "Local deleted",
            SyncReason::NewRemote => "New remote file",
        }
    }
}

} // verus!
