//! What to do with one path, given both sides and the baseline.

use crate::clock::{iso_millis, parse_iso_millis};
use crate::sync::types::{
    direction_of, policy_of, ConflictPolicy, FolderSyncFileRecord, LocalFileInfo, RemoteFileInfo,
    SyncAction, SyncDirection, SyncReason,
};
use vstd::prelude::*;

verus! {

/// How a conflict is settled: by the policy, and for `NewerWins` by the
/// local modification time against the remote one, the local side winning a
/// tie.
pub open spec fn conflict_outcome(policy: ConflictPolicy, local_mtime: i64, remote_ms: i64) -> (
    SyncAction,
    SyncReason,
) {
    match policy {
        ConflictPolicy::LocalWins => (SyncAction::Upload, SyncReason::LocalWins),
        ConflictPolicy::RemoteWins => (SyncAction::Download, SyncReason::RemoteWins),
        ConflictPolicy::NewerWins => if local_mtime >= remote_ms {
            (SyncAction::Upload, SyncReason::LocalNewer)
        } else {
            (SyncAction::Download, SyncReason::RemoteNewer)
        },
        ConflictPolicy::Manual => (SyncAction::Conflict, SyncReason::BothChanged),
    }
}

/// Whether the local file differs from what the baseline holds of it.
pub open spec fn local_changed(local: LocalFileInfo, known: FolderSyncFileRecord) -> bool {
    local.size != known.local_size || local.mtime_ms != known.local_mtime
}

/// Whether the remote object differs from what the baseline holds of it.
pub open spec fn remote_changed(remote: RemoteFileInfo, known: FolderSyncFileRecord) -> bool {
    remote.etag@ != known.remote_etag@ || remote.size != known.remote_size
}

/// The action for one path, or `None` where nothing is to be done.
/// `remote_ms` is the remote object's modification time.
pub open spec fn sync_decision(
    local: Option<LocalFileInfo>,
    remote: Option<RemoteFileInfo>,
    known: Option<FolderSyncFileRecord>,
    direction: SyncDirection,
    policy: ConflictPolicy,
    remote_ms: i64,
) -> Option<(SyncAction, SyncReason)> {
    match (local, remote, known) {
        (Some(l), Some(r), Some(k)) => {
            if local_changed(l, k) && remote_changed(r, k) {
                Some(conflict_outcome(policy, l.mtime_ms, remote_ms))
            } else if local_changed(l, k) && direction.uploads() {
                Some((SyncAction::Upload, SyncReason::LocalChanged))
            } else if remote_changed(r, k) && direction.downloads() {
                Some((SyncAction::Download, SyncReason::RemoteChanged))
            } else {
                None
            }
        },
        (Some(l), Some(r), None) => {
            if l.size == r.size {
                None
            } else {
                Some(conflict_outcome(policy, l.mtime_ms, remote_ms))
            }
        },
        (Some(_), None, Some(_)) => {
            if direction == SyncDirection::LocalToRemote {
                Some((SyncAction::Upload, SyncReason::ReuploadRemoteDeleted))
            } else {
                Some((SyncAction::DeleteLocal, SyncReason::RemoteDeleted))
            }
        },
        (Some(_), None, None) => {
            if direction.uploads() {
                Some((SyncAction::Upload, SyncReason::NewLocal))
            } else {
                None
            }
        },
        (None, Some(_), Some(_)) => {
            if direction == SyncDirection::RemoteToLocal {
                Some((SyncAction::Download, SyncReason::RedownloadLocalDeleted))
            } else {
                Some((SyncAction::DeleteRemote, SyncReason::LocalDeleted))
            }
        },
        (None, Some(_), None) => {
            if direction.downloads() {
                Some((SyncAction::Download, SyncReason::NewRemote))
            } else {
                None
            }
        },
        (None, None, _) => None,
    }
}

/// The value behind an optional reference.
pub open spec fn owned<T>(value: Option<&T>) -> Option<T> {
    match value {
        Some(v) => Some(*v),
        None => None,
    }
}

/// The modification time that a remote object is compared by: the instant
/// its timestamp names, zero where there is no object or no readable
/// timestamp.
pub open spec fn remote_instant(remote: Option<RemoteFileInfo>) -> i64 {
    match remote {
        Some(r) => iso_millis(r.last_modified@),
        None => 0,
    }
}

/// Settles a conflict by `policy`; `remote_ms` is the remote object's
/// modification time.
pub fn settle_conflict(policy: ConflictPolicy, local_mtime: i64, remote_ms: i64) -> (out: (
    SyncAction,
    SyncReason,
))
    ensures
        out == conflict_outcome(policy, local_mtime, remote_ms),
{
    match policy {
        ConflictPolicy::LocalWins => (SyncAction::Upload, SyncReason::LocalWins),
        ConflictPolicy::RemoteWins => (SyncAction::Download, SyncReason::RemoteWins),
        ConflictPolicy::NewerWins => if local_mtime >= remote_ms {
            (SyncAction::Upload, SyncReason::LocalNewer)
        } else {
            (SyncAction::Download, SyncReason::RemoteNewer)
        },
        ConflictPolicy::Manual => (SyncAction::Conflict, SyncReason::BothChanged),
    }
}

/// Settles a conflict between a local file and a remote object by the
/// rule's policy, given as its text.
pub fn resolve_folder_sync_conflict(
    local: &LocalFileInfo,
    remote: &RemoteFileInfo,
    conflict_resolution: &str,
) -> (out: (SyncAction, SyncReason))
    ensures
        out == conflict_outcome(
            policy_of(conflict_resolution@),
            local.mtime_ms,
            iso_millis(remote.last_modified@),
        ),
{
    let policy = ConflictPolicy::parse(conflict_resolution);
    let remote_ms = parse_iso_millis(remote.last_modified.as_str());
    settle_conflict(policy, local.mtime_ms, remote_ms)
}

/// Decides the action for one path from both sides, the baseline, the
/// direction and the policy; `remote_ms` is the remote object's modification
/// time.
pub fn decide_sync_action(
    local: Option<&LocalFileInfo>,
    remote: Option<&RemoteFileInfo>,
    known: Option<&FolderSyncFileRecord>,
    direction: SyncDirection,
    policy: ConflictPolicy,
    remote_ms: i64,
) -> (out: Option<(SyncAction, SyncReason)>)
    ensures
        out == sync_decision(
            owned(local),
            owned(remote),
            owned(known),
            direction,
            policy,
            remote_ms,
        ),
{
    match (local, remote) {
        (Some(l), Some(r)) => {
            match known {
                Some(k) => {
                    let local_differs = l.size != k.local_size || l.mtime_ms != k.local_mtime;
                    let remote_differs = r.etag != k.remote_etag || r.size != k.remote_size;
                    if local_differs && remote_differs {
                        Some(settle_conflict(policy, l.mtime_ms, remote_ms))
                    } else if local_differs {
                        match direction {
                            SyncDirection::RemoteToLocal => None,
                            _ => Some((SyncAction::Upload, SyncReason::LocalChanged)),
                        }
                    } else if remote_differs {
                        match direction {
                            SyncDirection::LocalToRemote => None,
                            _ => Some((SyncAction::Download, SyncReason::RemoteChanged)),
                        }
                    } else {
                        None
                    }
                },
                None => {
                    if l.size == r.size {
                        None
                    } else {
                        Some(settle_conflict(policy, l.mtime_ms, remote_ms))
                    }
                },
            }
        },
        (Some(_), None) => {
            match (known, direction) {
                (Some(_), SyncDirection::LocalToRemote) => Some(
                    (SyncAction::Upload, SyncReason::ReuploadRemoteDeleted),
                ),
                (Some(_), _) => Some((SyncAction::DeleteLocal, SyncReason::RemoteDeleted)),
                (None, SyncDirection::RemoteToLocal) => None,
                (None, _) => Some((SyncAction::Upload, SyncReason::NewLocal)),
            }
        },
        (None, Some(_)) => {
            match (known, direction) {
                (Some(_), SyncDirection::RemoteToLocal) => Some(
                    (SyncAction::Download, SyncReason::RedownloadLocalDeleted),
                ),
                (Some(_), _) => Some((SyncAction::DeleteRemote, SyncReason::LocalDeleted)),
                (None, SyncDirection::LocalToRemote) => None,
                (None, _) => Some((SyncAction::Download, SyncReason::NewRemote)),
            }
        },
        (None, None) => None,
    }
}

/// Decides the action for one path of a rule whose direction and conflict
/// policy are given as their texts.
pub fn resolve_folder_sync_action(
    local: Option<&LocalFileInfo>,
    remote: Option<&RemoteFileInfo>,
    known: Option<&FolderSyncFileRecord>,
    direction: &str,
    conflict_resolution: &str,
) -> (out: Option<(SyncAction, SyncReason)>)
    ensures
        out == sync_decision(
            owned(local),
            owned(remote),
            owned(known),
            direction_of(direction@),
            policy_of(conflict_resolution@),
            remote_instant(owned(remote)),
        ),
{
    let remote_ms = match remote {
        Some(r) => parse_iso_millis(r.last_modified.as_str()),
        None => 0,
    };
    decide_sync_action(
        local,
        remote,
        known,
        SyncDirection::parse(direction),
        ConflictPolicy::parse(conflict_resolution),
        remote_ms,
    )
}

/// Both sides are as the baseline holds them.
pub open spec fn in_sync(
    local: Option<LocalFileInfo>,
    remote: Option<RemoteFileInfo>,
    known: Option<FolderSyncFileRecord>,
) -> bool {
    match (local, remote, known) {
        (Some(l), Some(r), Some(k)) => !local_changed(l, k) && !remote_changed(r, k),
        (None, None, _) => true,
        _ => false,
    }
}

/// A path whose two sides are as the baseline holds them needs no action,
/// whatever the direction and the policy.
pub proof fn lemma_in_sync_needs_no_action(
    local: Option<LocalFileInfo>,
    remote: Option<RemoteFileInfo>,
    known: Option<FolderSyncFileRecord>,
    direction: SyncDirection,
    policy: ConflictPolicy,
    remote_ms: i64,
)
    requires
        in_sync(local, remote, known),
    ensures
        sync_decision(local, remote, known, direction, policy, remote_ms) is None,
{
}

/// A local file and a remote object of different sizes without a baseline
/// are a conflict. `NewerWins` uploads exactly when the local file is at
/// least as new as the remote object and downloads otherwise; `LocalWins`
/// always uploads, `RemoteWins` always downloads, and `Manual` always
/// reports the conflict and never transfers.
pub proof fn lemma_conflict_classification(
    local: LocalFileInfo,
    remote: RemoteFileInfo,
    direction: SyncDirection,
    remote_ms: i64,
)
    requires
        local.size != remote.size,
    ensures
        sync_decision(
            Some(local),
            Some(remote),
            None,
            direction,
            ConflictPolicy::NewerWins,
            remote_ms,
        ) == Some(
            if local.mtime_ms >= remote_ms {
                (SyncAction::Upload, SyncReason::LocalNewer)
            } else {
                (SyncAction::Download, SyncReason::RemoteNewer)
            },
        ),
        sync_decision(
            Some(local),
            Some(remote),
            None,
            direction,
            ConflictPolicy::LocalWins,
            remote_ms,
        ) == Some((SyncAction::Upload, SyncReason::LocalWins)),
        sync_decision(
            Some(local),
            Some(remote),
            None,
            direction,
            ConflictPolicy::RemoteWins,
            remote_ms,
        ) == Some((SyncAction::Download, SyncReason::RemoteWins)),
        sync_decision(Some(local), Some(remote), None, direction, ConflictPolicy::Manual, remote_ms)
            == Some((SyncAction::Conflict, SyncReason::BothChanged)),
{
}

/// With the direction local-to-remote a new remote object is never
/// downloaded, and with remote-to-local a new local file is never uploaded:
/// neither gets any action.
pub proof fn lemma_direction_suppression(
    local: LocalFileInfo,
    remote: RemoteFileInfo,
    policy: ConflictPolicy,
    remote_ms: i64,
)
    ensures
        sync_decision(None, Some(remote), None, SyncDirection::LocalToRemote, policy, remote_ms)
            is None,
        sync_decision(Some(local), None, None, SyncDirection::RemoteToLocal, policy, remote_ms)
            is None,
{
}

/// A change on one side only is never carried against the rule's
/// direction: without a conflict, local-to-remote never downloads or deletes
/// locally, and remote-to-local never uploads or deletes remotely.
pub proof fn lemma_one_way_rules_touch_one_side(
    local: Option<LocalFileInfo>,
    remote: Option<RemoteFileInfo>,
    known: Option<FolderSyncFileRecord>,
    policy: ConflictPolicy,
    remote_ms: i64,
)
    requires
        !(local is Some && remote is Some && (known is None || (local_changed(
            local->0,
            known->0,
        ) && remote_changed(remote->0, known->0)))),
    ensures
        match sync_decision(local, remote, known, SyncDirection::LocalToRemote, policy, remote_ms) {
            Some((action, _)) => action == SyncAction::Upload || action
                == SyncAction::DeleteRemote,
            None => true,
        },
        match sync_decision(local, remote, known, SyncDirection::RemoteToLocal, policy, remote_ms) {
            Some((action, _)) => action == SyncAction::Download || action
                == SyncAction::DeleteLocal,
            None => true,
        },
{
}

/// A path that is gone on one side while the baseline still holds it is
/// either brought back, where the direction makes the other side the source,
/// or deleted on the other side, and never both; a path gone on both sides
/// gets no action at all.
pub proof fn lemma_deletion_propagation(
    local: Option<LocalFileInfo>,
    remote: Option<RemoteFileInfo>,
    known: FolderSyncFileRecord,
    direction: SyncDirection,
    policy: ConflictPolicy,
    remote_ms: i64,
)
    requires
        local is None || remote is None,
    ensures
        ({
            let decision = sync_decision(local, remote, Some(known), direction, policy, remote_ms);
            if local is Some {
                decision == Some(
                    if direction == SyncDirection::LocalToRemote {
                        (SyncAction::Upload, SyncReason::ReuploadRemoteDeleted)
                    } else {
                        (SyncAction::DeleteLocal, SyncReason::RemoteDeleted)
                    },
                )
            } else if remote is Some {
                decision == Some(
                    if direction == SyncDirection::RemoteToLocal {
                        (SyncAction::Download, SyncReason::RedownloadLocalDeleted)
                    } else {
                        (SyncAction::DeleteRemote, SyncReason::LocalDeleted)
                    },
                )
            } else {
                decision is None
            }
        }),
{
}

} // verus!
