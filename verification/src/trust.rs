//! Which store files are trusted.
//!
//! The store holds tokens, so it is trusted only as ssh trusts a key: a
//! regular file, owned by the current user and writable by no one else.

use vstd::prelude::*;

use crate::text::{bytes_to_text, decimal, decimal_text, read_as_text};

verus! {

/// The permission bits that let the group or others write a file.
pub const WRITABLE_BY_OTHERS: u32 = 0o022;

/// Who owns a file, and its mode bits.
#[derive(Clone, Copy, Debug, PartialEq, Eq, Structural)]
pub struct FileOwner {
    pub uid: u32,
    pub mode: u32,
}

/// What is known of a file. `owner` is missing on systems that have no user
/// ids. Read without following a link, the metadata of a symbolic link is
/// not that of a regular file.
#[derive(Clone, Copy, Debug, PartialEq, Eq, Structural)]
pub struct FileMeta {
    pub is_file: bool,
    pub owner: Option<FileOwner>,
}

/// A file operation that failed: whether for want of the file, and what the
/// system says of it.
#[derive(Debug)]
pub struct IoFailure {
    pub not_found: bool,
    pub message: String,
}

/// Why a store file is not trusted.
#[derive(Clone, Copy, Debug, PartialEq, Eq, Structural)]
pub enum Violation {
    NotRegularFile,
    ForeignOwner { owner: u32, uid: u32 },
    WritableByOthers,
}

/// What keeps the user `uid` from trusting a file, if anything does.
pub open spec fn violation(meta: FileMeta, uid: u32) -> Option<Violation> {
    if !meta.is_file {
        Some(Violation::NotRegularFile)
    } else {
        match meta.owner {
            Some(owner) => if owner.uid != uid {
                Some(Violation::ForeignOwner { owner: owner.uid, uid })
            } else if owner.mode & WRITABLE_BY_OTHERS != 0 {
                Some(Violation::WritableByOthers)
            } else {
                None
            },
            None => None,
        }
    }
}

/// Whether the user `uid` trusts a file.
pub open spec fn trusted(meta: FileMeta, uid: u32) -> bool {
    violation(meta, uid) is None
}

impl Violation {
    /// The violation in words.
    pub open spec fn words(self) -> Seq<char> {
        match self {
            Violation::NotRegularFile => "not a regular file"@,
            Violation::ForeignOwner { owner, uid } => "owned by uid "@ + decimal(owner as nat)
                + ", not "@ + decimal(uid as nat),
            Violation::WritableByOthers =>
                "writable by group or others (fix: chmod go-w the file)"@,
        }
    }

    /// The violation in words.
    pub fn reason(&self) -> (text: String)
        ensures
            text@ == self.words(),
    {
        match self {
            Violation::NotRegularFile => "not a regular file".to_owned(),
            Violation::ForeignOwner { owner, uid } => {
                let mut text = "owned by uid ".to_owned();
                text.append(decimal_text(*owner).as_str());
                text.append(", not ");
                text.append(decimal_text(*uid).as_str());
                text
            },
            Violation::WritableByOthers =>
                "writable by group or others (fix: chmod go-w the file)".to_owned(),
        }
    }
}

/// What keeps the user `uid` from trusting a file, if anything does.
pub fn find_violation(meta: &FileMeta, uid: u32) -> (found: Option<Violation>)
    ensures
        found == violation(*meta, uid),
{
    if !meta.is_file {
        return Some(Violation::NotRegularFile);
    }
    match meta.owner {
        Some(owner) => {
            if owner.uid != uid {
                return Some(Violation::ForeignOwner { owner: owner.uid, uid });
            }
            if owner.mode & WRITABLE_BY_OTHERS != 0 {
                return Some(Violation::WritableByOthers);
            }
            None
        },
        None => None,
    }
}

/// Trust check for a store that is consulted: a regular file, owned by the
/// user `uid`, writable by no one else. The error says what is wrong.
pub fn check_config_meta(meta: &FileMeta, uid: u32) -> (checked: Result<(), String>)
    ensures
        checked is Ok <==> trusted(*meta, uid),
        checked matches Err(reason) ==> reason@ == violation(*meta, uid)->0.words(),
{
    match find_violation(meta, uid) {
        Some(found) => Err(found.reason()),
        None => Ok(()),
    }
}

/// Trust check before a store is opened, on the metadata that `lstat` gave
/// for its path. The path must exist, and what is there must be trusted;
/// a file that is not trusted counts as one that may not be read.
pub fn check_config_path(lstat: Result<FileMeta, IoFailure>, uid: u32) -> (checked: Result<
    (),
    IoFailure,
>)
    ensures
        checked is Ok <==> (lstat matches Ok(meta) && trusted(meta, uid)),
        checked matches Err(failure) ==> match lstat {
            Ok(meta) => !failure.not_found && failure.message@ == violation(
                meta,
                uid,
            )->0.words(),
            Err(cause) => failure == cause,
        },
{
    match lstat {
        Ok(meta) => match check_config_meta(&meta, uid) {
            Ok(()) => Ok(()),
            Err(reason) => Err(IoFailure { not_found: false, message: reason }),
        },
        Err(cause) => Err(cause),
    }
}

/// What is said when a store is not written because of what stands in its
/// place.
pub open spec fn refusal(path: Seq<u8>, found: Violation) -> Seq<char> {
    "refusing to write connection store to "@ + read_as_text(path) + ": "@ + found.words()
}

/// Whether the store may be written to `path`, where `target` is the
/// metadata of what stands there, if anything does: a file that would not be
/// trusted when read back must not receive a token. The error says what is
/// wrong.
pub fn check_save_target(path: &[u8], target: Option<FileMeta>, uid: u32) -> (checked: Result<
    (),
    String,
>)
    ensures
        checked is Ok <==> (target matches Some(meta) ==> trusted(meta, uid)),
        checked matches Err(message) ==> message@ == refusal(
            path@,
            violation(target->0, uid)->0,
        ),
{
    match target {
        Some(meta) => match find_violation(&meta, uid) {
            Some(found) => {
                let mut message = "refusing to write connection store to ".to_owned();
                message.append(bytes_to_text(path).as_str());
                message.append(": ");
                message.append(found.reason().as_str());
                Err(message)
            },
            None => Ok(()),
        },
        None => Ok(()),
    }
}

/// A file is trusted just if it is a regular file and, where files have
/// owners, belongs to the user and can be written neither by the group nor
/// by others.
pub proof fn law_trusted_means(meta: FileMeta, uid: u32)
    ensures
        trusted(meta, uid) <==> meta.is_file && (meta.owner matches Some(owner) ==> owner.uid
            == uid && owner.mode & 0o020 == 0 && owner.mode & 0o002 == 0),
{
    if let Some(owner) = meta.owner {
        let mode = owner.mode;
        assert(mode & 0o022 == 0 <==> (mode & 0o020 == 0 && mode & 0o002 == 0)) by (bit_vector);
    }
}

/// What is wrong with a file is told in this order: that it is no regular
/// file, that it belongs to another user, and that the group or others can
/// write it. The words say so, with both user ids.
pub proof fn law_violation_says_why(meta: FileMeta, uid: u32)
    ensures
        !meta.is_file ==> {
            &&& violation(meta, uid) == Some(Violation::NotRegularFile)
            &&& violation(meta, uid)->0.words() == "not a regular file"@
        },
        meta.is_file ==> match meta.owner {
            Some(owner) => {
                &&& owner.uid != uid ==> {
                    &&& violation(meta, uid) == Some(
                        Violation::ForeignOwner { owner: owner.uid, uid },
                    )
                    &&& violation(meta, uid)->0.words() == "owned by uid "@ + decimal(
                        owner.uid as nat,
                    ) + ", not "@ + decimal(uid as nat)
                }
                &&& owner.uid == uid && (owner.mode & 0o020 != 0 || owner.mode & 0o002 != 0) ==> {
                    &&& violation(meta, uid) == Some(Violation::WritableByOthers)
                    &&& violation(meta, uid)->0.words()
                        == "writable by group or others (fix: chmod go-w the file)"@
                }
                &&& owner.uid == uid && owner.mode & 0o020 == 0 && owner.mode & 0o002 == 0
                    ==> violation(meta, uid) is None
            },
            None => violation(meta, uid) is None,
        },
{
    law_trusted_means(meta, uid);
}

/// A refusal names the path and says what is wrong with what stands there.
pub proof fn law_refusal_says_why(path: Seq<u8>, meta: FileMeta, uid: u32)
    requires
        !trusted(meta, uid),
    ensures
        ({
            let start = "refusing to write connection store to "@ + read_as_text(path) + ": "@;
            let message = refusal(path, violation(meta, uid)->0);
            &&& start.is_prefix_of(message)
            &&& message.skip(start.len() as int) == violation(meta, uid)->0.words()
        }),
{
    let start = "refusing to write connection store to "@ + read_as_text(path) + ": "@;
    let message = refusal(path, violation(meta, uid)->0);
    assert(start =~= message.subrange(0, start.len() as int));
    assert(message.skip(start.len() as int) =~= violation(meta, uid)->0.words());
}

/// A regular file of the user's own that only they can read and write is
/// trusted.
pub proof fn law_private_file_is_trusted(meta: FileMeta, uid: u32)
    requires
        meta.is_file,
        meta.owner matches Some(owner) ==> owner.uid == uid && owner.mode & 0o777 == 0o600,
    ensures
        trusted(meta, uid),
{
    if let Some(owner) = meta.owner {
        let mode = owner.mode;
        assert(mode & 0o022 == 0) by (bit_vector)
            requires
                mode & 0o777 == 0o600,
        ;
    }
}

} // verus!
