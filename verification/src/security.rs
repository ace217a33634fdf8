//! Reusable, hardened filesystem primitives.
//!
//! These are the trusted core of a security product: every byte written to disk
//! and every file the helper decides to trust flows through here. The module
//! decides; the caller performs the system calls it names and reports back what
//! they returned.
//!
//! Guarantees provided:
//!
//! * **Atomic replacement** — [`secure_write`] writes to a temporary file in the
//!   destination directory, `fsync`s it, then atomically renames it into place
//!   and `fsync`s the directory. Readers never observe a partial file, even
//!   across a crash.
//! * **No symlink traversal of the target name** — `rename` replaces the target
//!   name itself rather than following it, and [`ensure_not_symlink`] lets
//!   callers reject symlinks explicitly before trusting a path.
//! * **Permission and ownership validation** — helpers verify that managed files
//!   are owned by the expected user or root and are not writable by group/other.
//!
//! All metadata comes from `lstat`, so a final-component symlink is detected
//! rather than followed.

use vstd::prelude::*;
use vstd::slice::slice_to_vec;

use crate::errors::{Error, Result};
use crate::protocol;

verus! {

/// Permission bits for files that may contain secrets (owner read/write only).
pub const MODE_SECRET: u32 = 0o600;

/// Permission bits for non-secret managed files (owner write, others read).
pub const MODE_PUBLIC: u32 = 0o644;

/// Permission bits for managed directories (owner only).
pub const MODE_DIR: u32 = 0o700;

/// The owner uid expected for root-managed files.
pub const ROOT_UID: u32 = 0;

/// Permission mask for "writable by group or other".
pub const GROUP_OR_OTHER_WRITABLE: u32 = 0o022;

/// What a system call returned: a value, or an error, told apart by whether it
/// says that the file does not exist.
#[derive(Debug)]
pub enum Attempt<T> {
    /// The call succeeded.
    Done(T),
    /// The call failed because the file does not exist.
    Missing(std::io::Error),
    /// The call failed for another reason.
    Failed(std::io::Error),
}

/// What kind of file a path names, without following it.
#[derive(Debug, Clone, Copy, PartialEq, Eq, Structural)]
pub enum FileKind {
    /// A symbolic link.
    Symlink,
    /// A Unix domain socket.
    Socket,
    /// Anything else.
    Other,
}

/// The metadata of a path, without following it.
#[derive(Debug, Clone, Copy, PartialEq, Eq, Structural)]
pub struct FileMeta {
    /// What kind of file it is.
    pub kind: FileKind,
    /// The owner.
    pub uid: u32,
    /// The mode; only its permission bits matter here.
    pub mode: u32,
}

// ---------------------------------------------------------------------------
// Validation
// ---------------------------------------------------------------------------

/// The value of an attempt; any failure is an [`Error::Io`].
pub open spec fn required<T>(attempt: Attempt<T>) -> Result<T> {
    match attempt {
        Attempt::Done(v) => Ok(v),
        Attempt::Missing(e) => Err(Error::Io(e)),
        Attempt::Failed(e) => Err(Error::Io(e)),
    }
}

/// Whether a mode has a group or other write bit.
pub open spec fn group_or_other_writable(mode: u32) -> bool {
    mode & 0o022 != 0
}

/// Whether every permission bit of `mode` is one of `allowed`.
pub open spec fn mode_at_most(mode: u32, allowed: u32) -> bool {
    mode & 0o777 & !allowed == 0
}

/// The verdict of [`is_symlink`].
pub open spec fn symlink_verdict(stat: Attempt<FileMeta>) -> Result<bool> {
    match stat {
        Attempt::Done(meta) => Ok(meta.kind == FileKind::Symlink),
        Attempt::Missing(_) => Ok(false),
        Attempt::Failed(e) => Err(Error::Io(e)),
    }
}

/// The verdict of [`ensure_not_symlink`].
pub open spec fn not_symlink_verdict(stat: Attempt<FileMeta>) -> Result<()> {
    match symlink_verdict(stat) {
        Ok(true) => Err(Error::UnexpectedSymlink),
        Ok(false) => Ok(()),
        Err(e) => Err(e),
    }
}

/// The verdict of [`validate_owner`].
pub open spec fn owner_verdict(stat: Attempt<FileMeta>, expected_uid: u32) -> Result<()> {
    match required(stat) {
        Ok(meta) => if meta.uid == expected_uid {
            Ok(())
        } else {
            Err(Error::InsecureOwnership)
        },
        Err(e) => Err(e),
    }
}

/// The verdict of [`ensure_not_group_or_world_writable`].
pub open spec fn writable_verdict(stat: Attempt<FileMeta>) -> Result<()> {
    match required(stat) {
        Ok(meta) => if group_or_other_writable(meta.mode) {
            Err(Error::InsecurePermissions)
        } else {
            Ok(())
        },
        Err(e) => Err(e),
    }
}

/// The verdict of [`validate_mode_at_most`].
pub open spec fn mode_verdict(stat: Attempt<FileMeta>, allowed: u32) -> Result<()> {
    match required(stat) {
        Ok(meta) => if mode_at_most(meta.mode, allowed) {
            Ok(())
        } else {
            Err(Error::InsecurePermissions)
        },
        Err(e) => Err(e),
    }
}

/// The verdict of [`validate_trusted_file`]: the first failing check's.
pub open spec fn trusted_file_verdict(stat: Attempt<FileMeta>, allowed: u32) -> Result<()> {
    match not_symlink_verdict(stat) {
        Err(e) => Err(e),
        Ok(()) => match owner_verdict(stat, ROOT_UID) {
            Err(e) => Err(e),
            Ok(()) => mode_verdict(stat, allowed),
        },
    }
}

/// The verdict on the owner of what the helper manages: the expected user or
/// root, who can change it anyway.
pub open spec fn managed_owner_verdict(stat: Attempt<FileMeta>, expected_uid: u32) -> Result<()> {
    match required(stat) {
        Ok(meta) => if meta.uid == expected_uid || meta.uid == ROOT_UID {
            Ok(())
        } else {
            Err(Error::InsecureOwnership)
        },
        Err(e) => Err(e),
    }
}

/// The verdict on a directory that the helper manages: no symlink, and owned by
/// the expected user or root.
pub open spec fn managed_dir_verdict(stat: Attempt<FileMeta>, expected_uid: u32) -> Result<()> {
    match not_symlink_verdict(stat) {
        Err(e) => Err(e),
        Ok(()) => managed_owner_verdict(stat, expected_uid),
    }
}

/// The verdict on a file that the helper manages: no symlink, not writable by
/// group or other, and owned by the expected user or root.
pub open spec fn managed_file_verdict(stat: Attempt<FileMeta>, expected_uid: u32) -> Result<()> {
    match not_symlink_verdict(stat) {
        Err(e) => Err(e),
        Ok(()) => match writable_verdict(stat) {
            Err(e) => Err(e),
            Ok(()) => managed_owner_verdict(stat, expected_uid),
        },
    }
}

/// The value of an attempt that must succeed.
///
/// # Errors
///
/// Returns [`Error::Io`] if it failed for any reason.
pub fn require<T>(attempt: Attempt<T>) -> (r: Result<T>)
    ensures
        r == required(attempt),
{
    match attempt {
        Attempt::Done(v) => Ok(v),
        Attempt::Missing(e) => Err(Error::Io(e)),
        Attempt::Failed(e) => Err(Error::Io(e)),
    }
}

/// Return whether a path is a symbolic link, given its `lstat`.
///
/// A non-existent path is reported as `false`.
///
/// # Errors
///
/// Returns [`Error::Io`] for filesystem errors other than "not found".
pub fn is_symlink(stat: Attempt<FileMeta>) -> (r: Result<bool>)
    ensures
        r == symlink_verdict(stat),
{
    match stat {
        Attempt::Done(meta) => Ok(meta.kind == FileKind::Symlink),
        Attempt::Missing(_) => Ok(false),
        Attempt::Failed(e) => Err(Error::Io(e)),
    }
}

/// Reject a path if it is a symbolic link, given its `lstat`.
///
/// # Errors
///
/// Returns [`Error::UnexpectedSymlink`] if it is a symlink, or [`Error::Io`] for
/// filesystem errors other than "not found".
pub fn ensure_not_symlink(stat: Attempt<FileMeta>) -> (r: Result<()>)
    ensures
        r == not_symlink_verdict(stat),
{
    match is_symlink(stat) {
        Ok(true) => Err(Error::UnexpectedSymlink),
        Ok(false) => Ok(()),
        Err(e) => Err(e),
    }
}

/// Validate that a path is owned by `expected_uid`, given its `lstat`.
///
/// # Errors
///
/// Returns [`Error::InsecureOwnership`] if the owner differs, or [`Error::Io`]
/// if metadata cannot be read.
pub fn validate_owner(stat: Attempt<FileMeta>, expected_uid: u32) -> (r: Result<()>)
    ensures
        r == owner_verdict(stat, expected_uid),
{
    match require(stat) {
        Ok(meta) => if meta.uid != expected_uid {
            Err(Error::InsecureOwnership)
        } else {
            Ok(())
        },
        Err(e) => Err(e),
    }
}

/// Validate that a path is owned by root (uid 0), given its `lstat`.
///
/// # Errors
///
/// See [`validate_owner`].
pub fn ensure_owned_by_root(stat: Attempt<FileMeta>) -> (r: Result<()>)
    ensures
        r == owner_verdict(stat, ROOT_UID),
{
    validate_owner(stat, ROOT_UID)
}

/// Validate that a path is not writable by group or other, given its `lstat`.
///
/// # Errors
///
/// Returns [`Error::InsecurePermissions`] if any group/other write bit is set,
/// or [`Error::Io`] if metadata cannot be read.
pub fn ensure_not_group_or_world_writable(stat: Attempt<FileMeta>) -> (r: Result<()>)
    ensures
        r == writable_verdict(stat),
{
    match require(stat) {
        Ok(meta) => {
            let mode: u32 = meta.mode;
            assert(mode & 0o777 & 0o022 == mode & 0o022) by (bit_vector);
            if mode & 0o777 & GROUP_OR_OTHER_WRITABLE != 0 {
                Err(Error::InsecurePermissions)
            } else {
                Ok(())
            }
        },
        Err(e) => Err(e),
    }
}

/// Validate that a path's permission bits do not exceed `allowed_mode`, given
/// its `lstat`.
///
/// Any permission bit set on the file but absent from `allowed_mode` is treated
/// as insecure. For example, an allowed mode of `0o644` rejects a file that is
/// group- or world-writable, or executable.
///
/// # Errors
///
/// Returns [`Error::InsecurePermissions`] if extra bits are present, or
/// [`Error::Io`] if metadata cannot be read.
pub fn validate_mode_at_most(stat: Attempt<FileMeta>, allowed_mode: u32) -> (r: Result<()>)
    ensures
        r == mode_verdict(stat, allowed_mode),
{
    match require(stat) {
        Ok(meta) => {
            let mode: u32 = meta.mode;
            assert(mode & 0o777 & !(allowed_mode & 0o777) == mode & 0o777 & !allowed_mode)
                by (bit_vector);
            if mode & 0o777 & !(allowed_mode & 0o777) != 0 {
                Err(Error::InsecurePermissions)
            } else {
                Ok(())
            }
        },
        Err(e) => Err(e),
    }
}

/// Composite validation for a root-managed file that the helper intends to
/// trust, given its `lstat`: it must not be a symlink, must be owned by root, and
/// must not exceed `allowed_mode` permission bits.
///
/// # Errors
///
/// Returns the first failing check's error (see the individual helpers).
pub fn validate_trusted_file(stat: Attempt<FileMeta>, allowed_mode: u32) -> (r: Result<()>)
    ensures
        r == trusted_file_verdict(stat, allowed_mode),
{
    match stat {
        Attempt::Done(meta) => {
            match ensure_not_symlink(Attempt::Done(meta)) {
                Err(e) => {
                    return Err(e);
                },
                Ok(()) => {},
            }
            match ensure_owned_by_root(Attempt::Done(meta)) {
                Err(e) => {
                    return Err(e);
                },
                Ok(()) => {},
            }
            validate_mode_at_most(Attempt::Done(meta), allowed_mode)
        },
        other => validate_owner(other, ROOT_UID),
    }
}

/// Validate that what the helper manages is owned by `expected_uid` or by root,
/// given its `lstat`.
fn validate_managed_owner(stat: Attempt<FileMeta>, expected_uid: u32) -> (r: Result<()>)
    ensures
        r == managed_owner_verdict(stat, expected_uid),
{
    match require(stat) {
        Ok(meta) => if meta.uid != expected_uid && meta.uid != ROOT_UID {
            Err(Error::InsecureOwnership)
        } else {
            Ok(())
        },
        Err(e) => Err(e),
    }
}

/// Validation for a directory that the helper manages, given its `lstat`.
///
/// # Errors
///
/// Returns [`Error::UnexpectedSymlink`], [`Error::InsecureOwnership`] or
/// [`Error::Io`], whichever check fails first.
pub fn validate_managed_dir(stat: Attempt<FileMeta>, expected_uid: u32) -> (r: Result<()>)
    ensures
        r == managed_dir_verdict(stat, expected_uid),
{
    match stat {
        Attempt::Done(meta) => {
            match ensure_not_symlink(Attempt::Done(meta)) {
                Err(e) => Err(e),
                Ok(()) => validate_managed_owner(Attempt::Done(meta), expected_uid),
            }
        },
        other => validate_managed_owner(other, expected_uid),
    }
}

/// Validation for a file that the helper manages, given its `lstat`.
///
/// # Errors
///
/// Returns [`Error::UnexpectedSymlink`], [`Error::InsecurePermissions`],
/// [`Error::InsecureOwnership`] or [`Error::Io`], whichever check fails first.
pub fn validate_managed_file(stat: Attempt<FileMeta>, expected_uid: u32) -> (r: Result<()>)
    ensures
        r == managed_file_verdict(stat, expected_uid),
{
    match stat {
        Attempt::Done(meta) => {
            match ensure_not_symlink(Attempt::Done(meta)) {
                Err(e) => {
                    return Err(e);
                },
                Ok(()) => {},
            }
            match ensure_not_group_or_world_writable(Attempt::Done(meta)) {
                Err(e) => {
                    return Err(e);
                },
                Ok(()) => {},
            }
            validate_managed_owner(Attempt::Done(meta), expected_uid)
        },
        other => validate_managed_owner(other, expected_uid),
    }
}

/// A file whose permissions stay within a mask that grants no group or other
/// write access is not writable by group or other.
pub proof fn safe_mask_excludes_foreign_writers(mode: u32, allowed: u32)
    requires
        !group_or_other_writable(allowed),
        mode_at_most(mode, allowed),
    ensures
        !group_or_other_writable(mode),
{
    assert(mode & 0o022 == 0) by (bit_vector)
        requires
            allowed & 0o022 == 0,
            mode & 0o777 & !allowed == 0,
    ;
}

/// A larger mask accepts whatever a smaller one accepts.
pub proof fn larger_mask_accepts_more(mode: u32, small: u32, large: u32)
    requires
        small & 0o777 & !large == 0,
        mode_at_most(mode, small),
    ensures
        mode_at_most(mode, large),
{
    assert(mode & 0o777 & !large == 0) by (bit_vector)
        requires
            small & 0o777 & !large == 0,
            mode & 0o777 & !small == 0,
    ;
}

// ---------------------------------------------------------------------------
// Parents
// ---------------------------------------------------------------------------

/// What `std::path::Path::parent` returns for a path, as text.
pub uninterp spec fn path_parent(path: Seq<char>) -> Option<Seq<char>>;

/// The path without its final component, if there is one.
///
/// Calls `std::path::Path::parent`. The claims are that its answer is a function
/// of the path, and that of a path without a separator, which is one component
/// at most, nothing remains. What the parent of any other path is, is not stated.
#[verifier::external_body]
pub(crate) fn parent(path: &str) -> (r: Option<String>)
    ensures
        protocol::chars_of(r) == path_parent(path@),
        !path@.contains('/') ==> (r matches Some(p) ==> p@.len() == 0),
{
    std::path::Path::new(path).parent().map(|p| p.to_string_lossy().into_owned())
}

/// The verdict of [`usable_parent`].
pub open spec fn parent_verdict(parent: Option<Seq<char>>) -> std::result::Result<Seq<char>, Error> {
    match parent {
        Some(p) => if p.len() > 0 {
            Ok(p)
        } else {
            Err(Error::InvalidPath)
        },
        None => Err(Error::InvalidPath),
    }
}

/// A parent directory, if there is one with a name.
///
/// # Errors
///
/// Returns [`Error::InvalidPath`] if there is none, or its name is empty.
pub fn usable_parent(parent: Option<String>) -> (r: Result<String>)
    ensures
        match parent_verdict(protocol::chars_of(parent)) {
            Ok(p) => r matches Ok(s) && s@ == p,
            Err(e) => r == Err::<String, Error>(e),
        },
{
    match parent {
        Some(p) => if p.as_str().is_empty() {
            Err(Error::InvalidPath)
        } else {
            Ok(p)
        },
        None => Err(Error::InvalidPath),
    }
}

/// Return the parent directory of `path`, or [`Error::InvalidPath`], as for a
/// bare file name.
pub fn parent_of(path: &str) -> (r: Result<String>)
    ensures
        !path@.contains('/') ==> r == Err::<String, Error>(Error::InvalidPath),
        match parent_verdict(path_parent(path@)) {
            Ok(p) => r matches Ok(s) && s@ == p,
            Err(e) => r == Err::<String, Error>(e),
        },
{
    usable_parent(parent(path))
}

// ---------------------------------------------------------------------------
// Atomic replacement
// ---------------------------------------------------------------------------

/// One system call of an atomic write.
#[derive(Debug, Clone, Copy, PartialEq, Eq, Structural)]
pub enum WriteStep {
    /// Create a uniquely-named temporary file in [`SecureWrite::dir`].
    CreateTemp,
    /// Give the temporary file the permission bits [`SecureWrite::mode`].
    SetMode,
    /// Write [`SecureWrite::contents`] to the temporary file.
    WriteContents,
    /// `fsync` the temporary file.
    SyncFile,
    /// Disarm the automatic deletion of the temporary file.
    KeepTemp,
    /// Rename [`SecureWrite::source`] over [`SecureWrite::target`].
    Rename,
    /// `fsync` [`SecureWrite::dir`], so that the rename survives a crash.
    SyncDir,
}

impl WriteStep {
    /// The step after this one.
    pub open spec fn following(self) -> Option<WriteStep> {
        match self {
            WriteStep::CreateTemp => Some(WriteStep::SetMode),
            WriteStep::SetMode => Some(WriteStep::WriteContents),
            WriteStep::WriteContents => Some(WriteStep::SyncFile),
            WriteStep::SyncFile => Some(WriteStep::KeepTemp),
            WriteStep::KeepTemp => Some(WriteStep::Rename),
            WriteStep::Rename => Some(WriteStep::SyncDir),
            WriteStep::SyncDir => None,
        }
    }

    /// The number of steps up to the end, this one included.
    pub open spec fn remaining(self) -> nat {
        match self {
            WriteStep::CreateTemp => 7,
            WriteStep::SetMode => 6,
            WriteStep::WriteContents => 5,
            WriteStep::SyncFile => 4,
            WriteStep::KeepTemp => 3,
            WriteStep::Rename => 2,
            WriteStep::SyncDir => 1,
        }
    }
}

/// How far an atomic write has come.
#[derive(Debug)]
pub enum WriteStage {
    /// The next system call to make.
    At(WriteStep),
    /// Nothing is left to do.
    Finished(Result<()>),
}

/// An atomic write under way. The caller performs the step at hand and reports
/// what came of it to [`SecureWrite::step`], until the write has finished.
#[derive(Debug)]
pub struct SecureWrite {
    /// The path that is renamed over.
    pub target: String,
    /// The file that is renamed over the target; the temporary file if `None`.
    pub source: Option<String>,
    /// The directory of the target, in which the temporary file is created.
    pub dir: String,
    /// What the target is to hold.
    pub contents: Vec<u8>,
    /// The permission bits that the target is to have.
    pub mode: u32,
    /// How far the write has come.
    pub stage: WriteStage,
}

impl SecureWrite {
    /// The stage after the step at hand was attempted: the next step if it
    /// succeeded, the end with [`Error::Io`] if it failed.
    pub open spec fn stage_after(
        self,
        attempt: std::result::Result<(), std::io::Error>,
    ) -> WriteStage {
        match (self.stage, attempt) {
            (WriteStage::At(step), Ok(())) => match step.following() {
                Some(following) => WriteStage::At(following),
                None => WriteStage::Finished(Ok(())),
            },
            (WriteStage::At(_), Err(e)) => WriteStage::Finished(Err(Error::Io(e))),
            (WriteStage::Finished(result), _) => WriteStage::Finished(result),
        }
    }

    /// The write after the step at hand was attempted.
    pub open spec fn after(self, attempt: std::result::Result<(), std::io::Error>) -> SecureWrite {
        SecureWrite { stage: self.stage_after(attempt), ..self }
    }

    /// Take note of what came of the step at hand.
    pub fn step(self, attempt: std::result::Result<(), std::io::Error>) -> (r: SecureWrite)
        ensures
            r == self.after(attempt),
    {
        let stage = match self.stage {
            WriteStage::At(step) => match attempt {
                Ok(()) => match step {
                    WriteStep::CreateTemp => WriteStage::At(WriteStep::SetMode),
                    WriteStep::SetMode => WriteStage::At(WriteStep::WriteContents),
                    WriteStep::WriteContents => WriteStage::At(WriteStep::SyncFile),
                    WriteStep::SyncFile => WriteStage::At(WriteStep::KeepTemp),
                    WriteStep::KeepTemp => WriteStage::At(WriteStep::Rename),
                    WriteStep::Rename => WriteStage::At(WriteStep::SyncDir),
                    WriteStep::SyncDir => WriteStage::Finished(Ok(())),
                },
                Err(e) => WriteStage::Finished(Err(Error::Io(e))),
            },
            WriteStage::Finished(result) => WriteStage::Finished(result),
        };
        SecureWrite {
            target: self.target,
            source: self.source,
            dir: self.dir,
            contents: self.contents,
            mode: self.mode,
            stage,
        }
    }
}

/// Whether `write` is an atomic write to `target`, in the directory `parent`,
/// about to take its step `first`, or one that has failed because there is no
/// such directory.
pub open spec fn write_begins(
    write: SecureWrite,
    target: Seq<char>,
    source: Option<Seq<char>>,
    parent: Option<Seq<char>>,
    contents: Seq<u8>,
    mode: u32,
    first: WriteStep,
) -> bool {
    &&& write.target@ == target
    &&& protocol::chars_of(write.source) == source
    &&& write.contents@ == contents
    &&& write.mode == mode
    &&& match parent_verdict(parent) {
        Ok(dir) => write.dir@ == dir && write.stage == WriteStage::At(first),
        Err(e) => write.stage == WriteStage::Finished(Err(e)),
    }
}

/// Begin to atomically write `contents` to `path` with permission bits `mode`.
///
/// The data is written to a uniquely-named temporary file in the *same*
/// directory as `path` (so the final rename is atomic on POSIX filesystems),
/// the permission bits are applied to that temporary file *before* it is moved
/// into place (so contents are never briefly exposed under laxer permissions),
/// the file is `fsync`ed, and finally it is atomically renamed over `path` with
/// a directory `fsync` to make the rename durable. See
/// [`target_is_never_partial`].
///
/// # Errors
///
/// Finishes with [`Error::InvalidPath`] at once if `path` has no parent
/// directory, or with [`Error::Io`] when a filesystem step fails.
pub fn secure_write(path: &str, contents: &[u8], mode: u32) -> (r: SecureWrite)
    ensures
        !path@.contains('/') ==> r.stage == WriteStage::Finished(Err(Error::InvalidPath)),
        write_begins(
            r,
            path@,
            None,
            path_parent(path@),
            contents@,
            mode,
            WriteStep::CreateTemp,
        ),
{
    begin_write(path, None, parent(path), contents, mode, WriteStep::CreateTemp)
}

/// Begin to atomically replace `dst` with `src` via `rename`, then `fsync` the
/// destination directory so the rename survives a crash. See
/// [`replacement_is_all_or_nothing`].
///
/// `src` and `dst` must reside on the same filesystem (the common case, since
/// `src` is normally a temporary file created in `dst`'s directory).
///
/// # Errors
///
/// Finishes with [`Error::InvalidPath`] at once if `dst` has no parent
/// directory, or with [`Error::Io`] when the rename or directory `fsync` fails.
pub fn atomic_replace(src: &str, dst: &str) -> (r: SecureWrite)
    ensures
        !dst@.contains('/') ==> r.stage == WriteStage::Finished(Err(Error::InvalidPath)),
        write_begins(
            r,
            dst@,
            Some(src@),
            path_parent(dst@),
            Seq::empty(),
            0,
            WriteStep::Rename,
        ),
{
    let r = begin_write(dst, Some(src.to_owned()), parent(dst), &[], 0, WriteStep::Rename);
    assert(r.contents@ == Seq::<u8>::empty());
    r
}

/// Begin an atomic write to `target`, in the given parent directory, with its
/// step `first`.
pub fn begin_write(
    target: &str,
    source: Option<String>,
    parent: Option<String>,
    contents: &[u8],
    mode: u32,
    first: WriteStep,
) -> (r: SecureWrite)
    ensures
        write_begins(
            r,
            target@,
            protocol::chars_of(source),
            protocol::chars_of(parent),
            contents@,
            mode,
            first,
        ),
{
    let target = target.to_owned();
    let contents = slice_to_vec(contents);
    match usable_parent(parent) {
        Ok(dir) => {
            SecureWrite { target, source, dir, contents, mode, stage: WriteStage::At(first) }
        },
        Err(e) => {
            SecureWrite {
                target,
                source,
                dir: "".to_owned(),
                contents,
                mode,
                stage: WriteStage::Finished(Err(e)),
            }
        },
    }
}

/// A file on disk, as far as an atomic write is concerned.
pub ghost struct FileState {
    /// What it holds.
    pub contents: Seq<u8>,
    /// Its permission bits.
    pub mode: u32,
    /// Whether it has been `fsync`ed.
    pub synced: bool,
}

/// The target of an atomic write and the file that is to be renamed over it.
pub ghost struct TargetDir {
    /// The temporary file, or other source of the rename, if there is one.
    pub temp: Option<FileState>,
    /// The target, if it exists.
    pub target: Option<FileState>,
}

/// What the step at hand can have done on disk, given what came of it. A failed
/// write to the temporary file may have left anything in it.
pub open spec fn write_effect(
    write: SecureWrite,
    attempt: std::result::Result<(), std::io::Error>,
    before: TargetDir,
    after: TargetDir,
) -> bool {
    match (write.stage, attempt) {
        (WriteStage::At(WriteStep::CreateTemp), Ok(())) => {
            &&& after.temp matches Some(f) && f.contents == Seq::<u8>::empty()
            &&& after.target == before.target
        },
        (WriteStage::At(WriteStep::SetMode), Ok(())) => {
            &&& after.temp == match before.temp {
                Some(f) => Some(FileState { mode: write.mode, ..f }),
                None => None,
            }
            &&& after.target == before.target
        },
        (WriteStage::At(WriteStep::WriteContents), Ok(())) => {
            &&& after.temp == match before.temp {
                Some(f) => Some(
                    FileState { contents: f.contents + write.contents@, synced: false, ..f },
                ),
                None => None,
            }
            &&& after.target == before.target
        },
        (WriteStage::At(WriteStep::SyncFile), Ok(())) => {
            &&& after.temp == match before.temp {
                Some(f) => Some(FileState { synced: true, ..f }),
                None => None,
            }
            &&& after.target == before.target
        },
        (WriteStage::At(WriteStep::Rename), Ok(())) => {
            &&& after.temp is None
            &&& after.target == before.temp
        },
        (WriteStage::At(WriteStep::KeepTemp), Ok(())) => after == before,
        (WriteStage::At(WriteStep::SyncDir), Ok(())) => after == before,
        (WriteStage::At(_), Err(_)) => after.target == before.target,
        (WriteStage::Finished(_), _) => after == before,
    }
}

/// One attempted step and the directory after it.
pub ghost struct WriteExchange {
    /// What came of the step.
    pub attempt: std::result::Result<(), std::io::Error>,
    /// The directory after it.
    pub after: TargetDir,
}

/// Whether `log` is something that can happen to `write` in the directory
/// `before`.
pub open spec fn write_can_go(write: SecureWrite, before: TargetDir, log: Seq<WriteExchange>) -> bool
    decreases log.len(),
{
    log.len() > 0 ==> {
        &&& write_effect(write, log[0].attempt, before, log[0].after)
        &&& write_can_go(write.after(log[0].attempt), log[0].after, log.skip(1))
    }
}

/// The write at the end of `log`.
pub open spec fn write_after(write: SecureWrite, log: Seq<WriteExchange>) -> SecureWrite
    decreases log.len(),
{
    if log.len() == 0 {
        write
    } else {
        write_after(write.after(log[0].attempt), log.skip(1))
    }
}

/// The directory at the end of `log`.
pub open spec fn dir_after(before: TargetDir, log: Seq<WriteExchange>) -> TargetDir {
    if log.len() == 0 {
        before
    } else {
        log.last().after
    }
}

/// The file that an atomic write installs: all of the contents, under the given
/// permission bits, flushed to disk.
pub open spec fn installed(write: SecureWrite) -> FileState {
    FileState { contents: write.contents@, mode: write.mode, synced: true }
}

/// At every moment of an atomic write, whichever of its steps fails, the target
/// is either as it was or holds all of the new contents, already under its final
/// permission bits and flushed to disk. The write succeeds only with the latter.
/// This holds of every write that [`secure_write`] begins, also of one that it
/// refuses.
pub proof fn target_is_never_partial(
    write: SecureWrite,
    before: TargetDir,
    log: Seq<WriteExchange>,
)
    requires
        write.stage == WriteStage::At(WriteStep::CreateTemp) || write.stage
            matches WriteStage::Finished(Err(_)),
        write_can_go(write, before, log),
    ensures
        ({
            let target = dir_after(before, log).target;
            target == before.target || target == Some(installed(write))
        }),
        write_after(write, log).stage matches WriteStage::Finished(Ok(_)) ==> dir_after(
            before,
            log,
        ).target == Some(installed(write)),
{
    lemma_write_progress(write, before.target, before, log);
}

/// At every moment of an atomic replacement, whichever of its steps fails, the
/// target is either as it was or all of what the source was. The replacement
/// succeeds only with the latter. This holds of every one that [`atomic_replace`]
/// begins, also of one that it refuses.
pub proof fn replacement_is_all_or_nothing(
    write: SecureWrite,
    before: TargetDir,
    log: Seq<WriteExchange>,
)
    requires
        write.stage == WriteStage::At(WriteStep::Rename) || write.stage
            matches WriteStage::Finished(Err(_)),
        write_can_go(write, before, log),
    ensures
        ({
            let target = dir_after(before, log).target;
            target == before.target || target == before.temp
        }),
        write_after(write, log).stage matches WriteStage::Finished(Ok(_)) ==> dir_after(
            before,
            log,
        ).target == before.temp,
{
    lemma_replacement(write, before, before, log);
}

/// What holds of the directory at each stage of a replacement that found
/// `initial`.
spec fn replace_inv(write: SecureWrite, initial: TargetDir, dir: TargetDir) -> bool {
    match write.stage {
        WriteStage::At(WriteStep::Rename) => dir == initial,
        WriteStage::At(WriteStep::SyncDir) => dir.target == initial.temp,
        WriteStage::At(_) => false,
        WriteStage::Finished(Ok(())) => dir.target == initial.temp,
        WriteStage::Finished(Err(_)) => dir.target == initial.target || dir.target == initial.temp,
    }
}

proof fn lemma_replacement(
    write: SecureWrite,
    initial: TargetDir,
    dir: TargetDir,
    log: Seq<WriteExchange>,
)
    requires
        replace_inv(write, initial, dir),
        write_can_go(write, dir, log),
    ensures
        replace_inv(write_after(write, log), initial, dir_after(dir, log)),
    decreases log.len(),
{
    if log.len() > 0 {
        let next = write.after(log[0].attempt);
        let rest = log.skip(1);
        assert(replace_inv(next, initial, log[0].after));
        lemma_replacement(next, initial, log[0].after, rest);
        if rest.len() > 0 {
            assert(rest.last() == log.last());
        } else {
            assert(log.last() == log[0]);
        }
    }
}

/// What holds of the directory at each stage of a write.
spec fn write_inv(write: SecureWrite, initial: Option<FileState>, dir: TargetDir) -> bool {
    match write.stage {
        WriteStage::At(WriteStep::CreateTemp) => dir.target == initial,
        WriteStage::At(WriteStep::SetMode) => {
            &&& dir.target == initial
            &&& dir.temp matches Some(f) && f.contents == Seq::<u8>::empty()
        },
        WriteStage::At(WriteStep::WriteContents) => {
            &&& dir.target == initial
            &&& dir.temp matches Some(f) && f.contents == Seq::<u8>::empty() && f.mode
                == write.mode
        },
        WriteStage::At(WriteStep::SyncFile) => {
            &&& dir.target == initial
            &&& dir.temp matches Some(f) && f.contents == write.contents@ && f.mode == write.mode
        },
        WriteStage::At(WriteStep::KeepTemp) => {
            dir.target == initial && dir.temp == Some(installed(write))
        },
        WriteStage::At(WriteStep::Rename) => {
            dir.target == initial && dir.temp == Some(installed(write))
        },
        WriteStage::At(WriteStep::SyncDir) => dir.target == Some(installed(write)),
        WriteStage::Finished(Ok(())) => dir.target == Some(installed(write)),
        WriteStage::Finished(Err(_)) => {
            dir.target == initial || dir.target == Some(installed(write))
        },
    }
}

proof fn lemma_write_progress(
    write: SecureWrite,
    initial: Option<FileState>,
    dir: TargetDir,
    log: Seq<WriteExchange>,
)
    requires
        write_inv(write, initial, dir),
        write_can_go(write, dir, log),
    ensures
        write_inv(write_after(write, log), initial, dir_after(dir, log)),
        write_after(write, log).contents == write.contents,
        write_after(write, log).mode == write.mode,
    decreases log.len(),
{
    if log.len() > 0 {
        let next = write.after(log[0].attempt);
        let rest = log.skip(1);
        assert(Seq::<u8>::empty() + write.contents@ == write.contents@);
        assert(write_inv(next, initial, log[0].after));
        lemma_write_progress(next, initial, log[0].after, rest);
        if rest.len() > 0 {
            assert(rest.last() == log.last());
        } else {
            assert(log.last() == log[0]);
        }
    }
}

/// Every step that succeeds brings a write closer to its end, so that a write
/// takes at most seven.
pub proof fn write_steps_are_bounded(write: SecureWrite, step: WriteStep)
    requires
        write.stage == WriteStage::At(step),
    ensures
        step.remaining() <= 7,
        write.after(Ok(())).stage matches WriteStage::At(following) ==> following.remaining()
            < step.remaining(),
{
}

// ---------------------------------------------------------------------------
// What the verdicts mean
// ---------------------------------------------------------------------------

/// Whether permission bit `k` of a mode is set, counted from the least
/// significant.
pub open spec fn permission_bit(mode: u32, k: u32) -> bool {
    (mode >> k) & 1 == 1
}

/// The error of an attempt that did not succeed, whatever it was.
pub open spec fn io_error<T>(attempt: Attempt<T>) -> Error {
    match attempt {
        Attempt::Missing(e) => Error::Io(e),
        Attempt::Failed(e) => Error::Io(e),
        Attempt::Done(_) => Error::InvalidPath,
    }
}

/// A symlink is rejected as such, a missing path and any other file are not, and
/// an `lstat` that failed for another reason is an I/O error.
pub proof fn only_symlinks_are_rejected_as_such(
    stat: Attempt<FileMeta>,
    link: Result<bool>,
    accepted: Result<()>,
)
    requires
        call_ensures(is_symlink, (stat,), link),
        call_ensures(ensure_not_symlink, (stat,), accepted),
    ensures
        accepted is Ok <==> stat is Missing || (stat matches Attempt::Done(meta) && !(meta.kind
            is Symlink)),
        stat matches Attempt::Done(meta) && meta.kind is Symlink ==> accepted == Err::<(), Error>(
            Error::UnexpectedSymlink,
        ),
        stat matches Attempt::Failed(e) ==> accepted == Err::<(), Error>(Error::Io(e)) && link
            == Err::<bool, Error>(Error::Io(e)),
        accepted is Ok <==> link == Ok::<bool, Error>(false),
        accepted == Err::<(), Error>(Error::UnexpectedSymlink) <==> link == Ok::<bool, Error>(true),
{
}

/// An owner is accepted if it is the expected one and no other; what cannot be
/// examined is an I/O error.
pub proof fn only_the_expected_owner_is_accepted(
    stat: Attempt<FileMeta>,
    uid: u32,
    r: Result<()>,
    root_r: Result<()>,
)
    requires
        call_ensures(validate_owner, (stat, uid), r),
        call_ensures(ensure_owned_by_root, (stat,), root_r),
    ensures
        r is Ok <==> (stat matches Attempt::Done(meta) && meta.uid == uid),
        root_r is Ok <==> (stat matches Attempt::Done(meta) && meta.uid == 0),
        stat matches Attempt::Done(meta) ==> (meta.uid != uid ==> r == Err::<(), Error>(
            Error::InsecureOwnership,
        )) && (meta.uid != 0 ==> root_r == Err::<(), Error>(Error::InsecureOwnership)),
        !(stat is Done) ==> r == Err::<(), Error>(io_error(stat)) && root_r == Err::<(), Error>(
            io_error(stat),
        ),
{
}

/// A file is rejected for foreign writers if and only if the write bit of its
/// group, or that of others, is set.
pub proof fn foreign_writers_are_rejected(stat: Attempt<FileMeta>, r: Result<()>)
    requires
        call_ensures(ensure_not_group_or_world_writable, (stat,), r),
    ensures
        stat matches Attempt::Done(meta) ==> if permission_bit(meta.mode, 4) || permission_bit(
            meta.mode,
            1,
        ) {
            r == Err::<(), Error>(Error::InsecurePermissions)
        } else {
            r is Ok
        },
        !(stat is Done) ==> r == Err::<(), Error>(io_error(stat)),
{
    if let Attempt::Done(meta) = stat {
        lemma_foreign_writers(meta.mode);
    }
}

/// Which bits of a mode let the group or others write.
pub(crate) proof fn lemma_foreign_writers(mode: u32)
    ensures
        group_or_other_writable(mode) <==> permission_bit(mode, 4) || permission_bit(mode, 1),
{
    assert(mode & 0o022 != 0 <==> (mode >> 4u32) & 1 == 1 || (mode >> 1u32) & 1 == 1)
        by (bit_vector);
}

/// A mode exceeds a mask if and only if one of its nine permission bits is set
/// that is not set in the mask.
pub proof fn every_excess_bit_is_rejected(stat: Attempt<FileMeta>, allowed: u32, r: Result<()>)
    requires
        call_ensures(validate_mode_at_most, (stat, allowed), r),
    ensures
        stat matches Attempt::Done(meta) ==> if forall|k: u32|
            k < 9 && #[trigger] permission_bit(meta.mode, k) ==> permission_bit(allowed, k) {
            r is Ok
        } else {
            r == Err::<(), Error>(Error::InsecurePermissions)
        },
        !(stat is Done) ==> r == Err::<(), Error>(io_error(stat)),
{
    if let Attempt::Done(meta) = stat {
        lemma_mode_at_most(meta.mode, allowed);
    }
}

proof fn lemma_mode_at_most(mode: u32, allowed: u32)
    ensures
        mode_at_most(mode, allowed) <==> forall|k: u32|
            k < 9 && #[trigger] permission_bit(mode, k) ==> permission_bit(allowed, k),
{
    if mode_at_most(mode, allowed) {
        assert forall|k: u32| k < 9 && #[trigger] permission_bit(mode, k) implies permission_bit(
            allowed,
            k,
        ) by {
            assert((allowed >> k) & 1 == 1) by (bit_vector)
                requires
                    k < 9,
                    mode & 0o777 & !allowed == 0,
                    (mode >> k) & 1 == 1,
            ;
        }
    }
    if forall|k: u32| k < 9 && #[trigger] permission_bit(mode, k) ==> permission_bit(allowed, k) {
        let m = mode;
        let a = allowed;
        assert(permission_bit(m, 0) ==> permission_bit(a, 0));
        assert(permission_bit(m, 1) ==> permission_bit(a, 1));
        assert(permission_bit(m, 2) ==> permission_bit(a, 2));
        assert(permission_bit(m, 3) ==> permission_bit(a, 3));
        assert(permission_bit(m, 4) ==> permission_bit(a, 4));
        assert(permission_bit(m, 5) ==> permission_bit(a, 5));
        assert(permission_bit(m, 6) ==> permission_bit(a, 6));
        assert(permission_bit(m, 7) ==> permission_bit(a, 7));
        assert(permission_bit(m, 8) ==> permission_bit(a, 8));
        assert(m & 0o777 & !a == 0) by (bit_vector)
            requires
                (m >> 0u32) & 1 == 1 ==> (a >> 0u32) & 1 == 1,
                (m >> 1u32) & 1 == 1 ==> (a >> 1u32) & 1 == 1,
                (m >> 2u32) & 1 == 1 ==> (a >> 2u32) & 1 == 1,
                (m >> 3u32) & 1 == 1 ==> (a >> 3u32) & 1 == 1,
                (m >> 4u32) & 1 == 1 ==> (a >> 4u32) & 1 == 1,
                (m >> 5u32) & 1 == 1 ==> (a >> 5u32) & 1 == 1,
                (m >> 6u32) & 1 == 1 ==> (a >> 6u32) & 1 == 1,
                (m >> 7u32) & 1 == 1 ==> (a >> 7u32) & 1 == 1,
                (m >> 8u32) & 1 == 1 ==> (a >> 8u32) & 1 == 1,
        ;
    }
}

/// A file is trusted if and only if it is no symlink, is root's, and has no
/// permission bit beyond the allowed ones. The checks come in this order, and the
/// first that fails gives the error.
pub proof fn trusted_files_pass_every_check(stat: Attempt<FileMeta>, allowed: u32, r: Result<()>)
    requires
        call_ensures(validate_trusted_file, (stat, allowed), r),
    ensures
        stat matches Attempt::Done(meta) ==> r == if meta.kind is Symlink {
            Err::<(), Error>(Error::UnexpectedSymlink)
        } else if meta.uid != 0 {
            Err::<(), Error>(Error::InsecureOwnership)
        } else if exists|k: u32|
            k < 9 && #[trigger] permission_bit(meta.mode, k) && !permission_bit(allowed, k) {
            Err::<(), Error>(Error::InsecurePermissions)
        } else {
            Ok::<(), Error>(())
        },
        !(stat is Done) ==> r == Err::<(), Error>(io_error(stat)),
{
    if let Attempt::Done(meta) = stat {
        lemma_mode_at_most(meta.mode, allowed);
    }
}

/// A managed directory is accepted if and only if it is no symlink and belongs to
/// the expected user or root; of a managed file, no write bit of group or others
/// may be set either. The first check that fails gives the error.
pub proof fn managed_paths_pass_every_check(
    stat: Attempt<FileMeta>,
    uid: u32,
    dir_r: Result<()>,
    file_r: Result<()>,
)
    requires
        call_ensures(validate_managed_dir, (stat, uid), dir_r),
        call_ensures(validate_managed_file, (stat, uid), file_r),
    ensures
        dir_r == managed_dir_verdict(stat, uid),
        file_r == managed_file_verdict(stat, uid),
        stat matches Attempt::Done(meta) ==> dir_r == if meta.kind is Symlink {
            Err::<(), Error>(Error::UnexpectedSymlink)
        } else if meta.uid != uid && meta.uid != 0 {
            Err::<(), Error>(Error::InsecureOwnership)
        } else {
            Ok::<(), Error>(())
        },
        stat matches Attempt::Done(meta) ==> file_r == if meta.kind is Symlink {
            Err::<(), Error>(Error::UnexpectedSymlink)
        } else if permission_bit(meta.mode, 4) || permission_bit(meta.mode, 1) {
            Err::<(), Error>(Error::InsecurePermissions)
        } else if meta.uid != uid && meta.uid != 0 {
            Err::<(), Error>(Error::InsecureOwnership)
        } else {
            Ok::<(), Error>(())
        },
        !(stat is Done) ==> dir_r == Err::<(), Error>(io_error(stat)) && file_r == Err::<
            (),
            Error,
        >(io_error(stat)),
{
    if let Attempt::Done(meta) = stat {
        lemma_foreign_writers(meta.mode);
    }
}

/// A parent directory is usable if and only if it has a name.
pub proof fn only_named_parents_are_usable(parent: Option<String>, r: Result<String>)
    requires
        call_ensures(usable_parent, (parent,), r),
    ensures
        match parent {
            Some(p) => if p@.len() > 0 {
                r matches Ok(dir) && dir@ == p@
            } else {
                r == Err::<String, Error>(Error::InvalidPath)
            },
            None => r == Err::<String, Error>(Error::InvalidPath),
        },
{
}

/// An atomic write that succeeds has taken every one of its steps, in order: the
/// temporary file is created, given its mode, written, flushed and kept, then
/// renamed over the target, and last the directory is flushed.
pub proof fn successful_write_takes_every_step(
    write: SecureWrite,
    before: TargetDir,
    log: Seq<WriteExchange>,
)
    requires
        write.stage == WriteStage::At(WriteStep::CreateTemp),
        write_can_go(write, before, log),
        write_after(write, log).stage matches WriteStage::Finished(Ok(_)),
    ensures
        log.len() >= 7,
        write_after(write, log.take(1)).stage == WriteStage::At(WriteStep::SetMode),
        write_after(write, log.take(2)).stage == WriteStage::At(WriteStep::WriteContents),
        write_after(write, log.take(3)).stage == WriteStage::At(WriteStep::SyncFile),
        write_after(write, log.take(4)).stage == WriteStage::At(WriteStep::KeepTemp),
        write_after(write, log.take(5)).stage == WriteStage::At(WriteStep::Rename),
        write_after(write, log.take(6)).stage == WriteStage::At(WriteStep::SyncDir),
        write_after(write, log.take(7)).stage matches WriteStage::Finished(Ok(_)),
        forall|i: int| 0 <= i < 7 ==> (#[trigger] log[i]).attempt is Ok,
{
    lemma_write_steps(write, before, log, 7);
    assert(log.take(1).len() == 1);
    assert forall|n: int| 1 <= n <= 7 implies #[trigger] write_after(write, log.take(n)).stage
        == nth_stage(n) by {
        lemma_write_prefix(write, log, n);
    }
}

/// The stage of a write after `n` steps that succeeded.
spec fn nth_stage(n: int) -> WriteStage {
    if n == 0 {
        WriteStage::At(WriteStep::CreateTemp)
    } else if n == 1 {
        WriteStage::At(WriteStep::SetMode)
    } else if n == 2 {
        WriteStage::At(WriteStep::WriteContents)
    } else if n == 3 {
        WriteStage::At(WriteStep::SyncFile)
    } else if n == 4 {
        WriteStage::At(WriteStep::KeepTemp)
    } else if n == 5 {
        WriteStage::At(WriteStep::Rename)
    } else if n == 6 {
        WriteStage::At(WriteStep::SyncDir)
    } else {
        WriteStage::Finished(Ok(()))
    }
}

/// A write that failed does not recover.
proof fn lemma_failed_write_stays_failed(write: SecureWrite, log: Seq<WriteExchange>)
    requires
        write.stage matches WriteStage::Finished(Err(_)),
    ensures
        write_after(write, log).stage matches WriteStage::Finished(Err(_)),
    decreases log.len(),
{
    if log.len() > 0 {
        lemma_failed_write_stays_failed(write.after(log[0].attempt), log.skip(1));
    }
}

/// With `left` steps to go, a write that succeeds takes them all.
proof fn lemma_write_steps(
    write: SecureWrite,
    before: TargetDir,
    log: Seq<WriteExchange>,
    left: int,
)
    requires
        0 <= left <= 7,
        write.stage == nth_stage(7 - left),
        write_can_go(write, before, log),
        write_after(write, log).stage matches WriteStage::Finished(Ok(_)),
    ensures
        log.len() >= left,
        forall|i: int| 0 <= i < left ==> (#[trigger] log[i]).attempt is Ok,
    decreases left,
{
    if left > 0 {
        assert(log.len() > 0);
        let next = write.after(log[0].attempt);
        let rest = log.skip(1);
        if log[0].attempt is Err {
            lemma_failed_write_stays_failed(next, rest);
        }
        lemma_write_steps(next, log[0].after, rest, left - 1);
        assert forall|i: int| 0 <= i < left implies (#[trigger] log[i]).attempt is Ok by {
            if i > 0 {
                assert(rest[i - 1] == log[i]);
            }
        }
    }
}

/// The stage of a write after the first `n` entries of a log that all succeeded.
proof fn lemma_write_prefix(write: SecureWrite, log: Seq<WriteExchange>, n: int)
    requires
        0 <= n <= 7,
        n <= log.len(),
        write.stage == WriteStage::At(WriteStep::CreateTemp),
        forall|i: int| 0 <= i < n ==> (#[trigger] log[i]).attempt is Ok,
    ensures
        write_after(write, log.take(n)).stage == nth_stage(n),
    decreases n,
{
    if n > 0 {
        lemma_write_prefix(write, log, n - 1);
        lemma_write_after_last(write, log.take(n));
        assert(log.take(n).drop_last() == log.take(n - 1));
        assert(log[n - 1].attempt is Ok);
    }
}

/// A log's last entry comes last.
proof fn lemma_write_after_last(write: SecureWrite, log: Seq<WriteExchange>)
    requires
        log.len() > 0,
    ensures
        write_after(write, log) == write_after(write, log.drop_last()).after(log.last().attempt),
    decreases log.len(),
{
    if log.len() == 1 {
        assert(log.skip(1) == Seq::<WriteExchange>::empty());
        assert(log.drop_last() == Seq::<WriteExchange>::empty());
        assert(write_after(write.after(log[0].attempt), log.skip(1)) == write.after(
            log[0].attempt,
        ));
    } else {
        let next = write.after(log[0].attempt);
        lemma_write_after_last(next, log.skip(1));
        assert(log.skip(1).drop_last() == log.drop_last().skip(1));
        assert(log.drop_last()[0] == log[0]);
        assert(log.skip(1).last() == log.last());
    }
}

/// The functions on writes do what the laws say of writes: a write begins with its
/// first step, on the path and with the contents and mode that it was given, and
/// goes on to the next step, or to its end with the error of the one that failed.
pub proof fn writes_follow_the_laws(
    path: &str,
    contents: &[u8],
    mode: u32,
    write: SecureWrite,
    some: SecureWrite,
    attempt: std::result::Result<(), std::io::Error>,
    next: SecureWrite,
)
    requires
        call_ensures(secure_write, (path, contents, mode), write),
        call_ensures(SecureWrite::step, (some, attempt), next),
    ensures
        write.target@ == path@,
        write.source is None,
        write.contents@ == contents@,
        write.mode == mode,
        match path_parent(path@) {
            Some(dir) => if dir.len() > 0 {
                write.stage == WriteStage::At(WriteStep::CreateTemp) && write.dir@ == dir
            } else {
                write.stage == WriteStage::Finished(Err(Error::InvalidPath))
            },
            None => write.stage == WriteStage::Finished(Err(Error::InvalidPath)),
        },
        next == some.after(attempt),
        next.target == some.target && next.source == some.source && next.dir == some.dir
            && next.contents == some.contents && next.mode == some.mode,
        some.stage is At ==> (attempt matches Err(e) ==> next.stage == WriteStage::Finished(
            Err(Error::Io(e)),
        )),
        some.stage is Finished ==> next.stage == some.stage,
        some.stage == WriteStage::At(WriteStep::SyncDir) ==> (attempt is Ok ==> (
        next.stage matches WriteStage::Finished(Ok(_)))),
        !(some.stage == WriteStage::At(WriteStep::SyncDir)) ==> (attempt is Ok ==> !(next.stage
            is Finished) || some.stage is Finished),
{
}

/// An attempt that has to succeed gives its value, or the operating system's error
/// if it did not, whatever that was; a path's directory is usable if and only if
/// it has a name.
pub proof fn required_attempts_must_succeed(
    attempt: Attempt<FileMeta>,
    value: Result<FileMeta>,
    path: &str,
    dir: Result<String>,
)
    requires
        call_ensures(require::<FileMeta>, (attempt,), value),
        call_ensures(parent_of, (path,), dir),
    ensures
        match attempt {
            Attempt::Done(v) => value == Ok::<FileMeta, Error>(v),
            _ => value == Err::<FileMeta, Error>(io_error(attempt)),
        },
        match path_parent(path@) {
            Some(parent) => if parent.len() > 0 {
                dir matches Ok(d) && d@ == parent
            } else {
                dir == Err::<String, Error>(Error::InvalidPath)
            },
            None => dir == Err::<String, Error>(Error::InvalidPath),
        },
{
}

/// A replacement begins with its rename, of the given source over the given
/// target.
pub proof fn replacements_follow_the_laws(src: &str, dst: &str, write: SecureWrite)
    requires
        call_ensures(atomic_replace, (src, dst), write),
    ensures
        write.target@ == dst@,
        write.source matches Some(s) && s@ == src@,
        match path_parent(dst@) {
            Some(dir) => if dir.len() > 0 {
                write.stage == WriteStage::At(WriteStep::Rename) && write.dir@ == dir
            } else {
                write.stage == WriteStage::Finished(Err(Error::InvalidPath))
            },
            None => write.stage == WriteStage::Finished(Err(Error::InvalidPath)),
        },
{
}

} // verus!
