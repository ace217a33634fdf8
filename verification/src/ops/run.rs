//! One privileged operation under way.
//!
//! An [`OpRun`] says which system call or `sshd` check comes next
//! ([`OpRun::action`]) and what follows from its answer ([`OpRun::step`]); the
//! caller performs the one and reports the other, until the run has finished
//! ([`OpRun::result`]). What the runs guarantee as a whole is stated in
//! [`crate::ops::laws`].

use vstd::prelude::*;

use crate::errors::{Error, Result};
use crate::protocol::{self, Outcome, Response};
use crate::security::{self, Attempt, FileMeta, MODE_PUBLIC};
use crate::ssh::sshd_config;
use crate::ssh::trusted_ca::{self, TrustedCaKeys};
use crate::sshd_control::SshdCheck;
use crate::text;

verus! {

/// Mode for the managed directories: owner-write, world-read.
pub const DIR_MODE: u32 = 0o755;

// ---------------------------------------------------------------------------
// Vocabulary
// ---------------------------------------------------------------------------

/// What a run is meant to achieve.
#[derive(Debug, Clone, Copy, PartialEq, Eq, Structural)]
pub enum Goal {
    /// The managed directories exist with safe ownership/permissions.
    EnsureDirectories,
    /// The sshd drop-in is current and `sshd` has loaded it.
    InstallSshdDropin,
    /// `TrustedUserCAKeys` has the new content and `sshd` has loaded it.
    ApplyTrustedCaKeys,
    /// The managed files and `sshd` are found healthy.
    VerifyState,
}

/// A directory that the helper manages.
#[derive(Debug, Clone, Copy, PartialEq, Eq, Structural)]
pub enum ManagedDir {
    /// The one that holds the `TrustedUserCAKeys` file.
    TrustedCa,
    /// The one that holds the sshd drop-in.
    Dropin,
}

/// A file that the helper reads or manages.
#[derive(Debug, Clone, Copy, PartialEq, Eq, Structural)]
pub enum ManagedFile {
    /// The managed `TrustedUserCAKeys` file.
    TrustedCa,
    /// The managed sshd drop-in.
    Dropin,
    /// The main sshd config, which is only ever read.
    MainConfig,
}

/// A system call or `sshd` check that a run asks for.
#[derive(Debug, Clone, Copy, PartialEq, Eq, Structural)]
pub enum Action {
    /// Tell whether the directory exists, following symlinks.
    DirExists(ManagedDir),
    /// Create the directory and its parents.
    CreateDirs(ManagedDir),
    /// `lstat` the directory.
    LstatDir(ManagedDir),
    /// Set the directory's permission bits.
    SetDirMode(ManagedDir, u32),
    /// `lstat` the file.
    Lstat(ManagedFile),
    /// Read the file.
    Read(ManagedFile),
    /// Atomically write [`OpRun::payload`] to the file, with the given permission
    /// bits (see [`security::secure_write`]).
    Write(ManagedFile, u32),
    /// Remove the file.
    Remove(ManagedFile),
    /// Ask something of `sshd`.
    Sshd(SshdCheck),
}

/// The answer to an [`Action`].
#[derive(Debug)]
pub enum Event {
    /// Answers [`Action::DirExists`].
    Exists(bool),
    /// Answers [`Action::CreateDirs`], [`Action::SetDirMode`] and
    /// [`Action::Remove`].
    Done(Attempt<()>),
    /// Answers [`Action::LstatDir`] and [`Action::Lstat`].
    Stat(Attempt<FileMeta>),
    /// Answers [`Action::Read`].
    Contents(Attempt<Vec<u8>>),
    /// Answers [`Action::Write`].
    Wrote(Result<()>),
    /// Answers [`Action::Sshd`].
    Checked(Result<()>),
}

/// How far a run has come.
#[derive(Debug)]
pub enum Stage {
    /// Does the directory exist?
    DirExists(ManagedDir),
    /// Create it.
    DirCreate(ManagedDir),
    /// Is it a directory to rely on?
    DirStat(ManagedDir),
    /// Set its permission bits.
    DirMode(ManagedDir),
    /// Does the main config `Include` the drop-in directory?
    ReadMainConfig,
    /// Is the drop-in current already?
    ReadDropin,
    /// Is the drop-in a symlink?
    StatDropin,
    /// Write the drop-in.
    WriteDropin,
    /// Is the `TrustedUserCAKeys` file a symlink?
    StatTrustedCa,
    /// Is the `TrustedUserCAKeys` file current already?
    ReadTrustedCa,
    /// Write the `TrustedUserCAKeys` file.
    WriteTrustedCa,
    /// Ask `sshd`.
    Check(SshdCheck),
    /// Restore the previous `TrustedUserCAKeys` file, because of this error.
    Restore(Error),
    /// Ask `sshd` after the restoration, because of this error.
    RestoreCheck(SshdCheck, Error),
    /// Is there a drop-in, and is it current?
    VerifyReadDropin,
    /// Is the drop-in safe? Its contents were judged already.
    VerifyStatDropin(Result<()>),
    /// Is there a `TrustedUserCAKeys` file?
    VerifyReadTrustedCa,
    /// Is the `TrustedUserCAKeys` file safe?
    VerifyStatTrustedCa,
    /// Nothing is left to do.
    Finished(Result<Outcome>),
}

/// One privileged operation under way.
#[derive(Debug)]
pub struct OpRun {
    /// What the run is meant to achieve.
    pub goal: Goal,
    /// The uid that, or else root's, must own managed directories and files.
    pub owner: u32,
    /// Whether the `TrustedUserCAKeys` path has a directory.
    pub has_trusted_ca_dir: bool,
    /// Whether the drop-in path has a directory.
    pub has_dropin_dir: bool,
    /// What the file to be written or verified is to hold.
    pub body: String,
    /// What the `TrustedUserCAKeys` file held before, once that is known.
    pub previous: Option<Vec<u8>>,
    /// How far the run has come.
    pub stage: Stage,
}

// ---------------------------------------------------------------------------
// Reading files
// ---------------------------------------------------------------------------

/// The value of an attempt on a file that may be missing.
pub open spec fn optional<T>(attempt: Attempt<T>) -> Result<Option<T>> {
    match attempt {
        Attempt::Done(v) => Ok(Some(v)),
        Attempt::Missing(_) => Ok(None),
        Attempt::Failed(e) => Err(Error::Io(e)),
    }
}

/// The text that bytes encode, trailing whitespace aside.
pub open spec fn text_of(bytes: Seq<u8>) -> Result<Seq<char>> {
    if vstd::utf8::valid_utf8(bytes) {
        Ok(text::trimmed_end(vstd::utf8::decode_utf8(bytes)))
    } else {
        Err(Error::HelperProtocol)
    }
}

/// The text of a file that may be missing, trailing whitespace aside.
pub open spec fn optional_text(contents: Attempt<Vec<u8>>) -> Result<Option<Seq<char>>> {
    match optional(contents) {
        Ok(Some(bytes)) => match text_of(bytes@) {
            Ok(t) => Ok(Some(t)),
            Err(e) => Err(e),
        },
        Ok(None) => Ok(None),
        Err(e) => Err(e),
    }
}

/// What an optional text result says.
pub open spec fn text_view(r: Result<Option<String>>) -> Result<Option<Seq<char>>> {
    match r {
        Ok(s) => Ok(protocol::chars_of(s)),
        Err(e) => Err(e),
    }
}

/// A file's bytes, mapping a missing file to `None`.
///
/// # Errors
///
/// Returns [`Error::Io`] if reading failed for another reason.
pub fn read_optional(contents: Attempt<Vec<u8>>) -> (r: Result<Option<Vec<u8>>>)
    ensures
        r == optional(contents),
{
    match contents {
        Attempt::Done(bytes) => Ok(Some(bytes)),
        Attempt::Missing(_) => Ok(None),
        Attempt::Failed(e) => Err(Error::Io(e)),
    }
}

/// A file as a UTF-8 string without trailing whitespace, mapping a missing file
/// to `None`.
///
/// # Errors
///
/// Returns [`Error::Io`] if reading failed for another reason, or
/// [`Error::HelperProtocol`] if the file is not UTF-8.
pub fn read_optional_string(contents: Attempt<Vec<u8>>) -> (r: Result<Option<String>>)
    ensures
        text_view(r) == optional_text(contents),
{
    match read_optional(contents) {
        Err(e) => Err(e),
        Ok(None) => Ok(None),
        Ok(Some(bytes)) => match String::from_utf8(bytes) {
            Ok(decoded) => {
                let chars = text::to_chars(decoded.as_str());
                Ok(Some(text::from_chars(text::trim_end(chars.as_slice()))))
            },
            Err(_) => Err(Error::HelperProtocol),
        },
    }
}

/// The verdict on removing a file that may be missing.
pub open spec fn removal(attempt: Attempt<()>) -> Result<()> {
    match attempt {
        Attempt::Done(()) => Ok(()),
        Attempt::Missing(_) => Ok(()),
        Attempt::Failed(e) => Err(Error::Io(e)),
    }
}

/// The verdict on removing a file, treating a missing file as success.
///
/// # Errors
///
/// Returns [`Error::Io`] if the removal failed for another reason.
pub fn remove_optional(attempt: Attempt<()>) -> (r: Result<()>)
    ensures
        r == removal(attempt),
{
    match attempt {
        Attempt::Done(()) => Ok(()),
        Attempt::Missing(_) => Ok(()),
        Attempt::Failed(e) => Err(Error::Io(e)),
    }
}

/// Whether a text is the given drop-in, trailing whitespace aside on both sides.
pub open spec fn current_dropin(found: Seq<char>, desired: Seq<char>) -> bool {
    found == text::trimmed_end(desired)
}

/// Whether `found`, which has no trailing whitespace, is the drop-in `desired`.
fn is_current_dropin(found: &str, desired: &str) -> (r: bool)
    ensures
        r == current_dropin(found@, desired@),
{
    let found = text::to_chars(found);
    let desired = text::to_chars(desired);
    text::chars_eq(found.as_slice(), text::trim_end(desired.as_slice()))
}

// ---------------------------------------------------------------------------
// Transitions
// ---------------------------------------------------------------------------

/// Whether the main config `Include`s the drop-in directory. A main config that
/// does not, or that cannot be inspected, would leave the drop-in inert.
pub open spec fn include_verdict(contents: Attempt<Vec<u8>>) -> Result<()> {
    match optional_text(contents) {
        Ok(Some(config)) => if sshd_config::some_line_includes(
            text::lines(config),
            sshd_config::DROPIN_DIR@,
        ) {
            Ok(())
        } else {
            Err(Error::SshdValidationFailed)
        },
        Ok(None) => Err(Error::SshdValidationFailed),
        Err(e) => Err(e),
    }
}

/// Confirm that the main config `Include`s the drop-in directory: without it, the
/// drop-in would be inert, which must not be silently accepted.
///
/// # Errors
///
/// Returns [`Error::SshdValidationFailed`] if it does not or is missing, or the
/// error of reading it.
pub fn ensure_include_present(contents: Attempt<Vec<u8>>) -> (r: Result<()>)
    ensures
        r == include_verdict(contents),
{
    match read_optional_string(contents) {
        Err(e) => Err(e),
        Ok(None) => Err(Error::SshdValidationFailed),
        Ok(Some(config)) => if sshd_config::includes_dropin_dir(
            config.as_str(),
            sshd_config::DROPIN_DIR,
        ) {
            Ok(())
        } else {
            Err(Error::SshdValidationFailed)
        },
    }
}

/// The verdict on the contents of an installed drop-in.
pub open spec fn dropin_verdict(bytes: Seq<u8>, desired: Seq<char>) -> Result<()> {
    match text_of(bytes) {
        Ok(found) => if current_dropin(found, desired) {
            Ok(())
        } else {
            Err(Error::SshdValidationFailed)
        },
        Err(e) => Err(e),
    }
}

/// The check after this one, if any; verification does not reload.
pub open spec fn following_check(goal: Goal, check: SshdCheck) -> Option<SshdCheck> {
    match check {
        SshdCheck::ValidateConfig => if goal == Goal::VerifyState {
            Some(SshdCheck::IsActive)
        } else {
            Some(SshdCheck::Reload)
        },
        SshdCheck::Reload => Some(SshdCheck::IsActive),
        SshdCheck::IsActive => None,
    }
}

/// The outcome of a run that has done all it was meant to.
pub open spec fn outcome_of(goal: Goal) -> Outcome {
    if goal == Goal::ApplyTrustedCaKeys {
        Outcome::Applied
    } else {
        Outcome::Success
    }
}

/// The outcome that a failed run is reported with.
pub open spec fn failure_outcome(goal: Goal) -> Outcome {
    if goal == Goal::ApplyTrustedCaKeys {
        Outcome::RolledBack
    } else {
        Outcome::Unhealthy
    }
}

/// The stage after the managed directories have been seen to.
pub open spec fn after_dirs(goal: Goal) -> Stage {
    match goal {
        Goal::EnsureDirectories => Stage::Finished(Ok(Outcome::Success)),
        Goal::InstallSshdDropin => Stage::ReadMainConfig,
        Goal::ApplyTrustedCaKeys => Stage::StatTrustedCa,
        Goal::VerifyState => Stage::VerifyReadDropin,
    }
}

/// The stage at which a run begins: with the managed directories, unless it is
/// only to verify.
pub open spec fn first_stage(goal: Goal, has_trusted_ca_dir: bool, has_dropin_dir: bool) -> Stage {
    if goal == Goal::VerifyState {
        after_dirs(goal)
    } else if has_trusted_ca_dir {
        Stage::DirExists(ManagedDir::TrustedCa)
    } else if has_dropin_dir {
        Stage::DirExists(ManagedDir::Dropin)
    } else {
        after_dirs(goal)
    }
}

/// `stage` if all is well, the end otherwise.
pub open spec fn proceed(verdict: Result<()>, stage: Stage) -> Stage {
    match verdict {
        Ok(()) => stage,
        Err(e) => Stage::Finished(Err(e)),
    }
}

/// The stage after a check. A failed one makes an apply restore what was there
/// before, and ends any other run.
pub open spec fn after_check(goal: Goal, check: SshdCheck, result: Result<()>) -> Stage {
    match result {
        Ok(()) => match following_check(goal, check) {
            Some(following) => Stage::Check(following),
            None => Stage::Finished(Ok(outcome_of(goal))),
        },
        Err(e) => if goal == Goal::ApplyTrustedCaKeys {
            Stage::Restore(e)
        } else {
            Stage::Finished(Err(e))
        },
    }
}

/// The stage after a check that followed a restoration. Whatever it found, the
/// run ends with the error that made the restoration necessary.
pub open spec fn after_restore_check(
    goal: Goal,
    check: SshdCheck,
    result: Result<()>,
    error: Error,
) -> Stage {
    match (result, following_check(goal, check)) {
        (Ok(()), Some(following)) => Stage::RestoreCheck(following, error),
        _ => Stage::Finished(Err(error)),
    }
}

impl OpRun {
    /// What is asked for at the present stage.
    pub open spec fn pending(self) -> Option<Action> {
        match self.stage {
            Stage::DirExists(d) => Some(Action::DirExists(d)),
            Stage::DirCreate(d) => Some(Action::CreateDirs(d)),
            Stage::DirStat(d) => Some(Action::LstatDir(d)),
            Stage::DirMode(d) => Some(Action::SetDirMode(d, DIR_MODE)),
            Stage::ReadMainConfig => Some(Action::Read(ManagedFile::MainConfig)),
            Stage::ReadDropin => Some(Action::Read(ManagedFile::Dropin)),
            Stage::StatDropin => Some(Action::Lstat(ManagedFile::Dropin)),
            Stage::WriteDropin => Some(Action::Write(ManagedFile::Dropin, MODE_PUBLIC)),
            Stage::StatTrustedCa => Some(Action::Lstat(ManagedFile::TrustedCa)),
            Stage::ReadTrustedCa => Some(Action::Read(ManagedFile::TrustedCa)),
            Stage::WriteTrustedCa => Some(Action::Write(ManagedFile::TrustedCa, MODE_PUBLIC)),
            Stage::Check(c) => Some(Action::Sshd(c)),
            Stage::Restore(_) => if self.previous is Some {
                Some(Action::Write(ManagedFile::TrustedCa, MODE_PUBLIC))
            } else {
                Some(Action::Remove(ManagedFile::TrustedCa))
            },
            Stage::RestoreCheck(c, _) => Some(Action::Sshd(c)),
            Stage::VerifyReadDropin => Some(Action::Read(ManagedFile::Dropin)),
            Stage::VerifyStatDropin(_) => Some(Action::Lstat(ManagedFile::Dropin)),
            Stage::VerifyReadTrustedCa => Some(Action::Read(ManagedFile::TrustedCa)),
            Stage::VerifyStatTrustedCa => Some(Action::Lstat(ManagedFile::TrustedCa)),
            Stage::Finished(_) => None,
        }
    }

    /// Whether an event answers what is asked for.
    pub open spec fn answered_by(self, event: Event) -> bool {
        match self.pending() {
            Some(Action::DirExists(_)) => event is Exists,
            Some(Action::CreateDirs(_)) => event is Done,
            Some(Action::LstatDir(_)) => event is Stat,
            Some(Action::SetDirMode(_, _)) => event is Done,
            Some(Action::Lstat(_)) => event is Stat,
            Some(Action::Read(_)) => event is Contents,
            Some(Action::Write(_, _)) => event is Wrote,
            Some(Action::Remove(_)) => event is Done,
            Some(Action::Sshd(_)) => event is Checked,
            None => false,
        }
    }

    /// The stage after a managed directory has been seen to.
    pub open spec fn after_dir(self, dir: ManagedDir) -> Stage {
        if dir == ManagedDir::TrustedCa && self.has_dropin_dir {
            Stage::DirExists(ManagedDir::Dropin)
        } else {
            after_dirs(self.goal)
        }
    }

    /// The stage after an event. One that does not answer what is asked for
    /// changes nothing.
    pub open spec fn next_stage(self, event: Event) -> Stage {
        match (self.stage, event) {
            (Stage::DirExists(d), Event::Exists(exists)) => if exists {
                Stage::DirStat(d)
            } else {
                Stage::DirCreate(d)
            },
            (Stage::DirCreate(d), Event::Done(attempt)) => proceed(
                security::required(attempt),
                Stage::DirStat(d),
            ),
            (Stage::DirStat(d), Event::Stat(stat)) => proceed(
                security::managed_dir_verdict(stat, self.owner),
                Stage::DirMode(d),
            ),
            (Stage::DirMode(d), Event::Done(attempt)) => proceed(
                security::required(attempt),
                self.after_dir(d),
            ),
            (Stage::ReadMainConfig, Event::Contents(contents)) => proceed(
                include_verdict(contents),
                Stage::ReadDropin,
            ),
            (Stage::ReadDropin, Event::Contents(contents)) => match optional_text(contents) {
                Ok(Some(found)) => if current_dropin(found, self.body@) {
                    Stage::Finished(Ok(Outcome::NotModified))
                } else {
                    Stage::StatDropin
                },
                Ok(None) => Stage::StatDropin,
                Err(e) => Stage::Finished(Err(e)),
            },
            (Stage::StatDropin, Event::Stat(stat)) => proceed(
                security::not_symlink_verdict(stat),
                Stage::WriteDropin,
            ),
            (Stage::WriteDropin, Event::Wrote(result)) => proceed(
                result,
                Stage::Check(SshdCheck::ValidateConfig),
            ),
            (Stage::StatTrustedCa, Event::Stat(stat)) => proceed(
                security::not_symlink_verdict(stat),
                Stage::ReadTrustedCa,
            ),
            (Stage::ReadTrustedCa, Event::Contents(contents)) => match optional(contents) {
                Ok(Some(bytes)) => if bytes@ == self.body_bytes() {
                    Stage::Finished(Ok(Outcome::NotModified))
                } else {
                    Stage::WriteTrustedCa
                },
                Ok(None) => Stage::WriteTrustedCa,
                Err(e) => Stage::Finished(Err(e)),
            },
            (Stage::WriteTrustedCa, Event::Wrote(result)) => match result {
                Ok(()) => Stage::Check(SshdCheck::ValidateConfig),
                Err(e) => Stage::Restore(e),
            },
            (Stage::Check(c), Event::Checked(result)) => after_check(self.goal, c, result),
            (Stage::Restore(error), Event::Wrote(result)) => if self.previous is None {
                self.stage
            } else if result is Ok {
                Stage::RestoreCheck(SshdCheck::ValidateConfig, error)
            } else {
                Stage::Finished(Err(error))
            },
            (Stage::Restore(error), Event::Done(attempt)) => if self.previous is Some {
                self.stage
            } else if removal(attempt) is Ok {
                Stage::RestoreCheck(SshdCheck::ValidateConfig, error)
            } else {
                Stage::Finished(Err(error))
            },
            (Stage::RestoreCheck(c, error), Event::Checked(result)) => after_restore_check(
                self.goal,
                c,
                result,
                error,
            ),
            (Stage::VerifyReadDropin, Event::Contents(contents)) => match optional(contents) {
                Ok(Some(bytes)) => Stage::VerifyStatDropin(dropin_verdict(bytes@, self.body@)),
                Ok(None) => Stage::VerifyReadTrustedCa,
                Err(e) => Stage::Finished(Err(e)),
            },
            (Stage::VerifyStatDropin(verdict), Event::Stat(stat)) => proceed(
                security::managed_file_verdict(stat, self.owner),
                proceed(verdict, Stage::VerifyReadTrustedCa),
            ),
            (Stage::VerifyReadTrustedCa, Event::Contents(contents)) => match optional(contents) {
                Ok(Some(_)) => Stage::VerifyStatTrustedCa,
                Ok(None) => Stage::Check(SshdCheck::ValidateConfig),
                Err(e) => Stage::Finished(Err(e)),
            },
            (Stage::VerifyStatTrustedCa, Event::Stat(stat)) => proceed(
                security::managed_file_verdict(stat, self.owner),
                Stage::Check(SshdCheck::ValidateConfig),
            ),
            _ => self.stage,
        }
    }

    /// What the `TrustedUserCAKeys` file is known to have held, after an event.
    pub open spec fn next_previous(self, event: Event) -> Option<Vec<u8>> {
        match (self.stage, event) {
            (Stage::ReadTrustedCa, Event::Contents(Attempt::Done(bytes))) => Some(bytes),
            _ => self.previous,
        }
    }

    /// The run after an event.
    pub open spec fn next(self, event: Event) -> OpRun {
        OpRun { previous: self.next_previous(event), stage: self.next_stage(event), ..self }
    }

    /// The bytes of [`OpRun::body`].
    pub open spec fn body_bytes(self) -> Seq<u8> {
        vstd::utf8::encode_utf8(self.body@)
    }

    /// What is to be written: the previous file during a restoration, the body
    /// otherwise.
    pub open spec fn payload_bytes(self) -> Seq<u8> {
        match (self.stage, self.previous) {
            (Stage::Restore(_), Some(bytes)) => bytes@,
            _ => self.body_bytes(),
        }
    }

    /// The reply that a finished run gives rise to.
    pub open spec fn reply(self) -> Option<protocol::Reply> {
        match self.stage {
            Stage::Finished(Ok(outcome)) => Some(protocol::Reply::success(outcome)),
            Stage::Finished(Err(e)) => Some(
                protocol::Reply::failure(failure_outcome(self.goal), e.text()),
            ),
            _ => None,
        }
    }

    /// Whether this is a run that has just begun.
    pub open spec fn begins(
        self,
        goal: Goal,
        owner: u32,
        has_trusted_ca_dir: bool,
        has_dropin_dir: bool,
        body: Seq<char>,
        stage: Stage,
    ) -> bool {
        &&& self.goal == goal
        &&& self.owner == owner
        &&& self.has_trusted_ca_dir == has_trusted_ca_dir
        &&& self.has_dropin_dir == has_dropin_dir
        &&& self.body@ == body
        &&& self.previous is None
        &&& self.stage == stage
    }

    /// Begin a run.
    pub fn begin(
        goal: Goal,
        owner: u32,
        has_trusted_ca_dir: bool,
        has_dropin_dir: bool,
        body: String,
    ) -> (r: Self)
        ensures
            r.begins(
                goal,
                owner,
                has_trusted_ca_dir,
                has_dropin_dir,
                body@,
                first_stage(goal, has_trusted_ca_dir, has_dropin_dir),
            ),
    {
        let stage = match goal {
            Goal::VerifyState => stage_after_dirs(goal),
            _ => if has_trusted_ca_dir {
                Stage::DirExists(ManagedDir::TrustedCa)
            } else if has_dropin_dir {
                Stage::DirExists(ManagedDir::Dropin)
            } else {
                stage_after_dirs(goal)
            },
        };
        OpRun { goal, owner, has_trusted_ca_dir, has_dropin_dir, body, previous: None, stage }
    }

    /// The stage at which an apply of `content` begins: at its end if the
    /// content is no `TrustedUserCAKeys` file.
    pub open spec fn apply_stage(
        has_trusted_ca_dir: bool,
        has_dropin_dir: bool,
        content: Seq<char>,
    ) -> Stage {
        match trusted_ca::parsed_file(content) {
            Ok(_) => first_stage(Goal::ApplyTrustedCaKeys, has_trusted_ca_dir, has_dropin_dir),
            Err(reason) => Stage::Finished(Err(Error::InvalidTrustedCa(reason))),
        }
    }

    /// Begin to apply `content`. A file that cannot be parsed back is never
    /// written (defence in depth): the run has then failed already.
    pub fn begin_apply(
        owner: u32,
        has_trusted_ca_dir: bool,
        has_dropin_dir: bool,
        content: &str,
    ) -> (r: Self)
        ensures
            r.begins(
                Goal::ApplyTrustedCaKeys,
                owner,
                has_trusted_ca_dir,
                has_dropin_dir,
                content@,
                Self::apply_stage(has_trusted_ca_dir, has_dropin_dir, content@),
            ),
    {
        let run = OpRun::begin(
            Goal::ApplyTrustedCaKeys,
            owner,
            has_trusted_ca_dir,
            has_dropin_dir,
            content.to_owned(),
        );
        match TrustedCaKeys::parse(content) {
            Ok(_) => run,
            Err(e) => OpRun { stage: Stage::Finished(Err(e)), ..run },
        }
    }

    /// What to do next; nothing once the run has finished.
    pub fn action(&self) -> (r: Option<Action>)
        ensures
            r == self.pending(),
    {
        match &self.stage {
            Stage::DirExists(d) => Some(Action::DirExists(*d)),
            Stage::DirCreate(d) => Some(Action::CreateDirs(*d)),
            Stage::DirStat(d) => Some(Action::LstatDir(*d)),
            Stage::DirMode(d) => Some(Action::SetDirMode(*d, DIR_MODE)),
            Stage::ReadMainConfig => Some(Action::Read(ManagedFile::MainConfig)),
            Stage::ReadDropin => Some(Action::Read(ManagedFile::Dropin)),
            Stage::StatDropin => Some(Action::Lstat(ManagedFile::Dropin)),
            Stage::WriteDropin => Some(Action::Write(ManagedFile::Dropin, MODE_PUBLIC)),
            Stage::StatTrustedCa => Some(Action::Lstat(ManagedFile::TrustedCa)),
            Stage::ReadTrustedCa => Some(Action::Read(ManagedFile::TrustedCa)),
            Stage::WriteTrustedCa => Some(Action::Write(ManagedFile::TrustedCa, MODE_PUBLIC)),
            Stage::Check(c) => Some(Action::Sshd(*c)),
            Stage::Restore(_) => match &self.previous {
                Some(_) => Some(Action::Write(ManagedFile::TrustedCa, MODE_PUBLIC)),
                None => Some(Action::Remove(ManagedFile::TrustedCa)),
            },
            Stage::RestoreCheck(c, _) => Some(Action::Sshd(*c)),
            Stage::VerifyReadDropin => Some(Action::Read(ManagedFile::Dropin)),
            Stage::VerifyStatDropin(_) => Some(Action::Lstat(ManagedFile::Dropin)),
            Stage::VerifyReadTrustedCa => Some(Action::Read(ManagedFile::TrustedCa)),
            Stage::VerifyStatTrustedCa => Some(Action::Lstat(ManagedFile::TrustedCa)),
            Stage::Finished(_) => None,
        }
    }

    /// What an [`Action::Write`] is to write.
    pub fn payload(&self) -> (r: &[u8])
        ensures
            r@ == self.payload_bytes(),
    {
        match &self.stage {
            Stage::Restore(_) => match &self.previous {
                Some(bytes) => bytes.as_slice(),
                None => self.body.as_str().as_bytes(),
            },
            _ => self.body.as_str().as_bytes(),
        }
    }

    /// How the run ended, once it has.
    pub fn result(&self) -> (r: Option<&Result<Outcome>>)
        ensures
            r == match self.stage {
                Stage::Finished(result) => Some(&result),
                _ => None,
            },
    {
        match &self.stage {
            Stage::Finished(result) => Some(result),
            _ => None,
        }
    }

    /// The response to the request behind the run, once it has finished. Every
    /// failure is mapped to a fixed, non-sensitive response.
    pub fn response(&self) -> (r: Option<Response>)
        ensures
            match self.reply() {
                Some(reply) => r matches Some(response) && response@ == reply,
                None => r is None,
            },
    {
        match &self.stage {
            Stage::Finished(Ok(outcome)) => Some(Response::success(*outcome)),
            Stage::Finished(Err(e)) => {
                let outcome = match self.goal {
                    Goal::ApplyTrustedCaKeys => Outcome::RolledBack,
                    _ => Outcome::Unhealthy,
                };
                let detail = e.to_string();
                Some(Response::failure(outcome, detail.as_str()))
            },
            _ => None,
        }
    }

    /// Take note of the answer to what was asked for.
    pub fn step(self, event: Event) -> (r: OpRun)
        ensures
            r == self.next(event),
    {
        let OpRun { goal, owner, has_trusted_ca_dir, has_dropin_dir, body, previous, stage } = self;
        let mut previous = previous;
        let stage = match (stage, event) {
            (Stage::DirExists(d), Event::Exists(exists)) => if exists {
                Stage::DirStat(d)
            } else {
                Stage::DirCreate(d)
            },
            (Stage::DirCreate(d), Event::Done(attempt)) => go_on(
                security::require(attempt),
                Stage::DirStat(d),
            ),
            (Stage::DirStat(d), Event::Stat(stat)) => go_on(
                security::validate_managed_dir(stat, owner),
                Stage::DirMode(d),
            ),
            (Stage::DirMode(d), Event::Done(attempt)) => {
                let following = match d {
                    ManagedDir::TrustedCa => if has_dropin_dir {
                        Stage::DirExists(ManagedDir::Dropin)
                    } else {
                        stage_after_dirs(goal)
                    },
                    ManagedDir::Dropin => stage_after_dirs(goal),
                };
                go_on(security::require(attempt), following)
            },
            (Stage::ReadMainConfig, Event::Contents(contents)) => go_on(
                ensure_include_present(contents),
                Stage::ReadDropin,
            ),
            (Stage::ReadDropin, Event::Contents(contents)) => match read_optional_string(
                contents,
            ) {
                Ok(Some(found)) => if is_current_dropin(found.as_str(), body.as_str()) {
                    Stage::Finished(Ok(Outcome::NotModified))
                } else {
                    Stage::StatDropin
                },
                Ok(None) => Stage::StatDropin,
                Err(e) => Stage::Finished(Err(e)),
            },
            (Stage::StatDropin, Event::Stat(stat)) => go_on(
                security::ensure_not_symlink(stat),
                Stage::WriteDropin,
            ),
            (Stage::WriteDropin, Event::Wrote(result)) => go_on(
                result,
                Stage::Check(SshdCheck::ValidateConfig),
            ),
            (Stage::StatTrustedCa, Event::Stat(stat)) => go_on(
                security::ensure_not_symlink(stat),
                Stage::ReadTrustedCa,
            ),
            (Stage::ReadTrustedCa, Event::Contents(contents)) => match read_optional(contents) {
                Ok(Some(bytes)) => {
                    let current = text::bytes_eq(bytes.as_slice(), body.as_str().as_bytes());
                    previous = Some(bytes);
                    if current {
                        Stage::Finished(Ok(Outcome::NotModified))
                    } else {
                        Stage::WriteTrustedCa
                    }
                },
                Ok(None) => Stage::WriteTrustedCa,
                Err(e) => Stage::Finished(Err(e)),
            },
            (Stage::WriteTrustedCa, Event::Wrote(result)) => match result {
                Ok(()) => Stage::Check(SshdCheck::ValidateConfig),
                Err(e) => Stage::Restore(e),
            },
            (Stage::Check(c), Event::Checked(result)) => stage_after_check(goal, c, result),
            (Stage::Restore(error), Event::Wrote(result)) => match &previous {
                Some(_) => match result {
                    Ok(()) => Stage::RestoreCheck(SshdCheck::ValidateConfig, error),
                    Err(_) => Stage::Finished(Err(error)),
                },
                None => Stage::Restore(error),
            },
            (Stage::Restore(error), Event::Done(attempt)) => match &previous {
                Some(_) => Stage::Restore(error),
                None => match remove_optional(attempt) {
                    Ok(()) => Stage::RestoreCheck(SshdCheck::ValidateConfig, error),
                    Err(_) => Stage::Finished(Err(error)),
                },
            },
            (Stage::RestoreCheck(c, error), Event::Checked(result)) => match (
                result,
                check_after(goal, c),
            ) {
                (Ok(()), Some(following)) => Stage::RestoreCheck(following, error),
                _ => Stage::Finished(Err(error)),
            },
            (Stage::VerifyReadDropin, Event::Contents(contents)) => match read_optional(contents) {
                Ok(Some(bytes)) => Stage::VerifyStatDropin(judge_dropin(bytes, body.as_str())),
                Ok(None) => Stage::VerifyReadTrustedCa,
                Err(e) => Stage::Finished(Err(e)),
            },
            (Stage::VerifyStatDropin(verdict), Event::Stat(stat)) => go_on(
                security::validate_managed_file(stat, owner),
                go_on(verdict, Stage::VerifyReadTrustedCa),
            ),
            (Stage::VerifyReadTrustedCa, Event::Contents(contents)) => match read_optional(
                contents,
            ) {
                Ok(Some(_)) => Stage::VerifyStatTrustedCa,
                Ok(None) => Stage::Check(SshdCheck::ValidateConfig),
                Err(e) => Stage::Finished(Err(e)),
            },
            (Stage::VerifyStatTrustedCa, Event::Stat(stat)) => go_on(
                security::validate_managed_file(stat, owner),
                Stage::Check(SshdCheck::ValidateConfig),
            ),
            (stage, _) => stage,
        };
        OpRun { goal, owner, has_trusted_ca_dir, has_dropin_dir, body, previous, stage }
    }
}

/// `stage` if all is well, the end otherwise.
fn go_on(verdict: Result<()>, stage: Stage) -> (r: Stage)
    ensures
        r == proceed(verdict, stage),
{
    match verdict {
        Ok(()) => stage,
        Err(e) => Stage::Finished(Err(e)),
    }
}

/// The stage after the managed directories have been seen to.
fn stage_after_dirs(goal: Goal) -> (r: Stage)
    ensures
        r == after_dirs(goal),
{
    match goal {
        Goal::EnsureDirectories => Stage::Finished(Ok(Outcome::Success)),
        Goal::InstallSshdDropin => Stage::ReadMainConfig,
        Goal::ApplyTrustedCaKeys => Stage::StatTrustedCa,
        Goal::VerifyState => Stage::VerifyReadDropin,
    }
}

/// The check after this one, if any.
fn check_after(goal: Goal, check: SshdCheck) -> (r: Option<SshdCheck>)
    ensures
        r == following_check(goal, check),
{
    match check {
        SshdCheck::ValidateConfig => match goal {
            Goal::VerifyState => Some(SshdCheck::IsActive),
            _ => Some(SshdCheck::Reload),
        },
        SshdCheck::Reload => Some(SshdCheck::IsActive),
        SshdCheck::IsActive => None,
    }
}

/// The stage after a check.
fn stage_after_check(goal: Goal, check: SshdCheck, result: Result<()>) -> (r: Stage)
    ensures
        r == after_check(goal, check, result),
{
    match result {
        Ok(()) => match check_after(goal, check) {
            Some(following) => Stage::Check(following),
            None => match goal {
                Goal::ApplyTrustedCaKeys => Stage::Finished(Ok(Outcome::Applied)),
                _ => Stage::Finished(Ok(Outcome::Success)),
            },
        },
        Err(e) => match goal {
            Goal::ApplyTrustedCaKeys => Stage::Restore(e),
            _ => Stage::Finished(Err(e)),
        },
    }
}

/// The verdict on the contents of an installed drop-in: current, trailing
/// whitespace aside, or drifted.
fn judge_dropin(bytes: Vec<u8>, desired: &str) -> (r: Result<()>)
    ensures
        r == dropin_verdict(bytes@, desired@),
{
    match read_optional_string(Attempt::Done(bytes)) {
        Ok(Some(found)) => if is_current_dropin(found.as_str(), desired) {
            Ok(())
        } else {
            Err(Error::SshdValidationFailed)
        },
        Ok(None) => Err(Error::SshdValidationFailed),
        Err(e) => Err(e),
    }
}

} // verus!
