//! What the operations guarantee as a whole, whatever the host answers.
//!
//! A run is followed through a log of answers, each with the files as it left
//! them. Two things are assumed of the host. The three configured paths name
//! three different files ([`Files`]): where two of them name the same file, the
//! laws do not hold. And nobody else changes these files meanwhile ([`effect`]):
//! a file reads as it is, a successful write installs all of its payload, a
//! failed one leaves the file as it was or installs all of its payload, and a
//! failed removal removes nothing. That an atomic write has this effect follows
//! from its steps ([`atomic_write_has_its_effect`]).

use vstd::prelude::*;

use crate::errors::{Error, Result};
use crate::ops::run;
use crate::ops::run::{Action, Event, Goal, ManagedDir, ManagedFile, OpRun, Stage};
use crate::ops::{Dispatch, HelperOps};
use crate::protocol::{Operation, Outcome, Reply, Request, HELPER_VERSION};
use crate::security::{
    self, Attempt, SecureWrite, TargetDir, WriteExchange, WriteStage, WriteStep, MODE_PUBLIC,
};
use crate::ssh::sshd_config;
use crate::ssh::trusted_ca;
use crate::sshd_control::{SshdCheck, SshdControl};
use crate::text;

verus! {

// ---------------------------------------------------------------------------
// The host
// ---------------------------------------------------------------------------

/// The contents of the files that the helper reads or manages; `None` for one
/// that does not exist. They are three different files: a change of one is no
/// change of another.
#[verifier::ext_equal]
pub ghost struct Files {
    /// The managed `TrustedUserCAKeys` file.
    pub trusted_ca: Option<Seq<u8>>,
    /// The managed sshd drop-in.
    pub dropin: Option<Seq<u8>>,
    /// The main sshd config.
    pub main_config: Option<Seq<u8>>,
}

impl Files {
    /// What a file holds.
    pub open spec fn file(self, file: ManagedFile) -> Option<Seq<u8>> {
        match file {
            ManagedFile::TrustedCa => self.trusted_ca,
            ManagedFile::Dropin => self.dropin,
            ManagedFile::MainConfig => self.main_config,
        }
    }

    /// The files with another content for one of them.
    pub open spec fn with(self, file: ManagedFile, contents: Option<Seq<u8>>) -> Files {
        match file {
            ManagedFile::TrustedCa => Files { trusted_ca: contents, ..self },
            ManagedFile::Dropin => Files { dropin: contents, ..self },
            ManagedFile::MainConfig => Files { main_config: contents, ..self },
        }
    }
}

/// What the pending action can have done to the files, given its answer.
pub open spec fn effect(run: OpRun, event: Event, before: Files, after: Files) -> bool {
    match (run.pending(), event) {
        (Some(Action::Read(file)), Event::Contents(contents)) => {
            &&& after == before
            &&& contents matches Attempt::Done(bytes) ==> before.file(file) == Some(bytes@)
            &&& contents is Missing ==> before.file(file) is None
        },
        (Some(Action::Write(file, _)), Event::Wrote(Ok(()))) => {
            after == before.with(file, Some(run.payload_bytes()))
        },
        (Some(Action::Write(file, _)), Event::Wrote(Err(_))) => {
            after == before || after == before.with(file, Some(run.payload_bytes()))
        },
        (Some(Action::Remove(file)), Event::Done(attempt)) => {
            &&& attempt is Done ==> after == before.with(file, None)
            &&& attempt is Missing ==> after == before && before.file(file) is None
            &&& attempt is Failed ==> after == before
        },
        _ => after == before,
    }
}

/// What a file on disk holds, if it exists.
pub open spec fn held(file: Option<security::FileState>) -> Option<Seq<u8>> {
    match file {
        Some(state) => Some(state.contents),
        None => None,
    }
}

/// An atomic write has the effect that is assumed of the write that a run asks
/// for: carried out with the run's payload and mode on a target that holds what
/// the file holds, and whatever comes of its steps, it leaves behind what
/// [`effect`] allows for the result that it finished with. This holds of every
/// write that [`security::secure_write`] begins, also of one that it refuses.
pub proof fn atomic_write_has_its_effect(
    run: OpRun,
    file: ManagedFile,
    mode: u32,
    before: Files,
    write: SecureWrite,
    dir: TargetDir,
    log: Seq<WriteExchange>,
    result: Result<()>,
)
    requires
        run.pending() == Some(Action::Write(file, mode)),
        write.stage == WriteStage::At(WriteStep::CreateTemp) || write.stage
            matches WriteStage::Finished(Err(_)),
        write.contents@ == run.payload_bytes(),
        write.mode == mode,
        before.file(file) == held(dir.target),
        security::write_can_go(write, dir, log),
        security::write_after(write, log).stage == WriteStage::Finished(result),
    ensures
        effect(
            run,
            Event::Wrote(result),
            before,
            before.with(file, held(security::dir_after(dir, log).target)),
        ),
        result is Ok ==> security::dir_after(dir, log).target == Some(
            security::FileState { contents: run.payload_bytes(), mode, synced: true },
        ),
{
    security::target_is_never_partial(write, dir, log);
    assert(before.with(file, before.file(file)) == before);
}

/// One answer and the files as it left them.
pub ghost struct Exchange {
    /// The answer to what was asked for.
    pub event: Event,
    /// The files after it.
    pub after: Files,
}

/// Whether `log` is something that can happen to `run` on a host with the files
/// `before`.
pub open spec fn can_go(run: OpRun, before: Files, log: Seq<Exchange>) -> bool
    decreases log.len(),
{
    log.len() > 0 ==> {
        &&& run.answered_by(log[0].event)
        &&& effect(run, log[0].event, before, log[0].after)
        &&& can_go(run.next(log[0].event), log[0].after, log.skip(1))
    }
}

/// The run at the end of `log`.
pub open spec fn run_after(run: OpRun, log: Seq<Exchange>) -> OpRun
    decreases log.len(),
{
    if log.len() == 0 {
        run
    } else {
        run_after(run.next(log[0].event), log.skip(1))
    }
}

/// The files at the end of `log`.
pub open spec fn files_after(before: Files, log: Seq<Exchange>) -> Files {
    if log.len() == 0 {
        before
    } else {
        log.last().after
    }
}

/// Whether some answer of `log` was a failure to restore the previous file.
pub open spec fn restore_fails(run: OpRun, log: Seq<Exchange>) -> bool
    decreases log.len(),
{
    log.len() > 0 && {
        ||| run.stage is Restore && run.next(log[0].event).stage is Finished
        ||| restore_fails(run.next(log[0].event), log.skip(1))
    }
}

/// Whether every action that `run` asks for along `log`, and at its end, is one
/// that changes no managed file and asks nothing of `sshd`.
pub open spec fn hands_off(run: OpRun, log: Seq<Exchange>) -> bool
    decreases log.len(),
{
    &&& !(run.pending() matches Some(Action::Write(_, _)))
    &&& !(run.pending() matches Some(Action::Remove(_)))
    &&& !(run.pending() matches Some(Action::Sshd(_)))
    &&& log.len() > 0 ==> hands_off(run.next(log[0].event), log.skip(1))
}

/// Whether a run is an apply that has just begun.
pub open spec fn apply_begins(run: OpRun) -> bool {
    &&& run.goal == Goal::ApplyTrustedCaKeys
    &&& run.previous is None
    &&& run.stage == run::first_stage(run.goal, run.has_trusted_ca_dir, run.has_dropin_dir)
}

/// Whether a run is an installation of the drop-in that has just begun.
pub open spec fn install_begins(run: OpRun) -> bool {
    &&& run.goal == Goal::InstallSshdDropin
    &&& run.previous is None
    &&& run.stage == run::first_stage(run.goal, run.has_trusted_ca_dir, run.has_dropin_dir)
}

// ---------------------------------------------------------------------------
// Progress
// ---------------------------------------------------------------------------

/// The greatest number of answers that a check, and what may follow it, takes.
pub open spec fn check_rank(check: SshdCheck) -> nat {
    match check {
        SshdCheck::ValidateConfig => 3,
        SshdCheck::Reload => 2,
        SshdCheck::IsActive => 1,
    }
}

/// The greatest number of answers that a run still takes.
pub open spec fn rank(stage: Stage) -> nat {
    match stage {
        Stage::Finished(_) => 0,
        Stage::RestoreCheck(c, _) => check_rank(c),
        Stage::Restore(_) => 4,
        Stage::Check(c) => 4 + check_rank(c),
        Stage::WriteDropin => 8,
        Stage::WriteTrustedCa => 8,
        Stage::VerifyStatTrustedCa => 8,
        Stage::StatDropin => 9,
        Stage::ReadTrustedCa => 9,
        Stage::VerifyReadTrustedCa => 9,
        Stage::ReadDropin => 10,
        Stage::StatTrustedCa => 10,
        Stage::VerifyStatDropin(_) => 10,
        Stage::ReadMainConfig => 11,
        Stage::VerifyReadDropin => 11,
        Stage::DirMode(d) => dir_rank(d) + 1,
        Stage::DirStat(d) => dir_rank(d) + 2,
        Stage::DirCreate(d) => dir_rank(d) + 3,
        Stage::DirExists(d) => dir_rank(d) + 4,
    }
}

/// The greatest number of answers that a run takes after a directory.
pub open spec fn dir_rank(dir: ManagedDir) -> nat {
    match dir {
        ManagedDir::TrustedCa => 15,
        ManagedDir::Dropin => 11,
    }
}

/// Every answer to what a run asks for brings the run closer to its end, and as
/// long as it has not finished it asks for something. So every operation ends,
/// after nineteen answers at most.
pub proof fn every_answer_is_progress(run: OpRun, event: Event)
    ensures
        run.answered_by(event) ==> rank(run.next(event).stage) < rank(run.stage),
        rank(run.stage) <= 19,
        run.pending() is None <==> run.stage is Finished,
{
}

/// A log is never longer than the rank of the run it begins with.
pub proof fn operations_terminate(run: OpRun, before: Files, log: Seq<Exchange>)
    requires
        can_go(run, before, log),
    ensures
        log.len() + rank(run_after(run, log).stage) <= rank(run.stage) <= 19,
    decreases log.len(),
{
    if log.len() > 0 {
        every_answer_is_progress(run, log[0].event);
        operations_terminate(run.next(log[0].event), log[0].after, log.skip(1));
    }
}

/// An event that does not answer what is asked for changes nothing.
pub proof fn stray_event_is_ignored(run: OpRun, event: Event)
    requires
        !run.answered_by(event),
    ensures
        run.next(event) == run,
{
}

// ---------------------------------------------------------------------------
// Apply
// ---------------------------------------------------------------------------

/// The optional bytes as a sequence.
pub open spec fn bytes_of(bytes: Option<Vec<u8>>) -> Option<Seq<u8>> {
    match bytes {
        Some(b) => Some(b@),
        None => None,
    }
}

/// What holds of the files at each stage of an apply that found `initial`.
spec fn apply_inv(run: OpRun, initial: Files, files: Files) -> bool {
    let new = initial.with(ManagedFile::TrustedCa, Some(run.body_bytes()));
    &&& run.goal == Goal::ApplyTrustedCaKeys
    &&& match run.stage {
        Stage::DirExists(_) => files == initial && run.previous is None,
        Stage::DirCreate(_) => files == initial && run.previous is None,
        Stage::DirStat(_) => files == initial && run.previous is None,
        Stage::DirMode(_) => files == initial && run.previous is None,
        Stage::StatTrustedCa => files == initial && run.previous is None,
        Stage::ReadTrustedCa => files == initial && run.previous is None,
        Stage::WriteTrustedCa => {
            &&& files == initial
            &&& bytes_of(run.previous) == initial.trusted_ca
            &&& initial.trusted_ca != Some(run.body_bytes())
        },
        Stage::Check(_) => {
            &&& files == new
            &&& bytes_of(run.previous) == initial.trusted_ca
            &&& initial.trusted_ca != Some(run.body_bytes())
        },
        Stage::Restore(_) => {
            &&& files == initial || files == new
            &&& bytes_of(run.previous) == initial.trusted_ca
            &&& initial.trusted_ca != Some(run.body_bytes())
        },
        Stage::RestoreCheck(_, _) => {
            &&& files == initial
            &&& initial.trusted_ca != Some(run.body_bytes())
        },
        Stage::Finished(Ok(Outcome::Applied)) => {
            &&& files == new
            &&& initial.trusted_ca != Some(run.body_bytes())
        },
        Stage::Finished(Ok(Outcome::NotModified)) => {
            files == initial && initial.trusted_ca == Some(run.body_bytes())
        },
        Stage::Finished(Ok(_)) => false,
        Stage::Finished(Err(_)) => files == initial || files == new,
        _ => false,
    }
}

proof fn lemma_apply_step(run: OpRun, initial: Files, files: Files, exchange: Exchange)
    requires
        apply_inv(run, initial, files),
        run.answered_by(exchange.event),
        effect(run, exchange.event, files, exchange.after),
    ensures
        apply_inv(run.next(exchange.event), initial, exchange.after),
        run.next(exchange.event).stage matches Stage::Finished(Err(_)) ==> (exchange.after
            == initial || run.stage is Restore),
{
}

proof fn lemma_apply(run: OpRun, initial: Files, files: Files, log: Seq<Exchange>)
    requires
        apply_inv(run, initial, files),
        can_go(run, files, log),
    ensures
        apply_inv(run_after(run, log), initial, files_after(files, log)),
        run_after(run, log).body == run.body,
        log.len() > 0 && run_after(run, log).stage is Finished && !restore_fails(run, log) ==> (
        run_after(run, log).stage matches Stage::Finished(Err(_)) ==> files_after(files, log)
            == initial),
    decreases log.len(),
{
    if log.len() > 0 {
        lemma_apply_step(run, initial, files, log[0]);
        let next = run.next(log[0].event);
        let rest = log.skip(1);
        lemma_apply(next, initial, log[0].after, rest);
        if rest.len() > 0 {
            assert(rest.last() == log.last());
            assert(files_after(log[0].after, rest) == files_after(files, log));
        } else {
            assert(log.last() == log[0]);
            assert(run_after(next, rest) == next);
        }
    }
}

/// An apply changes no file but the managed `TrustedUserCAKeys` file, and that
/// holds either what it held before or all of the new content, at every moment
/// and whatever fails.
pub proof fn apply_leaves_old_or_new(run: OpRun, before: Files, log: Seq<Exchange>)
    requires
        apply_begins(run),
        can_go(run, before, log),
    ensures
        files_after(before, log) == before || files_after(before, log) == before.with(
            ManagedFile::TrustedCa,
            Some(run.body_bytes()),
        ),
{
    lemma_apply(run, before, before, log);
}

/// An apply that fails, for whatever reason, leaves the files exactly as they
/// were, unless restoring the previous file failed too.
pub proof fn failed_apply_rolls_back(run: OpRun, before: Files, log: Seq<Exchange>)
    requires
        apply_begins(run),
        can_go(run, before, log),
        run_after(run, log).stage matches Stage::Finished(Err(_)),
        !restore_fails(run, log),
    ensures
        files_after(before, log) == before,
{
    lemma_apply(run, before, before, log);
}

/// An apply that reports no change has made none, found the new content already
/// in place, and has neither written anything nor asked anything of `sshd`.
pub proof fn unmodified_means_untouched(run: OpRun, before: Files, log: Seq<Exchange>)
    requires
        apply_begins(run),
        can_go(run, before, log),
        run_after(run, log).stage == Stage::Finished(Ok(Outcome::NotModified)),
    ensures
        before.trusted_ca == Some(run.body_bytes()),
        files_after(before, log) == before,
        hands_off(run, log),
{
    lemma_apply(run, before, before, log);
    lemma_current_is_left_alone(run, before, before, log);
}

proof fn lemma_current_is_left_alone(run: OpRun, initial: Files, files: Files, log: Seq<Exchange>)
    requires
        apply_inv(run, initial, files),
        initial.trusted_ca == Some(run.body_bytes()),
        can_go(run, files, log),
    ensures
        hands_off(run, log),
        files_after(files, log) == files,
        run_after(run, log).stage matches Stage::Finished(Ok(outcome)) ==> outcome
            == Outcome::NotModified,
    decreases log.len(),
{
    if log.len() > 0 {
        lemma_apply_step(run, initial, files, log[0]);
        let rest = log.skip(1);
        lemma_current_is_left_alone(run.next(log[0].event), initial, log[0].after, rest);
        if rest.len() > 0 {
            assert(rest.last() == log.last());
        } else {
            assert(log.last() == log[0]);
        }
    }
}

/// Applying what is in place already writes nothing and asks nothing of `sshd`;
/// if it succeeds, it reports no change.
pub proof fn apply_of_current_content_is_a_no_op(run: OpRun, before: Files, log: Seq<Exchange>)
    requires
        apply_begins(run),
        before.trusted_ca == Some(run.body_bytes()),
        can_go(run, before, log),
    ensures
        hands_off(run, log),
        files_after(before, log) == before,
        run_after(run, log).stage matches Stage::Finished(Ok(outcome)) ==> outcome
            == Outcome::NotModified,
{
    lemma_current_is_left_alone(run, before, before, log);
}

/// A second apply of the same content after a successful first one writes nothing
/// and asks nothing of `sshd`; if it succeeds, it reports no change.
pub proof fn apply_is_idempotent(
    first: OpRun,
    before: Files,
    first_log: Seq<Exchange>,
    second: OpRun,
    second_log: Seq<Exchange>,
)
    requires
        apply_begins(first),
        can_go(first, before, first_log),
        run_after(first, first_log).stage matches Stage::Finished(Ok(_)),
        apply_begins(second),
        second.body@ == first.body@,
        can_go(second, files_after(before, first_log), second_log),
    ensures
        hands_off(second, second_log),
        files_after(files_after(before, first_log), second_log) == files_after(before, first_log),
        run_after(second, second_log).stage matches Stage::Finished(Ok(outcome)) ==> outcome
            == Outcome::NotModified,
{
    lemma_apply(first, before, before, first_log);
    apply_of_current_content_is_a_no_op(second, files_after(before, first_log), second_log);
}

/// Content that is no `TrustedUserCAKeys` file is refused before anything is
/// done: the run has finished, with the reason, and asks for nothing.
pub proof fn unparseable_content_is_refused(run: OpRun, content: Seq<char>)
    requires
        trusted_ca::parsed_file(content) is Err,
        run.begins(
            Goal::ApplyTrustedCaKeys,
            run.owner,
            run.has_trusted_ca_dir,
            run.has_dropin_dir,
            content,
            OpRun::apply_stage(run.has_trusted_ca_dir, run.has_dropin_dir, content),
        ),
    ensures
        run.stage == Stage::Finished(
            Err(
                Error::InvalidTrustedCa(
                    trusted_ca::parsed_file(content)->Err_0,
                ),
            ),
        ),
        run.pending() is None,
{
}

/// Whether `log` ends with a successful write of what is to be written to `file`
/// and, after it, with `sshd` accepting the configuration, reloading, and being
/// active, in this order.
pub open spec fn commits(run: OpRun, log: Seq<Exchange>, file: ManagedFile) -> bool
    decreases log.len(),
{
    if log.len() == 4 && run.pending() == Some(Action::Write(file, MODE_PUBLIC)) {
        let validating = run.next(log[0].event);
        let reloading = validating.next(log[1].event);
        let probing = reloading.next(log[2].event);
        &&& log[0].event matches Event::Wrote(Ok(_))
        &&& validating.pending() == Some(Action::Sshd(SshdCheck::ValidateConfig))
        &&& log[1].event matches Event::Checked(Ok(_))
        &&& reloading.pending() == Some(Action::Sshd(SshdCheck::Reload))
        &&& log[2].event matches Event::Checked(Ok(_))
        &&& probing.pending() == Some(Action::Sshd(SshdCheck::IsActive))
        &&& log[3].event matches Event::Checked(Ok(_))
    } else {
        log.len() > 4 && commits(run.next(log[0].event), log.skip(1), file)
    }
}

/// From a check on, success takes all the remaining checks and nothing else.
proof fn lemma_checks_pass(run: OpRun, files: Files, log: Seq<Exchange>, check: SshdCheck)
    requires
        run.stage == Stage::Check(check),
        can_go(run, files, log),
        run_after(run, log).stage matches Stage::Finished(Ok(_)),
    ensures
        run.goal != Goal::VerifyState ==> log.len() == check_rank(check),
        forall|i: int|
            0 <= i < log.len() ==> ((#[trigger] log[i]).event matches Event::Checked(Ok(_))),
        forall|i: int| 0 <= i < log.len() ==> (#[trigger] log[i]).after == files,
    decreases log.len(),
{
    assert(log.len() > 0);
    let next = run.next(log[0].event);
    let rest = log.skip(1);
    if let Stage::Check(following) = next.stage {
        lemma_checks_pass(next, log[0].after, rest, following);
    } else {
        if let Stage::Restore(e) = next.stage {
            lemma_restoration_fails(next, log[0].after, rest);
        }
        lemma_finished_is_the_end(next, log[0].after, rest);
        assert(run_after(next, rest) == next);
    }
    assert forall|i: int| 0 <= i < log.len() implies ((
    #[trigger] log[i]).event matches Event::Checked(Ok(_))) && log[i].after == files by {
        if i > 0 {
            assert(rest[i - 1] == log[i]);
        }
    }
}

/// Nothing follows the end of a run.
proof fn lemma_finished_is_the_end(run: OpRun, files: Files, log: Seq<Exchange>)
    requires
        can_go(run, files, log),
    ensures
        run.stage is Finished ==> log.len() == 0,
{
}

/// A run that has begun to restore the previous file cannot succeed any more.
proof fn lemma_restoration_fails(run: OpRun, files: Files, log: Seq<Exchange>)
    requires
        run.stage is Restore || run.stage is RestoreCheck || run.stage matches Stage::Finished(
            Err(_),
        ),
        can_go(run, files, log),
    ensures
        !(run_after(run, log).stage matches Stage::Finished(Ok(_))),
    decreases log.len(),
{
    if log.len() > 0 {
        lemma_restoration_fails(run.next(log[0].event), log[0].after, log.skip(1));
    }
}

/// Whether a run is on the way to writing `file`, or has ended without doing so.
spec fn before_write(run: OpRun, file: ManagedFile) -> bool {
    ||| run.stage is DirExists
    ||| run.stage is DirCreate
    ||| run.stage is DirStat
    ||| run.stage is DirMode
    ||| file == ManagedFile::TrustedCa && (run.stage is StatTrustedCa || run.stage is ReadTrustedCa
        || run.stage is WriteTrustedCa)
    ||| file == ManagedFile::Dropin && (run.stage is ReadMainConfig || run.stage is ReadDropin
        || run.stage is StatDropin || run.stage is WriteDropin)
    ||| run.stage matches Stage::Finished(Err(_))
    ||| run.stage == Stage::Finished(Ok(Outcome::NotModified))
}

spec fn writes(goal: Goal, file: ManagedFile) -> bool {
    ||| goal == Goal::ApplyTrustedCaKeys && file == ManagedFile::TrustedCa
    ||| goal == Goal::InstallSshdDropin && file == ManagedFile::Dropin
}

proof fn lemma_success_commits(run: OpRun, files: Files, log: Seq<Exchange>, file: ManagedFile)
    requires
        writes(run.goal, file),
        before_write(run, file),
        can_go(run, files, log),
        run_after(run, log).stage == Stage::Finished(Ok(run::outcome_of(run.goal))),
    ensures
        commits(run, log, file),
        files_after(files, log).file(file) == Some(run.body_bytes()),
    decreases log.len(),
{
    assert(log.len() > 0);
    let next = run.next(log[0].event);
    let rest = log.skip(1);
    if run.stage is WriteTrustedCa || run.stage is WriteDropin {
        if next.stage is Restore || next.stage matches Stage::Finished(Err(_)) {
            lemma_restoration_fails(next, log[0].after, rest);
        }
        lemma_checks_pass(next, log[0].after, rest, SshdCheck::ValidateConfig);
        assert(rest.len() == 3);
        assert(log[1] == rest[0] && log[2] == rest[1] && log[3] == rest[2]);
    } else {
        lemma_success_commits(next, log[0].after, rest, file);
        lemma_commits_is_long(next, rest, file);
        assert(log.last() == rest.last());
    }
}

proof fn lemma_commits_is_long(run: OpRun, log: Seq<Exchange>, file: ManagedFile)
    requires
        commits(run, log, file),
    ensures
        log.len() >= 4,
{
}

/// An apply that reports success has written the new content, and after that
/// `sshd` has accepted the configuration, reloaded it, and been found active.
pub proof fn applied_means_written_and_healthy(run: OpRun, before: Files, log: Seq<Exchange>)
    requires
        apply_begins(run),
        can_go(run, before, log),
        run_after(run, log).stage == Stage::Finished(Ok(Outcome::Applied)),
    ensures
        files_after(before, log) == before.with(
            ManagedFile::TrustedCa,
            Some(run.body_bytes()),
        ),
        commits(run, log, ManagedFile::TrustedCa),
{
    lemma_apply(run, before, before, log);
    lemma_success_commits(run, before, log, ManagedFile::TrustedCa);
}

/// The host is never left with a `TrustedUserCAKeys` file that `sshd` rejected:
/// when an apply has ended, and restoring the previous file has not failed, the
/// file is the one that was there before, or it was written successfully and
/// `sshd` has accepted, loaded and survived it since.
pub proof fn host_is_never_left_rejected(run: OpRun, before: Files, log: Seq<Exchange>)
    requires
        apply_begins(run),
        can_go(run, before, log),
        run_after(run, log).stage is Finished,
        !restore_fails(run, log),
    ensures
        files_after(before, log) == before || commits(run, log, ManagedFile::TrustedCa),
{
    lemma_apply(run, before, before, log);
    if run_after(run, log).stage == Stage::Finished(Ok(Outcome::Applied)) {
        lemma_success_commits(run, before, log, ManagedFile::TrustedCa);
    }
}

/// Once the previous file has been restored, or removed again if there was none,
/// `sshd` is asked to validate it, then
/// to reload, then whether it is active, each time unless the step before failed;
/// the run ends with the error that made the restoration necessary, whatever
/// `sshd` answers.
pub proof fn rollback_reloads(run: OpRun, error: Error, event: Event)
    requires
        run.goal == Goal::ApplyTrustedCaKeys,
        run.stage == Stage::RestoreCheck(SshdCheck::ValidateConfig, error) || run.stage
            == Stage::RestoreCheck(SshdCheck::Reload, error) || run.stage == Stage::RestoreCheck(
            SshdCheck::IsActive,
            error,
        ) || run.stage == Stage::Restore(error),
        run.answered_by(event),
    ensures
        ({
            let next = run.next(event);
            &&& match (run.stage, event) {
                (Stage::Restore(_), Event::Wrote(Ok(()))) => next.stage == Stage::RestoreCheck(
                    SshdCheck::ValidateConfig,
                    error,
                ),
                (Stage::Restore(_), Event::Done(Attempt::Done(_))) => next.stage
                    == Stage::RestoreCheck(SshdCheck::ValidateConfig, error),
                (Stage::Restore(_), Event::Done(Attempt::Missing(_))) => next.stage
                    == Stage::RestoreCheck(SshdCheck::ValidateConfig, error),
                (Stage::RestoreCheck(SshdCheck::ValidateConfig, _), Event::Checked(Ok(()))) => {
                    next.stage == Stage::RestoreCheck(SshdCheck::Reload, error)
                },
                (Stage::RestoreCheck(SshdCheck::Reload, _), Event::Checked(Ok(()))) => {
                    next.stage == Stage::RestoreCheck(SshdCheck::IsActive, error)
                },
                _ => next.stage == Stage::Finished(Err(error)),
            }
            &&& match next.stage {
                Stage::Finished(result) => result == Err::<Outcome, Error>(error),
                Stage::RestoreCheck(_, e) => e == error,
                _ => false,
            }
        }),
{
}

// ---------------------------------------------------------------------------
// Directories
// ---------------------------------------------------------------------------

/// Whether, somewhere in `log`, the directory was found to be safe.
pub open spec fn found_safe(run: OpRun, log: Seq<Exchange>, dir: ManagedDir) -> bool
    decreases log.len(),
{
    log.len() > 0 && {
        ||| {
            &&& run.pending() == Some(Action::LstatDir(dir))
            &&& log[0].event matches Event::Stat(stat)
            &&& security::managed_dir_verdict(stat, run.owner) is Ok
        }
        ||| found_safe(run.next(log[0].event), log.skip(1), dir)
    }
}

/// Whether, somewhere in `log`, the directory was given the mode of managed
/// directories.
pub open spec fn mode_set(run: OpRun, log: Seq<Exchange>, dir: ManagedDir) -> bool
    decreases log.len(),
{
    log.len() > 0 && {
        ||| {
            &&& run.pending() == Some(Action::SetDirMode(dir, run::DIR_MODE))
            &&& log[0].event matches Event::Done(Attempt::Done(_))
        }
        ||| mode_set(run.next(log[0].event), log.skip(1), dir)
    }
}

/// Whether a run is still occupied with the managed directories, or failed.
pub open spec fn dirs_unsettled(run: OpRun) -> bool {
    ||| run.stage is DirExists
    ||| run.stage is DirCreate
    ||| run.stage is DirStat
    ||| run.stage is DirMode
    ||| run.stage matches Stage::Finished(Err(_))
}

/// Whether a run is occupied with this very directory, and with which part of
/// it: 0 for all of it, 1 from the `lstat` on, 2 for setting its mode.
spec fn dir_part(run: OpRun, dir: ManagedDir) -> int {
    match run.stage {
        Stage::DirExists(d) => if d == dir { 0 } else { 3 },
        Stage::DirCreate(d) => if d == dir { 0 } else { 3 },
        Stage::DirStat(d) => if d == dir { 1 } else { 3 },
        Stage::DirMode(d) => if d == dir { 2 } else { 3 },
        _ => 3,
    }
}

proof fn lemma_dir(run: OpRun, files: Files, log: Seq<Exchange>, dir: ManagedDir)
    requires
        can_go(run, files, log),
        !dirs_unsettled(run_after(run, log)),
        dir_part(run, dir) < 3,
    ensures
        dir_part(run, dir) <= 1 ==> found_safe(run, log, dir),
        mode_set(run, log, dir),
    decreases log.len(),
{
    assert(log.len() > 0);
    let next = run.next(log[0].event);
    let rest = log.skip(1);
    if next.stage is Finished {
        lemma_finished_is_the_end(next, log[0].after, rest);
        assert(run_after(next, rest) == next);
    } else if dir_part(next, dir) < 3 {
        lemma_dir(next, log[0].after, rest, dir);
    }
}

proof fn lemma_dropin_dir(run: OpRun, files: Files, log: Seq<Exchange>)
    requires
        can_go(run, files, log),
        !dirs_unsettled(run_after(run, log)),
        run.has_dropin_dir,
        dir_part(run, ManagedDir::TrustedCa) < 3,
    ensures
        found_safe(run, log, ManagedDir::Dropin),
        mode_set(run, log, ManagedDir::Dropin),
    decreases log.len(),
{
    assert(log.len() > 0);
    let next = run.next(log[0].event);
    let rest = log.skip(1);
    if next.stage is Finished {
        lemma_finished_is_the_end(next, log[0].after, rest);
        assert(run_after(next, rest) == next);
    } else if dir_part(next, ManagedDir::TrustedCa) < 3 {
        lemma_dropin_dir(next, log[0].after, rest);
    } else {
        lemma_dir(next, log[0].after, rest, ManagedDir::Dropin);
    }
}

/// No operation but verification gets past the managed directories before each of
/// them was found to be no symlink and owned by the expected user or root, and
/// was given its mode. In particular, none of them writes a file before that.
pub proof fn directories_come_first(run: OpRun, before: Files, log: Seq<Exchange>)
    requires
        run.goal != Goal::VerifyState,
        run.stage == run::first_stage(run.goal, run.has_trusted_ca_dir, run.has_dropin_dir),
        can_go(run, before, log),
        !dirs_unsettled(run_after(run, log)),
    ensures
        run.has_trusted_ca_dir ==> {
            &&& found_safe(run, log, ManagedDir::TrustedCa)
            &&& mode_set(run, log, ManagedDir::TrustedCa)
        },
        run.has_dropin_dir ==> {
            &&& found_safe(run, log, ManagedDir::Dropin)
            &&& mode_set(run, log, ManagedDir::Dropin)
        },
{
    if run.has_trusted_ca_dir {
        lemma_dir(run, before, log, ManagedDir::TrustedCa);
        if run.has_dropin_dir {
            lemma_dropin_dir(run, before, log);
        }
    } else if run.has_dropin_dir {
        lemma_dir(run, before, log, ManagedDir::Dropin);
    }
}

/// Whether a run with this goal can be at this stage without having written
/// anything.
spec fn looks_only(run: OpRun) -> bool {
    match run.goal {
        Goal::EnsureDirectories => dirs_unsettled(run) || run.stage == Stage::Finished(
            Ok(Outcome::Success),
        ),
        Goal::VerifyState => {
            ||| run.stage is VerifyReadDropin
            ||| run.stage is VerifyStatDropin
            ||| run.stage is VerifyReadTrustedCa
            ||| run.stage is VerifyStatTrustedCa
            ||| run.stage == Stage::Check(SshdCheck::ValidateConfig)
            ||| run.stage == Stage::Check(SshdCheck::IsActive)
            ||| run.stage matches Stage::Finished(Err(_))
            ||| run.stage == Stage::Finished(Ok(Outcome::Success))
        },
        _ => false,
    }
}

/// Whether every action that `run` asks for along `log`, and at its end, leaves
/// the managed files and the running `sshd` alone.
pub open spec fn changes_nothing(run: OpRun, log: Seq<Exchange>) -> bool
    decreases log.len(),
{
    &&& !(run.pending() matches Some(Action::Write(_, _)))
    &&& !(run.pending() matches Some(Action::Remove(_)))
    &&& run.pending() != Some(Action::Sshd(SshdCheck::Reload))
    &&& log.len() > 0 ==> changes_nothing(run.next(log[0].event), log.skip(1))
}

proof fn lemma_looks_only(run: OpRun, files: Files, log: Seq<Exchange>)
    requires
        looks_only(run),
        can_go(run, files, log),
    ensures
        changes_nothing(run, log),
        files_after(files, log) == files,
        looks_only(run_after(run, log)),
        run_after(run, log).goal == run.goal,
    decreases log.len(),
{
    if log.len() > 0 {
        let rest = log.skip(1);
        lemma_looks_only(run.next(log[0].event), log[0].after, rest);
        if rest.len() > 0 {
            assert(rest.last() == log.last());
        } else {
            assert(log.last() == log[0]);
        }
    }
}

/// Seeing to the directories, and verifying, write and remove no file and never
/// reload `sshd`.
pub proof fn looking_changes_nothing(run: OpRun, before: Files, log: Seq<Exchange>)
    requires
        run.goal == Goal::EnsureDirectories || run.goal == Goal::VerifyState,
        run.stage == run::first_stage(run.goal, run.has_trusted_ca_dir, run.has_dropin_dir),
        can_go(run, before, log),
    ensures
        changes_nothing(run, log),
        files_after(before, log) == before,
{
    lemma_looks_only(run, before, log);
}

// ---------------------------------------------------------------------------
// Drop-in
// ---------------------------------------------------------------------------

/// Whether the main config is there and `Include`s the drop-in directory.
pub open spec fn includes_dropin(files: Files) -> bool {
    files.main_config matches Some(bytes) && run::text_of(bytes) matches Ok(config)
        && sshd_config::some_line_includes(
        text::lines(config),
        sshd_config::DROPIN_DIR@,
    )
}

/// Whether the drop-in is there and current.
pub open spec fn dropin_is_current(files: Files, desired: Seq<char>) -> bool {
    files.dropin matches Some(bytes) && run::dropin_verdict(bytes, desired) is Ok
}

/// What holds of the files at each stage of an installation that found
/// `initial`.
spec fn install_inv(run: OpRun, initial: Files, files: Files) -> bool {
    let new = initial.with(ManagedFile::Dropin, Some(run.body_bytes()));
    &&& run.goal == Goal::InstallSshdDropin
    &&& match run.stage {
        Stage::DirExists(_) => files == initial,
        Stage::DirCreate(_) => files == initial,
        Stage::DirStat(_) => files == initial,
        Stage::DirMode(_) => files == initial,
        Stage::ReadMainConfig => files == initial,
        Stage::ReadDropin => files == initial && includes_dropin(initial),
        Stage::StatDropin => {
            &&& files == initial
            &&& includes_dropin(initial)
            &&& !dropin_is_current(initial, run.body@)
        },
        Stage::WriteDropin => {
            &&& files == initial
            &&& includes_dropin(initial)
            &&& !dropin_is_current(initial, run.body@)
        },
        Stage::Check(_) => {
            &&& files == new
            &&& includes_dropin(initial)
            &&& !dropin_is_current(initial, run.body@)
        },
        Stage::Finished(Ok(Outcome::Success)) => {
            &&& files == new
            &&& includes_dropin(initial)
            &&& !dropin_is_current(initial, run.body@)
        },
        Stage::Finished(Ok(Outcome::NotModified)) => {
            &&& files == initial
            &&& includes_dropin(initial)
            &&& dropin_is_current(initial, run.body@)
        },
        Stage::Finished(Ok(_)) => false,
        Stage::Finished(Err(_)) => {
            ||| files == initial
            ||| files == new && includes_dropin(initial) && !dropin_is_current(
                initial,
                run.body@,
            )
        },
        _ => false,
    }
}

proof fn lemma_install(run: OpRun, initial: Files, files: Files, log: Seq<Exchange>)
    requires
        install_inv(run, initial, files),
        can_go(run, files, log),
    ensures
        install_inv(run_after(run, log), initial, files_after(files, log)),
        run_after(run, log).body == run.body,
    decreases log.len(),
{
    if log.len() > 0 {
        let next = run.next(log[0].event);
        let rest = log.skip(1);
        assert(install_inv(next, initial, log[0].after));
        lemma_install(next, initial, log[0].after, rest);
        if rest.len() > 0 {
            assert(rest.last() == log.last());
        } else {
            assert(log.last() == log[0]);
        }
    }
}

proof fn lemma_install_hands_off(run: OpRun, initial: Files, files: Files, log: Seq<Exchange>)
    requires
        install_inv(run, initial, files),
        !includes_dropin(initial) || dropin_is_current(initial, run.body@),
        can_go(run, files, log),
    ensures
        hands_off(run, log),
        files_after(files, log) == files,
    decreases log.len(),
{
    if log.len() > 0 {
        let next = run.next(log[0].event);
        let rest = log.skip(1);
        assert(install_inv(next, initial, log[0].after));
        lemma_install_hands_off(next, initial, log[0].after, rest);
        if rest.len() > 0 {
            assert(rest.last() == log.last());
        } else {
            assert(log.last() == log[0]);
        }
    }
}

/// Installing the drop-in changes no file but the drop-in, and that is as it was
/// before or holds all of the rendered text, at every moment.
pub proof fn install_leaves_old_or_new(run: OpRun, before: Files, log: Seq<Exchange>)
    requires
        install_begins(run),
        can_go(run, before, log),
    ensures
        files_after(before, log) == before || files_after(before, log) == before.with(
            ManagedFile::Dropin,
            Some(run.body_bytes()),
        ),
{
    lemma_install(run, before, before, log);
}

/// Where the main config does not `Include` the drop-in directory, nothing is
/// written, nothing is asked of `sshd`, and the installation cannot succeed.
pub proof fn inert_dropin_is_refused(run: OpRun, before: Files, log: Seq<Exchange>)
    requires
        install_begins(run),
        !includes_dropin(before),
        can_go(run, before, log),
    ensures
        hands_off(run, log),
        files_after(before, log) == before,
        !(run_after(run, log).stage matches Stage::Finished(Ok(_))),
{
    lemma_install(run, before, before, log);
    lemma_install_hands_off(run, before, before, log);
}

/// An installation that reports success has written the drop-in, and after that
/// `sshd` has accepted the configuration, reloaded it, and been found active.
pub proof fn installed_means_written_and_healthy(run: OpRun, before: Files, log: Seq<Exchange>)
    requires
        install_begins(run),
        can_go(run, before, log),
        run_after(run, log).stage == Stage::Finished(Ok(Outcome::Success)),
    ensures
        includes_dropin(before),
        files_after(before, log) == before.with(ManagedFile::Dropin, Some(run.body_bytes())),
        commits(run, log, ManagedFile::Dropin),
{
    lemma_install(run, before, before, log);
    lemma_success_commits(run, before, log, ManagedFile::Dropin);
}

/// A drop-in that holds the rendered text is current.
pub proof fn installed_dropin_is_current(body: Seq<char>)
    ensures
        run::dropin_verdict(vstd::utf8::encode_utf8(body), body) is Ok,
{
    broadcast use {vstd::utf8::encode_utf8_valid_utf8, vstd::utf8::encode_utf8_decode_utf8};

    assert(vstd::utf8::decode_utf8(vstd::utf8::encode_utf8(body)) == body);
}

/// Installing a drop-in that is current already writes nothing and asks nothing
/// of `sshd`; if it succeeds, it reports no change.
pub proof fn install_of_current_dropin_is_a_no_op(run: OpRun, before: Files, log: Seq<Exchange>)
    requires
        install_begins(run),
        dropin_is_current(before, run.body@),
        can_go(run, before, log),
    ensures
        hands_off(run, log),
        files_after(before, log) == before,
        run_after(run, log).stage matches Stage::Finished(Ok(outcome)) ==> outcome
            == Outcome::NotModified,
{
    lemma_install(run, before, before, log);
    lemma_install_hands_off(run, before, before, log);
}

/// A second installation after a successful first one writes nothing and asks
/// nothing of `sshd`; if it succeeds, it reports no change.
pub proof fn install_is_idempotent(
    first: OpRun,
    before: Files,
    first_log: Seq<Exchange>,
    second: OpRun,
    second_log: Seq<Exchange>,
)
    requires
        install_begins(first),
        can_go(first, before, first_log),
        run_after(first, first_log).stage matches Stage::Finished(Ok(_)),
        install_begins(second),
        second.body@ == first.body@,
        can_go(second, files_after(before, first_log), second_log),
    ensures
        hands_off(second, second_log),
        files_after(files_after(before, first_log), second_log) == files_after(before, first_log),
        run_after(second, second_log).stage matches Stage::Finished(Ok(outcome)) ==> outcome
            == Outcome::NotModified,
{
    lemma_install(first, before, before, first_log);
    installed_dropin_is_current(first.body@);
    install_of_current_dropin_is_a_no_op(second, files_after(before, first_log), second_log);
}

// ---------------------------------------------------------------------------
// Verification
// ---------------------------------------------------------------------------

/// Whether, somewhere in `log`, the file was found to be safe.
pub open spec fn found_safe_file(run: OpRun, log: Seq<Exchange>, file: ManagedFile) -> bool
    decreases log.len(),
{
    log.len() > 0 && {
        ||| {
            &&& run.pending() == Some(Action::Lstat(file))
            &&& log[0].event matches Event::Stat(stat)
            &&& security::managed_file_verdict(stat, run.owner) is Ok
        }
        ||| found_safe_file(run.next(log[0].event), log.skip(1), file)
    }
}

/// Whether, somewhere in `log`, `sshd` passed the check.
pub open spec fn passed(run: OpRun, log: Seq<Exchange>, check: SshdCheck) -> bool
    decreases log.len(),
{
    log.len() > 0 && {
        ||| {
            &&& run.pending() == Some(Action::Sshd(check))
            &&& log[0].event matches Event::Checked(Ok(_))
        }
        ||| passed(run.next(log[0].event), log.skip(1), check)
    }
}

proof fn lemma_verified(run: OpRun, files: Files, log: Seq<Exchange>)
    requires
        run.goal == Goal::VerifyState,
        looks_only(run),
        !(run.stage matches Stage::Finished(_)),
        can_go(run, files, log),
        run_after(run, log).stage matches Stage::Finished(Ok(_)),
    ensures
        passed(run, log, SshdCheck::IsActive),
        run.stage != Stage::Check(SshdCheck::IsActive) ==> passed(
            run,
            log,
            SshdCheck::ValidateConfig,
        ),
        run.stage is VerifyStatTrustedCa ==> found_safe_file(run, log, ManagedFile::TrustedCa),
        run.stage is VerifyReadDropin || run.stage is VerifyStatDropin || run.stage
            is VerifyReadTrustedCa ==> (files.trusted_ca is Some ==> found_safe_file(
            run,
            log,
            ManagedFile::TrustedCa,
        )),
        run.stage matches Stage::VerifyStatDropin(verdict) ==> verdict is Ok && found_safe_file(
            run,
            log,
            ManagedFile::Dropin,
        ),
        run.stage is VerifyReadDropin ==> (files.dropin is Some ==> dropin_is_current(
            files,
            run.body@,
        ) && found_safe_file(run, log, ManagedFile::Dropin)),
    decreases log.len(),
{
    assert(log.len() > 0);
    let next = run.next(log[0].event);
    let rest = log.skip(1);
    if next.stage is Finished {
        lemma_finished_is_the_end(next, log[0].after, rest);
        assert(run_after(next, rest) == next);
    } else {
        lemma_verified(next, log[0].after, rest);
    }
}

/// A verification that succeeds has found each managed file that exists to be no
/// symlink, not writable by group or other, and owned by the expected user or
/// root; the drop-in, if it exists, to be current; and `sshd` to accept its
/// configuration and to be active.
pub proof fn verified_means_healthy(run: OpRun, before: Files, log: Seq<Exchange>)
    requires
        run.goal == Goal::VerifyState,
        run.stage == Stage::VerifyReadDropin,
        can_go(run, before, log),
        run_after(run, log).stage matches Stage::Finished(Ok(_)),
    ensures
        before.dropin is Some ==> dropin_is_current(before, run.body@) && found_safe_file(
            run,
            log,
            ManagedFile::Dropin,
        ),
        before.trusted_ca is Some ==> found_safe_file(run, log, ManagedFile::TrustedCa),
        passed(run, log, SshdCheck::ValidateConfig),
        passed(run, log, SshdCheck::IsActive),
{
    lemma_verified(run, before, log);
}

// ---------------------------------------------------------------------------
// Success
// ---------------------------------------------------------------------------

/// Whether an answer is a good one: nothing failed, what was looked at is safe,
/// and `sshd` passed the check. A file that is read, or that is only looked at
/// before it is replaced, may be missing.
pub open spec fn good_answer(run: OpRun, event: Event) -> bool {
    match event {
        Event::Exists(_) => true,
        Event::Done(attempt) => attempt is Done,
        Event::Stat(stat) => match run.stage {
            Stage::DirStat(_) => security::managed_dir_verdict(stat, run.owner) is Ok,
            Stage::VerifyStatDropin(_) => security::managed_file_verdict(stat, run.owner) is Ok,
            Stage::VerifyStatTrustedCa => security::managed_file_verdict(stat, run.owner) is Ok,
            _ => security::not_symlink_verdict(stat) is Ok,
        },
        Event::Contents(contents) => !(contents is Failed),
        Event::Wrote(result) => result is Ok,
        Event::Checked(result) => result is Ok,
    }
}

/// Whether all answers of `log` are good ones.
pub open spec fn all_good(run: OpRun, log: Seq<Exchange>) -> bool
    decreases log.len(),
{
    log.len() > 0 ==> good_answer(run, log[0].event) && all_good(
        run.next(log[0].event),
        log.skip(1),
    )
}

/// What the files must be like for an operation to have a chance: to install the
/// drop-in, the main config `Include`s its directory and a drop-in that exists is
/// text; to verify, a drop-in that exists is current.
pub open spec fn fit_for(goal: Goal, files: Files, body: Seq<char>) -> bool {
    match goal {
        Goal::EnsureDirectories => true,
        Goal::InstallSshdDropin => includes_dropin(files) && (files.dropin matches Some(bytes)
            ==> run::text_of(bytes) is Ok),
        Goal::ApplyTrustedCaKeys => true,
        Goal::VerifyState => files.dropin is Some ==> dropin_is_current(files, body),
    }
}

/// Whether a run on a fit host is on course.
spec fn on_course(run: OpRun, files: Files) -> bool {
    match run.stage {
        Stage::DirExists(_) => fit_for(run.goal, files, run.body@),
        Stage::DirCreate(_) => fit_for(run.goal, files, run.body@),
        Stage::DirStat(_) => fit_for(run.goal, files, run.body@),
        Stage::DirMode(_) => fit_for(run.goal, files, run.body@),
        Stage::ReadMainConfig => run.goal == Goal::InstallSshdDropin && fit_for(
            run.goal,
            files,
            run.body@,
        ),
        Stage::ReadDropin => run.goal == Goal::InstallSshdDropin && fit_for(
            run.goal,
            files,
            run.body@,
        ),
        Stage::VerifyReadDropin => run.goal == Goal::VerifyState && fit_for(
            run.goal,
            files,
            run.body@,
        ),
        Stage::VerifyStatDropin(verdict) => verdict is Ok,
        Stage::Restore(_) => false,
        Stage::RestoreCheck(_, _) => false,
        Stage::Finished(Err(_)) => false,
        _ => true,
    }
}

proof fn lemma_on_course(run: OpRun, files: Files, log: Seq<Exchange>)
    requires
        on_course(run, files),
        can_go(run, files, log),
        all_good(run, log),
    ensures
        !(run_after(run, log).stage matches Stage::Finished(Err(_))),
        run_after(run, log).goal == run.goal,
    decreases log.len(),
{
    if log.len() > 0 {
        let next = run.next(log[0].event);
        assert(on_course(next, log[0].after));
        lemma_on_course(next, log[0].after, log.skip(1));
    }
}

/// Success is owed: on a host whose files are fit for the operation, and which
/// gives nothing but good answers, an operation that has ended has succeeded. It
/// reports no change if and only if there was nothing to change.
pub proof fn operations_succeed_on_a_fit_host(run: OpRun, before: Files, log: Seq<Exchange>)
    requires
        run.previous is None,
        run.stage == run::first_stage(run.goal, run.has_trusted_ca_dir, run.has_dropin_dir),
        fit_for(run.goal, before, run.body@),
        can_go(run, before, log),
        all_good(run, log),
        run_after(run, log).stage is Finished,
    ensures
        run_after(run, log).stage == Stage::Finished(
            Ok(
                match run.goal {
                    Goal::EnsureDirectories => Outcome::Success,
                    Goal::InstallSshdDropin => if dropin_is_current(before, run.body@) {
                        Outcome::NotModified
                    } else {
                        Outcome::Success
                    },
                    Goal::ApplyTrustedCaKeys => if before.trusted_ca == Some(run.body_bytes()) {
                        Outcome::NotModified
                    } else {
                        Outcome::Applied
                    },
                    Goal::VerifyState => Outcome::Success,
                },
            ),
        ),
{
    lemma_on_course(run, before, log);
    match run.goal {
        Goal::EnsureDirectories => lemma_looks_only(run, before, log),
        Goal::InstallSshdDropin => lemma_install(run, before, before, log),
        Goal::ApplyTrustedCaKeys => lemma_apply(run, before, before, log),
        Goal::VerifyState => lemma_looks_only(run, before, log),
    }
}

// ---------------------------------------------------------------------------
// What the outcomes mean
// ---------------------------------------------------------------------------

/// An apply that has ended well says what it did: it reports no change exactly if
/// the new content was in place before, and that it was applied otherwise; either
/// way the file holds the new content now.
pub proof fn finished_apply_says_what_it_did(run: OpRun, before: Files, log: Seq<Exchange>)
    requires
        apply_begins(run),
        can_go(run, before, log),
    ensures
        run_after(run, log).stage matches Stage::Finished(Ok(outcome)) ==> {
            &&& outcome == if before.trusted_ca == Some(run.body_bytes()) {
                Outcome::NotModified
            } else {
                Outcome::Applied
            }
            &&& files_after(before, log) == before.with(
                ManagedFile::TrustedCa,
                Some(run.body_bytes()),
            )
        },
{
    lemma_apply(run, before, before, log);
}

/// An installation that has ended well says what it did: it reports no change
/// exactly if the drop-in was current before, and then has made none; otherwise it
/// reports success, and the drop-in holds the rendered text now.
pub proof fn finished_install_says_what_it_did(run: OpRun, before: Files, log: Seq<Exchange>)
    requires
        install_begins(run),
        can_go(run, before, log),
    ensures
        run_after(run, log).stage matches Stage::Finished(Ok(outcome)) ==> {
            &&& includes_dropin(before)
            &&& if dropin_is_current(before, run.body@) {
                outcome == Outcome::NotModified && files_after(before, log) == before
            } else {
                outcome == Outcome::Success && files_after(before, log) == before.with(
                    ManagedFile::Dropin,
                    Some(run.body_bytes()),
                )
            }
        },
{
    lemma_install(run, before, before, log);
}

/// A verification that has ended well reports success.
pub proof fn finished_verification_says_success(run: OpRun, before: Files, log: Seq<Exchange>)
    requires
        run.goal == Goal::VerifyState,
        run.stage == Stage::VerifyReadDropin,
        can_go(run, before, log),
    ensures
        run_after(run, log).stage matches Stage::Finished(Ok(outcome)) ==> outcome
            == Outcome::Success,
{
    lemma_looks_only(run, before, log);
}

/// Only an installation and an apply write or remove a file: the one the drop-in
/// and the other the `TrustedUserCAKeys` file. What they write is their body, or,
/// in a restoration, what the file held before.
pub proof fn written_file_is_the_goals(run: OpRun, before: Files, log: Seq<Exchange>)
    requires
        run.previous is None,
        run.stage == run::first_stage(run.goal, run.has_trusted_ca_dir, run.has_dropin_dir)
            || run.stage is Finished,
        can_go(run, before, log),
    ensures
        run_after(run, log).pending() matches Some(Action::Write(file, mode)) ==> {
            &&& file == ManagedFile::Dropin && run.goal == Goal::InstallSshdDropin || file
                == ManagedFile::TrustedCa && run.goal == Goal::ApplyTrustedCaKeys
            &&& mode == 0o644
            &&& run_after(run, log).payload_bytes() == run.body_bytes() || (run.goal
                == Goal::ApplyTrustedCaKeys && before.trusted_ca == Some(
                run_after(run, log).payload_bytes(),
            ))
        },
        run_after(run, log).pending() matches Some(Action::Remove(file)) ==> file
            == ManagedFile::TrustedCa && run.goal == Goal::ApplyTrustedCaKeys
            && before.trusted_ca is None,
{
    if run.stage is Finished {
        lemma_finished_is_the_end(run, before, log);
        assert(run_after(run, log) == run);
    } else {
        match run.goal {
            Goal::EnsureDirectories => lemma_looks_only(run, before, log),
            Goal::InstallSshdDropin => lemma_install(run, before, before, log),
            Goal::ApplyTrustedCaKeys => lemma_apply(run, before, before, log),
            Goal::VerifyState => lemma_looks_only(run, before, log),
        }
    }
}

// ---------------------------------------------------------------------------
// Replies
// ---------------------------------------------------------------------------

/// Whether a detail is one of a closed set of fixed texts: an error's, or one of
/// the few that answer a request before anything is done.
pub open spec fn fixed_detail(detail: Seq<char>) -> bool {
    ||| exists|e: Error| detail == #[trigger] e.text()
    ||| detail == "missing content"@
    ||| detail == "protocol error"@
    ||| detail == "unsupported protocol version"@
    ||| detail == "unauthenticated"@
    ||| detail == "peer not authorized"@
    ||| detail == "peer credentials unavailable"@
}

/// Whether a reply holds no text but fixed ones.
pub open spec fn fixed_reply(reply: Reply) -> bool {
    &&& reply.detail matches Some(detail) ==> fixed_detail(detail)
    &&& reply.helper_version matches Some(version) ==> version == HELPER_VERSION@
}

/// Whether nothing in a reply looks like a path.
pub open spec fn path_free(reply: Reply) -> bool {
    &&& reply.detail matches Some(detail) ==> !detail.contains('/')
    &&& reply.helper_version matches Some(version) ==> !version.contains('/')
}

/// No fixed text contains a path.
pub proof fn fixed_replies_are_path_free(reply: Reply)
    requires
        fixed_reply(reply),
    ensures
        path_free(reply),
{
    reveal_strlit("missing content");
    reveal_strlit("protocol error");
    reveal_strlit("unsupported protocol version");
    reveal_strlit("unauthenticated");
    reveal_strlit("peer not authorized");
    reveal_strlit("peer credentials unavailable");
    reveal_strlit("0.1.0");
    if let Some(detail) = reply.detail {
        if exists|e: Error| detail == #[trigger] e.text() {
            let e = choose|e: Error| detail == #[trigger] e.text();
            e.message_has_no_path_separator();
        }
    }
}

/// Whatever an operation finds on the host, and whatever goes wrong in it, the
/// reply holds no text but fixed ones: no file contents, no path, no secret.
pub proof fn replies_are_fixed(run: OpRun)
    ensures
        run.reply() matches Some(reply) ==> fixed_reply(reply),
{
}

/// A finished run, and no other, has a reply. It says success if and only if the
/// operation succeeded, and gives a detail if and only if it did not.
pub proof fn replies_are_faithful(run: OpRun)
    ensures
        run.reply() is Some <==> run.stage is Finished,
        run.reply() matches Some(reply) ==> {
            &&& reply.ok == (run.stage matches Stage::Finished(Ok(_)))
            &&& reply.ok == (reply.detail is None)
        },
{
}

/// What a request is answered with at once holds no text but fixed ones.
pub proof fn immediate_replies_are_fixed(request: Request)
    ensures
        crate::ops::immediate_reply(request) matches Some(reply) ==> fixed_reply(reply),
{
}

// ---------------------------------------------------------------------------
// Dispatch
// ---------------------------------------------------------------------------

/// The goal of the run that an operation starts, if it starts one.
pub open spec fn goal_of(op: Operation) -> Option<Goal> {
    match op {
        Operation::Ping => None,
        Operation::EnsureDirectories => Some(Goal::EnsureDirectories),
        Operation::InstallSshdDropin => Some(Goal::InstallSshdDropin),
        Operation::ApplyTrustedCaKeys => Some(Goal::ApplyTrustedCaKeys),
        Operation::VerifyState => Some(Goal::VerifyState),
    }
}

/// Requests map one to one to operations: a request starts a run with the goal of
/// its operation and no other, and different operations have different goals.
pub proof fn operations_map_one_to_one<C: SshdControl>(
    ops: HelperOps<C>,
    request: Request,
    run: OpRun,
    other: Operation,
)
    requires
        ops.dispatched(request, Dispatch::Running(run)),
    ensures
        goal_of(request.op) == Some(run.goal),
        goal_of(other) == Some(run.goal) ==> other == request.op,
{
}

} // verus!
