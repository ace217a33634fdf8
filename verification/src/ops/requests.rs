//! What a request amounts to, from the request to the reply.
//!
//! The laws here speak of what the functions are given and give back: a request,
//! the operation that it starts, what is asked of the host and answered, the files
//! before and after, and the reply. See [`crate::ops::laws`] for what is assumed
//! of the host.

use vstd::prelude::*;

use crate::errors::{Error, Result};
use crate::ops::laws;
use crate::ops::laws::{Exchange, Files};
use crate::ops::run;
use crate::ops::run::{Action, Event, Goal, ManagedDir, ManagedFile, OpRun, Stage};
use crate::ops::{Dispatch, HelperOps};
use crate::protocol::{Operation, Outcome, Request, Response};
use crate::security::{self, Attempt};
use crate::ssh::sshd_config;
use crate::ssh::trusted_ca::TrustedCaKeys;
use crate::sshd_control::{SshdCheck, SshdControl};
use crate::text;

verus! {

// ---------------------------------------------------------------------------
// Which operation a request starts
// ---------------------------------------------------------------------------

/// What comes of dispatching a request is what the laws below speak of, and each
/// operation that is asked for by name is the one that its request starts.
pub proof fn dispatch_follows_the_laws<C: SshdControl>(
    ops: HelperOps<C>,
    request: Request,
    d: Dispatch,
    content: &str,
    run: OpRun,
)
    ensures
        call_ensures(HelperOps::<C>::dispatch, (&ops, &request), d) ==> ops.dispatched(request, d),
        request.op == Operation::EnsureDirectories && call_ensures(
            HelperOps::<C>::ensure_directories,
            (&ops,),
            run,
        ) ==> ops.dispatched(request, Dispatch::Running(run)),
        request.op == Operation::InstallSshdDropin && call_ensures(
            HelperOps::<C>::install_sshd_dropin,
            (&ops,),
            run,
        ) ==> ops.dispatched(request, Dispatch::Running(run)),
        request.op == Operation::VerifyState && call_ensures(
            HelperOps::<C>::verify_state,
            (&ops,),
            run,
        ) ==> ops.dispatched(request, Dispatch::Running(run)),
        request.op == Operation::ApplyTrustedCaKeys && crate::protocol::chars_of(request.content)
            == Some(content@) && call_ensures(
            HelperOps::<C>::apply_trusted_ca_keys,
            (&ops, content),
            run,
        ) ==> ops.dispatched(request, Dispatch::Running(run)),
{
}

/// Whether a run is one of these operations, with the given goal, that nothing
/// has been done for yet.
pub open spec fn fresh_run<C: SshdControl>(ops: HelperOps<C>, run: OpRun, goal: Goal) -> bool {
    &&& run.goal == goal
    &&& run.owner == ops.owner()
    &&& run.has_trusted_ca_dir == (security::path_parent(ops.config().trusted_ca_path@) is Some)
    &&& run.has_dropin_dir == (security::path_parent(ops.config().dropin_path@) is Some)
    &&& run.previous is None
}

/// Whether a run is about to see to the managed directories, or, if it has none to
/// see to, to go on with what comes after them.
pub open spec fn sees_to_the_directories_first(run: OpRun) -> bool {
    run.stage == if run.has_trusted_ca_dir {
        Stage::DirExists(ManagedDir::TrustedCa)
    } else if run.has_dropin_dir {
        Stage::DirExists(ManagedDir::Dropin)
    } else {
        match run.goal {
            Goal::EnsureDirectories => Stage::Finished(Ok(Outcome::Success)),
            Goal::InstallSshdDropin => Stage::ReadMainConfig,
            Goal::ApplyTrustedCaKeys => Stage::StatTrustedCa,
            Goal::VerifyState => Stage::VerifyReadDropin,
        }
    }
}

/// Every request but a ping, and but an apply without content, starts the
/// operation it names, from its beginning. Of the requests that are answered at
/// once, only a ping is answered with success, and with the version.
pub proof fn requests_start_their_operation<C: SshdControl>(
    ops: HelperOps<C>,
    request: Request,
    d: Dispatch,
)
    requires
        ops.dispatched(request, d),
    ensures
        d matches Dispatch::Replied(response) ==> {
            &&& request.op == Operation::Ping || (request.op == Operation::ApplyTrustedCaKeys
                && request.content is None)
            &&& response@.ok == (request.op == Operation::Ping)
        },
        request.op == Operation::Ping ==> {
            &&& d matches Dispatch::Replied(response)
            &&& response@.ok
            &&& response@.outcome == Outcome::Success
            &&& response@.helper_version == Some("0.1.0"@)
            &&& response@.detail is None
        },
        request.op == Operation::ApplyTrustedCaKeys && request.content is None ==> {
            &&& d matches Dispatch::Replied(response)
            &&& !response@.ok
            &&& response@.outcome == Outcome::RolledBack
            &&& response@.helper_version is None
            &&& response@.detail == Some("missing content"@)
        },
        request.op == Operation::EnsureDirectories ==> {
            &&& d matches Dispatch::Running(run)
            &&& fresh_run(ops, run, Goal::EnsureDirectories)
            &&& sees_to_the_directories_first(run)
        },
        request.op == Operation::InstallSshdDropin ==> {
            &&& d matches Dispatch::Running(run)
            &&& fresh_run(ops, run, Goal::InstallSshdDropin)
            &&& sees_to_the_directories_first(run)
            &&& run.body@ == sshd_config::dropin(ops.config().trusted_ca_path@)
        },
        request.op == Operation::VerifyState ==> {
            &&& d matches Dispatch::Running(run)
            &&& fresh_run(ops, run, Goal::VerifyState)
            &&& run.stage == Stage::VerifyReadDropin
            &&& run.body@ == sshd_config::dropin(ops.config().trusted_ca_path@)
        },
{
}

/// A request to apply a content starts the apply of exactly that content, from its
/// beginning, if and only if the content parses as a `TrustedUserCAKeys` file,
/// whatever the number of its keys. Otherwise the run has failed already, with the
/// parser's error, and asks for nothing.
pub proof fn apply_starts_if_the_content_parses<C: SshdControl>(
    ops: HelperOps<C>,
    request: Request,
    content: String,
    text: &str,
    parsed: Result<TrustedCaKeys>,
    d: Dispatch,
)
    requires
        request.op == Operation::ApplyTrustedCaKeys,
        request.content == Some(content),
        text@ == content@,
        call_ensures(TrustedCaKeys::parse, (text,), parsed),
        ops.dispatched(request, d),
    ensures
        d matches Dispatch::Running(run) && {
            &&& fresh_run(ops, run, Goal::ApplyTrustedCaKeys)
            &&& run.body@ == content@
            &&& match parsed {
                Ok(_) => sees_to_the_directories_first(run) && laws::apply_begins(run),
                Err(e) => run.stage == Stage::Finished(Err(e)) && run.pending() is None,
            }
        },
{
}

/// An apply begins with the directories if and only if the content parses, and has
/// failed already, with the parser's error, otherwise; any other run begins with
/// the directories, unless it is only to verify.
pub proof fn runs_begin_at_the_beginning(
    goal: Goal,
    owner: u32,
    has_trusted_ca_dir: bool,
    has_dropin_dir: bool,
    body: String,
    begun: OpRun,
    content: &str,
    parsed: Result<TrustedCaKeys>,
    apply: OpRun,
)
    requires
        call_ensures(
            OpRun::begin,
            (goal, owner, has_trusted_ca_dir, has_dropin_dir, body),
            begun,
        ),
        call_ensures(TrustedCaKeys::parse, (content,), parsed),
        call_ensures(
            OpRun::begin_apply,
            (owner, has_trusted_ca_dir, has_dropin_dir, content),
            apply,
        ),
    ensures
        begun.goal == goal && begun.owner == owner && begun.body@ == body@,
        begun.has_trusted_ca_dir == has_trusted_ca_dir && begun.has_dropin_dir == has_dropin_dir,
        begun.previous is None,
        goal == Goal::VerifyState ==> begun.stage == Stage::VerifyReadDropin,
        goal != Goal::VerifyState ==> sees_to_the_directories_first(begun),
        apply.goal == Goal::ApplyTrustedCaKeys && apply.owner == owner && apply.body@ == content@,
        apply.has_trusted_ca_dir == has_trusted_ca_dir && apply.has_dropin_dir == has_dropin_dir,
        apply.previous is None,
        match parsed {
            Ok(_) => sees_to_the_directories_first(apply) && laws::apply_begins(apply),
            Err(e) => apply.stage == Stage::Finished(Err(e)),
        },
{
}

/// Every content all of whose lines are blank, a comment or a valid key line is
/// applied, from its beginning, whatever the number of its keys.
pub proof fn well_formed_content_is_applied<C: SshdControl>(
    ops: HelperOps<C>,
    request: Request,
    content: String,
    d: Dispatch,
)
    requires
        request.op == Operation::ApplyTrustedCaKeys,
        request.content == Some(content),
        forall|i: int|
            0 <= i < text::lines(content@).len() ==> text::blank_or_comment(
                #[trigger] text::lines(content@)[i],
            ) || crate::ssh::trusted_ca::parsed_key(text::lines(content@)[i]) is Ok,
        ops.dispatched(request, d),
    ensures
        d matches Dispatch::Running(run) && {
            &&& laws::apply_begins(run)
            &&& run.body@ == content@
            &&& !(run.stage is Finished)
        },
{
    crate::ssh::trusted_ca::file_is_rejected_for_its_first_bad_line(content@);
    assert forall|i: int|
        0 <= i < text::lines(
            content@,
        ).len() implies crate::ssh::trusted_ca::line_accepted(
        #[trigger] text::lines(content@)[i],
    ) by {
        text::comments_begin_with_a_hash(text::lines(content@)[i]);
    }
}

// ---------------------------------------------------------------------------
// How the operations end
// ---------------------------------------------------------------------------

/// The end of an apply that was requested: no change is reported only if the file
/// held exactly the content before, and success only if it holds it now; on a host
/// that gives nothing but good answers it is one of the two.
pub proof fn requested_apply_ends_right<C: SshdControl>(
    ops: HelperOps<C>,
    request: Request,
    content: String,
    run: OpRun,
    before: Files,
    log: Seq<Exchange>,
)
    requires
        request.op == Operation::ApplyTrustedCaKeys,
        request.content == Some(content),
        ops.dispatched(request, Dispatch::Running(run)),
        laws::can_go(run, before, log),
        laws::run_after(run, log).stage is Finished,
    ensures
        laws::run_after(run, log).stage matches Stage::Finished(Ok(outcome)) ==> {
            let bytes = vstd::utf8::encode_utf8(content@);
            &&& outcome == Outcome::NotModified || outcome == Outcome::Applied
            &&& outcome == Outcome::NotModified <==> before.trusted_ca == Some(bytes)
            &&& laws::files_after(before, log) == (Files { trusted_ca: Some(bytes), ..before })
            &&& outcome == Outcome::Applied ==> laws::commits(run, log, ManagedFile::TrustedCa)
        },
        !(run.stage is Finished) && laws::all_good(run, log) ==> laws::run_after(
            run,
            log,
        ).stage matches Stage::Finished(Ok(_)),
        laws::run_after(run, log).stage matches Stage::Finished(Err(_)) && !laws::restore_fails(
            run,
            log,
        ) ==> laws::files_after(before, log) == before,
{
    let end = laws::run_after(run, log);
    if run.stage is Finished {
        laws::every_answer_is_progress(run, log[0].event);
        assert(log.len() == 0);
    } else {
        assert(laws::apply_begins(run));
        laws::apply_leaves_old_or_new(run, before, log);
        if end.stage == Stage::Finished(Ok(Outcome::NotModified)) {
            laws::unmodified_means_untouched(run, before, log);
        }
        if end.stage == Stage::Finished(Ok(Outcome::Applied)) {
            laws::applied_means_written_and_healthy(run, before, log);
        }
        laws::finished_apply_says_what_it_did(run, before, log);
        if laws::all_good(run, log) {
            laws::operations_succeed_on_a_fit_host(run, before, log);
        }
        if end.stage matches Stage::Finished(Err(_)) && !laws::restore_fails(run, log) {
            laws::failed_apply_rolls_back(run, before, log);
        }
    }
}

/// Whether bytes hold a text: they are UTF-8, and decode to the same text but for
/// whitespace at the end of either.
pub open spec fn holds_text(bytes: Seq<u8>, desired: Seq<char>) -> bool {
    &&& vstd::utf8::valid_utf8(bytes)
    &&& text::trimmed_end(vstd::utf8::decode_utf8(bytes)) == text::trimmed_end(desired)
}

/// Whether bytes are the drop-in for a path.
pub open spec fn holds_dropin_for(bytes: Seq<u8>, path: Seq<char>) -> bool {
    holds_text(bytes, sshd_config::dropin(path))
}

/// A drop-in is taken as current if and only if it holds the desired text: by an
/// installation, which then ends without a change, and by a verification, which
/// goes on without a complaint about it.
pub proof fn only_the_same_text_is_current(
    files: Files,
    desired: Seq<char>,
    run: OpRun,
    bytes: Vec<u8>,
)
    requires
        run.body@ == desired,
    ensures
        laws::dropin_is_current(files, desired) <==> (files.dropin matches Some(found)
            && holds_text(found, desired)),
        run.stage is ReadDropin ==> (run.next(Event::Contents(Attempt::Done(bytes))).stage
            == Stage::Finished(Ok(Outcome::NotModified)) <==> holds_text(bytes@, desired)),
        run.stage is VerifyReadDropin ==> (run.next(
            Event::Contents(Attempt::Done(bytes)),
        ).stage matches Stage::VerifyStatDropin(verdict) && (verdict is Ok <==> holds_text(
            bytes@,
            desired,
        ))),
{
}

proof fn lemma_current_dropin(files: Files, path: Seq<char>)
    ensures
        laws::dropin_is_current(files, sshd_config::dropin(path)) <==> (files.dropin matches Some(
            bytes,
        ) && holds_dropin_for(bytes, path)),
{
}

/// The end of an installation that was requested. No change is reported only if
/// the drop-in for the configured path was there, up to whitespace at its end, and
/// then nothing has changed; success only if it was not there and is there now,
/// byte for byte. Either way the main config includes the drop-in directory.
pub proof fn requested_install_ends_right<C: SshdControl>(
    ops: HelperOps<C>,
    request: Request,
    run: OpRun,
    before: Files,
    log: Seq<Exchange>,
)
    requires
        request.op == Operation::InstallSshdDropin,
        ops.dispatched(request, Dispatch::Running(run)),
        laws::can_go(run, before, log),
    ensures
        laws::run_after(run, log).stage matches Stage::Finished(Ok(outcome)) ==> {
            let path = ops.config().trusted_ca_path@;
            let current = before.dropin matches Some(bytes) && holds_dropin_for(bytes, path);
            &&& outcome == Outcome::NotModified || outcome == Outcome::Success
            &&& outcome == Outcome::NotModified <==> current
            &&& outcome == Outcome::NotModified ==> laws::files_after(before, log) == before
            &&& outcome == Outcome::Success ==> laws::files_after(before, log) == (Files {
                dropin: Some(vstd::utf8::encode_utf8(sshd_config::dropin(path))),
                ..before
            }) && laws::commits(run, log, ManagedFile::Dropin)
            &&& laws::includes_dropin(before)
        },
        laws::run_after(run, log).stage is Finished && laws::includes_dropin(before) && (
        before.dropin matches Some(bytes) ==> vstd::utf8::valid_utf8(bytes)) && laws::all_good(
            run,
            log,
        ) ==> laws::run_after(run, log).stage matches Stage::Finished(Ok(_)),
{
    let path = ops.config().trusted_ca_path@;
    let end = laws::run_after(run, log);
    assert(laws::install_begins(run));
    lemma_current_dropin(before, path);
    laws::finished_install_says_what_it_did(run, before, log);
    if end.stage == Stage::Finished(Ok(Outcome::Success)) {
        laws::installed_means_written_and_healthy(run, before, log);
    }
    if end.stage is Finished && laws::includes_dropin(before) && (before.dropin matches Some(bytes)
        ==> vstd::utf8::valid_utf8(bytes)) && laws::all_good(run, log) {
        laws::operations_succeed_on_a_fit_host(run, before, log);
    }
}

/// After an installation that reports no change, and after a verification that
/// succeeds with a drop-in in place, the drop-in on disk gives
/// `TrustedUserCAKeys` exactly the configured path, read back from its text.
pub proof fn current_dropin_configures_the_path<C: SshdControl>(
    ops: HelperOps<C>,
    request: Request,
    run: OpRun,
    before: Files,
    log: Seq<Exchange>,
    bytes: Seq<u8>,
    installed: &str,
    value: Option<String>,
)
    requires
        request.op == Operation::InstallSshdDropin || request.op == Operation::VerifyState,
        ops.dispatched(request, Dispatch::Running(run)),
        laws::can_go(run, before, log),
        laws::run_after(run, log).stage matches Stage::Finished(Ok(_)),
        laws::files_after(before, log).dropin == Some(bytes),
        sshd_config::plain_path(ops.config().trusted_ca_path@),
        installed@ == vstd::utf8::decode_utf8(bytes),
        call_ensures(sshd_config::find_trusted_user_ca_keys, (installed,), value),
    ensures
        vstd::utf8::valid_utf8(bytes),
        value matches Some(v) && v@ == ops.config().trusted_ca_path@,
{
    let path = ops.config().trusted_ca_path@;
    if request.op == Operation::InstallSshdDropin {
        requested_install_ends_right(ops, request, run, before, log);
        broadcast use {vstd::utf8::encode_utf8_valid_utf8, vstd::utf8::encode_utf8_decode_utf8};

        let body = sshd_config::dropin(path);
        assert(vstd::utf8::decode_utf8(vstd::utf8::encode_utf8(body)) == body);
    } else {
        laws::looking_changes_nothing(run, before, log);
        laws::verified_means_healthy(run, before, log);
        lemma_current_dropin(before, path);
    }
    sshd_config::current_text_configures_its_path(installed@, path, installed, value);
}

// ---------------------------------------------------------------------------
// What is asked of the host on the way
// ---------------------------------------------------------------------------

/// Whether, somewhere in `log`, a run was at a point and got an answer such that
/// `seen` holds of the two.
pub open spec fn somewhere(
    run: OpRun,
    log: Seq<Exchange>,
    seen: spec_fn(OpRun, Event) -> bool,
) -> bool
    decreases log.len(),
{
    log.len() > 0 && {
        ||| seen(run, log[0].event)
        ||| somewhere(run.next(log[0].event), log.skip(1), seen)
    }
}

/// The managed directory exists: it was found to, or was created.
pub open spec fn directory_exists(dir: ManagedDir) -> spec_fn(OpRun, Event) -> bool {
    |run: OpRun, event: Event|
        {
            ||| run.pending() == Some(Action::DirExists(dir)) && event == Event::Exists(true)
            ||| run.pending() == Some(Action::CreateDirs(dir)) && (event matches Event::Done(
                Attempt::Done(_),
            ))
        }
}

/// The managed directory is no symlink and belongs to the given user or root.
pub open spec fn directory_is_safe(dir: ManagedDir, owner: u32) -> spec_fn(OpRun, Event) -> bool {
    |run: OpRun, event: Event|
        {
            &&& run.pending() == Some(Action::LstatDir(dir))
            &&& event matches Event::Stat(Attempt::Done(meta))
            &&& !(meta.kind is Symlink)
            &&& meta.uid == owner || meta.uid == 0
        }
}

/// The managed directory was given mode `0755`.
pub open spec fn directory_has_its_mode(dir: ManagedDir) -> spec_fn(OpRun, Event) -> bool {
    |run: OpRun, event: Event|
        {
            &&& run.pending() == Some(Action::SetDirMode(dir, 0o755))
            &&& event matches Event::Done(Attempt::Done(_))
        }
}

/// The managed file is no symlink, has neither the group's write bit nor that of
/// others, and belongs to the given user or root.
pub open spec fn file_is_safe(file: ManagedFile, owner: u32) -> spec_fn(OpRun, Event) -> bool {
    |run: OpRun, event: Event|
        {
            &&& run.pending() == Some(Action::Lstat(file))
            &&& event matches Event::Stat(Attempt::Done(meta))
            &&& !(meta.kind is Symlink)
            &&& !security::permission_bit(meta.mode, 4)
            &&& !security::permission_bit(meta.mode, 1)
            &&& meta.uid == owner || meta.uid == 0
        }
}

/// The managed file is missing, or no symlink.
pub open spec fn file_is_no_symlink(file: ManagedFile) -> spec_fn(OpRun, Event) -> bool {
    |run: OpRun, event: Event|
        {
            &&& run.pending() == Some(Action::Lstat(file))
            &&& event matches Event::Stat(stat)
            &&& stat is Missing || (stat matches Attempt::Done(meta) && !(meta.kind is Symlink))
        }
}

/// A request to see to the directories, or to install or apply something, gets
/// past the managed directories only once each of them exists, is no symlink,
/// belongs to the expected user or root, and has mode `0755`. In particular,
/// success in seeing to the directories means all of that.
pub proof fn directories_are_made_and_safe<C: SshdControl>(
    ops: HelperOps<C>,
    request: Request,
    run: OpRun,
    before: Files,
    log: Seq<Exchange>,
    dir: ManagedDir,
)
    requires
        request.op == Operation::EnsureDirectories || request.op == Operation::InstallSshdDropin
            || request.op == Operation::ApplyTrustedCaKeys,
        ops.dispatched(request, Dispatch::Running(run)),
        laws::can_go(run, before, log),
        !(laws::run_after(run, log).stage is DirExists),
        !(laws::run_after(run, log).stage is DirCreate),
        !(laws::run_after(run, log).stage is DirStat),
        !(laws::run_after(run, log).stage is DirMode),
        !(laws::run_after(run, log).stage matches Stage::Finished(Err(_))),
        dir == ManagedDir::TrustedCa ==> security::path_parent(ops.config().trusted_ca_path@)
            is Some,
        dir == ManagedDir::Dropin ==> security::path_parent(ops.config().dropin_path@) is Some,
    ensures
        somewhere(run, log, directory_exists(dir)),
        somewhere(run, log, directory_is_safe(dir, ops.owner())),
        somewhere(run, log, directory_has_its_mode(dir)),
{
    if run.stage is Finished {
        laws::every_answer_is_progress(run, log[0].event);
        assert(log.len() == 0);
    }
    assert(run.stage == run::first_stage(run.goal, run.has_trusted_ca_dir, run.has_dropin_dir));
    laws::directories_come_first(run, before, log);
    lemma_safe_dir(run, log, dir);
    lemma_dir_mode(run, log, dir);
    lemma_dir_exists(run, before, log, dir);
}

proof fn lemma_safe_dir(run: OpRun, log: Seq<Exchange>, dir: ManagedDir)
    requires
        laws::found_safe(run, log, dir),
    ensures
        somewhere(run, log, directory_is_safe(dir, run.owner)),
    decreases log.len(),
{
    let next = run.next(log[0].event);
    if laws::found_safe(next, log.skip(1), dir) {
        lemma_safe_dir(next, log.skip(1), dir);
    } else {
        assert(directory_is_safe(dir, run.owner)(run, log[0].event));
    }
}

proof fn lemma_dir_mode(run: OpRun, log: Seq<Exchange>, dir: ManagedDir)
    requires
        laws::mode_set(run, log, dir),
    ensures
        somewhere(run, log, directory_has_its_mode(dir)),
    decreases log.len(),
{
    let next = run.next(log[0].event);
    if laws::mode_set(next, log.skip(1), dir) {
        lemma_dir_mode(next, log.skip(1), dir);
    } else {
        assert(directory_has_its_mode(dir)(run, log[0].event));
    }
}

/// Whether a run has this directory still before it.
spec fn dir_lies_ahead(run: OpRun, dir: ManagedDir) -> bool {
    ||| run.stage == Stage::DirExists(dir)
    ||| run.stage == Stage::DirCreate(dir)
    ||| dir == ManagedDir::Dropin && run.has_dropin_dir && (run.stage == Stage::DirExists(
        ManagedDir::TrustedCa,
    ) || run.stage == Stage::DirCreate(ManagedDir::TrustedCa) || run.stage == Stage::DirStat(
        ManagedDir::TrustedCa,
    ) || run.stage == Stage::DirMode(ManagedDir::TrustedCa))
}

proof fn lemma_dir_exists(run: OpRun, files: Files, log: Seq<Exchange>, dir: ManagedDir)
    requires
        dir_lies_ahead(run, dir),
        laws::can_go(run, files, log),
        !laws::dirs_unsettled(laws::run_after(run, log)),
    ensures
        somewhere(run, log, directory_exists(dir)),
    decreases log.len(),
{
    assert(log.len() > 0);
    let next = run.next(log[0].event);
    let rest = log.skip(1);
    if next.stage is Finished {
        assert(laws::can_go(next, log[0].after, rest));
        assert(rest.len() == 0);
        assert(laws::run_after(next, rest) == next);
    }
    if dir_lies_ahead(next, dir) {
        lemma_dir_exists(next, log[0].after, rest, dir);
    } else {
        assert(directory_exists(dir)(run, log[0].event));
    }
}

/// A requested installation or apply writes, or removes, no file but its own, with
/// mode `0644`, and does so only once that file was found to be missing or no
/// symlink. What it writes is the rendered drop-in, or the content, or, to restore
/// it, what the file held before.
pub proof fn only_the_own_file_is_written<C: SshdControl>(
    ops: HelperOps<C>,
    request: Request,
    run: OpRun,
    before: Files,
    log: Seq<Exchange>,
    file: ManagedFile,
    mode: u32,
)
    requires
        ops.dispatched(request, Dispatch::Running(run)),
        laws::can_go(run, before, log),
        laws::run_after(run, log).pending() == Some(Action::Write(file, mode))
            || laws::run_after(run, log).pending() == Some(Action::Remove(file)),
    ensures
        request.op == Operation::InstallSshdDropin || request.op == Operation::ApplyTrustedCaKeys,
        file == if request.op == Operation::InstallSshdDropin {
            ManagedFile::Dropin
        } else {
            ManagedFile::TrustedCa
        },
        somewhere(run, log, file_is_no_symlink(file)),
        laws::run_after(run, log).pending() == Some(Action::Write(file, mode)) ==> {
            &&& mode == 0o644
            &&& request.op == Operation::InstallSshdDropin ==> laws::run_after(
                run,
                log,
            ).payload_bytes() == vstd::utf8::encode_utf8(
                sshd_config::dropin(ops.config().trusted_ca_path@),
            )
            &&& request.op == Operation::ApplyTrustedCaKeys ==> (request.content matches Some(
                content,
            ) && (laws::run_after(run, log).payload_bytes() == vstd::utf8::encode_utf8(content@)
                || before.trusted_ca == Some(laws::run_after(run, log).payload_bytes())))
        },
{
    let end = laws::run_after(run, log);
    if run.stage is Finished {
        laws::every_answer_is_progress(run, log[0].event);
        assert(log.len() == 0);
        assert(end == run);
    }
    laws::written_file_is_the_goals(run, before, log);
    lemma_stat_comes_first(run, before, log, file);
}

/// Whether a run has the `lstat` of its file still before it.
spec fn stat_lies_ahead(run: OpRun, file: ManagedFile) -> bool {
    &&& (run.goal == Goal::InstallSshdDropin && file == ManagedFile::Dropin) || (run.goal
        == Goal::ApplyTrustedCaKeys && file == ManagedFile::TrustedCa)
    &&& {
        ||| run.stage is DirExists
        ||| run.stage is DirCreate
        ||| run.stage is DirStat
        ||| run.stage is DirMode
        ||| run.goal == Goal::InstallSshdDropin && (run.stage is ReadMainConfig || run.stage
            is ReadDropin || run.stage is StatDropin)
        ||| run.goal == Goal::ApplyTrustedCaKeys && run.stage is StatTrustedCa
    }
}

proof fn lemma_stat_comes_first(run: OpRun, files: Files, log: Seq<Exchange>, file: ManagedFile)
    requires
        stat_lies_ahead(run, file),
        laws::can_go(run, files, log),
        laws::run_after(run, log).pending() matches Some(Action::Write(_, _))
            || laws::run_after(run, log).pending() matches Some(Action::Remove(_)),
    ensures
        somewhere(run, log, file_is_no_symlink(file)),
    decreases log.len(),
{
    assert(log.len() > 0);
    let next = run.next(log[0].event);
    let rest = log.skip(1);
    if next.stage is Finished {
        assert(laws::can_go(next, log[0].after, rest));
        assert(rest.len() == 0);
        assert(laws::run_after(next, rest) == next);
    }
    if stat_lies_ahead(next, file) {
        lemma_stat_comes_first(next, log[0].after, rest, file);
    } else {
        assert(file_is_no_symlink(file)(run, log[0].event));
    }
}

/// A requested verification that succeeds has found each managed file that exists
/// to be safe, a drop-in that exists to be the one for the configured path, and
/// `sshd` to accept its configuration and to be active; and it has changed
/// nothing.
pub proof fn requested_verification_ends_right<C: SshdControl>(
    ops: HelperOps<C>,
    request: Request,
    run: OpRun,
    before: Files,
    log: Seq<Exchange>,
)
    requires
        request.op == Operation::VerifyState,
        ops.dispatched(request, Dispatch::Running(run)),
        laws::can_go(run, before, log),
    ensures
        laws::files_after(before, log) == before,
        laws::run_after(run, log).stage matches Stage::Finished(Ok(outcome)) ==> {
            &&& outcome == Outcome::Success
            &&& before.dropin matches Some(bytes) ==> holds_dropin_for(
                bytes,
                ops.config().trusted_ca_path@,
            ) && somewhere(run, log, file_is_safe(ManagedFile::Dropin, ops.owner()))
            &&& before.trusted_ca is Some ==> somewhere(
                run,
                log,
                file_is_safe(ManagedFile::TrustedCa, ops.owner()),
            )
            &&& laws::passed(run, log, SshdCheck::ValidateConfig)
            &&& laws::passed(run, log, SshdCheck::IsActive)
        },
        laws::run_after(run, log).stage is Finished && (before.dropin matches Some(bytes)
            ==> holds_dropin_for(bytes, ops.config().trusted_ca_path@)) && laws::all_good(run, log)
            ==> laws::run_after(run, log).stage matches Stage::Finished(Ok(_)),
{
    let path = ops.config().trusted_ca_path@;
    laws::looking_changes_nothing(run, before, log);
    lemma_current_dropin(before, path);
    let end = laws::run_after(run, log);
    laws::finished_verification_says_success(run, before, log);
    if end.stage matches Stage::Finished(Ok(_)) {
        laws::verified_means_healthy(run, before, log);
        if before.dropin is Some {
            lemma_safe_file(run, log, ManagedFile::Dropin);
        }
        if before.trusted_ca is Some {
            lemma_safe_file(run, log, ManagedFile::TrustedCa);
        }
    }
    if end.stage is Finished && (before.dropin matches Some(bytes) ==> holds_dropin_for(bytes, path))
        && laws::all_good(run, log) {
        laws::operations_succeed_on_a_fit_host(run, before, log);
    }
}

proof fn lemma_safe_file(run: OpRun, log: Seq<Exchange>, file: ManagedFile)
    requires
        laws::found_safe_file(run, log, file),
    ensures
        somewhere(run, log, file_is_safe(file, run.owner)),
    decreases log.len(),
{
    let next = run.next(log[0].event);
    if laws::found_safe_file(next, log.skip(1), file) {
        lemma_safe_file(next, log.skip(1), file);
    } else {
        if let Event::Stat(stat) = log[0].event {
            if let Attempt::Done(meta) = stat {
                security::lemma_foreign_writers(meta.mode);
            }
        }
        assert(file_is_safe(file, run.owner)(run, log[0].event));
    }
}

// ---------------------------------------------------------------------------
// What is reported
// ---------------------------------------------------------------------------

/// The error that an answer amounts to, if it is the report of a failure: what the
/// operating system, an atomic write or `sshd` said, or the verdict on what was
/// looked at.
pub open spec fn failure_of(run: OpRun, event: Event) -> Option<Error> {
    match event {
        Event::Exists(_) => None,
        Event::Done(Attempt::Done(_)) => None,
        Event::Done(Attempt::Missing(e)) => Some(Error::Io(e)),
        Event::Done(Attempt::Failed(e)) => Some(Error::Io(e)),
        Event::Contents(Attempt::Failed(e)) => Some(Error::Io(e)),
        Event::Contents(_) => None,
        Event::Stat(Attempt::Failed(e)) => Some(Error::Io(e)),
        Event::Stat(Attempt::Missing(e)) => match run.pending() {
            Some(Action::LstatDir(_)) => Some(Error::Io(e)),
            _ => if run.goal == Goal::VerifyState {
                Some(Error::Io(e))
            } else {
                None
            },
        },
        Event::Stat(Attempt::Done(meta)) => if meta.kind is Symlink {
            Some(Error::UnexpectedSymlink)
        } else if run.goal == Goal::VerifyState && (security::permission_bit(meta.mode, 4)
            || security::permission_bit(meta.mode, 1)) {
            Some(Error::InsecurePermissions)
        } else if (run.goal == Goal::VerifyState || (run.pending() matches Some(
            Action::LstatDir(_),
        ))) && meta.uid != run.owner && meta.uid != 0 {
            Some(Error::InsecureOwnership)
        } else {
            None
        },
        Event::Wrote(Err(e)) => Some(e),
        Event::Wrote(Ok(_)) => None,
        Event::Checked(Err(e)) => Some(e),
        Event::Checked(Ok(_)) => None,
    }
}

/// Whether a run can be at this stage with this goal.
pub open spec fn stage_fits_goal(run: OpRun) -> bool {
    match run.stage {
        Stage::DirExists(_) => run.goal != Goal::VerifyState,
        Stage::DirCreate(_) => run.goal != Goal::VerifyState,
        Stage::DirStat(_) => run.goal != Goal::VerifyState,
        Stage::DirMode(_) => run.goal != Goal::VerifyState,
        Stage::ReadMainConfig => run.goal == Goal::InstallSshdDropin,
        Stage::ReadDropin => run.goal == Goal::InstallSshdDropin,
        Stage::StatDropin => run.goal == Goal::InstallSshdDropin,
        Stage::WriteDropin => run.goal == Goal::InstallSshdDropin,
        Stage::StatTrustedCa => run.goal == Goal::ApplyTrustedCaKeys,
        Stage::ReadTrustedCa => run.goal == Goal::ApplyTrustedCaKeys,
        Stage::WriteTrustedCa => run.goal == Goal::ApplyTrustedCaKeys,
        Stage::Check(_) => run.goal != Goal::EnsureDirectories,
        Stage::Restore(_) => run.goal == Goal::ApplyTrustedCaKeys,
        Stage::RestoreCheck(_, _) => run.goal == Goal::ApplyTrustedCaKeys,
        Stage::VerifyReadDropin => run.goal == Goal::VerifyState,
        Stage::VerifyStatDropin(_) => run.goal == Goal::VerifyState,
        Stage::VerifyReadTrustedCa => run.goal == Goal::VerifyState,
        Stage::VerifyStatTrustedCa => run.goal == Goal::VerifyState,
        Stage::Finished(_) => true,
    }
}

/// A run that a request starts stays at stages that fit its goal.
pub proof fn stages_fit_the_goal<C: SshdControl>(
    ops: HelperOps<C>,
    request: Request,
    run: OpRun,
    before: Files,
    log: Seq<Exchange>,
)
    requires
        ops.dispatched(request, Dispatch::Running(run)),
        laws::can_go(run, before, log),
    ensures
        stage_fits_goal(laws::run_after(run, log)),
{
    lemma_stages_fit(run, before, log);
}

proof fn lemma_stages_fit(run: OpRun, files: Files, log: Seq<Exchange>)
    requires
        stage_fits_goal(run),
        laws::can_go(run, files, log),
    ensures
        stage_fits_goal(laws::run_after(run, log)),
    decreases log.len(),
{
    if log.len() > 0 {
        lemma_stages_fit(run.next(log[0].event), log[0].after, log.skip(1));
    }
}

/// The first answer that reports a failure decides with which error an operation
/// ends, whatever follows. An apply that had begun to write, and only that, first
/// restores what was there.
pub proof fn first_failure_is_reported(
    run: OpRun,
    before: Files,
    log: Seq<Exchange>,
    error: Error,
)
    requires
        stage_fits_goal(run),
        !(run.stage is Restore),
        !(run.stage is RestoreCheck),
        laws::can_go(run, before, log),
        log.len() > 0,
        failure_of(run, log[0].event) == Some(error),
    ensures
        match run.next(log[0].event).stage {
            Stage::Finished(result) => result == Err::<Outcome, Error>(error),
            Stage::Restore(e) => e == error && run.goal == Goal::ApplyTrustedCaKeys && (run.stage
                is WriteTrustedCa || run.stage is Check),
            _ => false,
        },
        laws::run_after(run, log).stage matches Stage::Finished(result) ==> result == Err::<
            Outcome,
            Error,
        >(error),
{
    if let Event::Stat(Attempt::Done(meta)) = log[0].event {
        security::lemma_foreign_writers(meta.mode);
    }
    let next = run.next(log[0].event);
    lemma_error_is_kept(next, log[0].after, log.skip(1), error);
}

/// Once a run has an error to end with, it ends with that.
proof fn lemma_error_is_kept(run: OpRun, files: Files, log: Seq<Exchange>, error: Error)
    requires
        run.stage == Stage::Finished(Err(error)) || run.stage == Stage::Restore(error) || (
        run.stage matches Stage::RestoreCheck(_, e) && e == error),
        laws::can_go(run, files, log),
    ensures
        laws::run_after(run, log).stage matches Stage::Finished(result) ==> result == Err::<
            Outcome,
            Error,
        >(error),
    decreases log.len(),
{
    if log.len() > 0 {
        lemma_error_is_kept(run.next(log[0].event), log[0].after, log.skip(1), error);
    }
}

/// A main config that is missing or does not include the drop-in directory makes
/// an installation end in a validation failure, and one that is not UTF-8 in a
/// protocol error; so does an existing drop-in that is not UTF-8.
pub proof fn unfit_files_end_an_installation(
    run: OpRun,
    contents: Attempt<Vec<u8>>,
    config: &str,
    included: bool,
    verdict: Result<()>,
)
    requires
        run.stage is ReadMainConfig || run.stage is ReadDropin,
        call_ensures(run::ensure_include_present, (contents,), verdict),
        contents matches Attempt::Done(bytes) ==> (vstd::utf8::valid_utf8(bytes@) ==> config@
            == text::trimmed_end(vstd::utf8::decode_utf8(bytes@))),
        call_ensures(
            sshd_config::includes_dropin_dir,
            (config, "/etc/ssh/sshd_config.d"),
            included,
        ),
    ensures
        verdict is Ok <==> (contents matches Attempt::Done(bytes) && vstd::utf8::valid_utf8(bytes@)
            && included),
        run.stage is ReadMainConfig ==> (verdict matches Err(e) ==> run.next(
            Event::Contents(contents),
        ).stage == Stage::Finished(Err(e))),
        run.stage is ReadMainConfig ==> run.next(Event::Contents(contents)).stage
            == match contents {
            Attempt::Done(bytes) => if !vstd::utf8::valid_utf8(bytes@) {
                Stage::Finished(Err(Error::HelperProtocol))
            } else if included {
                Stage::ReadDropin
            } else {
                Stage::Finished(Err(Error::SshdValidationFailed))
            },
            Attempt::Missing(_) => Stage::Finished(Err(Error::SshdValidationFailed)),
            Attempt::Failed(e) => Stage::Finished(Err(Error::Io(e))),
        },
        run.stage is ReadDropin ==> (contents matches Attempt::Done(bytes) ==> (
        !vstd::utf8::valid_utf8(bytes@) ==> run.next(Event::Contents(contents)).stage
            == Stage::Finished(Err(Error::HelperProtocol)))),
{
}

/// An installed drop-in that differs from the one for the configured path makes a
/// verification end in a validation failure, and one that is not UTF-8 in a
/// protocol error, once the file itself was found safe.
pub proof fn drifted_dropin_is_reported(
    run: OpRun,
    before: Files,
    log: Seq<Exchange>,
    bytes: Seq<u8>,
)
    requires
        run.goal == Goal::VerifyState,
        run.stage == Stage::VerifyReadDropin,
        before.dropin == Some(bytes),
        laws::can_go(run, before, log),
        log.len() > 1,
        failure_of(run, log[0].event) is None,
        failure_of(run.next(log[0].event), log[1].event) is None,
        !vstd::utf8::valid_utf8(bytes) || text::trimmed_end(vstd::utf8::decode_utf8(bytes))
            != text::trimmed_end(run.body@),
    ensures
        laws::run_after(run, log).stage == Stage::Finished(
            Err::<Outcome, Error>(
                if vstd::utf8::valid_utf8(bytes) {
                    Error::SshdValidationFailed
                } else {
                    Error::HelperProtocol
                },
            ),
        ),
{
    let next = run.next(log[0].event);
    let rest = log.skip(1);
    assert(rest[0] == log[1]);
    assert(laws::can_go(next, log[0].after, rest));
    if let Event::Stat(Attempt::Done(meta)) = rest[0].event {
        security::lemma_foreign_writers(meta.mode);
    }
    let last = next.next(rest[0].event);
    assert(laws::can_go(last, rest[0].after, rest.skip(1)));
    assert(last.stage is Finished);
    assert(rest.skip(1).len() == 0);
    assert(laws::run_after(last, rest.skip(1)) == last);
    assert(laws::run_after(next, rest) == last);
}

/// The managed directories are seen to one after the other: that of the
/// `TrustedUserCAKeys` file first. A directory is created only if it does not
/// exist, then looked at, then given its mode.
pub proof fn directories_are_seen_to_in_order(run: OpRun, dir: ManagedDir, event: Event)
    ensures
        run.pending() == Some(Action::DirExists(dir)) ==> {
            &&& event == Event::Exists(true) ==> run.next(event).pending() == Some(
                Action::LstatDir(dir),
            )
            &&& event == Event::Exists(false) ==> run.next(event).pending() == Some(
                Action::CreateDirs(dir),
            )
        },
        run.pending() == Some(Action::CreateDirs(dir)) ==> (event matches Event::Done(
            Attempt::Done(_),
        ) ==> run.next(event).pending() == Some(Action::LstatDir(dir))),
        run.pending() == Some(Action::LstatDir(dir)) ==> (event matches Event::Stat(_)
            ==> failure_of(run, event) is None && run.goal != Goal::VerifyState ==> run.next(
            event,
        ).pending() == Some(Action::SetDirMode(dir, 0o755))),
        run.pending() == Some(Action::SetDirMode(dir, 0o755)) ==> (event matches Event::Done(
            Attempt::Done(_),
        ) ==> run.next(event).stage == if dir == ManagedDir::TrustedCa && run.has_dropin_dir {
            Stage::DirExists(ManagedDir::Dropin)
        } else {
            match run.goal {
                Goal::EnsureDirectories => Stage::Finished(Ok(Outcome::Success)),
                Goal::InstallSshdDropin => Stage::ReadMainConfig,
                Goal::ApplyTrustedCaKeys => Stage::StatTrustedCa,
                Goal::VerifyState => Stage::VerifyReadDropin,
            }
        }),
{
}

/// A file that may be missing reads as what it holds, or as missing; its text is
/// the UTF-8 that it holds, without whitespace at the end. Removing a file that is
/// missing is as good as removing one.
pub proof fn optional_files_may_be_missing(
    contents: Attempt<Vec<u8>>,
    read: Result<Option<Vec<u8>>>,
    decoded: Result<Option<String>>,
    removal: Attempt<()>,
    removed: Result<()>,
)
    requires
        call_ensures(run::read_optional, (contents,), read),
        call_ensures(run::read_optional_string, (contents,), decoded),
        call_ensures(run::remove_optional, (removal,), removed),
    ensures
        match contents {
            Attempt::Done(bytes) => {
                &&& read == Ok::<Option<Vec<u8>>, Error>(Some(bytes))
                &&& vstd::utf8::valid_utf8(bytes@) ==> (decoded matches Ok(Some(s)) && s@
                    == text::trimmed_end(vstd::utf8::decode_utf8(bytes@)))
                &&& !vstd::utf8::valid_utf8(bytes@) ==> decoded == Err::<Option<String>, Error>(
                    Error::HelperProtocol,
                )
            },
            Attempt::Missing(_) => read matches Ok(None) && decoded matches Ok(None),
            Attempt::Failed(e) => read == Err::<Option<Vec<u8>>, Error>(Error::Io(e)) && decoded
                == Err::<Option<String>, Error>(Error::Io(e)),
        },
        match removal {
            Attempt::Done(_) => removed is Ok,
            Attempt::Missing(_) => removed is Ok,
            Attempt::Failed(e) => removed == Err::<(), Error>(Error::Io(e)),
        },
{
    if let Ok(s) = decoded {
        assert(run::text_view(decoded) == Ok::<Option<Seq<char>>, Error>(
            crate::protocol::chars_of(s),
        ));
    }
}

/// What the agent is told: of a run that succeeded, its outcome; of one that
/// failed, that an apply was rolled back or that anything else is unhealthy, with
/// the error's text; of one that is under way, nothing yet.
pub proof fn failures_are_told_apart(
    run: OpRun,
    response: Option<Response>,
    error: Error,
    message: String,
)
    requires
        call_ensures(OpRun::response, (&run,), response),
        call_ensures(Error::to_string, (&error,), message),
    ensures
        response is Some <==> run.stage is Finished,
        run.stage matches Stage::Finished(Ok(outcome)) ==> {
            &&& response matches Some(r)
            &&& r@.ok
            &&& r@.outcome == outcome
            &&& r@.helper_version is None
            &&& r@.detail is None
        },
        run.stage == Stage::Finished(Err(error)) ==> {
            &&& response matches Some(r)
            &&& !r@.ok
            &&& run.goal == Goal::ApplyTrustedCaKeys ==> r@.outcome == Outcome::RolledBack
            &&& run.goal == Goal::EnsureDirectories ==> r@.outcome == Outcome::Unhealthy
            &&& run.goal == Goal::InstallSshdDropin ==> r@.outcome == Outcome::Unhealthy
            &&& run.goal == Goal::VerifyState ==> r@.outcome == Outcome::Unhealthy
            &&& r@.helper_version is None
            &&& r@.detail == Some(message@)
        },
{
}

/// The functions on runs do what the laws say of runs, and nothing else changes a
/// run.
pub proof fn runs_follow_the_laws(
    run: OpRun,
    event: Event,
    next: OpRun,
    action: Option<Action>,
    payload: &[u8],
    result: Option<&Result<Outcome>>,
)
    requires
        call_ensures(OpRun::step, (run, event), next),
        call_ensures(OpRun::action, (&run,), action),
        call_ensures(OpRun::payload, (&run,), payload),
        call_ensures(OpRun::result, (&run,), result),
    ensures
        next == run.next(event),
        next.goal == run.goal && next.owner == run.owner && next.body == run.body,
        !run.answered_by(event) ==> next == run,
        action == run.pending(),
        action is None <==> run.stage is Finished,
        payload@ == run.payload_bytes(),
        match run.stage {
            Stage::Finished(r) => result == Some(&r),
            _ => result is None,
        },
{
}

/// What is asked of `sshd` goes to the control backend's function for it, and
/// paths and directories are those of the configuration.
pub proof fn operations_use_their_configuration<C: SshdControl>(
    ops: HelperOps<C>,
    check: SshdCheck,
    verdict: Result<()>,
    file: ManagedFile,
    path: &str,
    dir: ManagedDir,
    parent: Option<String>,
)
    requires
        call_ensures(HelperOps::<C>::check, (&ops, check), verdict),
        call_ensures(HelperOps::<C>::path_of, (&ops, file), path),
        call_ensures(HelperOps::<C>::dir_of, (&ops, dir), parent),
    ensures
        check == SshdCheck::ValidateConfig ==> call_ensures(
            C::validate_config,
            (&ops.sshd(),),
            verdict,
        ),
        check == SshdCheck::Reload ==> call_ensures(C::reload, (&ops.sshd(),), verdict),
        check == SshdCheck::IsActive ==> call_ensures(C::is_active, (&ops.sshd(),), verdict),
        file == ManagedFile::TrustedCa ==> path@ == ops.config().trusted_ca_path@,
        file == ManagedFile::Dropin ==> path@ == ops.config().dropin_path@,
        file == ManagedFile::MainConfig ==> path@ == ops.config().main_sshd_config@,
        crate::protocol::chars_of(parent) == security::path_parent(
            if dir == ManagedDir::TrustedCa {
                ops.config().trusted_ca_path@
            } else {
                ops.config().dropin_path@
            },
        ),
{
}

/// Operations have the configuration and the control backend that they were made
/// with, and the user that the process runs as for owner; setting the owner changes
/// nothing else.
pub proof fn operations_are_what_they_were_made_from<C: SshdControl>(
    config: crate::ops::OpsConfig,
    sshd: C,
    made: HelperOps<C>,
    ops: HelperOps<C>,
    owner: u32,
    owned: HelperOps<C>,
)
    requires
        call_ensures(HelperOps::<C>::new, (config, sshd), made),
        call_ensures(HelperOps::<C>::with_owner, (ops, owner), owned),
    ensures
        made.config() == config,
        made.sshd() == sshd,
        call_ensures(crate::platform::effective_uid, (), made.owner()),
        owned.config() == ops.config(),
        owned.sshd() == ops.sshd(),
        owned.owner() == owner,
{
}

} // verus!
