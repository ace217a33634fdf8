//! Hardened filesystem primitives.

use mayfly_helper::errors::Error;
use mayfly_helper::security::{
    atomic_replace, begin_write, ensure_not_group_or_world_writable, ensure_not_symlink,
    ensure_owned_by_root, is_symlink, parent_of, require, secure_write, usable_parent,
    validate_managed_dir, validate_managed_file, validate_mode_at_most, validate_owner,
    validate_trusted_file, Attempt, FileKind, FileMeta, WriteStage, WriteStep, MODE_DIR,
    MODE_PUBLIC, MODE_SECRET, ROOT_UID,
};

fn failed() -> std::io::Error {
    std::io::Error::new(std::io::ErrorKind::PermissionDenied, "denied")
}

fn missing<T>() -> Attempt<T> {
    Attempt::Missing(std::io::Error::new(std::io::ErrorKind::NotFound, "gone"))
}

fn file(uid: u32, mode: u32) -> Attempt<FileMeta> {
    Attempt::Done(FileMeta {
        kind: FileKind::Other,
        uid,
        mode,
    })
}

fn link(uid: u32) -> Attempt<FileMeta> {
    Attempt::Done(FileMeta {
        kind: FileKind::Symlink,
        uid,
        mode: 0o777,
    })
}

#[test]
fn secure_write_rejects_pathless_parent() {
    // A bare relative file name has a parent of "" which we treat as invalid.
    let write = secure_write("bare", b"x", MODE_PUBLIC);
    assert!(matches!(
        write.stage,
        WriteStage::Finished(Err(Error::InvalidPath))
    ));
}

#[test]
fn secure_write_takes_its_steps_in_order() {
    let mut write = secure_write("/etc/ssh/file", b"hello", MODE_SECRET);
    assert_eq!(write.target, "/etc/ssh/file");
    assert_eq!(write.source, None);
    assert_eq!(write.dir, "/etc/ssh");
    assert_eq!(write.contents, b"hello");
    assert_eq!(write.mode, 0o600);
    let steps = [
        WriteStep::CreateTemp,
        WriteStep::SetMode,
        WriteStep::WriteContents,
        WriteStep::SyncFile,
        WriteStep::KeepTemp,
        WriteStep::Rename,
        WriteStep::SyncDir,
    ];
    for step in steps {
        match &write.stage {
            WriteStage::At(at) => assert_eq!(*at, step),
            WriteStage::Finished(_) => panic!("finished before {step:?}"),
        }
        write = write.step(Ok(()));
    }
    assert!(matches!(write.stage, WriteStage::Finished(Ok(()))));
    assert_eq!(write.target, "/etc/ssh/file");
    // Nothing changes the end.
    let write = write.step(Err(failed()));
    assert!(matches!(write.stage, WriteStage::Finished(Ok(()))));
}

#[test]
fn secure_write_stops_at_the_first_failure() {
    for n in 0..7 {
        let mut write = secure_write("/a/b", b"x", MODE_PUBLIC);
        for _ in 0..n {
            write = write.step(Ok(()));
        }
        write = write.step(Err(failed()));
        assert!(matches!(
            write.stage,
            WriteStage::Finished(Err(Error::Io(_)))
        ));
    }
}

#[test]
fn atomic_replace_renames_then_syncs() {
    let write = atomic_replace("/a/src", "/a/dst");
    assert_eq!(write.source.as_deref(), Some("/a/src"));
    assert_eq!(write.target, "/a/dst");
    assert_eq!(write.dir, "/a");
    assert!(matches!(write.stage, WriteStage::At(WriteStep::Rename)));
    let write = write.step(Ok(()));
    assert!(matches!(write.stage, WriteStage::At(WriteStep::SyncDir)));
    let write = write.step(Ok(()));
    assert!(matches!(write.stage, WriteStage::Finished(Ok(()))));

    assert!(matches!(
        atomic_replace("/a/src", "dst").stage,
        WriteStage::Finished(Err(Error::InvalidPath))
    ));
}

#[test]
fn writes_begin_in_the_given_directory() {
    let write = begin_write(
        "/d/f",
        None,
        Some("/d".to_string()),
        b"x",
        0o644,
        WriteStep::CreateTemp,
    );
    assert_eq!(write.target, "/d/f");
    assert_eq!(write.dir, "/d");
    assert!(matches!(write.stage, WriteStage::At(WriteStep::CreateTemp)));
    let write = begin_write("f", None, None, b"x", 0o644, WriteStep::CreateTemp);
    assert!(matches!(
        write.stage,
        WriteStage::Finished(Err(Error::InvalidPath))
    ));
}

#[test]
fn parents_are_found() {
    assert_eq!(parent_of("/a/b").unwrap(), "/a");
    assert_eq!(parent_of("/a/b/").unwrap(), "/a");
    assert_eq!(parent_of("a/b").unwrap(), "a");
    assert_eq!(parent_of("/a").unwrap(), "/");
    for path in ["/", "", "bare"] {
        assert!(matches!(parent_of(path).unwrap_err(), Error::InvalidPath));
    }
    assert_eq!(usable_parent(Some("x".to_string())).unwrap(), "x");
    assert!(usable_parent(Some(String::new())).is_err());
    assert!(usable_parent(None).is_err());
}

#[test]
fn is_symlink_detects_links_and_handles_missing() {
    assert!(!is_symlink(file(0, 0o644)).unwrap());
    assert!(is_symlink(link(0)).unwrap());
    assert!(!is_symlink(missing()).unwrap());
    assert!(matches!(
        is_symlink(Attempt::Failed(failed())).unwrap_err(),
        Error::Io(_)
    ));
}

#[test]
fn ensure_not_symlink_rejects_links() {
    ensure_not_symlink(file(0, 0o644)).unwrap();
    ensure_not_symlink(missing()).unwrap();
    assert!(matches!(
        ensure_not_symlink(link(0)).unwrap_err(),
        Error::UnexpectedSymlink
    ));
}

#[test]
fn validate_owner_accepts_current_owner() {
    let uid = 501;
    validate_owner(file(uid, 0o644), uid).unwrap();
}

#[test]
fn validate_owner_rejects_wrong_owner() {
    let uid: u32 = 501;
    // Pick a uid that is definitely not the owner.
    let wrong = uid.wrapping_add(1);
    assert!(matches!(
        validate_owner(file(uid, 0o644), wrong).unwrap_err(),
        Error::InsecureOwnership
    ));
    assert!(matches!(
        validate_owner(missing(), uid).unwrap_err(),
        Error::Io(_)
    ));
}

#[test]
fn ensure_not_group_or_world_writable_enforced() {
    ensure_not_group_or_world_writable(file(0, 0o644)).unwrap();
    assert!(matches!(
        ensure_not_group_or_world_writable(file(0, 0o646)).unwrap_err(),
        Error::InsecurePermissions
    ));
    assert!(matches!(
        ensure_not_group_or_world_writable(file(0, 0o620)).unwrap_err(),
        Error::InsecurePermissions
    ));
    assert!(matches!(
        ensure_not_group_or_world_writable(missing()).unwrap_err(),
        Error::Io(_)
    ));
}

#[test]
fn validate_mode_at_most_enforced() {
    validate_mode_at_most(file(0, 0o600), 0o644).unwrap();
    validate_mode_at_most(file(0, 0o600), 0o600).unwrap();
    assert!(matches!(
        validate_mode_at_most(file(0, 0o755), 0o644).unwrap_err(),
        Error::InsecurePermissions
    ));
    // Bits beyond the permissions do not matter.
    validate_mode_at_most(file(0, 0o100600), 0o600).unwrap();
}

#[test]
fn validate_trusted_file_combines_checks() {
    assert!(validate_trusted_file(file(ROOT_UID, 0o644), 0o644).is_ok());
    assert!(matches!(
        validate_trusted_file(file(1000, 0o644), 0o644).unwrap_err(),
        Error::InsecureOwnership
    ));
    assert!(matches!(
        validate_trusted_file(file(ROOT_UID, 0o664), 0o644).unwrap_err(),
        Error::InsecurePermissions
    ));
    assert!(matches!(
        validate_trusted_file(missing(), 0o644).unwrap_err(),
        Error::Io(_)
    ));
}

#[test]
fn validate_trusted_file_rejects_symlink_first() {
    assert!(matches!(
        validate_trusted_file(link(1000), 0o644).unwrap_err(),
        Error::UnexpectedSymlink
    ));
}

#[test]
fn root_is_the_trusted_owner() {
    assert!(ensure_owned_by_root(file(0, 0o600)).is_ok());
    assert!(matches!(
        ensure_owned_by_root(file(1, 0o600)).unwrap_err(),
        Error::InsecureOwnership
    ));
}

#[test]
fn managed_paths_belong_to_the_expected_user() {
    assert!(validate_managed_dir(file(7, 0o777), 7).is_ok());
    // Root's are as good.
    assert!(validate_managed_dir(file(ROOT_UID, 0o755), 7).is_ok());
    assert!(validate_managed_file(file(ROOT_UID, 0o644), 7).is_ok());
    assert!(matches!(
        validate_managed_file(file(7, 0o644), ROOT_UID).unwrap_err(),
        Error::InsecureOwnership
    ));
    assert!(matches!(
        validate_managed_dir(link(7), 7).unwrap_err(),
        Error::UnexpectedSymlink
    ));
    assert!(matches!(
        validate_managed_dir(file(8, 0o755), 7).unwrap_err(),
        Error::InsecureOwnership
    ));
    assert!(matches!(
        validate_managed_dir(missing(), 7).unwrap_err(),
        Error::Io(_)
    ));
    assert!(validate_managed_file(file(7, 0o644), 7).is_ok());
    assert!(matches!(
        validate_managed_file(file(8, 0o666), 7).unwrap_err(),
        Error::InsecurePermissions
    ));
    assert!(matches!(
        validate_managed_file(file(8, 0o644), 7).unwrap_err(),
        Error::InsecureOwnership
    ));
}

#[test]
fn a_safe_mask_excludes_foreign_writers() {
    for mode in 0..0o1000u32 {
        for allowed in [0o600, 0o640, 0o644, 0o755] {
            if validate_mode_at_most(file(0, mode), allowed).is_ok() {
                assert!(ensure_not_group_or_world_writable(file(0, mode)).is_ok());
            }
        }
        // Whatever 0600 allows, 0644 allows.
        if validate_mode_at_most(file(0, mode), MODE_SECRET).is_ok() {
            assert!(validate_mode_at_most(file(0, mode), MODE_PUBLIC).is_ok());
        }
    }
}

#[test]
fn required_attempts_must_succeed() {
    assert_eq!(require(Attempt::Done(5)).unwrap(), 5);
    assert!(matches!(
        require::<u8>(missing()).unwrap_err(),
        Error::Io(_)
    ));
    assert!(matches!(
        require::<u8>(Attempt::Failed(failed())).unwrap_err(),
        Error::Io(_)
    ));
    assert_eq!(MODE_DIR, 0o700);
}

#[test]
fn target_is_old_or_new_whichever_step_fails() {
    for failing in 0..8 {
        let old = (b"old".to_vec(), 0o600);
        let new = (b"new contents".to_vec(), 0o644);
        let mut target = old.clone();
        let mut temp = (Vec::new(), 0o600);
        let mut write = secure_write("/d/file", &new.0, new.1);
        let mut n = 0;
        loop {
            let step = match &write.stage {
                WriteStage::At(step) => *step,
                WriteStage::Finished(_) => break,
            };
            let fails = n == failing;
            n += 1;
            match step {
                // A failed write leaves a partial temporary file.
                WriteStep::WriteContents if fails => temp.0 = write.contents[..3].to_vec(),
                _ if fails => {}
                WriteStep::SetMode => temp.1 = write.mode,
                WriteStep::WriteContents => temp.0.extend_from_slice(&write.contents),
                WriteStep::Rename => target = temp.clone(),
                _ => {}
            }
            write = write.step(if fails { Err(failed()) } else { Ok(()) });
            assert!(target == old || target == new);
        }
        match write.stage {
            WriteStage::Finished(Ok(())) => assert!(failing == 7 && target == new),
            WriteStage::Finished(Err(_)) => assert!(failing < 7),
            WriteStage::At(_) => unreachable!(),
        }
    }
}

#[test]
fn replaced_target_is_old_or_the_source() {
    for failing in 0..3 {
        let (old, source) = (b"old".to_vec(), b"source".to_vec());
        let mut target = old.clone();
        let mut write = atomic_replace("/d/src", "/d/dst");
        let mut n = 0;
        loop {
            let step = match &write.stage {
                WriteStage::At(step) => *step,
                WriteStage::Finished(_) => break,
            };
            let fails = n == failing;
            n += 1;
            if step == WriteStep::Rename && !fails {
                target = source.clone();
            }
            write = write.step(if fails { Err(failed()) } else { Ok(()) });
            assert!(target == old || target == source);
        }
        match write.stage {
            WriteStage::Finished(Ok(())) => assert!(failing == 2 && target == source),
            WriteStage::Finished(Err(_)) => assert!(failing < 2),
            WriteStage::At(_) => unreachable!(),
        }
    }
}
