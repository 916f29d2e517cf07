use drt::error::DrtError;
use drt::files::{DestFile, GenFile, Mode, SrcFile};
use drt::update::directory_ready;
use drt::fs::{
    can_create_dir, can_create_dir_maybe, create_dir, create_dir_answer, create_dir_maybe, create_question_text,
    made_dirs, CreateDir, DirCheck,
};

#[test]
fn test_parent() {
    // the check for a file in /tmp starts at /tmp
    let dest = DestFile::new(String::from("/tmp/test"));
    assert_eq!(can_create_dir_maybe(dest.parent()), DirCheck::Probe(String::from("/tmp")));
}

#[test]
fn can_create_dir_steps() {
    assert_eq!(can_create_dir_maybe(None), DirCheck::Done(Err(DrtError::PathNotFound0)));
    assert_eq!(can_create_dir(String::from("/root"), true, true), DirCheck::Done(Ok(String::from("/root"))));
    assert_eq!(
        can_create_dir(String::from("/root"), true, false),
        DirCheck::Done(Err(DrtError::InsufficientPrivileges(String::from("/root"))))
    );
    assert_eq!(
        can_create_dir(String::from("/root/nodir"), false, false),
        DirCheck::Probe(String::from("/root"))
    );
    assert_eq!(can_create_dir(String::from("/"), false, false), DirCheck::Done(Err(DrtError::PathNotFound0)));
}

#[test]
fn create_dir_in_each_mode() {
    assert_eq!(create_dir(Mode::Active, String::from("a/b"), true), CreateDir::Done(Ok(String::from("a/b"))));
    assert_eq!(create_dir(Mode::Interactive, String::from("a/b"), true), CreateDir::Done(Ok(String::from("a/b"))));
    // the default mode checks that an existing directory may be used
    assert_eq!(
        create_dir(Mode::Passive, String::from("/root"), true),
        CreateDir::CheckAccess(DirCheck::Probe(String::from("/root")))
    );
    assert_eq!(create_dir(Mode::Active, String::from("a/b"), false), CreateDir::MakeDirs(String::from("a/b")));
    assert_eq!(
        create_dir(Mode::Passive, String::from("a/b"), false),
        CreateDir::CheckSkipped(DirCheck::Probe(String::from("a")))
    );
    assert_eq!(
        create_dir(Mode::Interactive, String::from("a/b"), false),
        CreateDir::Ask(String::from("a/b"), String::from("create directory a/b (y/n)"))
    );
    assert_eq!(create_question_text("d"), "create directory d (y/n)");
}

#[test]
fn create_dir_after_an_answer() {
    assert_eq!(create_dir_answer(String::from("a/b"), 'y'), CreateDir::MakeDirs(String::from("a/b")));
    assert_eq!(
        create_dir_answer(String::from("a/b"), 'n'),
        CreateDir::CheckSkipped(DirCheck::Probe(String::from("a")))
    );
    assert_eq!(create_dir_answer(String::from("a/b"), 'x'), CreateDir::CheckExists(String::from("a/b")));
}

#[test]
fn create_dir_maybe_and_mkdirs() {
    assert_eq!(create_dir_maybe(Mode::Active, None), CreateDir::Done(Err(DrtError::PathNotFound0)));
    assert_eq!(
        create_dir_maybe(Mode::Active, Some(String::from("x"))),
        CreateDir::CheckExists(String::from("x"))
    );
    let dest = DestFile::new(String::from("template/out.config"));
    assert_eq!(dest.mkdirs(Mode::Passive), CreateDir::CheckExists(String::from("template")));
    let bare = DestFile::new(String::from("out.config"));
    assert_eq!(bare.mkdirs(Mode::Passive), CreateDir::CheckExists(String::from("")));
}

#[test]
fn made_dirs_outcome() {
    assert_eq!(made_dirs(String::from("d"), Ok(())), Ok(String::from("d")));
    assert_eq!(
        made_dirs(String::from("d"), Err(String::from("denied"))),
        Err(DrtError::IoError(String::from("denied")))
    );
}

#[test]
fn file_paths() {
    assert_eq!(SrcFile::new(String::from("a.cfg")).path(), "a.cfg");
    assert_eq!(DestFile::new(String::from("b.cfg")).path(), "b.cfg");
    assert_eq!(GenFile::new(String::from("/tmp/.tmp1HfpM6")).path(), "/tmp/.tmp1HfpM6");
    assert_eq!(DestFile::new(String::from("a/b/c")).parent(), Some(String::from("a/b")));
    assert_eq!(DestFile::new(String::from("c")).parent(), Some(String::from("")));
    assert_eq!(DestFile::new(String::from("/")).parent(), None);
}

#[test]
fn default_mode_reports_a_directory_that_cannot_be_used() {
    // `t Cargo.toml /root/outfile` for a user who may not write in /root
    let dest = DestFile::new(String::from("/root/outfile"));
    let step = dest.mkdirs(Mode::Passive);
    assert_eq!(step, CreateDir::CheckExists(String::from("/root")));
    let step = create_dir(Mode::Passive, String::from("/root"), true);
    let check = match step {
        CreateDir::CheckAccess(check) => check,
        _ => panic!("expected an access check"),
    };
    let probe = match check {
        DirCheck::Probe(p) => p,
        _ => panic!("expected a probe"),
    };
    let answer = can_create_dir(probe, true, false);
    match answer {
        DirCheck::Done(Err(e)) => {
            assert!(e.message().contains("Insufficient Privileges"));
            assert_eq!(
                drt::update::directory_ready(Mode::Passive, Err(e)),
                Err(DrtError::InsufficientPrivileges(String::from("/root")))
            );
        }
        _ => panic!("expected insufficient privileges"),
    }
    // `/root/nodir/outfile`: the missing directory is checked at its parent
    let step = create_dir(Mode::Passive, String::from("/root/nodir"), false);
    assert_eq!(step, CreateDir::CheckSkipped(DirCheck::Probe(String::from("/root"))));
}

#[test]
fn only_the_default_mode_stops_at_a_directory() {
    let denied = || Err(DrtError::InsufficientPrivileges(String::from("/root")));
    assert_eq!(directory_ready(Mode::Active, denied()), Ok(()));
    assert_eq!(directory_ready(Mode::Interactive, denied()), Ok(()));
    assert_eq!(directory_ready(Mode::Passive, Err(DrtError::PathNotFound0)), Ok(()));
    assert_eq!(directory_ready(Mode::Passive, Ok(String::from("/tmp"))), Ok(()));
}
