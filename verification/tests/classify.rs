use shove::ft::{Error, Ft, Step, Type};
use shove::sys::{Reply, Request};

/// Drives a look with the replies given and checks each question on the way.
fn look(src: &str, dest: &str, script: Vec<(Request, Reply)>) -> Result<Ft, Error> {
    let mut step = Ft::new(src, dest);
    for (want, reply) in script {
        match step {
            Step::Ask(probe, asked) => {
                assert_eq!(asked, want);
                step = probe.step(reply);
            }
            Step::Done(r) => panic!("ended early with {:?}, before {:?}", r, want),
        }
    }
    match step {
        Step::Done(r) => r,
        Step::Ask(_, q) => panic!("still asks {:?}", q),
    }
}

fn s(x: &str) -> String {
    x.to_string()
}

fn ok(path: &str, ty: Type) -> Result<Ft, Error> {
    Ok(Ft { path: s(path), ty })
}

#[test]
fn a_regular_file_is_a_file() {
    let r = look(
        "/src/f",
        "/home/f",
        vec![
            (Request::IsSymlink(s("/home/f")), Reply::Flag(false)),
            (Request::IsDir(s("/home/f")), Reply::Flag(false)),
        ],
    );
    assert_eq!(r, ok("/home/f", Type::File));
}

#[test]
fn a_directory_without_entries_is_empty() {
    let r = look(
        "/src/d",
        "/home/d",
        vec![
            (Request::IsSymlink(s("/home/d")), Reply::Flag(false)),
            (Request::IsDir(s("/home/d")), Reply::Flag(true)),
            (Request::CountEntries(s("/home/d")), Reply::Count(0)),
        ],
    );
    assert_eq!(r, ok("/home/d", Type::EmptyDir));
}

#[test]
fn a_directory_with_entries_is_not_empty() {
    for n in [1, 2, 1000] {
        let r = look(
            "/src/d",
            "/home/d",
            vec![
                (Request::IsSymlink(s("/home/d")), Reply::Flag(false)),
                (Request::IsDir(s("/home/d")), Reply::Flag(true)),
                (Request::CountEntries(s("/home/d")), Reply::Count(n)),
            ],
        );
        assert_eq!(r, ok("/home/d", Type::NonemptyDir));
    }
}

#[test]
fn an_absolute_link_to_the_source_is_ours() {
    let r = look(
        "/src/f",
        "/home/f",
        vec![
            (Request::IsSymlink(s("/home/f")), Reply::Flag(true)),
            (Request::ReadLink(s("/home/f")), Reply::Path(s("/src/f"))),
            (Request::Exists(s("/src/f")), Reply::Flag(true)),
            (Request::SameFile(s("/src/f"), s("/src/f")), Reply::Flag(true)),
        ],
    );
    assert_eq!(r, ok("/home/f", Type::Dotlink));
}

#[test]
fn a_link_to_somewhere_else_is_foreign() {
    let r = look(
        "/src/f",
        "/home/f",
        vec![
            (Request::IsSymlink(s("/home/f")), Reply::Flag(true)),
            (Request::ReadLink(s("/home/f")), Reply::Path(s("/etc/passwd"))),
            (Request::Exists(s("/etc/passwd")), Reply::Flag(true)),
            (Request::SameFile(s("/etc/passwd"), s("/src/f")), Reply::Flag(false)),
        ],
    );
    assert_eq!(r, ok("/home/f", Type::Symlink));
}

#[test]
fn a_link_to_nothing_is_ours() {
    let r = look(
        "/src/f",
        "/home/f",
        vec![
            (Request::IsSymlink(s("/home/f")), Reply::Flag(true)),
            (Request::ReadLink(s("/home/f")), Reply::Path(s("/gone"))),
            (Request::Exists(s("/gone")), Reply::Flag(false)),
        ],
    );
    assert_eq!(r, ok("/home/f", Type::Dotlink));
}

#[test]
fn a_relative_link_is_read_from_the_directory_that_holds_it() {
    let r = look(
        "/src/dot/file",
        "/home/dest/file",
        vec![
            (Request::IsSymlink(s("/home/dest/file")), Reply::Flag(true)),
            (Request::ReadLink(s("/home/dest/file")), Reply::Path(s("../../src/dot/file"))),
            (Request::Canonicalize(s("/home/dest")), Reply::Path(s("/home/dest"))),
            (Request::Exists(s("/src/dot/file")), Reply::Flag(true)),
            (Request::SameFile(s("/src/dot/file"), s("/src/dot/file")), Reply::Flag(true)),
        ],
    );
    assert_eq!(r, ok("/home/dest/file", Type::Dotlink));
}

#[test]
fn the_holding_directory_is_taken_in_its_canonical_form() {
    // /home/dest is itself a link to /mnt/real/dest: the relative link counts
    // from there, not from the path as it was spelled.
    let r = look(
        "/mnt/src/file",
        "/home/dest/file",
        vec![
            (Request::IsSymlink(s("/home/dest/file")), Reply::Flag(true)),
            (Request::ReadLink(s("/home/dest/file")), Reply::Path(s("../../src/file"))),
            (Request::Canonicalize(s("/home/dest")), Reply::Path(s("/mnt/real/dest"))),
            (Request::Exists(s("/mnt/src/file")), Reply::Flag(true)),
            (Request::SameFile(s("/mnt/src/file"), s("/mnt/src/file")), Reply::Flag(true)),
        ],
    );
    assert_eq!(r, ok("/home/dest/file", Type::Dotlink));
}

#[test]
fn a_relative_destination_is_placed_in_the_working_directory_first() {
    let r = look(
        "dots/vim/rc",
        "out/rc",
        vec![
            (Request::IsSymlink(s("out/rc")), Reply::Flag(true)),
            (Request::ReadLink(s("out/rc")), Reply::Path(s("../dots/vim/rc"))),
            (Request::CurrentDir, Reply::Path(s("/work"))),
            (Request::Canonicalize(s("/work")), Reply::Path(s("/work"))),
            (Request::Canonicalize(s("/work/out")), Reply::Path(s("/work/out"))),
            (Request::Exists(s("/work/dots/vim/rc")), Reply::Flag(true)),
            (Request::SameFile(s("/work/dots/vim/rc"), s("dots/vim/rc")), Reply::Flag(false)),
        ],
    );
    assert_eq!(r, ok("out/rc", Type::Symlink));
}

#[test]
fn a_failure_on_the_way_ends_the_look() {
    let r = look(
        "/src/f",
        "/home/f",
        vec![
            (Request::IsSymlink(s("/home/f")), Reply::Flag(true)),
            (Request::ReadLink(s("/home/f")), Reply::Failed(s("permission denied"))),
        ],
    );
    assert_eq!(r, Err(Error::Io(s("permission denied"))));

    let r = look(
        "/src/d",
        "/home/d",
        vec![
            (Request::IsSymlink(s("/home/d")), Reply::Flag(false)),
            (Request::IsDir(s("/home/d")), Reply::Flag(true)),
            (Request::CountEntries(s("/home/d")), Reply::Failed(s("not readable"))),
        ],
    );
    assert_eq!(r, Err(Error::Io(s("not readable"))));

    let r = look(
        "/src/f",
        "/home/f",
        vec![
            (Request::IsSymlink(s("/home/f")), Reply::Flag(true)),
            (Request::ReadLink(s("/home/f")), Reply::Path(s("/src/f"))),
            (Request::Exists(s("/src/f")), Reply::Flag(true)),
            (Request::SameFile(s("/src/f"), s("/src/f")), Reply::Failed(s("stale handle"))),
        ],
    );
    assert_eq!(r, Err(Error::Io(s("stale handle"))));
}

#[test]
fn a_reply_that_does_not_fit_is_a_failure() {
    let r = look(
        "/src/f",
        "/home/f",
        vec![(Request::IsSymlink(s("/home/f")), Reply::Count(3))],
    );
    assert_eq!(r, Err(Error::Io(s("unexpected reply"))));
}

#[test]
fn a_link_at_the_root_has_no_directory() {
    let r = look(
        "/src/f",
        "/",
        vec![
            (Request::IsSymlink(s("/")), Reply::Flag(true)),
            (Request::ReadLink(s("/")), Reply::Path(s("x"))),
        ],
    );
    assert_eq!(r, Err(Error::Io(s("destination has no parent directory"))));
}
