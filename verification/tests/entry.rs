use shove::cfg::Cfg;
use shove::cli::{ColorWhen, Opts};
use shove::ft::{Error as FtError, Ft, Type};
use shove::log::{Event, Failure};
use shove::shover::entry::Stage;
use shove::shover::{Entry, Moved, Shover, Then};
use shove::sys::{Reply, Request};

fn s(x: &str) -> String {
    x.to_string()
}

fn shover(tweak: impl FnOnce(&mut Cfg, &mut Opts)) -> Shover {
    let mut cfg = Cfg::default();
    let mut opts = Opts {
        absolute: None,
        berserker: None,
        color: ColorWhen::Never,
        dots: Vec::new(),
        depth: None,
        follow: None,
        no: false,
        rage: None,
        unshove: false,
        verbose: 0,
        quiet: 0,
    };
    tweak(&mut cfg, &mut opts);
    Shover::new(cfg, opts).shover.unwrap()
}

/// Drives the visit of one entry with the replies given; returns all reports.
fn visit(sh: &Shover, src: &str, dest: &str, is_dir: bool, depth: usize, script: Vec<(Request, Reply)>) -> Vec<Event> {
    let mut moved = sh.shove(src, dest, is_dir, depth);
    let mut events = Vec::new();
    for (want, reply) in script {
        events.append(&mut moved.events);
        match moved.next {
            Then::Ask(entry, asked) => {
                assert_eq!(asked, want);
                moved = entry.step(sh, reply);
            }
            Then::Over => panic!("ended early, before {:?}; so far {:?}", want, events),
        }
    }
    events.append(&mut moved.events);
    match moved.next {
        Then::Over => events,
        Then::Ask(_, q) => panic!("still asks {:?}", q),
    }
}

fn visited(src: &str, dest: &str) -> Event {
    Event::Visit { src: s(src), dest: s(dest), back: false }
}

#[test]
fn a_free_destination_gets_its_link() {
    let sh = shover(|c, _| c.absolute = true);
    let events = visit(
        &sh,
        "dots/vim/rc",
        "/home/u/rc",
        false,
        1,
        vec![
            (Request::Lstat(s("/home/u/rc")), Reply::Flag(false)),
            (Request::Canonicalize(s("dots/vim/rc")), Reply::Path(s("/work/dots/vim/rc"))),
            (
                Request::Symlink { target: s("/work/dots/vim/rc"), link: s("/home/u/rc") },
                Reply::Done,
            ),
        ],
    );
    assert_eq!(
        events,
        vec![
            visited("dots/vim/rc", "/home/u/rc"),
            Event::Linked { dest: s("/home/u/rc"), target: s("/work/dots/vim/rc"), done: true },
        ]
    );
}

#[test]
fn a_relative_link_is_counted_from_the_destinations_directory() {
    let sh = shover(|_, _| {});
    let events = visit(
        &sh,
        "/src/dot/file",
        "/home/dest/file",
        false,
        1,
        vec![
            (Request::Lstat(s("/home/dest/file")), Reply::Flag(false)),
            (Request::Canonicalize(s("/src/dot/file")), Reply::Path(s("/src/dot/file"))),
            (
                Request::Symlink { target: s("../../src/dot/file"), link: s("/home/dest/file") },
                Reply::Done,
            ),
        ],
    );
    assert_eq!(
        events.last(),
        Some(&Event::Linked { dest: s("/home/dest/file"), target: s("../../src/dot/file"), done: true })
    );
}

#[test]
fn a_node_gets_its_directory() {
    let sh = shover(|c, _| c.depth = 2);
    let events = visit(
        &sh,
        "/d/a",
        "/home/dest/a",
        true,
        1,
        vec![
            (Request::Lstat(s("/home/dest/a")), Reply::Flag(false)),
            (Request::CreateDir(s("/home/dest/a")), Reply::Done),
        ],
    );
    assert_eq!(events, vec![visited("/d/a", "/home/dest/a"), Event::Made { dest: s("/home/dest/a"), done: true }]);
}

#[test]
fn a_directory_at_the_depth_gets_a_link() {
    let sh = shover(|c, _| {
        c.depth = 2;
        c.absolute = true
    });
    let events = visit(
        &sh,
        "/d/a/b",
        "/home/dest/a/b",
        true,
        2,
        vec![
            (Request::Lstat(s("/home/dest/a/b")), Reply::Flag(false)),
            (Request::Canonicalize(s("/d/a/b")), Reply::Path(s("/d/a/b"))),
            (Request::Symlink { target: s("/d/a/b"), link: s("/home/dest/a/b") }, Reply::Done),
        ],
    );
    assert_eq!(events.len(), 2);
}

#[test]
fn each_failure_gives_the_entry_up() {
    let sh = shover(|c, _| c.rage = 3);
    let failed = |why| Event::Failed { path: s("/home/u/rc"), why };

    let events = visit(&sh, "/d/rc", "/home/u/rc", false, 1, vec![
        (Request::Lstat(s("/home/u/rc")), Reply::Failed(s("permission denied"))),
    ]);
    assert_eq!(events, vec![visited("/d/rc", "/home/u/rc"), failed(Failure::Stat(s("permission denied")))]);

    let events = visit(&sh, "/d/rc", "/home/u/rc", false, 1, vec![
        (Request::Lstat(s("/home/u/rc")), Reply::Flag(true)),
        (Request::IsSymlink(s("/home/u/rc")), Reply::Failed(s("gone"))),
    ]);
    assert_eq!(events[1], failed(Failure::Look(FtError::Io(s("gone")))));

    let events = visit(&sh, "/d/rc", "/home/u/rc", false, 1, vec![
        (Request::Lstat(s("/home/u/rc")), Reply::Flag(true)),
        (Request::IsSymlink(s("/home/u/rc")), Reply::Flag(false)),
        (Request::IsDir(s("/home/u/rc")), Reply::Flag(false)),
        (Request::RemoveFile(s("/home/u/rc")), Reply::Failed(s("read-only"))),
    ]);
    assert_eq!(events[1], failed(Failure::Remove(FtError::Io(s("read-only")))));

    let events = visit(&sh, "/d/rc", "/home/u/rc", false, 1, vec![
        (Request::Lstat(s("/home/u/rc")), Reply::Flag(false)),
        (Request::Canonicalize(s("/d/rc")), Reply::Failed(s("vanished"))),
    ]);
    assert_eq!(events[1], failed(Failure::Source(s("vanished"))));

    let absolute = shover(|c, _| c.absolute = true);
    let events = visit(&absolute, "/d/rc", "/home/u/rc", false, 1, vec![
        (Request::Lstat(s("/home/u/rc")), Reply::Flag(false)),
        (Request::Canonicalize(s("/d/rc")), Reply::Path(s("/d/rc"))),
        (Request::Symlink { target: s("/d/rc"), link: s("/home/u/rc") }, Reply::Failed(s("no space"))),
    ]);
    assert_eq!(events[1], failed(Failure::Link(s("no space"))));

    let deep = shover(|_, _| {});
    let events = visit(&deep, "/d/a", "/home/u/rc", true, 1, vec![
        (Request::Lstat(s("/home/u/rc")), Reply::Flag(false)),
        (Request::CreateDir(s("/home/u/rc")), Reply::Failed(s("no space"))),
    ]);
    assert_eq!(events[1], failed(Failure::Dir(s("no space"))));

    let events = visit(&sh, "rc", "out/rc", false, 1, vec![
        (Request::Lstat(s("out/rc")), Reply::Flag(false)),
        (Request::Canonicalize(s("rc")), Reply::Path(s("/d/rc"))),
        (Request::CurrentDir, Reply::Failed(s("deleted"))),
    ]);
    assert_eq!(events[1], Event::Failed { path: s("out/rc"), why: Failure::Link(s("deleted")) });
}

#[test]
fn a_destination_without_a_directory_cannot_hold_a_relative_link() {
    let sh = shover(|_, _| {});
    let events = visit(&sh, "/d/rc", "/", false, 1, vec![
        (Request::Lstat(s("/")), Reply::Flag(false)),
        (Request::Canonicalize(s("/d/rc")), Reply::Path(s("/d/rc"))),
    ]);
    assert_eq!(events[1], Event::Failed { path: s("/"), why: Failure::NoParent });
}

fn linking(dest: &str) -> Entry {
    Entry { src: s("/d/rc"), dest: s(dest), node: false, stage: Stage::Canon }
}

#[test]
fn link_with_goes_on_with_the_path_found() {
    let sh = shover(|_, _| {});
    let moved = linking("/home/u/rc").link_with(&sh, Some(s("../../d/rc")));
    assert_eq!(moved.events, vec![]);
    match moved.next {
        Then::Ask(e, q) => {
            assert_eq!(q, Request::Symlink { target: s("../../d/rc"), link: s("/home/u/rc") });
            assert_eq!(e.stage, Stage::Linking { target: s("../../d/rc") });
        }
        Then::Over => panic!("nothing asked"),
    }
}

#[test]
fn link_with_gives_up_without_a_path() {
    let sh = shover(|_, _| {});
    let moved = linking("/home/u/rc").link_with(&sh, None);
    assert_eq!(
        moved,
        Moved {
            events: vec![Event::Failed { path: s("/home/u/rc"), why: Failure::NoRelative }],
            next: Then::Over,
        }
    );
}

#[test]
fn link_with_only_reports_in_a_dry_run() {
    let sh = shover(|_, o| o.no = true);
    let moved = linking("/home/u/rc").link_with(&sh, Some(s("../d/rc")));
    assert_eq!(
        moved,
        Moved {
            events: vec![Event::Linked { dest: s("/home/u/rc"), target: s("../d/rc"), done: false }],
            next: Then::Over,
        }
    );
}

#[test]
fn no_relative_path_leads_past_a_climb_in_the_destination() {
    // From /a/../c there is no telling where /a/b lies without looking at the disk.
    let sh = shover(|_, _| {});
    let events = visit(&sh, "/a/b", "/a/../c/rc", false, 1, vec![
        (Request::Lstat(s("/a/../c/rc")), Reply::Flag(false)),
        (Request::Canonicalize(s("/a/b")), Reply::Path(s("/a/b"))),
    ]);
    assert_eq!(events[1], Event::Failed { path: s("/a/../c/rc"), why: Failure::NoRelative });
}

#[test]
fn a_link_of_ours_is_kept_where_it_reads_as_wanted() {
    for absolute in [false, true] {
        let sh = shover(|c, _| c.absolute = absolute);
        let link = if absolute { "/d/rc" } else { "../../d/rc" };
        let entry = Entry {
            src: s("/d/rc"),
            dest: s("/home/u/rc"),
            node: false,
            stage: Stage::Mode { ft: Ft { path: s("/home/u/rc"), ty: Type::Dotlink } },
        };
        let moved = entry.step(&sh, Reply::Path(s(link)));
        assert_eq!(
            moved,
            Moved { events: vec![Event::Kept { dest: s("/home/u/rc"), ty: Type::Dotlink }], next: Then::Over }
        );
    }
}
