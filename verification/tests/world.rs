use shove::cfg::Cfg;
use shove::cli::{ColorWhen, Opts};
use shove::dot::{Dots, ErrKind, Info, Sh};
use shove::ft::{Error as FtError, RageErr, Type};
use shove::log::{Event, Failure};
use shove::shover::{Next, Shover};
use shove::sys::{Reply, Request};
use shove::util::rel_canon;
use std::collections::{BTreeMap, VecDeque};

// A filesystem in memory, just large enough to drive a run.

#[derive(Clone, Debug, PartialEq, Eq)]
enum Node {
    File,
    Dir,
    Link(String),
}

struct Fs {
    nodes: BTreeMap<String, Node>,
    cwd: String,
    /// The levels of the walk under way: what is left of each directory, and how deep it lies.
    levels: Vec<(VecDeque<String>, usize)>,
    max_depth: Option<usize>,
    follow: bool,
    /// Whether the walk went into the directory that it gave last.
    entered: bool,
    asked: Vec<String>,
    changes: usize,
}

fn up(p: &str) -> String {
    match p.rfind('/') {
        Some(0) | None => "/".to_string(),
        Some(i) => p[..i].to_string(),
    }
}

fn down(dir: &str, name: &str) -> String {
    if dir.ends_with('/') {
        format!("{}{}", dir, name)
    } else {
        format!("{}/{}", dir, name)
    }
}

impl Fs {
    fn new() -> Fs {
        let mut nodes = BTreeMap::new();
        nodes.insert("/".to_string(), Node::Dir);
        Fs {
            nodes,
            cwd: "/".to_string(),
            levels: Vec::new(),
            max_depth: None,
            follow: false,
            entered: false,
            asked: Vec::new(),
            changes: 0,
        }
    }

    fn dir(&mut self, p: &str) {
        if p != "/" {
            self.dir(&up(p));
            self.nodes.insert(p.to_string(), Node::Dir);
        }
    }

    fn file(&mut self, p: &str) {
        self.dir(&up(p));
        self.nodes.insert(p.to_string(), Node::File);
    }

    fn link(&mut self, p: &str, target: &str) {
        self.dir(&up(p));
        self.nodes.insert(p.to_string(), Node::Link(target.to_string()));
    }

    fn at(&self, p: &str) -> Option<&Node> {
        self.nodes.get(p)
    }

    /// Where a path really leads, links followed on the way and, if asked, at its end.
    fn leads(&self, p: &str, follow_last: bool, budget: usize) -> Option<String> {
        if budget == 0 {
            return None;
        }
        let full = if p.starts_with('/') { p.to_string() } else { down(&self.cwd, p) };
        let parts: Vec<&str> = full.split('/').filter(|c| !c.is_empty() && *c != ".").collect();
        let mut cur = "/".to_string();
        for (i, part) in parts.iter().enumerate() {
            if *part == ".." {
                cur = up(&cur);
                continue;
            }
            let next = down(&cur, part);
            let last = i + 1 == parts.len();
            match self.nodes.get(&next) {
                None => return None,
                Some(Node::Link(t)) if !last || follow_last => {
                    let mut to = if t.starts_with('/') { t.clone() } else { down(&cur, t) };
                    for rest in &parts[i + 1..] {
                        to = down(&to, rest);
                    }
                    return self.leads(&to, follow_last, budget - 1);
                }
                Some(Node::Dir) => cur = next,
                Some(_) if last => cur = next,
                Some(_) => return None,
            }
        }
        Some(cur)
    }

    fn children(&self, dir: &str) -> Vec<String> {
        self.nodes
            .keys()
            .filter(|k| k.as_str() != "/" && up(k) == dir)
            .map(|k| k[k.rfind('/').unwrap() + 1..].to_string())
            .collect()
    }

    fn is_dir(&self, p: &str) -> bool {
        matches!(self.leads(p, true, 16).and_then(|r| self.at(&r).cloned()), Some(Node::Dir))
    }

    /// Whether a walk goes below the entry at `p`.
    fn descends(&self, p: &str) -> bool {
        match self.leads(p, false, 16).and_then(|r| self.at(&r).cloned()) {
            Some(Node::Dir) => true,
            Some(Node::Link(_)) => self.follow && self.is_dir(p),
            _ => false,
        }
    }

    fn listing(&self, p: &str) -> VecDeque<String> {
        let place = self.leads(p, true, 16).unwrap();
        self.children(&place).iter().map(|n| down(p, n)).collect()
    }

    fn bottom_up(&self, p: &str, depth: usize, out: &mut VecDeque<String>) {
        for child in self.listing(p) {
            if self.descends(&child) && self.max_depth.map_or(true, |m| depth < m) {
                self.bottom_up(&child, depth + 1, out);
            }
            out.push_back(format!("{} {}", depth, child));
        }
    }

    fn failed(what: &str) -> Reply {
        Reply::Failed(what.to_string())
    }

    fn perform(&mut self, q: Request) -> Reply {
        self.asked.push(format!("{:?}", q));
        if q.mutates() {
            self.changes += 1;
        }
        match q {
            Request::Exists(p) => Reply::Flag(self.leads(&p, true, 16).is_some()),
            Request::Lstat(p) => Reply::Flag(self.leads(&p, false, 16).is_some()),
            Request::IsSymlink(p) => Reply::Flag(matches!(
                self.leads(&p, false, 16).and_then(|r| self.at(&r).cloned()),
                Some(Node::Link(_))
            )),
            Request::IsDir(p) => Reply::Flag(self.is_dir(&p)),
            Request::ReadLink(p) => match self.leads(&p, false, 16).and_then(|r| self.at(&r).cloned()) {
                Some(Node::Link(t)) => Reply::Path(t),
                _ => Self::failed("not a link"),
            },
            Request::CountEntries(p) => match self.leads(&p, true, 16) {
                Some(r) => Reply::Count(self.children(&r).len()),
                None => Self::failed("no such directory"),
            },
            Request::SameFile(a, b) => match (self.leads(&a, true, 16), self.leads(&b, true, 16)) {
                (Some(x), Some(y)) => Reply::Flag(x == y),
                _ => Self::failed("no such file"),
            },
            Request::Canonicalize(p) => match self.leads(&p, true, 16) {
                Some(r) => Reply::Path(r),
                None => Self::failed("no such file"),
            },
            Request::CurrentDir => Reply::Path(self.cwd.clone()),
            Request::Expand(p) => Reply::Expanded(Sh::try_from(&p)),
            Request::RemoveFile(p) => match self.leads(&p, false, 16) {
                Some(r) if self.at(&r) != Some(&Node::Dir) => {
                    self.nodes.remove(&r);
                    Reply::Done
                }
                _ => Self::failed("not a file"),
            },
            Request::RemoveDir(p) => match self.leads(&p, false, 16) {
                Some(r) if self.at(&r) == Some(&Node::Dir) && self.children(&r).is_empty() => {
                    self.nodes.remove(&r);
                    Reply::Done
                }
                _ => Self::failed("not an empty directory"),
            },
            Request::RemoveDirAll(p) => match self.leads(&p, false, 16) {
                Some(r) if self.at(&r) == Some(&Node::Dir) => {
                    let below = format!("{}/", r);
                    self.nodes.retain(|k, _| *k != r && !k.starts_with(&below));
                    Reply::Done
                }
                _ => Self::failed("not a directory"),
            },
            Request::Symlink { target, link } => {
                if self.leads(&link, false, 16).is_some() {
                    return Self::failed("file exists");
                }
                let full = if link.starts_with('/') { link } else { down(&self.cwd, &link) };
                match self.leads(&up(&full), true, 16) {
                    Some(dir) if self.at(&dir) == Some(&Node::Dir) => {
                        let name = &full[full.rfind('/').unwrap() + 1..];
                        self.nodes.insert(down(&dir, name), Node::Link(target));
                        Reply::Done
                    }
                    _ => Self::failed("no such directory"),
                }
            }
            Request::CreateDir(p) => {
                if self.leads(&p, false, 16).is_some() {
                    return Self::failed("file exists");
                }
                let full = if p.starts_with('/') { p } else { down(&self.cwd, &p) };
                match self.leads(&up(&full), true, 16) {
                    Some(dir) if self.at(&dir) == Some(&Node::Dir) => {
                        let name = &full[full.rfind('/').unwrap() + 1..];
                        self.nodes.insert(down(&dir, name), Node::Dir);
                        Reply::Done
                    }
                    _ => Self::failed("no such directory"),
                }
            }
            Request::CreateDirAll(p) => {
                let full = if p.starts_with('/') { p } else { down(&self.cwd, &p) };
                self.dir(&full);
                Reply::Done
            }
            Request::Walk { root, min_depth, max_depth, follow, contents_first } => {
                assert_eq!(min_depth, 1);
                self.max_depth = max_depth;
                self.follow = follow;
                self.entered = false;
                if !self.is_dir(&root) {
                    return Self::failed("no such directory");
                }
                let mut first = self.listing(&root);
                if contents_first {
                    first = VecDeque::new();
                    self.bottom_up(&root, 1, &mut first);
                    self.levels = vec![(first, 0)];
                } else {
                    self.levels = vec![(first, 1)];
                }
                Reply::Done
            }
            Request::NextEntry => loop {
                let Some((level, depth)) = self.levels.last_mut() else {
                    return Reply::End;
                };
                let depth = *depth;
                let Some(item) = level.pop_front() else {
                    self.levels.pop();
                    continue;
                };
                if depth == 0 {
                    // A walk from the bottom up was laid out in advance.
                    let (d, path) = item.split_once(' ').unwrap();
                    let is_dir = self.is_dir(path);
                    return Reply::Entry { path: path.to_string(), depth: d.parse().unwrap(), is_dir };
                }
                self.entered = false;
                if self.descends(&item) && self.max_depth.map_or(true, |m| depth < m) {
                    let below = self.listing(&item);
                    self.levels.push((below, depth + 1));
                    self.entered = true;
                }
                let is_dir = self.is_dir(&item);
                return Reply::Entry { path: item, depth, is_dir };
            },
            Request::SkipSubtree => {
                if self.entered {
                    self.levels.pop();
                    self.entered = false;
                }
                Reply::Done
            }
        }
    }

    /// All that lies below `dir`.
    fn under(&self, dir: &str) -> BTreeMap<String, Node> {
        let below = format!("{}/", dir);
        self.nodes.iter().filter(|(k, _)| k.starts_with(&below)).map(|(k, v)| (k.clone(), v.clone())).collect()
    }
}

struct Outcome {
    events: Vec<Event>,
    halted: bool,
}

fn drive(shover: &Shover, fs: &mut Fs) -> Outcome {
    let mut events = Vec::new();
    let mut turn = shover.shove_dots();
    for _ in 0..100_000 {
        events.append(&mut turn.events);
        match turn.next {
            Next::Ask(q) => {
                assert!(!(shover.no && q.mutates()), "a dry run asked for {:?}", q);
                assert!(!matches!(q, Request::Expand(_)), "the driver was asked for {:?}", q);
                let reply = fs.perform(q);
                turn = shover.proceed(turn.run, reply);
            }
            Next::Halt => return Outcome { events, halted: true },
            Next::Done => return Outcome { events, halted: false },
        }
    }
    panic!("the run does not end");
}

fn s(x: &str) -> String {
    x.to_string()
}

fn opts() -> Opts {
    Opts {
        absolute: None,
        berserker: None,
        color: ColorWhen::Auto,
        dots: Vec::new(),
        depth: None,
        follow: None,
        no: false,
        rage: None,
        unshove: false,
        verbose: 0,
        quiet: 0,
    }
}

fn cfg(dots: &[(&str, &str, &str)]) -> Cfg {
    let mut registry = Dots::new();
    for (name, src, dest) in dots {
        registry.insert(s(name), Info::Table { dest: s(dest), src: s(src) });
    }
    Cfg { dots: registry, ..Cfg::default() }
}

fn engine(cfg: Cfg, opts: Opts) -> Shover {
    let setup = Shover::new(cfg, opts);
    assert_eq!(setup.events, vec![]);
    setup.shover.unwrap()
}

/// The source /d/a/b/file and an empty destination /home/dest.
fn small() -> Fs {
    let mut fs = Fs::new();
    fs.file("/d/a/b/file");
    fs.dir("/home/dest");
    fs
}

fn tree(pairs: &[(&str, Node)]) -> BTreeMap<String, Node> {
    pairs.iter().map(|(k, v)| (s(k), v.clone())).collect()
}

fn quiet(events: &[Event]) -> bool {
    events.iter().all(|e| {
        matches!(e, Event::Dot(_) | Event::Visit { .. } | Event::Kept { .. } | Event::Ignored(_))
    })
}

#[test]
fn depth_one_links_the_top_level() {
    let mut fs = small();
    let c = Cfg { absolute: true, depth: 1, ..cfg(&[("d", "/d", "/home/dest")]) };
    let out = drive(&engine(c, opts()), &mut fs);
    assert!(!out.halted);
    assert_eq!(fs.under("/home/dest"), tree(&[("/home/dest/a", Node::Link(s("/d/a")))]));
    assert_eq!(
        out.events,
        vec![
            Event::Dot(s("d")),
            Event::Visit { src: s("/d/a"), dest: s("/home/dest/a"), back: false },
            Event::Linked { dest: s("/home/dest/a"), target: s("/d/a"), done: true },
        ]
    );
}

#[test]
fn depth_two_mirrors_one_level_of_directories() {
    let mut fs = small();
    let c = Cfg { absolute: true, depth: 2, ..cfg(&[("d", "/d", "/home/dest")]) };
    let out = drive(&engine(c, opts()), &mut fs);
    assert!(!out.halted);
    assert_eq!(
        fs.under("/home/dest"),
        tree(&[("/home/dest/a", Node::Dir), ("/home/dest/a/b", Node::Link(s("/d/a/b")))])
    );
    assert_eq!(
        out.events,
        vec![
            Event::Dot(s("d")),
            Event::Visit { src: s("/d/a"), dest: s("/home/dest/a"), back: false },
            Event::Made { dest: s("/home/dest/a"), done: true },
            Event::Visit { src: s("/d/a/b"), dest: s("/home/dest/a/b"), back: false },
            Event::Linked { dest: s("/home/dest/a/b"), target: s("/d/a/b"), done: true },
        ]
    );
}

#[test]
fn depth_zero_mirrors_every_directory() {
    let mut fs = small();
    fs.file("/d/rc");
    let c = Cfg { absolute: true, ..cfg(&[("d", "/d", "/home/dest")]) };
    drive(&engine(c, opts()), &mut fs);
    assert_eq!(
        fs.under("/home/dest"),
        tree(&[
            ("/home/dest/a", Node::Dir),
            ("/home/dest/a/b", Node::Dir),
            ("/home/dest/a/b/file", Node::Link(s("/d/a/b/file"))),
            ("/home/dest/rc", Node::Link(s("/d/rc"))),
        ])
    );
}

#[test]
fn a_relative_link_leads_back_to_the_source() {
    let mut fs = Fs::new();
    fs.file("/src/dot/file");
    fs.dir("/home/dest");
    let out = drive(&engine(cfg(&[("dot", "/src/dot", "/home/dest")]), opts()), &mut fs);
    assert_eq!(
        out.events.last(),
        Some(&Event::Linked { dest: s("/home/dest/file"), target: s("../../src/dot/file"), done: true })
    );
    assert_eq!(fs.at("/home/dest/file"), Some(&Node::Link(s("../../src/dot/file"))));
    assert_eq!(rel_canon("/home/dest", "../../src/dot/file"), "/src/dot/file");
    assert_eq!(fs.leads("/home/dest/file", true, 16), Some(s("/src/dot/file")));
}

#[test]
fn a_relative_link_counts_from_its_own_directory() {
    let mut fs = small();
    drive(&engine(cfg(&[("d", "/d", "/home/dest")]), opts()), &mut fs);
    assert_eq!(fs.at("/home/dest/a/b/file"), Some(&Node::Link(s("../../../../d/a/b/file"))));
    assert_eq!(fs.leads("/home/dest/a/b/file", true, 16), Some(s("/d/a/b/file")));
}

#[test]
fn a_relative_destination_is_taken_from_the_working_directory() {
    let mut fs = Fs::new();
    fs.file("/work/dots/vim/rc");
    fs.cwd = s("/work");
    let out = drive(&engine(cfg(&[("vim", "dots/vim", "out")]), opts()), &mut fs);
    assert!(!out.halted);
    assert_eq!(fs.at("/work/out/rc"), Some(&Node::Link(s("../dots/vim/rc"))));
    assert_eq!(fs.leads("out/rc", true, 16), Some(s("/work/dots/vim/rc")));
    // The second pass finds the relative link from the relative destination its own.
    let before = fs.nodes.clone();
    let again = drive(&engine(cfg(&[("vim", "dots/vim", "out")]), opts()), &mut fs);
    assert!(quiet(&again.events), "{:?}", again.events);
    assert_eq!(fs.nodes, before);
}

#[test]
fn a_second_pass_changes_nothing() {
    for absolute in [false, true] {
        for depth in [0, 1, 2, 3] {
            let mut fs = small();
            fs.file("/d/rc");
            fs.file("/d/a/x");
            let make = || Cfg { absolute, depth, ..cfg(&[("d", "/d", "/home/dest")]) };
            let first = drive(&engine(make(), opts()), &mut fs);
            assert!(!first.halted);
            assert!(fs.changes > 0);
            let after_first = fs.nodes.clone();
            fs.changes = 0;
            let second = drive(&engine(make(), opts()), &mut fs);
            assert!(!second.halted);
            assert_eq!(fs.nodes, after_first, "absolute {} depth {}", absolute, depth);
            assert_eq!(fs.changes, 0);
            assert!(quiet(&second.events), "{:?}", second.events);
            assert!(second.events.iter().any(|e| matches!(e, Event::Kept { .. })));
        }
    }
}

#[test]
fn taking_away_restores_an_empty_destination() {
    for absolute in [false, true] {
        let mut fs = small();
        fs.file("/d/rc");
        let before = fs.nodes.clone();
        let make = || Cfg { absolute, depth: 1, ..cfg(&[("d", "/d", "/home/dest")]) };
        drive(&engine(make(), opts()), &mut fs);
        assert_ne!(fs.nodes, before);
        let out = drive(&engine(make(), Opts { unshove: true, ..opts() }), &mut fs);
        assert!(!out.halted);
        assert_eq!(fs.nodes, before);
        assert_eq!(
            out.events,
            vec![
                Event::Dot(s("d")),
                Event::Visit { src: s("/d/a"), dest: s("/home/dest/a"), back: true },
                Event::Removed { dest: s("/home/dest/a"), ty: Type::Dotlink, done: true },
                Event::Visit { src: s("/d/rc"), dest: s("/home/dest/rc"), back: true },
                Event::Removed { dest: s("/home/dest/rc"), ty: Type::Dotlink, done: true },
            ]
        );
    }
}

#[test]
fn taking_away_directories_takes_rage() {
    let mut fs = small();
    let before = fs.nodes.clone();
    let make = |rage| Cfg { absolute: true, rage, berserker: true, ..cfg(&[("d", "/d", "/home/dest")]) };
    drive(&engine(make(0), opts()), &mut fs);
    // Without rage the links go and the directories stay.
    let out = drive(&engine(make(0), Opts { unshove: true, ..opts() }), &mut fs);
    assert!(!out.halted);
    assert_eq!(
        fs.under("/home/dest"),
        tree(&[("/home/dest/a", Node::Dir), ("/home/dest/a/b", Node::Dir)])
    );
    assert!(out.events.contains(&Event::Failed {
        path: s("/home/dest/a/b"),
        why: Failure::Remove(FtError::Rage(RageErr::new(Type::EmptyDir, 0, 2))),
    }));
    // With rage enough for an empty directory they go too, the deepest first.
    let out = drive(&engine(make(2), Opts { unshove: true, ..opts() }), &mut fs);
    assert_eq!(fs.nodes, before);
    assert_eq!(
        out.events,
        vec![
            Event::Dot(s("d")),
            Event::Visit { src: s("/d/a/b/file"), dest: s("/home/dest/a/b/file"), back: true },
            Event::Visit { src: s("/d/a/b"), dest: s("/home/dest/a/b"), back: true },
            Event::Removed { dest: s("/home/dest/a/b"), ty: Type::EmptyDir, done: true },
            Event::Visit { src: s("/d/a"), dest: s("/home/dest/a"), back: true },
            Event::Removed { dest: s("/home/dest/a"), ty: Type::EmptyDir, done: true },
        ]
    );
}

#[test]
fn taking_away_leaves_foreign_content_alone() {
    let mut fs = small();
    fs.file("/d/rc");
    fs.file("/home/dest/rc");
    fs.link("/home/dest/a", "/etc");
    fs.dir("/etc");
    let before = fs.nodes.clone();
    let c = Cfg { depth: 1, berserker: true, ..cfg(&[("d", "/d", "/home/dest")]) };
    let out = drive(&engine(c, Opts { unshove: true, ..opts() }), &mut fs);
    assert_eq!(fs.nodes, before);
    assert_eq!(
        out.events,
        vec![
            Event::Dot(s("d")),
            Event::Visit { src: s("/d/a"), dest: s("/home/dest/a"), back: true },
            Event::Failed {
                path: s("/home/dest/a"),
                why: Failure::Remove(FtError::Rage(RageErr::new(Type::Symlink, 0, 1))),
            },
            Event::Visit { src: s("/d/rc"), dest: s("/home/dest/rc"), back: true },
            Event::Failed {
                path: s("/home/dest/rc"),
                why: Failure::Remove(FtError::Rage(RageErr::new(Type::File, 0, 2))),
            },
        ]
    );
}

fn with_git() -> Fs {
    let mut fs = Fs::new();
    fs.file("/d/.git/config");
    fs.file("/d/.git/hooks/pre-commit");
    fs.file("/d/vimrc");
    fs.dir("/home/dest");
    fs
}

#[test]
fn what_is_ignored_yields_nothing() {
    let mut fs = with_git();
    let c = Cfg { absolute: true, ignore: vec![s(r"\.git$")], ..cfg(&[("d", "/d", "/home/dest")]) };
    let out = drive(&engine(c, opts()), &mut fs);
    assert_eq!(fs.under("/home/dest"), tree(&[("/home/dest/vimrc", Node::Link(s("/d/vimrc")))]));
    assert_eq!(
        out.events,
        vec![
            Event::Dot(s("d")),
            Event::Ignored(s("/d/.git")),
            Event::Visit { src: s("/d/vimrc"), dest: s("/home/dest/vimrc"), back: false },
            Event::Linked { dest: s("/home/dest/vimrc"), target: s("/d/vimrc"), done: true },
        ]
    );
    // Nothing was asked about the ignored entry's place or about anything below it.
    assert!(fs.asked.iter().all(|q| !q.contains("/home/dest/.git")), "{:?}", fs.asked);
    assert!(fs.asked.iter().all(|q| !q.contains("/d/.git/")), "{:?}", fs.asked);
}

#[test]
fn what_lies_below_an_ignored_directory_is_not_taken_away_either() {
    let mut fs = with_git();
    let make = |ignore| Cfg { absolute: true, ignore, rage: 3, ..cfg(&[("d", "/d", "/home/dest")]) };
    drive(&engine(make(vec![]), opts()), &mut fs);
    let shoved = fs.under("/home/dest");
    assert!(shoved.contains_key("/home/dest/.git/hooks/pre-commit"));
    fs.asked.clear();
    let out = drive(&engine(make(vec![s(r"\.git$")]), Opts { unshove: true, ..opts() }), &mut fs);
    let mut left = shoved.clone();
    left.remove("/home/dest/vimrc");
    assert_eq!(fs.under("/home/dest"), left);
    assert!(fs.asked.iter().all(|q| !q.contains("/home/dest/.git")), "{:?}", fs.asked);
    assert_eq!(
        out.events,
        vec![
            Event::Dot(s("d")),
            Event::Ignored(s("/d/.git/config")),
            Event::Ignored(s("/d/.git/hooks/pre-commit")),
            Event::Ignored(s("/d/.git/hooks")),
            Event::Ignored(s("/d/.git")),
            Event::Visit { src: s("/d/vimrc"), dest: s("/home/dest/vimrc"), back: true },
            Event::Removed { dest: s("/home/dest/vimrc"), ty: Type::Dotlink, done: true },
        ]
    );
}

#[test]
fn a_pattern_may_match_anywhere_in_the_path() {
    let mut fs = with_git();
    fs.file("/d/notes.swp");
    let c = Cfg {
        absolute: true,
        ignore: vec![s(r"\.swp$"), s(r"/\.git(/|$)")],
        ..cfg(&[("d", "/d", "/home/dest")])
    };
    drive(&engine(c, opts()), &mut fs);
    assert_eq!(fs.under("/home/dest"), tree(&[("/home/dest/vimrc", Node::Link(s("/d/vimrc")))]));
}

#[test]
fn a_dot_that_would_manage_its_own_source_is_turned_down() {
    let mut fs = small();
    fs.link("/home/me", "/d");
    let out = drive(&engine(cfg(&[("d", "/d", "/home/me")]), opts()), &mut fs);
    assert!(out.halted);
    match &out.events[..] {
        [Event::Rejected(e)] => {
            assert_eq!(e.name, "d");
            assert_eq!(e.kind, ErrKind::SameFile(s("/home/me")));
        }
        other => panic!("{:?}", other),
    }
    assert!(fs.asked.iter().all(|q| !q.starts_with("Walk") && !q.starts_with("IsSymlink")));
    assert_eq!(fs.changes, 0);
}

#[test]
fn a_missing_source_ends_the_run_unless_it_is_a_berserkers() {
    let dots = [("a", "/nowhere", "/home/dest"), ("d", "/d", "/home/dest")];
    let mut fs = small();
    let out = drive(&engine(Cfg { absolute: true, depth: 1, ..cfg(&dots) }, opts()), &mut fs);
    assert!(out.halted);
    assert_eq!(out.events.len(), 1);
    assert!(matches!(&out.events[0], Event::Rejected(e) if e.kind == ErrKind::NonexistentSrc(s("/nowhere"))));
    assert_eq!(fs.changes, 0);

    let mut fs = small();
    let c = Cfg { absolute: true, depth: 1, berserker: true, ..cfg(&dots) };
    let out = drive(&engine(c, opts()), &mut fs);
    assert!(!out.halted);
    assert!(matches!(&out.events[0], Event::Rejected(_)));
    assert_eq!(out.events[1], Event::Dot(s("d")));
    assert_eq!(fs.at("/home/dest/a"), Some(&Node::Link(s("/d/a"))));
}

#[test]
fn dots_are_taken_up_in_the_order_of_their_names() {
    let mut fs = Fs::new();
    for d in ["zsh", "bash", "vim", "Xorg"] {
        fs.file(&format!("/dots/{}/rc-{}", d, d));
    }
    fs.dir("/home/u");
    let dots = [
        ("zsh", "/dots/zsh", "/home/u"),
        ("bash", "/dots/bash", "/home/u"),
        ("vim", "/dots/vim", "/home/u"),
        ("Xorg", "/dots/Xorg", "/home/u"),
    ];
    let out = drive(&engine(cfg(&dots), opts()), &mut fs);
    let order: Vec<&Event> = out.events.iter().filter(|e| matches!(e, Event::Dot(_))).collect();
    assert_eq!(
        order,
        vec![&Event::Dot(s("Xorg")), &Event::Dot(s("bash")), &Event::Dot(s("vim")), &Event::Dot(s("zsh"))]
    );
    assert_eq!(fs.under("/home/u").len(), 4);
}

#[test]
fn only_the_dots_named_are_worked_on() {
    let mut fs = Fs::new();
    fs.file("/dots/vim/vimrc");
    fs.file("/dots/zsh/zshrc");
    fs.dir("/home/u");
    let dots = [("vim", "/dots/vim", "/home/u"), ("zsh", "/dots/zsh", "/home/u")];
    let o = Opts { dots: vec![s("zsh")], absolute: Some(shove::cli::Switch::On), ..opts() };
    drive(&engine(cfg(&dots), o), &mut fs);
    assert_eq!(fs.under("/home/u"), tree(&[("/home/u/zshrc", Node::Link(s("/dots/zsh/zshrc")))]));
}

#[test]
fn a_file_in_the_way_takes_rage() {
    let mut fs = small();
    fs.file("/d/rc");
    fs.file("/home/dest/rc");
    let make = |rage, berserker| Cfg { absolute: true, depth: 1, rage, berserker, ..cfg(&[("d", "/d", "/home/dest")]) };
    let refused = Event::Failed {
        path: s("/home/dest/rc"),
        why: Failure::Remove(FtError::Rage(RageErr::new(Type::File, 1, 2))),
    };

    // Short of rage the run ends there, and the file is untouched.
    let out = drive(&engine(make(1, false), opts()), &mut fs);
    assert!(out.halted);
    assert_eq!(out.events.last(), Some(&refused));
    assert_eq!(fs.at("/home/dest/rc"), Some(&Node::File));

    // A berserker reports the same and goes on.
    let mut fs2 = small();
    fs2.file("/d/rc");
    fs2.file("/d/z");
    fs2.file("/home/dest/rc");
    let out = drive(&engine(make(1, true), opts()), &mut fs2);
    assert!(!out.halted);
    assert!(out.events.contains(&refused));
    assert_eq!(fs2.at("/home/dest/rc"), Some(&Node::File));
    assert_eq!(fs2.at("/home/dest/z"), Some(&Node::Link(s("/d/z"))));

    // With rage enough the file gives way to the link.
    let out = drive(&engine(make(2, false), opts()), &mut fs);
    assert!(!out.halted);
    assert!(out.events.contains(&Event::Removed { dest: s("/home/dest/rc"), ty: Type::File, done: true }));
    assert_eq!(fs.at("/home/dest/rc"), Some(&Node::Link(s("/d/rc"))));
}

#[test]
fn each_kind_of_node_gives_way_at_its_own_rage() {
    let cases: [(&dyn Fn(&mut Fs), Type, usize); 4] = [
        (&|fs: &mut Fs| { fs.file("/etc/x"); fs.link("/home/dest/a", "/etc/x") }, Type::Symlink, 1),
        (&|fs: &mut Fs| fs.dir("/home/dest/a"), Type::EmptyDir, 2),
        (&|fs: &mut Fs| fs.file("/home/dest/a"), Type::File, 2),
        (&|fs: &mut Fs| fs.file("/home/dest/a/keep"), Type::NonemptyDir, 3),
    ];
    for (prepare, ty, min) in cases {
        for rage in 0..=4 {
            let mut fs = small();
            prepare(&mut fs);
            let before = fs.nodes.clone();
            let c = Cfg { absolute: true, depth: 1, rage, ..cfg(&[("d", "/d", "/home/dest")]) };
            let out = drive(&engine(c, opts()), &mut fs);
            if rage >= min {
                assert!(!out.halted, "{:?} at {}", ty, rage);
                assert_eq!(fs.under("/home/dest"), tree(&[("/home/dest/a", Node::Link(s("/d/a")))]));
                assert!(out.events.contains(&Event::Removed { dest: s("/home/dest/a"), ty, done: true }));
            } else {
                assert!(out.halted, "{:?} at {}", ty, rage);
                assert_eq!(fs.nodes, before);
                assert_eq!(
                    out.events.last(),
                    Some(&Event::Failed {
                        path: s("/home/dest/a"),
                        why: Failure::Remove(FtError::Rage(RageErr::new(ty, rage, min))),
                    })
                );
            }
        }
    }
}

#[test]
fn a_directory_where_a_directory_is_due_is_kept_with_what_it_holds() {
    let mut fs = small();
    fs.file("/home/dest/a/mine");
    let c = Cfg { absolute: true, depth: 2, ..cfg(&[("d", "/d", "/home/dest")]) };
    let out = drive(&engine(c, opts()), &mut fs);
    assert!(!out.halted);
    assert_eq!(fs.at("/home/dest/a/mine"), Some(&Node::File));
    assert_eq!(fs.at("/home/dest/a/b"), Some(&Node::Link(s("/d/a/b"))));
    assert!(out.events.contains(&Event::Kept { dest: s("/home/dest/a"), ty: Type::NonemptyDir }));
}

#[test]
fn a_link_of_the_other_mode_is_made_anew() {
    let mut fs = small();
    fs.link("/home/dest/a", "../../d/a");
    let c = Cfg { absolute: true, depth: 1, ..cfg(&[("d", "/d", "/home/dest")]) };
    let out = drive(&engine(c, opts()), &mut fs);
    assert_eq!(
        out.events,
        vec![
            Event::Dot(s("d")),
            Event::Visit { src: s("/d/a"), dest: s("/home/dest/a"), back: false },
            Event::Removed { dest: s("/home/dest/a"), ty: Type::Dotlink, done: true },
            Event::Linked { dest: s("/home/dest/a"), target: s("/d/a"), done: true },
        ]
    );
    assert_eq!(fs.at("/home/dest/a"), Some(&Node::Link(s("/d/a"))));

    // And back again.
    let c = Cfg { absolute: false, depth: 1, ..cfg(&[("d", "/d", "/home/dest")]) };
    drive(&engine(c, opts()), &mut fs);
    assert_eq!(fs.at("/home/dest/a"), Some(&Node::Link(s("../../d/a"))));
}

#[test]
fn a_link_to_nothing_counts_as_ours() {
    let mut fs = small();
    fs.link("/home/dest/a", "/gone");
    let c = Cfg { absolute: true, depth: 1, ..cfg(&[("d", "/d", "/home/dest")]) };
    let out = drive(&engine(c, opts()), &mut fs);
    assert_eq!(out.events.last(), Some(&Event::Kept { dest: s("/home/dest/a"), ty: Type::Dotlink }));
    let out = drive(
        &engine(Cfg { depth: 1, ..cfg(&[("d", "/d", "/home/dest")]) }, Opts { unshove: true, ..opts() }),
        &mut fs,
    );
    assert_eq!(
        out.events.last(),
        Some(&Event::Removed { dest: s("/home/dest/a"), ty: Type::Dotlink, done: true })
    );
    assert_eq!(fs.at("/home/dest/a"), None);
}

#[test]
fn a_dry_run_changes_nothing_and_says_what_it_would_do() {
    let mut fs = small();
    fs.file("/d/rc");
    fs.file("/home/dest/rc");
    let before = fs.nodes.clone();
    let c = Cfg { absolute: true, depth: 2, rage: 2, ..cfg(&[("d", "/d", "/home/dest")]) };
    let out = drive(&engine(c, Opts { no: true, ..opts() }), &mut fs);
    assert!(!out.halted);
    assert_eq!(fs.nodes, before);
    assert_eq!(fs.changes, 0);
    assert_eq!(
        out.events,
        vec![
            Event::DryRun,
            Event::Dot(s("d")),
            Event::Visit { src: s("/d/a"), dest: s("/home/dest/a"), back: false },
            Event::Made { dest: s("/home/dest/a"), done: false },
            Event::Visit { src: s("/d/a/b"), dest: s("/home/dest/a/b"), back: false },
            Event::Linked { dest: s("/home/dest/a/b"), target: s("/d/a/b"), done: false },
            Event::Visit { src: s("/d/rc"), dest: s("/home/dest/rc"), back: false },
            Event::Removed { dest: s("/home/dest/rc"), ty: Type::File, done: false },
            Event::Linked { dest: s("/home/dest/rc"), target: s("/d/rc"), done: false },
        ]
    );
}

#[test]
fn a_dry_run_refuses_what_a_live_run_would() {
    let mut fs = small();
    fs.file("/home/dest/a");
    let c = Cfg { depth: 1, ..cfg(&[("d", "/d", "/home/dest")]) };
    let out = drive(&engine(c, Opts { no: true, ..opts() }), &mut fs);
    assert!(out.halted);
    assert_eq!(
        out.events.last(),
        Some(&Event::Failed {
            path: s("/home/dest/a"),
            why: Failure::Remove(FtError::Rage(RageErr::new(Type::File, 0, 2))),
        })
    );
}

#[test]
fn a_missing_destination_is_created_when_links_are_made() {
    let mut fs = Fs::new();
    fs.file("/d/rc");
    let c = Cfg { absolute: true, ..cfg(&[("d", "/d", "/home/u/.config/x")]) };
    let out = drive(&engine(c, opts()), &mut fs);
    assert_eq!(
        out.events,
        vec![
            Event::Dot(s("d")),
            Event::Rooted { dest: s("/home/u/.config/x"), done: true },
            Event::Visit { src: s("/d/rc"), dest: s("/home/u/.config/x/rc"), back: false },
            Event::Linked { dest: s("/home/u/.config/x/rc"), target: s("/d/rc"), done: true },
        ]
    );
    assert_eq!(fs.at("/home/u/.config/x"), Some(&Node::Dir));
}

#[test]
fn a_missing_destination_stays_missing_when_links_are_taken_away() {
    let mut fs = Fs::new();
    fs.file("/d/rc");
    let before = fs.nodes.clone();
    let c = cfg(&[("d", "/d", "/home/u/.config/x")]);
    let out = drive(&engine(c, Opts { unshove: true, ..opts() }), &mut fs);
    assert_eq!(fs.nodes, before);
    assert_eq!(
        out.events,
        vec![Event::Dot(s("d")), Event::Visit { src: s("/d/rc"), dest: s("/home/u/.config/x/rc"), back: true }]
    );
    assert_eq!(fs.changes, 0);
}

#[test]
fn advance_leaves_the_expansion_to_the_driver() {
    let mut fs = small();
    let shover = engine(Cfg { absolute: true, depth: 1, ..cfg(&[("d", "/d", "/home/dest")]) }, opts());
    let mut turn = shover.shove_dots();
    let mut expanded = 0;
    loop {
        match turn.next {
            Next::Ask(q) => {
                if let Request::Expand(p) = &q {
                    assert_eq!(p, "/home/dest");
                    expanded += 1;
                }
                let reply = fs.perform(q);
                turn = shover.advance(turn.run, reply);
            }
            Next::Halt => panic!("halted"),
            Next::Done => break,
        }
    }
    assert_eq!(expanded, 1);
    assert_eq!(fs.at("/home/dest/a"), Some(&Node::Link(s("/d/a"))));
}

#[test]
fn a_pattern_that_does_not_expand_turns_the_dot_down() {
    let mut fs = small();
    let dots = [("d", "/d", "$SHOVE_NO_SUCH_VARIABLE_51c9/dest")];
    let out = drive(&engine(cfg(&dots), opts()), &mut fs);
    assert!(out.halted);
    match &out.events[..] {
        [Event::Rejected(e)] => match &e.kind {
            ErrKind::ShErr(sh) => {
                assert_eq!(sh.s, "$SHOVE_NO_SUCH_VARIABLE_51c9/dest");
                assert_eq!(sh.var_name, "SHOVE_NO_SUCH_VARIABLE_51c9");
            }
            other => panic!("{:?}", other),
        },
        other => panic!("{:?}", other),
    }
    assert_eq!(fs.changes, 0);
}

#[test]
fn a_finished_run_stays_finished() {
    let mut fs = small();
    let shover = engine(cfg(&[]), opts());
    let turn = shover.shove_dots();
    assert_eq!(turn.next, Next::Done);
    assert_eq!(turn.events, vec![]);
    let again = shover.advance(turn.run, Reply::Done);
    assert_eq!(again.next, Next::Done);
    assert_eq!(fs.perform(Request::CurrentDir), Reply::Path(s("/")));
}
