use shove::dot::{Dots, Info, Step};
use shove::sys::Request;

fn s(x: &str) -> String {
    x.to_string()
}

fn names(d: &Dots) -> Vec<String> {
    let mut out = Vec::new();
    let mut i = 0;
    while let Some((name, _)) = d.nth(i) {
        out.push(name.to_string());
        i += 1;
    }
    out
}

#[test]
fn a_new_registry_is_empty() {
    let d = Dots::new();
    assert_eq!(d.len(), 0);
    assert_eq!(d.nth(0), None);
    assert_eq!(d.get("vim"), None);
    assert_eq!(Dots::default(), d);
}

#[test]
fn names_stay_in_order() {
    let mut d = Dots::new();
    for n in ["zsh", "bash", "vim", "Xorg", "git", "a", "ab"] {
        assert_eq!(d.insert(s(n), Info::Str(s("~"))), None);
    }
    assert_eq!(names(&d), vec!["Xorg", "a", "ab", "bash", "git", "vim", "zsh"]);
    assert_eq!(d.len(), 7);
}

#[test]
fn a_name_is_bound_once() {
    let mut d = Dots::new();
    assert_eq!(d.insert(s("vim"), Info::Str(s("~"))), None);
    assert_eq!(d.insert(s("vim"), Info::Str(s("/etc"))), Some(Info::Str(s("~"))));
    assert_eq!(d.len(), 1);
    assert_eq!(d.get("vim"), Some(&Info::Str(s("/etc"))));
}

#[test]
fn remove_takes_one_dot_out() {
    let mut d = Dots::new();
    d.insert(s("vim"), Info::Str(s("~")));
    d.insert(s("zsh"), Info::Table { dest: s("~"), src: s("shells/zsh") });
    d.insert(s("git"), Info::Str(s("~/.config")));
    assert_eq!(d.remove("nope"), None);
    assert_eq!(d.remove("vim"), Some(Info::Str(s("~"))));
    assert_eq!(d.remove("vim"), None);
    assert_eq!(names(&d), vec!["git", "zsh"]);
    assert_eq!(d.get("zsh"), Some(&Info::Table { dest: s("~"), src: s("shells/zsh") }));
}

#[test]
fn an_entry_names_its_ends() {
    let short = Info::Str(s("~/.config"));
    assert_eq!(short.src("nvim"), "nvim");
    assert_eq!(short.dest(), "~/.config");
    let long = Info::Table { dest: s("/etc"), src: s("system/etc") };
    assert_eq!(long.src("etc"), "system/etc");
    assert_eq!(long.dest(), "/etc");
    assert_eq!(long.duplicate(), long);
}

#[test]
fn iter_gives_each_dot_as_a_resolution_begun() {
    let mut d = Dots::new();
    d.insert(s("zsh"), Info::Table { dest: s("/home/u"), src: s("shells/zsh") });
    d.insert(s("vim"), Info::Str(s("/home/u")));
    let mut it = d.iter();
    match it.next() {
        Some(Step::Ask(r, q)) => {
            assert_eq!(q, Request::Exists(s("vim")));
            assert_eq!(r.name, "vim");
            assert_eq!(r.src, "vim");
            assert_eq!(r.pattern, "/home/u");
        }
        other => panic!("{:?}", other),
    }
    match it.next() {
        Some(Step::Ask(r, q)) => {
            assert_eq!(q, Request::Exists(s("shells/zsh")));
            assert_eq!(r.name, "zsh");
            assert_eq!(r.src, "shells/zsh");
        }
        other => panic!("{:?}", other),
    }
    assert_eq!(it.next(), None);
    assert_eq!(it.next(), None);
}
