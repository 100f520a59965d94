//! The engine: the settings of one run, and the decisions taken for every dot
//! and every entry of its tree.

pub mod entry;
pub mod run;

pub use self::entry::{Entry, EntryView, Moved, MovedView, Then, ThenView};
pub use self::run::{Next, NextView, Phase, PhaseView, Run, RunView, Turn, TurnView};
use crate::cfg::Cfg;
use crate::cli::{Opts, Switch};
use crate::dot::dots::{bindings, InfoView};
use crate::dot::Dots;
use crate::ignore::{refusal, Ignore};
use crate::log::{views, Event, EventView};
use crate::util::{head, head_of};
use vstd::prelude::*;

verus! {

/// The settings of one run: the configuration, overruled by the command line
/// wherever the command line speaks.
pub struct Shover {
    /// Links read the source's absolute path, else a relative one.
    pub absolute: bool,
    /// Go on after an error.
    pub berserker: bool,
    /// How deep the destination mirrors the source as directories; 0 for all
    /// the way down.
    pub depth: usize,
    pub dots: Dots,
    /// Follow links while walking the source.
    pub follow: bool,
    /// What to leave out; `None` where the patterns did not compile.
    pub ignore: Option<Ignore>,
    /// Change nothing on disk.
    pub no: bool,
    pub rage: usize,
    /// Take the links away again.
    pub unshove: bool,
}

/// A setting of the command line, or the configuration's where it is silent.
pub open spec fn switched(opt: Option<Switch>, cfg: bool) -> bool {
    match opt {
        Some(s) => s.is_on(),
        None => cfg,
    }
}

/// A number of the command line, or the configuration's where it is silent.
pub open spec fn counted(opt: Option<usize>, cfg: usize) -> usize {
    match opt {
        Some(n) => n,
        None => cfg,
    }
}

/// The names among the first `n` of `names`.
pub open spec fn named(names: Seq<Seq<char>>, n: int) -> Set<Seq<char>> {
    Set::new(|x: Seq<char>| exists|j: int| 0 <= j < n && #[trigger] names[j] == x)
}

/// The `i`-th name is asked for in vain: the configuration has no such dot,
/// or the name was asked for before.
pub open spec fn vain(known: Map<Seq<char>, InfoView>, names: Seq<Seq<char>>, i: int) -> bool {
    !known.dom().contains(names[i]) || named(names, i).contains(names[i])
}

/// The reports on the first `n` names: one for each name asked for in vain,
/// in the order of asking.
pub open spec fn complaints(known: Map<Seq<char>, InfoView>, names: Seq<Seq<char>>, n: int) -> Seq<
    EventView,
>
    decreases n,
{
    if n <= 0 {
        Seq::empty()
    } else if vain(known, names, n - 1) {
        complaints(known, names, n - 1).push(EventView::UnknownDot(names[n - 1]))
    } else {
        complaints(known, names, n - 1)
    }
}

/// The dots of the run: all those of the configuration where none is named,
/// else those named.
pub open spec fn chosen(known: Map<Seq<char>, InfoView>, names: Seq<Seq<char>>) -> Map<
    Seq<char>,
    InfoView,
> {
    if names.len() == 0 {
        known
    } else {
        known.restrict(named(names, names.len() as int))
    }
}

/// The report on patterns that did not compile, if they did not.
pub open spec fn ignore_complaint(refused: Option<Seq<char>>) -> Seq<EventView> {
    match refused {
        Some(m) => seq![EventView::BadIgnore(m)],
        None => Seq::empty(),
    }
}

/// Why the patterns did not compile, where they did not.
pub open spec fn why_not(compiled: Result<Ignore, String>) -> Option<Seq<char>> {
    match compiled {
        Ok(_) => None,
        Err(m) => Some(m@),
    }
}

/// All that there is to report on a configuration and a command line.
pub open spec fn setup_reports(cfg: Cfg, opts: Opts, refused: Option<Seq<char>>) -> Seq<EventView> {
    complaints(bindings(cfg.dots@), opts.dots.deep_view(), opts.dots@.len() as int)
        + ignore_complaint(refused)
}

/// What setting up comes to: the engine, unless something was wrong and the
/// run is no berserker's, and the reports.
pub struct Setup {
    pub shover: Option<Shover>,
    pub events: Vec<Event>,
}

impl Shover {
    /// The patterns of what is left out, where there are any.
    pub open spec fn patterns(self) -> Option<Seq<Seq<char>>> {
        match self.ignore {
            Some(ignore) => Some(ignore.patterns()),
            None => None,
        }
    }

    /// The settings agree with the configuration `cfg` and the command line
    /// `opts`.
    pub open spec fn made_of(self, cfg: Cfg, opts: Opts) -> bool {
        &&& self.absolute == switched(opts.absolute, cfg.absolute)
        &&& self.berserker == switched(opts.berserker, cfg.berserker)
        &&& self.depth == counted(opts.depth, cfg.depth)
        &&& self.follow == switched(opts.follow, cfg.follow)
        &&& self.no == opts.no
        &&& self.rage == counted(opts.rage, cfg.rage)
        &&& self.unshove == opts.unshove
        &&& bindings(self.dots@) == chosen(bindings(cfg.dots@), opts.dots.deep_view())
    }

    /// A path is left out if there are patterns and one of them matches
    /// somewhere in it.
    pub open spec fn leaves_out(self, path: Seq<char>) -> bool {
        match self.ignore {
            Some(ignore) => ignore.leaves_out(path),
            None => false,
        }
    }

    /// An entry is cut off if it is left out itself or lies below an entry
    /// that is: `path` is the entry's path and `depth` says how many segments
    /// of it lie below the root of the walk.
    pub open spec fn cuts_off(self, path: Seq<char>, depth: usize) -> bool {
        exists|k: nat| k < depth && #[trigger] self.leaves_out_above(path, k)
    }

    /// What stands `k` segments above the end of `path` is left out.
    pub open spec fn leaves_out_above(self, path: Seq<char>, k: nat) -> bool {
        match head_of(path, k) {
            Some(h) => self.leaves_out(h),
            None => false,
        }
    }

    /// A directory is mirrored as a directory down to the depth set, all the
    /// way where the depth is 0; everything else becomes a link.
    pub open spec fn is_node(self, is_dir: bool, depth: usize) -> bool {
        is_dir && (self.depth == 0 || depth < self.depth)
    }

    /// Whether `path` matches a pattern of what to leave out.
    pub fn ignored(&self, path: &str) -> (r: bool)
        ensures
            r == self.leaves_out(path@),
            self.patterns() is None ==> !r,
            self.patterns() == Some(Seq::<Seq<char>>::empty()) ==> !r,
    {
        match &self.ignore {
            Some(ignore) => ignore.is_match(path),
            None => false,
        }
    }

    /// Whether the entry at `path`, `depth` segments below the root of the
    /// walk, or one of the directories above it up to the root's own
    /// entries, matches a pattern of what to leave out.
    pub fn pruned(&self, path: &str, depth: usize) -> (r: bool)
        ensures
            r == self.cuts_off(path@, depth),
            self.patterns() is None || self.patterns() == Some(Seq::<Seq<char>>::empty()) ==> !r,
    {
        let mut k: usize = 0;
        while k < depth
            invariant
                k <= depth,
                forall|j: nat| j < k ==> !#[trigger] self.leaves_out_above(path@, j),
            decreases depth - k,
        {
            match head(path, k) {
                Some(h) => {
                    if self.ignored(h.as_str()) {
                        assert(self.leaves_out_above(path@, k as nat));
                        return true;
                    }
                },
                None => {},
            }
            k = k + 1;
        }
        false
    }

    /// Whether the entry is to stand as a directory of its own.
    pub fn node(&self, is_dir: bool, depth: usize) -> (r: bool)
        ensures
            r == self.is_node(is_dir, depth),
    {
        is_dir && (self.depth == 0 || depth < self.depth)
    }

    /// Sets a run up from the configuration, the command line and the
    /// outcome of compiling the patterns of what to ignore. Every dot named
    /// on the command line that the configuration lacks, or that was named
    /// before, is reported; so are patterns that did not compile. A
    /// berserker's run goes on regardless, without the dots it lacks and
    /// without ignoring anything; any other ends at the first report.
    pub fn with_ignore(cfg: Cfg, opts: Opts, compiled: Result<Ignore, String>) -> (r: Setup)
        ensures
            ({
                let refused = why_not(compiled);
                let all = setup_reports(cfg, opts, refused);
                let go_on = switched(opts.berserker, cfg.berserker) || all.len() == 0;
                &&& go_on ==> views(r.events@) == all
                &&& !go_on ==> views(r.events@) == seq![all[0]]
                &&& r.shover is Some == go_on
                &&& r.shover matches Some(s) ==> s.made_of(cfg, opts) && s.ignore == compiled.ok()
            }),
    {
        let absolute = match opts.absolute {
            Some(s) => s.on(),
            None => cfg.absolute,
        };
        let berserker = match opts.berserker {
            Some(s) => s.on(),
            None => cfg.berserker,
        };
        let depth = match opts.depth {
            Some(n) => n,
            None => cfg.depth,
        };
        let follow = match opts.follow {
            Some(s) => s.on(),
            None => cfg.follow,
        };
        let rage = match opts.rage {
            Some(n) => n,
            None => cfg.rage,
        };
        let no = opts.no;
        let unshove = opts.unshove;
        let ghost known = bindings(cfg.dots@);
        let ghost names = opts.dots.deep_view();
        let ghost refused = why_not(compiled);
        let ghost all = setup_reports(cfg, opts, refused);
        let mut events: Vec<Event> = Vec::new();
        let mut rest = cfg.dots;
        let wanted = opts.dots;
        let dots = if wanted.len() == 0 {
            assert(views(events@) =~= complaints(known, names, 0));
            rest
        } else {
            let mut dots = Dots::new();
            let mut i: usize = 0;
            assert(bindings(rest@) =~= known.remove_keys(named(names, 0)));
            assert(bindings(dots@) =~= known.restrict(named(names, 0)));
            assert(views(events@) =~= complaints(known, names, 0));
            while i < wanted.len()
                invariant
                    i <= wanted.len(),
                    names == wanted.deep_view(),
                    names.len() == wanted.len(),
                    bindings(rest@) == known.remove_keys(named(names, i as int)),
                    bindings(dots@) == known.restrict(named(names, i as int)),
                    views(events@) == complaints(known, names, i as int),
                    berserker || events@.len() == 0,
                    berserker == switched(opts.berserker, cfg.berserker),
                    all == setup_reports(cfg, opts, why_not(compiled)),
                    all == complaints(known, names, wanted.len() as int) + ignore_complaint(
                        refused,
                    ),
                decreases wanted.len() - i,
            {
                let name = &wanted[i];
                assert(names[i as int] == name@);
                let ghost before = named(names, i as int);
                let ghost after = named(names, i + 1);
                assert(after =~= before.insert(name@)) by {
                    assert forall|x: Seq<char>| after.contains(x) == before.insert(name@).contains(
                        x,
                    ) by {
                        if after.contains(x) {
                            let j = choose|j: int| 0 <= j < i + 1 && #[trigger] names[j] == x;
                            if j < i {
                                assert(before.contains(x));
                            }
                        }
                        if before.contains(x) {
                            let j = choose|j: int| 0 <= j < i && #[trigger] names[j] == x;
                            assert(0 <= j < i + 1 && names[j] == x);
                        }
                        if x == name@ {
                            assert(names[i as int] == x);
                        }
                    }
                }
                let ghost old_events = views(events@);
                match rest.remove(name.as_str()) {
                    None => {
                        assert(vain(known, names, i as int));
                        events.push(Event::UnknownDot(name.clone()));
                        assert(views(events@) =~= old_events.push(EventView::UnknownDot(name@)));
                        assert(bindings(rest@) =~= known.remove_keys(after));
                        assert(bindings(dots@) =~= known.restrict(after));
                        if !berserker {
                            proof {
                                lemma_first_complaint(known, names, i + 1, wanted.len() as int);
                                assert(all[0] == complaints(known, names, i + 1)[0]);
                                assert(views(events@) =~= seq![all[0]]);
                            }
                            return Setup { shover: None, events };
                        }
                    },
                    Some(info) => {
                        assert(!vain(known, names, i as int));
                        assert(known[name@] == info@);
                        dots.insert(name.clone(), info);
                        assert(bindings(rest@) =~= known.remove_keys(after));
                        assert(bindings(dots@) =~= known.restrict(after));
                    },
                }
                i = i + 1;
            }
            dots
        };
        assert(bindings(dots@) == chosen(known, names));
        let ghost sofar = views(events@);
        let ignore = match compiled {
            Ok(set) => Some(set),
            Err(m) => {
                events.push(Event::BadIgnore(m));
                assert(views(events@) =~= sofar.push(EventView::BadIgnore(m@)));
                if !berserker {
                    assert(sofar.len() == 0);
                    return Setup { shover: None, events };
                }
                None
            },
        };
        assert(views(events@) =~= all);
        Setup {
            shover: Some(
                Shover { absolute, berserker, depth, dots, follow, ignore, no, rage, unshove },
            ),
            events,
        }
    }

    /// Sets a run up from the configuration and the command line. The
    /// patterns of what to ignore are compiled here; whether they compile
    /// depends on them alone.
    pub fn new(cfg: Cfg, opts: Opts) -> (r: Setup)
        ensures
            ({
                let refused = refusal(cfg.ignore.deep_view());
                let all = setup_reports(cfg, opts, refused);
                let go_on = switched(opts.berserker, cfg.berserker) || all.len() == 0;
                &&& go_on ==> views(r.events@) == all
                &&& !go_on ==> views(r.events@) == seq![all[0]]
                &&& r.shover is Some == go_on
                &&& r.shover matches Some(s) ==> s.made_of(cfg, opts) && s.patterns() == (
                match refused {
                    Some(_) => None,
                    None => Some(cfg.ignore.deep_view()),
                })
            }),
            cfg.ignore@.len() == 0 ==> (r.shover matches Some(s) ==> s.patterns() == Some(
                Seq::<Seq<char>>::empty(),
            )),
    {
        let compiled = Ignore::new(&cfg.ignore);
        Self::with_ignore(cfg, opts, compiled)
    }
}

/// Without patterns nothing is left out and nothing is cut off: a run that
/// was set up with an empty list, or whose patterns did not compile, visits
/// every entry that the walk gives.
pub proof fn lemma_nothing_ignored(s: Shover, path: Seq<char>, depth: usize)
    requires
        s.patterns() is None || s.patterns() == Some(Seq::<Seq<char>>::empty()),
    ensures
        !s.leaves_out(path),
        !s.cuts_off(path, depth),
{
    assert forall|k: nat| !#[trigger] s.leaves_out_above(path, k) by {}
}

/// Complaints only grow with the names looked at, so the first of them stays
/// the first.
proof fn lemma_first_complaint(
    known: Map<Seq<char>, InfoView>,
    names: Seq<Seq<char>>,
    n: int,
    m: int,
)
    requires
        0 <= n <= m,
        complaints(known, names, n).len() > 0,
    ensures
        complaints(known, names, m).len() > 0,
        complaints(known, names, m)[0] == complaints(known, names, n)[0],
    decreases m - n,
{
    if n < m {
        lemma_first_complaint(known, names, n, m - 1);
    }
}

} // verus!
