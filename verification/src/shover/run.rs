//! One run: dot after dot in the order of their names, and within a dot
//! entry after entry as the walk of its tree gives them.

use super::entry::{
    lemma_dry_entry, lemma_removal_is_gated, lemma_sound, lemma_unshove_makes_nothing, Entry,
    EntryView, Moved, MovedView, Then, ThenView,
};
use super::Shover;
use crate::dot::dots::ordered;
use crate::dot::sh::{admissible, outcome_view};
use crate::dot::{
    Dot, DotView, Resolve, ResolveView, Sh, ShErrView, ShView, Step as Resolving,
    StepView as ResolvingView,
};
use crate::log::{
    also, any_error, chain, has_error, lemma_one_report, report, silence, views, Event, EventView,
    Failure, FailureView,
};
use crate::ft::{
    lemma_look_is_harmless, lemma_run_more, lemma_verdict, type_of, verdict, StepView as LookView,
    Type,
};
use crate::sys::{unexpected, Reply, ReplyView, Request, RequestView, World};
use crate::util::{absolute, head_of, join, joined, tail, tail_of};
use vstd::prelude::*;

verus! {

/// Where a run stands: each phase names what is out.
#[derive(Debug, PartialEq, Eq)]
pub enum Phase {
    /// A dot is being resolved.
    Resolving(Resolve),
    /// Does the dot's destination exist?
    Root { dot: Dot },
    /// The destination is being created.
    RootMake { dot: Dot },
    /// The walk of the dot's tree is being set up.
    WalkStart { dot: Dot },
    /// The next entry of the walk is awaited.
    Walking { dot: Dot },
    /// The walk is told to leave a directory out.
    Pruning { dot: Dot },
    /// An entry is being worked on.
    Entry { dot: Dot, entry: Entry },
    /// Every dot was seen to.
    Over,
    /// The run was ended by an error.
    Halted,
}

pub enum PhaseView {
    Resolving(ResolveView),
    Root { dot: DotView },
    RootMake { dot: DotView },
    WalkStart { dot: DotView },
    Walking { dot: DotView },
    Pruning { dot: DotView },
    Entry { dot: DotView, entry: EntryView },
    Over,
    Halted,
}

impl View for Phase {
    type V = PhaseView;

    open spec fn view(&self) -> PhaseView {
        match self {
            Phase::Resolving(r) => PhaseView::Resolving(r@),
            Phase::Root { dot } => PhaseView::Root { dot: dot@ },
            Phase::RootMake { dot } => PhaseView::RootMake { dot: dot@ },
            Phase::WalkStart { dot } => PhaseView::WalkStart { dot: dot@ },
            Phase::Walking { dot } => PhaseView::Walking { dot: dot@ },
            Phase::Pruning { dot } => PhaseView::Pruning { dot: dot@ },
            Phase::Entry { dot, entry } => PhaseView::Entry { dot: dot@, entry: entry@ },
            Phase::Over => PhaseView::Over,
            Phase::Halted => PhaseView::Halted,
        }
    }
}

/// A run under way: `pos` dots have been taken up.
#[derive(Debug, PartialEq, Eq)]
pub struct Run {
    pub pos: usize,
    pub phase: Phase,
}

pub struct RunView {
    pub pos: usize,
    pub phase: PhaseView,
}

impl View for Run {
    type V = RunView;

    open spec fn view(&self) -> RunView {
        RunView { pos: self.pos, phase: self.phase@ }
    }
}

/// What the driver is to do next.
#[derive(Debug, PartialEq, Eq)]
pub enum Next {
    /// Perform the request and come back with the reply.
    Ask(Request),
    /// End the process as failed.
    Halt,
    /// The run is complete.
    Done,
}

pub enum NextView {
    Ask(RequestView),
    Halt,
    Done,
}

impl View for Next {
    type V = NextView;

    open spec fn view(&self) -> NextView {
        match self {
            Next::Ask(q) => NextView::Ask(q@),
            Next::Halt => NextView::Halt,
            Next::Done => NextView::Done,
        }
    }
}

/// One turn of a run: the run as it stands now, what there is to report, and
/// what the driver is to do.
#[derive(Debug, PartialEq, Eq)]
pub struct Turn {
    pub run: Run,
    pub events: Vec<Event>,
    pub next: Next,
}

pub struct TurnView {
    pub run: RunView,
    pub events: Seq<EventView>,
    pub next: NextView,
}

impl View for Turn {
    type V = TurnView;

    open spec fn view(&self) -> TurnView {
        TurnView { run: self.run@, events: views(self.events@), next: self.next@ }
    }
}

impl TurnView {
    /// The turn that asks `q` in the phase `phase`.
    pub open spec fn ask(pos: usize, phase: PhaseView, q: RequestView) -> TurnView {
        TurnView { run: RunView { pos, phase }, events: Seq::empty(), next: NextView::Ask(q) }
    }

    /// The reports `events` come first. Where one of them is of an error and
    /// the run is no berserker's, it ends there; else `self` follows.
    pub open spec fn after(self, s: Shover, events: Seq<EventView>) -> TurnView {
        if any_error(events) && !s.berserker {
            TurnView {
                run: RunView { pos: self.run.pos, phase: PhaseView::Halted },
                events,
                next: NextView::Halt,
            }
        } else {
            TurnView { run: self.run, events: events + self.events, next: self.next }
        }
    }

    /// The turn `after` made right after this one: the reports of both, and
    /// the run and the request of the later.
    pub open spec fn and_then(self, after: TurnView) -> TurnView {
        TurnView { run: after.run, events: self.events + after.events, next: after.next }
    }
}

/// How deep the walk may go: as deep as the depth set, without end where it
/// is 0.
pub open spec fn limit(depth: usize) -> Option<usize> {
    if depth > 0 {
        Some(depth)
    } else {
        None
    }
}

impl Shover {
    /// The walk of the dot's tree is set up: below the root only, no deeper
    /// than the depth set, and, where links are taken away, what a directory
    /// holds before the directory itself.
    pub open spec fn walks(self, pos: usize, dot: DotView) -> TurnView {
        TurnView::ask(
            pos,
            PhaseView::WalkStart { dot },
            RequestView::Walk {
                root: dot.src,
                min_depth: 1,
                max_depth: limit(self.depth),
                follow: self.follow,
                contents_first: self.unshove,
            },
        )
    }

    /// The next entry is asked for.
    pub open spec fn walks_on(self, pos: usize, dot: DotView) -> TurnView {
        TurnView::ask(pos, PhaseView::Walking { dot }, RequestView::NextEntry)
    }

    /// The next dot in the order of names is taken up, or the run is over.
    pub open spec fn takes_up(self, pos: usize) -> TurnView {
        if pos < self.dots@.len() {
            let b = self.dots@[pos as int];
            TurnView::ask(
                (pos + 1) as usize,
                PhaseView::Resolving(ResolveView::fresh(b.0, b.1.src(b.0), b.1.dest())),
                RequestView::Exists(b.1.src(b.0)),
            )
        } else {
            TurnView {
                run: RunView { pos, phase: PhaseView::Over },
                events: Seq::empty(),
                next: NextView::Done,
            }
        }
    }

    /// A step of the work on an entry was made: its reports are passed on,
    /// and the work goes on or the walk does.
    pub open spec fn passes_on(self, pos: usize, dot: DotView, m: MovedView) -> TurnView {
        match m.next {
            ThenView::Ask(e, q) => TurnView::ask(pos, PhaseView::Entry { dot, entry: e }, q).after(
                self,
                m.events,
            ),
            ThenView::Over => self.walks_on(pos, dot).after(self, m.events),
        }
    }

    /// The walk gave an entry. One that is cut off is reported and passed
    /// over, and where the walk goes from the top down it is told to leave out
    /// what lies below; any other is visited at its place under the
    /// destination.
    pub open spec fn visits(
        self,
        pos: usize,
        dot: DotView,
        path: Seq<char>,
        depth: usize,
        is_dir: bool,
    ) -> TurnView {
        match tail_of(path, depth as nat) {
            None => self.walks_on(pos, dot).after(
                self,
                seq![EventView::Failed { path, why: FailureView::Entry }],
            ),
            Some(rel) => if self.cuts_off(path, depth) {
                if is_dir && !self.unshove {
                    TurnView::ask(pos, PhaseView::Pruning { dot }, RequestView::SkipSubtree).after(
                        self,
                        seq![EventView::Ignored(path)],
                    )
                } else {
                    self.walks_on(pos, dot).after(self, seq![EventView::Ignored(path)])
                }
            } else {
                self.passes_on(
                    pos,
                    dot,
                    EntryView::start(
                        path,
                        joined(dot.dest.path(), rel),
                        self.is_node(is_dir, depth),
                        self.unshove,
                    ),
                )
            },
        }
    }

    /// The first turn of a run: a dry run says so, and the first dot is taken
    /// up.
    pub open spec fn first_turn(self) -> TurnView {
        if self.no {
            self.takes_up(0).after(self, seq![EventView::DryRun])
        } else {
            self.takes_up(0)
        }
    }

    /// What follows from the reply to what is out.
    pub open spec fn turn(self, run: RunView, reply: ReplyView) -> TurnView {
        let pos = run.pos;
        match run.phase {
            PhaseView::Over => TurnView { run, events: Seq::empty(), next: NextView::Done },
            PhaseView::Halted => TurnView { run, events: Seq::empty(), next: NextView::Halt },
            PhaseView::Resolving(r) => match r.step(reply) {
                ResolvingView::Ask(r2, q) => TurnView::ask(pos, PhaseView::Resolving(r2), q),
                ResolvingView::Done(Ok(dot)) => TurnView::ask(
                    pos,
                    PhaseView::Root { dot },
                    RequestView::Exists(dot.dest.path()),
                ).after(self, seq![EventView::Dot(dot.name)]),
                ResolvingView::Done(Err(e)) => self.takes_up(pos).after(
                    self,
                    seq![EventView::Rejected(e)],
                ),
            },
            PhaseView::Root { dot } => match reply.flag() {
                Ok(true) => self.walks(pos, dot),
                Ok(false) => if self.unshove {
                    self.walks(pos, dot)
                } else if self.no {
                    self.walks(pos, dot).after(
                        self,
                        seq![EventView::Rooted { dest: dot.dest.path(), done: false }],
                    )
                } else {
                    TurnView::ask(
                        pos,
                        PhaseView::RootMake { dot },
                        RequestView::CreateDirAll(dot.dest.path()),
                    )
                },
                Err(m) => self.takes_up(pos).after(
                    self,
                    seq![EventView::Failed { path: dot.dest.path(), why: FailureView::RootStat(m) }],
                ),
            },
            PhaseView::RootMake { dot } => match reply.done() {
                Ok(_) => self.walks(pos, dot).after(
                    self,
                    seq![EventView::Rooted { dest: dot.dest.path(), done: true }],
                ),
                Err(m) => self.takes_up(pos).after(
                    self,
                    seq![EventView::Failed { path: dot.dest.path(), why: FailureView::Root(m) }],
                ),
            },
            PhaseView::WalkStart { dot } => match reply.done() {
                Ok(_) => self.walks_on(pos, dot),
                Err(m) => self.takes_up(pos).after(
                    self,
                    seq![EventView::Failed { path: dot.src, why: FailureView::Walk(m) }],
                ),
            },
            PhaseView::Walking { dot } => match reply {
                ReplyView::End => self.takes_up(pos),
                ReplyView::Entry { path, depth, is_dir } => self.visits(
                    pos,
                    dot,
                    path,
                    depth,
                    is_dir,
                ),
                ReplyView::Failed(m) => self.walks_on(pos, dot).after(
                    self,
                    seq![EventView::Failed { path: dot.src, why: FailureView::Walk(m) }],
                ),
                _ => self.takes_up(pos).after(
                    self,
                    seq![
                        EventView::Failed { path: dot.src, why: FailureView::Walk(unexpected()) },
                    ],
                ),
            },
            PhaseView::Pruning { dot } => match reply.done() {
                Ok(_) => self.walks_on(pos, dot),
                Err(m) => self.walks_on(pos, dot).after(
                    self,
                    seq![EventView::Failed { path: dot.src, why: FailureView::Walk(m) }],
                ),
            },
            PhaseView::Entry { dot, entry } => self.passes_on(pos, dot, entry.step(self, reply)),
        }
    }
}

impl Turn {
    fn ask(pos: usize, phase: Phase, q: Request) -> (r: Turn)
        ensures
            r@ == TurnView::ask(pos, phase@, q@),
    {
        Turn { run: Run { pos, phase }, events: silence(), next: Next::Ask(q) }
    }

    fn after(self, shover: &Shover, events: Vec<Event>) -> (r: Turn)
        ensures
            r@ == self@.after(*shover, views(events@)),
    {
        if has_error(&events) && !shover.berserker {
            Turn { run: Run { pos: self.run.pos, phase: Phase::Halted }, events, next: Next::Halt }
        } else {
            Turn { run: self.run, events: chain(events, self.events), next: self.next }
        }
    }
}

impl Shover {
    fn walk(&self, pos: usize, dot: Dot) -> (r: Turn)
        ensures
            r@ == self.walks(pos, dot@),
    {
        let root = dot.src.clone();
        let max_depth = if self.depth > 0 {
            Some(self.depth)
        } else {
            None
        };
        Turn::ask(
            pos,
            Phase::WalkStart { dot },
            Request::Walk {
                root,
                min_depth: 1,
                max_depth,
                follow: self.follow,
                contents_first: self.unshove,
            },
        )
    }

    fn walk_on(&self, pos: usize, dot: Dot) -> (r: Turn)
        ensures
            r@ == self.walks_on(pos, dot@),
    {
        Turn::ask(pos, Phase::Walking { dot }, Request::NextEntry)
    }

    fn next_dot(&self, pos: usize) -> (r: Turn)
        ensures
            r@ == self.takes_up(pos),
    {
        let n = self.dots.len();
        match self.dots.nth(pos) {
            Some((name, info)) => {
                assert(pos < n);
                match Dot::new(name, info.src(name), info.dest()) {
                    Resolving::Ask(res, q) => Turn::ask(pos + 1, Phase::Resolving(res), q),
                    Resolving::Done(_) => {
                        assert(false);
                        Turn { run: Run { pos, phase: Phase::Over }, events: silence(), next: Next::Done }
                    },
                }
            },
            None => Turn { run: Run { pos, phase: Phase::Over }, events: silence(), next: Next::Done },
        }
    }

    fn after_entry(&self, pos: usize, dot: Dot, m: Moved) -> (r: Turn)
        ensures
            r@ == self.passes_on(pos, dot@, m@),
    {
        match m.next {
            Then::Ask(e, q) => Turn::ask(pos, Phase::Entry { dot, entry: e }, q).after(
                self,
                m.events,
            ),
            Then::Over => self.walk_on(pos, dot).after(self, m.events),
        }
    }

    fn visit(&self, pos: usize, dot: Dot, path: String, depth: usize, is_dir: bool) -> (r: Turn)
        ensures
            r@ == self.visits(pos, dot@, path@, depth, is_dir),
    {
        match tail(path.as_str(), depth) {
            None => self.walk_on(pos, dot).after(
                self,
                report(Event::Failed { path, why: Failure::Entry }),
            ),
            Some(rel) => {
                if self.pruned(path.as_str(), depth) {
                    if is_dir && !self.unshove {
                        Turn::ask(pos, Phase::Pruning { dot }, Request::SkipSubtree).after(
                            self,
                            report(Event::Ignored(path)),
                        )
                    } else {
                        self.walk_on(pos, dot).after(self, report(Event::Ignored(path)))
                    }
                } else {
                    let dest = join(dot.dest.path(), rel.as_str());
                    let m = self.shove(path.as_str(), dest.as_str(), is_dir, depth);
                    self.after_entry(pos, dot, m)
                }
            },
        }
    }

    /// Begins the run. The dots are taken up one after the other as they
    /// stand in the registry, and there they stand in the order of their
    /// names. The destinations of different dots are taken not to overlap;
    /// nothing here looks into that.
    pub fn shove_dots(&self) -> (r: Turn)
        ensures
            r@ == self.first_turn(),
            ordered(self.dots@),
    {
        let _ = self.dots.iter();
        if self.no {
            self.next_dot(0).after(self, report(Event::DryRun))
        } else {
            self.next_dot(0)
        }
    }

    /// Takes the reply to what the last turn asked for and makes the next
    /// turn.
    pub fn advance(&self, run: Run, reply: Reply) -> (r: Turn)
        ensures
            r@ == self.turn(run@, reply@),
    {
        let pos = run.pos;
        match run.phase {
            Phase::Over => Turn {
                run: Run { pos, phase: Phase::Over },
                events: silence(),
                next: Next::Done,
            },
            Phase::Halted => Turn {
                run: Run { pos, phase: Phase::Halted },
                events: silence(),
                next: Next::Halt,
            },
            Phase::Resolving(res) => match res.step(reply) {
                Resolving::Ask(r2, q) => Turn::ask(pos, Phase::Resolving(r2), q),
                Resolving::Done(Ok(dot)) => {
                    let name = dot.name.clone();
                    let asked = dot.dest.path().to_owned();
                    Turn::ask(pos, Phase::Root { dot }, Request::Exists(asked)).after(
                        self,
                        report(Event::Dot(name)),
                    )
                },
                Resolving::Done(Err(e)) => self.next_dot(pos).after(
                    self,
                    report(Event::Rejected(e)),
                ),
            },
            Phase::Root { dot } => match reply.flag() {
                Ok(true) => self.walk(pos, dot),
                Ok(false) => {
                    if self.unshove {
                        self.walk(pos, dot)
                    } else if self.no {
                        let dest = dot.dest.path().to_owned();
                        self.walk(pos, dot).after(self, report(Event::Rooted { dest, done: false }))
                    } else {
                        let dest = dot.dest.path().to_owned();
                        Turn::ask(pos, Phase::RootMake { dot }, Request::CreateDirAll(dest))
                    }
                },
                Err(m) => {
                    let path = dot.dest.path().to_owned();
                    self.next_dot(pos).after(
                        self,
                        report(Event::Failed { path, why: Failure::RootStat(m) }),
                    )
                },
            },
            Phase::RootMake { dot } => match reply.done() {
                Ok(_) => {
                    let dest = dot.dest.path().to_owned();
                    self.walk(pos, dot).after(self, report(Event::Rooted { dest, done: true }))
                },
                Err(m) => {
                    let path = dot.dest.path().to_owned();
                    self.next_dot(pos).after(
                        self,
                        report(Event::Failed { path, why: Failure::Root(m) }),
                    )
                },
            },
            Phase::WalkStart { dot } => match reply.done() {
                Ok(_) => self.walk_on(pos, dot),
                Err(m) => {
                    let path = dot.src.clone();
                    self.next_dot(pos).after(
                        self,
                        report(Event::Failed { path, why: Failure::Walk(m) }),
                    )
                },
            },
            Phase::Walking { dot } => match reply {
                Reply::End => self.next_dot(pos),
                Reply::Entry { path, depth, is_dir } => self.visit(pos, dot, path, depth, is_dir),
                Reply::Failed(m) => {
                    let path = dot.src.clone();
                    self.walk_on(pos, dot).after(
                        self,
                        report(Event::Failed { path, why: Failure::Walk(m) }),
                    )
                },
                _ => {
                    let path = dot.src.clone();
                    self.next_dot(pos).after(
                        self,
                        report(
                            Event::Failed {
                                path,
                                why: Failure::Walk("unexpected reply".to_owned()),
                            },
                        ),
                    )
                },
            },
            Phase::Pruning { dot } => match reply.done() {
                Ok(_) => self.walk_on(pos, dot),
                Err(m) => {
                    let path = dot.src.clone();
                    self.walk_on(pos, dot).after(
                        self,
                        report(Event::Failed { path, why: Failure::Walk(m) }),
                    )
                },
            },
            Phase::Entry { dot, entry } => {
                let m = entry.step(self, reply);
                self.after_entry(pos, dot, m)
            },
        }
    }
}

impl Shover {
    /// The turn `r` is the turn `t` with its wish for an expansion granted:
    /// where `t` asks for a pattern to be expanded, `r` is what follows from
    /// an expansion that the pattern admits; any other `t` is `r` itself.
    pub open spec fn grants(self, t: TurnView, r: TurnView) -> bool {
        match t.next {
            NextView::Ask(RequestView::Expand(p)) => exists|e: Result<ShView, ShErrView>|
                admissible(p, e) && r == #[trigger] t.and_then(
                    self.turn(t.run, ReplyView::Expanded(e)),
                ),
            _ => r == t,
        }
    }

    /// Like `advance`, but patterns are expanded here and now, in the
    /// process's own environment, so the driver is never asked to. Which
    /// expansion comes of a pattern depends on that environment; whatever it
    /// is, the pattern admits it, and the turn returned is the one that
    /// follows from it.
    pub fn proceed(&self, run: Run, reply: Reply) -> (r: Turn)
        ensures
            self.grants(self.turn(run@, reply@), r@),
            !(r@.next matches NextView::Ask(RequestView::Expand(_))),
    {
        let t = self.advance(run, reply);
        let ghost tv = t@;
        let Turn { run, events, next } = t;
        match next {
            Next::Ask(Request::Expand(p)) => {
                let expansion = Sh::try_from(p.as_str());
                let ghost e = outcome_view(expansion);
                let after = self.advance(run, Reply::Expanded(expansion));
                proof {
                    lemma_expands_once(*self, tv, e);
                }
                let r = Turn {
                    run: after.run,
                    events: chain(events, after.events),
                    next: after.next,
                };
                assert(r@ == tv.and_then(self.turn(tv.run, ReplyView::Expanded(e))));
                r
            },
            _ => Turn { run, events, next },
        }
    }
}

/// An expansion is asked for by the resolution of a dot and by nothing else,
/// and the turn that follows the answer asks for no other.
pub proof fn lemma_expands_once(s: Shover, t: TurnView, e: Result<ShView, ShErrView>)
    requires
        t.next matches NextView::Ask(RequestView::Expand(_)),
        exists|run: RunView, reply: ReplyView| t == #[trigger] s.turn(run, reply),
    ensures
        !(s.turn(t.run, ReplyView::Expanded(e)).next matches NextView::Ask(RequestView::Expand(_))),
{
}

impl RunView {
    /// What holds of every run that the turns can come to: an entry under
    /// work is sound, and the destination's root is only made by a run that
    /// makes links and is not dry.
    pub open spec fn sound(self, s: Shover) -> bool {
        match self.phase {
            PhaseView::Entry { dot, entry } => entry.sound(s),
            PhaseView::RootMake { dot } => !s.unshove && !s.no,
            _ => true,
        }
    }
}

/// Soundness holds from the first turn on.
pub proof fn lemma_run_sound(s: Shover, run: RunView, reply: ReplyView)
    requires
        run.sound(s),
    ensures
        s.first_turn().run.sound(s),
        s.turn(run, reply).run.sound(s),
{
    match run.phase {
        PhaseView::Entry { dot, entry } => {
            lemma_sound(s, entry, reply);
        },
        PhaseView::Walking { dot } => {
            match reply {
                ReplyView::Entry { path, depth, is_dir } => {
                    let e = EntryView {
                        src: path,
                        dest: path,
                        node: is_dir,
                        stage: super::entry::StageView::Stat,
                    };
                    lemma_sound(s, e, reply);
                },
                _ => {},
            }
        },
        _ => {},
    }
}

/// In a dry run no turn asks for a change on disk.
pub proof fn lemma_dry_run(s: Shover, run: RunView, reply: ReplyView)
    requires
        s.no,
    ensures
        s.first_turn().next matches NextView::Ask(q) ==> !q.mutates(),
        s.turn(run, reply).next matches NextView::Ask(q) ==> !q.mutates(),
{
    match run.phase {
        PhaseView::Entry { dot, entry } => {
            lemma_dry_entry(s, entry, reply);
        },
        _ => {},
    }
}

/// While links are taken away no turn asks for a link or a directory, the
/// destination's root included.
pub proof fn lemma_unshove_run(s: Shover, run: RunView, reply: ReplyView)
    requires
        s.unshove,
        run.sound(s),
    ensures
        s.first_turn().next matches NextView::Ask(q) ==> !q.creates(),
        s.turn(run, reply).next matches NextView::Ask(q) ==> !q.creates(),
{
    match run.phase {
        PhaseView::Entry { dot, entry } => {
            lemma_unshove_makes_nothing(s, entry, reply);
        },
        _ => {},
    }
}

/// Whatever a run removes, it removes in the course of the work on an entry,
/// where the rage of the run allows it.
pub proof fn lemma_run_is_gated(s: Shover, run: RunView, reply: ReplyView)
    requires
        run.sound(s),
    ensures
        match s.first_turn().next {
            NextView::Ask(q) => !q.removes(),
            _ => true,
        },
        match s.turn(run, reply).next {
            NextView::Ask(q) => q.removes() ==> (match s.turn(run, reply).run.phase {
                PhaseView::Entry { entry, .. } => entry.removing(s, q),
                _ => false,
            }),
            _ => true,
        },
{
    match run.phase {
        PhaseView::Entry { dot, entry } => {
            lemma_removal_is_gated(s, entry, reply);
        },
        _ => {},
    }
}

/// Errors end a run at once unless it is a berserker's, and nothing else
/// does: a turn halts exactly where it reports an error and the run is no
/// berserker's. A berserker's run never halts.
pub proof fn lemma_fail_fast(s: Shover, run: RunView, reply: ReplyView)
    requires
        run.phase != PhaseView::Halted,
    ensures
        s.turn(run, reply).next is Halt <==> any_error(s.turn(run, reply).events) && !s.berserker,
        s.first_turn().next is Halt <==> any_error(s.first_turn().events) && !s.berserker,
{
    let t = s.turn(run, reply);
    if any_error(t.events) {
        let i = choose|i: int| 0 <= i < t.events.len() && (#[trigger] t.events[i]).is_error();
        assert(t.events[i].is_error());
    }
    let f = s.first_turn();
    if any_error(f.events) {
        let i = choose|i: int| 0 <= i < f.events.len() && (#[trigger] f.events[i]).is_error();
        assert(f.events[i].is_error());
    }
}

/// What is cut off is passed over: an entry that matches a pattern of what
/// to leave out, or lies below one that does, is reported as ignored and
/// nothing more comes of it. Its destination is neither looked at nor
/// touched; the walk goes on, told to leave out what lies below where it
/// goes from the top down.
pub proof fn lemma_cut_off(
    s: Shover,
    pos: usize,
    dot: DotView,
    path: Seq<char>,
    depth: usize,
    is_dir: bool,
)
    requires
        s.cuts_off(path, depth),
        tail_of(path, depth as nat) is Some,
    ensures
        ({
            let t = s.visits(pos, dot, path, depth, is_dir);
            &&& t.events == seq![EventView::Ignored(path)]
            &&& t.next == NextView::Ask(RequestView::NextEntry) || t.next == NextView::Ask(
                RequestView::SkipSubtree,
            )
            &&& t.run.phase == (PhaseView::Walking { dot }) || t.run.phase == (PhaseView::Pruning {
                dot,
            })
        }),
{
    let t = s.visits(pos, dot, path, depth, is_dir);
    let e = seq![EventView::Ignored(path)];
    assert(!any_error(e)) by {
        if any_error(e) {
            let i = choose|i: int| 0 <= i < e.len() && (#[trigger] e[i]).is_error();
            assert(e[i] == EventView::Ignored(path));
        }
    }
    assert(t.events =~= e);
}

/// Whatever lies below a path that is left out is cut off: an entry `k`
/// segments below it, at a depth that is greater than `k`.
pub proof fn lemma_below_ignored(s: Shover, path: Seq<char>, depth: usize, k: nat, above: Seq<char>)
    requires
        k < depth,
        head_of(path, k) == Some(above),
        s.leaves_out(above),
    ensures
        s.cuts_off(path, depth),
{
    assert(s.leaves_out_above(path, k));
}

/// The reply that a run gets to the request `q`: the entries of the walks
/// come one after the other from `feed`, and `End` once it is used up;
/// everything else is as `world` has it.
pub open spec fn answered(world: World, feed: Seq<ReplyView>, q: RequestView) -> ReplyView {
    if q == RequestView::NextEntry {
        if feed.len() > 0 {
            feed[0]
        } else {
            ReplyView::End
        }
    } else {
        world(q)
    }
}

/// What is left of `feed` once `q` was answered.
pub open spec fn fed(feed: Seq<ReplyView>, q: RequestView) -> Seq<ReplyView> {
    if q == RequestView::NextEntry && feed.len() > 0 {
        feed.skip(1)
    } else {
        feed
    }
}

/// The destination `dest` of `src` is as a pass that makes links leaves it:
/// it holds a link of ours that reads as the settings want it, or a
/// directory where the entry is a node.
pub open spec fn in_place(
    s: Shover,
    world: World,
    src: Seq<char>,
    dest: Seq<char>,
    node: bool,
) -> bool {
    &&& world(RequestView::Lstat(dest)) == ReplyView::Flag(true)
    &&& match type_of(world, src, dest) {
        Ok(Type::Dotlink) => match world(RequestView::ReadLink(dest)).path() {
            Ok(link) => absolute(link) == s.absolute,
            Err(_) => false,
        },
        Ok(Type::EmptyDir) => node,
        Ok(Type::NonemptyDir) => node,
        _ => false,
    }
}

/// What the reply to a run's request brings to light is as a pass leaves it:
/// the destination's root is not missing, and the destination of an entry
/// that is to be visited is in place.
pub open spec fn finds_in_place(s: Shover, world: World, run: RunView, reply: ReplyView) -> bool {
    match run.phase {
        PhaseView::Root { dot } => reply.flag() != Ok::<bool, Seq<char>>(false),
        PhaseView::Walking { dot } => match reply {
            ReplyView::Entry { path, depth, is_dir } => match tail_of(path, depth as nat) {
                Some(rel) => s.cuts_off(path, depth) || in_place(
                    s,
                    world,
                    path,
                    joined(dot.dest.path(), rel),
                    s.is_node(is_dir, depth),
                ),
                None => true,
            },
            _ => true,
        },
        _ => true,
    }
}

/// From the turn `t` on, for as long as `fuel` answers reach, the run finds
/// everything in place.
pub open spec fn settled(
    s: Shover,
    world: World,
    t: TurnView,
    feed: Seq<ReplyView>,
    fuel: nat,
) -> bool
    decreases fuel,
{
    match t.next {
        NextView::Ask(q) => fuel == 0 || {
            let reply = answered(world, feed, q);
            finds_in_place(s, world, t.run, reply) && settled(
                s,
                world,
                s.turn(t.run, reply),
                fed(feed, q),
                (fuel - 1) as nat,
            )
        },
        _ => true,
    }
}

/// From the turn `t` on, for as long as `fuel` answers reach, the run asks
/// for no change on disk.
pub open spec fn calm(s: Shover, world: World, t: TurnView, feed: Seq<ReplyView>, fuel: nat) -> bool
    decreases fuel,
{
    match t.next {
        NextView::Ask(q) => !q.mutates() && (fuel == 0 || calm(
            s,
            world,
            s.turn(t.run, answered(world, feed, q)),
            fed(feed, q),
            (fuel - 1) as nat,
        )),
        _ => true,
    }
}

impl TurnView {
    /// The turn asks for no change, and an entry under work is in place and
    /// on its way to being kept.
    pub open spec fn at_rest(self, s: Shover, world: World) -> bool {
        match self.next {
            NextView::Ask(q) => !q.mutates() && (match self.run.phase {
                PhaseView::Entry { dot, entry } => q != RequestView::NextEntry && in_place(
                    s,
                    world,
                    entry.src,
                    entry.dest,
                    entry.node,
                ) && (match entry.stage {
                    super::entry::StageView::Stat => q == RequestView::Lstat(entry.dest),
                    super::entry::StageView::Look(p) => crate::ft::run(
                        LookView::Ask(p, q),
                        world,
                        7,
                    ) == Some(verdict(world, entry.src, entry.dest)),
                    super::entry::StageView::Mode { ft } => ft.ty == Type::Dotlink && type_of(
                        world,
                        entry.src,
                        entry.dest,
                    ) == Ok::<Type, Seq<char>>(Type::Dotlink) && q == RequestView::ReadLink(
                        entry.dest,
                    ),
                    _ => false,
                }),
                PhaseView::RootMake { dot } => false,
                _ => true,
            }),
            _ => true,
        }
    }
}

/// A run at rest that finds what its request brings to light in place comes
/// to rest again.
pub proof fn lemma_rests(s: Shover, world: World, t: TurnView, reply: ReplyView)
    requires
        !s.unshove,
        t.at_rest(s, world),
        t.next matches NextView::Ask(q) && (q != RequestView::NextEntry ==> reply == world(q)),
        finds_in_place(s, world, t.run, reply),
    ensures
        s.turn(t.run, reply).at_rest(s, world),
{
    match t.run.phase {
        PhaseView::Entry { dot, entry } => {
            let q = t.next->Ask_0;
            lemma_one_report(EventView::Kept { dest: entry.dest, ty: Type::Dotlink });
            lemma_one_report(EventView::Kept { dest: entry.dest, ty: Type::EmptyDir });
            lemma_one_report(EventView::Kept { dest: entry.dest, ty: Type::NonemptyDir });
            match entry.stage {
                super::entry::StageView::Stat => {
                    lemma_verdict(world, entry.src, entry.dest);
                },
                super::entry::StageView::Look(p) => {
                    let after = p.step(reply);
                    assert(crate::ft::run(LookView::Ask(p, q), world, 7) == crate::ft::run(
                        after,
                        world,
                        6,
                    ));
                    lemma_run_more(after, world, 6);
                    lemma_look_is_harmless(p, reply);
                },
                _ => {},
            }
        },
        _ => {},
    }
}

/// A run at rest that goes on finding everything in place stays calm.
pub proof fn lemma_stays_calm(
    s: Shover,
    world: World,
    t: TurnView,
    feed: Seq<ReplyView>,
    fuel: nat,
)
    requires
        !s.unshove,
        t.at_rest(s, world),
        settled(s, world, t, feed, fuel),
    ensures
        calm(s, world, t, feed, fuel),
    decreases fuel,
{
    match t.next {
        NextView::Ask(q) => {
            if fuel > 0 {
                let reply = answered(world, feed, q);
                lemma_rests(s, world, t, reply);
                lemma_stays_calm(s, world, s.turn(t.run, reply), fed(feed, q), (fuel - 1) as nat);
            }
        },
        _ => {},
    }
}

/// A second pass changes nothing. Let a run make links, in a world that
/// answers every question but for the entries, and let the walks give it
/// whatever entries in whatever order. If it finds everything in place as
/// it goes, that is, every destination root is there and every entry that it
/// visits has at its destination a link of ours in the wanted mode or a
/// directory where a node is due, then however long it runs it asks for no
/// link, no directory and no removal.
pub proof fn lemma_second_pass(s: Shover, world: World, feed: Seq<ReplyView>, fuel: nat)
    requires
        !s.unshove,
        settled(s, world, s.first_turn(), feed, fuel),
    ensures
        calm(s, world, s.first_turn(), feed, fuel),
{
    lemma_stays_calm(s, world, s.first_turn(), feed, fuel);
}

/// The world in which a run goes on after `q` was answered. Between two
/// entries anything may have changed on disk, by the run's own doing or by
/// another's: with every entry taken from the feed comes the world in which
/// that entry is visited.
pub open spec fn moved_on(world: World, worlds: Seq<World>, q: RequestView) -> World {
    if q == RequestView::NextEntry && worlds.len() > 0 {
        worlds[0]
    } else {
        world
    }
}

/// What is left of `worlds` once `q` was answered.
pub open spec fn passed(worlds: Seq<World>, q: RequestView) -> Seq<World> {
    if q == RequestView::NextEntry && worlds.len() > 0 {
        worlds.skip(1)
    } else {
        worlds
    }
}

/// The destination `dest` of `src` holds nothing, or a link of ours that can
/// be unlinked.
pub open spec fn linked_or_free(world: World, src: Seq<char>, dest: Seq<char>) -> bool {
    world(RequestView::Lstat(dest)) == ReplyView::Flag(false) || linked(world, src, dest)
}

/// The destination `dest` of `src` holds a link of ours that can be unlinked.
pub open spec fn linked(world: World, src: Seq<char>, dest: Seq<char>) -> bool {
    &&& world(RequestView::Lstat(dest)) == ReplyView::Flag(true)
    &&& type_of(world, src, dest) == Ok::<Type, Seq<char>>(Type::Dotlink)
    &&& world(RequestView::RemoveFile(dest)) == ReplyView::Done
}

/// An entry that the walk gives and that is to be visited has at its
/// destination nothing or a link of ours.
pub open spec fn finds_links(s: Shover, world: World, run: RunView, reply: ReplyView) -> bool {
    match run.phase {
        PhaseView::Walking { dot } => match reply {
            ReplyView::Entry { path, depth, is_dir } => match tail_of(path, depth as nat) {
                Some(rel) => s.cuts_off(path, depth) || linked_or_free(
                    world,
                    path,
                    joined(dot.dest.path(), rel),
                ),
                None => true,
            },
            _ => true,
        },
        _ => true,
    }
}

/// From the turn `t` on, for as long as `fuel` answers reach, the run finds
/// nothing but links of ours at the destinations of the entries it visits.
pub open spec fn links_only(
    s: Shover,
    world: World,
    worlds: Seq<World>,
    t: TurnView,
    feed: Seq<ReplyView>,
    fuel: nat,
) -> bool
    decreases fuel,
{
    match t.next {
        NextView::Ask(q) => fuel == 0 || {
            let reply = answered(world, feed, q);
            let next = moved_on(world, worlds, q);
            finds_links(s, next, t.run, reply) && links_only(
                s,
                next,
                passed(worlds, q),
                s.turn(t.run, reply),
                fed(feed, q),
                (fuel - 1) as nat,
            )
        },
        _ => true,
    }
}

impl TurnView {
    /// The turn asks for nothing to be made, and for nothing to be removed
    /// but a link of ours at the destination of the entry under work.
    pub open spec fn takes_links_only(self, world: World) -> bool {
        match self.next {
            NextView::Ask(q) => !q.creates() && (q.removes() ==> (match self.run.phase {
                PhaseView::Entry { dot, entry } => q == RequestView::RemoveFile(entry.dest)
                    && linked(world, entry.src, entry.dest),
                _ => false,
            })),
            _ => true,
        }
    }

    /// The turn takes links only, and an entry under work is one whose
    /// destination is free or linked and is on its way to being freed.
    pub open spec fn unwinding(self, s: Shover, world: World) -> bool {
        &&& self.takes_links_only(world)
        &&& match self.next {
            NextView::Ask(q) => match self.run.phase {
                PhaseView::Entry { dot, entry } => q != RequestView::NextEntry && (
                match entry.stage {
                    super::entry::StageView::Stat => q == RequestView::Lstat(entry.dest)
                        && linked_or_free(world, entry.src, entry.dest),
                    super::entry::StageView::Look(p) => linked(world, entry.src, entry.dest)
                        && crate::ft::run(LookView::Ask(p, q), world, 7) == Some(
                        verdict(world, entry.src, entry.dest),
                    ),
                    super::entry::StageView::Removing { ty } => linked(
                        world,
                        entry.src,
                        entry.dest,
                    ) && q == RequestView::RemoveFile(entry.dest),
                    _ => false,
                }),
                PhaseView::RootMake { dot } => false,
                _ => true,
            },
            _ => true,
        }
    }
}

/// From the turn `t` on, for as long as `fuel` answers reach, the run takes
/// links only.
pub open spec fn undoing(
    s: Shover,
    world: World,
    worlds: Seq<World>,
    t: TurnView,
    feed: Seq<ReplyView>,
    fuel: nat,
) -> bool
    decreases fuel,
{
    t.takes_links_only(world) && (match t.next {
        NextView::Ask(q) => fuel == 0 || undoing(
            s,
            moved_on(world, worlds, q),
            passed(worlds, q),
            s.turn(t.run, answered(world, feed, q)),
            fed(feed, q),
            (fuel - 1) as nat,
        ),
        _ => true,
    })
}

/// A run that unwinds and finds nothing but links at what its request
/// brings to light goes on unwinding, in the world it has moved on to.
pub proof fn lemma_unwinds(s: Shover, world: World, next: World, t: TurnView, reply: ReplyView)
    requires
        s.unshove,
        t.unwinding(s, world),
        t.next matches NextView::Ask(q) && (q != RequestView::NextEntry ==> reply == world(q)
            && next == world),
        finds_links(s, next, t.run, reply),
    ensures
        s.turn(t.run, reply).unwinding(s, next),
{
    match t.run.phase {
        PhaseView::Entry { dot, entry } => {
            let q = t.next->Ask_0;
            lemma_one_report(
                EventView::Removed { dest: entry.dest, ty: Type::Dotlink, done: true },
            );
            lemma_one_report(
                EventView::Removed { dest: entry.dest, ty: Type::Dotlink, done: false },
            );
            match entry.stage {
                super::entry::StageView::Stat => {
                    lemma_verdict(world, entry.src, entry.dest);
                },
                super::entry::StageView::Look(p) => {
                    let after = p.step(reply);
                    assert(crate::ft::run(LookView::Ask(p, q), world, 7) == crate::ft::run(
                        after,
                        world,
                        6,
                    ));
                    lemma_run_more(after, world, 6);
                    lemma_look_is_harmless(p, reply);
                },
                _ => {},
            }
        },
        PhaseView::Walking { dot } => {
            match reply {
                ReplyView::Entry { path, depth, is_dir } => {
                    lemma_one_report(EventView::Ignored(path));
                    lemma_one_report(
                        EventView::Visit {
                            src: path,
                            dest: joined(dot.dest.path(), tail_of(path, depth as nat)->0),
                            back: true,
                        },
                    );
                },
                _ => {},
            }
        },
        _ => {},
    }
}

/// A run that unwinds and goes on finding links only goes on taking links
/// only.
pub proof fn lemma_goes_on_undoing(
    s: Shover,
    world: World,
    worlds: Seq<World>,
    t: TurnView,
    feed: Seq<ReplyView>,
    fuel: nat,
)
    requires
        s.unshove,
        t.unwinding(s, world),
        links_only(s, world, worlds, t, feed, fuel),
    ensures
        undoing(s, world, worlds, t, feed, fuel),
    decreases fuel,
{
    match t.next {
        NextView::Ask(q) => {
            if fuel > 0 {
                let reply = answered(world, feed, q);
                let next = moved_on(world, worlds, q);
                lemma_unwinds(s, world, next, t, reply);
                lemma_goes_on_undoing(
                    s,
                    next,
                    passed(worlds, q),
                    s.turn(t.run, reply),
                    fed(feed, q),
                    (fuel - 1) as nat,
                );
            }
        },
        _ => {},
    }
}

/// Taking away takes away what making made, and nothing else. Let a run
/// take links away; let the walks give it whatever entries in whatever
/// order, and let the disk change between one entry and the next however it
/// may. If every entry that the run visits has at its destination nothing,
/// or a link of ours that can be unlinked, then however long it runs it
/// makes nothing, and it removes nothing but such a link, at the destination
/// of the entry it is visiting.
pub proof fn lemma_unshove_pass(
    s: Shover,
    world: World,
    worlds: Seq<World>,
    feed: Seq<ReplyView>,
    fuel: nat,
)
    requires
        s.unshove,
        links_only(s, world, worlds, s.first_turn(), feed, fuel),
    ensures
        undoing(s, world, worlds, s.first_turn(), feed, fuel),
{
    lemma_one_report(EventView::DryRun);
    lemma_goes_on_undoing(s, world, worlds, s.first_turn(), feed, fuel);
}

} // verus!
