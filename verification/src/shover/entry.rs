//! One entry of a dot's tree: what stands at its destination is looked at,
//! removed where it must go and may, and the link or the directory is made.

use super::Shover;
use crate::ft::{
    lemma_look_is_harmless, lemma_run_more, lemma_verdict, type_of, verdict, Error as FtError,
    ErrorView as FtErrorView, Ft, FtView, StageView as LookStage,
    Probe, ProbeView, Step as Look, StepView as LookView, Type,
};
use crate::log::{also, report, silence, views, Event, EventView, Failure, FailureView};
use crate::sys::{Reply, ReplyView, Request, RequestView, World};
use crate::util::{absolute, diff_paths, is_absolute, join, joined, parent, parent_of, relative_to};
use vstd::prelude::*;

verus! {

/// How far the work on an entry has come: each stage names the question or
/// the operation that is out.
#[derive(Debug, PartialEq, Eq)]
pub enum Stage {
    /// Is there anything at the destination?
    Stat,
    /// What is it? The look at it is under way.
    Look(Probe),
    /// It is a link of ours: what does it read?
    Mode { ft: Ft },
    /// It is being removed.
    Removing { ty: Type },
    /// What is the source's canonical path?
    Canon,
    /// Where does the process work? (The destination is relative.)
    Cwd { target: String },
    /// The link is being created.
    Linking { target: String },
    /// The directory is being created.
    Making,
}

pub enum StageView {
    Stat,
    Look(ProbeView),
    Mode { ft: FtView },
    Removing { ty: Type },
    Canon,
    Cwd { target: Seq<char> },
    Linking { target: Seq<char> },
    Making,
}

impl View for Stage {
    type V = StageView;

    open spec fn view(&self) -> StageView {
        match self {
            Stage::Stat => StageView::Stat,
            Stage::Look(p) => StageView::Look(p@),
            Stage::Mode { ft } => StageView::Mode { ft: ft@ },
            Stage::Removing { ty } => StageView::Removing { ty: *ty },
            Stage::Canon => StageView::Canon,
            Stage::Cwd { target } => StageView::Cwd { target: target@ },
            Stage::Linking { target } => StageView::Linking { target: target@ },
            Stage::Making => StageView::Making,
        }
    }
}

/// The work on one entry, under way: `src` is the entry, `dest` its place
/// under the destination, `node` says that it is to stand there as a
/// directory of its own.
#[derive(Debug, PartialEq, Eq)]
pub struct Entry {
    pub src: String,
    pub dest: String,
    pub node: bool,
    pub stage: Stage,
}

pub struct EntryView {
    pub src: Seq<char>,
    pub dest: Seq<char>,
    pub node: bool,
    pub stage: StageView,
}

impl View for Entry {
    type V = EntryView;

    open spec fn view(&self) -> EntryView {
        EntryView { src: self.src@, dest: self.dest@, node: self.node, stage: self.stage@ }
    }
}

/// What comes after a step of the work on an entry.
#[derive(Debug, PartialEq, Eq)]
pub enum Then {
    /// One more question or operation.
    Ask(Entry, Request),
    /// The entry is done with.
    Over,
}

pub enum ThenView {
    Ask(EntryView, RequestView),
    Over,
}

impl View for Then {
    type V = ThenView;

    open spec fn view(&self) -> ThenView {
        match self {
            Then::Ask(e, q) => ThenView::Ask(e@, q@),
            Then::Over => ThenView::Over,
        }
    }
}

/// One step of the work on an entry: what there is to report, and what comes
/// next.
#[derive(Debug, PartialEq, Eq)]
pub struct Moved {
    pub events: Vec<Event>,
    pub next: Then,
}

pub struct MovedView {
    pub events: Seq<EventView>,
    pub next: ThenView,
}

impl View for Moved {
    type V = MovedView;

    open spec fn view(&self) -> MovedView {
        MovedView { events: views(self.events@), next: self.next@ }
    }
}

impl EntryView {
    pub open spec fn at(self, stage: StageView) -> EntryView {
        EntryView { src: self.src, dest: self.dest, node: self.node, stage }
    }

    /// The step that only asks.
    pub open spec fn ask(self, stage: StageView, q: RequestView) -> MovedView {
        MovedView { events: Seq::empty(), next: ThenView::Ask(self.at(stage), q) }
    }

    /// The entry is given up.
    pub open spec fn fail(self, why: FailureView) -> MovedView {
        MovedView {
            events: seq![EventView::Failed { path: self.dest, why }],
            next: ThenView::Over,
        }
    }

    /// The destination is left as it is.
    pub open spec fn keep(self, ty: Type) -> MovedView {
        MovedView { events: seq![EventView::Kept { dest: self.dest, ty }], next: ThenView::Over }
    }

    /// The link that reads `target`: created, or in a dry run only reported.
    pub open spec fn link(self, s: Shover, target: Seq<char>) -> MovedView {
        if s.no {
            MovedView {
                events: seq![EventView::Linked { dest: self.dest, target, done: false }],
                next: ThenView::Over,
            }
        } else {
            self.ask(
                StageView::Linking { target },
                RequestView::Symlink { target, link: self.dest },
            )
        }
    }

    /// The relative link, given the relative path that was found from the
    /// destination's directory to the source, or that there is none.
    pub open spec fn link_with(self, s: Shover, found: Option<Seq<char>>) -> MovedView {
        match found {
            Some(target) => self.link(s, target),
            None => self.fail(FailureView::NoRelative),
        }
    }

    /// The relative link to the canonical source `canon` for the
    /// destination at the absolute path `place`.
    pub open spec fn link_from(self, s: Shover, canon: Seq<char>, place: Seq<char>) -> MovedView {
        match parent_of(place) {
            Some(dir) => self.link_with(s, relative_to(canon, dir)),
            None => self.fail(FailureView::NoParent),
        }
    }

    /// The destination is free: nothing more where links are taken away, the
    /// directory where the entry is a node, else the link, which begins with
    /// the source's canonical path. `before` is what there is to report
    /// already.
    pub open spec fn create(self, s: Shover, before: Seq<EventView>) -> MovedView {
        if s.unshove {
            MovedView { events: before, next: ThenView::Over }
        } else if self.node {
            if s.no {
                MovedView {
                    events: before.push(EventView::Made { dest: self.dest, done: false }),
                    next: ThenView::Over,
                }
            } else {
                MovedView {
                    events: before,
                    next: ThenView::Ask(
                        self.at(StageView::Making),
                        RequestView::CreateDir(self.dest),
                    ),
                }
            }
        } else {
            MovedView {
                events: before,
                next: ThenView::Ask(self.at(StageView::Canon), RequestView::Canonicalize(self.src)),
            }
        }
    }

    /// What stands at the destination has to go: the removal is asked for
    /// where the rage allows it, in a dry run only reported, and refused
    /// where the rage falls short.
    pub open spec fn remove(self, s: Shover, ft: FtView) -> MovedView {
        match ft.rm(s.rage) {
            Ok(q) => if s.no {
                self.create(
                    s,
                    seq![EventView::Removed { dest: self.dest, ty: ft.ty, done: false }],
                )
            } else {
                self.ask(StageView::Removing { ty: ft.ty }, q)
            },
            Err(e) => self.fail(FailureView::Remove(e)),
        }
    }

    /// What stands at the destination is known. While links are made, a link
    /// of ours is asked what it reads, and a directory where a directory is
    /// due is kept; everything else has to go.
    pub open spec fn decide(self, s: Shover, ft: FtView) -> MovedView {
        if ft.ty == Type::Dotlink && !s.unshove {
            self.ask(StageView::Mode { ft }, RequestView::ReadLink(self.dest))
        } else if (ft.ty == Type::EmptyDir || ft.ty == Type::NonemptyDir) && self.node
            && !s.unshove {
            self.keep(ft.ty)
        } else {
            self.remove(s, ft)
        }
    }

    /// The look at the destination goes on, or ends.
    pub open spec fn look(self, s: Shover, step: LookView) -> MovedView {
        match step {
            LookView::Ask(p, q) => self.ask(StageView::Look(p), q),
            LookView::Done(Ok(ft)) => self.decide(s, ft),
            LookView::Done(Err(e)) => self.fail(FailureView::Look(e)),
        }
    }

    /// The visit begins: it is reported, with its direction, and the
    /// destination is inspected.
    pub open spec fn start(src: Seq<char>, dest: Seq<char>, node: bool, back: bool) -> MovedView {
        MovedView {
            events: seq![EventView::Visit { src, dest, back }],
            next: ThenView::Ask(
                EntryView { src, dest, node, stage: StageView::Stat },
                RequestView::Lstat(dest),
            ),
        }
    }

    /// What follows from the answer to what is out.
    pub open spec fn step(self, s: Shover, reply: ReplyView) -> MovedView {
        match self.stage {
            StageView::Stat => match reply.flag() {
                Ok(true) => self.look(s, ProbeView::start(self.src, self.dest)),
                Ok(false) => self.create(s, Seq::empty()),
                Err(m) => self.fail(FailureView::Stat(m)),
            },
            StageView::Look(p) => self.look(s, p.step(reply)),
            StageView::Mode { ft } => match reply.path() {
                Ok(link) => if absolute(link) == s.absolute {
                    self.keep(Type::Dotlink)
                } else {
                    self.remove(s, ft)
                },
                Err(m) => self.fail(FailureView::Look(FtErrorView::Io(m))),
            },
            StageView::Removing { ty } => match reply.done() {
                Ok(_) => self.create(
                    s,
                    seq![EventView::Removed { dest: self.dest, ty, done: true }],
                ),
                Err(m) => self.fail(FailureView::Remove(FtErrorView::Io(m))),
            },
            StageView::Canon => match reply.path() {
                Ok(canon) => if s.absolute {
                    self.link(s, canon)
                } else if absolute(self.dest) {
                    self.link_from(s, canon, self.dest)
                } else {
                    self.ask(StageView::Cwd { target: canon }, RequestView::CurrentDir)
                },
                Err(m) => self.fail(FailureView::Source(m)),
            },
            StageView::Cwd { target } => match reply.path() {
                Ok(cwd) => self.link_from(s, target, joined(cwd, self.dest)),
                Err(m) => self.fail(FailureView::Link(m)),
            },
            StageView::Linking { target } => match reply.done() {
                Ok(_) => MovedView {
                    events: seq![EventView::Linked { dest: self.dest, target, done: true }],
                    next: ThenView::Over,
                },
                Err(m) => self.fail(FailureView::Link(m)),
            },
            StageView::Making => match reply.done() {
                Ok(_) => MovedView {
                    events: seq![EventView::Made { dest: self.dest, done: true }],
                    next: ThenView::Over,
                },
                Err(m) => self.fail(FailureView::Dir(m)),
            },
        }
    }
}

impl Entry {
    fn ask(self, stage: Stage, q: Request) -> (r: Moved)
        ensures
            r@ == self@.ask(stage@, q@),
    {
        Moved {
            events: silence(),
            next: Then::Ask(
                Entry { src: self.src, dest: self.dest, node: self.node, stage },
                q,
            ),
        }
    }

    fn fail(self, why: Failure) -> (r: Moved)
        ensures
            r@ == self@.fail(why@),
    {
        Moved { events: report(Event::Failed { path: self.dest, why }), next: Then::Over }
    }

    fn keep(self, ty: Type) -> (r: Moved)
        ensures
            r@ == self@.keep(ty),
    {
        Moved { events: report(Event::Kept { dest: self.dest, ty }), next: Then::Over }
    }

    fn link(self, shover: &Shover, target: String) -> (r: Moved)
        ensures
            r@ == self@.link(*shover, target@),
    {
        if shover.no {
            Moved {
                events: report(Event::Linked { dest: self.dest, target, done: false }),
                next: Then::Over,
            }
        } else {
            let link = self.dest.clone();
            let kept = target.clone();
            self.ask(Stage::Linking { target: kept }, Request::Symlink { target, link })
        }
    }

    /// Goes on with the relative link once the search for a relative path
    /// from the destination's directory to the source has ended: with the
    /// path `found` the link is made, without one the entry is given up.
    pub fn link_with(self, shover: &Shover, found: Option<String>) -> (r: Moved)
        ensures
            r@ == self@.link_with(
                *shover,
                match found {
                    Some(t) => Some(t@),
                    None => None,
                },
            ),
    {
        match found {
            Some(target) => self.link(shover, target),
            None => self.fail(Failure::NoRelative),
        }
    }

    fn link_from(self, shover: &Shover, canon: &str, place: &str) -> (r: Moved)
        ensures
            r@ == self@.link_from(*shover, canon@, place@),
    {
        match parent(place) {
            Some(dir) => {
                let found = diff_paths(canon, dir.as_str());
                self.link_with(shover, found)
            },
            None => self.fail(Failure::NoParent),
        }
    }

    fn create(self, shover: &Shover, before: Vec<Event>) -> (r: Moved)
        ensures
            r@ == self@.create(*shover, views(before@)),
    {
        if shover.unshove {
            Moved { events: before, next: Then::Over }
        } else if self.node {
            if shover.no {
                Moved {
                    events: also(before, Event::Made { dest: self.dest, done: false }),
                    next: Then::Over,
                }
            } else {
                let dest = self.dest.clone();
                Moved {
                    events: before,
                    next: Then::Ask(
                        Entry {
                            src: self.src,
                            dest: self.dest,
                            node: self.node,
                            stage: Stage::Making,
                        },
                        Request::CreateDir(dest),
                    ),
                }
            }
        } else {
            let src = self.src.clone();
            Moved {
                events: before,
                next: Then::Ask(
                    Entry { src: self.src, dest: self.dest, node: self.node, stage: Stage::Canon },
                    Request::Canonicalize(src),
                ),
            }
        }
    }

    fn remove(self, shover: &Shover, ft: Ft) -> (r: Moved)
        ensures
            r@ == self@.remove(*shover, ft@),
    {
        match ft.rm(shover.rage) {
            Ok(q) => {
                if shover.no {
                    let dest = self.dest.clone();
                    self.create(shover, report(Event::Removed { dest, ty: ft.ty, done: false }))
                } else {
                    self.ask(Stage::Removing { ty: ft.ty }, q)
                }
            },
            Err(e) => self.fail(Failure::Remove(e)),
        }
    }

    fn decide(self, shover: &Shover, ft: Ft) -> (r: Moved)
        ensures
            r@ == self@.decide(*shover, ft@),
    {
        let ours = match ft.ty {
            Type::Dotlink => true,
            _ => false,
        };
        let dir = match ft.ty {
            Type::EmptyDir => true,
            Type::NonemptyDir => true,
            _ => false,
        };
        if ours && !shover.unshove {
            let dest = self.dest.clone();
            self.ask(Stage::Mode { ft }, Request::ReadLink(dest))
        } else if dir && self.node && !shover.unshove {
            self.keep(ft.ty)
        } else {
            self.remove(shover, ft)
        }
    }

    fn look(self, shover: &Shover, step: Look) -> (r: Moved)
        ensures
            r@ == self@.look(*shover, step@),
    {
        match step {
            Look::Ask(p, q) => self.ask(Stage::Look(p), q),
            Look::Done(Ok(ft)) => self.decide(shover, ft),
            Look::Done(Err(e)) => self.fail(Failure::Look(e)),
        }
    }

    /// Takes the answer to what is out and says what there is to report and
    /// what comes next.
    pub fn step(self, shover: &Shover, reply: Reply) -> (r: Moved)
        ensures
            r@ == self@.step(*shover, reply@),
    {
        let Entry { src, dest, node, stage } = self;
        let me = Entry { src, dest, node, stage: Stage::Stat };
        match stage {
            Stage::Stat => match reply.flag() {
                Ok(true) => {
                    let step = Ft::new(me.src.as_str(), me.dest.as_str());
                    me.look(shover, step)
                },
                Ok(false) => me.create(shover, silence()),
                Err(m) => me.fail(Failure::Stat(m)),
            },
            Stage::Look(p) => {
                let step = p.step(reply);
                me.look(shover, step)
            },
            Stage::Mode { ft } => match reply.path() {
                Ok(link) => {
                    if is_absolute(link.as_str()) == shover.absolute {
                        me.keep(Type::Dotlink)
                    } else {
                        me.remove(shover, ft)
                    }
                },
                Err(m) => me.fail(Failure::Look(FtError::Io(m))),
            },
            Stage::Removing { ty } => match reply.done() {
                Ok(_) => {
                    let dest = me.dest.clone();
                    me.create(shover, report(Event::Removed { dest, ty, done: true }))
                },
                Err(m) => me.fail(Failure::Remove(FtError::Io(m))),
            },
            Stage::Canon => match reply.path() {
                Ok(canon) => {
                    if shover.absolute {
                        me.link(shover, canon)
                    } else if is_absolute(me.dest.as_str()) {
                        let place = me.dest.clone();
                        me.link_from(shover, canon.as_str(), place.as_str())
                    } else {
                        me.ask(Stage::Cwd { target: canon }, Request::CurrentDir)
                    }
                },
                Err(m) => me.fail(Failure::Source(m)),
            },
            Stage::Cwd { target } => match reply.path() {
                Ok(cwd) => {
                    let place = join(cwd.as_str(), me.dest.as_str());
                    me.link_from(shover, target.as_str(), place.as_str())
                },
                Err(m) => me.fail(Failure::Link(m)),
            },
            Stage::Linking { target } => match reply.done() {
                Ok(_) => Moved {
                    events: report(Event::Linked { dest: me.dest, target, done: true }),
                    next: Then::Over,
                },
                Err(m) => me.fail(Failure::Link(m)),
            },
            Stage::Making => match reply.done() {
                Ok(_) => Moved {
                    events: report(Event::Made { dest: me.dest, done: true }),
                    next: Then::Over,
                },
                Err(m) => me.fail(Failure::Dir(m)),
            },
        }
    }
}

impl Shover {
    /// Begins the visit of one entry: what lies at `src` is to stand at
    /// `dest`, or to stand there no longer. `is_dir` says whether the entry
    /// is a directory and `depth` how deep below the dot's root it lies; the
    /// two decide whether it is mirrored as a directory or as a link.
    pub fn shove(&self, src: &str, dest: &str, is_dir: bool, depth: usize) -> (r: Moved)
        ensures
            r@ == EntryView::start(src@, dest@, self.is_node(is_dir, depth), self.unshove),
    {
        let node = self.node(is_dir, depth);
        Moved {
            events: report(
                Event::Visit { src: src.to_owned(), dest: dest.to_owned(), back: self.unshove },
            ),
            next: Then::Ask(
                Entry { src: src.to_owned(), dest: dest.to_owned(), node, stage: Stage::Stat },
                Request::Lstat(dest.to_owned()),
            ),
        }
    }
}

/// The course that the work on an entry takes in a world: what was reported,
/// what was asked, whether any of it changed the disk, and whether the work
/// came to its end.
pub struct Course {
    pub events: Seq<EventView>,
    pub asked: Seq<RequestView>,
    /// Something was asked for that changes the disk.
    pub changed: bool,
    /// A removal was asked for.
    pub removed: bool,
    pub over: bool,
}

/// The course from the step `m` on when `world` answers, as far as `fuel`
/// answers reach.
pub open spec fn course(s: Shover, m: MovedView, world: World, fuel: nat) -> Course
    decreases fuel,
{
    match m.next {
        ThenView::Over => Course {
            events: m.events,
            asked: Seq::empty(),
            changed: false,
            removed: false,
            over: true,
        },
        ThenView::Ask(e, q) => if fuel == 0 {
            Course {
                events: m.events,
                asked: seq![q],
                changed: q.mutates(),
                removed: q.removes(),
                over: false,
            }
        } else {
            let rest = course(s, e.step(s, world(q)), world, (fuel - 1) as nat);
            Course {
                events: m.events + rest.events,
                asked: seq![q] + rest.asked,
                changed: q.mutates() || rest.changed,
                removed: q.removes() || rest.removed,
                over: rest.over,
            }
        },
    }
}

impl EntryView {
    /// What holds of every entry that the work can come to: the look is at
    /// this entry's own destination, and a stage is only reached under the
    /// settings that lead to it.
    pub open spec fn sound(self, s: Shover) -> bool {
        match self.stage {
            StageView::Stat => true,
            StageView::Look(p) => p.src == self.src && p.dest == self.dest,
            StageView::Mode { ft } => !s.unshove && ft.path == self.dest && ft.ty == Type::Dotlink,
            StageView::Removing { ty } => !s.no,
            StageView::Canon => !s.unshove && !self.node,
            StageView::Cwd { target } => !s.unshove && !self.node && !s.absolute,
            StageView::Linking { target } => !s.unshove && !self.node && !s.no,
            StageView::Making => !s.unshove && self.node && !s.no,
        }
    }
}

impl EntryView {
    /// The entry waits for the removal `q` of what stands at its destination,
    /// and the rage of the run allows that removal.
    pub open spec fn removing(self, s: Shover, q: RequestView) -> bool {
        match self.stage {
            StageView::Removing { ty } => s.rage >= ty.min_rage() && q == ty.removal(self.dest),
            _ => false,
        }
    }
}

/// Soundness holds when a visit begins and after every step of it.
pub proof fn lemma_sound(s: Shover, e: EntryView, reply: ReplyView)
    requires
        e.sound(s),
    ensures
        EntryView::start(e.src, e.dest, e.node, s.unshove).next matches ThenView::Ask(first, _)
            && first.sound(s),
        e.step(s, reply).next matches ThenView::Ask(after, _) ==> after.sound(s),
{
}

/// Nothing is removed but what the rage allows. A step that asks for a
/// removal asks for the one that fits the type of what stands at the entry's
/// own destination, and the rage of the run reaches that type's minimum.
pub proof fn lemma_removal_is_gated(s: Shover, e: EntryView, reply: ReplyView)
    requires
        e.sound(s),
    ensures
        match e.step(s, reply).next {
            ThenView::Ask(after, q) => q.removes() ==> after.removing(s, q),
            ThenView::Over => true,
        },
{
}

/// In a dry run no step of the work on an entry asks for a change on disk.
pub proof fn lemma_dry_entry(s: Shover, e: EntryView, reply: ReplyView)
    requires
        s.no,
    ensures
        e.step(s, reply).next matches ThenView::Ask(_, q) ==> !q.mutates(),
{
    match e.stage {
        StageView::Look(p) => {
            lemma_look_is_harmless(p, reply);
        },
        _ => {},
    }
}

/// While links are taken away nothing is put on disk: no step asks for a
/// link or a directory.
pub proof fn lemma_unshove_makes_nothing(s: Shover, e: EntryView, reply: ReplyView)
    requires
        s.unshove,
        e.sound(s),
    ensures
        e.step(s, reply).next matches ThenView::Ask(_, q) ==> !q.creates(),
{
}

/// A directory is only ever made for a node and a link only for what is none,
/// each at the entry's own destination; and where the destination is free, a
/// run that makes links and is not dry turns at once to the one or the other.
pub proof fn lemma_node_or_link(s: Shover, e: EntryView, reply: ReplyView)
    requires
        e.sound(s),
    ensures
        e.step(s, reply).next matches ThenView::Ask(_, RequestView::CreateDir(p)) ==> e.node && p
            == e.dest,
        e.step(s, reply).next matches ThenView::Ask(_, RequestView::Symlink { target, link })
            ==> !e.node && link == e.dest,
        !(e.step(s, reply).next matches ThenView::Ask(_, RequestView::CreateDirAll(_))),
        e.stage == StageView::Stat && reply == ReplyView::Flag(false) && !s.unshove && !s.no ==> (
        if e.node {
            e.step(s, reply).next == ThenView::Ask(
                e.at(StageView::Making),
                RequestView::CreateDir(e.dest),
            )
        } else {
            e.step(s, reply).next == ThenView::Ask(
                e.at(StageView::Canon),
                RequestView::Canonicalize(e.src),
            )
        }),
{
}

/// With a depth set, a directory above that depth is a node and one at or
/// below it is not; without one every directory is a node. What is no
/// directory never is.
pub proof fn lemma_depth(s: Shover, is_dir: bool, depth: usize)
    ensures
        !is_dir ==> !s.is_node(is_dir, depth),
        is_dir && s.depth == 0 ==> s.is_node(is_dir, depth),
        is_dir && s.depth > 0 ==> (s.is_node(is_dir, depth) <==> depth < s.depth),
{
}

/// How many answers a look may still need, the one that is out included.
pub open spec fn look_rank(stage: LookStage) -> nat {
    match stage {
        LookStage::IsLink => 7,
        LookStage::Link => 6,
        LookStage::Cwd { .. } => 5,
        LookStage::CwdCanon { .. } => 4,
        LookStage::Dir { .. } => 3,
        LookStage::Target { .. } => 2,
        LookStage::Same => 1,
        LookStage::IsDir => 2,
        LookStage::Count => 1,
    }
}

/// The rage of the run reaches the minimum of the type that the destination
/// of `src` at `dest` has in `world`.
pub open spec fn rage_reaches(s: Shover, world: World, src: Seq<char>, dest: Seq<char>) -> bool {
    match type_of(world, src, dest) {
        Ok(ty) => s.rage >= ty.min_rage(),
        Err(_) => false,
    }
}

impl EntryView {
    /// How many answers the work on the entry may still need, the one that is
    /// out included.
    pub open spec fn rank(self) -> nat {
        match self.stage {
            StageView::Stat => 13,
            StageView::Look(p) => look_rank(p.stage) + 5,
            StageView::Mode { .. } => 5,
            StageView::Removing { .. } => 4,
            StageView::Canon => 3,
            StageView::Cwd { .. } => 2,
            StageView::Linking { .. } => 1,
            StageView::Making => 1,
        }
    }
}

impl MovedView {
    /// The step belongs to a visit of `src` at `dest` in `world`: a look
    /// that is under way is on its way to the verdict of that world, a type
    /// once found is the type the destination has there, and a removal is
    /// only asked for where the rage reaches that type's minimum.
    pub open spec fn on_track(self, s: Shover, world: World, src: Seq<char>, dest: Seq<char>) -> bool {
        match self.next {
            ThenView::Over => true,
            ThenView::Ask(e, q) => {
                &&& e.src == src
                &&& e.dest == dest
                &&& q.removes() ==> rage_reaches(s, world, src, dest)
                &&& match e.stage {
                    StageView::Look(p) => crate::ft::run(LookView::Ask(p, q), world, 7) == Some(
                        verdict(world, src, dest),
                    ),
                    StageView::Mode { ft } => type_of(world, src, dest) == Ok::<Type, Seq<char>>(
                        ft.ty,
                    ),
                    _ => true,
                }
            },
        }
    }
}

/// Every step brings the work on an entry nearer to its end.
pub proof fn lemma_rank_falls(s: Shover, e: EntryView, reply: ReplyView)
    ensures
        e.rank() >= 1,
        e.step(s, reply).next matches ThenView::Ask(after, _) ==> after.rank() < e.rank(),
{
}

/// A step of a visit that is on track leads to one that is.
pub proof fn lemma_stays_on_track(
    s: Shover,
    e: EntryView,
    q: RequestView,
    world: World,
    src: Seq<char>,
    dest: Seq<char>,
)
    requires
        (MovedView { events: Seq::empty(), next: ThenView::Ask(e, q) }).on_track(s, world, src, dest),
    ensures
        e.step(s, world(q)).on_track(s, world, src, dest),
{
    let reply = world(q);
    match e.stage {
        StageView::Stat => {
            lemma_verdict(world, src, dest);
        },
        StageView::Look(p) => {
            let after = p.step(reply);
            assert(crate::ft::run(LookView::Ask(p, q), world, 7) == crate::ft::run(
                after,
                world,
                6,
            ));
            lemma_run_more(after, world, 6);
        },
        _ => {},
    }
}

/// The work on an entry ends within as many answers as its rank allows.
pub proof fn lemma_course_ends(s: Shover, m: MovedView, world: World, fuel: nat)
    requires
        m.next matches ThenView::Ask(e, _) ==> e.rank() <= fuel,
    ensures
        course(s, m, world, fuel).over,
    decreases fuel,
{
    match m.next {
        ThenView::Over => {},
        ThenView::Ask(e, q) => {
            lemma_rank_falls(s, e, world(q));
            lemma_course_ends(s, e.step(s, world(q)), world, (fuel - 1) as nat);
        },
    }
}

/// On a visit that is on track, whatever is removed is removed with rage
/// enough.
pub proof fn lemma_course_removes(
    s: Shover,
    m: MovedView,
    world: World,
    src: Seq<char>,
    dest: Seq<char>,
    fuel: nat,
)
    requires
        m.on_track(s, world, src, dest),
    ensures
        course(s, m, world, fuel).removed ==> rage_reaches(s, world, src, dest),
    decreases fuel,
{
    match m.next {
        ThenView::Over => {},
        ThenView::Ask(e, q) => {
            if fuel > 0 {
                lemma_stays_on_track(s, e, q, world, src, dest);
                lemma_course_removes(s, e.step(s, world(q)), world, src, dest, (fuel - 1) as nat);
            }
        },
    }
}

/// The visit of an entry always comes to an end, within thirteen answers.
/// Where it asks for a removal, the destination was found to hold a node of
/// a type whose minimum the rage of the run reaches: short of rage nothing is
/// ever removed, whatever else the settings are.
pub proof fn lemma_rage_rules(s: Shover, src: Seq<char>, dest: Seq<char>, node: bool, world: World)
    ensures
        ({
            let c = course(s, EntryView::start(src, dest, node, s.unshove), world, 13);
            &&& c.over
            &&& c.removed ==> rage_reaches(s, world, src, dest)
        }),
{
    let m = EntryView::start(src, dest, node, s.unshove);
    lemma_course_ends(s, m, world, 13);
    lemma_course_removes(s, m, world, src, dest, 13);
}

/// A second pass finds nothing to do. Where the destination holds a link of
/// ours that reads as the settings want it, or a directory where the entry
/// is a node, a run that makes links reports the visit and that the
/// destination was kept, changes nothing on disk, and is done.
#[verifier::rlimit(50)]
pub proof fn lemma_kept(
    s: Shover,
    src: Seq<char>,
    dest: Seq<char>,
    node: bool,
    ty: Type,
    world: World,
)
    requires
        !s.unshove,
        world(RequestView::Lstat(dest)) == ReplyView::Flag(true),
        type_of(world, src, dest) == Ok::<Type, Seq<char>>(ty),
        ty == Type::Dotlink || ty == Type::EmptyDir || ty == Type::NonemptyDir,
        ty == Type::Dotlink ==> world(RequestView::ReadLink(dest)).path() is Ok && absolute(
            world(RequestView::ReadLink(dest)).path()->Ok_0,
        ) == s.absolute,
        ty != Type::Dotlink ==> node,
    ensures
        ({
            let c = course(s, EntryView::start(src, dest, node, s.unshove), world, 9);
            &&& c.over
            &&& !c.changed
            &&& c.events == seq![EventView::Visit { src, dest, back: s.unshove }, EventView::Kept { dest, ty }]
        }),
{
    reveal_with_fuel(course, 10);
    let c = course(s, EntryView::start(src, dest, node, s.unshove), world, 9);
    assert(c.events =~= seq![EventView::Visit { src, dest, back: s.unshove }, EventView::Kept { dest, ty }]);
}

/// Taking away undoes making. Where the destination holds a link of ours, a
/// run that takes links away asks for the link's removal whatever the rage,
/// reports it once it is done, and puts nothing in its place; where the
/// destination holds nothing, it leaves it at that.
#[verifier::rlimit(50)]
pub proof fn lemma_taken_away(s: Shover, src: Seq<char>, dest: Seq<char>, node: bool, world: World)
    requires
        s.unshove,
        !s.no,
    ensures
        ({
            let c = course(s, EntryView::start(src, dest, node, s.unshove), world, 9);
            &&& world(RequestView::Lstat(dest)) == ReplyView::Flag(false) ==> c.over && !c.changed
                && c.events == seq![EventView::Visit { src, dest, back: s.unshove }]
            &&& world(RequestView::Lstat(dest)) == ReplyView::Flag(true) && type_of(
                world,
                src,
                dest,
            ) == Ok::<Type, Seq<char>>(Type::Dotlink) && world(RequestView::RemoveFile(dest))
                == ReplyView::Done ==> c.over && c.asked.last() == RequestView::RemoveFile(dest)
                && c.events == seq![
                EventView::Visit { src, dest, back: s.unshove },
                EventView::Removed { dest, ty: Type::Dotlink, done: true },
            ]
        }),
{
    reveal_with_fuel(course, 10);
    let c = course(s, EntryView::start(src, dest, node, s.unshove), world, 9);
    if world(RequestView::Lstat(dest)) == ReplyView::Flag(false) {
        assert(c.events =~= seq![EventView::Visit { src, dest, back: s.unshove }]);
    }
    if world(RequestView::Lstat(dest)) == ReplyView::Flag(true) && type_of(world, src, dest)
        == Ok::<Type, Seq<char>>(Type::Dotlink) && world(RequestView::RemoveFile(dest))
        == ReplyView::Done {
        assert(c.events =~= seq![
            EventView::Visit { src, dest, back: s.unshove },
            EventView::Removed { dest, ty: Type::Dotlink, done: true },
        ]);
    }
}

} // verus!
