//! What stands at a destination, and what it takes to remove it.

use crate::sys::{Reply, ReplyView, Request, RequestView, World};
use crate::util::{absolute, is_absolute, parent, parent_of, rel_canon, resolved};
use crate::text::{decimal, digits};
use vstd::prelude::*;
use vstd::string::StringExecFns;

verus! {

/// The five kinds of node that a destination can be, each with the rage that
/// removing it takes.
#[derive(Clone, Copy, Debug, PartialEq, Eq, Structural)]
pub enum Type {
    /// A link that leads to the source, or to nothing at all.
    Dotlink,
    /// A directory without entries.
    EmptyDir,
    /// A regular file, or anything that is none of the others.
    File,
    /// A directory with at least one entry.
    NonemptyDir,
    /// A link that leads somewhere else.
    Symlink,
}

impl Type {
    /// The least rage at which a node of this type may be removed.
    pub open spec fn min_rage(self) -> usize {
        match self {
            Type::Dotlink => 0,
            Type::Symlink => 1,
            Type::EmptyDir => 2,
            Type::File => 2,
            Type::NonemptyDir => 3,
        }
    }

    /// The request that removes a node of this type at `path`.
    pub open spec fn removal(self, path: Seq<char>) -> RequestView {
        match self {
            Type::Dotlink => RequestView::RemoveFile(path),
            Type::Symlink => RequestView::RemoveFile(path),
            Type::File => RequestView::RemoveFile(path),
            Type::EmptyDir => RequestView::RemoveDir(path),
            Type::NonemptyDir => RequestView::RemoveDirAll(path),
        }
    }

    /// What the type is called in messages.
    pub open spec fn label(self) -> Seq<char> {
        match self {
            Type::Dotlink => "dotfile"@,
            Type::EmptyDir => "empty dir"@,
            Type::File => "file"@,
            Type::NonemptyDir => "non-empty dir"@,
            Type::Symlink => "symlink"@,
        }
    }

    pub fn rage(self) -> (r: usize)
        ensures
            r == self.min_rage(),
    {
        match self {
            Type::Dotlink => 0,
            Type::Symlink => 1,
            Type::EmptyDir => 2,
            Type::File => 2,
            Type::NonemptyDir => 3,
        }
    }

    pub fn name(self) -> (r: &'static str)
        ensures
            r@ == self.label(),
    {
        match self {
            Type::Dotlink => "dotfile",
            Type::EmptyDir => "empty dir",
            Type::File => "file",
            Type::NonemptyDir => "non-empty dir",
            Type::Symlink => "symlink",
        }
    }
}

/// A removal refused: the node's type, the rage at hand and the rage needed.
#[derive(Clone, Copy, Debug, PartialEq, Eq, Structural)]
pub struct RageErr {
    pub ty: Type,
    pub lvl: usize,
    pub min: usize,
}

impl RageErr {
    /// The refusal in words.
    pub open spec fn text(self) -> Seq<char> {
        "unable to remove "@ + self.ty.label() + ", rage level "@ + digits(self.lvl as nat)
            + " is less than minimum "@ + digits(self.min as nat)
    }

    pub fn new(ty: Type, lvl: usize, min: usize) -> (r: Self)
        ensures
            r == (RageErr { ty, lvl, min }),
    {
        RageErr { ty, lvl, min }
    }

    pub fn message(&self) -> (r: String)
        ensures
            r@ == self.text(),
    {
        let mut m = "unable to remove ".to_owned();
        m.append(self.ty.name());
        m.append(", rage level ");
        m.append(decimal(self.lvl).as_str());
        m.append(" is less than minimum ");
        m.append(decimal(self.min).as_str());
        m
    }
}

/// Why a destination could not be classified or removed.
#[derive(Debug, PartialEq, Eq)]
pub enum Error {
    /// The filesystem refused; the text is its message.
    Io(String),
    /// The rage at hand does not reach the node's minimum.
    Rage(RageErr),
}

pub enum ErrorView {
    Io(Seq<char>),
    Rage(RageErr),
}

impl View for Error {
    type V = ErrorView;

    open spec fn view(&self) -> ErrorView {
        match self {
            Error::Io(m) => ErrorView::Io(m@),
            Error::Rage(e) => ErrorView::Rage(*e),
        }
    }
}

impl ErrorView {
    /// The failure in words.
    pub open spec fn message(self) -> Seq<char> {
        match self {
            ErrorView::Io(m) => m,
            ErrorView::Rage(e) => e.text(),
        }
    }
}

impl Error {
    pub fn message(&self) -> (r: String)
        ensures
            r@ == self@.message(),
    {
        match self {
            Error::Io(m) => m.clone(),
            Error::Rage(e) => e.message(),
        }
    }
}

/// A classified destination.
#[derive(Debug, PartialEq, Eq)]
pub struct Ft {
    pub path: String,
    pub ty: Type,
}

pub struct FtView {
    pub path: Seq<char>,
    pub ty: Type,
}

impl View for Ft {
    type V = FtView;

    open spec fn view(&self) -> FtView {
        FtView { path: self.path@, ty: self.ty }
    }
}

impl FtView {
    /// The rage gate: at or above the type's minimum the removal that fits the
    /// type is due, below it the refusal, and nothing else.
    pub open spec fn rm(self, rage: usize) -> Result<RequestView, ErrorView> {
        if rage >= self.ty.min_rage() {
            Ok(self.ty.removal(self.path))
        } else {
            Err(ErrorView::Rage(RageErr { ty: self.ty, lvl: rage, min: self.ty.min_rage() }))
        }
    }
}

/// How far the look at a destination has come: each stage names the question
/// that is out.
#[derive(Debug, PartialEq, Eq)]
pub enum Stage {
    /// Is the destination a link?
    IsLink,
    /// What does the link read?
    Link,
    /// Where does the process work? (`link` is relative, and so is the destination.)
    Cwd { link: String },
    /// What is the working directory's canonical form?
    CwdCanon { link: String },
    /// What is the canonical form of the directory that holds the destination?
    Dir { link: String },
    /// Does the link lead anywhere?
    Target { target: String },
    /// Does it lead to the source?
    Same,
    /// Is the destination a directory?
    IsDir,
    /// How many entries does it hold?
    Count,
}

pub enum StageView {
    IsLink,
    Link,
    Cwd { link: Seq<char> },
    CwdCanon { link: Seq<char> },
    Dir { link: Seq<char> },
    Target { target: Seq<char> },
    Same,
    IsDir,
    Count,
}

impl View for Stage {
    type V = StageView;

    open spec fn view(&self) -> StageView {
        match self {
            Stage::IsLink => StageView::IsLink,
            Stage::Link => StageView::Link,
            Stage::Cwd { link } => StageView::Cwd { link: link@ },
            Stage::CwdCanon { link } => StageView::CwdCanon { link: link@ },
            Stage::Dir { link } => StageView::Dir { link: link@ },
            Stage::Target { target } => StageView::Target { target: target@ },
            Stage::Same => StageView::Same,
            Stage::IsDir => StageView::IsDir,
            Stage::Count => StageView::Count,
        }
    }
}

/// A look at the destination `dest` of the source `src`, under way.
#[derive(Debug, PartialEq, Eq)]
pub struct Probe {
    pub src: String,
    pub dest: String,
    pub stage: Stage,
}

pub struct ProbeView {
    pub src: Seq<char>,
    pub dest: Seq<char>,
    pub stage: StageView,
}

impl View for Probe {
    type V = ProbeView;

    open spec fn view(&self) -> ProbeView {
        ProbeView { src: self.src@, dest: self.dest@, stage: self.stage@ }
    }
}

/// What a look at a destination does next: one more question, or the verdict.
#[derive(Debug, PartialEq, Eq)]
pub enum Step {
    Ask(Probe, Request),
    Done(Result<Ft, Error>),
}

pub enum StepView {
    Ask(ProbeView, RequestView),
    Done(Result<FtView, ErrorView>),
}

impl View for Step {
    type V = StepView;

    open spec fn view(&self) -> StepView {
        match self {
            Step::Ask(p, q) => StepView::Ask(p@, q@),
            Step::Done(Ok(ft)) => StepView::Done(Ok(ft@)),
            Step::Done(Err(e)) => StepView::Done(Err(e@)),
        }
    }
}

/// The message for a destination that no directory holds.
pub open spec fn no_parent() -> Seq<char> {
    "destination has no parent directory"@
}

impl ProbeView {
    pub open spec fn at(self, stage: StageView) -> ProbeView {
        ProbeView { src: self.src, dest: self.dest, stage }
    }

    pub open spec fn verdict(self, ty: Type) -> StepView {
        StepView::Done(Ok(FtView { path: self.dest, ty }))
    }

    pub open spec fn failure(m: Seq<char>) -> StepView {
        StepView::Done(Err(ErrorView::Io(m)))
    }

    /// A relative link is read from the directory that holds the
    /// destination `place`: that directory's canonical form is asked for.
    pub open spec fn from_dir(self, link: Seq<char>, place: Seq<char>) -> StepView {
        match parent_of(place) {
            Some(dir) => StepView::Ask(
                self.at(StageView::Dir { link }),
                RequestView::Canonicalize(dir),
            ),
            None => Self::failure(no_parent()),
        }
    }

    /// The link's text is known: an absolute one names its target, a relative
    /// one needs the destination's directory, and that, where the destination
    /// is relative itself, the working directory first.
    pub open spec fn after_link(self, link: Seq<char>) -> StepView {
        if absolute(link) {
            StepView::Ask(self.at(StageView::Target { target: link }), RequestView::Exists(link))
        } else if absolute(self.dest) {
            self.from_dir(link, self.dest)
        } else {
            StepView::Ask(self.at(StageView::Cwd { link }), RequestView::CurrentDir)
        }
    }

    /// The look's first question.
    pub open spec fn start(src: Seq<char>, dest: Seq<char>) -> StepView {
        StepView::Ask(
            ProbeView { src, dest, stage: StageView::IsLink },
            RequestView::IsSymlink(dest),
        )
    }

    /// What follows from the answer to the question that is out.
    pub open spec fn step(self, reply: ReplyView) -> StepView {
        match self.stage {
            StageView::IsLink => match reply.flag() {
                Ok(true) => StepView::Ask(
                    self.at(StageView::Link),
                    RequestView::ReadLink(self.dest),
                ),
                Ok(false) => StepView::Ask(self.at(StageView::IsDir), RequestView::IsDir(self.dest)),
                Err(m) => Self::failure(m),
            },
            StageView::Link => match reply.path() {
                Ok(link) => self.after_link(link),
                Err(m) => Self::failure(m),
            },
            StageView::Cwd { link } => match reply.path() {
                Ok(cwd) => StepView::Ask(
                    self.at(StageView::CwdCanon { link }),
                    RequestView::Canonicalize(cwd),
                ),
                Err(m) => Self::failure(m),
            },
            StageView::CwdCanon { link } => match reply.path() {
                Ok(cwd) => self.from_dir(link, resolved(cwd, self.dest)),
                Err(m) => Self::failure(m),
            },
            StageView::Dir { link } => match reply.path() {
                Ok(dir) => StepView::Ask(
                    self.at(StageView::Target { target: resolved(dir, link) }),
                    RequestView::Exists(resolved(dir, link)),
                ),
                Err(m) => Self::failure(m),
            },
            StageView::Target { target } => match reply.flag() {
                Ok(true) => StepView::Ask(
                    self.at(StageView::Same),
                    RequestView::SameFile(target, self.src),
                ),
                Ok(false) => self.verdict(Type::Dotlink),
                Err(m) => Self::failure(m),
            },
            StageView::Same => match reply.flag() {
                Ok(true) => self.verdict(Type::Dotlink),
                Ok(false) => self.verdict(Type::Symlink),
                Err(m) => Self::failure(m),
            },
            StageView::IsDir => match reply.flag() {
                Ok(true) => StepView::Ask(
                    self.at(StageView::Count),
                    RequestView::CountEntries(self.dest),
                ),
                Ok(false) => self.verdict(Type::File),
                Err(m) => Self::failure(m),
            },
            StageView::Count => match reply.count() {
                Ok(n) => if n == 0 {
                    self.verdict(Type::EmptyDir)
                } else {
                    self.verdict(Type::NonemptyDir)
                },
                Err(m) => Self::failure(m),
            },
        }
    }
}

impl Probe {
    fn at(self, stage: Stage) -> (r: Probe)
        ensures
            r@ == self@.at(stage@),
    {
        Probe { src: self.src, dest: self.dest, stage }
    }

    fn verdict(self, ty: Type) -> (r: Step)
        ensures
            r@ == self@.verdict(ty),
    {
        Step::Done(Ok(Ft { path: self.dest, ty }))
    }

    fn failure(m: String) -> (r: Step)
        ensures
            r@ == ProbeView::failure(m@),
    {
        Step::Done(Err(Error::Io(m)))
    }

    fn from_dir(self, link: String, place: &str) -> (r: Step)
        ensures
            r@ == self@.from_dir(link@, place@),
    {
        match parent(place) {
            Some(dir) => Step::Ask(self.at(Stage::Dir { link }), Request::Canonicalize(dir)),
            None => Self::failure("destination has no parent directory".to_owned()),
        }
    }

    fn after_link(self, link: String) -> (r: Step)
        ensures
            r@ == self@.after_link(link@),
    {
        if is_absolute(link.as_str()) {
            let target = link.clone();
            Step::Ask(self.at(Stage::Target { target }), Request::Exists(link))
        } else if is_absolute(self.dest.as_str()) {
            let place = self.dest.clone();
            self.from_dir(link, place.as_str())
        } else {
            Step::Ask(self.at(Stage::Cwd { link }), Request::CurrentDir)
        }
    }

    /// Takes the answer to the question that is out and says what comes next.
    pub fn step(self, reply: Reply) -> (r: Step)
        ensures
            r@ == self@.step(reply@),
    {
        match self.stage {
            Stage::IsLink => match reply.flag() {
                Ok(true) => {
                    let dest = self.dest.clone();
                    Step::Ask(
                        Probe { src: self.src, dest: self.dest, stage: Stage::Link },
                        Request::ReadLink(dest),
                    )
                },
                Ok(false) => {
                    let dest = self.dest.clone();
                    Step::Ask(
                        Probe { src: self.src, dest: self.dest, stage: Stage::IsDir },
                        Request::IsDir(dest),
                    )
                },
                Err(m) => Self::failure(m),
            },
            Stage::Link => match reply.path() {
                Ok(link) => Probe { src: self.src, dest: self.dest, stage: Stage::Link }.after_link(
                    link,
                ),
                Err(m) => Self::failure(m),
            },
            Stage::Cwd { link } => match reply.path() {
                Ok(cwd) => Step::Ask(
                    Probe { src: self.src, dest: self.dest, stage: Stage::CwdCanon { link } },
                    Request::Canonicalize(cwd),
                ),
                Err(m) => Self::failure(m),
            },
            Stage::CwdCanon { link } => match reply.path() {
                Ok(cwd) => {
                    let place = rel_canon(cwd.as_str(), self.dest.as_str());
                    Probe { src: self.src, dest: self.dest, stage: Stage::Link }.from_dir(
                        link,
                        place.as_str(),
                    )
                },
                Err(m) => Self::failure(m),
            },
            Stage::Dir { link } => match reply.path() {
                Ok(dir) => {
                    let target = rel_canon(dir.as_str(), link.as_str());
                    let asked = target.clone();
                    Step::Ask(
                        Probe { src: self.src, dest: self.dest, stage: Stage::Target { target } },
                        Request::Exists(asked),
                    )
                },
                Err(m) => Self::failure(m),
            },
            Stage::Target { target } => match reply.flag() {
                Ok(true) => {
                    let src = self.src.clone();
                    Step::Ask(
                        Probe { src: self.src, dest: self.dest, stage: Stage::Same },
                        Request::SameFile(target, src),
                    )
                },
                Ok(false) => Step::Done(Ok(Ft { path: self.dest, ty: Type::Dotlink })),
                Err(m) => Self::failure(m),
            },
            Stage::Same => match reply.flag() {
                Ok(true) => Step::Done(Ok(Ft { path: self.dest, ty: Type::Dotlink })),
                Ok(false) => Step::Done(Ok(Ft { path: self.dest, ty: Type::Symlink })),
                Err(m) => Self::failure(m),
            },
            Stage::IsDir => match reply.flag() {
                Ok(true) => {
                    let dest = self.dest.clone();
                    Step::Ask(
                        Probe { src: self.src, dest: self.dest, stage: Stage::Count },
                        Request::CountEntries(dest),
                    )
                },
                Ok(false) => Step::Done(Ok(Ft { path: self.dest, ty: Type::File })),
                Err(m) => Self::failure(m),
            },
            Stage::Count => match reply.count() {
                Ok(n) => if n == 0 {
                    Step::Done(Ok(Ft { path: self.dest, ty: Type::EmptyDir }))
                } else {
                    Step::Done(Ok(Ft { path: self.dest, ty: Type::NonemptyDir }))
                },
                Err(m) => Self::failure(m),
            },
        }
    }
}

impl Ft {
    /// Begins the look at `dest`, the place where `src` is to be linked. The
    /// destination is inspected as it stands, a link at its end not followed.
    pub fn new(src: &str, dest: &str) -> (r: Step)
        ensures
            r@ == ProbeView::start(src@, dest@),
    {
        Step::Ask(
            Probe { src: src.to_owned(), dest: dest.to_owned(), stage: Stage::IsLink },
            Request::IsSymlink(dest.to_owned()),
        )
    }

    /// `Ok` where the rage `lvl` reaches `min`, else the refusal that names
    /// this node's type and both levels.
    pub fn check_rage(&self, lvl: usize, min: usize) -> (r: Result<(), RageErr>)
        ensures
            lvl >= min ==> r == Ok::<(), RageErr>(()),
            lvl < min ==> r == Err::<(), RageErr>(RageErr { ty: self.ty, lvl, min }),
    {
        if lvl >= min {
            Ok(())
        } else {
            Err(RageErr::new(self.ty, lvl, min))
        }
    }

    /// The rage gate. It hands out the request that removes this node, if and
    /// only if `rage` reaches the minimum of the node's type; below that it
    /// refuses, and no request exists that could be performed.
    pub fn rm(&self, rage: usize) -> (r: Result<Request, Error>)
        ensures
            match r {
                Ok(q) => self@.rm(rage) == Ok::<RequestView, ErrorView>(q@),
                Err(e) => self@.rm(rage) == Err::<RequestView, ErrorView>(e@),
            },
    {
        match self.check_rage(rage, self.ty.rage()) {
            Err(e) => Err(Error::Rage(e)),
            Ok(()) => {
                let path = self.path.clone();
                Ok(
                    match self.ty {
                        Type::Dotlink => Request::RemoveFile(path),
                        Type::Symlink => Request::RemoveFile(path),
                        Type::File => Request::RemoveFile(path),
                        Type::EmptyDir => Request::RemoveDir(path),
                        Type::NonemptyDir => Request::RemoveDirAll(path),
                    },
                )
            },
        }
    }
}

/// Where a look ends when `world` answers its questions, if it ends within
/// `fuel` answers.
pub open spec fn run(step: StepView, world: World, fuel: nat) -> Option<Result<FtView, ErrorView>>
    decreases fuel,
{
    match step {
        StepView::Done(r) => Some(r),
        StepView::Ask(p, q) => if fuel == 0 {
            None
        } else {
            run(p.step(world(q)), world, (fuel - 1) as nat)
        },
    }
}

/// The directory that holds `dest`, in canonical form, as `world` has it. A
/// relative `dest` is first followed from the canonical working directory.
pub open spec fn home(world: World, dest: Seq<char>) -> Result<Seq<char>, Seq<char>> {
    let place = if absolute(dest) {
        Ok(dest)
    } else {
        match world(RequestView::CurrentDir).path() {
            Ok(cwd) => match world(RequestView::Canonicalize(cwd)).path() {
                Ok(c) => Ok(resolved(c, dest)),
                Err(m) => Err(m),
            },
            Err(m) => Err(m),
        }
    };
    match place {
        Ok(p) => match parent_of(p) {
            Some(dir) => world(RequestView::Canonicalize(dir)).path(),
            None => Err(no_parent()),
        },
        Err(m) => Err(m),
    }
}

/// Where the link at `dest` that reads `link` leads: an absolute text names
/// the place, a relative one is followed from the directory that holds the
/// link.
pub open spec fn target(world: World, dest: Seq<char>, link: Seq<char>) -> Result<
    Seq<char>,
    Seq<char>,
> {
    if absolute(link) {
        Ok(link)
    } else {
        match home(world, dest) {
            Ok(dir) => Ok(resolved(dir, link)),
            Err(m) => Err(m),
        }
    }
}

/// The type of the link at `dest`: ours where it leads nowhere or to the
/// very file that `src` is, a stranger's where it leads elsewhere.
pub open spec fn link_type(world: World, src: Seq<char>, dest: Seq<char>) -> Result<
    Type,
    Seq<char>,
> {
    match world(RequestView::ReadLink(dest)).path() {
        Ok(link) => match target(world, dest, link) {
            Ok(t) => match world(RequestView::Exists(t)).flag() {
                Ok(false) => Ok(Type::Dotlink),
                Ok(true) => match world(RequestView::SameFile(t, src)).flag() {
                    Ok(true) => Ok(Type::Dotlink),
                    Ok(false) => Ok(Type::Symlink),
                    Err(m) => Err(m),
                },
                Err(m) => Err(m),
            },
            Err(m) => Err(m),
        },
        Err(m) => Err(m),
    }
}

/// The type of what stands at `dest`, stated at once: a link is told apart by
/// where it leads, a directory by whether it holds anything, and all else is
/// a file. The destination itself is never followed. Exactly one type comes
/// out, or the first failure met on the way.
pub open spec fn type_of(world: World, src: Seq<char>, dest: Seq<char>) -> Result<Type, Seq<char>> {
    match world(RequestView::IsSymlink(dest)).flag() {
        Ok(true) => link_type(world, src, dest),
        Ok(false) => match world(RequestView::IsDir(dest)).flag() {
            Ok(true) => match world(RequestView::CountEntries(dest)).count() {
                Ok(n) => if n == 0 {
                    Ok(Type::EmptyDir)
                } else {
                    Ok(Type::NonemptyDir)
                },
                Err(m) => Err(m),
            },
            Ok(false) => Ok(Type::File),
            Err(m) => Err(m),
        },
        Err(m) => Err(m),
    }
}

/// `type_of` as a look's result.
pub open spec fn verdict(world: World, src: Seq<char>, dest: Seq<char>) -> Result<
    FtView,
    ErrorView,
> {
    match type_of(world, src, dest) {
        Ok(ty) => Ok(FtView { path: dest, ty }),
        Err(m) => Err(ErrorView::Io(m)),
    }
}

/// A look that has ended within some number of answers has ended within
/// more, and the same way.
pub proof fn lemma_run_more(step: StepView, world: World, fuel: nat)
    ensures
        run(step, world, fuel) is Some ==> run(step, world, fuel + 1) == run(step, world, fuel),
    decreases fuel,
{
    match step {
        StepView::Done(r) => {},
        StepView::Ask(p, q) => {
            if fuel > 0 {
                lemma_run_more(p.step(world(q)), world, (fuel - 1) as nat);
            }
        },
    }
}

/// Every look ends within seven answers, with what `verdict` says.
pub proof fn lemma_verdict(world: World, src: Seq<char>, dest: Seq<char>)
    ensures
        run(ProbeView::start(src, dest), world, 7) == Some(verdict(world, src, dest)),
{
    reveal_with_fuel(run, 8);
}

/// A look only asks: none of its questions changes anything on disk.
pub proof fn lemma_look_is_harmless(p: ProbeView, reply: ReplyView)
    ensures
        p.step(reply) matches StepView::Ask(_, q) ==> !q.mutates(),
        ProbeView::start(p.src, p.dest) matches StepView::Ask(_, q) && !q.mutates(),
{
}

/// Removal gives way to rage and to nothing else. It is granted exactly from
/// the node's minimum upwards, so more rage never takes it back, and the
/// request that is handed out does not depend on how far the minimum is
/// exceeded. Short of the minimum the refusal carries the node's type and both
/// levels.
pub proof fn lemma_gate_monotone(ft: FtView, rage: usize, more: usize)
    requires
        rage <= more,
    ensures
        ft.rm(ft.ty.min_rage()) is Ok,
        rage >= ft.ty.min_rage() <==> ft.rm(rage) is Ok,
        rage < ft.ty.min_rage() ==> ft.rm(rage) == Err::<RequestView, ErrorView>(
            ErrorView::Rage(RageErr { ty: ft.ty, lvl: rage, min: ft.ty.min_rage() }),
        ),
        ft.rm(rage) is Ok ==> ft.rm(more) == ft.rm(rage),
{
}

} // verus!
