//! Dots: named bindings of a source tree to a destination, and how one is
//! resolved before any of it is linked.

pub mod dots;
pub mod sh;

pub use self::dots::{Dots, Info, Iter};
pub use self::sh::{Error as ShErr, ErrorView as ShErrView, Sh, ShView};
use crate::sys::{Reply, ReplyView, Request, RequestView, World};
use vstd::prelude::*;
use vstd::string::StringExecFns;

verus! {

/// A dot found fit for use.
#[derive(Debug, PartialEq, Eq)]
pub struct Dot {
    pub dest: Sh,
    pub name: String,
    pub src: String,
}

pub struct DotView {
    pub dest: ShView,
    pub name: Seq<char>,
    pub src: Seq<char>,
}

impl View for Dot {
    type V = DotView;

    open spec fn view(&self) -> DotView {
        DotView { dest: self.dest@, name: self.name@, src: self.src@ }
    }
}

/// Why a dot was turned down.
#[derive(Debug, PartialEq, Eq)]
pub enum ErrKind {
    /// The filesystem refused a question; the text is its message.
    IoErr(String),
    /// Nothing exists at the source.
    NonexistentSrc(String),
    /// The destination is the source itself.
    SameFile(String),
    /// The destination's pattern could not be expanded.
    ShErr(ShErr),
}

pub enum ErrKindView {
    IoErr(Seq<char>),
    NonexistentSrc(Seq<char>),
    SameFile(Seq<char>),
    ShErr(ShErrView),
}

impl View for ErrKind {
    type V = ErrKindView;

    open spec fn view(&self) -> ErrKindView {
        match self {
            ErrKind::IoErr(m) => ErrKindView::IoErr(m@),
            ErrKind::NonexistentSrc(p) => ErrKindView::NonexistentSrc(p@),
            ErrKind::SameFile(p) => ErrKindView::SameFile(p@),
            ErrKind::ShErr(e) => ErrKindView::ShErr(e@),
        }
    }
}

impl ErrKindView {
    pub open spec fn message(self) -> Seq<char> {
        match self {
            ErrKindView::IoErr(m) => m,
            ErrKindView::NonexistentSrc(p) => "nonexistent source file \""@ + p + "\""@,
            ErrKindView::SameFile(p) => "source and destination paths refers to same file \""@ + p
                + "\""@,
            ErrKindView::ShErr(e) => e.message(),
        }
    }
}

/// A dot turned down: which one, and why.
#[derive(Debug, PartialEq, Eq)]
pub struct Error {
    pub kind: ErrKind,
    pub name: String,
}

pub struct ErrorView {
    pub kind: ErrKindView,
    pub name: Seq<char>,
}

impl View for Error {
    type V = ErrorView;

    open spec fn view(&self) -> ErrorView {
        ErrorView { kind: self.kind@, name: self.name@ }
    }
}

impl ErrorView {
    pub open spec fn io(name: Seq<char>, m: Seq<char>) -> ErrorView {
        ErrorView { kind: ErrKindView::IoErr(m), name }
    }

    pub open spec fn nonex(name: Seq<char>, p: Seq<char>) -> ErrorView {
        ErrorView { kind: ErrKindView::NonexistentSrc(p), name }
    }

    pub open spec fn same(name: Seq<char>, p: Seq<char>) -> ErrorView {
        ErrorView { kind: ErrKindView::SameFile(p), name }
    }

    pub open spec fn sh(name: Seq<char>, e: ShErrView) -> ErrorView {
        ErrorView { kind: ErrKindView::ShErr(e), name }
    }

    /// The refusal in words.
    pub open spec fn message(self) -> Seq<char> {
        "in dot \""@ + self.name + "\": "@ + self.kind.message()
    }
}

impl Error {
    pub fn io(name: &str, err: String) -> (r: Error)
        ensures
            r@ == ErrorView::io(name@, err@),
    {
        Error { kind: ErrKind::IoErr(err), name: name.to_owned() }
    }

    pub fn nonex(name: &str, p: &str) -> (r: Error)
        ensures
            r@ == ErrorView::nonex(name@, p@),
    {
        Error { kind: ErrKind::NonexistentSrc(p.to_owned()), name: name.to_owned() }
    }

    pub fn same(name: &str, p: &str) -> (r: Error)
        ensures
            r@ == ErrorView::same(name@, p@),
    {
        Error { kind: ErrKind::SameFile(p.to_owned()), name: name.to_owned() }
    }

    pub fn sh(name: &str, err: ShErr) -> (r: Error)
        ensures
            r@ == ErrorView::sh(name@, err@),
    {
        Error { kind: ErrKind::ShErr(err), name: name.to_owned() }
    }

    pub fn message(&self) -> (r: String)
        ensures
            r@ == self@.message(),
    {
        let mut m = "in dot \"".to_owned();
        m.append(self.name.as_str());
        m.append("\": ");
        match &self.kind {
            ErrKind::IoErr(err) => {
                m.append(err.as_str());
            },
            ErrKind::NonexistentSrc(p) => {
                m.append("nonexistent source file \"");
                m.append(p.as_str());
                m.append("\"");
                assert(m@ =~= self@.message());
            },
            ErrKind::SameFile(p) => {
                m.append("source and destination paths refers to same file \"");
                m.append(p.as_str());
                m.append("\"");
                assert(m@ =~= self@.message());
            },
            ErrKind::ShErr(e) => {
                let text = e.message();
                m.append(text.as_str());
            },
        }
        m
    }
}

/// How far the resolution of a dot has come: each stage names the question
/// that is out.
#[derive(Debug, PartialEq, Eq)]
pub enum Stage {
    /// Does the source exist?
    Src,
    /// What does the destination's pattern expand to?
    Expand,
    /// Does the destination exist?
    Dest { dest: Sh },
    /// Is the destination the source itself?
    Same { dest: Sh },
}

pub enum StageView {
    Src,
    Expand,
    Dest { dest: ShView },
    Same { dest: ShView },
}

impl View for Stage {
    type V = StageView;

    open spec fn view(&self) -> StageView {
        match self {
            Stage::Src => StageView::Src,
            Stage::Expand => StageView::Expand,
            Stage::Dest { dest } => StageView::Dest { dest: dest@ },
            Stage::Same { dest } => StageView::Same { dest: dest@ },
        }
    }
}

/// The resolution of one dot, under way.
#[derive(Debug, PartialEq, Eq)]
pub struct Resolve {
    pub name: String,
    pub src: String,
    pub pattern: String,
    pub stage: Stage,
}

pub struct ResolveView {
    pub name: Seq<char>,
    pub src: Seq<char>,
    pub pattern: Seq<char>,
    pub stage: StageView,
}

impl View for Resolve {
    type V = ResolveView;

    open spec fn view(&self) -> ResolveView {
        ResolveView { name: self.name@, src: self.src@, pattern: self.pattern@, stage: self.stage@ }
    }
}

/// What a resolution does next: one more question, or the result.
#[derive(Debug, PartialEq, Eq)]
pub enum Step {
    Ask(Resolve, Request),
    Done(Result<Dot, Error>),
}

pub enum StepView {
    Ask(ResolveView, RequestView),
    Done(Result<DotView, ErrorView>),
}

impl View for Step {
    type V = StepView;

    open spec fn view(&self) -> StepView {
        match self {
            Step::Ask(r, q) => StepView::Ask(r@, q@),
            Step::Done(Ok(d)) => StepView::Done(Ok(d@)),
            Step::Done(Err(e)) => StepView::Done(Err(e@)),
        }
    }
}

impl ResolveView {
    pub open spec fn at(self, stage: StageView) -> ResolveView {
        ResolveView { name: self.name, src: self.src, pattern: self.pattern, stage }
    }

    pub open spec fn accept(self, dest: ShView) -> StepView {
        StepView::Done(Ok(DotView { dest, name: self.name, src: self.src }))
    }

    pub open spec fn refuse(e: ErrorView) -> StepView {
        StepView::Done(Err(e))
    }

    /// The resolution of the dot `name`, whose tree lies at `src` and goes to
    /// the pattern `dest`, before its first answer.
    pub open spec fn fresh(name: Seq<char>, src: Seq<char>, dest: Seq<char>) -> ResolveView {
        ResolveView { name, src, pattern: dest, stage: StageView::Src }
    }

    /// The first question of a resolution: does the source exist?
    pub open spec fn start(name: Seq<char>, src: Seq<char>, dest: Seq<char>) -> StepView {
        StepView::Ask(Self::fresh(name, src, dest), RequestView::Exists(src))
    }

    /// What follows from the answer to the question that is out. A source
    /// that does not exist ends it before the pattern is expanded; a failed
    /// expansion ends it before the destination is looked at; a destination
    /// that exists is compared with the source, and one that is the source is
    /// refused.
    pub open spec fn step(self, reply: ReplyView) -> StepView {
        match self.stage {
            StageView::Src => match reply.flag() {
                Ok(true) => StepView::Ask(
                    self.at(StageView::Expand),
                    RequestView::Expand(self.pattern),
                ),
                Ok(false) => Self::refuse(ErrorView::nonex(self.name, self.src)),
                Err(m) => Self::refuse(ErrorView::io(self.name, m)),
            },
            StageView::Expand => match reply.expansion() {
                Ok(Ok(sh)) => StepView::Ask(
                    self.at(StageView::Dest { dest: sh }),
                    RequestView::Exists(sh.path()),
                ),
                Ok(Err(e)) => Self::refuse(ErrorView::sh(self.name, e)),
                Err(m) => Self::refuse(ErrorView::io(self.name, m)),
            },
            StageView::Dest { dest } => match reply.flag() {
                Ok(true) => StepView::Ask(
                    self.at(StageView::Same { dest }),
                    RequestView::SameFile(dest.path(), self.src),
                ),
                Ok(false) => self.accept(dest),
                Err(m) => Self::refuse(ErrorView::io(self.name, m)),
            },
            StageView::Same { dest } => match reply.flag() {
                Ok(true) => Self::refuse(ErrorView::same(self.name, dest.path())),
                Ok(false) => self.accept(dest),
                Err(m) => Self::refuse(ErrorView::io(self.name, m)),
            },
        }
    }
}

/// Where a resolution ends when `world` answers its questions, if it ends
/// within `fuel` answers.
pub open spec fn run(step: StepView, world: World, fuel: nat) -> Option<
    Result<DotView, ErrorView>,
>
    decreases fuel,
{
    match step {
        StepView::Done(r) => Some(r),
        StepView::Ask(st, q) => if fuel == 0 {
            None
        } else {
            run(st.step(world(q)), world, (fuel - 1) as nat)
        },
    }
}

impl Resolve {
    /// Takes the answer to the question that is out and says what comes next.
    pub fn step(self, reply: Reply) -> (r: Step)
        ensures
            r@ == self@.step(reply@),
    {
        let name = self.name;
        let src = self.src;
        let pattern = self.pattern;
        match self.stage {
            Stage::Src => match reply.flag() {
                Ok(true) => {
                    let asked = pattern.clone();
                    Step::Ask(
                        Resolve { name, src, pattern, stage: Stage::Expand },
                        Request::Expand(asked),
                    )
                },
                Ok(false) => Step::Done(Err(Error::nonex(name.as_str(), src.as_str()))),
                Err(m) => Step::Done(Err(Error::io(name.as_str(), m))),
            },
            Stage::Expand => match reply.expansion() {
                Ok(Ok(sh)) => {
                    let asked = sh.path().to_owned();
                    Step::Ask(
                        Resolve { name, src, pattern, stage: Stage::Dest { dest: sh } },
                        Request::Exists(asked),
                    )
                },
                Ok(Err(e)) => Step::Done(Err(Error::sh(name.as_str(), e))),
                Err(m) => Step::Done(Err(Error::io(name.as_str(), m))),
            },
            Stage::Dest { dest } => match reply.flag() {
                Ok(true) => {
                    let asked = dest.path().to_owned();
                    let other = src.clone();
                    Step::Ask(
                        Resolve { name, src, pattern, stage: Stage::Same { dest } },
                        Request::SameFile(asked, other),
                    )
                },
                Ok(false) => Step::Done(Ok(Dot { dest, name, src })),
                Err(m) => Step::Done(Err(Error::io(name.as_str(), m))),
            },
            Stage::Same { dest } => match reply.flag() {
                Ok(true) => Step::Done(Err(Error::same(name.as_str(), dest.path()))),
                Ok(false) => Step::Done(Ok(Dot { dest, name, src })),
                Err(m) => Step::Done(Err(Error::io(name.as_str(), m))),
            },
        }
    }
}

impl Dot {
    /// Begins to resolve the dot `name`, whose tree lies at `src` and goes to
    /// the pattern `dest`.
    pub fn new(name: &str, src: &str, dest: &str) -> (r: Step)
        ensures
            r@ == ResolveView::start(name@, src@, dest@),
    {
        Step::Ask(
            Resolve {
                name: name.to_owned(),
                src: src.to_owned(),
                pattern: dest.to_owned(),
                stage: Stage::Src,
            },
            Request::Exists(src.to_owned()),
        )
    }
}

/// What a resolution comes to, stated at once: the first of these that
/// applies. The source cannot be asked about, or does not exist; the pattern
/// does not expand; the destination cannot be asked about; it does not exist
/// (the dot is fit); the comparison fails; the two are one file; the dot is fit.
pub open spec fn resolution(
    name: Seq<char>,
    src: Seq<char>,
    dest: Seq<char>,
    world: World,
) -> Result<DotView, ErrorView> {
    match world(RequestView::Exists(src)).flag() {
        Err(m) => Err(ErrorView::io(name, m)),
        Ok(false) => Err(ErrorView::nonex(name, src)),
        Ok(true) => match world(RequestView::Expand(dest)).expansion() {
            Err(m) => Err(ErrorView::io(name, m)),
            Ok(Err(e)) => Err(ErrorView::sh(name, e)),
            Ok(Ok(sh)) => match world(RequestView::Exists(sh.path())).flag() {
                Err(m) => Err(ErrorView::io(name, m)),
                Ok(false) => Ok(DotView { dest: sh, name, src }),
                Ok(true) => match world(RequestView::SameFile(sh.path(), src)).flag() {
                    Err(m) => Err(ErrorView::io(name, m)),
                    Ok(true) => Err(ErrorView::same(name, sh.path())),
                    Ok(false) => Ok(DotView { dest: sh, name, src }),
                },
            },
        },
    }
}

/// Every resolution ends within four answers, with what `resolution` says.
pub proof fn lemma_resolution(name: Seq<char>, src: Seq<char>, dest: Seq<char>, world: World)
    ensures
        run(ResolveView::start(name, src, dest), world, 4) == Some(
            resolution(name, src, dest, world),
        ),
{
    reveal_with_fuel(run, 5);
}

/// No dot manages its own source: where the source exists and the
/// destination, once expanded, exists and is the very file that the source
/// is, the resolution ends with the refusal `SameFile`; no dot comes of it.
pub proof fn lemma_source_is_not_destination(
    name: Seq<char>,
    src: Seq<char>,
    dest: Seq<char>,
    sh: ShView,
    world: World,
)
    requires
        world(RequestView::Exists(src)) == ReplyView::Flag(true),
        world(RequestView::Expand(dest)) == ReplyView::Expanded(Ok(sh)),
        world(RequestView::Exists(sh.path())) == ReplyView::Flag(true),
        world(RequestView::SameFile(sh.path(), src)) == ReplyView::Flag(true),
    ensures
        run(ResolveView::start(name, src, dest), world, 4) == Some(
            Err::<DotView, ErrorView>(ErrorView::same(name, sh.path())),
        ),
{
    lemma_resolution(name, src, dest, world);
}

} // verus!
