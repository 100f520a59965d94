//! What a run reports, and how loud each report is.

use crate::cli::ColorWhen;
use crate::dot::{Error as DotError, ErrorView as DotErrorView};
use crate::ft::{Error as FtError, ErrorView as FtErrorView, Type};
use vstd::prelude::*;
use vstd::string::StringExecFns;

verus! {

/// How loud a report is, the loudest first.
#[derive(Clone, Copy, Debug, PartialEq, Eq, Structural)]
pub enum Level {
    Error,
    Warn,
    Info,
    Debug,
    Trace,
}

impl Level {
    /// The level's place in the order, `Error` at 0.
    pub open spec fn rank(self) -> nat {
        match self {
            Level::Error => 0,
            Level::Warn => 1,
            Level::Info => 2,
            Level::Debug => 3,
            Level::Trace => 4,
        }
    }

    /// The word printed in front of a report of this level.
    pub open spec fn word(self) -> Seq<char> {
        match self {
            Level::Error => "ERROR"@,
            Level::Warn => "WARN"@,
            Level::Info => "INFO"@,
            Level::Debug => "DEBUG"@,
            Level::Trace => "TRACE"@,
        }
    }

    /// The colour of that word, as a number of the 256-colour palette.
    pub open spec fn hue(self) -> u8 {
        match self {
            Level::Error => 1,
            Level::Warn => 3,
            Level::Info => 2,
            Level::Debug => 11,
            Level::Trace => 13,
        }
    }

    /// The quietest level that the verbosity `verbose` lets through.
    pub open spec fn most(verbose: usize) -> Level {
        if verbose == 0 {
            Level::Error
        } else if verbose == 1 {
            Level::Warn
        } else if verbose == 2 {
            Level::Info
        } else if verbose == 3 {
            Level::Debug
        } else {
            Level::Trace
        }
    }

    pub fn index(self) -> (r: u8)
        ensures
            r == self.rank(),
    {
        match self {
            Level::Error => 0,
            Level::Warn => 1,
            Level::Info => 2,
            Level::Debug => 3,
            Level::Trace => 4,
        }
    }

    pub fn label(self) -> (r: &'static str)
        ensures
            r@ == self.word(),
    {
        match self {
            Level::Error => "ERROR",
            Level::Warn => "WARN",
            Level::Info => "INFO",
            Level::Debug => "DEBUG",
            Level::Trace => "TRACE",
        }
    }

    pub fn color(self) -> (r: u8)
        ensures
            r == self.hue(),
    {
        match self {
            Level::Error => 1,
            Level::Warn => 3,
            Level::Info => 2,
            Level::Debug => 11,
            Level::Trace => 13,
        }
    }
}

/// Whether a stream gets colour.
#[derive(Clone, Copy, Debug, PartialEq, Eq, Structural)]
pub enum ColorChoice {
    /// Always, by escape sequences.
    AlwaysAnsi,
    /// Where the terminal can show it.
    Auto,
    Never,
}

impl ColorChoice {
    /// The choice for a stream: forced on, forced off, or left to the
    /// terminal where the stream is one and off where it is not.
    pub open spec fn chosen(when: ColorWhen, tty: bool) -> ColorChoice {
        match when {
            ColorWhen::Always => ColorChoice::AlwaysAnsi,
            ColorWhen::Never => ColorChoice::Never,
            ColorWhen::Auto => if tty {
                ColorChoice::Auto
            } else {
                ColorChoice::Never
            },
        }
    }

    pub fn choose_for(when: ColorWhen, tty: bool) -> (r: ColorChoice)
        ensures
            r == Self::chosen(when, tty),
    {
        match when {
            ColorWhen::Always => ColorChoice::AlwaysAnsi,
            ColorWhen::Never => ColorChoice::Never,
            ColorWhen::Auto => if tty {
                ColorChoice::Auto
            } else {
                ColorChoice::Never
            },
        }
    }
}

/// Where a report goes, and what follows it.
#[derive(Clone, Copy, Debug, PartialEq, Eq, Structural)]
pub struct Line {
    /// To the error stream, else to the output stream.
    pub stderr: bool,
    pub choice: ColorChoice,
    pub level: Level,
    /// The process ends once the report is out.
    pub fatal: bool,
}

/// The settings of the logger.
#[derive(Clone, Copy, Debug, PartialEq, Eq, Structural)]
pub struct Logger {
    pub berserker: bool,
    pub stderr_choice: ColorChoice,
    pub stdout_choice: ColorChoice,
    pub max: Level,
}

impl Logger {
    /// A report is let through if it is at least as loud as the quietest
    /// level allowed.
    pub open spec fn lets(self, level: Level) -> bool {
        level.rank() <= self.max.rank()
    }

    /// How a report of the level `level` is put out, if it is: errors go to
    /// the error stream and end the process unless it is a berserker's, all
    /// else goes to the output stream.
    pub open spec fn line(self, level: Level) -> Option<Line> {
        if !self.lets(level) {
            None
        } else if level == Level::Error {
            Some(Line { stderr: true, choice: self.stderr_choice, level, fatal: !self.berserker })
        } else {
            Some(Line { stderr: false, choice: self.stdout_choice, level, fatal: false })
        }
    }

    pub fn enabled(&self, level: Level) -> (r: bool)
        ensures
            r == self.lets(level),
    {
        level.index() <= self.max.index()
    }

    pub fn log(&self, level: Level) -> (r: Option<Line>)
        ensures
            r == self.line(level),
    {
        if !self.enabled(level) {
            None
        } else {
            match level {
                Level::Error => Some(
                    Line { stderr: true, choice: self.stderr_choice, level, fatal: !self.berserker },
                ),
                _ => Some(Line { stderr: false, choice: self.stdout_choice, level, fatal: false }),
            }
        }
    }
}

/// The logger for a run: the verbosity sets the quietest level let through,
/// from errors only at 0 to everything at 4 and above, and each stream gets
/// its colour by `when` and by whether it is a terminal.
pub fn init(verbose: usize, berserker: bool, color: ColorWhen, stderr_tty: bool, stdout_tty: bool) -> (r:
    Logger)
    ensures
        r == (Logger {
            berserker,
            stderr_choice: ColorChoice::chosen(color, stderr_tty),
            stdout_choice: ColorChoice::chosen(color, stdout_tty),
            max: Level::most(verbose),
        }),
{
    let max = if verbose == 0 {
        Level::Error
    } else if verbose == 1 {
        Level::Warn
    } else if verbose == 2 {
        Level::Info
    } else if verbose == 3 {
        Level::Debug
    } else {
        Level::Trace
    };
    Logger {
        berserker,
        stderr_choice: ColorChoice::choose_for(color, stderr_tty),
        stdout_choice: ColorChoice::choose_for(color, stdout_tty),
        max,
    }
}

/// Why an entry, a walk or a destination root was given up.
#[derive(Debug, PartialEq, Eq)]
pub enum Failure {
    /// The walk of the source failed.
    Walk(String),
    /// The walk gave an entry whose path does not hold its depth.
    Entry,
    /// The destination could not be inspected.
    Stat(String),
    /// The destination could not be classified.
    Look(FtError),
    /// The destination could not be removed, or may not be.
    Remove(FtError),
    /// The source has no canonical form.
    Source(String),
    /// The destination lies in no directory.
    NoParent,
    /// No relative path leads from the destination's directory to the source.
    NoRelative,
    /// The link could not be created.
    Link(String),
    /// The directory could not be created.
    Dir(String),
    /// The destination's root could not be inspected.
    RootStat(String),
    /// The destination's root could not be created.
    Root(String),
}

pub enum FailureView {
    Walk(Seq<char>),
    Entry,
    Stat(Seq<char>),
    Look(FtErrorView),
    Remove(FtErrorView),
    Source(Seq<char>),
    NoParent,
    NoRelative,
    Link(Seq<char>),
    Dir(Seq<char>),
    RootStat(Seq<char>),
    Root(Seq<char>),
}

impl View for Failure {
    type V = FailureView;

    open spec fn view(&self) -> FailureView {
        match self {
            Failure::Walk(m) => FailureView::Walk(m@),
            Failure::Entry => FailureView::Entry,
            Failure::Stat(m) => FailureView::Stat(m@),
            Failure::Look(e) => FailureView::Look(e@),
            Failure::Remove(e) => FailureView::Remove(e@),
            Failure::Source(m) => FailureView::Source(m@),
            Failure::NoParent => FailureView::NoParent,
            Failure::NoRelative => FailureView::NoRelative,
            Failure::Link(m) => FailureView::Link(m@),
            Failure::Dir(m) => FailureView::Dir(m@),
            Failure::RootStat(m) => FailureView::RootStat(m@),
            Failure::Root(m) => FailureView::Root(m@),
        }
    }
}

/// One report of a run.
#[derive(Debug, PartialEq, Eq)]
pub enum Event {
    /// A dot was asked for that the configuration does not have.
    UnknownDot(String),
    /// The patterns of what to ignore do not compile.
    BadIgnore(String),
    /// Nothing on disk will be changed by this run.
    DryRun,
    /// A dot was turned down.
    Rejected(DotError),
    /// Work on a dot begins.
    Dot(String),
    /// An entry of the source was left out, and all below it.
    Ignored(String),
    /// An entry is visited: what lies at `src` is to stand at `dest`, or,
    /// where `back` is set, to stand there no longer.
    Visit { src: String, dest: String, back: bool },
    /// The destination is as it should be and was left alone.
    Kept { dest: String, ty: Type },
    /// The destination was removed; `done` is false where the run is dry and
    /// it only would have been.
    Removed { dest: String, ty: Type, done: bool },
    /// A link reading `target` was created at the destination.
    Linked { dest: String, target: String, done: bool },
    /// A directory was created at the destination.
    Made { dest: String, done: bool },
    /// The destination's root was created.
    Rooted { dest: String, done: bool },
    /// Something was given up.
    Failed { path: String, why: Failure },
}

pub enum EventView {
    UnknownDot(Seq<char>),
    BadIgnore(Seq<char>),
    DryRun,
    Rejected(DotErrorView),
    Dot(Seq<char>),
    Ignored(Seq<char>),
    Visit { src: Seq<char>, dest: Seq<char>, back: bool },
    Kept { dest: Seq<char>, ty: Type },
    Removed { dest: Seq<char>, ty: Type, done: bool },
    Linked { dest: Seq<char>, target: Seq<char>, done: bool },
    Made { dest: Seq<char>, done: bool },
    Rooted { dest: Seq<char>, done: bool },
    Failed { path: Seq<char>, why: FailureView },
}

impl View for Event {
    type V = EventView;

    open spec fn view(&self) -> EventView {
        match self {
            Event::UnknownDot(n) => EventView::UnknownDot(n@),
            Event::BadIgnore(m) => EventView::BadIgnore(m@),
            Event::DryRun => EventView::DryRun,
            Event::Rejected(e) => EventView::Rejected(e@),
            Event::Dot(n) => EventView::Dot(n@),
            Event::Ignored(p) => EventView::Ignored(p@),
            Event::Visit { src, dest, back } => EventView::Visit {
                src: src@,
                dest: dest@,
                back: *back,
            },
            Event::Kept { dest, ty } => EventView::Kept { dest: dest@, ty: *ty },
            Event::Removed { dest, ty, done } => EventView::Removed {
                dest: dest@,
                ty: *ty,
                done: *done,
            },
            Event::Linked { dest, target, done } => EventView::Linked {
                dest: dest@,
                target: target@,
                done: *done,
            },
            Event::Made { dest, done } => EventView::Made { dest: dest@, done: *done },
            Event::Rooted { dest, done } => EventView::Rooted { dest: dest@, done: *done },
            Event::Failed { path, why } => EventView::Failed { path: path@, why: why@ },
        }
    }
}

impl EventView {
    /// How loud the report is.
    pub open spec fn level(self) -> Level {
        match self {
            EventView::UnknownDot(_) => Level::Error,
            EventView::BadIgnore(_) => Level::Error,
            EventView::Rejected(_) => Level::Error,
            EventView::Failed { .. } => Level::Error,
            EventView::DryRun => Level::Warn,
            EventView::Ignored(_) => Level::Warn,
            EventView::Dot(_) => Level::Info,
            EventView::Visit { .. } => Level::Info,
            _ => Level::Debug,
        }
    }

    /// A report of something gone wrong.
    pub open spec fn is_error(self) -> bool {
        self.level() == Level::Error
    }
}

impl Event {
    pub fn level(&self) -> (r: Level)
        ensures
            r == self@.level(),
    {
        match self {
            Event::UnknownDot(_) => Level::Error,
            Event::BadIgnore(_) => Level::Error,
            Event::Rejected(_) => Level::Error,
            Event::Failed { .. } => Level::Error,
            Event::DryRun => Level::Warn,
            Event::Ignored(_) => Level::Warn,
            Event::Dot(_) => Level::Info,
            Event::Visit { .. } => Level::Info,
            _ => Level::Debug,
        }
    }
}

/// `rest` after `pre`.
fn led(pre: &str, rest: &str) -> (r: String)
    ensures
        r@ == pre@ + rest@,
{
    let mut out = pre.to_owned();
    out.append(rest);
    out
}

/// `mid` between `pre` and `post`.
fn framed(pre: &str, mid: &str, post: &str) -> (r: String)
    ensures
        r@ == pre@ + mid@ + post@,
{
    let mut out = pre.to_owned();
    out.append(mid);
    out.append(post);
    out
}

impl FailureView {
    /// The failure in words; `path` is what was given up.
    pub open spec fn text(self, path: Seq<char>) -> Seq<char> {
        match self {
            FailureView::Walk(m) => "unable to walk \""@ + path + "\": "@ + m,
            FailureView::Entry => "entry \""@ + path + "\" does not lie at its depth"@,
            FailureView::Stat(m) => "unable to read dest file: "@ + m,
            FailureView::Look(e) => e.message(),
            FailureView::Remove(e) => "unable to remove dest file: "@ + e.message(),
            FailureView::Source(m) => "unable to resolve source file: "@ + m,
            FailureView::NoParent => "dest file \""@ + path + "\" lies in no directory"@,
            FailureView::NoRelative => "no relative path leads from \""@ + path
                + "\" to its source"@,
            FailureView::Link(m) => "unable to create dest symlink: "@ + m,
            FailureView::Dir(m) => "unable to create dest dir: "@ + m,
            FailureView::RootStat(m) => "unable to read dest root dir: "@ + m,
            FailureView::Root(m) => "unable to create dest root dir: "@ + m,
        }
    }
}

impl Failure {
    pub fn message(&self, path: &str) -> (r: String)
        ensures
            r@ == self@.text(path@),
    {
        match self {
            Failure::Walk(m) => {
                let mut out = framed("unable to walk \"", path, "\": ");
                out.append(m.as_str());
                out
            },
            Failure::Entry => framed("entry \"", path, "\" does not lie at its depth"),
            Failure::Stat(m) => led("unable to read dest file: ", m.as_str()),
            Failure::Look(e) => e.message(),
            Failure::Remove(e) => led("unable to remove dest file: ", e.message().as_str()),
            Failure::Source(m) => led("unable to resolve source file: ", m.as_str()),
            Failure::NoParent => framed("dest file \"", path, "\" lies in no directory"),
            Failure::NoRelative => framed("no relative path leads from \"", path, "\" to its source"),
            Failure::Link(m) => led("unable to create dest symlink: ", m.as_str()),
            Failure::Dir(m) => led("unable to create dest dir: ", m.as_str()),
            Failure::RootStat(m) => led("unable to read dest root dir: ", m.as_str()),
            Failure::Root(m) => led("unable to create dest root dir: ", m.as_str()),
        }
    }
}

/// What was done, or in a dry run what would have been.
pub open spec fn deed(done: bool, did: Seq<char>, would: Seq<char>) -> Seq<char> {
    if done {
        did
    } else {
        would
    }
}

impl EventView {
    /// The report in words.
    pub open spec fn text(self) -> Seq<char> {
        match self {
            EventView::UnknownDot(n) => "no dot named \""@ + n + "\""@,
            EventView::BadIgnore(m) => "invalid ignore regexes: "@ + m,
            EventView::DryRun => "not performing any change to the filesystem"@,
            EventView::Rejected(e) => e.message(),
            EventView::Dot(n) => "shoving dot \""@ + n + "\""@,
            EventView::Ignored(p) => "ignoring path \""@ + p + "\""@,
            EventView::Visit { src, dest, back } => if back {
                "unshoving \""@ + src + "\" from \""@ + dest + "\""@
            } else {
                "shoving \""@ + src + "\" into \""@ + dest + "\""@
            },
            EventView::Kept { dest, ty } => if ty == Type::Dotlink {
                "dotfile already properly shoved"@
            } else {
                "dotfile dir already properly shoved"@
            },
            EventView::Removed { dest, ty, done } => deed(
                done,
                "removed dest "@,
                "would remove dest "@,
            ) + ty.label(),
            EventView::Linked { dest, target, done } => deed(
                done,
                "created dest symlink to \""@,
                "would create dest symlink to \""@,
            ) + target + "\""@,
            EventView::Made { dest, done } => deed(
                done,
                "created dest dir"@,
                "would create dest dir"@,
            ),
            EventView::Rooted { dest, done } => deed(
                done,
                "created dest root dir"@,
                "would create dest root dir"@,
            ),
            EventView::Failed { path, why } => why.text(path),
        }
    }
}

impl Event {
    pub fn message(&self) -> (r: String)
        ensures
            r@ == self@.text(),
    {
        match self {
            Event::UnknownDot(n) => framed("no dot named \"", n.as_str(), "\""),
            Event::BadIgnore(m) => led("invalid ignore regexes: ", m.as_str()),
            Event::DryRun => "not performing any change to the filesystem".to_owned(),
            Event::Rejected(e) => e.message(),
            Event::Dot(n) => framed("shoving dot \"", n.as_str(), "\""),
            Event::Ignored(p) => framed("ignoring path \"", p.as_str(), "\""),
            Event::Visit { src, dest, back } => {
                let mut out = if *back {
                    framed("unshoving \"", src.as_str(), "\" from \"")
                } else {
                    framed("shoving \"", src.as_str(), "\" into \"")
                };
                out.append(dest.as_str());
                out.append("\"");
                out
            },
            Event::Kept { dest, ty } => match ty {
                Type::Dotlink => "dotfile already properly shoved".to_owned(),
                _ => "dotfile dir already properly shoved".to_owned(),
            },
            Event::Removed { dest, ty, done } => {
                if *done {
                    led("removed dest ", ty.name())
                } else {
                    led("would remove dest ", ty.name())
                }
            },
            Event::Linked { dest, target, done } => {
                if *done {
                    framed("created dest symlink to \"", target.as_str(), "\"")
                } else {
                    framed("would create dest symlink to \"", target.as_str(), "\"")
                }
            },
            Event::Made { dest, done } => {
                if *done {
                    "created dest dir".to_owned()
                } else {
                    "would create dest dir".to_owned()
                }
            },
            Event::Rooted { dest, done } => {
                if *done {
                    "created dest root dir".to_owned()
                } else {
                    "would create dest root dir".to_owned()
                }
            },
            Event::Failed { path, why } => why.message(path.as_str()),
        }
    }
}

/// The views of a run of reports.
pub open spec fn views(events: Seq<Event>) -> Seq<EventView> {
    Seq::new(events.len(), |i: int| events[i]@)
}

/// Some report among `events` is of something gone wrong.
pub open spec fn any_error(events: Seq<EventView>) -> bool {
    exists|i: int| 0 <= i < events.len() && (#[trigger] events[i]).is_error()
}

/// One report alone is an error among reports exactly if it is one itself,
/// and among no reports there is none.
pub proof fn lemma_one_report(e: EventView)
    ensures
        any_error(seq![e]) == e.is_error(),
        !any_error(Seq::<EventView>::empty()),
{
    let one = seq![e];
    assert(one[0] == e);
    if any_error(one) {
        let i = choose|i: int| 0 <= i < one.len() && (#[trigger] one[i]).is_error();
        assert(one[i] == e);
    }
}

/// No reports.
pub fn silence() -> (v: Vec<Event>)
    ensures
        views(v@) == Seq::<EventView>::empty(),
{
    let v: Vec<Event> = Vec::new();
    assert(views(v@) =~= Seq::<EventView>::empty());
    v
}

/// `events` and after them `e`.
pub fn also(events: Vec<Event>, e: Event) -> (v: Vec<Event>)
    ensures
        views(v@) == views(events@).push(e@),
{
    let mut v = events;
    v.push(e);
    assert(views(v@) =~= views(events@).push(e@));
    v
}

/// The one report `e`.
pub fn report(e: Event) -> (v: Vec<Event>)
    ensures
        views(v@) == seq![e@],
{
    let v = also(silence(), e);
    assert(views(v@) =~= seq![e@]);
    v
}

/// `first` and after them `second`.
pub fn chain(first: Vec<Event>, second: Vec<Event>) -> (v: Vec<Event>)
    ensures
        views(v@) == views(first@) + views(second@),
{
    let mut v = first;
    let mut rest = second;
    v.append(&mut rest);
    assert(views(v@) =~= views(first@) + views(second@));
    v
}

/// Whether some report among `events` is of something gone wrong.
pub fn has_error(events: &Vec<Event>) -> (r: bool)
    ensures
        r == any_error(views(events@)),
{
    let mut i: usize = 0;
    while i < events.len()
        invariant
            i <= events.len(),
            forall|j: int| 0 <= j < i ==> !(#[trigger] views(events@)[j]).is_error(),
        decreases events.len() - i,
    {
        match events[i].level() {
            Level::Error => {
                assert(views(events@)[i as int].is_error());
                return true;
            },
            _ => {},
        }
        i = i + 1;
    }
    false
}

} // verus!
