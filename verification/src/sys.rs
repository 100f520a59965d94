//! The conversation with the filesystem. The library never touches a disk: it
//! hands out a `Request`, whoever drives it performs that one operation and
//! hands back a `Reply`.

use crate::dot::sh::{outcome_view, Error as ShErr, ErrorView as ShErrView, Sh, ShView};
use vstd::prelude::*;

verus! {

/// One operation for the driver to perform.
#[derive(Debug, PartialEq, Eq)]
pub enum Request {
    /// Does the path lead anywhere, links followed? Answered by `Flag`.
    Exists(String),
    /// Is there a node at the path itself, links not followed? `Flag`.
    Lstat(String),
    /// Is the node at the path a symbolic link? `Flag`.
    IsSymlink(String),
    /// Is the path a directory, links followed? `Flag`.
    IsDir(String),
    /// The text of the symbolic link at the path. `Path`.
    ReadLink(String),
    /// The number of entries of the directory at the path. `Count`.
    CountEntries(String),
    /// Do the two paths lead to one and the same file? `Flag`.
    SameFile(String, String),
    /// The canonical, absolute form of the path. `Path`.
    Canonicalize(String),
    /// The directory the process works in. `Path`.
    CurrentDir,
    /// The pattern expanded in the process's environment, as `Sh::try_from`
    /// does it. `Expanded`.
    Expand(String),
    /// Unlink the file or link at the path. `Done`.
    RemoveFile(String),
    /// Remove the empty directory at the path. `Done`.
    RemoveDir(String),
    /// Remove the directory at the path and all it holds. `Done`.
    RemoveDirAll(String),
    /// Create at `link` a symbolic link that reads `target`. `Done`.
    Symlink { target: String, link: String },
    /// Create one directory. `Done`.
    CreateDir(String),
    /// Create a directory and the missing ones above it. `Done`.
    CreateDirAll(String),
    /// Begin to walk the tree under `root`. `Done`.
    Walk { root: String, min_depth: usize, max_depth: Option<usize>, follow: bool, contents_first: bool },
    /// The next entry of the walk. `Entry`, or `End` when there is none.
    NextEntry,
    /// Leave out what lies below the directory that the walk just gave. `Done`.
    SkipSubtree,
}

/// A `Request` with its paths as sequences of characters.
pub enum RequestView {
    Exists(Seq<char>),
    Lstat(Seq<char>),
    IsSymlink(Seq<char>),
    IsDir(Seq<char>),
    ReadLink(Seq<char>),
    CountEntries(Seq<char>),
    SameFile(Seq<char>, Seq<char>),
    Canonicalize(Seq<char>),
    CurrentDir,
    Expand(Seq<char>),
    RemoveFile(Seq<char>),
    RemoveDir(Seq<char>),
    RemoveDirAll(Seq<char>),
    Symlink { target: Seq<char>, link: Seq<char> },
    CreateDir(Seq<char>),
    CreateDirAll(Seq<char>),
    Walk { root: Seq<char>, min_depth: usize, max_depth: Option<usize>, follow: bool, contents_first: bool },
    NextEntry,
    SkipSubtree,
}

impl View for Request {
    type V = RequestView;

    open spec fn view(&self) -> RequestView {
        match self {
            Request::Exists(p) => RequestView::Exists(p@),
            Request::Lstat(p) => RequestView::Lstat(p@),
            Request::IsSymlink(p) => RequestView::IsSymlink(p@),
            Request::IsDir(p) => RequestView::IsDir(p@),
            Request::ReadLink(p) => RequestView::ReadLink(p@),
            Request::CountEntries(p) => RequestView::CountEntries(p@),
            Request::SameFile(a, b) => RequestView::SameFile(a@, b@),
            Request::Canonicalize(p) => RequestView::Canonicalize(p@),
            Request::CurrentDir => RequestView::CurrentDir,
            Request::Expand(p) => RequestView::Expand(p@),
            Request::RemoveFile(p) => RequestView::RemoveFile(p@),
            Request::RemoveDir(p) => RequestView::RemoveDir(p@),
            Request::RemoveDirAll(p) => RequestView::RemoveDirAll(p@),
            Request::Symlink { target, link } => RequestView::Symlink {
                target: target@,
                link: link@,
            },
            Request::CreateDir(p) => RequestView::CreateDir(p@),
            Request::CreateDirAll(p) => RequestView::CreateDirAll(p@),
            Request::Walk { root, min_depth, max_depth, follow, contents_first } => RequestView::Walk {
                root: root@,
                min_depth: *min_depth,
                max_depth: *max_depth,
                follow: *follow,
                contents_first: *contents_first,
            },
            Request::NextEntry => RequestView::NextEntry,
            Request::SkipSubtree => RequestView::SkipSubtree,
        }
    }
}

impl RequestView {
    /// The requests that change what is on disk.
    pub open spec fn mutates(self) -> bool {
        match self {
            RequestView::RemoveFile(_) => true,
            RequestView::RemoveDir(_) => true,
            RequestView::RemoveDirAll(_) => true,
            RequestView::Symlink { .. } => true,
            RequestView::CreateDir(_) => true,
            RequestView::CreateDirAll(_) => true,
            _ => false,
        }
    }
}

impl RequestView {
    /// The requests that take something off the disk.
    pub open spec fn removes(self) -> bool {
        match self {
            RequestView::RemoveFile(_) => true,
            RequestView::RemoveDir(_) => true,
            RequestView::RemoveDirAll(_) => true,
            _ => false,
        }
    }
}

impl RequestView {
    /// The requests that put something new on disk.
    pub open spec fn creates(self) -> bool {
        match self {
            RequestView::Symlink { .. } => true,
            RequestView::CreateDir(_) => true,
            RequestView::CreateDirAll(_) => true,
            _ => false,
        }
    }
}

impl Request {
    /// Whether performing the request changes what is on disk.
    pub fn mutates(&self) -> (r: bool)
        ensures
            r == self@.mutates(),
    {
        match self {
            Request::RemoveFile(_) => true,
            Request::RemoveDir(_) => true,
            Request::RemoveDirAll(_) => true,
            Request::Symlink { .. } => true,
            Request::CreateDir(_) => true,
            Request::CreateDirAll(_) => true,
            _ => false,
        }
    }
}

/// What the driver found or did.
#[derive(Debug, PartialEq, Eq)]
pub enum Reply {
    Flag(bool),
    Path(String),
    Count(usize),
    Done,
    /// A pattern's expansion, or why there is none.
    Expanded(Result<Sh, ShErr>),
    /// An entry of the walk: its path, how deep below the root it lies, and
    /// whether it is a directory once links are followed.
    Entry { path: String, depth: usize, is_dir: bool },
    End,
    /// The operation failed; the text says how.
    Failed(String),
}

/// A `Reply` with its texts as sequences of characters.
pub enum ReplyView {
    Flag(bool),
    Path(Seq<char>),
    Count(usize),
    Done,
    Expanded(Result<ShView, ShErrView>),
    Entry { path: Seq<char>, depth: usize, is_dir: bool },
    End,
    Failed(Seq<char>),
}

impl View for Reply {
    type V = ReplyView;

    open spec fn view(&self) -> ReplyView {
        match self {
            Reply::Flag(b) => ReplyView::Flag(*b),
            Reply::Path(p) => ReplyView::Path(p@),
            Reply::Count(n) => ReplyView::Count(*n),
            Reply::Done => ReplyView::Done,
            Reply::Expanded(r) => ReplyView::Expanded(outcome_view(*r)),
            Reply::Entry { path, depth, is_dir } => ReplyView::Entry {
                path: path@,
                depth: *depth,
                is_dir: *is_dir,
            },
            Reply::End => ReplyView::End,
            Reply::Failed(m) => ReplyView::Failed(m@),
        }
    }
}

/// A filesystem as far as the library can see it: what it answers to each
/// request.
pub type World = spec_fn(RequestView) -> ReplyView;

/// What stands for a reply that does not answer the question asked.
pub open spec fn unexpected() -> Seq<char> {
    "unexpected reply"@
}

impl ReplyView {
    /// Read as the answer to a yes-or-no question.
    pub open spec fn flag(self) -> Result<bool, Seq<char>> {
        match self {
            ReplyView::Flag(b) => Ok(b),
            ReplyView::Failed(m) => Err(m),
            _ => Err(unexpected()),
        }
    }

    /// Read as a path.
    pub open spec fn path(self) -> Result<Seq<char>, Seq<char>> {
        match self {
            ReplyView::Path(p) => Ok(p),
            ReplyView::Failed(m) => Err(m),
            _ => Err(unexpected()),
        }
    }

    /// Read as a count.
    pub open spec fn count(self) -> Result<usize, Seq<char>> {
        match self {
            ReplyView::Count(n) => Ok(n),
            ReplyView::Failed(m) => Err(m),
            _ => Err(unexpected()),
        }
    }

    /// Read as a pattern's expansion.
    pub open spec fn expansion(self) -> Result<Result<ShView, ShErrView>, Seq<char>> {
        match self {
            ReplyView::Expanded(r) => Ok(r),
            ReplyView::Failed(m) => Err(m),
            _ => Err(unexpected()),
        }
    }

    /// Read as the report of an operation that changes the disk.
    pub open spec fn done(self) -> Result<(), Seq<char>> {
        match self {
            ReplyView::Done => Ok(()),
            ReplyView::Failed(m) => Err(m),
            _ => Err(unexpected()),
        }
    }
}

/// A `Result` whose texts are taken as sequences of characters.
pub open spec fn text_result<T>(r: Result<T, String>) -> Result<T, Seq<char>> {
    match r {
        Ok(t) => Ok(t),
        Err(m) => Err(m@),
    }
}

impl Reply {
    pub fn flag(self) -> (r: Result<bool, String>)
        ensures
            text_result(r) == self@.flag(),
    {
        match self {
            Reply::Flag(b) => Ok(b),
            Reply::Failed(m) => Err(m),
            _ => Err("unexpected reply".to_owned()),
        }
    }

    pub fn path(self) -> (r: Result<String, String>)
        ensures
            match r {
                Ok(p) => self@.path() == Ok::<Seq<char>, Seq<char>>(p@),
                Err(m) => self@.path() == Err::<Seq<char>, Seq<char>>(m@),
            },
    {
        match self {
            Reply::Path(p) => Ok(p),
            Reply::Failed(m) => Err(m),
            _ => Err("unexpected reply".to_owned()),
        }
    }

    pub fn count(self) -> (r: Result<usize, String>)
        ensures
            text_result(r) == self@.count(),
    {
        match self {
            Reply::Count(n) => Ok(n),
            Reply::Failed(m) => Err(m),
            _ => Err("unexpected reply".to_owned()),
        }
    }

    pub fn expansion(self) -> (r: Result<Result<Sh, ShErr>, String>)
        ensures
            match r {
                Ok(x) => self@.expansion() == Ok::<Result<ShView, ShErrView>, Seq<char>>(
                    outcome_view(x),
                ),
                Err(m) => self@.expansion() == Err::<Result<ShView, ShErrView>, Seq<char>>(m@),
            },
    {
        match self {
            Reply::Expanded(r) => Ok(r),
            Reply::Failed(m) => Err(m),
            _ => Err("unexpected reply".to_owned()),
        }
    }

    pub fn done(self) -> (r: Result<(), String>)
        ensures
            text_result(r) == self@.done(),
    {
        match self {
            Reply::Done => Ok(()),
            Reply::Failed(m) => Err(m),
            _ => Err("unexpected reply".to_owned()),
        }
    }
}

} // verus!
