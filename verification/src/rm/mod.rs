//! Removal, one kind of node at a time: each kind knows its name, the rage it
//! takes and the operation that removes it.

pub mod err;

pub use self::err::{Error, ErrorView, RageError, RageErrorView};
use crate::ft::Type;
use crate::sys::{Request, RequestView};
use vstd::prelude::*;

verus! {

/// Something at a path that can be removed, given rage enough.
pub trait Rm {
    /// What the node is called.
    spec fn kind(&self) -> Seq<char>;

    /// The rage that its removal takes.
    spec fn needs(&self) -> usize;

    /// Where it stands.
    spec fn place(&self) -> Seq<char>;

    /// The operation that removes it.
    spec fn removal(&self) -> RequestView;

    fn ft(&self) -> (r: &str)
        ensures
            r@ == self.kind(),
    ;

    fn op(&self) -> (r: Request)
        ensures
            r@ == self.removal(),
    ;

    fn path(&self) -> (r: &str)
        ensures
            r@ == self.place(),
    ;

    fn rage(&self) -> (r: usize)
        ensures
            r == self.needs(),
    ;

    /// The node's removal, if and only if `rage` reaches what it takes; the
    /// refusal names the node and both levels.
    fn rm(&self, rage: usize) -> (r: Result<Request, Error>)
        ensures
            match r {
                Ok(q) => rage >= self.needs() && q@ == self.removal(),
                Err(e) => rage < self.needs() && e@ == ErrorView::Rage(
                    RageErrorView { ft: self.kind(), rage, req: self.needs() },
                ),
            },
    {
        if rage >= self.rage() {
            Ok(self.op())
        } else {
            Err(Error::Rage(RageError::new(self.ft(), rage, self.rage())))
        }
    }
}

/// A link that this tool made.
#[derive(Debug, PartialEq, Eq)]
pub struct Dotfile(pub String);

impl Rm for Dotfile {
    open spec fn kind(&self) -> Seq<char> {
        "dotfile"@
    }

    open spec fn needs(&self) -> usize {
        0
    }

    open spec fn place(&self) -> Seq<char> {
        self.0@
    }

    open spec fn removal(&self) -> RequestView {
        RequestView::RemoveFile(self.0@)
    }

    fn ft(&self) -> (r: &str) {
        "dotfile"
    }

    fn op(&self) -> (r: Request) {
        Request::RemoveFile(self.0.clone())
    }

    fn path(&self) -> (r: &str) {
        self.0.as_str()
    }

    fn rage(&self) -> (r: usize) {
        0
    }
}

/// A directory without entries.
#[derive(Debug, PartialEq, Eq)]
pub struct EmptyDir(pub String);

impl Rm for EmptyDir {
    open spec fn kind(&self) -> Seq<char> {
        "empty directory"@
    }

    open spec fn needs(&self) -> usize {
        2
    }

    open spec fn place(&self) -> Seq<char> {
        self.0@
    }

    open spec fn removal(&self) -> RequestView {
        RequestView::RemoveDir(self.0@)
    }

    fn ft(&self) -> (r: &str) {
        "empty directory"
    }

    fn op(&self) -> (r: Request) {
        Request::RemoveDir(self.0.clone())
    }

    fn path(&self) -> (r: &str) {
        self.0.as_str()
    }

    fn rage(&self) -> (r: usize) {
        2
    }
}

/// A regular file.
#[derive(Debug, PartialEq, Eq)]
pub struct File(pub String);

impl Rm for File {
    open spec fn kind(&self) -> Seq<char> {
        "file"@
    }

    open spec fn needs(&self) -> usize {
        2
    }

    open spec fn place(&self) -> Seq<char> {
        self.0@
    }

    open spec fn removal(&self) -> RequestView {
        RequestView::RemoveFile(self.0@)
    }

    fn ft(&self) -> (r: &str) {
        "file"
    }

    fn op(&self) -> (r: Request) {
        Request::RemoveFile(self.0.clone())
    }

    fn path(&self) -> (r: &str) {
        self.0.as_str()
    }

    fn rage(&self) -> (r: usize) {
        2
    }
}

/// A directory with entries; it goes with all it holds.
#[derive(Debug, PartialEq, Eq)]
pub struct NonEmptyDir(pub String);

impl Rm for NonEmptyDir {
    open spec fn kind(&self) -> Seq<char> {
        "non-empty directory"@
    }

    open spec fn needs(&self) -> usize {
        3
    }

    open spec fn place(&self) -> Seq<char> {
        self.0@
    }

    open spec fn removal(&self) -> RequestView {
        RequestView::RemoveDirAll(self.0@)
    }

    fn ft(&self) -> (r: &str) {
        "non-empty directory"
    }

    fn op(&self) -> (r: Request) {
        Request::RemoveDirAll(self.0.clone())
    }

    fn path(&self) -> (r: &str) {
        self.0.as_str()
    }

    fn rage(&self) -> (r: usize) {
        3
    }
}

/// A link that leads elsewhere.
#[derive(Debug, PartialEq, Eq)]
pub struct Symlink(pub String);

impl Rm for Symlink {
    open spec fn kind(&self) -> Seq<char> {
        "symlink"@
    }

    open spec fn needs(&self) -> usize {
        1
    }

    open spec fn place(&self) -> Seq<char> {
        self.0@
    }

    open spec fn removal(&self) -> RequestView {
        RequestView::RemoveFile(self.0@)
    }

    fn ft(&self) -> (r: &str) {
        "symlink"
    }

    fn op(&self) -> (r: Request) {
        Request::RemoveFile(self.0.clone())
    }

    fn path(&self) -> (r: &str) {
        self.0.as_str()
    }

    fn rage(&self) -> (r: usize) {
        1
    }
}

/// The five removers and the five types of node say the same: each type has
/// its remover, with the type's minimum of rage and the type's removal.
pub proof fn lemma_removers_agree(path: String)
    ensures
        Dotfile(path).needs() == Type::Dotlink.min_rage(),
        Dotfile(path).removal() == Type::Dotlink.removal(path@),
        Symlink(path).needs() == Type::Symlink.min_rage(),
        Symlink(path).removal() == Type::Symlink.removal(path@),
        File(path).needs() == Type::File.min_rage(),
        File(path).removal() == Type::File.removal(path@),
        EmptyDir(path).needs() == Type::EmptyDir.min_rage(),
        EmptyDir(path).removal() == Type::EmptyDir.removal(path@),
        NonEmptyDir(path).needs() == Type::NonemptyDir.min_rage(),
        NonEmptyDir(path).removal() == Type::NonemptyDir.removal(path@),
{
}

} // verus!
