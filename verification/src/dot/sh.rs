//! Destination patterns: a leading `~` and `$VAR`s are expanded by the shell's
//! rules before a pattern is used as a path.

use crate::text::{chars, push};
use std::borrow::Cow;
use vstd::prelude::*;

verus! {

/// An expansion that failed: the pattern, the variable that could not be
/// looked up, and why.
#[derive(Debug, PartialEq, Eq)]
pub struct Error {
    pub s: String,
    pub var_name: String,
    pub cause: String,
}

pub struct ErrorView {
    pub s: Seq<char>,
    pub var_name: Seq<char>,
    pub cause: Seq<char>,
}

impl View for Error {
    type V = ErrorView;

    open spec fn view(&self) -> ErrorView {
        ErrorView { s: self.s@, var_name: self.var_name@, cause: self.cause@ }
    }
}

impl ErrorView {
    /// The failure in words.
    pub open spec fn message(self) -> Seq<char> {
        "failed to expand \""@ + self.s + "\": error looking key '"@ + self.var_name + "' up: "@
            + self.cause
    }
}

impl Error {
    pub fn new(s: &str, var_name: String, cause: String) -> (r: Error)
        ensures
            r@ == (ErrorView { s: s@, var_name: var_name@, cause: cause@ }),
    {
        Error { s: s.to_owned(), var_name, cause }
    }

    pub fn message(&self) -> (r: String)
        ensures
            r@ == self@.message(),
    {
        let mut m = "failed to expand \"".to_owned();
        m.append(self.s.as_str());
        m.append("\": error looking key '");
        m.append(self.var_name.as_str());
        m.append("' up: ");
        m.append(self.cause.as_str());
        m
    }
}

/// A destination ready for use: the pattern itself where it held nothing to
/// expand, else the expanded path together with the pattern it came from.
#[derive(Debug, PartialEq, Eq)]
pub enum Sh {
    Expanded { buf: String, s: String },
    Normal(String),
}

pub enum ShView {
    Expanded { buf: Seq<char>, s: Seq<char> },
    Normal(Seq<char>),
}

impl View for Sh {
    type V = ShView;

    open spec fn view(&self) -> ShView {
        match self {
            Sh::Expanded { buf, s } => ShView::Expanded { buf: buf@, s: s@ },
            Sh::Normal(p) => ShView::Normal(p@),
        }
    }
}

impl ShView {
    /// The path to use.
    pub open spec fn path(self) -> Seq<char> {
        match self {
            ShView::Expanded { buf, .. } => buf,
            ShView::Normal(p) => p,
        }
    }
}

/// A pattern with nothing to expand: no `$` in it and no `~` at its start.
pub open spec fn plain(s: Seq<char>) -> bool {
    !s.contains('$') && !(s.len() > 0 && s[0] == '~')
}

/// The views of an expansion's two outcomes.
pub open spec fn outcome_view(r: Result<Sh, Error>) -> Result<ShView, ErrorView> {
    match r {
        Ok(sh) => Ok(sh@),
        Err(e) => Err(e@),
    }
}

/// What an expansion is made of: on success the text and whether it is a new
/// one, on failure the variable and the cause.
pub type Raw = Result<(String, bool), (String, String)>;

/// The destination that the raw outcome `raw` of expanding `s` stands for.
pub open spec fn settled(s: Seq<char>, raw: Raw) -> Result<ShView, ErrorView> {
    match raw {
        Ok((text, true)) => Ok(ShView::Expanded { buf: text@, s }),
        Ok((text, false)) => Ok(ShView::Normal(text@)),
        Err((var_name, cause)) => Err(ErrorView { s, var_name: var_name@, cause: cause@ }),
    }
}

/// Where a variable's name begins, counting from `i`, with a character that
/// is not ASCII: the index of the first `$` that such a character follows.
pub open spec fn wild_from(s: Seq<char>, i: int) -> Option<int>
    decreases s.len() - i,
{
    if i < 0 || i + 1 >= s.len() {
        None
    } else if s[i] == '$' && s[i + 1] > '\x7f' {
        Some(i)
    } else {
        wild_from(s, i + 1)
    }
}

/// The first place in `s` where a `$` is followed by a character that is not
/// ASCII. A pattern with such a place is malformed and is not expanded.
pub open spec fn offence(s: Seq<char>) -> Option<int> {
    wild_from(s, 0)
}

/// Why a pattern with an offence is turned down.
pub open spec fn not_ascii() -> Seq<char> {
    "the name of a variable begins with a character that is not ASCII"@
}

/// The failure of the pattern `s` with its first offence at `i`: the
/// character after the `$` stands for the variable.
pub open spec fn malformed(s: Seq<char>, i: int) -> ErrorView {
    ErrorView { s, var_name: seq![s[i + 1]], cause: not_ascii() }
}

/// What holds of every expansion of `s`, whatever the environment. A
/// malformed pattern fails, and as `malformed` says. Of any other: one that
/// was left alone is the path and holds no `$`; an expanded one is
/// remembered beside its path and had something to expand; and only a
/// pattern with a `$` can fail.
pub open spec fn admissible(s: Seq<char>, r: Result<ShView, ErrorView>) -> bool {
    match offence(s) {
        Some(i) => r == Err::<ShView, ErrorView>(malformed(s, i)),
        None => match r {
            Ok(ShView::Normal(p)) => p == s && !s.contains('$'),
            Ok(ShView::Expanded { buf, s: kept }) => kept == s && !plain(s),
            Err(e) => e.s == s && s.contains('$'),
        },
    }
}

/// A pattern without a `$` has no offence.
pub proof fn lemma_plain_is_tame(s: Seq<char>, i: int)
    requires
        !s.contains('$'),
    ensures
        wild_from(s, i) is None,
    decreases s.len() - i,
{
    if 0 <= i && i + 1 < s.len() {
        assert(s.contains(s[i]));
        lemma_plain_is_tame(s, i + 1);
    }
}

/// `shellexpand::full`: tilde and environment expansion in the process's own
/// environment. The crate cuts the input two bytes after a `$` that a name
/// character follows, and does not return where that character is longer
/// than one byte; `requires` leaves out every input in which a `$` is
/// followed by a character that is not ASCII. Of the others the contract
/// holds what the crate's source shows whatever the environment is. The input
/// comes back untouched (the flag is then `false`) only where it holds no
/// `$`, for once a `$` is found the result is built anew; a new text is only
/// built where the input holds a `$` or starts with `~`; and it fails only on
/// a variable reference, so only where the input holds a `$`.
#[verifier::external_body]
fn full(s: &str) -> (r: Raw)
    requires
        offence(s@) is None,
    ensures
        r matches Ok((text, expanded)) ==> (!expanded ==> text@ == s@) && (expanded ==> !plain(
            s@,
        )) && (s@.contains('$') ==> expanded),
        r is Err ==> s@.contains('$'),
{
    match shellexpand::full(s) {
        Ok(Cow::Borrowed(p)) => Ok((p.to_owned(), false)),
        Ok(Cow::Owned(buf)) => Ok((buf, true)),
        Err(e) => Err((e.var_name, e.cause.to_string())),
    }
}

/// The character after the first `$` of `s` that a character follows which
/// is not ASCII, if there is such a place.
fn offender(s: &str) -> (r: Option<char>)
    ensures
        match r {
            Some(c) => offence(s@) matches Some(i) && c == s@[i + 1],
            None => offence(s@) is None,
        },
{
    let v = chars(s);
    let n = v.len();
    if n < 2 {
        return None;
    }
    let mut i: usize = 0;
    while i < n - 1
        invariant
            v@ == s@,
            n == v.len(),
            n >= 2,
            i <= n - 1,
            offence(s@) == wild_from(s@, i as int),
        decreases n - i,
    {
        if v[i] == '$' && v[i + 1] > '\x7f' {
            return Some(v[i + 1]);
        }
        i = i + 1;
    }
    None
}

impl Sh {
    /// The path to use.
    pub fn path(&self) -> (r: &str)
        ensures
            r@ == self@.path(),
    {
        match self {
            Sh::Expanded { buf, .. } => buf.as_str(),
            Sh::Normal(p) => p.as_str(),
        }
    }

    /// Reads the raw outcome of expanding `s`.
    pub fn settle(s: &str, raw: Raw) -> (r: Result<Sh, Error>)
        ensures
            outcome_view(r) == settled(s@, raw),
    {
        match raw {
            Ok((text, expanded)) => {
                if expanded {
                    Ok(Sh::Expanded { buf: text, s: s.to_owned() })
                } else {
                    Ok(Sh::Normal(text))
                }
            },
            Err((var_name, cause)) => Err(Error::new(s, var_name, cause)),
        }
    }

    /// Expands the pattern `s`. A pattern in which a `$` is followed by a
    /// character that is not ASCII is malformed: it fails here, before
    /// anything is expanded, with that character for the variable. What
    /// comes of any other pattern depends on the environment; `admissible`
    /// says what holds of it in every environment. In particular a plain
    /// pattern always succeeds, as itself, and a pattern with a `$` never
    /// comes back as it went in.
    pub fn try_from(s: &str) -> (r: Result<Sh, Error>)
        ensures
            admissible(s@, outcome_view(r)),
            plain(s@) ==> outcome_view(r) == Ok::<ShView, ErrorView>(ShView::Normal(s@)),
    {
        proof {
            if plain(s@) {
                lemma_plain_is_tame(s@, 0);
            }
        }
        match offender(s) {
            Some(c) => {
                let mut name = String::new();
                push(&mut name, c);
                assert(name@ =~= seq![c]);
                Err(
                    Error::new(
                        s,
                        name,
                        "the name of a variable begins with a character that is not ASCII".to_owned(),
                    ),
                )
            },
            None => Self::settle(s, full(s)),
        }
    }
}

} // verus!
