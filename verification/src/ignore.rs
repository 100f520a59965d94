//! What to leave out: a set of regular expressions that paths are held against.

use regex::RegexSet;
use vstd::prelude::*;

verus! {

/// `regex::RegexSet`, taken whole: all that is known of a set is what `held`
/// says it was made from.
#[verifier::external_type_specification]
#[verifier::external_body]
pub struct ExRegexSet(RegexSet);

/// The patterns that `regex::RegexSet::new` made the set from, in the order
/// given; `None` of a set that was made in any other way.
pub uninterp spec fn held(set: RegexSet) -> Option<Seq<Seq<char>>>;

/// Why `regex::RegexSet::new` turns the patterns down, where it does.
pub uninterp spec fn refusal(patterns: Seq<Seq<char>>) -> Option<Seq<char>>;

/// Whether some pattern of the set that `regex::RegexSet::new` makes from
/// `patterns` matches somewhere in `text`, as `regex::RegexSet::is_match`
/// finds it.
pub uninterp spec fn matching(patterns: Seq<Seq<char>>, text: Seq<char>) -> bool;

/// `regex::RegexSet::new`, with the error as its message. Whether the patterns
/// compile depends on them alone: `refusal` is the name of the message where
/// they do not, and the set that comes back holds the patterns it was given.
/// No patterns at all always make a set.
#[verifier::external_body]
fn compile(patterns: &Vec<String>) -> (r: Result<RegexSet, String>)
    ensures
        match r {
            Ok(set) => refusal(patterns.deep_view()) is None && held(set) == Some(
                patterns.deep_view(),
            ),
            Err(m) => refusal(patterns.deep_view()) == Some(m@),
        },
        patterns@.len() == 0 ==> r is Ok,
{
    match RegexSet::new(patterns) {
        Ok(set) => Ok(set),
        Err(e) => Err(e.to_string()),
    }
}

/// `regex::RegexSet::is_match`: whether one of the set's patterns matches
/// somewhere in `text`. Of a set that `regex::RegexSet::new` made, the answer
/// depends on the patterns and the text alone and has the name `matching`; a
/// set without patterns matches nothing.
#[verifier::external_body]
fn is_match(set: &RegexSet, text: &str) -> (r: bool)
    ensures
        held(*set) matches Some(p) ==> r == matching(p, text@) && (p.len() == 0 ==> !r),
{
    set.is_match(text)
}

/// Patterns of what to leave out, compiled.
pub struct Ignore {
    set: RegexSet,
}

impl Ignore {
    #[verifier::type_invariant]
    spec fn inv(self) -> bool {
        held(self.set) is Some
    }

    /// The patterns as they were given.
    pub closed spec fn patterns(self) -> Seq<Seq<char>> {
        held(self.set)->0
    }

    /// A path is left out if there are patterns and one of them matches
    /// somewhere in it.
    pub open spec fn leaves_out(self, path: Seq<char>) -> bool {
        self.patterns().len() > 0 && matching(self.patterns(), path)
    }

    /// Compiles the patterns. Whether they compile depends on them alone; the
    /// error is the message of the first fault found in them.
    pub fn new(patterns: &Vec<String>) -> (r: Result<Ignore, String>)
        ensures
            match r {
                Ok(ignore) => refusal(patterns.deep_view()) is None && ignore.patterns()
                    == patterns.deep_view(),
                Err(m) => refusal(patterns.deep_view()) == Some(m@),
            },
            patterns@.len() == 0 ==> r is Ok,
    {
        match compile(patterns) {
            Ok(set) => Ok(Ignore { set }),
            Err(m) => Err(m),
        }
    }

    /// Whether one of the patterns matches somewhere in `path`. Without
    /// patterns nothing matches.
    pub fn is_match(&self, path: &str) -> (r: bool)
        ensures
            r == self.leaves_out(path@),
            self.patterns().len() == 0 ==> !r,
    {
        proof {
            use_type_invariant(self);
        }
        is_match(&self.set, path)
    }
}

} // verus!
