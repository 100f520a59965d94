//! The registry of dots: bindings from a name to where the dot's source lies
//! and where it goes, kept in the order of their names.

use crate::text::{
    lemma_precedes_irreflexive, lemma_precedes_total, lemma_precedes_transitive, lt, precedes,
    same,
};
use super::{Dot, ResolveView, Step};
use vstd::prelude::*;

verus! {

/// What a dot's entry says: only where it goes (its source is then named like
/// the dot), or both ends.
#[derive(Debug, PartialEq, Eq)]
pub enum Info {
    Str(String),
    Table { dest: String, src: String },
}

pub enum InfoView {
    Str(Seq<char>),
    Table { dest: Seq<char>, src: Seq<char> },
}

impl View for Info {
    type V = InfoView;

    open spec fn view(&self) -> InfoView {
        match self {
            Info::Str(s) => InfoView::Str(s@),
            Info::Table { dest, src } => InfoView::Table { dest: dest@, src: src@ },
        }
    }
}

impl InfoView {
    /// The source of the dot called `name`.
    pub open spec fn src(self, name: Seq<char>) -> Seq<char> {
        match self {
            InfoView::Str(_) => name,
            InfoView::Table { src, .. } => src,
        }
    }

    /// The pattern of the dot's destination.
    pub open spec fn dest(self) -> Seq<char> {
        match self {
            InfoView::Str(s) => s,
            InfoView::Table { dest, .. } => dest,
        }
    }
}

impl Info {
    pub fn src<'a>(&'a self, name: &'a str) -> (r: &'a str)
        ensures
            r@ == self@.src(name@),
    {
        match self {
            Info::Str(_) => name,
            Info::Table { src, .. } => src.as_str(),
        }
    }

    pub fn dest(&self) -> (r: &str)
        ensures
            r@ == self@.dest(),
    {
        match self {
            Info::Str(s) => s.as_str(),
            Info::Table { dest, .. } => dest.as_str(),
        }
    }

    pub fn duplicate(&self) -> (r: Info)
        ensures
            r@ == self@,
    {
        match self {
            Info::Str(s) => Info::Str(s.clone()),
            Info::Table { dest, src } => Info::Table { dest: dest.clone(), src: src.clone() },
        }
    }
}

/// A registry as a sequence: each binding a name and what it says.
pub type Bindings = Seq<(Seq<char>, InfoView)>;

/// Names rise strictly along the sequence, so none occurs twice.
pub open spec fn ordered(s: Bindings) -> bool {
    forall|i: int, j: int| 0 <= i < j < s.len() ==> precedes(#[trigger] s[i].0, #[trigger] s[j].0)
}

/// Some binding of `s` has the name `n`.
pub open spec fn binds(s: Bindings, n: Seq<char>) -> bool {
    exists|i: int| 0 <= i < s.len() && #[trigger] s[i].0 == n
}

/// A place in `s` where the name `n` stands, if there is one.
pub open spec fn index_of(s: Bindings, n: Seq<char>) -> int {
    choose|i: int| 0 <= i < s.len() && #[trigger] s[i].0 == n
}

/// The registry as a map from names.
pub open spec fn bindings(s: Bindings) -> Map<Seq<char>, InfoView> {
    Map::new(|n: Seq<char>| binds(s, n), |n: Seq<char>| s[index_of(s, n)].1)
}

proof fn lemma_distinct(s: Bindings, i: int, j: int)
    requires
        ordered(s),
        0 <= i < s.len(),
        0 <= j < s.len(),
        s[i].0 == s[j].0,
    ensures
        i == j,
{
    lemma_precedes_irreflexive(s[i].0);
    if i < j {
        assert(precedes(s[i].0, s[j].0));
    } else if j < i {
        assert(precedes(s[j].0, s[i].0));
    }
}

/// In an ordered registry the map gives at each name what the sequence holds
/// beside it.
pub proof fn lemma_binding_at(s: Bindings, i: int)
    requires
        ordered(s),
        0 <= i < s.len(),
    ensures
        binds(s, s[i].0),
        bindings(s).dom().contains(s[i].0),
        bindings(s)[s[i].0] == s[i].1,
        index_of(s, s[i].0) == i,
{
    let n = s[i].0;
    assert(binds(s, n));
    lemma_distinct(s, i, index_of(s, n));
}

proof fn lemma_update(s: Bindings, i: int, v: InfoView)
    requires
        ordered(s),
        0 <= i < s.len(),
    ensures
        ordered(s.update(i, (s[i].0, v))),
        bindings(s.update(i, (s[i].0, v))) == bindings(s).insert(s[i].0, v),
{
    let n = s[i].0;
    let t = s.update(i, (n, v));
    assert forall|a: int, b: int| 0 <= a < b < t.len() implies precedes(
        #[trigger] t[a].0,
        #[trigger] t[b].0,
    ) by {
        assert(precedes(s[a].0, s[b].0));
    }
    assert forall|k: Seq<char>| binds(t, k) == (k == n || binds(s, k)) by {
        if binds(t, k) {
            assert(s[index_of(t, k)].0 == k);
        }
        if binds(s, k) {
            assert(t[index_of(s, k)].0 == k);
        }
        if k == n {
            assert(t[i].0 == k);
        }
    }
    assert forall|k: Seq<char>| binds(t, k) implies #[trigger] bindings(t)[k] == bindings(
        s,
    ).insert(n, v)[k] by {
        let x = index_of(t, k);
        lemma_binding_at(t, x);
        if x != i {
            lemma_binding_at(s, x);
            if k == n {
                lemma_distinct(s, x, i);
            }
        }
    }
    assert(bindings(t) =~= bindings(s).insert(n, v));
}

proof fn lemma_insert(s: Bindings, i: int, n: Seq<char>, v: InfoView)
    requires
        ordered(s),
        0 <= i <= s.len(),
        forall|j: int| 0 <= j < i ==> precedes(#[trigger] s[j].0, n),
        forall|j: int| i <= j < s.len() ==> precedes(n, #[trigger] s[j].0),
    ensures
        ordered(s.insert(i, (n, v))),
        bindings(s.insert(i, (n, v))) == bindings(s).insert(n, v),
{
    let t = s.insert(i, (n, v));
    assert forall|a: int, b: int| 0 <= a < b < t.len() implies precedes(
        #[trigger] t[a].0,
        #[trigger] t[b].0,
    ) by {
        if b < i {
            assert(precedes(s[a].0, s[b].0));
        } else if b == i {
            assert(precedes(s[a].0, n));
        } else if a == i {
            assert(precedes(n, s[b - 1].0));
        } else if a < i {
            assert(precedes(s[a].0, s[b - 1].0));
        } else {
            assert(precedes(s[a - 1].0, s[b - 1].0));
        }
    }
    assert forall|k: Seq<char>| binds(t, k) == (k == n || binds(s, k)) by {
        if binds(t, k) && k != n {
            let x = index_of(t, k);
            if x < i {
                assert(s[x].0 == k);
            } else {
                assert(s[x - 1].0 == k);
            }
        }
        if binds(s, k) {
            let x = index_of(s, k);
            if x < i {
                assert(t[x].0 == k);
            } else {
                assert(t[x + 1].0 == k);
            }
        }
        if k == n {
            assert(t[i].0 == k);
        }
    }
    assert forall|k: Seq<char>| binds(t, k) implies #[trigger] bindings(t)[k] == bindings(
        s,
    ).insert(n, v)[k] by {
        let x = index_of(t, k);
        lemma_binding_at(t, x);
        if x < i {
            lemma_binding_at(s, x);
            lemma_precedes_irreflexive(n);
        } else if x > i {
            lemma_binding_at(s, x - 1);
            lemma_precedes_irreflexive(n);
        }
    }
    assert(bindings(t) =~= bindings(s).insert(n, v));
}

proof fn lemma_remove(s: Bindings, i: int)
    requires
        ordered(s),
        0 <= i < s.len(),
    ensures
        ordered(s.remove(i)),
        bindings(s.remove(i)) == bindings(s).remove(s[i].0),
{
    let n = s[i].0;
    let t = s.remove(i);
    assert forall|a: int, b: int| 0 <= a < b < t.len() implies precedes(
        #[trigger] t[a].0,
        #[trigger] t[b].0,
    ) by {
        let a0 = if a < i { a } else { a + 1 };
        let b0 = if b < i { b } else { b + 1 };
        assert(precedes(s[a0].0, s[b0].0));
    }
    assert forall|k: Seq<char>| binds(t, k) == (k != n && binds(s, k)) by {
        if binds(t, k) {
            let x = index_of(t, k);
            let x0 = if x < i { x } else { x + 1 };
            assert(s[x0].0 == k);
            if k == n {
                lemma_distinct(s, x0, i);
            }
        }
        if binds(s, k) && k != n {
            let x = index_of(s, k);
            if x < i {
                assert(t[x].0 == k);
            } else {
                assert(t[x - 1].0 == k);
            }
        }
    }
    assert forall|k: Seq<char>| binds(t, k) implies #[trigger] bindings(t)[k] == bindings(
        s,
    ).remove(n)[k] by {
        let x = index_of(t, k);
        lemma_binding_at(t, x);
        if x < i {
            lemma_binding_at(s, x);
        } else {
            lemma_binding_at(s, x + 1);
        }
    }
    assert(bindings(t) =~= bindings(s).remove(n));
}

/// The bindings that a vector of entries stands for.
pub open spec fn lift(v: Seq<(String, Info)>) -> Bindings {
    Seq::new(v.len(), |i: int| (v[i].0@, v[i].1@))
}

/// The dots by name.
#[derive(Debug, PartialEq, Eq)]
pub struct Dots {
    entries: Vec<(String, Info)>,
}

impl View for Dots {
    type V = Bindings;

    closed spec fn view(&self) -> Bindings {
        lift(self.entries@)
    }
}

impl Default for Dots {
    fn default() -> (r: Dots)
        ensures
            r@.len() == 0,
    {
        Dots::new()
    }
}

impl Dots {
    #[verifier::type_invariant]
    spec fn inv(self) -> bool {
        ordered(lift(self.entries@))
    }

    /// A registry without dots.
    pub fn new() -> (r: Dots)
        ensures
            r@.len() == 0,
    {
        Dots { entries: Vec::new() }
    }

    pub fn len(&self) -> (n: usize)
        ensures
            n == self@.len(),
    {
        self.entries.len()
    }

    /// The `i`-th binding in the order of names: its name and what it says.
    /// The order is part of what is promised.
    pub fn nth(&self, i: usize) -> (r: Option<(&str, &Info)>)
        ensures
            ordered(self@),
            match r {
                Some(b) => i < self@.len() && b.0@ == self@[i as int].0 && b.1@ == self@[i as int].1,
                None => i >= self@.len(),
            },
    {
        proof {
            use_type_invariant(self);
        }
        if i < self.entries.len() {
            Some((self.entries[i].0.as_str(), &self.entries[i].1))
        } else {
            None
        }
    }

    /// Where `name` stands, or would stand: the first place whose name does
    /// not come before it.
    fn place(&self, name: &str) -> (r: (usize, bool))
        ensures
            ordered(self@),
            r.0 <= self@.len(),
            forall|j: int| 0 <= j < r.0 ==> precedes(#[trigger] self@[j].0, name@),
            forall|j: int|
                r.0 <= j < self@.len() && !(r.1 && j == r.0) ==> precedes(
                    name@,
                    #[trigger] self@[j].0,
                ),
            r.1 ==> r.0 < self@.len() && self@[r.0 as int].0 == name@,
            r.1 == binds(self@, name@),
    {
        proof {
            use_type_invariant(self);
        }
        let ghost s = lift(self.entries@);
        let mut i: usize = 0;
        while i < self.entries.len() && lt(self.entries[i].0.as_str(), name)
            invariant
                i <= self.entries.len(),
                s == lift(self.entries@),
                forall|j: int| 0 <= j < i ==> precedes(#[trigger] s[j].0, name@),
            decreases self.entries.len() - i,
        {
            assert(s[i as int].0 == self.entries@[i as int].0@);
            i = i + 1;
        }
        let found = i < self.entries.len() && same(self.entries[i].0.as_str(), name);
        proof {
            if i < s.len() {
                assert(s[i as int].0 == self.entries@[i as int].0@);
            }
            assert forall|j: int| i <= j < s.len() && !(found && j == i) implies precedes(
                name@,
                #[trigger] s[j].0,
            ) by {
                if !found {
                    lemma_precedes_total(s[i as int].0, name@);
                    if j > i {
                        assert(precedes(s[i as int].0, s[j].0));
                        lemma_precedes_transitive(name@, s[i as int].0, s[j].0);
                    }
                } else {
                    assert(precedes(s[i as int].0, s[j].0));
                }
            }
            if found {
                assert(binds(s, name@));
            } else {
                lemma_precedes_irreflexive(name@);
                if binds(s, name@) {
                    let x = index_of(s, name@);
                    if x < i {
                        assert(precedes(s[x].0, name@));
                    } else {
                        assert(precedes(name@, s[x].0));
                    }
                }
            }
        }
        (i, found)
    }

    /// What the registry says of the dot called `name`.
    pub fn get(&self, name: &str) -> (r: Option<&Info>)
        ensures
            match r {
                Some(info) => bindings(self@).dom().contains(name@) && bindings(self@)[name@]
                    == info@,
                None => !bindings(self@).dom().contains(name@),
            },
    {
        let (i, found) = self.place(name);
        if found {
            proof {
                lemma_binding_at(self@, i as int);
            }
            Some(&self.entries[i].1)
        } else {
            None
        }
    }

    /// Binds `name` to `info`. The names stay in order; what `name` stood for
    /// before, if anything, is handed back.
    pub fn insert(&mut self, name: String, info: Info) -> (r: Option<Info>)
        ensures
            ordered(final(self)@),
            bindings(final(self)@) == bindings(old(self)@).insert(name@, info@),
            match r {
                Some(was) => bindings(old(self)@).dom().contains(name@) && bindings(
                    old(self)@,
                )[name@] == was@,
                None => !bindings(old(self)@).dom().contains(name@),
            },
    {
        let (i, found) = self.place(name.as_str());
        let ghost before = self@;
        let ghost n = name@;
        let ghost v = info@;
        let mut held: Vec<(String, Info)> = Vec::new();
        std::mem::swap(&mut self.entries, &mut held);
        assert(lift(held@) == before);
        if found {
            let was = held.remove(i);
            held.insert(i, (name, info));
            proof {
                lemma_binding_at(before, i as int);
                lemma_update(before, i as int, v);
                assert(lift(held@) =~= before.update(i as int, (n, v)));
            }
            std::mem::swap(&mut self.entries, &mut held);
            Some(was.1)
        } else {
            held.insert(i, (name, info));
            proof {
                lemma_insert(before, i as int, n, v);
                assert(lift(held@) =~= before.insert(i as int, (n, v)));
            }
            std::mem::swap(&mut self.entries, &mut held);
            None
        }
    }

    /// Takes the dot called `name` out and hands back what it said.
    pub fn remove(&mut self, name: &str) -> (r: Option<Info>)
        ensures
            ordered(final(self)@),
            bindings(final(self)@) == bindings(old(self)@).remove(name@),
            match r {
                Some(was) => bindings(old(self)@).dom().contains(name@) && bindings(
                    old(self)@,
                )[name@] == was@,
                None => !bindings(old(self)@).dom().contains(name@),
            },
    {
        let (i, found) = self.place(name);
        let ghost before = self@;
        if found {
            let mut held: Vec<(String, Info)> = Vec::new();
            std::mem::swap(&mut self.entries, &mut held);
            assert(lift(held@) == before);
            let was = held.remove(i);
            proof {
                lemma_binding_at(before, i as int);
                lemma_remove(before, i as int);
                assert(lift(held@) =~= before.remove(i as int));
            }
            std::mem::swap(&mut self.entries, &mut held);
            Some(was.1)
        } else {
            proof {
                assert(bindings(before) =~= bindings(before).remove(name@));
            }
            None
        }
    }
}

/// The dots of a registry, one after the other in the order of their names.
#[derive(Debug, PartialEq, Eq)]
pub struct Iter<'a> {
    pub dots: &'a Dots,
    pub pos: usize,
}

impl Dots {
    /// The dots from the first name on.
    pub fn iter(&self) -> (it: Iter<'_>)
        ensures
            it.dots == self,
            it.pos == 0,
            ordered(self@),
    {
        proof {
            use_type_invariant(self);
        }
        Iter { dots: self, pos: 0 }
    }
}

impl<'a> Iter<'a> {
    /// The next dot, as a resolution begun: its source is named by the entry,
    /// or is the dot's own name where the entry names only a destination.
    /// `None` once every dot was given.
    pub fn next(&mut self) -> (r: Option<Step>)
        ensures
            final(self).dots == old(self).dots,
            match r {
                Some(step) => {
                    let b = old(self).dots@[old(self).pos as int];
                    &&& old(self).pos < old(self).dots@.len()
                    &&& final(self).pos == old(self).pos + 1
                    &&& step@ == ResolveView::start(b.0, b.1.src(b.0), b.1.dest())
                },
                None => old(self).pos >= old(self).dots@.len() && final(self).pos == old(self).pos,
            },
    {
        let n = self.dots.len();
        match self.dots.nth(self.pos) {
            Some((name, info)) => {
                assert(self.pos < n);
                let step = Dot::new(name, info.src(name), info.dest());
                self.pos = self.pos + 1;
                Some(step)
            },
            None => None,
        }
    }
}

} // verus!
