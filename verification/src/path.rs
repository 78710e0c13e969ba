//! Places in a file system, as a base and the names that lead on from it.

use vstd::prelude::*;

use crate::text::texts;

verus! {

/// A place: a directory as the base, and the names that lead on from it.
#[verifier::ext_equal]
pub struct Place {
    pub base: Seq<char>,
    pub parts: Seq<Seq<char>>,
}

impl Place {
    /// The place `name` in this one.
    pub open spec fn join(self, name: Seq<char>) -> Place {
        Place { base: self.base, parts: self.parts.push(name) }
    }
}

/// The place with no names after the base.
pub open spec fn place_at(base: Seq<char>) -> Place {
    Place { base, parts: Seq::empty() }
}

/// A path of the file system: a directory as the base, and the names that lead on from
/// it.
pub struct LocalPath {
    pub base: String,
    pub parts: Vec<String>,
}

impl View for LocalPath {
    type V = Place;

    open spec fn view(&self) -> Place {
        Place { base: self.base@, parts: texts(self.parts@) }
    }
}

impl LocalPath {
    /// The path of a base alone.
    pub fn at(base: &str) -> (r: LocalPath)
        ensures
            r@ == place_at(base@),
    {
        let parts: Vec<String> = Vec::new();
        assert(texts(parts@) =~= Seq::<Seq<char>>::empty());
        LocalPath { base: base.to_owned(), parts }
    }

    /// The path of `name` in this directory.
    pub fn join(self, name: &str) -> (r: LocalPath)
        ensures
            r@ == self@.join(name@),
    {
        let mut parts = self.parts;
        let ghost before = parts@;
        parts.push(name.to_owned());
        assert(texts(parts@) =~= texts(before).push(name@));
        LocalPath { base: self.base, parts }
    }

    /// A copy of this path.
    pub fn copy(&self) -> (r: LocalPath)
        ensures
            r@ == self@,
    {
        let mut r = LocalPath::at(self.base.as_str());
        let mut i: usize = 0;
        while i < self.parts.len()
            invariant
                i <= self.parts.len(),
                r@.base == self@.base,
                r@.parts == self@.parts.take(i as int),
            decreases self.parts.len() - i,
        {
            assert(self@.parts.take(i + 1) =~= self@.parts.take(i as int).push(
                self@.parts[i as int],
            ));
            r = r.join(self.parts[i].as_str());
            i = i + 1;
        }
        assert(self@.parts.take(self.parts@.len() as int) =~= self@.parts);
        r
    }
}

/// The first position at which something was found.
pub open spec fn first_true(v: Seq<bool>) -> Option<int>
    decreases v.len(),
{
    if v.len() == 0 {
        None
    } else if v[0] {
        Some(0)
    } else {
        match first_true(v.skip(1)) {
            Some(i) => Some(i + 1),
            None => None,
        }
    }
}

/// The first position at which something was found.
pub fn first_found(v: &Vec<bool>) -> (r: Option<usize>)
    ensures
        match r {
            Some(i) => first_true(v@) == Some(i as int) && i < v@.len(),
            None => first_true(v@) is None,
        },
{
    let mut i: usize = 0;
    assert(v@.skip(0) =~= v@);
    while i < v.len()
        invariant
            i <= v.len(),
            first_true(v@) == match first_true(v@.skip(i as int)) {
                Some(k) => Some(k + i),
                None => None,
            },
        decreases v.len() - i,
    {
        proof {
            assert(v@.skip(i as int)[0] == v@[i as int]);
            assert(v@.skip(i as int).skip(1) =~= v@.skip(i + 1));
        }
        if v[i] {
            return Some(i);
        }
        i = i + 1;
    }
    assert(v@.skip(i as int) =~= Seq::<bool>::empty());
    None
}

} // verus!
