//! Where files are: a root directory, a directory below it, and a name.

use vstd::prelude::*;

verus! {

/// The file or directory `name` in the directory `dir` below `root`. The
/// path is had by joining the three, in this order.
#[derive(Debug, PartialEq, Eq)]
pub struct Place {
    pub root: String,
    pub dir: String,
    pub name: String,
}

/// A `Place`, its parts as sequences of characters.
pub struct PlaceView {
    pub root: Seq<char>,
    pub dir: Seq<char>,
    pub name: Seq<char>,
}

impl View for Place {
    type V = PlaceView;

    open spec fn view(&self) -> PlaceView {
        PlaceView { root: self.root@, dir: self.dir@, name: self.name@ }
    }
}

impl Clone for Place {
    fn clone(&self) -> (place: Place)
        ensures
            place@ == self@,
    {
        Place { root: self.root.clone(), dir: self.dir.clone(), name: self.name.clone() }
    }
}

impl Place {
    /// The place `name` in `dir` below `root`.
    pub fn new(root: &str, dir: &str, name: &str) -> (place: Place)
        ensures
            place@ == (PlaceView { root: root@, dir: dir@, name: name@ }),
    {
        Place { root: root.to_owned(), dir: dir.to_owned(), name: name.to_owned() }
    }
}

} // verus!
