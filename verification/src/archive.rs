//! Unpacking an archive: where each entry goes, and which entries are left
//! out because their paths lead out of the destination.
//!
//! The path of an entry is read as segments separated by `/`. An empty
//! segment and `.` stay in the directory reached so far, `..` goes one up,
//! and every other segment goes one down. A path is confined when it does not
//! start at the root of the file system, holds no NUL character, and at no
//! segment goes above the directory in which it started.

use crate::place::{Place, PlaceView};
use crate::text::chars_of;
use vstd::prelude::*;

verus! {

/// The length of the first segment of `path`: the number of characters before
/// its first `/`.
pub open spec fn segment_len(path: Seq<char>) -> nat
    decreases path.len(),
{
    if path.len() == 0 || path[0] == '/' {
        0
    } else {
        1 + segment_len(path.skip(1))
    }
}

/// The depth that the segment `segment` leads to from the depth `depth`, if it
/// does not lead above depth zero.
pub open spec fn depth_after(segment: Seq<char>, depth: nat) -> Option<nat> {
    if segment =~= seq![] || segment =~= seq!['.'] {
        Some(depth)
    } else if segment =~= seq!['.', '.'] {
        if depth > 0 {
            Some((depth - 1) as nat)
        } else {
            None
        }
    } else {
        Some(depth + 1)
    }
}

/// Whether the segments of `path`, walked from `depth` directories below some
/// directory, never lead above that directory.
pub open spec fn stays_below(path: Seq<char>, depth: nat) -> bool
    decreases path.len(),
{
    let len = segment_len(path) as int;
    match depth_after(path.take(len), depth) {
        None => false,
        Some(next) => len >= path.len() || stays_below(path.skip(len + 1), next),
    }
}

/// Whether `path`, taken from a directory, names something in or below it.
pub open spec fn confined(path: Seq<char>) -> bool {
    &&& forall|i: int| 0 <= i < path.len() ==> #[trigger] path[i] != '\0'
    &&& !(path.len() > 0 && path[0] == '/')
    &&& stays_below(path, 0)
}

/// The directories passed on the way from the top to where `path` leads, when
/// it is walked segment by segment from the directories `from`. No segment is
/// taken for a link, and `..` at the top stays at the top.
pub open spec fn walked(path: Seq<char>, from: Seq<Seq<char>>) -> Seq<Seq<char>>
    decreases path.len(),
{
    let len = segment_len(path) as int;
    let segment = path.take(len);
    let next = if segment =~= seq![] || segment =~= seq!['.'] {
        from
    } else if segment =~= seq!['.', '.'] {
        if from.len() > 0 {
            from.drop_last()
        } else {
            from
        }
    } else {
        from.push(segment)
    };
    if len >= path.len() {
        next
    } else {
        walked(path.skip(len + 1), next)
    }
}

proof fn lemma_walk_stays_below(
    path: Seq<char>,
    depth: nat,
    base: Seq<Seq<char>>,
    from: Seq<Seq<char>>,
)
    requires
        stays_below(path, depth),
        from.len() == base.len() + depth,
        base.is_prefix_of(from),
    ensures
        base.is_prefix_of(walked(path, from)),
    decreases path.len(),
{
    let len = segment_len(path) as int;
    let segment = path.take(len);
    let next = if segment =~= seq![] || segment =~= seq!['.'] {
        from
    } else if segment =~= seq!['.', '.'] {
        from.drop_last()
    } else {
        from.push(segment)
    };
    let below = depth_after(segment, depth)->0;
    if len < path.len() {
        lemma_walk_stays_below(path.skip(len + 1), below, base, next);
    }
}

/// A confined path, walked from a directory, leads to that directory or below
/// it: the way from the top to where it leads starts with the way to that
/// directory.
pub proof fn law_confined_stays_below(path: Seq<char>, base: Seq<Seq<char>>)
    requires
        confined(path),
    ensures
        base.is_prefix_of(walked(path, base)),
{
    lemma_walk_stays_below(path, 0, base, base);
}

proof fn lemma_segment_len(path: Seq<char>, n: int)
    requires
        0 <= n <= path.len(),
        forall|i: int| 0 <= i < n ==> #[trigger] path[i] != '/',
        n < path.len() ==> path[n] == '/',
    ensures
        segment_len(path) == n,
    decreases n,
{
    if n > 0 {
        let rest = path.skip(1);
        assert(forall|i: int| 0 <= i < n - 1 ==> #[trigger] rest[i] != '/');
        lemma_segment_len(rest, n - 1);
    }
}

/// Whether `path` is confined.
pub fn is_confined(path: &str) -> (r: bool)
    ensures
        r == confined(path@),
{
    let chars = chars_of(path);
    let len: usize = chars.len();
    if len > 0 && chars[0] == '/' {
        return false;
    }
    let mut start: usize = 0;
    let mut depth: usize = 0;
    assert(chars@.skip(0) =~= chars@);
    loop
        invariant
            chars@ == path@,
            len == chars@.len(),
            !(len > 0 && chars@[0] == '/'),
            start <= len,
            depth <= start,
            forall|i: int| 0 <= i < start ==> #[trigger] chars@[i] != '\0',
            stays_below(chars@, 0) == stays_below(chars@.skip(start as int), depth as nat),
        decreases len - start,
    {
        let ghost rest = chars@.skip(start as int);
        let mut end: usize = start;
        let mut dots: bool = true;
        while end < len && chars[end] != '/'
            invariant
                chars@ == path@,
                len == chars@.len(),
                start <= end <= len,
                forall|i: int| 0 <= i < end ==> #[trigger] chars@[i] != '\0',
                forall|i: int| start <= i < end ==> #[trigger] chars@[i] != '/',
                dots <==> forall|i: int| start <= i < end ==> #[trigger] chars@[i] == '.',
            decreases len - end,
        {
            if chars[end] == '\0' {
                return false;
            }
            if chars[end] != '.' {
                dots = false;
            }
            end = end + 1;
        }
        let width: usize = end - start;
        let ghost head = rest.take(width as int);
        proof {
            assert forall|i: int| 0 <= i < width implies #[trigger] rest[i] != '/' by {
                assert(rest[i] == chars@[start + i]);
            }
            lemma_segment_len(rest, width as int);
            assert(forall|i: int| 0 <= i < width ==> head[i] == chars@[start + i]);
            if width == 1 {
                assert(dots <==> head =~= seq!['.']) by {
                    assert(head[0] == chars@[start as int]);
                }
            }
            if width == 2 {
                assert(dots <==> head =~= seq!['.', '.']) by {
                    assert(head[0] == chars@[start as int]);
                    assert(head[1] == chars@[start + 1]);
                }
            }
        }
        if width == 0 || (width == 1 && dots) {
        } else if width == 2 && dots {
            if depth == 0 {
                return false;
            }
            depth = depth - 1;
        } else {
            depth = depth + 1;
        }
        if end == len {
            return true;
        }
        proof {
            assert(rest.skip(width + 1) =~= chars@.skip(end + 1));
        }
        start = end + 1;
    }
}

/// What the archive says of one entry.
#[derive(Debug, PartialEq, Eq)]
pub struct ArchiveEntry {
    /// The name under which the entry is stored.
    pub name: String,
    /// The path that the entry is to get below the destination, where the
    /// reader of the archive found that path fit for use.
    pub enclosed_name: Option<String>,
    /// The permission bits that the entry records, if it records any.
    pub unix_mode: Option<u32>,
}

/// An `ArchiveEntry`, its texts as sequences of characters.
pub struct ArchiveEntryView {
    pub name: Seq<char>,
    pub enclosed_name: Option<Seq<char>>,
    pub unix_mode: Option<u32>,
}

impl View for ArchiveEntry {
    type V = ArchiveEntryView;

    open spec fn view(&self) -> ArchiveEntryView {
        ArchiveEntryView {
            name: self.name@,
            enclosed_name: match self.enclosed_name {
                Some(path) => Some(path@),
                None => None,
            },
            unix_mode: self.unix_mode,
        }
    }
}

/// What is to be done with one entry of an archive.
#[derive(Debug, PartialEq, Eq)]
pub enum Extraction {
    /// Nothing: the entry is left out.
    Skip,
    /// The directory `place` is made, with the directories above it that are
    /// missing, and then given the permission bits `mode`, if there are any.
    Directory { place: Place, mode: Option<u32> },
    /// The directories above `place` that are missing are made, the content of
    /// the entry is written to the file `place`, and the file is then given the
    /// permission bits `mode`, if there are any.
    File { place: Place, mode: Option<u32> },
}

/// An `Extraction`, its places as sequences of characters.
pub enum ExtractionView {
    Skip,
    Directory { place: PlaceView, mode: Option<u32> },
    File { place: PlaceView, mode: Option<u32> },
}

impl View for Extraction {
    type V = ExtractionView;

    open spec fn view(&self) -> ExtractionView {
        match self {
            Extraction::Skip => ExtractionView::Skip,
            Extraction::Directory { place, mode } => ExtractionView::Directory {
                place: place@,
                mode: *mode,
            },
            Extraction::File { place, mode } => ExtractionView::File { place: place@, mode: *mode },
        }
    }
}

impl ExtractionView {
    /// Whether whatever is written is written to a confined path below `dir` in
    /// `root`.
    pub open spec fn stays_within(self, root: Seq<char>, dir: Seq<char>) -> bool {
        match self {
            ExtractionView::Skip => true,
            ExtractionView::Directory { place, .. } | ExtractionView::File { place, .. } => {
                &&& place.root == root
                &&& place.dir == dir
                &&& confined(place.name)
            },
        }
    }
}

/// Whether the entry stored as `name` stands for a directory.
pub open spec fn names_directory(name: Seq<char>) -> bool {
    name.len() > 0 && name.last() == '/'
}

/// An archive that is unpacked into the directory `dest` below `root`.
#[derive(Debug, PartialEq, Eq)]
pub struct Unpacking {
    pub archive: Place,
    pub root: String,
    pub dest: String,
}

/// An `Unpacking`, its texts as sequences of characters.
pub struct UnpackingView {
    pub archive: PlaceView,
    pub root: Seq<char>,
    pub dest: Seq<char>,
}

impl View for Unpacking {
    type V = UnpackingView;

    open spec fn view(&self) -> UnpackingView {
        UnpackingView { archive: self.archive@, root: self.root@, dest: self.dest@ }
    }
}

impl UnpackingView {
    /// What is to be done with `entry`: nothing, where it has no path below
    /// the destination or that path is not confined; else a directory is made
    /// or a file is written there, as the stored name says.
    pub open spec fn extraction(self, entry: ArchiveEntryView) -> ExtractionView {
        match entry.enclosed_name {
            None => ExtractionView::Skip,
            Some(path) => {
                let place = PlaceView { root: self.root, dir: self.dest, name: path };
                if !confined(path) {
                    ExtractionView::Skip
                } else if names_directory(entry.name) {
                    ExtractionView::Directory { place, mode: entry.unix_mode }
                } else {
                    ExtractionView::File { place, mode: entry.unix_mode }
                }
            },
        }
    }
}

fn ends_with_slash(name: &str) -> (r: bool)
    ensures
        r == names_directory(name@),
{
    let chars = chars_of(name);
    chars.len() > 0 && chars[chars.len() - 1] == '/'
}

impl Unpacking {
    /// What is to be done with `entry`. An entry without a path that the reader
    /// of the archive found fit, or whose path is not confined, is left out; no
    /// other is.
    pub fn plan_entry(&self, entry: &ArchiveEntry) -> (r: Extraction)
        ensures
            r@ == self@.extraction(entry@),
            r@.stays_within(self.root@, self.dest@),
    {
        match &entry.enclosed_name {
            None => Extraction::Skip,
            Some(path) => {
                if !is_confined(path.as_str()) {
                    Extraction::Skip
                } else {
                    let place = Place::new(self.root.as_str(), self.dest.as_str(), path.as_str());
                    if ends_with_slash(entry.name.as_str()) {
                        Extraction::Directory { place, mode: entry.unix_mode }
                    } else {
                        Extraction::File { place, mode: entry.unix_mode }
                    }
                }
            },
        }
    }
}

/// Nothing is written outside the destination. An entry whose path is not
/// confined is left out; the path of every other entry, walked from the
/// destination, leads to the destination or below it.
pub proof fn law_extraction_stays_inside(
    unpacking: UnpackingView,
    entry: ArchiveEntryView,
    destination: Seq<Seq<char>>,
)
    ensures
        entry.enclosed_name matches Some(path) && !confined(path) ==> unpacking.extraction(entry)
            is Skip,
        match unpacking.extraction(entry) {
            ExtractionView::Skip => true,
            ExtractionView::Directory { place, .. } | ExtractionView::File { place, .. } => {
                &&& place.root == unpacking.root
                &&& place.dir == unpacking.dest
                &&& entry.enclosed_name == Some(place.name)
                &&& destination.is_prefix_of(walked(place.name, destination))
            },
        },
{
    if let Some(path) = entry.enclosed_name {
        if confined(path) {
            law_confined_stays_below(path, destination);
        }
    }
}

} // verus!
