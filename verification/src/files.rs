//! What the steps of the organiser mean for the files on disk.
//!
//! Nothing here runs. The file system is taken as a map from files to their
//! content, and `locate` says which file a place names: two places may name
//! one file, as when a rule moves files into the watched directory itself.
//! Renaming follows POSIX: the file is afterwards found at the new place
//! and no longer at the old one, what was at the new place is gone, and
//! renaming a file to itself, or a file that is not there, changes nothing.
//! Writing an entry of an archive puts its bytes in place of whatever the
//! file held; making a directory changes the content of no file.

use crate::archive::{ArchiveEntryView, ExtractionView, UnpackingView};
use crate::moves::{RelocationView, StepView};
use crate::place::PlaceView;
use crate::rules::DuplicateAction;
use vstd::prelude::*;

verus! {

/// The files after the file `from` is renamed to `to`.
pub open spec fn renamed(files: Map<int, Seq<u8>>, from: int, to: int) -> Map<int, Seq<u8>> {
    if files.dom().contains(from) && from != to {
        files.remove(from).insert(to, files[from])
    } else {
        files
    }
}

/// The files after the file `at` is removed.
pub open spec fn removed(files: Map<int, Seq<u8>>, at: int) -> Map<int, Seq<u8>> {
    files.remove(at)
}

impl StepView {
    /// The files after the step is carried out.
    pub open spec fn carried_out(
        self,
        files: Map<int, Seq<u8>>,
        locate: spec_fn(PlaceView) -> int,
    ) -> Map<int, Seq<u8>> {
        match self {
            StepView::Leave => files,
            StepView::Rename { from, to } => renamed(files, locate(from), locate(to)),
        }
    }
}

/// A move onto a file that is to be overwritten leaves the target with the
/// content of the source, and nothing at the source. Source and target are
/// taken to be two files.
pub proof fn law_overwrite_replaces_target(
    relocation: RelocationView,
    stamp: Seq<char>,
    files: Map<int, Seq<u8>>,
    locate: spec_fn(PlaceView) -> int,
)
    requires
        relocation.duplicate == DuplicateAction::Overwrite,
        files.dom().contains(locate(relocation.source)),
        files.dom().contains(locate(relocation.target)),
        locate(relocation.source) != locate(relocation.target),
    ensures
        ({
            let after = relocation.step(true, stamp).carried_out(files, locate);
            &&& after.dom().contains(locate(relocation.target))
            &&& after[locate(relocation.target)] == files[locate(relocation.source)]
            &&& !after.dom().contains(locate(relocation.source))
        }),
{
}

/// A move onto a file that is to be skipped changes no file: the source stays
/// where it is, and the target is as it was.
pub proof fn law_skip_changes_nothing(
    relocation: RelocationView,
    stamp: Seq<char>,
    files: Map<int, Seq<u8>>,
    locate: spec_fn(PlaceView) -> int,
)
    requires
        relocation.duplicate == DuplicateAction::Skip,
    ensures
        relocation.step(true, stamp) == StepView::Leave,
        relocation.step(true, stamp).carried_out(files, locate) == files,
{
}

/// A move onto a file that is to be kept puts the content of the source beside
/// the target, under the name of the target with the time and two underscores
/// before it, and leaves the target as it was. Source and target are taken to
/// be two files, and the new place not to be the target.
pub proof fn law_rename_date_keeps_target(
    relocation: RelocationView,
    stamp: Seq<char>,
    files: Map<int, Seq<u8>>,
    locate: spec_fn(PlaceView) -> int,
)
    requires
        relocation.duplicate == DuplicateAction::RenameDate,
        files.dom().contains(locate(relocation.source)),
        files.dom().contains(locate(relocation.target)),
        locate(relocation.source) != locate(relocation.target),
        locate(relocation.beside(stamp)) != locate(relocation.target),
    ensures
        ({
            let after = relocation.step(true, stamp).carried_out(files, locate);
            let beside = relocation.beside(stamp);
            &&& beside.root == relocation.target.root
            &&& beside.dir == relocation.target.dir
            &&& beside.name == stamp + seq!['_', '_'] + relocation.target.name
            &&& after.dom().contains(locate(beside))
            &&& after[locate(beside)] == files[locate(relocation.source)]
            &&& after.dom().contains(locate(relocation.target))
            &&& after[locate(relocation.target)] == files[locate(relocation.target)]
        }),
{
}

/// A move to a place where no file is puts the content of the source there,
/// whatever is to be done about duplicates.
pub proof fn law_free_target_is_taken(
    relocation: RelocationView,
    stamp: Seq<char>,
    files: Map<int, Seq<u8>>,
    locate: spec_fn(PlaceView) -> int,
)
    requires
        files.dom().contains(locate(relocation.source)),
        !files.dom().contains(locate(relocation.target)),
    ensures
        ({
            let after = relocation.step(false, stamp).carried_out(files, locate);
            &&& after.dom().contains(locate(relocation.target))
            &&& after[locate(relocation.target)] == files[locate(relocation.source)]
            &&& !after.dom().contains(locate(relocation.source))
        }),
{
}

/// The name that a file gets beside a duplicate is never the name of the
/// duplicate.
pub proof fn law_stamped_name_differs(relocation: RelocationView, stamp: Seq<char>)
    ensures
        relocation.beside(stamp) != relocation.target,
{
    assert(relocation.beside(stamp).name.len() > relocation.target.name.len());
}

/// Once a file is removed, nothing is at its place.
pub proof fn law_delete_removes_source(
    source: PlaceView,
    files: Map<int, Seq<u8>>,
    locate: spec_fn(PlaceView) -> int,
)
    ensures
        !removed(files, locate(source)).dom().contains(locate(source)),
{
}

impl ExtractionView {
    /// The files after the extraction is carried out for an entry that holds
    /// the bytes `content`.
    pub open spec fn carried_out(
        self,
        content: Seq<u8>,
        files: Map<int, Seq<u8>>,
        locate: spec_fn(PlaceView) -> int,
    ) -> Map<int, Seq<u8>> {
        match self {
            ExtractionView::Skip => files,
            ExtractionView::Directory { .. } => files,
            ExtractionView::File { place, .. } => files.insert(locate(place), content),
        }
    }

    /// Whether the extraction writes the file `file`.
    pub open spec fn writes(self, file: int, locate: spec_fn(PlaceView) -> int) -> bool {
        self matches ExtractionView::File { place, .. } && locate(place) == file
    }
}

impl UnpackingView {
    /// The files after the entries `entries`, each with the bytes it holds, are
    /// unpacked in their order.
    pub open spec fn unpacked(
        self,
        entries: Seq<(ArchiveEntryView, Seq<u8>)>,
        files: Map<int, Seq<u8>>,
        locate: spec_fn(PlaceView) -> int,
    ) -> Map<int, Seq<u8>>
        decreases entries.len(),
    {
        if entries.len() == 0 {
            files
        } else {
            let last = entries.last();
            self.extraction(last.0).carried_out(
                last.1,
                self.unpacked(entries.drop_last(), files, locate),
                locate,
            )
        }
    }
}

/// An entry that is written is afterwards found below the destination, at the
/// path that the archive gives it, with the bytes that it holds; every other
/// file is as it was. An entry that is left out, and a directory, change no
/// file.
pub proof fn law_entry_is_written(
    unpacking: UnpackingView,
    entry: ArchiveEntryView,
    content: Seq<u8>,
    files: Map<int, Seq<u8>>,
    locate: spec_fn(PlaceView) -> int,
)
    ensures
        ({
            let after = unpacking.extraction(entry).carried_out(content, files, locate);
            match unpacking.extraction(entry) {
                ExtractionView::File { place, .. } => {
                    &&& place.root == unpacking.root
                    &&& place.dir == unpacking.dest
                    &&& entry.enclosed_name == Some(place.name)
                    &&& after.dom().contains(locate(place))
                    &&& after[locate(place)] == content
                    &&& forall|file: int|
                        file != locate(place) ==> (after.dom().contains(file) == files.dom().contains(
                            file,
                        ) && after[file] == files[file])
                },
                _ => after == files,
            }
        }),
{
}

/// A file that no entry is written to is, after the archive is unpacked, as
/// it was.
pub proof fn law_unwritten_file_is_kept(
    unpacking: UnpackingView,
    entries: Seq<(ArchiveEntryView, Seq<u8>)>,
    file: int,
    files: Map<int, Seq<u8>>,
    locate: spec_fn(PlaceView) -> int,
)
    requires
        forall|j: int|
            0 <= j < entries.len() ==> !unpacking.extraction((#[trigger] entries[j]).0).writes(
                file,
                locate,
            ),
    ensures
        unpacking.unpacked(entries, files, locate).dom().contains(file) == files.dom().contains(
            file,
        ),
        unpacking.unpacked(entries, files, locate)[file] == files[file],
    decreases entries.len(),
{
    if entries.len() > 0 {
        let front = entries.drop_last();
        assert forall|j: int| 0 <= j < front.len() implies !unpacking.extraction(
            (#[trigger] front[j]).0,
        ).writes(file, locate) by {
            assert(front[j] == entries[j]);
        }
        law_unwritten_file_is_kept(unpacking, front, file, files, locate);
        assert(!unpacking.extraction(entries[entries.len() - 1].0).writes(file, locate));
    }
}

/// Unpacking does not take the archive away: unless an entry is written onto
/// it, the archive is afterwards where it was, with the content it had.
pub proof fn law_unpacking_keeps_archive(
    unpacking: UnpackingView,
    entries: Seq<(ArchiveEntryView, Seq<u8>)>,
    files: Map<int, Seq<u8>>,
    locate: spec_fn(PlaceView) -> int,
)
    requires
        files.dom().contains(locate(unpacking.archive)),
        forall|j: int|
            0 <= j < entries.len() ==> !unpacking.extraction((#[trigger] entries[j]).0).writes(
                locate(unpacking.archive),
                locate,
            ),
    ensures
        unpacking.unpacked(entries, files, locate).dom().contains(locate(unpacking.archive)),
        unpacking.unpacked(entries, files, locate)[locate(unpacking.archive)] == files[locate(
            unpacking.archive,
        )],
{
    law_unwritten_file_is_kept(unpacking, entries, locate(unpacking.archive), files, locate);
}

/// Unpacking gives back what was packed: after the archive is unpacked, the
/// file of an entry that is written holds the bytes of that entry, at the path
/// that the archive gives it below the destination, unless a later entry is
/// written to the same file.
pub proof fn law_unpacking_round_trip(
    unpacking: UnpackingView,
    entries: Seq<(ArchiveEntryView, Seq<u8>)>,
    i: int,
    files: Map<int, Seq<u8>>,
    locate: spec_fn(PlaceView) -> int,
)
    requires
        0 <= i < entries.len(),
        unpacking.extraction(entries[i].0) is File,
        forall|j: int|
            i < j < entries.len() ==> !unpacking.extraction((#[trigger] entries[j]).0).writes(
                locate(unpacking.extraction(entries[i].0)->File_place),
                locate,
            ),
    ensures
        ({
            let place = unpacking.extraction(entries[i].0)->File_place;
            let after = unpacking.unpacked(entries, files, locate);
            &&& place.root == unpacking.root
            &&& place.dir == unpacking.dest
            &&& entries[i].0.enclosed_name == Some(place.name)
            &&& after.dom().contains(locate(place))
            &&& after[locate(place)] == entries[i].1
        }),
    decreases entries.len(),
{
    let file = locate(unpacking.extraction(entries[i].0)->File_place);
    let front = entries.drop_last();
    if i < entries.len() - 1 {
        assert(front[i] == entries[i]);
        assert forall|j: int| i < j < front.len() implies !unpacking.extraction(
            (#[trigger] front[j]).0,
        ).writes(file, locate) by {
            assert(front[j] == entries[j]);
        }
        law_unpacking_round_trip(unpacking, front, i, files, locate);
        assert(!unpacking.extraction(entries[entries.len() - 1].0).writes(file, locate));
    }
}

} // verus!
