//! Which entries of an archive hold building data.

use crate::text::{
    chars_of, free_of, join, lemma_join_split, lemma_split_join,
    lemma_split_pieces_hold_no_separator, range_is, split, split_ranges,
};
use vstd::prelude::*;

verus! {

/// The directory that holds the data of a model.
pub const DATA_DIRECTORY: &'static str = "udx";

/// The directory that holds the buildings.
pub const BUILDING_DIRECTORY: &'static str = "bldg";

/// What the name of a building file ends with.
pub const BUILDING_SUFFIX: &'static str = ".gml";

/// Whether `s` ends with `suffix`.
pub open spec fn ends_with(s: Seq<char>, suffix: Seq<char>) -> bool {
    s.len() >= suffix.len() && s.subrange(s.len() - suffix.len(), s.len() as int) == suffix
}

/// The paths of building files: four parts between slashes, the second and third
/// the data directory and the building directory, the fourth with the suffix of a
/// building file.
pub open spec fn is_building_path(path: Seq<char>) -> bool {
    let parts = split(path, '/');
    &&& parts.len() == 4
    &&& parts[1] == DATA_DIRECTORY@
    &&& parts[2] == BUILDING_DIRECTORY@
    &&& ends_with(parts[3], BUILDING_SUFFIX@)
}

/// Whether the archive entry at `path` is a building file.
pub fn is_building_entry(path: &str) -> (selected: bool)
    ensures
        selected == is_building_path(path@),
{
    let chars = chars_of(path);
    let parts = split_ranges(&chars, '/');
    if parts.len() != 4 {
        return false;
    }
    let suffix = chars_of(BUILDING_SUFFIX);
    let (from, to) = parts[3];
    let ghost last = chars@.subrange(from as int, to as int);
    if !range_is(&chars, parts[1].0, parts[1].1, DATA_DIRECTORY) || !range_is(
        &chars,
        parts[2].0,
        parts[2].1,
        BUILDING_DIRECTORY,
    ) || to - from < suffix.len() {
        return false;
    }
    assert(chars@.subrange(to - suffix.len(), to as int) == last.subrange(
        last.len() - suffix.len(),
        last.len() as int,
    ));
    range_is(&chars, to - suffix.len(), to, BUILDING_SUFFIX)
}

/// The path of the file `file` among the buildings of the model `model`.
pub open spec fn building_path(model: Seq<char>, file: Seq<char>) -> Seq<char> {
    join(seq![model, DATA_DIRECTORY@, BUILDING_DIRECTORY@, file], '/')
}

/// The paths of building files are the paths of files with the suffix of a building
/// file in the building directory of some model, the names of model and file being
/// free of slashes.
pub proof fn lemma_building_paths(path: Seq<char>)
    ensures
        is_building_path(path) <==> exists|model: Seq<char>, file: Seq<char>|
            #[trigger] building_path(model, file) == path && free_of(model, '/') && free_of(
                file,
                '/',
            ) && ends_with(file, BUILDING_SUFFIX@),
{
    reveal_strlit("udx");
    reveal_strlit("bldg");
    let parts = split(path, '/');
    if is_building_path(path) {
        lemma_join_split(path, '/');
        assert(parts =~= seq![parts[0], DATA_DIRECTORY@, BUILDING_DIRECTORY@, parts[3]]);
        assert forall|i: int| 0 <= i < parts[0].len() implies parts[0][i] != '/' by {
            lemma_split_pieces_hold_no_separator(path, '/', 0, i);
        }
        assert forall|i: int| 0 <= i < parts[3].len() implies parts[3][i] != '/' by {
            lemma_split_pieces_hold_no_separator(path, '/', 3, i);
        }
        assert(building_path(parts[0], parts[3]) == path);
    }
    if exists|model: Seq<char>, file: Seq<char>|
        #[trigger] building_path(model, file) == path && free_of(model, '/') && free_of(file, '/')
            && ends_with(file, BUILDING_SUFFIX@) {
        let (model, file) = choose|model: Seq<char>, file: Seq<char>|
            #[trigger] building_path(model, file) == path && free_of(model, '/') && free_of(
                file,
                '/',
            ) && ends_with(file, BUILDING_SUFFIX@);
        let pieces = seq![model, DATA_DIRECTORY@, BUILDING_DIRECTORY@, file];
        assert forall|k: int| 0 <= k < pieces.len() implies free_of(#[trigger] pieces[k], '/') by {}
        lemma_split_join(pieces, '/');
    }
}

} // verus!
