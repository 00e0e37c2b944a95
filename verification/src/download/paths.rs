//! Where a download is kept while it is incomplete.
use vstd::prelude::*;

verus! {

/// The suffix that marks a file as an unfinished download.
pub open spec fn part_suffix() -> Seq<char> {
    seq!['.', 'p', 'a', 'r', 't']
}

/// The temporary place of the download that is to end up at `path`.
pub open spec fn part_path_of(path: Seq<char>) -> Seq<char> {
    path + part_suffix()
}

/// Whether `path` names an unfinished download.
pub open spec fn is_part_path(path: Seq<char>) -> bool {
    path.len() >= part_suffix().len() && path.subrange(
        path.len() - part_suffix().len(),
        path.len() as int,
    ) == part_suffix()
}

/// The place to which the finished download at `temp_path` is moved: the
/// path without its suffix, or the path itself where it has none.
pub open spec fn final_path_of(temp_path: Seq<char>) -> Seq<char> {
    if is_part_path(temp_path) {
        temp_path.subrange(0, temp_path.len() - part_suffix().len())
    } else {
        temp_path
    }
}

/// The temporary place of the download that is to end up at `path`.
pub fn part_path(path: &str) -> (temp_path: String)
    ensures
        temp_path@ == part_path_of(path@),
{
    proof {
        reveal_strlit(".part");
        assert(".part"@ =~= part_suffix());
    }
    path.to_owned().concat(".part")
}

/// The place to which the finished download at `temp_path` is moved.
pub fn final_path(temp_path: &str) -> (path: String)
    ensures
        path@ == final_path_of(temp_path@),
{
    let n: usize = temp_path.unicode_len();
    if n >= 5 && temp_path.get_char(n - 5) == '.' && temp_path.get_char(n - 4) == 'p'
        && temp_path.get_char(n - 3) == 'a' && temp_path.get_char(n - 2) == 'r'
        && temp_path.get_char(n - 1) == 't' {
        assert(temp_path@.subrange(n - 5, n as int) =~= part_suffix());
        temp_path.substring_char(0, n - 5).to_owned()
    } else {
        assert(!is_part_path(temp_path@)) by {
            if is_part_path(temp_path@) {
                let tail = temp_path@.subrange(n - 5, n as int);
                assert(tail[0] == '.' && tail[1] == 'p' && tail[2] == 'a' && tail[3] == 'r'
                    && tail[4] == 't');
            }
        }
        temp_path.to_owned()
    }
}

/// Moving a finished download gives back the path that was asked for.
pub proof fn lemma_final_of_part(path: Seq<char>)
    ensures
        is_part_path(part_path_of(path)),
        final_path_of(part_path_of(path)) == path,
{
    let temp = part_path_of(path);
    assert(temp.subrange(temp.len() - 5, temp.len() as int) =~= part_suffix());
    assert(temp.subrange(0, temp.len() - 5) =~= path);
}

} // verus!
