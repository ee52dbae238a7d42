//! Paths as text: segments separated by `/`.

use vstd::prelude::*;
use vstd::string::*;

verus! {

/// The character that separates the segments of a path.
pub open spec fn separator() -> char {
    '/'
}

/// Where the final segment of `path` starts: just behind its last separator,
/// or at 0 where it has none.
pub open spec fn leaf_start(path: Seq<char>) -> int
    decreases path.len(),
{
    if path.len() == 0 || path.last() == separator() {
        path.len() as int
    } else {
        leaf_start(path.drop_last())
    }
}

/// The final segment of `path`: what follows its last separator.
pub open spec fn final_segment(path: Seq<char>) -> Seq<char> {
    path.subrange(leaf_start(path), path.len() as int)
}

/// Whether `path` ends in what names nothing: a separator, or a segment `.`.
pub open spec fn ends_in_filler(path: Seq<char>) -> bool {
    &&& path.len() > 0
    &&& (path.last() == separator() || (path.last() == '.' && (path.len() == 1 || path[path.len()
        - 2] == separator())))
}

/// `path` without the separators and the segments `.` that it ends in.
pub open spec fn trimmed(path: Seq<char>) -> Seq<char>
    decreases path.len(),
{
    if ends_in_filler(path) {
        trimmed(path.drop_last())
    } else {
        path
    }
}

/// The segment that names what `path` leads to: the final segment of the
/// trimmed path.
pub open spec fn file_leaf(path: Seq<char>) -> Seq<char> {
    final_segment(trimmed(path))
}

/// Whether `segment` names a file: it is not empty, and is not `..`.
pub open spec fn names_file(segment: Seq<char>) -> bool {
    &&& segment.len() > 0
    &&& segment != seq!['.', '.']
}

/// Whether `text` holds no separator.
pub open spec fn is_segment(text: Seq<char>) -> bool {
    forall|j: int| 0 <= j < text.len() ==> text[j] != separator()
}

/// `leaf` placed in the directory `directory`: a separator stands between the two
/// unless the directory is empty or already ends in one.
pub open spec fn joined(directory: Seq<char>, leaf: Seq<char>) -> Seq<char> {
    if directory.len() == 0 || directory.last() == separator() {
        directory + leaf
    } else {
        directory + seq![separator()] + leaf
    }
}

/// The final segment starts at `start` where a separator (or nothing) stands
/// before `start` and none stands behind it.
pub proof fn lemma_leaf_start(path: Seq<char>, start: int)
    requires
        0 <= start <= path.len(),
        start == 0 || path[start - 1] == separator(),
        forall|j: int| start <= j < path.len() ==> path[j] != separator(),
    ensures
        leaf_start(path) == start,
    decreases path.len(),
{
    if path.len() > start {
        lemma_leaf_start(path.drop_last(), start);
    }
}

/// The final segment of a path holds no separator.
pub proof fn lemma_final_segment_is_segment(path: Seq<char>)
    ensures
        0 <= leaf_start(path) <= path.len(),
        is_segment(final_segment(path)),
    decreases path.len(),
{
    if !(path.len() == 0 || path.last() == separator()) {
        let front = path.drop_last();
        lemma_final_segment_is_segment(front);
        assert forall|j: int| 0 <= j < final_segment(path).len() implies final_segment(path)[j]
            != separator() by {
            if j < final_segment(front).len() {
                assert(final_segment(path)[j] == final_segment(front)[j]);
            }
        }
    }
}

/// Whatever the directory holds, the final segment of a joined path is the
/// leaf that was placed in it.
pub proof fn lemma_joined_final_segment(directory: Seq<char>, leaf: Seq<char>)
    requires
        is_segment(leaf),
    ensures
        final_segment(joined(directory, leaf)) == leaf,
{
    let whole = joined(directory, leaf);
    let start = whole.len() - leaf.len();
    lemma_leaf_start(whole, start);
    assert(whole.subrange(start, whole.len() as int) =~= leaf);
}

/// Whether the first `end` characters of `path` end in a separator or in a
/// segment `.`.
fn filler_before(path: &str, end: usize) -> (filler: bool)
    requires
        end <= path@.len(),
    ensures
        filler == ends_in_filler(path@.take(end as int)),
{
    if end == 0 {
        return false;
    }
    let c = path.get_char(end - 1);
    if c == '/' {
        return true;
    }
    if c != '.' {
        return false;
    }
    end == 1 || path.get_char(end - 2) == '/'
}

/// The name of the file that `path` leads to, if it leads to one: the final
/// segment, with no regard to separators and segments `.` behind it. The empty
/// path, the root and a path that ends in `..` name no file.
pub fn file_name(path: &str) -> (name: Option<String>)
    ensures
        match name {
            Some(leaf) => names_file(file_leaf(path@)) && leaf@ == file_leaf(path@),
            None => !names_file(file_leaf(path@)),
        },
{
    let n: usize = path.unicode_len();
    let mut end: usize = n;
    assert(path@.take(n as int) =~= path@);
    while filler_before(path, end)
        invariant
            end <= n,
            n == path@.len(),
            trimmed(path@) == trimmed(path@.take(end as int)),
        decreases end,
    {
        assert(path@.take(end as int).drop_last() =~= path@.take(end - 1));
        end -= 1;
    }
    let ghost kept = path@.take(end as int);
    let mut start: usize = end;
    while start > 0 && path.get_char(start - 1) != '/'
        invariant
            start <= end <= n,
            n == path@.len(),
            forall|j: int| start <= j < end ==> path@[j] != separator(),
        decreases start,
    {
        start -= 1;
    }
    proof {
        lemma_leaf_start(kept, start as int);
    }
    let leaf = path.substring_char(start, end);
    assert(leaf@ =~= file_leaf(path@));
    let k: usize = end - start;
    if k == 0 {
        return None;
    }
    if k == 2 && leaf.get_char(0) == '.' && leaf.get_char(1) == '.' {
        assert(leaf@ =~= seq!['.', '.']);
        return None;
    }
    assert(leaf@ != seq!['.', '.']) by {
        if leaf@ == seq!['.', '.'] {
            assert(seq!['.', '.'].len() == 2);
            assert(seq!['.', '.'][0] == '.');
            assert(seq!['.', '.'][1] == '.');
        }
    }
    Some(String::from_str(leaf))
}

/// The path of `leaf` in the directory `directory`.
pub fn join(directory: &str, leaf: &str) -> (path: String)
    ensures
        path@ == joined(directory@, leaf@),
{
    let n: usize = directory.unicode_len();
    let mut path = String::from_str(directory);
    if n > 0 && directory.get_char(n - 1) != '/' {
        proof {
            reveal_strlit("/");
        }
        path.append("/");
        assert(path@ =~= directory@ + seq![separator()]);
    }
    path.append(leaf);
    path
}

} // verus!
