//! The index: an ordered, append-only collection of file entries, and the
//! module text that it emits.

use vstd::prelude::*;
use vstd::string::*;
use crate::emit::{
    concat, declaration, declaration_text, identifier, identifier_text, lemma_concat_push,
    module_text, ContentKind,
};
use crate::path::{
    file_leaf, file_name, final_segment, join, joined, lemma_final_segment_is_segment,
    lemma_joined_final_segment, names_file, trimmed,
};
use crate::pretty::{prettify, EmitError};

verus! {

/// What an index node stands for: where the file appears, where it lies on
/// disk, and how it is embedded.
pub struct FileEntry {
    pub virtual_path: Seq<char>,
    pub disk_path: Seq<char>,
    pub kind: ContentKind,
}

/// A node of the index.
#[derive(Clone, Debug, PartialEq, Eq)]
pub enum IndexNode {
    File { virtual_path: String, disk_path: String, kind: ContentKind },
}

impl View for IndexNode {
    type V = FileEntry;

    open spec fn view(&self) -> FileEntry {
        match *self {
            IndexNode::File { virtual_path, disk_path, kind } => FileEntry {
                virtual_path: virtual_path@,
                disk_path: disk_path@,
                kind,
            },
        }
    }
}

impl IndexNode {
    /// Whether the two nodes agree in virtual path, disk path and kind.
    pub fn same_as(&self, other: &IndexNode) -> (same: bool)
        ensures
            same == (self@ == other@),
    {
        match self {
            IndexNode::File { virtual_path, disk_path, kind } => match other {
                IndexNode::File { virtual_path: other_virtual, disk_path: other_disk, kind: other_kind } => {
                    *virtual_path == *other_virtual && *disk_path == *other_disk && *kind
                        == *other_kind
                },
            },
        }
    }
}

/// Why a file was not registered.
#[derive(Clone, Copy, Debug, PartialEq, Eq, Structural)]
pub enum RegisterError {
    /// The disk path's final segment names no file.
    MissingFileName,
    /// An entry with the same virtual path, disk path and kind is in the index.
    Duplicate,
}

/// The entry that a registration asks for: the file appears in `directory`
/// under the name that it has on disk.
pub open spec fn candidate(disk_path: Seq<char>, directory: Seq<char>, kind: ContentKind) -> FileEntry {
    FileEntry { virtual_path: joined(directory, file_leaf(disk_path)), disk_path, kind }
}

/// Why a registration on `index` fails, if it does.
pub open spec fn register_error(
    index: Seq<FileEntry>,
    disk_path: Seq<char>,
    directory: Seq<char>,
    kind: ContentKind,
) -> Option<RegisterError> {
    if !names_file(file_leaf(disk_path)) {
        Some(RegisterError::MissingFileName)
    } else if index.contains(candidate(disk_path, directory, kind)) {
        Some(RegisterError::Duplicate)
    } else {
        None
    }
}

/// The index after a registration on `index`: one entry longer where the
/// registration succeeds, unchanged where it fails.
pub open spec fn registered(
    index: Seq<FileEntry>,
    disk_path: Seq<char>,
    directory: Seq<char>,
    kind: ContentKind,
) -> Seq<FileEntry> {
    if register_error(index, disk_path, directory, kind) is None {
        index.push(candidate(disk_path, directory, kind))
    } else {
        index
    }
}

/// An entry keeps the name that its file has on disk.
pub open spec fn keeps_leaf(entry: FileEntry) -> bool {
    &&& names_file(file_leaf(entry.disk_path))
    &&& final_segment(entry.virtual_path) == file_leaf(entry.disk_path)
}

/// What holds of every index: each entry keeps the name that its file has
/// on disk, and no entry stands in it twice. Two entries are the same where
/// they agree in virtual path, disk path and kind; entries that share a
/// virtual path and differ in disk path or kind are two entries.
pub open spec fn well_formed(index: Seq<FileEntry>) -> bool {
    &&& forall|i: int| 0 <= i < index.len() ==> keeps_leaf(#[trigger] index[i])
    &&& forall|i: int, j: int| 0 <= i < j < index.len() ==> index[i] != index[j]
}

/// A registration keeps the index well formed, whatever the directory
/// argument held.
pub proof fn lemma_registered_keeps_well_formed(
    index: Seq<FileEntry>,
    disk_path: Seq<char>,
    directory: Seq<char>,
    kind: ContentKind,
)
    requires
        well_formed(index),
    ensures
        well_formed(registered(index, disk_path, directory, kind)),
{
    lemma_final_segment_is_segment(trimmed(disk_path));
    lemma_joined_final_segment(directory, file_leaf(disk_path));
}

/// Registering the same file twice: where the first registration succeeds, the
/// second is refused as a duplicate and leaves the index as the first made it,
/// one entry longer than before.
pub proof fn lemma_second_registration_is_duplicate(
    index: Seq<FileEntry>,
    disk_path: Seq<char>,
    directory: Seq<char>,
    kind: ContentKind,
)
    requires
        register_error(index, disk_path, directory, kind) is None,
    ensures
        ({
            let once = registered(index, disk_path, directory, kind);
            &&& once.len() == index.len() + 1
            &&& register_error(once, disk_path, directory, kind) == Some(RegisterError::Duplicate)
            &&& registered(once, disk_path, directory, kind) == once
        }),
{
    let once = registered(index, disk_path, directory, kind);
    assert(once[index.len() as int] == candidate(disk_path, directory, kind));
}

/// A registration never changes or reorders what is in the index: the entries
/// that were there stay in their places.
pub proof fn lemma_registered_extends(
    index: Seq<FileEntry>,
    disk_path: Seq<char>,
    directory: Seq<char>,
    kind: ContentKind,
)
    ensures
        index.len() <= registered(index, disk_path, directory, kind).len() <= index.len() + 1,
        registered(index, disk_path, directory, kind).take(index.len() as int) == index,
{
    assert(registered(index, disk_path, directory, kind).take(index.len() as int) =~= index);
}

/// The path that the declaration of entry `i` refers to: the disk path as it
/// was given, or, with `canonicalize`, what `resolved` holds for that entry,
/// if it holds anything.
pub open spec fn reference_at(
    index: Seq<FileEntry>,
    canonicalize: bool,
    resolved: Seq<Option<String>>,
    i: int,
) -> Option<Seq<char>> {
    if !canonicalize {
        Some(index[i].disk_path)
    } else if 0 <= i < resolved.len() {
        match resolved[i] {
            Some(path) => Some(path@),
            None => None,
        }
    } else {
        None
    }
}

/// Whether every entry has a path to refer to.
pub open spec fn all_resolved(index: Seq<FileEntry>, canonicalize: bool, resolved: Seq<Option<String>>) -> bool {
    forall|i: int| 0 <= i < index.len() ==> (#[trigger] reference_at(index, canonicalize, resolved, i)) is Some
}

/// Whether entry `i` is the first that has no path to refer to.
pub open spec fn first_unresolved(
    index: Seq<FileEntry>,
    canonicalize: bool,
    resolved: Seq<Option<String>>,
    i: int,
) -> bool {
    &&& 0 <= i < index.len()
    &&& reference_at(index, canonicalize, resolved, i) is None
    &&& forall|j: int| 0 <= j < i ==> (#[trigger] reference_at(index, canonicalize, resolved, j)) is Some
}

/// The declaration of entry `i`.
pub open spec fn declaration_at(
    index: Seq<FileEntry>,
    canonicalize: bool,
    resolved: Seq<Option<String>>,
    i: int,
) -> Seq<char> {
    declaration_text(
        identifier_text(index[i].virtual_path),
        reference_at(index, canonicalize, resolved, i).unwrap(),
        index[i].kind,
    )
}

/// One declaration for each entry, in the order of the index.
pub open spec fn declarations(index: Seq<FileEntry>, canonicalize: bool, resolved: Seq<Option<String>>) -> Seq<Seq<char>> {
    Seq::new(index.len(), |i: int| declaration_at(index, canonicalize, resolved, i))
}

/// Emission follows registration: a successful registration adds one
/// declaration, that of the new entry, behind those of the entries that were
/// there, which stay as they were and in their order.
pub proof fn lemma_declarations_follow_registration(
    index: Seq<FileEntry>,
    disk_path: Seq<char>,
    directory: Seq<char>,
    kind: ContentKind,
    canonicalize: bool,
    resolved: Seq<Option<String>>,
)
    requires
        register_error(index, disk_path, directory, kind) is None,
    ensures
        ({
            let grown = registered(index, disk_path, directory, kind);
            let lines = declarations(grown, canonicalize, resolved);
            &&& lines.len() == index.len() + 1
            &&& lines.take(index.len() as int) == declarations(index, canonicalize, resolved)
            &&& lines.last() == declaration_at(grown, canonicalize, resolved, index.len() as int)
            &&& concat(lines) == concat(declarations(index, canonicalize, resolved)) + lines.last()
        }),
{
    let grown = registered(index, disk_path, directory, kind);
    let lines = declarations(grown, canonicalize, resolved);
    let before = declarations(index, canonicalize, resolved);
    assert(lines.take(index.len() as int) =~= before) by {
        assert forall|i: int| 0 <= i < index.len() implies lines[i] == before[i] by {
            assert(grown[i] == index[i]);
        }
    }
    assert(lines.drop_last() =~= before);
}

/// Every declaration is of the kind of its entry: a text entry is declared
/// as text and embedded as text, a binary entry as bytes and embedded as bytes.
pub proof fn lemma_declaration_matches_kind(
    index: Seq<FileEntry>,
    canonicalize: bool,
    resolved: Seq<Option<String>>,
    i: int,
)
    requires
        0 <= i < index.len(),
    ensures
        declarations(index, canonicalize, resolved)[i] == "pub const FILE_"@ + identifier_text(
            index[i].virtual_path,
        ) + ": "@ + (if index[i].kind == ContentKind::Binary {
            "&[u8]"@
        } else {
            "&str"@
        }) + " = "@ + (if index[i].kind == ContentKind::Binary {
            "include_bytes!"@
        } else {
            "include_str!"@
        }) + "(\""@ + reference_at(index, canonicalize, resolved, i).unwrap() + "\");"@,
{
}

/// Without canonicalization every entry refers to its disk path as it was
/// given, so that no entry is left without a path, whatever `resolved` holds.
pub proof fn lemma_given_paths_are_kept(index: Seq<FileEntry>, resolved: Seq<Option<String>>)
    ensures
        all_resolved(index, false, resolved),
        forall|i: int|
            0 <= i < index.len() ==> #[trigger] reference_at(index, false, resolved, i) == Some(
                index[i].disk_path,
            ),
{
}

/// With canonicalization an entry refers to the path that was resolved for it
/// and to no other, and an entry for which none was resolved has no path to
/// refer to.
pub proof fn lemma_resolved_paths_are_used(index: Seq<FileEntry>, resolved: Seq<Option<String>>, i: int)
    requires
        0 <= i < index.len(),
    ensures
        i < resolved.len() && resolved[i] is Some ==> reference_at(index, true, resolved, i) == Some(
            resolved[i].unwrap()@,
        ),
        i >= resolved.len() || resolved[i] is None ==> reference_at(index, true, resolved, i) is None,
{
}

/// What assembling the module returns: the text of the module with every
/// declaration, or the disk path of the first entry that has no path to refer
/// to.
pub open spec fn assembles(
    index: Seq<FileEntry>,
    canonicalize: bool,
    resolved: Seq<Option<String>>,
    out: Result<String, EmitError>,
) -> bool {
    match out {
        Ok(text) => {
            &&& all_resolved(index, canonicalize, resolved)
            &&& text@ == module_text(declarations(index, canonicalize, resolved))
        },
        Err(EmitError::PathResolution(path)) => exists|i: int|
            first_unresolved(index, canonicalize, resolved, i) && path@ == index[i].disk_path,
        Err(EmitError::Format(_)) => false,
    }
}

/// Assembling is determined by the index, the flag and the resolved paths:
/// two outcomes that `assembles` admits hold the same text, or name the same
/// disk path.
pub proof fn lemma_assembly_is_determined(
    index: Seq<FileEntry>,
    canonicalize: bool,
    resolved: Seq<Option<String>>,
    one: Result<String, EmitError>,
    other: Result<String, EmitError>,
)
    requires
        assembles(index, canonicalize, resolved, one),
        assembles(index, canonicalize, resolved, other),
    ensures
        match (one, other) {
            (Ok(a), Ok(b)) => a@ == b@,
            (Err(EmitError::PathResolution(a)), Err(EmitError::PathResolution(b))) => a@ == b@,
            _ => false,
        },
{
    match (one, other) {
        (Err(EmitError::PathResolution(a)), Err(EmitError::PathResolution(b))) => {
            let i = choose|i: int|
                first_unresolved(index, canonicalize, resolved, i) && a@ == index[i].disk_path;
            let j = choose|j: int|
                first_unresolved(index, canonicalize, resolved, j) && b@ == index[j].disk_path;
            assert(i == j);
        },
        (Err(EmitError::PathResolution(a)), Ok(_)) => {
            let i = choose|i: int|
                first_unresolved(index, canonicalize, resolved, i) && a@ == index[i].disk_path;
            assert(reference_at(index, canonicalize, resolved, i) is None);
        },
        (Ok(_), Err(EmitError::PathResolution(b))) => {
            let j = choose|j: int|
                first_unresolved(index, canonicalize, resolved, j) && b@ == index[j].disk_path;
            assert(reference_at(index, canonicalize, resolved, j) is None);
        },
        _ => {},
    }
}

/// The index of files.
#[derive(Debug)]
pub struct FileSystem {
    index_nodes: Vec<IndexNode>,
}

impl View for FileSystem {
    type V = Seq<FileEntry>;

    closed spec fn view(&self) -> Seq<FileEntry> {
        self.index_nodes@.map_values(|node: IndexNode| node@)
    }
}

impl FileSystem {
    #[verifier::type_invariant]
    spec fn is_well_formed(&self) -> bool {
        well_formed(self@)
    }

    /// An empty index.
    pub fn new() -> (index: Self)
        ensures
            index@ == Seq::<FileEntry>::empty(),
            well_formed(index@),
    {
        let index = Self { index_nodes: Vec::new() };
        assert(index@ =~= Seq::<FileEntry>::empty());
        index
    }

    /// The directory that virtual paths start from: the empty path.
    pub fn get_base_path(&self) -> (base: String)
        ensures
            base@ == Seq::<char>::empty(),
    {
        String::new()
    }

    /// The number of entries.
    pub fn len(&self) -> (n: usize)
        ensures
            n == self@.len(),
    {
        self.index_nodes.len()
    }

    /// The entries, in the order of their registration.
    pub fn nodes(&self) -> (nodes: &Vec<IndexNode>)
        ensures
            nodes@.len() == self@.len(),
            forall|i: int| 0 <= i < nodes@.len() ==> (#[trigger] nodes@[i])@ == self@[i],
            well_formed(self@),
    {
        proof {
            use_type_invariant(self);
        }
        &self.index_nodes
    }

    /// Registers the file at `disk_path` in the directory `virtual_path`, under
    /// the name that it has on disk, and returns the entry's position, counted
    /// from 1. A disk path without a file name and an entry that is in the
    /// index already are refused, and leave the index as it was.
    pub fn add_file(&mut self, disk_path: String, virtual_path: &String, kind: ContentKind) -> (handle: Result<usize, RegisterError>)
        ensures
            final(self)@ == registered(old(self)@, disk_path@, virtual_path@, kind),
            well_formed(final(self)@),
            match register_error(old(self)@, disk_path@, virtual_path@, kind) {
                Some(error) => handle == Err::<usize, RegisterError>(error),
                None => handle matches Ok(position) && position == old(self)@.len() + 1,
            },
    {
        proof {
            use_type_invariant(&*self);
        }
        let leaf = match file_name(disk_path.as_str()) {
            Some(leaf) => leaf,
            None => {
                return Err(RegisterError::MissingFileName);
            },
        };
        let effective = join(virtual_path.as_str(), leaf.as_str());
        let node = IndexNode::File { virtual_path: effective, disk_path, kind };
        assert(node@ == candidate(disk_path@, virtual_path@, kind));
        let n: usize = self.index_nodes.len();
        let mut i: usize = 0;
        while i < n
            invariant
                i <= n,
                n == self.index_nodes@.len(),
                *self == *old(self),
                well_formed(self@),
                names_file(file_leaf(disk_path@)),
                node@ == candidate(disk_path@, virtual_path@, kind),
                forall|j: int| 0 <= j < i ==> self@[j] != node@,
            decreases n - i,
        {
            if self.index_nodes[i].same_as(&node) {
                assert(self@[i as int] == node@);
                return Err(RegisterError::Duplicate);
            }
            i += 1;
        }
        // the entries leave the index, take the new one in and come back
        let mut nodes: Vec<IndexNode> = Vec::new();
        core::mem::swap(&mut self.index_nodes, &mut nodes);
        nodes.push(node);
        proof {
            let grown = nodes@.map_values(|node: IndexNode| node@);
            assert(grown =~= registered(old(self)@, disk_path@, virtual_path@, kind));
            lemma_registered_keeps_well_formed(old(self)@, disk_path@, virtual_path@, kind);
        }
        core::mem::swap(&mut self.index_nodes, &mut nodes);
        Ok(self.index_nodes.len())
    }

    /// The text of the module `files`, with one declaration for each entry in
    /// the order of registration. With `canonicalize`, the declaration of entry
    /// `i` refers to the path that `resolved` holds at `i`; where it holds none,
    /// the entry's disk path comes back as the error. Without, each
    /// declaration refers to the disk path as it was given.
    pub fn assemble(&self, canonicalize: bool, resolved: &Vec<Option<String>>) -> (out: Result<String, EmitError>)
        ensures
            assembles(self@, canonicalize, resolved@, out),
    {
        let n: usize = self.index_nodes.len();
        let mut text = String::from_str("pub mod files {");
        let ghost lines = declarations(self@, canonicalize, resolved@);
        let mut i: usize = 0;
        while i < n
            invariant
                i <= n,
                n == self.index_nodes@.len(),
                lines == declarations(self@, canonicalize, resolved@),
                forall|j: int| 0 <= j < i ==> (#[trigger] reference_at(self@, canonicalize, resolved@, j)) is Some,
                text@ == "pub mod files {"@ + concat(lines.take(i as int)),
            decreases n - i,
        {
            match &self.index_nodes[i] {
                IndexNode::File { virtual_path, disk_path, kind } => {
                    let reference: &str = if canonicalize {
                        if i < resolved.len() {
                            match &resolved[i] {
                                Some(path) => path.as_str(),
                                None => {
                                    assert(first_unresolved(self@, canonicalize, resolved@, i as int));
                                    return Err(EmitError::PathResolution(disk_path.clone()));
                                },
                            }
                        } else {
                            assert(first_unresolved(self@, canonicalize, resolved@, i as int));
                            return Err(EmitError::PathResolution(disk_path.clone()));
                        }
                    } else {
                        disk_path.as_str()
                    };
                    let name = identifier(virtual_path.as_str());
                    let line = declaration(name.as_str(), reference, *kind);
                    proof {
                        assert(line@ == lines[i as int]);
                        lemma_concat_push(lines.take(i as int), lines[i as int]);
                        assert(lines.take(i + 1) =~= lines.take(i as int).push(lines[i as int]));
                        assert(text@ + line@ =~= "pub mod files {"@ + concat(lines.take(i + 1)));
                    }
                    text.append(line.as_str());
                },
            }
            i += 1;
        }
        assert(lines.take(n as int) =~= lines);
        text.append("}");
        Ok(text)
    }

    /// Generates the text of the module `files`, as `assemble` gives it, and
    /// with `pretty` hands it to the formatter. The formatter decides what
    /// comes back then: the formatted text, or its failure as
    /// `EmitError::Format`. The index is not changed.
    pub fn code(&self, canonicalize: bool, resolved: &Vec<Option<String>>, pretty: bool) -> (out: Result<String, EmitError>)
        ensures
            !pretty ==> assembles(self@, canonicalize, resolved@, out),
            pretty ==> match out {
                Ok(_) => all_resolved(self@, canonicalize, resolved@),
                Err(EmitError::PathResolution(path)) => exists|i: int|
                    first_unresolved(self@, canonicalize, resolved@, i) && path@ == self@[i].disk_path,
                Err(EmitError::Format(_)) => all_resolved(self@, canonicalize, resolved@),
            },
    {
        let assembled = self.assemble(canonicalize, resolved);
        if !pretty {
            return assembled;
        }
        match assembled {
            Ok(text) => prettify(text.as_str()),
            Err(error) => Err(error),
        }
    }
}

} // verus!
