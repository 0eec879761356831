//! The file classifier: which entries of the tree are to be transformed.
//!
//! Classification goes by the entry's kind and by the extension of its
//! name alone; what the file holds is never looked at.

use vstd::prelude::*;
use crate::path::{DOT, FilePath, Part, file_name_of};

verus! {

/// What kind of filesystem node an entry is.
#[derive(Clone, Copy, Debug, PartialEq, Eq, Structural)]
pub enum FileKind {
    RegularFile,
    Directory,
    Symlink,
    Other,
}

/// A node that the traversal came upon.
#[derive(Debug, PartialEq, Eq)]
pub struct Entry {
    pub path: FilePath,
    pub kind: FileKind,
}

/// An entry in specifications.
pub struct EntryView {
    pub path: Seq<Part>,
    pub kind: FileKind,
}

impl View for Entry {
    type V = EntryView;

    open spec fn view(&self) -> EntryView {
        EntryView { path: self.path@, kind: self.kind }
    }
}

/// Whether the last `.` of `name` stands at `i`.
pub open spec fn is_last_dot(name: Seq<u8>, i: int) -> bool {
    &&& 0 <= i < name.len()
    &&& name[i] == DOT
    &&& forall|j: int| i < j < name.len() ==> name[j] != DOT
}

/// The extension of a name: what follows its last `.`. A name without a
/// `.`, or whose only `.` is its first byte, has none.
pub open spec fn extension_of(name: Seq<u8>) -> Option<Seq<u8>> {
    if exists|i: int| i > 0 && is_last_dot(name, i) {
        let i = choose|i: int| i > 0 && is_last_dot(name, i);
        Some(name.skip(i + 1))
    } else {
        None
    }
}

/// An ASCII upper-case letter becomes its lower-case letter; every other
/// byte stays.
pub open spec fn lower(b: u8) -> u8 {
    if 0x41 <= b <= 0x5a {
        (b + 0x20) as u8
    } else {
        b
    }
}

/// `s` with every ASCII letter in lower case.
pub open spec fn lowered(s: Seq<u8>) -> Seq<u8> {
    s.map_values(|b: u8| lower(b))
}

/// The bytes of `jpg`.
pub open spec fn jpg() -> Seq<u8> {
    seq![0x6a, 0x70, 0x67]
}

/// The bytes of `jpeg`.
pub open spec fn jpeg() -> Seq<u8> {
    seq![0x6a, 0x70, 0x65, 0x67]
}

/// The accepted extensions are `jpg` and `jpeg`, in any mix of cases.
pub open spec fn accepted(ext: Seq<u8>) -> bool {
    lowered(ext) == jpg() || lowered(ext) == jpeg()
}

/// A name is eligible when it has an accepted extension.
pub open spec fn eligible_name(name: Seq<u8>) -> bool {
    match extension_of(name) {
        Some(ext) => accepted(ext),
        None => false,
    }
}

/// An entry is eligible when it is a regular file whose name has an
/// accepted extension.
pub open spec fn eligible(e: EntryView) -> bool {
    &&& e.kind == FileKind::RegularFile
    &&& match file_name_of(e.path) {
        Some(name) => eligible_name(name),
        None => false,
    }
}

/// A name has at most one last `.`.
pub proof fn lemma_last_dot_unique(name: Seq<u8>, i: int, j: int)
    requires
        is_last_dot(name, i),
        is_last_dot(name, j),
    ensures
        i == j,
{
}

/// The ASCII lower-case form of a byte.
pub fn to_lower(b: u8) -> (r: u8)
    ensures
        r == lower(b),
{
    if 0x41 <= b && b <= 0x5a {
        b + 0x20
    } else {
        b
    }
}

/// The place of the last `.` in `name`, if it holds one.
pub fn last_dot(name: &Vec<u8>) -> (r: Option<usize>)
    ensures
        match r {
            Some(i) => is_last_dot(name@, i as int),
            None => forall|j: int| 0 <= j < name@.len() ==> name@[j] != DOT,
        },
{
    let mut i: usize = name.len();
    while i > 0
        invariant
            i <= name.len(),
            forall|j: int| i <= j < name@.len() ==> name@[j] != DOT,
        decreases i,
    {
        i -= 1;
        if name[i] == DOT {
            return Some(i);
        }
    }
    None
}

/// The extension of `name`, if it has one.
pub fn extension(name: &Vec<u8>) -> (r: Option<Vec<u8>>)
    ensures
        r.is_some() == extension_of(name@).is_some(),
        r.is_some() ==> Some(r.unwrap()@) == extension_of(name@),
{
    let found = last_dot(name);
    match found {
        None => None,
        Some(d) => {
            if d == 0 {
                assert forall|i: int| i > 0 implies !is_last_dot(name@, i) by {
                    if is_last_dot(name@, i) {
                        lemma_last_dot_unique(name@, i, 0);
                    }
                }
                return None;
            }
            assert(d < name.len());
            proof {
                let c = choose|i: int| i > 0 && is_last_dot(name@, i);
                lemma_last_dot_unique(name@, c, d as int);
            }
            let mut ext: Vec<u8> = Vec::new();
            let mut i: usize = d + 1;
            while i < name.len()
                invariant
                    d + 1 <= i <= name.len(),
                    ext@ == name@.subrange(d + 1, i as int),
                decreases name.len() - i,
            {
                ext.push(name[i]);
                assert(ext@ =~= name@.subrange(d + 1, i + 1));
                i += 1;
            }
            assert(name@.subrange(d + 1, name@.len() as int) =~= name@.skip(d + 1));
            Some(ext)
        },
    }
}

/// Whether `ext` is an accepted extension.
pub fn is_accepted(ext: &Vec<u8>) -> (r: bool)
    ensures
        r == accepted(ext@),
{
    let n: usize = ext.len();
    if n == 3 {
        let r = to_lower(ext[0]) == 0x6a && to_lower(ext[1]) == 0x70 && to_lower(ext[2]) == 0x67;
        proof {
            if r {
                assert(lowered(ext@) =~= jpg());
            } else {
                assert(lowered(ext@)[0] == lower(ext@[0]));
                assert(lowered(ext@)[1] == lower(ext@[1]));
                assert(lowered(ext@)[2] == lower(ext@[2]));
            }
            assert(lowered(ext@).len() != jpeg().len());
        }
        r
    } else if n == 4 {
        let r = to_lower(ext[0]) == 0x6a && to_lower(ext[1]) == 0x70 && to_lower(ext[2]) == 0x65
            && to_lower(ext[3]) == 0x67;
        proof {
            if r {
                assert(lowered(ext@) =~= jpeg());
            } else {
                assert(lowered(ext@)[0] == lower(ext@[0]));
                assert(lowered(ext@)[1] == lower(ext@[1]));
                assert(lowered(ext@)[2] == lower(ext@[2]));
                assert(lowered(ext@)[3] == lower(ext@[3]));
            }
            assert(lowered(ext@).len() != jpg().len());
        }
        r
    } else {
        proof {
            assert(lowered(ext@).len() != jpg().len());
            assert(lowered(ext@).len() != jpeg().len());
        }
        false
    }
}

/// Whether a file of this name is eligible.
pub fn is_eligible_name(name: &Vec<u8>) -> (r: bool)
    ensures
        r == eligible_name(name@),
{
    match extension(name) {
        Some(ext) => is_accepted(&ext),
        None => false,
    }
}

/// The file classifier: whether `entry` is to be transformed.
pub fn classify(entry: &Entry) -> (r: bool)
    ensures
        r == eligible(entry@),
{
    match entry.kind {
        FileKind::RegularFile => match entry.path.file_name() {
            Some(name) => is_eligible_name(name),
            None => false,
        },
        _ => false,
    }
}

} // verus!
