//! Paths as sequences of components, following POSIX conventions.
//!
//! A path is what is left once its text has been split at separators: an
//! optional root, an optional leading `.`, and then names and `..`.

use vstd::prelude::*;

verus! {

/// The byte `/`, which separates components and so occurs in no name.
pub const SEPARATOR: u8 = 0x2f;

/// The byte `.`.
pub const DOT: u8 = 0x2e;

/// One component of a path.
#[derive(Debug, PartialEq, Eq)]
pub enum Component {
    /// The root directory, `/`.
    Root,
    /// The current directory, `.`.
    Current,
    /// The parent directory, `..`.
    Parent,
    /// The name of a file or a directory, as bytes.
    Name(Vec<u8>),
}

/// What a component stands for in specifications.
pub enum Part {
    Root,
    Current,
    Parent,
    Name(Seq<u8>),
}

impl View for Component {
    type V = Part;

    open spec fn view(&self) -> Part {
        match self {
            Component::Root => Part::Root,
            Component::Current => Part::Current,
            Component::Parent => Part::Parent,
            Component::Name(n) => Part::Name(n@),
        }
    }
}

/// A name is not empty, holds no separator, and is neither `.` nor `..`.
pub open spec fn valid_name(n: Seq<u8>) -> bool {
    &&& n.len() > 0
    &&& forall|i: int| 0 <= i < n.len() ==> n[i] != SEPARATOR
    &&& !(n.len() == 1 && n[0] == DOT)
    &&& !(n.len() == 2 && n[0] == DOT && n[1] == DOT)
}

/// Whether `part` may stand in a path, at its start (`first`) or later.
pub open spec fn valid_part(part: Part, first: bool) -> bool {
    match part {
        Part::Root => first,
        Part::Current => first,
        Part::Parent => true,
        Part::Name(n) => valid_name(n),
    }
}

/// A sequence of parts is a path when the root and `.` stand only at its
/// start and every name is valid.
pub open spec fn well_formed(p: Seq<Part>) -> bool {
    forall|i: int| 0 <= i < p.len() ==> valid_part(#[trigger] p[i], i == 0)
}

/// The parts that a sequence of components stands for.
pub open spec fn parts_of(c: Seq<Component>) -> Seq<Part> {
    c.map_values(|x: Component| x@)
}

/// One more component stands for one more part.
pub proof fn lemma_parts_of_push(c: Seq<Component>, x: Component)
    ensures
        parts_of(c.push(x)) == parts_of(c).push(x@),
{
    assert(parts_of(c.push(x)) =~= parts_of(c).push(x@));
}

/// Whether two byte strings are equal.
pub fn same_bytes(a: &Vec<u8>, b: &Vec<u8>) -> (r: bool)
    ensures
        r == (a@ == b@),
{
    if a.len() != b.len() {
        return false;
    }
    let mut i: usize = 0;
    while i < a.len()
        invariant
            a.len() == b.len(),
            i <= a.len(),
            forall|j: int| 0 <= j < i ==> a@[j] == b@[j],
        decreases a.len() - i,
    {
        if a[i] != b[i] {
            return false;
        }
        i += 1;
    }
    assert(a@ =~= b@);
    true
}

/// A copy of a byte string.
pub fn copy_bytes(a: &Vec<u8>) -> (r: Vec<u8>)
    ensures
        r@ == a@,
{
    let mut out: Vec<u8> = Vec::with_capacity(a.len());
    let mut i: usize = 0;
    while i < a.len()
        invariant
            i <= a.len(),
            out@ == a@.take(i as int),
        decreases a.len() - i,
    {
        out.push(a[i]);
        assert(a@.take(i as int).push(a@[i as int]) =~= a@.take(i + 1));
        i += 1;
    }
    assert(a@.take(a.len() as int) =~= a@);
    out
}

/// Whether `n` can be the name of a file or a directory.
pub fn is_valid_name(n: &Vec<u8>) -> (r: bool)
    ensures
        r == valid_name(n@),
{
    if n.len() == 0 {
        return false;
    }
    if n.len() == 1 && n[0] == DOT {
        return false;
    }
    if n.len() == 2 && n[0] == DOT && n[1] == DOT {
        return false;
    }
    let mut i: usize = 0;
    while i < n.len()
        invariant
            i <= n.len(),
            forall|j: int| 0 <= j < i ==> n@[j] != SEPARATOR,
        decreases n.len() - i,
    {
        if n[i] == SEPARATOR {
            return false;
        }
        i += 1;
    }
    true
}

impl Component {
    /// Whether two components are the same.
    pub fn same(&self, other: &Component) -> (r: bool)
        ensures
            r == (self@ == other@),
    {
        match (self, other) {
            (Component::Root, Component::Root) => true,
            (Component::Current, Component::Current) => true,
            (Component::Parent, Component::Parent) => true,
            (Component::Name(a), Component::Name(b)) => same_bytes(a, b),
            _ => false,
        }
    }

    /// Whether this component may stand in a path, at its start (`first`)
    /// or later.
    pub fn is_valid(&self, first: bool) -> (r: bool)
        ensures
            r == valid_part(self@, first),
    {
        match self {
            Component::Root => first,
            Component::Current => first,
            Component::Parent => true,
            Component::Name(n) => is_valid_name(n),
        }
    }
}

impl Clone for Component {
    fn clone(&self) -> (r: Component)
        ensures
            r@ == self@,
    {
        match self {
            Component::Root => Component::Root,
            Component::Current => Component::Current,
            Component::Parent => Component::Parent,
            Component::Name(n) => Component::Name(copy_bytes(n)),
        }
    }
}

/// The last part of a path when it is a name: the name of the file or
/// directory that the path leads to.
pub open spec fn file_name_of(p: Seq<Part>) -> Option<Seq<u8>> {
    if p.len() == 0 {
        None
    } else {
        match p.last() {
            Part::Name(n) => Some(n),
            _ => None,
        }
    }
}

/// The path without its last part; none for the empty path and for the
/// root.
pub open spec fn parent_of(p: Seq<Part>) -> Option<Seq<Part>> {
    if p.len() == 0 || p.last() == Part::Root {
        None
    } else {
        Some(p.drop_last())
    }
}

/// A path is absolute when it starts at the root.
pub open spec fn absolute(p: Seq<Part>) -> bool {
    p.len() > 0 && p[0] == Part::Root
}

/// What is left of `p` below `base`, where `p` lies under `base`.
pub open spec fn relative_to(p: Seq<Part>, base: Seq<Part>) -> Option<Seq<Part>> {
    if base.is_prefix_of(p) {
        Some(p.skip(base.len() as int))
    } else {
        None
    }
}

/// `rel` without a leading `.`.
pub open spec fn without_current(rel: Seq<Part>) -> Seq<Part> {
    if rel.len() > 0 && rel[0] == Part::Current {
        rel.skip(1)
    } else {
        rel
    }
}

/// `rel` appended to `base`. An absolute `rel` replaces `base`, and so
/// does any `rel` when `base` is empty; a leading `.` of `rel` is dropped
/// behind a `base` that is not empty.
pub open spec fn joined(base: Seq<Part>, rel: Seq<Part>) -> Seq<Part> {
    if absolute(rel) || base.len() == 0 {
        rel
    } else {
        base + without_current(rel)
    }
}

/// A path: a well-formed sequence of components.
#[derive(Debug, PartialEq, Eq)]
pub struct FilePath {
    parts: Vec<Component>,
}

impl View for FilePath {
    type V = Seq<Part>;

    closed spec fn view(&self) -> Seq<Part> {
        parts_of(self.parts@)
    }
}

impl FilePath {
    #[verifier::type_invariant]
    spec fn inv(&self) -> bool {
        well_formed(parts_of(self.parts@))
    }

    /// The empty path.
    pub fn empty() -> (p: FilePath)
        ensures
            p@ == Seq::<Part>::empty(),
            well_formed(p@),
    {
        let parts: Vec<Component> = Vec::new();
        assert(parts_of(parts@) =~= Seq::<Part>::empty());
        FilePath { parts }
    }

    /// The path made of `parts`, if they form one.
    pub fn from_components(parts: Vec<Component>) -> (r: Option<FilePath>)
        ensures
            r.is_some() == well_formed(parts_of(parts@)),
            r.is_some() ==> r.unwrap()@ == parts_of(parts@),
    {
        let mut i: usize = 0;
        while i < parts.len()
            invariant
                i <= parts.len(),
                forall|j: int| 0 <= j < i ==> valid_part(#[trigger] parts_of(parts@)[j], j == 0),
            decreases parts.len() - i,
        {
            if !parts[i].is_valid(i == 0) {
                assert(!valid_part(parts_of(parts@)[i as int], i == 0));
                return None;
            }
            i += 1;
        }
        Some(FilePath { parts })
    }

    /// The components of this path, in order.
    pub fn components(&self) -> (r: &Vec<Component>)
        ensures
            parts_of(r@) == self@,
            well_formed(self@),
    {
        proof {
            use_type_invariant(self);
        }
        &self.parts
    }

    /// The number of components.
    pub fn len(&self) -> (n: usize)
        ensures
            n == self@.len(),
    {
        self.parts.len()
    }

    /// Whether the path starts at the root.
    pub fn is_absolute(&self) -> (r: bool)
        ensures
            r == absolute(self@),
    {
        if self.parts.len() == 0 {
            false
        } else {
            match &self.parts[0] {
                Component::Root => true,
                _ => false,
            }
        }
    }

    /// Whether this path lies under `base`: whether the components of
    /// `base` are the first components of this path.
    pub fn starts_with(&self, base: &FilePath) -> (r: bool)
        ensures
            r == base@.is_prefix_of(self@),
    {
        if base.parts.len() > self.parts.len() {
            return false;
        }
        let mut i: usize = 0;
        while i < base.parts.len()
            invariant
                base.parts.len() <= self.parts.len(),
                i <= base.parts.len(),
                forall|j: int| 0 <= j < i ==> base@[j] == self@[j],
            decreases base.parts.len() - i,
        {
            if !self.parts[i].same(&base.parts[i]) {
                assert(base@[i as int] != self@[i as int]);
                return false;
            }
            i += 1;
        }
        assert(base@ =~= self@.subrange(0, base@.len() as int));
        true
    }

    /// What is left of this path below `base`; none where this path does
    /// not lie under `base`.
    pub fn strip_prefix(&self, base: &FilePath) -> (r: Option<FilePath>)
        ensures
            r.is_some() == base@.is_prefix_of(self@),
            r.is_some() ==> Some(r.unwrap()@) == relative_to(self@, base@),
    {
        if !self.starts_with(base) {
            return None;
        }
        proof {
            use_type_invariant(self);
        }
        let from: usize = base.parts.len();
        let mut parts: Vec<Component> = Vec::new();
        let mut i: usize = from;
        while i < self.parts.len()
            invariant
                from <= i <= self.parts.len(),
                parts_of(parts@) == self@.subrange(from as int, i as int),
            decreases self.parts.len() - i,
        {
            let ghost before = parts@;
            let c = self.parts[i].clone();
            proof {
                lemma_parts_of_push(before, c);
            }
            parts.push(c);
            assert(parts_of(parts@) =~= self@.subrange(from as int, i + 1));
            i += 1;
        }
        assert(self@.subrange(from as int, self@.len() as int) =~= self@.skip(from as int));
        Some(FilePath { parts })
    }

    /// The name of the file or directory that this path leads to; none
    /// where the path is empty or ends in the root, `.` or `..`.
    pub fn file_name(&self) -> (r: Option<&Vec<u8>>)
        ensures
            r.is_some() == file_name_of(self@).is_some(),
            r.is_some() ==> Some(r.unwrap()@) == file_name_of(self@),
            r.is_some() ==> valid_name(r.unwrap()@),
    {
        proof {
            use_type_invariant(self);
        }
        let n: usize = self.parts.len();
        if n == 0 {
            return None;
        }
        match &self.parts[n - 1] {
            Component::Name(name) => Some(name),
            _ => None,
        }
    }

    /// The path that holds the file name of this path and nothing else;
    /// none where this path has no file name.
    pub fn base_name(&self) -> (r: Option<FilePath>)
        ensures
            r.is_some() == file_name_of(self@).is_some(),
            r.is_some() ==> r.unwrap()@ == seq![Part::Name(file_name_of(self@).unwrap())],
    {
        match self.file_name() {
            None => None,
            Some(name) => {
                let mut parts: Vec<Component> = Vec::new();
                parts.push(Component::Name(copy_bytes(name)));
                assert(parts_of(parts@) =~= seq![Part::Name(name@)]);
                Some(FilePath { parts })
            },
        }
    }

    /// This path without its last component; none for the empty path and
    /// for the root.
    pub fn parent(&self) -> (r: Option<FilePath>)
        ensures
            r.is_some() == parent_of(self@).is_some(),
            r.is_some() ==> Some(r.unwrap()@) == parent_of(self@),
    {
        proof {
            use_type_invariant(self);
        }
        let n: usize = self.parts.len();
        if n == 0 {
            return None;
        }
        if let Component::Root = &self.parts[n - 1] {
            return None;
        }
        let mut parts: Vec<Component> = Vec::new();
        let mut i: usize = 0;
        while i < n - 1
            invariant
                n == self.parts.len(),
                n > 0,
                i <= n - 1,
                parts_of(parts@) == self@.take(i as int),
            decreases n - 1 - i,
        {
            let ghost before = parts@;
            let c = self.parts[i].clone();
            proof {
                lemma_parts_of_push(before, c);
            }
            parts.push(c);
            assert(parts_of(parts@) =~= self@.take(i + 1));
            i += 1;
        }
        assert(self@.take(n - 1) =~= self@.drop_last());
        Some(FilePath { parts })
    }

    /// `rel` appended to this path.
    pub fn join(&self, rel: &FilePath) -> (r: FilePath)
        ensures
            r@ == joined(self@, rel@),
    {
        if rel.is_absolute() || self.parts.len() == 0 {
            return rel.clone();
        }
        proof {
            use_type_invariant(self);
            use_type_invariant(rel);
        }
        let mut parts: Vec<Component> = self.clone().parts;
        let mut i: usize = 0;
        if rel.parts.len() > 0 {
            if let Component::Current = &rel.parts[0] {
                i = 1;
            }
        }
        let ghost skipped: int = i as int;
        assert(without_current(rel@) =~= rel@.skip(skipped));
        while i < rel.parts.len()
            invariant
                skipped <= i <= rel.parts.len(),
                self@.len() > 0,
                well_formed(self@),
                well_formed(rel@),
                !absolute(rel@),
                skipped == 0 || skipped == 1,
                skipped == 0 ==> rel@.len() == 0 || rel@[0] != Part::Current,
                parts_of(parts@) == self@ + rel@.subrange(skipped, i as int),
            decreases rel.parts.len() - i,
        {
            let ghost before = parts@;
            let c = rel.parts[i].clone();
            proof {
                lemma_parts_of_push(before, c);
            }
            parts.push(c);
            assert(parts_of(parts@) =~= self@ + rel@.subrange(skipped, i + 1));
            i += 1;
        }
        assert(rel@.subrange(skipped, rel@.len() as int) =~= rel@.skip(skipped));
        proof {
            lemma_joined_well_formed(self@, rel@);
        }
        FilePath { parts }
    }
}

impl Clone for FilePath {
    fn clone(&self) -> (r: FilePath)
        ensures
            r@ == self@,
    {
        proof {
            use_type_invariant(self);
        }
        let mut parts: Vec<Component> = Vec::with_capacity(self.parts.len());
        let mut i: usize = 0;
        while i < self.parts.len()
            invariant
                i <= self.parts.len(),
                parts_of(parts@) == parts_of(self.parts@).take(i as int),
            decreases self.parts.len() - i,
        {
            let ghost before = parts@;
            let c = self.parts[i].clone();
            proof {
                lemma_parts_of_push(before, c);
            }
            parts.push(c);
            assert(parts_of(parts@) =~= parts_of(self.parts@).take(i + 1));
            i += 1;
        }
        assert(parts_of(self.parts@).take(self.parts.len() as int) =~= parts_of(self.parts@));
        FilePath { parts }
    }
}

/// Joining two paths gives a path.
pub proof fn lemma_joined_well_formed(base: Seq<Part>, rel: Seq<Part>)
    requires
        well_formed(base),
        well_formed(rel),
    ensures
        well_formed(joined(base, rel)),
{
    if !(absolute(rel) || base.len() == 0) {
        let tail = without_current(rel);
        let all = base + tail;
        assert forall|i: int| 0 <= i < all.len() implies valid_part(#[trigger] all[i], i == 0) by {
            if i < base.len() {
                assert(all[i] == base[i]);
            } else {
                let k = i - base.len();
                assert(all[i] == tail[k]);
                if rel.len() > 0 && rel[0] == Part::Current {
                    assert(tail[k] == rel[k + 1]);
                    assert(valid_part(rel[k + 1], false));
                } else {
                    assert(tail[k] == rel[k]);
                    assert(valid_part(rel[k], k == 0));
                }
            }
        }
    }
}

} // verus!
