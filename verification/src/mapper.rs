//! The path mapper and the planning of one transformation task.
//!
//! Nothing here touches the filesystem: a task says what is to be done,
//! and whoever runs it creates the directories and writes the file.

use vstd::prelude::*;
use crate::path::{
    FilePath, Part, absolute, file_name_of, joined, lemma_joined_well_formed, relative_to,
    valid_part, well_formed, without_current,
};

verus! {

/// Where the result for `src` goes: below `output_root`, at the place
/// that `src` has below `input_root`. A `src` that does not lie under
/// `input_root` keeps its file name only; one that has no file name
/// either goes nowhere.
pub open spec fn destination(
    input_root: Seq<Part>,
    output_root: Seq<Part>,
    src: Seq<Part>,
) -> Option<Seq<Part>> {
    match relative_to(src, input_root) {
        Some(rel) => Some(joined(output_root, rel)),
        None => match file_name_of(src) {
            Some(name) => Some(joined(output_root, seq![Part::Name(name)])),
            None => None,
        },
    }
}

/// The path mapper: the place below `output_root` that mirrors the place
/// of `src` below `input_root`.
pub fn map_path(input_root: &FilePath, output_root: &FilePath, src: &FilePath) -> (r: Option<
    FilePath,
>)
    ensures
        r.is_some() == destination(input_root@, output_root@, src@).is_some(),
        r.is_some() ==> Some(r.unwrap()@) == destination(input_root@, output_root@, src@),
{
    match src.strip_prefix(input_root) {
        Some(rel) => Some(output_root.join(&rel)),
        None => match src.base_name() {
            Some(name) => Some(output_root.join(&name)),
            None => None,
        },
    }
}

/// What running a task amounts to.
#[derive(Clone, Copy, Debug, PartialEq, Eq, Structural)]
pub enum Action {
    /// Say what would be done, and write nothing.
    Simulate,
    /// Make the destination's parent directory, then transform the source
    /// into the destination.
    Transform,
}

/// One unit of work: an eligible file and where its result goes.
#[derive(Debug, PartialEq, Eq)]
pub struct Task {
    pub source: FilePath,
    pub destination: FilePath,
    pub action: Action,
    /// Set where the source did not lie under the input root, so that
    /// the destination keeps the file name only and may collide with
    /// another.
    pub degraded: bool,
}

/// A task in specifications.
pub struct TaskView {
    pub source: Seq<Part>,
    pub destination: Seq<Part>,
    pub action: Action,
    pub degraded: bool,
}

impl View for Task {
    type V = TaskView;

    open spec fn view(&self) -> TaskView {
        TaskView {
            source: self.source@,
            destination: self.destination@,
            action: self.action,
            degraded: self.degraded,
        }
    }
}

/// Why no task could be planned.
#[derive(Clone, Copy, Debug, PartialEq, Eq, Structural)]
pub enum TaskError {
    /// The source lies outside the input root and has no file name.
    NoFileName,
}

/// The action that a run takes on each eligible file.
pub open spec fn action_for(dry_run: bool) -> Action {
    if dry_run {
        Action::Simulate
    } else {
        Action::Transform
    }
}

/// The task for `src`, where it has a destination.
pub open spec fn planned(
    input_root: Seq<Part>,
    output_root: Seq<Part>,
    src: Seq<Part>,
    dry_run: bool,
) -> Option<TaskView> {
    match destination(input_root, output_root, src) {
        Some(dst) => Some(
            TaskView {
                source: src,
                destination: dst,
                action: action_for(dry_run),
                degraded: !input_root.is_prefix_of(src),
            },
        ),
        None => None,
    }
}

/// Plans the task for one eligible file: maps `src` to its destination
/// and fixes the action by `dry_run`.
pub fn process_img(
    input_root: &FilePath,
    output_root: &FilePath,
    src: &FilePath,
    dry_run: bool,
) -> (r: Result<Task, TaskError>)
    ensures
        r.is_ok() == planned(input_root@, output_root@, src@, dry_run).is_some(),
        r.is_ok() ==> Some(r.unwrap()@) == planned(input_root@, output_root@, src@, dry_run),
        r.is_err() ==> r.unwrap_err() == TaskError::NoFileName,
{
    let degraded = !src.starts_with(input_root);
    match map_path(input_root, output_root, src) {
        Some(destination) => {
            let action = if dry_run {
                Action::Simulate
            } else {
                Action::Transform
            };
            Ok(Task { source: src.clone(), destination, action, degraded })
        },
        None => Err(TaskError::NoFileName),
    }
}

/// A relative path is plain when it starts with neither the root nor
/// `.`: joining appends such a path as it is.
pub open spec fn plain(rel: Seq<Part>) -> bool {
    rel.len() == 0 || (rel[0] != Part::Root && rel[0] != Part::Current)
}

/// The mapper mirrors the tree. Every path `src` under the input root has
/// a destination. It lies under the output root unless what `src` has
/// below the input root is absolute, which takes an empty input root.
/// Where that rest is plain, as it is below every input root that is not
/// empty, the destination is the output root followed by exactly that
/// rest: no component is renamed, and the file name stays as it is.
pub proof fn lemma_destination_mirrors_source(
    input_root: Seq<Part>,
    output_root: Seq<Part>,
    src: Seq<Part>,
)
    requires
        well_formed(src),
        input_root.is_prefix_of(src),
    ensures
        destination(input_root, output_root, src).is_some(),
        !absolute(src.skip(input_root.len() as int)) ==> output_root.is_prefix_of(
            destination(input_root, output_root, src).unwrap(),
        ),
        input_root.len() > 0 ==> plain(src.skip(input_root.len() as int)),
        plain(src.skip(input_root.len() as int)) ==> {
            &&& destination(input_root, output_root, src) == Some(
                output_root + src.skip(input_root.len() as int),
            )
            &&& destination(input_root, output_root, src).unwrap().skip(output_root.len() as int)
                == src.skip(input_root.len() as int)
        },
        plain(src.skip(input_root.len() as int)) && src.len() > input_root.len() ==> file_name_of(
            destination(input_root, output_root, src).unwrap(),
        ) == file_name_of(src),
        well_formed(output_root) ==> well_formed(
            destination(input_root, output_root, src).unwrap(),
        ),
{
    let rel = src.skip(input_root.len() as int);
    let dst = destination(input_root, output_root, src).unwrap();
    assert(dst == joined(output_root, rel));
    if rel.len() > 0 {
        assert(rel[0] == src[input_root.len() as int]);
        if input_root.len() > 0 {
            assert(valid_part(src[input_root.len() as int], false));
        }
    }
    if !absolute(rel) {
        if output_root.len() > 0 {
            assert(dst.subrange(0, output_root.len() as int) =~= output_root);
        } else {
            assert(dst.subrange(0, 0) =~= output_root);
        }
    }
    if plain(rel) {
        assert(without_current(rel) == rel);
        assert(dst =~= output_root + rel);
        assert(dst.skip(output_root.len() as int) =~= rel);
        if src.len() > input_root.len() {
            assert(dst.last() == rel.last());
            assert(rel.last() == src.last());
        }
    }
    if well_formed(output_root) {
        assert forall|i: int| 0 <= i < rel.len() implies valid_part(#[trigger] rel[i], i == 0) by {
            assert(rel[i] == src[i + input_root.len()]);
            assert(valid_part(src[i + input_root.len()], i + input_root.len() == 0));
        }
        lemma_joined_well_formed(output_root, rel);
    }
}

} // verus!
