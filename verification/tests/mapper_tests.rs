use imgst::mapper::{map_path, process_img, Action, Task, TaskError};
use imgst::path::{Component, FilePath};

fn path(texts: &[&str]) -> FilePath {
    let parts = texts
        .iter()
        .map(|t| match *t {
            "/" => Component::Root,
            "." => Component::Current,
            ".." => Component::Parent,
            name => Component::Name(name.as_bytes().to_vec()),
        })
        .collect();
    FilePath::from_components(parts).expect("a well-formed path")
}

#[test]
fn nested_files_keep_their_place_below_the_output_root() {
    let input = path(&["/", "in"]);
    let output = path(&["/", "out"]);
    assert_eq!(
        map_path(&input, &output, &path(&["/", "in", "a", "b", "c", "img.jpg"])),
        Some(path(&["/", "out", "a", "b", "c", "img.jpg"]))
    );
    assert_eq!(
        map_path(&input, &output, &path(&["/", "in", "a", "d", "img2.jpg"])),
        Some(path(&["/", "out", "a", "d", "img2.jpg"]))
    );
}

#[test]
fn mapping_is_the_same_every_time() {
    let input = path(&["/", "in"]);
    let output = path(&["/", "out"]);
    let src = path(&["/", "in", "x", "y.JPG"]);
    let first = map_path(&input, &output, &src);
    let second = map_path(&input, &output, &src);
    assert_eq!(first, second);
    assert_eq!(first, Some(path(&["/", "out", "x", "y.JPG"])));
}

#[test]
fn mapped_path_lies_under_the_output_root_and_keeps_the_rest() {
    let input = path(&["/", "srv", "in"]);
    let output = path(&["/", "var", "out"]);
    let src = path(&["/", "srv", "in", "2024", "trip", "IMG.JPEG"]);
    let dst = map_path(&input, &output, &src).expect("a destination");
    assert!(dst.starts_with(&output));
    assert_eq!(dst.strip_prefix(&output), src.strip_prefix(&input));
    assert_eq!(dst.file_name(), src.file_name());
}

#[test]
fn relative_roots_are_mapped_too() {
    let input = path(&["photos"]);
    let output = path(&["clean"]);
    assert_eq!(
        map_path(&input, &output, &path(&["photos", "a", "b.jpg"])),
        Some(path(&["clean", "a", "b.jpg"]))
    );
    assert_eq!(
        map_path(&path(&["."]), &output, &path(&[".", "b.jpg"])),
        Some(path(&["clean", "b.jpg"]))
    );
}

#[test]
fn the_input_root_itself_maps_to_the_output_root() {
    let input = path(&["/", "in"]);
    let output = path(&["/", "out"]);
    assert_eq!(map_path(&input, &output, &input), Some(path(&["/", "out"])));
}

#[test]
fn a_path_outside_the_input_root_keeps_its_file_name_only() {
    let input = path(&["/", "in"]);
    let output = path(&["/", "out"]);
    assert_eq!(
        map_path(&input, &output, &path(&["/", "elsewhere", "deep", "img.jpg"])),
        Some(path(&["/", "out", "img.jpg"]))
    );
    assert_eq!(
        map_path(&input, &output, &path(&["img.jpg"])),
        Some(path(&["/", "out", "img.jpg"]))
    );
}

#[test]
fn a_path_outside_the_input_root_without_a_file_name_has_no_destination() {
    let input = path(&["/", "in"]);
    let output = path(&["/", "out"]);
    assert_eq!(map_path(&input, &output, &path(&["/", "elsewhere", ".."])), None);
    assert_eq!(map_path(&input, &output, &path(&["/"])), None);
    assert_eq!(map_path(&input, &output, &path(&[])), None);
}

#[test]
fn an_empty_input_root_lets_an_absolute_source_replace_the_output_root() {
    let output = path(&["/", "out"]);
    assert_eq!(
        map_path(&path(&[]), &output, &path(&["/", "a.jpg"])),
        Some(path(&["/", "a.jpg"]))
    );
}

#[test]
fn process_img_plans_a_simulation_in_a_dry_run() {
    let input = path(&["/", "in"]);
    let output = path(&["/", "out"]);
    let src = path(&["/", "in", "a", "img.jpg"]);
    assert_eq!(
        process_img(&input, &output, &src, true),
        Ok(Task {
            source: path(&["/", "in", "a", "img.jpg"]),
            destination: path(&["/", "out", "a", "img.jpg"]),
            action: Action::Simulate,
            degraded: false,
        })
    );
}

#[test]
fn process_img_plans_a_transformation_in_a_real_run() {
    let input = path(&["/", "in"]);
    let output = path(&["/", "out"]);
    let src = path(&["/", "in", "a", "img.jpg"]);
    assert_eq!(
        process_img(&input, &output, &src, false),
        Ok(Task {
            source: path(&["/", "in", "a", "img.jpg"]),
            destination: path(&["/", "out", "a", "img.jpg"]),
            action: Action::Transform,
            degraded: false,
        })
    );
}

#[test]
fn process_img_flags_the_fallback_to_the_file_name() {
    let input = path(&["/", "in"]);
    let output = path(&["/", "out"]);
    let src = path(&["/", "other", "img.jpg"]);
    let task = process_img(&input, &output, &src, false).expect("a task");
    assert!(task.degraded);
    assert_eq!(task.destination, path(&["/", "out", "img.jpg"]));
    assert_eq!(task.source, src);
}

#[test]
fn process_img_fails_without_a_destination() {
    let input = path(&["/", "in"]);
    let output = path(&["/", "out"]);
    assert_eq!(
        process_img(&input, &output, &path(&["/", "other", ".."]), true),
        Err(TaskError::NoFileName)
    );
    assert_eq!(process_img(&input, &output, &path(&[]), false), Err(TaskError::NoFileName));
}

#[test]
fn process_img_mirrors_both_subdirectories() {
    let input = path(&["in"]);
    let output = path(&["out"]);
    let first = process_img(&input, &output, &path(&["in", "a", "b", "c", "img.jpg"]), false);
    let second = process_img(&input, &output, &path(&["in", "a", "d", "img2.jpg"]), false);
    assert_eq!(first.expect("a task").destination, path(&["out", "a", "b", "c", "img.jpg"]));
    assert_eq!(second.expect("a task").destination, path(&["out", "a", "d", "img2.jpg"]));
}

#[test]
fn the_parent_of_a_destination_is_the_directory_to_create() {
    let input = path(&["/", "in"]);
    let output = path(&["/", "out"]);
    let task = process_img(&input, &output, &path(&["/", "in", "a", "b", "img.jpg"]), false)
        .expect("a task");
    assert_eq!(task.destination.parent(), Some(path(&["/", "out", "a", "b"])));
}
