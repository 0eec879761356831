use imgst::path::{copy_bytes, is_valid_name, same_bytes, Component, FilePath};

fn part(text: &str) -> Component {
    match text {
        "/" => Component::Root,
        "." => Component::Current,
        ".." => Component::Parent,
        name => Component::Name(name.as_bytes().to_vec()),
    }
}

fn parts(texts: &[&str]) -> Vec<Component> {
    texts.iter().map(|t| part(t)).collect()
}

fn path(texts: &[&str]) -> FilePath {
    FilePath::from_components(parts(texts)).expect("a well-formed path")
}

#[test]
fn empty_path_has_no_components() {
    let p = FilePath::empty();
    assert_eq!(p.len(), 0);
    assert!(p.components().is_empty());
    assert!(!p.is_absolute());
    assert_eq!(p, path(&[]));
}

#[test]
fn components_come_back_in_order() {
    let p = path(&["/", "srv", "photos", "a.jpg"]);
    assert_eq!(p.len(), 4);
    assert_eq!(p.components(), &parts(&["/", "srv", "photos", "a.jpg"]));
}

#[test]
fn root_is_accepted_only_at_the_start() {
    assert!(FilePath::from_components(parts(&["/", "a"])).is_some());
    assert!(FilePath::from_components(parts(&["a", "/"])).is_none());
    assert!(FilePath::from_components(parts(&["/", "/"])).is_none());
}

#[test]
fn current_is_accepted_only_at_the_start() {
    assert!(FilePath::from_components(parts(&[".", "a"])).is_some());
    assert!(FilePath::from_components(parts(&["a", "."])).is_none());
}

#[test]
fn parent_is_accepted_anywhere() {
    assert!(FilePath::from_components(parts(&["..", "a", "..", ".."])).is_some());
    assert!(FilePath::from_components(parts(&["/", ".."])).is_some());
}

#[test]
fn invalid_names_are_refused() {
    let empty = vec![Component::Name(Vec::new())];
    assert!(FilePath::from_components(empty).is_none());
    let with_separator = vec![Component::Name(b"a/b".to_vec())];
    assert!(FilePath::from_components(with_separator).is_none());
    let dot = vec![Component::Name(b".".to_vec())];
    assert!(FilePath::from_components(dot).is_none());
    let dots = vec![part("a"), Component::Name(b"..".to_vec())];
    assert!(FilePath::from_components(dots).is_none());
}

#[test]
fn names_with_dots_are_valid() {
    assert!(is_valid_name(&b"...".to_vec()));
    assert!(is_valid_name(&b".hidden".to_vec()));
    assert!(is_valid_name(&b"a.b".to_vec()));
    assert!(is_valid_name(&b"x".to_vec()));
    assert!(!is_valid_name(&b"".to_vec()));
    assert!(!is_valid_name(&b".".to_vec()));
    assert!(!is_valid_name(&b"..".to_vec()));
    assert!(!is_valid_name(&b"/".to_vec()));
    assert!(!is_valid_name(&b"dir/".to_vec()));
}

#[test]
fn same_bytes_compares_contents() {
    assert!(same_bytes(&b"abc".to_vec(), &b"abc".to_vec()));
    assert!(same_bytes(&Vec::new(), &Vec::new()));
    assert!(!same_bytes(&b"abc".to_vec(), &b"abd".to_vec()));
    assert!(!same_bytes(&b"abc".to_vec(), &b"ab".to_vec()));
    assert!(!same_bytes(&b"ab".to_vec(), &b"abc".to_vec()));
}

#[test]
fn copy_bytes_copies_every_byte() {
    assert_eq!(copy_bytes(&b"photo.jpg".to_vec()), b"photo.jpg".to_vec());
    assert_eq!(copy_bytes(&Vec::new()), Vec::<u8>::new());
    assert_eq!(copy_bytes(&vec![0u8, 255, 47]), vec![0u8, 255, 47]);
}

#[test]
fn component_same_tells_kinds_and_names_apart() {
    assert!(part("/").same(&part("/")));
    assert!(part(".").same(&part(".")));
    assert!(part("..").same(&part("..")));
    assert!(part("a").same(&part("a")));
    assert!(!part("a").same(&part("b")));
    assert!(!part("/").same(&part(".")));
    assert!(!part("..").same(&part("a")));
}

#[test]
fn component_clone_is_equal() {
    for text in ["/", ".", "..", "name.jpg"] {
        assert_eq!(part(text).clone(), part(text));
    }
}

#[test]
fn component_validity_depends_on_place() {
    assert!(part("/").is_valid(true));
    assert!(!part("/").is_valid(false));
    assert!(part(".").is_valid(true));
    assert!(!part(".").is_valid(false));
    assert!(part("..").is_valid(true));
    assert!(part("..").is_valid(false));
    assert!(part("a").is_valid(false));
    assert!(!Component::Name(b"a/b".to_vec()).is_valid(true));
}

#[test]
fn absolute_paths_start_at_the_root() {
    assert!(path(&["/"]).is_absolute());
    assert!(path(&["/", "a"]).is_absolute());
    assert!(!path(&["a"]).is_absolute());
    assert!(!path(&[".", "a"]).is_absolute());
    assert!(!path(&[]).is_absolute());
}

#[test]
fn clone_is_equal() {
    let p = path(&["/", "a", "..", "b.jpeg"]);
    assert_eq!(p.clone(), p);
    assert_eq!(FilePath::empty().clone(), FilePath::empty());
}

#[test]
fn starts_with_goes_by_whole_components() {
    let p = path(&["/", "in", "a", "b.jpg"]);
    assert!(p.starts_with(&path(&[])));
    assert!(p.starts_with(&path(&["/"])));
    assert!(p.starts_with(&path(&["/", "in"])));
    assert!(p.starts_with(&path(&["/", "in", "a", "b.jpg"])));
    assert!(!p.starts_with(&path(&["/", "i"])));
    assert!(!p.starts_with(&path(&["in"])));
    assert!(!p.starts_with(&path(&["/", "in", "a", "b.jpg", "c"])));
    assert!(!p.starts_with(&path(&["/", "out"])));
}

#[test]
fn strip_prefix_leaves_the_rest() {
    let p = path(&["/", "in", "a", "b.jpg"]);
    assert_eq!(p.strip_prefix(&path(&["/", "in"])), Some(path(&["a", "b.jpg"])));
    assert_eq!(p.strip_prefix(&path(&["/"])), Some(path(&["in", "a", "b.jpg"])));
    assert_eq!(p.strip_prefix(&path(&[])), Some(path(&["/", "in", "a", "b.jpg"])));
    assert_eq!(p.strip_prefix(&p.clone()), Some(path(&[])));
}

#[test]
fn strip_prefix_refuses_other_bases() {
    let p = path(&["/", "in", "a", "b.jpg"]);
    assert_eq!(p.strip_prefix(&path(&["/", "out"])), None);
    assert_eq!(p.strip_prefix(&path(&["in"])), None);
    assert_eq!(p.strip_prefix(&path(&["/", "in", "a", "b.jpg", "c"])), None);
    assert_eq!(path(&[]).strip_prefix(&path(&["a"])), None);
}

#[test]
fn file_name_is_the_last_name() {
    assert_eq!(path(&["/", "in", "b.jpg"]).file_name(), Some(&b"b.jpg".to_vec()));
    assert_eq!(path(&["dir"]).file_name(), Some(&b"dir".to_vec()));
    assert_eq!(path(&[]).file_name(), None);
    assert_eq!(path(&["/"]).file_name(), None);
    assert_eq!(path(&["."]).file_name(), None);
    assert_eq!(path(&["a", ".."]).file_name(), None);
}

#[test]
fn base_name_keeps_the_file_name_only() {
    assert_eq!(path(&["/", "in", "b.jpg"]).base_name(), Some(path(&["b.jpg"])));
    assert_eq!(path(&["b.jpg"]).base_name(), Some(path(&["b.jpg"])));
    assert_eq!(path(&["/"]).base_name(), None);
    assert_eq!(path(&["a", ".."]).base_name(), None);
    assert_eq!(path(&[]).base_name(), None);
}

#[test]
fn parent_drops_the_last_component() {
    assert_eq!(path(&["/", "out", "a", "b.jpg"]).parent(), Some(path(&["/", "out", "a"])));
    assert_eq!(path(&["/", "a"]).parent(), Some(path(&["/"])));
    assert_eq!(path(&["a"]).parent(), Some(path(&[])));
    assert_eq!(path(&["a", ".."]).parent(), Some(path(&["a"])));
    assert_eq!(path(&["."]).parent(), Some(path(&[])));
    assert_eq!(path(&["/"]).parent(), None);
    assert_eq!(path(&[]).parent(), None);
}

#[test]
fn join_appends_a_relative_path() {
    let out = path(&["/", "out"]);
    assert_eq!(out.join(&path(&["a", "b.jpg"])), path(&["/", "out", "a", "b.jpg"]));
    assert_eq!(out.join(&path(&[])), path(&["/", "out"]));
    assert_eq!(out.join(&path(&["..", "x"])), path(&["/", "out", "..", "x"]));
    assert_eq!(path(&["out"]).join(&path(&["a"])), path(&["out", "a"]));
}

#[test]
fn join_drops_a_leading_current() {
    assert_eq!(path(&["out"]).join(&path(&[".", "a"])), path(&["out", "a"]));
    assert_eq!(path(&["/"]).join(&path(&["."])), path(&["/"]));
    assert_eq!(path(&["."]).join(&path(&["."])), path(&["."]));
    assert_eq!(path(&["."]).join(&path(&["a"])), path(&[".", "a"]));
}

#[test]
fn join_is_replaced_by_an_absolute_path() {
    assert_eq!(path(&["/", "out"]).join(&path(&["/", "etc"])), path(&["/", "etc"]));
    assert_eq!(path(&["out"]).join(&path(&["/"])), path(&["/"]));
}

#[test]
fn join_onto_the_empty_path_gives_the_other() {
    assert_eq!(path(&[]).join(&path(&["a", "b"])), path(&["a", "b"]));
    assert_eq!(path(&[]).join(&path(&[".", "a"])), path(&[".", "a"]));
    assert_eq!(path(&[]).join(&path(&[])), path(&[]));
}

#[test]
fn strip_then_join_gives_the_path_back() {
    let root = path(&["/", "in"]);
    let p = path(&["/", "in", "a", "b", "c.jpg"]);
    let rel = p.strip_prefix(&root).expect("under the root");
    assert_eq!(root.join(&rel), p);
}
