use citra_engine::scene::node_path::NodePath;

#[test]
fn node_path_conversion() {
    let string = "/path/to/thing".to_string();
    let vector = vec!["path".to_string(), "to".to_string(), "thing".to_string()];
    let strtest = NodePath::from(string.clone());
    let vectest = NodePath {
        path: vector.clone(),
    };
    assert_eq!(strtest.path, vector.clone());
    assert_eq!(vectest.to_string(), string.clone());
}

#[test]
fn node_path_without_leading_slash_gets_one() {
    let p = NodePath::from("a/b".to_string());
    assert_eq!(p.path, vec!["a".to_string(), "b".to_string()]);
    assert_eq!(p.to_string(), "/a/b".to_string());
}

#[test]
fn node_path_empty_segments_are_kept() {
    let p = NodePath::from("/a//b/".to_string());
    assert_eq!(
        p.path,
        vec!["a".to_string(), "".to_string(), "b".to_string(), "".to_string()]
    );
    assert_eq!(p.to_string(), "/a//b/".to_string());
}

#[test]
fn node_path_push_extend_remove_first() {
    let mut p = NodePath::new();
    assert!(p.path.is_empty());
    assert_eq!(p.to_string(), "".to_string());
    p.push("one");
    p.push("two");
    let other = NodePath::from("/three/four".to_string());
    p.extend(&other);
    assert_eq!(p.to_string(), "/one/two/three/four".to_string());
    let rest = p.remove_first();
    assert_eq!(rest.to_string(), "/two/three/four".to_string());
    assert_eq!(p.path.len(), 4);
}

#[test]
fn node_path_round_trip_of_segments() {
    let segs = vec!["x".to_string(), "yy".to_string(), "zzz".to_string()];
    let p = NodePath { path: segs.clone() };
    let back = NodePath::from(p.to_string());
    assert_eq!(back.path, segs);
}

#[test]
fn default_and_cloned_paths() {
    let empty = NodePath::default();
    assert!(empty.path.is_empty());
    let p = NodePath::from("/a/b".to_string());
    let q = p.clone();
    assert_eq!(q.path, vec!["a".to_string(), "b".to_string()]);
    assert_eq!(q.to_string(), "/a/b");
}
