use zenohui::tree::{path_less_exec, tree_paths, TopicTree};

fn strings(v: &[&str]) -> Vec<String> {
    v.iter().map(|s| s.to_string()).collect()
}

#[test]
fn tree_nodes_in_depth_first_order() {
    let t = tree_paths(&strings(&["room/temp", "a-c/b", "a/b", "room/humidity"]));
    assert_eq!(t, strings(&["a", "a/b", "a-c", "a-c/b", "room", "room/humidity", "room/temp"]));
}

#[test]
fn tree_rebuild_is_deterministic() {
    let a = TopicTree::from_topics(&strings(&["x/y/z", "x/a", "b", "x/y/z"]));
    let b = TopicTree::from_topics(&strings(&["b", "x/a", "x/y/z"]));
    assert_eq!(a.nodes(), b.nodes());
    assert_eq!(a.nodes(), &strings(&["b", "x", "x/a", "x/y", "x/y/z"]));
}

#[test]
fn path_order_puts_separator_first() {
    assert!(path_less_exec("a/b", "a-c"));
    assert!(path_less_exec("a", "a/b"));
    assert!(!path_less_exec("a/b", "a"));
    assert!(!path_less_exec("a", "a"));
}

#[test]
fn toggle_and_visibility() {
    let mut t = TopicTree::from_topics(&strings(&["room/temp", "room/humidity", "hall"]));
    assert_eq!(t.visible(), strings(&["hall", "room"]));
    assert!(!t.has_opened());
    t.toggle("room");
    assert!(t.is_opened("room"));
    assert!(t.has_opened());
    assert_eq!(t.visible(), strings(&["hall", "room", "room/humidity", "room/temp"]));
    t.toggle("room");
    assert!(!t.is_opened("room"));
    assert_eq!(t.visible(), strings(&["hall", "room"]));
}

#[test]
fn expand_and_collapse_all() {
    let mut t = TopicTree::from_topics(&strings(&["a/b/c", "d"]));
    t.expand_all();
    assert_eq!(t.visible(), strings(&["a", "a/b", "a/b/c", "d"]));
    t.collapse_all();
    assert_eq!(t.visible(), strings(&["a", "d"]));
}

#[test]
fn rebuild_keeps_opened_nodes() {
    let mut t = TopicTree::from_topics(&strings(&["a/b"]));
    t.toggle("a");
    t.rebuild(&strings(&["a/b", "a/c"]));
    assert!(t.is_opened("a"));
    assert_eq!(t.visible(), strings(&["a", "a/b", "a/c"]));
}

#[test]
fn search_shows_ancestors_and_descendants() {
    let t = TopicTree::from_topics(&strings(&["room/temp/raw", "room/humidity", "hall/temp"]));
    assert_eq!(
        t.search("temp"),
        strings(&["hall", "hall/temp", "room", "room/temp", "room/temp/raw"])
    );
    assert_eq!(t.search("zzz"), Vec::<String>::new());
    assert_eq!(t.search("").len(), t.nodes().len());
}
