use editor_core::rope::{Node, Rope};

#[test]
fn node_test() {
    let node = Node::new();

    assert_eq!(node.len, 0);
    assert!(node.right.is_none());
    assert!(node.left.is_none());
    assert!(node.str.is_none());
}

#[test]
fn rope_round_trips_text() {
    let x = String::from("hello, this is a testing line\n");
    let rope = Rope::from(x.clone());
    assert_eq!(rope.to_string(), x);

    let mut big_test = String::new();
    for i in 1..=100 {
        big_test.push_str(&format!("{i}\n"));
    }
    let rope = Rope::from(big_test.clone());
    assert_eq!(rope.to_string(), big_test);

    if let Some(root) = rope.root {
        assert!(root.str.is_none());
        assert!(!root.is_leaf());
    } else {
        assert!(false)
    }
}

#[test]
fn empty_rope_is_empty() {
    let rope = Rope::new();
    assert_eq!(rope.to_string(), "");
    let rope = Rope::from(String::new());
    assert_eq!(rope.to_string(), "");
}

#[test]
fn leaves_join_in_order() {
    let left = Node::from("abc");
    let right = Node::from("defg");
    assert!(left.is_leaf());
    assert_eq!(left.get_left_len(), 3);
    let joined = Node::join(left, right);
    assert!(!joined.is_leaf());
    assert_eq!(joined.len, 3);
    assert_eq!(joined.get_left_len(), 3);
}
