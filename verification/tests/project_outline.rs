use edcore::project::{fill_buffer, Accessory, Node, Project};

fn leaf(text: &str) -> Node {
    Node {
        text: text.to_string(),
        children: Vec::new(),
        accessory: Accessory::Text,
    }
}

#[test]
fn fill_buffer_walks_tree_in_preorder() {
    let tree = Project {
        parent_node: Node {
            text: "root".to_string(),
            children: vec![
                Node {
                    text: "a".to_string(),
                    children: vec![leaf("a1"), leaf("a2")],
                    accessory: Accessory::Header,
                },
                Node {
                    text: "b".to_string(),
                    children: vec![leaf("b1")],
                    accessory: Accessory::Todo { checked: false },
                },
            ],
            accessory: Accessory::Text,
        },
    };
    let buf = fill_buffer(&tree);
    assert_eq!(buf, vec!["root", "a", "a1", "a2", "b", "b1"]);
}

#[test]
fn fill_buffer_single_node() {
    let tree = Project {
        parent_node: leaf("only"),
    };
    assert_eq!(fill_buffer(&tree), vec!["only"]);
}
