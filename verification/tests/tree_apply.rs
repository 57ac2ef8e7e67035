use perspective_view::dom::DomOp;
use perspective_view::dom::ModelDom;
use perspective_view::dom::TreeNode;
use perspective_view::dom::apply_dom_tree;
use perspective_view::dom::apply_style_node;
use perspective_view::dom::apply_vnode;

fn container() -> ModelDom {
    ModelDom::new_with_root("body".to_string())
}

fn pair(k: &str, v: &str) -> (String, String) {
    (k.to_string(), v.to_string())
}

#[test]
fn text_node_is_created_and_attached() {
    let mut doc = container();
    let mut log: Vec<DomOp> = Vec::new();
    let root = apply_vnode(&mut doc, &mut log, 0, &TreeNode::Text { content: "hi".to_string() });
    assert_eq!(root, 1);
    assert_eq!(doc.nodes.len(), 2);
    assert!(!doc.nodes[1].is_element);
    assert_eq!(doc.nodes[1].text, "hi");
    assert_eq!(doc.nodes[0].children, vec![1]);
    assert_eq!(
        log,
        vec![
            DomOp::CreateText { id: 1, content: "hi".to_string() },
            DomOp::AppendChild { parent: 0, child: 1 },
        ]
    );
}

#[test]
fn repeated_attribute_key_exposes_last_value() {
    let mut doc = container();
    let mut log: Vec<DomOp> = Vec::new();
    let node = TreeNode::Element {
        name: "div".to_string(),
        attributes: vec![pair("class", "a"), pair("class", "b")],
        children: Vec::new(),
    };
    let root = apply_vnode(&mut doc, &mut log, 0, &node);
    assert_eq!(doc.nodes[root].attrs, vec![pair("class", "b")]);
}

#[test]
fn later_write_to_other_key_keeps_both() {
    let mut doc = container();
    let mut log: Vec<DomOp> = Vec::new();
    let node = TreeNode::Element {
        name: "div".to_string(),
        attributes: vec![pair("class", "a"), pair("id", "x"), pair("class", "c")],
        children: Vec::new(),
    };
    let root = apply_vnode(&mut doc, &mut log, 0, &node);
    assert_eq!(doc.nodes[root].attrs, vec![pair("class", "c"), pair("id", "x")]);
}

#[test]
fn div_with_text_child_attaches_fully_built() {
    let mut doc = container();
    let mut log: Vec<DomOp> = Vec::new();
    let node = TreeNode::Element {
        name: "div".to_string(),
        attributes: Vec::new(),
        children: vec![TreeNode::Text { content: "hi".to_string() }],
    };
    let root = apply_vnode(&mut doc, &mut log, 0, &node);
    // Exactly one new child of the container, a div element.
    assert_eq!(doc.nodes[0].children, vec![root]);
    assert!(doc.nodes[root].is_element);
    assert_eq!(doc.nodes[root].name, "div");
    // The div holds exactly one text child with the content.
    assert_eq!(doc.nodes[root].children, vec![root + 1]);
    assert!(!doc.nodes[root + 1].is_element);
    assert_eq!(doc.nodes[root + 1].text, "hi");
    // Build then attach: the div joins the container only by the very
    // last operation, after its own child is built and attached to it.
    assert_eq!(
        log,
        vec![
            DomOp::CreateElement { id: 1, name: "div".to_string() },
            DomOp::CreateText { id: 2, content: "hi".to_string() },
            DomOp::AppendChild { parent: 1, child: 2 },
            DomOp::AppendChild { parent: 0, child: 1 },
        ]
    );
    assert_eq!(log.last(), Some(&DomOp::AppendChild { parent: 0, child: 1 }));
}

#[test]
fn tree_root_children_are_applied_in_order() {
    let mut doc = container();
    let mut log: Vec<DomOp> = Vec::new();
    let tree = TreeNode::Element {
        name: "app".to_string(),
        attributes: Vec::new(),
        children: vec![
            TreeNode::Element {
                name: "span".to_string(),
                attributes: vec![pair("id", "first")],
                children: Vec::new(),
            },
            TreeNode::Text { content: "tail".to_string() },
        ],
    };
    apply_dom_tree(&mut doc, &mut log, 0, &tree);
    // The logical container itself is not materialized: only its two
    // children hang under the target, in order.
    assert_eq!(doc.nodes.len(), 3);
    assert_eq!(doc.nodes[0].children, vec![1, 2]);
    assert!(doc.nodes[1].is_element);
    assert_eq!(doc.nodes[1].name, "span");
    assert_eq!(doc.nodes[1].attrs, vec![pair("id", "first")]);
    assert!(!doc.nodes[2].is_element);
    assert_eq!(doc.nodes[2].text, "tail");
}

#[test]
fn style_node_carries_css_as_text() {
    let mut doc = container();
    let mut log: Vec<DomOp> = Vec::new();
    let root = apply_style_node(&mut doc, &mut log, 0, "div { display: none; }");
    assert_eq!(root, 1);
    assert!(doc.nodes[root].is_element);
    assert_eq!(doc.nodes[root].name, "style");
    assert!(doc.nodes[root].attrs.is_empty());
    assert_eq!(doc.nodes[root].children, vec![2]);
    assert_eq!(doc.nodes[2].text, "div { display: none; }");
    assert_eq!(log.len(), 4);
    assert_eq!(log[3], DomOp::AppendChild { parent: 0, child: 1 });
}
