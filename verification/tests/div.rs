use vertigo::vdom::{VDom, VDomNode};

fn assert_empty(node: &VDomNode, name: &str) {
    assert_eq!(node.name, name);
    assert_eq!(node.attr.len(), 0);
    assert_eq!(node.child.len(), 0);
}

fn get_text(el: &VDom) -> &String {
    match el {
        VDom::Text { value } => value,
        VDom::Node { .. } => panic!("expected a text node"),
    }
}

fn get_node(el: &VDom) -> &VDomNode {
    match el {
        VDom::Node { node } => node,
        VDom::Text { .. } => panic!("expected an element"),
    }
}

#[test]
fn empty_div() {
    let el = VDomNode::new("div");
    assert_empty(&el, "div");
}

#[test]
fn div_with_text() {
    let mut div = VDomNode::new("div");
    div.add_child(VDom::text("Some text"));

    assert_eq!(div.name, "div");
    assert_eq!(div.child.len(), 1);

    let text = get_text(&div.child[0]);
    assert_eq!(text, "Some text");
}

#[test]
fn div_with_div() {
    let mut div = VDomNode::new("div");
    div.add_child(VDom::node(VDomNode::new("div")));

    assert_eq!(div.name, "div");
    assert_eq!(div.child.len(), 1);

    let inner = get_node(&div.child[0]);
    assert_empty(inner, "div");
}

#[test]
fn div_with_simple_expression() {
    let mut div = VDomNode::new("div");
    div.add_child(VDom::text_u64(5 + 5));

    assert_eq!(div.name, "div");
    assert_eq!(div.child.len(), 1);

    let inner = get_text(&div.child[0]);
    assert_eq!(inner, "10")
}

#[test]
fn div_with_value_expression() {
    let x: u64 = 6;
    let y: u64 = 3;
    let mut div = VDomNode::new("div");
    div.add_child(VDom::text_u64(x + y));

    assert_eq!(div.name, "div");
    assert_eq!(div.child.len(), 1);

    let inner = get_text(&div.child[0]);
    assert_eq!(inner, "9")
}

#[test]
fn attributes_are_replaced_not_repeated() {
    let mut div = VDomNode::new("div");
    div.add_attr("class", "a");
    div.add_attr("id", "main");
    div.add_attr("class", "b");
    assert_eq!(div.attr.len(), 2);
    assert_eq!(div.attr[0].0, "class");
    assert_eq!(div.attr[0].1, "b");
    assert_eq!(div.attr[1].0, "id");
    assert_eq!(div.attr[1].1, "main");
}
