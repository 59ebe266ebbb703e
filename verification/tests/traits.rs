use flat_template::attributes::{attr_dyn, static_attr, AttrName};
use flat_template::elements::{el, TagName};
use flat_template::op_builder::{drive, Op, RawOp, RawTape};
use flat_template::text::{dynamic, static_text, TextNode};
use flat_template::traits::{
    AttributeValue, DynamicNode, DynamicValue, DynamicValues, TemplatePath, TemplatePathSegment,
    View,
};

struct Div;

impl TagName for Div {
    const NAME: &'static str = "div";
}

struct Style;

impl AttrName for Style {
    const NAME: &'static str = "style";
}

struct Red;

impl TextNode for Red {
    const TEXT: &'static str = "color: red";
}

struct Hello;

impl TextNode for Hello {
    const TEXT: &'static str = "Hello";
}

#[test]
fn dynamic_text_pushes_runtime_value() {
    let vnode = dynamic("Ada").into_vnode();

    assert_eq!(vnode.template().dyns.len(), 1);
    assert_eq!(vnode.dynamic().len(), 1);
    match &vnode.dynamic().values()[0] {
        DynamicValue::DynamicNode(DynamicNode::Text(text)) => {
            assert_eq!(text.value, "Ada");
        }
        other => panic!("expected dynamic text node, got {other:?}"),
    }
}

#[test]
fn dynamic_attribute_pushes_runtime_value() {
    let vnode = el::<Div>()
        .attr(attr_dyn::<Style>("color: crimson"))
        .into_vnode();

    assert_eq!(vnode.template().dyns.len(), 1);
    assert_eq!(vnode.dynamic().len(), 1);
    match &vnode.dynamic().values()[0] {
        DynamicValue::Attributes(attrs) => {
            assert_eq!(attrs.len(), 1);
            assert_eq!(attrs[0].name, "style");
            assert_eq!(attrs[0].namespace, None);
            assert!(!attrs[0].volatile);
            assert_eq!(
                attrs[0].value,
                AttributeValue::Text("color: crimson".to_string())
            );
        }
        other => panic!("expected dynamic attribute, got {other:?}"),
    }
}

#[test]
fn composed_view_pushes_values_in_template_order() {
    let vnode = flat_template::card("color: crimson", "Welcome", "Ada").into_vnode();

    assert_eq!(vnode.template().dyns.len(), 3);
    assert_eq!(vnode.dynamic().len(), 3);
    match vnode.dynamic().values() {
        [
            DynamicValue::Attributes(attrs),
            DynamicValue::DynamicNode(DynamicNode::Text(title)),
            DynamicValue::DynamicNode(DynamicNode::Text(name)),
        ] => {
            assert_eq!(attrs[0].name, "style");
            assert_eq!(
                attrs[0].value,
                AttributeValue::Text("color: crimson".to_string())
            );
            assert_eq!(title.value, "Welcome");
            assert_eq!(name.value, "Ada");
        }
        other => panic!("unexpected dynamic values: {other:?}"),
    }
}

#[test]
fn dynamic_template_has_one_dyn_and_two_ops() {
    let vnode = dynamic("x").into_vnode();
    let t = vnode.template();
    assert_eq!(t.dyns.len(), 1);
    assert_eq!(t.ops, vec![Op::Text, Op::Dyn(0)]);
    assert_eq!(t.dyns[0].bits(), 1);
}

#[test]
fn card_template_ops_and_paths() {
    let vnode = flat_template::card("s", "t", "n").into_vnode();
    let t = vnode.template();
    let paths: Vec<u128> = t.dyns.iter().map(|p| p.bits()).collect();
    // style on the div (path 1); title text is the second child of the h2, which is
    // the first child of the div; the name is inside the span, the second child of the p.
    assert_eq!(paths, vec![0b1, 0b1_1_1_0, 0b1_1_0_1_0_1]);
    assert_eq!(t.ops[0], Op::Enter { skip: t.ops.len() as u16, ns: false });
    assert_eq!(t.strings.str_at(0), "div");
    assert_eq!(t.strings.str_at(1), "class");
    assert_eq!(t.strings.str_at(2), "card");
    assert_eq!(t.strings.str_at(3), "style");
}

#[test]
fn drive_sets_enter_skips() {
    let raw = RawTape::new()
        .push(RawOp::Open("a"))
        .push(RawOp::Open("b"))
        .push(RawOp::Close)
        .push(RawOp::TextNode)
        .push(RawOp::Text("hi"))
        .push(RawOp::Close);
    let t = drive(raw);
    assert_eq!(
        t.ops,
        vec![
            Op::Enter { skip: 6, ns: false },
            Op::Static(0),
            Op::Enter { skip: 2, ns: false },
            Op::Static(1),
            Op::Text,
            Op::Static(2),
        ]
    );
    assert!(t.dyns.is_empty());
}

#[test]
fn template_path_moves() {
    let root = TemplatePath::empty();
    assert_eq!(root.bits(), 0);
    let child = root.next_child();
    assert_eq!(child.bits(), 1);
    let sib = child.next_sibling();
    assert_eq!(sib.bits(), 0b10);
    assert_eq!(sib.parent(), child);
    assert_eq!(child.next_child().parent(), child);
    let mut p = child.next_child();
    assert_eq!(p.pop_front(), TemplatePathSegment::Child);
    assert_eq!(p, child);
    let mut q = child.next_sibling();
    assert_eq!(q.pop_front(), TemplatePathSegment::Sibling);
    assert_eq!(q, child);
}

#[test]
fn template_path_iter_yields_latest_move_first() {
    assert_eq!(TemplatePath::empty().iter(), vec![]);
    let p = TemplatePath::empty().next_child().next_sibling();
    assert_eq!(
        p.iter(),
        vec![TemplatePathSegment::Sibling, TemplatePathSegment::Child]
    );
    let mut q = p;
    let popped = vec![q.pop_front(), q.pop_front()];
    assert_eq!(p.iter(), popped);
    assert_eq!(q, TemplatePath::empty());
}

#[test]
fn dynamic_values_key_and_default() {
    let mut values = DynamicValues::default();
    assert!(values.is_empty());
    values.set_key("k".to_string());
    assert_eq!(values.len(), 0);
}

#[test]
fn path_keeps_all_of_128_moves() {
    let moves: Vec<TemplatePathSegment> = (0..128)
        .map(|i| {
            if i % 3 == 0 {
                TemplatePathSegment::Child
            } else {
                TemplatePathSegment::Sibling
            }
        })
        .collect();
    let mut path = TemplatePath::empty();
    for m in &moves {
        path = match m {
            TemplatePathSegment::Child => path.next_child(),
            TemplatePathSegment::Sibling => path.next_sibling(),
        };
    }
    let mut popped = Vec::new();
    for _ in 0..128 {
        popped.push(path.pop_front());
    }
    let mut expected = moves.clone();
    expected.reverse();
    assert_eq!(popped, expected);
    assert_eq!(path, TemplatePath::empty());
}

#[test]
fn each_dynamic_value_matches_the_op_before_its_dyn() {
    let vnode = flat_template::card("color: crimson", "Welcome", "Ada").into_vnode();
    let kinds: Vec<bool> = vnode
        .dynamic()
        .values()
        .iter()
        .map(|v| matches!(v, DynamicValue::Attributes(_)))
        .collect();
    assert_eq!(kinds, vec![true, false, false]);
}

#[test]
fn static_attribute_and_text_go_into_the_template() {
    let vnode = el::<Div>()
        .attr(static_attr::<Style, Red>())
        .child(static_text::<Hello>())
        .into_vnode();
    let t = vnode.template();
    assert!(t.dyns.is_empty());
    assert!(vnode.dynamic().is_empty());
    assert_eq!(
        t.ops,
        vec![
            Op::Enter { skip: 7, ns: false },
            Op::Static(0),
            Op::Attr,
            Op::Static(1),
            Op::Static(2),
            Op::Text,
            Op::Static(3),
        ]
    );
    assert_eq!(t.strings.values(), vec!["div", "style", "color: red", "Hello"]);
}

#[test]
fn path_debug_text_lists_its_segments() {
    let p = TemplatePath::empty().next_child().next_sibling();
    assert_eq!(
        p.debug_string(),
        "TemplatePath { path: [Sibling, Child] }"
    );
    assert_eq!(
        TemplatePath::empty().debug_string(),
        "TemplatePath { path: [] }"
    );
}
