use fervid::ast::{
    Conditional, ElementKind, ElementNode, Node, StartingTag,
    VueDirectives,
};

use fervid::classify::recognize_element_kind;
use fervid::codegen::{js, to_str};

use fervid::sfc::SfcTemplateBlock;
use fervid::transform::transform_and_record_template;

/// Special case: `<component>` without `is` attribute is not a builtin
#[test]
fn it_distinguishes_component_builtin_and_not() {
    let starting_tag = StartingTag {
        tag_name: "component".to_string(),
        attributes: vec![],
        directives: None,
    };
    assert!(matches!(recognize_element_kind(&starting_tag), ElementKind::Component));
}

#[test]
fn it_folds_basic_seq() {
    // <template><div>
    //   text
    //   <h1 v-if="true">if</h1>
    //   <h2 v-else-if="foo">else-if</h2>
    //   <h3 v-else>else</h3>
    // </div></template>
    let mut sfc_template = SfcTemplateBlock {
        lang: "html".to_string(),
        roots: vec![Node::Element(ElementNode {
            starting_tag: StartingTag {
                tag_name: "div".to_string(),
                attributes: vec![],
                directives: None,
            },
            children: vec![text_node(), if_node(), else_if_node(), else_node()],
            template_scope: 0,
            kind: ElementKind::Element,
            patch_hints: Default::default(),
        })],
    };

    transform_and_record_template(&mut sfc_template, &mut Default::default());

    // Template roots: one div
    assert_eq!(1, sfc_template.roots.len());
    let Node::Element(ref div) = sfc_template.roots[0] else {
        panic!("Root is not an element")
    };

    // Text and conditional seq
    assert_eq!(2, div.children.len());
    check_text_node(&div.children[0]);
    let Node::ConditionalSeq(seq) = &div.children[1] else {
        panic!("Not a conditional sequence")
    };

    // <h1 v-if="true">if</h1>
    check_if_node(&seq.if_node);

    // <h2 v-else-if="foo">else-if</h3>
    assert_eq!(1, seq.else_if_nodes.len());
    check_else_if_node(&seq.else_if_nodes[0]);

    // <h3 v-else>else</h3>
    check_else_node(seq.else_node.as_ref());
}

#[test]
fn it_folds_roots() {
    // <template>
    //   <h1 v-if="true">if</h1>
    //   <h2 v-else-if="foo">else-if</h2>
    //   <h3 v-else>else</h3>
    // </template>
    let mut sfc_template = SfcTemplateBlock {
        lang: "html".to_string(),
        roots: vec![if_node(), else_if_node(), else_node()],
    };

    transform_and_record_template(&mut sfc_template, &mut Default::default());

    // Template roots: one conditional sequence
    assert_eq!(1, sfc_template.roots.len());
    let Node::ConditionalSeq(ref seq) = sfc_template.roots[0] else {
        panic!("Root is not a conditional sequence")
    };

    check_if_node(&seq.if_node);
    assert_eq!(1, seq.else_if_nodes.len());
    check_else_if_node(&seq.else_if_nodes[0]);
    check_else_node(seq.else_node.as_ref());
}

#[test]
fn it_folds_multiple_ifs() {
    // <template>
    //   <h1 v-if="true">if</h1>
    //   <h1 v-if="true">if</h1>
    // </template>
    let mut sfc_template = SfcTemplateBlock {
        lang: "html".to_string(),
        roots: vec![if_node(), if_node()],
    };

    transform_and_record_template(&mut sfc_template, &mut Default::default());

    // Template roots: two conditional sequences inside one root
    assert_eq!(1, sfc_template.roots.len());
    let Node::Element(ref root) = sfc_template.roots[0] else {
        panic!("root is not an element")
    };
    let Node::ConditionalSeq(ref seq) = root.children[0] else {
        panic!("root.children[0] is not a conditional sequence")
    };
    check_if_node(&seq.if_node);

    let Node::ConditionalSeq(ref seq) = root.children[1] else {
        panic!("root.children[1] not a conditional sequence")
    };
    check_if_node(&seq.if_node);
}

#[test]
fn it_folds_multiple_else_ifs() {
    // <template>
    //   <h1 v-if="true">if</h1>
    //   <h2 v-else-if="foo">else-if</h2>
    //   <h1 v-if="true">if</h1>
    //   <h2 v-else-if="foo">else-if</h2>
    // </template>
    let mut sfc_template = SfcTemplateBlock {
        lang: "html".to_string(),
        roots: vec![if_node(), else_if_node(), if_node(), else_if_node()],
    };

    transform_and_record_template(&mut sfc_template, &mut Default::default());

    // Template roots: two conditional sequences inside one root
    assert_eq!(1, sfc_template.roots.len());
    let Node::Element(ref root) = sfc_template.roots[0] else {
        panic!("root is not an element")
    };
    let Node::ConditionalSeq(ref seq) = root.children[0] else {
        panic!("roots[0] is not a conditional sequence")
    };
    check_if_node(&seq.if_node);
    check_else_if_node(&seq.else_if_nodes[0]);

    let Node::ConditionalSeq(ref seq) = root.children[1] else {
        panic!("roots[1] not a conditional sequence")
    };
    check_if_node(&seq.if_node);
    check_else_if_node(&seq.else_if_nodes[0]);
}

#[test]
fn it_leaves_bad_nodes() {
    // <template>
    //   <h2 v-else-if="foo">else-if</h2>
    //   <h3 v-else>else</h3>
    // </template>
    let mut sfc_template = SfcTemplateBlock {
        lang: "html".to_string(),
        roots: vec![else_if_node(), else_node()],
    };

    transform_and_record_template(&mut sfc_template, &mut Default::default());

    // Template root children: still two
    assert_eq!(1, sfc_template.roots.len());
    let Node::Element(ref root) = sfc_template.roots[0] else {
        panic!("root is not an element")
    };
    assert!(matches!(root.children[0], Node::Element(_)));
    assert!(matches!(root.children[1], Node::Element(_)));
}

#[test]
fn it_handles_complex_cases() {
    // <template><div>
    //   text
    //   <h1 v-if="true">if</h1>
    //   text
    //   <h1 v-if="true">if</h1>
    //   <h2 v-else-if="foo">else-if</h2>
    //   text
    //   <h1 v-if="true">if</h1>
    //   <h3 v-else>else</h3>
    // </div></template>
    let mut sfc_template = SfcTemplateBlock {
        lang: "html".to_string(),
        roots: vec![Node::Element(ElementNode {
            starting_tag: StartingTag {
                tag_name: "div".to_string(),
                attributes: vec![],
                directives: None,
            },
            children: vec![
                text_node(),
                if_node(),
                text_node(),
                if_node(),
                else_if_node(),
                text_node(),
                if_node(),
                else_node(),
            ],
            template_scope: 0,
            kind: ElementKind::Element,
            patch_hints: Default::default(),
        })],
    };

    transform_and_record_template(&mut sfc_template, &mut Default::default());

    // Template roots: one div
    assert_eq!(1, sfc_template.roots.len());
    let Node::Element(ref div) = sfc_template.roots[0] else {
        panic!("Root is not an element")
    };

    assert_eq!(6, div.children.len());
    check_text_node(&div.children[0]);
    check_text_node(&div.children[2]);
    check_text_node(&div.children[4]);
    assert!(matches!(&div.children[1], Node::ConditionalSeq(_)));
    assert!(matches!(&div.children[3], Node::ConditionalSeq(_)));
    assert!(matches!(&div.children[5], Node::ConditionalSeq(_)));
}

#[test]
fn it_ignores_node_without_conditional_directives() {
    let no_directives1 = Node::Element(ElementNode {
        starting_tag: StartingTag {
            tag_name: "test-component".to_string(),
            attributes: vec![],
            directives: Some(Box::new(VueDirectives { ..Default::default() })),
        },
        children: vec![],
        template_scope: 0,
        kind: ElementKind::Element,
        patch_hints: Default::default(),
    });

    let no_directives2 = Node::Element(ElementNode {
        starting_tag: StartingTag {
            tag_name: "div".to_string(),
            attributes: vec![],
            directives: Some(Box::new(VueDirectives { ..Default::default() })),
        },
        children: vec![Node::Text("hello".to_string())],
        template_scope: 0,
        kind: ElementKind::Element,
        patch_hints: Default::default(),
    });

    let mut sfc_template = SfcTemplateBlock {
        lang: "html".to_string(),
        roots: vec![no_directives1, no_directives2],
    };

    transform_and_record_template(&mut sfc_template, &mut Default::default());

    // Template root: both children nodes are still present
    assert_eq!(1, sfc_template.roots.len());
    let Node::Element(ref root) = sfc_template.roots[0] else {
        panic!("root is not an element")
    };
    assert_eq!(2, root.children.len());
}

// text
fn text_node() -> Node {
    Node::Text("text".to_string())
}

fn check_text_node(node: &Node) {
    assert!(matches!(node, Node::Text(text) if text == "text"));
}

// <h1 v-if="true">if</h1>
fn if_node() -> Node {
    Node::Element(ElementNode {
        starting_tag: StartingTag {
            tag_name: "h1".to_string(),
            attributes: vec![],
            directives: Some(Box::new(VueDirectives {
                v_if: Some(js("true")),
                ..Default::default()
            })),
        },
        children: vec![Node::Text("if".to_string())],
        template_scope: 0,
        kind: ElementKind::Element,
        patch_hints: Default::default(),
    })
}

fn check_if_node(if_node: &Conditional) {
    assert_eq!("true", to_str(&if_node.condition));
    assert!(matches!(
        &if_node.node,
        ElementNode {
            starting_tag: StartingTag { tag_name, .. },
            ..
        } if tag_name == "h1"
    ));
}

// <h2 v-else-if="foo">else-if</h3>
fn else_if_node() -> Node {
    Node::Element(ElementNode {
        starting_tag: StartingTag {
            tag_name: "h2".to_string(),
            attributes: vec![],
            directives: Some(Box::new(VueDirectives {
                v_else_if: Some(js("foo")),
                ..Default::default()
            })),
        },
        children: vec![Node::Text("else-if".to_string())],
        template_scope: 0,
        kind: ElementKind::Element,
        patch_hints: Default::default(),
    })
}

fn check_else_if_node(else_if_node: &Conditional) {
    // condition, then node
    assert_eq!("_ctx.foo", to_str(&else_if_node.condition));
    assert!(matches!(
        &else_if_node.node,
        ElementNode {
            starting_tag: StartingTag { tag_name, .. },
            ..
        } if tag_name == "h2"
    ));
}

// <h3 v-else>else</h3>
fn else_node() -> Node {
    Node::Element(ElementNode {
        starting_tag: StartingTag {
            tag_name: "h3".to_string(),
            attributes: vec![],
            directives: Some(Box::new(VueDirectives {
                v_else: true,
                ..Default::default()
            })),
        },
        children: vec![Node::Text("else".to_string())],
        template_scope: 0,
        kind: ElementKind::Element,
        patch_hints: Default::default(),
    })
}

fn check_else_node(else_node: Option<&Box<ElementNode>>) {
    let else_node = else_node.expect("Must have else node");
    assert!(matches!(
        &**else_node,
        ElementNode {
            starting_tag: StartingTag { tag_name, .. },
            ..
        } if tag_name == "h3"
    ));
}

