use fervid::ast::{
    AttributeOrBinding, BuiltinType, ElementKind, ElementNode, Node, StartingTag, VBindDirective,
};
use fervid::codegen::{js, CodegenContext};

#[test]
fn it_generates_empty_transition_group() {
    // <transition-group></transition-group>
    test_out(
        ElementNode {
            kind: ElementKind::Builtin(BuiltinType::TransitionGroup),
            starting_tag: StartingTag {
                tag_name: "transition-group".to_string(),
                attributes: vec![],
                directives: None,
            },
            children: vec![],
            template_scope: 0,
            patch_hints: Default::default(),
        },
        r#"_createVNode(_TransitionGroup)"#,
    )
}

#[test]
fn it_generates_transition_group_attrs() {
    // <transition-group foo="bar" :baz="qux"></transition-group>
    test_out(
        ElementNode {
            kind: ElementKind::Builtin(BuiltinType::TransitionGroup),
            starting_tag: StartingTag {
                tag_name: "transition-group".to_string(),
                attributes: vec![
                    AttributeOrBinding::RegularAttribute {
                        name: "foo".to_string(),
                        value: "bar".to_string(),
                    },
                    AttributeOrBinding::VBind(VBindDirective {
                        argument: Some(fervid::ast::StrOrExpr::Str("baz".to_string())),
                        value: js("qux"),
                        is_camel: false,
                        is_prop: false,
                        is_attr: false,
                    }),
                ],
                directives: None,
            },
            children: vec![],
            template_scope: 0,
            patch_hints: Default::default(),
        },
        r#"_createVNode(_TransitionGroup,{foo:"bar",baz:qux})"#,
    )
}

#[test]
fn it_generates_transition_group_children() {
    // <transition-group>foobar</transition-group>
    test_out(
        ElementNode {
            kind: ElementKind::Builtin(BuiltinType::TransitionGroup),
            starting_tag: StartingTag {
                tag_name: "transition-group".to_string(),
                attributes: vec![],
                directives: None,
            },
            children: vec![Node::Text("foobar".to_string())],
            template_scope: 0,
            patch_hints: Default::default(),
        },
        r#"_createVNode(_TransitionGroup,null,{"default":_withCtx(()=>[_createTextVNode("foobar")]),_:1})"#,
    )
}

#[test]
fn it_generates_full_transition_group() {
    // <transition-group foo="bar" :baz="qux">foobar</transition-group>
    test_out(
        ElementNode {
            kind: ElementKind::Builtin(BuiltinType::TransitionGroup),
            starting_tag: StartingTag {
                tag_name: "transition-group".to_string(),
                attributes: vec![
                    AttributeOrBinding::RegularAttribute {
                        name: "foo".to_string(),
                        value: "bar".to_string(),
                    },
                    AttributeOrBinding::VBind(VBindDirective {
                        argument: Some(fervid::ast::StrOrExpr::Str("baz".to_string())),
                        value: js("qux"),
                        is_camel: false,
                        is_prop: false,
                        is_attr: false,
                    }),
                ],
                directives: None,
            },
            children: vec![Node::Text("foobar".to_string())],
            template_scope: 0,
            patch_hints: Default::default(),
        },
        r#"_createVNode(_TransitionGroup,{foo:"bar",baz:qux},{"default":_withCtx(()=>[_createTextVNode("foobar")]),_:1})"#,
    )
}

fn test_out(input: ElementNode, expected: &str) {
    let mut ctx = CodegenContext::default();
    let out = ctx.generate_transition_group(&input);
    assert_eq!(out, expected)
}
