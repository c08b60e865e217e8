use fervid::ast::{
    AttributeOrBinding, BuiltinType, Conditional, ConditionalNodeSequence, ElementKind,
    ElementNode, Expr, ExprToken, Interpolation, Node, StartingTag, StrOrExpr, VBindDirective,
    VForDirective, VSlotDirective, VueDirectives,
};
use fervid::bindings::{BindingTypes, BindingsHelper, SetupBinding, TemplateGenerationMode};
use fervid::classify::recognize_element_kind;
use fervid::codegen::{decimal, js, str_or_expr_to_propname, to_str, CodegenContext};
use fervid::flags::{
    CLASS, FULL_PROPS, KEYED_FRAGMENT, PROPS, STABLE_FRAGMENT, STYLE, TEXT, UNKEYED_FRAGMENT,
};
use fervid::ident::{is_valid_ident, str_to_propname, to_camelcase, to_pascalcase};
use fervid::imports::VueImports;
use fervid::optimize::{elide_whitespace_nodes, fold_conditionals, is_blank, optimize_children};
use fervid::scope::{add_variable, find_scope, open_scope, TemplateScope};
use fervid::transform::{fragment_flags, visit_element_node};

fn el(tag: &str, attributes: Vec<AttributeOrBinding>, directives: Option<VueDirectives>, children: Vec<Node>) -> ElementNode {
    ElementNode {
        kind: ElementKind::Element,
        starting_tag: StartingTag {
            tag_name: tag.to_string(),
            attributes,
            directives: directives.map(Box::new),
        },
        children,
        template_scope: 0,
        patch_hints: Default::default(),
    }
}

fn bind(name: &str, value: &str) -> AttributeOrBinding {
    AttributeOrBinding::VBind(VBindDirective {
        argument: Some(StrOrExpr::Str(name.to_string())),
        value: js(value),
        is_camel: false,
        is_prop: false,
        is_attr: false,
    })
}

fn helper() -> BindingsHelper {
    let mut h = BindingsHelper::default();
    open_scope(&mut h.template_scopes, 0);
    h
}

fn text(t: &str) -> Node {
    Node::Text(t.to_string())
}

fn kinds(nodes: &Vec<Node>) -> Vec<&'static str> {
    nodes
        .iter()
        .map(|n| match n {
            Node::Element(_) => "element",
            Node::Text(_) => "text",
            Node::Comment(_) => "comment",
            Node::Interpolation(_) => "interpolation",
            Node::ConditionalSeq(_) => "seq",
        })
        .collect()
}

fn cond(which: &str, tag: &str) -> Node {
    let d = match which {
        "if" => VueDirectives { v_if: Some(js("ok")), ..Default::default() },
        "else-if" => VueDirectives { v_else_if: Some(js("other")), ..Default::default() },
        _ => VueDirectives { v_else: true, ..Default::default() },
    };
    Node::Element(el(tag, vec![], Some(d), vec![]))
}

#[test]
fn whitespace_elision_twice_changes_nothing() {
    let nodes = vec![
        text("  "),
        Node::Element(el("a", vec![], None, vec![])),
        text(" \n "),
        Node::Comment("c".to_string()),
        text(" "),
        text("x"),
        text("\t"),
    ];
    let once = elide_whitespace_nodes(nodes);
    assert_eq!(kinds(&once), vec!["element", "comment", "text", "text"]);
    let twice = elide_whitespace_nodes(once);
    assert_eq!(kinds(&twice), vec!["element", "comment", "text", "text"]);
}

#[test]
fn whitespace_elision_leading_blank_pair_needs_two_runs() {
    let nodes = vec![text(" "), text(" "), Node::Element(el("a", vec![], None, vec![]))];
    let once = elide_whitespace_nodes(nodes);
    assert_eq!(kinds(&once), vec!["text", "element"]);
    let twice = elide_whitespace_nodes(once);
    assert_eq!(kinds(&twice), vec!["element"]);
}

#[test]
fn whitespace_between_text_and_element_is_kept() {
    let nodes = vec![
        Node::Element(el("a", vec![], None, vec![])),
        text(" "),
        Node::Interpolation(Interpolation { value: js("x"), template_scope: 0, patch_flag: false }),
        text(" "),
        Node::Element(el("b", vec![], None, vec![])),
    ];
    let out = elide_whitespace_nodes(nodes);
    assert_eq!(out.len(), 5);
}

#[test]
fn fold_keeps_branch_order_and_payloads() {
    let nodes = vec![
        cond("if", "h1"),
        Node::Comment("between".to_string()),
        cond("else-if", "h2"),
        cond("else-if", "h4"),
        cond("else", "h3"),
        text("after"),
    ];
    let out = fold_conditionals(nodes);
    assert_eq!(kinds(&out), vec!["seq", "text"]);
    let Node::ConditionalSeq(seq) = &out[0] else { panic!("not a sequence") };
    assert_eq!(seq.if_node.node.starting_tag.tag_name, "h1");
    assert_eq!(to_str(&seq.if_node.condition), "ok");
    assert!(seq.if_node.node.starting_tag.directives.as_ref().unwrap().v_if.is_none());
    assert_eq!(seq.else_if_nodes.len(), 2);
    assert_eq!(seq.else_if_nodes[0].node.starting_tag.tag_name, "h2");
    assert_eq!(seq.else_if_nodes[1].node.starting_tag.tag_name, "h4");
    assert_eq!(to_str(&seq.else_if_nodes[1].condition), "other");
    assert_eq!(seq.else_node.as_ref().unwrap().starting_tag.tag_name, "h3");
}

#[test]
fn orphan_else_if_and_else_stay_plain() {
    let out = fold_conditionals(vec![cond("else-if", "h2")]);
    assert_eq!(kinds(&out), vec!["element"]);
    let Node::Element(e) = &out[0] else { panic!("not an element") };
    assert!(e.starting_tag.directives.as_ref().unwrap().v_else_if.is_some());

    let out = fold_conditionals(vec![text("t"), cond("else", "h3"), cond("else-if", "h2")]);
    assert_eq!(kinds(&out), vec!["text", "element", "element"]);
}

#[test]
fn named_slots_come_first_under_a_component() {
    let named = Node::Element(el(
        "template",
        vec![],
        Some(VueDirectives {
            v_slot: Some(VSlotDirective { slot_name: Some(StrOrExpr::Str("header".to_string())), value: None }),
            ..Default::default()
        }),
        vec![],
    ));
    let mut children = vec![text("body"), named];
    optimize_children(&mut children, ElementKind::Component);
    assert_eq!(kinds(&children), vec!["element", "text"]);
}

#[test]
fn full_props_clears_class_style_and_names() {
    let dynamic_arg = AttributeOrBinding::VBind(VBindDirective {
        argument: Some(StrOrExpr::Expr(js("key"))),
        value: js("value"),
        is_camel: false,
        is_prop: false,
        is_attr: false,
    });
    let node = el(
        "div",
        vec![bind("class", "a"), bind("style", "b"), bind("title", "c"), dynamic_arg, bind("id", "d")],
        None,
        vec![],
    );
    let mut h = helper();
    let out = visit_element_node(&mut h, 0, node);
    assert_eq!(out.patch_hints.flags, FULL_PROPS);
    assert!(out.patch_hints.props.is_empty());
}

#[test]
fn element_bindings_set_class_style_props() {
    let node = el(
        "div",
        vec![bind("class", "a"), bind("style", "b"), bind("title", "c"), bind("key", "k")],
        None,
        vec![],
    );
    let mut h = helper();
    let out = visit_element_node(&mut h, 0, node);
    assert_eq!(out.patch_hints.flags, CLASS | STYLE | PROPS);
    assert_eq!(out.patch_hints.props, vec!["title".to_string()]);
}

#[test]
fn component_bindings_are_props() {
    let node = el("my-comp", vec![bind("class", "a"), bind("foo", "b")], None, vec![]);
    let mut h = helper();
    let out = visit_element_node(&mut h, 0, node);
    assert_eq!(out.kind, ElementKind::Component);
    assert_eq!(out.patch_hints.flags, PROPS);
    assert_eq!(out.patch_hints.props, vec!["class".to_string(), "foo".to_string()]);
}

#[test]
fn constant_binding_adds_no_flag() {
    let node = el("div", vec![bind("title", "msg")], None, vec![]);
    let mut h = helper();
    h.setup_bindings.push(SetupBinding("msg".to_string(), BindingTypes::LiteralConst));
    let out = visit_element_node(&mut h, 0, node);
    assert_eq!(out.patch_hints.flags, 0);
}

#[test]
fn v_for_gets_exactly_one_fragment_flag() {
    assert_eq!(fragment_flags(0, false, false), STABLE_FRAGMENT);
    assert_eq!(fragment_flags(0, true, true), KEYED_FRAGMENT);
    assert_eq!(fragment_flags(0, true, false), UNKEYED_FRAGMENT);
    assert_eq!(fragment_flags(STABLE_FRAGMENT | TEXT, true, false), UNKEYED_FRAGMENT | TEXT);

    let v_for = |iterable: &str| VueDirectives {
        v_for: Some(VForDirective { iterable: js(iterable), itervar: js("item"), patch_flags: 0 }),
        ..Default::default()
    };
    let mut h = helper();
    let out = visit_element_node(&mut h, 0, el("li", vec![], Some(v_for("3")), vec![]));
    assert_eq!(out.starting_tag.directives.unwrap().v_for.unwrap().patch_flags, STABLE_FRAGMENT);
    let out = visit_element_node(&mut h, 0, el("li", vec![bind("key", "item")], Some(v_for("items")), vec![]));
    assert_eq!(out.starting_tag.directives.unwrap().v_for.unwrap().patch_flags, KEYED_FRAGMENT);
    let out = visit_element_node(&mut h, 0, el("li", vec![], Some(v_for("items")), vec![]));
    assert_eq!(out.starting_tag.directives.unwrap().v_for.unwrap().patch_flags, UNKEYED_FRAGMENT);
}

#[test]
fn text_flag_for_dynamic_interpolation_only_child() {
    let interp = Node::Interpolation(Interpolation { value: js("msg"), template_scope: 0, patch_flag: false });
    let mut h = helper();
    let out = visit_element_node(&mut h, 0, el("p", vec![], None, vec![interp]));
    assert_eq!(out.patch_hints.flags, TEXT);

    let interp = Node::Interpolation(Interpolation { value: js("msg"), template_scope: 0, patch_flag: false });
    let child = Node::Element(el("span", vec![], None, vec![]));
    let out = visit_element_node(&mut h, 0, el("p", vec![], None, vec![interp, child]));
    assert_eq!(out.patch_hints.flags, 0);
}

#[test]
fn scope_lookup_follows_parents_only() {
    let mut scopes: Vec<TemplateScope> = Vec::new();
    let root = open_scope(&mut scopes, 0);
    add_variable(&mut scopes, root, "a".to_string());
    let left = open_scope(&mut scopes, root);
    add_variable(&mut scopes, left, "b".to_string());
    let right = open_scope(&mut scopes, root);
    add_variable(&mut scopes, right, "c".to_string());
    let inner = open_scope(&mut scopes, left);
    assert_eq!(find_scope(&scopes, inner, "a"), Some(root));
    assert_eq!(find_scope(&scopes, inner, "b"), Some(left));
    assert_eq!(find_scope(&scopes, inner, "c"), None);
    assert_eq!(find_scope(&scopes, left, "c"), None);
    assert_eq!(find_scope(&scopes, root, "b"), None);
    assert_eq!(find_scope(&scopes, right, "c"), Some(right));
}

#[test]
fn loop_variable_is_local_in_its_element() {
    let interp = Node::Interpolation(Interpolation { value: js("item"), template_scope: 0, patch_flag: false });
    let d = VueDirectives {
        v_for: Some(VForDirective { iterable: js("items"), itervar: js("item"), patch_flags: 0 }),
        ..Default::default()
    };
    let mut h = helper();
    let out = visit_element_node(&mut h, 0, el("li", vec![], Some(d), vec![interp]));
    let Node::Interpolation(i) = &out.children[0] else { panic!("not an interpolation") };
    assert_eq!(to_str(&i.value), "item");
    assert!(i.patch_flag);
    assert_eq!(to_str(&out.starting_tag.directives.unwrap().v_for.unwrap().iterable), "_ctx.items");
}

#[test]
fn identifiers_resolve_by_binding_kind() {
    let mut h = BindingsHelper::default();
    h.setup_bindings.push(SetupBinding("count".to_string(), BindingTypes::SetupRef));
    h.setup_bindings.push(SetupBinding("title".to_string(), BindingTypes::Props));
    let mut e = Expr {
        tokens: vec![
            ExprToken::Ident("count".to_string()),
            ExprToken::Raw("+".to_string()),
            ExprToken::Ident("title".to_string()),
            ExprToken::Raw("+".to_string()),
            ExprToken::Ident("other".to_string()),
        ],
    };
    assert!(h.transform_expr(&mut e, 0));
    assert_eq!(to_str(&e), "$setup.count+$props.title+_ctx.other");
    assert_eq!(h.used_bindings.len(), 3);
    assert_eq!(h.used_bindings[2].1, BindingTypes::Unresolved);

    let mut h = BindingsHelper::default();
    h.template_generation_mode = TemplateGenerationMode::Inline;
    h.setup_bindings.push(SetupBinding("count".to_string(), BindingTypes::SetupRef));
    h.setup_bindings.push(SetupBinding("maybe".to_string(), BindingTypes::SetupMaybeRef));
    let mut e = Expr {
        tokens: vec![
            ExprToken::Ident("count".to_string()),
            ExprToken::Raw("+".to_string()),
            ExprToken::Ident("maybe".to_string()),
        ],
    };
    h.transform_expr(&mut e, 0);
    assert_eq!(to_str(&e), "count.value+_unref(maybe)");

    let mut h = BindingsHelper::default();
    h.setup_bindings.push(SetupBinding("PI".to_string(), BindingTypes::LiteralConst));
    let mut e = js("PI");
    assert!(!h.transform_expr(&mut e, 0));
    assert_eq!(to_str(&e), "PI");
}

#[test]
fn classifier_examples() {
    let tag = |name: &str, attributes: Vec<AttributeOrBinding>| StartingTag {
        tag_name: name.to_string(),
        attributes,
        directives: None,
    };
    let is_attr = AttributeOrBinding::RegularAttribute { name: "is".to_string(), value: "x".to_string() };
    assert_eq!(recognize_element_kind(&tag("component", vec![])), ElementKind::Component);
    assert_eq!(
        recognize_element_kind(&tag("component", vec![is_attr])),
        ElementKind::Builtin(BuiltinType::Component)
    );
    assert_eq!(recognize_element_kind(&tag("component", vec![bind("is", "comp")])), ElementKind::Builtin(BuiltinType::Component));
    assert_eq!(recognize_element_kind(&tag("transition", vec![])), ElementKind::Builtin(BuiltinType::Transition));
    assert_eq!(recognize_element_kind(&tag("KeepAlive", vec![])), ElementKind::Builtin(BuiltinType::KeepAlive));
    assert_eq!(recognize_element_kind(&tag("div", vec![])), ElementKind::Element);
    assert_eq!(recognize_element_kind(&tag("my-button", vec![])), ElementKind::Component);
}

#[test]
fn case_conversion() {
    let mut buf = String::new();
    to_camelcase("foo-bar-baz", &mut buf);
    assert_eq!(buf, "fooBarBaz");
    let mut buf = String::from("x");
    to_camelcase("-ab--cd", &mut buf);
    assert_eq!(buf, "xAbCd");
    let mut buf = String::new();
    to_pascalcase("foo-bar", &mut buf);
    assert_eq!(buf, "FooBar");
    let mut buf = String::new();
    to_pascalcase("ß", &mut buf);
    assert_eq!(buf, "SS");
}

#[test]
fn identifier_validity_and_keys() {
    assert!(is_valid_ident("foo"));
    assert!(is_valid_ident("$x_1"));
    assert!(!is_valid_ident("default"));
    assert!(!is_valid_ident("1a"));
    assert!(!is_valid_ident("a-b"));
    assert!(!is_valid_ident(""));
    assert_eq!(str_to_propname("foo"), "foo");
    assert_eq!(str_to_propname("data-x"), "\"data-x\"");
    assert_eq!(str_or_expr_to_propname(&StrOrExpr::Expr(js("k"))), "[k]");
}

#[test]
fn blank_text_detection() {
    assert!(is_blank(" \n\t\u{a0}"));
    assert!(is_blank(""));
    assert!(!is_blank(" a "));
}

#[test]
fn decimal_text() {
    assert_eq!(decimal(0), "0");
    assert_eq!(decimal(8), "8");
    assert_eq!(decimal(512), "512");
    assert_eq!(decimal(65535), "65535");
}

#[test]
fn import_registry_is_idempotent() {
    let mut ctx = CodegenContext::default();
    assert_eq!(ctx.get_and_add_import_ident(VueImports::ToDisplayString), "_toDisplayString");
    assert_eq!(ctx.get_and_add_import_ident(VueImports::WithCtx), "_withCtx");
    assert_eq!(ctx.get_and_add_import_ident(VueImports::ToDisplayString), "_toDisplayString");
    assert_eq!(ctx.bindings_helper.vue_imports, vec![VueImports::ToDisplayString, VueImports::WithCtx]);
}

#[test]
fn generates_interpolation_call() {
    let mut ctx = CodegenContext::default();
    let i = Interpolation { value: js("msg"), template_scope: 0, patch_flag: true };
    assert_eq!(ctx.generate_interpolation(&i), "_toDisplayString(msg)");
}

#[test]
fn generates_element_with_flags_and_props() {
    let mut h = helper();
    let node = visit_element_node(
        &mut h,
        0,
        el("div", vec![AttributeOrBinding::RegularAttribute { name: "data-a".to_string(), value: "q\"".to_string() }, bind("id", "x")], None, vec![text("hi")]),
    );
    let mut ctx = CodegenContext { bindings_helper: h };
    assert_eq!(
        ctx.generate_node(&Node::Element(node)),
        r#"_createElementVNode("div",{"data-a":"q\"",id:_ctx.x},[_createTextVNode("hi")],8,["id"])"#
    );
}

#[test]
fn generates_conditional_ternary() {
    let seq = ConditionalNodeSequence {
        if_node: Box::new(Conditional { condition: js("a"), node: el("h1", vec![], None, vec![]) }),
        else_if_nodes: vec![Conditional { condition: js("b"), node: el("h2", vec![], None, vec![]) }],
        else_node: None,
    };
    let mut ctx = CodegenContext::default();
    assert_eq!(
        ctx.generate_node(&Node::ConditionalSeq(seq)),
        r#"a?_createElementVNode("h1"):b?_createElementVNode("h2"):_createCommentVNode("v-if",true)"#
    );
}

#[test]
fn generates_component_with_default_slot() {
    let mut comp = el("my-button", vec![], None, vec![text("ok")]);
    comp.kind = ElementKind::Component;
    let mut ctx = CodegenContext::default();
    assert_eq!(
        ctx.generate_element(&comp),
        r#"_createVNode(_component_my_button,null,{"default":_withCtx(()=>[_createTextVNode("ok")]),_:1})"#
    );
}

#[test]
fn string_literals_escape_control_and_separators() {
    let s = fervid::codegen::string_literal("a\"b\\c\nd\re\tf\u{2028}g\u{2029}");
    assert_eq!(s, "\"a\\\"b\\\\c\\nd\\re\\tf\\u2028g\\u2029\"");
    assert_eq!(str_to_propname("a\"b"), "\"a\\\"b\"");
}

#[test]
fn latest_use_of_a_name_wins() {
    let mut h = helper();
    let mut e = js("x");
    h.transform_expr(&mut e, 0);
    assert_eq!(h.used_binding("x"), Some(BindingTypes::Unresolved));
    h.setup_bindings.push(SetupBinding("x".to_string(), BindingTypes::SetupConst));
    let mut e = js("x");
    h.transform_expr(&mut e, 0);
    assert_eq!(h.used_binding("x"), Some(BindingTypes::SetupConst));
    assert_eq!(h.used_binding("y"), None);
}

#[test]
fn several_roots_are_wrapped_in_a_template_element() {
    let mut t = fervid::sfc::SfcTemplateBlock {
        lang: "html".to_string(),
        roots: vec![
            Node::Element(el("a", vec![], None, vec![])),
            text(" "),
            Node::Element(el("b", vec![], None, vec![])),
        ],
    };
    let mut h = BindingsHelper::default();
    fervid::transform::transform_and_record_template(&mut t, &mut h);
    assert_eq!(h.template_scopes.len(), 1);
    assert_eq!(t.roots.len(), 1);
    let Node::Element(w) = &t.roots[0] else { panic!("not an element") };
    assert_eq!(w.starting_tag.tag_name, "template");
    assert!(w.starting_tag.attributes.is_empty());
    assert!(w.starting_tag.directives.is_none());
    assert_eq!(w.template_scope, 0);
    assert_eq!(w.patch_hints.flags, 0);
    assert_eq!(kinds(&w.children), vec!["element", "element"]);
}
