//! Code generation: turns the optimized tree into runtime calls, written
//! as minified script text, and records the runtime helpers it uses.

use vstd::prelude::*;
use crate::ast::{
    AttributeOrBinding, BuiltinType, ConditionalNodeSequence, ElementKind,
    ElementNode, Expr, ExprToken, Interpolation, Node, StrOrExpr, VBindDirective, VOnDirective,
};
use crate::bindings::BindingsHelper;
use crate::flags::{PROPS, PatchHints, has_flag};
use crate::ident::{case_prefix, propname_text, push_char, str_to_propname, to_pascalcase};
use crate::imports::{VueImports, add_import, import_alias, registered};

verus! {

/// Comma-separated.
pub open spec fn join(ps: Seq<Seq<char>>) -> Seq<char>
    decreases ps.len(),
{
    if ps.len() == 0 {
        Seq::empty()
    } else if ps.len() == 1 {
        ps[0]
    } else {
        join(ps.drop_last()) + seq![','] + ps.last()
    }
}

pub open spec fn strs_view(v: Seq<String>) -> Seq<Seq<char>> {
    v.map_values(|s: String| s@)
}

/// Joins the texts with commas.
pub fn join_strings(parts: &Vec<String>) -> (r: String)
    ensures
        r@ == join(strs_view(parts@)),
{
    let ghost ps = strs_view(parts@);
    let mut r = String::new();
    let mut i: usize = 0;
    while i < parts.len()
        invariant
            i <= parts@.len(),
            ps == strs_view(parts@),
            r@ == join(ps.subrange(0, i as int)),
        decreases parts@.len() - i,
    {
        if i > 0 {
            push_char(&mut r, ',');
        }
        r.append(parts[i].as_str());
        assert(ps.subrange(0, i + 1).drop_last() =~= ps.subrange(0, i as int));
        assert(i == 0 ==> r@ =~= ps.subrange(0, i + 1)[0]);
        i = i + 1;
    }
    assert(ps.subrange(0, parts@.len() as int) =~= ps);
    r
}

/// A character inside a double-quoted string literal.
pub open spec fn escaped_char(c: char) -> Seq<char> {
    if c == '"' {
        seq!['\\', '"']
    } else if c == '\\' {
        seq!['\\', '\\']
    } else if c == '\n' {
        seq!['\\', 'n']
    } else if c == '\r' {
        seq!['\\', 'r']
    } else if c == '\t' {
        seq!['\\', 't']
    } else if c == '\u{2028}' {
        seq!['\\', 'u', '2', '0', '2', '8']
    } else if c == '\u{2029}' {
        seq!['\\', 'u', '2', '0', '2', '9']
    } else {
        seq![c]
    }
}

pub open spec fn escaped_prefix(s: Seq<char>, n: int) -> Seq<char>
    decreases n,
{
    if n <= 0 {
        Seq::empty()
    } else {
        escaped_prefix(s, n - 1) + escaped_char(s[n - 1])
    }
}

/// A double-quoted string literal holding `s`.
pub open spec fn js_str(s: Seq<char>) -> Seq<char> {
    seq!['"'] + escaped_prefix(s, s.len() as int) + seq!['"']
}

/// Writes `s` as a double-quoted string literal.
pub fn string_literal(s: &str) -> (r: String)
    ensures
        r@ == js_str(s@),
{
    let mut r = String::new();
    push_char(&mut r, '"');
    let n = s.unicode_len();
    let mut i: usize = 0;
    while i < n
        invariant
            i <= n,
            n == s@.len(),
            r@ == seq!['"'] + escaped_prefix(s@, i as int),
        decreases n - i,
    {
        let c = s.get_char(i);
        if c == '"' {
            push_char(&mut r, '\\');
            push_char(&mut r, '"');
        } else if c == '\\' {
            push_char(&mut r, '\\');
            push_char(&mut r, '\\');
        } else if c == '\n' {
            push_char(&mut r, '\\');
            push_char(&mut r, 'n');
        } else if c == '\r' {
            push_char(&mut r, '\\');
            push_char(&mut r, 'r');
        } else if c == '\t' {
            push_char(&mut r, '\\');
            push_char(&mut r, 't');
        } else if c == '\u{2028}' || c == '\u{2029}' {
            push_char(&mut r, '\\');
            push_char(&mut r, 'u');
            push_char(&mut r, '2');
            push_char(&mut r, '0');
            push_char(&mut r, '2');
            push_char(&mut r, if c == '\u{2028}' { '8' } else { '9' });
        } else {
            push_char(&mut r, c);
        }
        assert(r@ =~= seq!['"'] + escaped_prefix(s@, i + 1));
        i = i + 1;
    }
    push_char(&mut r, '"');
    r
}

/// The text of the first `n` tokens.
pub open spec fn tokens_code(ts: Seq<ExprToken>, n: int) -> Seq<char>
    decreases n,
{
    if n <= 0 {
        Seq::empty()
    } else {
        tokens_code(ts, n - 1) + match ts[n - 1] {
            ExprToken::Ident(x) => x@,
            ExprToken::Raw(x) => x@,
        }
    }
}

pub open spec fn expr_code(e: Expr) -> Seq<char> {
    tokens_code(e.tokens@, e.tokens@.len() as int)
}

/// Prints an expression: its tokens one after the other.
pub fn to_str(e: &Expr) -> (r: String)
    ensures
        r@ == expr_code(*e),
{
    let mut r = String::new();
    let mut i: usize = 0;
    while i < e.tokens.len()
        invariant
            i <= e.tokens@.len(),
            r@ == tokens_code(e.tokens@, i as int),
        decreases e.tokens@.len() - i,
    {
        match &e.tokens[i] {
            ExprToken::Ident(x) => r.append(x.as_str()),
            ExprToken::Raw(x) => r.append(x.as_str()),
        }
        i = i + 1;
    }
    r
}

/// Builds an expression from one piece of source: an identifier token when
/// the text is a valid identifier, else a raw token.
pub fn js(raw: &str) -> (r: Expr)
    ensures
        r.tokens@.len() == 1,
        crate::ident::valid_ident(raw@) ==> r.tokens@[0] is Ident && r.tokens@[0]->Ident_0@ == raw@,
        !crate::ident::valid_ident(raw@) ==> r.tokens@[0] is Raw && r.tokens@[0]->Raw_0@ == raw@,
{
    let mut tokens: Vec<ExprToken> = Vec::new();
    if crate::ident::is_valid_ident(raw) {
        tokens.push(ExprToken::Ident(raw.to_string()));
    } else {
        tokens.push(ExprToken::Raw(raw.to_string()));
    }
    Expr { tokens }
}

/// The key written for a static name or a computed expression.
pub open spec fn str_or_expr_key(k: StrOrExpr) -> Seq<char> {
    match k {
        StrOrExpr::Str(n) => propname_text(n@),
        StrOrExpr::Expr(e) => seq!['['] + expr_code(e) + seq![']'],
    }
}

/// Writes an object key for an interned name: bare when it is a valid
/// identifier, quoted otherwise.
pub fn atom_to_propname(sym: String) -> (r: String)
    ensures
        r@ == propname_text(sym@),
{
    str_to_propname(sym.as_str())
}

/// Writes an object key: a static name as by `atom_to_propname`, an
/// expression as a computed key in brackets.
pub fn str_or_expr_to_propname(str_or_expr: &StrOrExpr) -> (r: String)
    ensures
        r@ == str_or_expr_key(*str_or_expr),
{
    match str_or_expr {
        StrOrExpr::Str(sym) => atom_to_propname(sym.clone()),
        StrOrExpr::Expr(expr) => {
            let mut r = String::new();
            push_char(&mut r, '[');
            let e = to_str(expr);
            r.append(e.as_str());
            push_char(&mut r, ']');
            assert(r@ =~= seq!['['] + expr_code(*expr) + seq![']']);
            r
        },
    }
}

/// The object entry that an attribute contributes, if any: `name:"value"`
/// for a plain attribute, `name:value` or `[name]:value` for a binding,
/// `onEvent:handler` for a listener.
pub open spec fn attr_entry(a: AttributeOrBinding) -> Option<Seq<char>> {
    match a {
        AttributeOrBinding::RegularAttribute { name, value } => Some(
            propname_text(name@) + seq![':'] + js_str(value@),
        ),
        AttributeOrBinding::VBind(b) => match b.argument {
            Some(k) => Some(str_or_expr_key(k) + seq![':'] + expr_code(b.value)),
            None => None,
        },
        AttributeOrBinding::VOn(o) => match (o.event, o.handler) {
            (Some(StrOrExpr::Str(ev)), Some(h)) => Some(
                propname_text(seq!['o', 'n'] + case_prefix(ev@, ev@.len() as int, true)) + seq![':']
                    + expr_code(h),
            ),
            _ => None,
        },
    }
}

/// The entries of the first `n` attributes.
pub open spec fn attr_entries(attrs: Seq<AttributeOrBinding>, n: int) -> Seq<Seq<char>>
    decreases n,
{
    if n <= 0 {
        Seq::empty()
    } else {
        match attr_entry(attrs[n - 1]) {
            Some(e) => attr_entries(attrs, n - 1).push(e),
            None => attr_entries(attrs, n - 1),
        }
    }
}

/// The attribute object, in source order, or nothing when it is empty.
pub open spec fn attrs_object(attrs: Seq<AttributeOrBinding>) -> Option<Seq<char>> {
    let es = attr_entries(attrs, attrs.len() as int);
    if es.len() == 0 {
        None
    } else {
        Some(seq!['{'] + join(es) + seq!['}'])
    }
}

fn attribute_entry(a: &AttributeOrBinding) -> (r: Option<String>)
    ensures
        match r {
            Some(s) => attr_entry(*a) == Some(s@),
            None => attr_entry(*a) is None,
        },
{
    match a {
        AttributeOrBinding::RegularAttribute { name, value } => {
            let mut r = str_to_propname(name.as_str());
            push_char(&mut r, ':');
            let v = string_literal(value.as_str());
            r.append(v.as_str());
            Some(r)
        },
        AttributeOrBinding::VBind(VBindDirective { argument, value, .. }) => match argument {
            Some(k) => {
                let mut r = str_or_expr_to_propname(k);
                push_char(&mut r, ':');
                let v = to_str(value);
                r.append(v.as_str());
                Some(r)
            },
            None => None,
        },
        AttributeOrBinding::VOn(VOnDirective { event, handler, .. }) => match (event, handler) {
            (Some(StrOrExpr::Str(ev)), Some(h)) => {
                let mut key = String::new();
                push_char(&mut key, 'o');
                push_char(&mut key, 'n');
                to_pascalcase(ev.as_str(), &mut key);
                assert(key@ =~= seq!['o', 'n'] + case_prefix(ev@, ev@.len() as int, true));
                let mut r = str_to_propname(key.as_str());
                push_char(&mut r, ':');
                let v = to_str(h);
                r.append(v.as_str());
                Some(r)
            },
            _ => None,
        },
    }
}

/// Writes the attribute object of a built-in or component: entries in
/// source order, `None` when there are none.
pub fn generate_builtin_attrs(attrs: &Vec<AttributeOrBinding>) -> (r: Option<String>)
    ensures
        match r {
            Some(s) => attrs_object(attrs@) == Some(s@),
            None => attrs_object(attrs@) is None,
        },
{
    let mut parts: Vec<String> = Vec::new();
    let mut i: usize = 0;
    while i < attrs.len()
        invariant
            i <= attrs@.len(),
            strs_view(parts@) == attr_entries(attrs@, i as int),
        decreases attrs@.len() - i,
    {
        match attribute_entry(&attrs[i]) {
            Some(e) => {
                let ghost before = parts@;
                parts.push(e);
                assert(strs_view(parts@) =~= strs_view(before).push(e@));
            },
            None => {},
        }
        i = i + 1;
    }
    if parts.len() == 0 {
        None
    } else {
        let mut r = String::new();
        push_char(&mut r, '{');
        let j = join_strings(&parts);
        r.append(j.as_str());
        push_char(&mut r, '}');
        Some(r)
    }
}

/// A decimal digit.
pub open spec fn digit_char(d: int) -> char {
    if d == 0 { '0' } else if d == 1 { '1' } else if d == 2 { '2' } else if d == 3 { '3' }
    else if d == 4 { '4' } else if d == 5 { '5' } else if d == 6 { '6' } else if d == 7 { '7' }
    else if d == 8 { '8' } else { '9' }
}

/// The decimal text of `n`.
pub open spec fn nat_text(n: nat) -> Seq<char>
    decreases n,
{
    if n < 10 {
        seq![digit_char(n as int)]
    } else {
        nat_text(n / 10) + seq![digit_char((n % 10) as int)]
    }
}

/// Writes `n` in decimal.
pub fn decimal(n: u16) -> (r: String)
    ensures
        r@ == nat_text(n as nat),
    decreases n,
{
    let mut r = if n < 10 {
        String::new()
    } else {
        decimal(n / 10)
    };
    let d = n % 10;
    let c = if d == 0 { '0' } else if d == 1 { '1' } else if d == 2 { '2' } else if d == 3 { '3' }
    else if d == 4 { '4' } else if d == 5 { '5' } else if d == 6 { '6' } else if d == 7 { '7' }
    else if d == 8 { '8' } else { '9' };
    push_char(&mut r, c);
    assert(n < 10 ==> r@ =~= nat_text(n as nat));
    assert(n >= 10 ==> r@ =~= nat_text(n as nat));
    r
}

/// A call: the callee, then its arguments in parentheses.
pub open spec fn call_code(callee: Seq<char>, args: Seq<Seq<char>>) -> Seq<char> {
    callee + seq!['('] + join(args) + seq![')']
}

pub open spec fn props_view(h: PatchHints) -> Seq<Seq<char>> {
    h.props@.map_values(|s: String| s@)
}

/// The array of dynamic prop names.
pub open spec fn props_array(props: Seq<Seq<char>>) -> Seq<char> {
    seq!['['] + join(props.map_values(|p: Seq<char>| js_str(p))) + seq![']']
}

/// The arguments after the callee: attributes, children, patch flags and
/// dynamic prop names, each present when it or a later one is, `null`
/// standing for a missing attribute object or child list.
pub open spec fn call_args(attrs: Option<Seq<char>>, kids: Option<Seq<char>>, h: PatchHints) -> Seq<
    Seq<char>,
> {
    let a = match attrs {
        Some(x) => x,
        None => "null"@,
    };
    let c = match kids {
        Some(x) => x,
        None => "null"@,
    };
    if h.flags != 0 && has_flag(h.flags, PROPS) {
        seq![a, c, nat_text(h.flags as nat), props_array(props_view(h))]
    } else if h.flags != 0 {
        seq![a, c, nat_text(h.flags as nat)]
    } else if kids is Some {
        seq![a, c]
    } else if attrs is Some {
        seq![a]
    } else {
        Seq::empty()
    }
}

/// The helper that creates a built-in, for the built-ins that have one.
pub open spec fn builtin_import(b: BuiltinType) -> Option<VueImports> {
    match b {
        BuiltinType::KeepAlive => Some(VueImports::KeepAlive),
        BuiltinType::Suspense => Some(VueImports::Suspense),
        BuiltinType::Teleport => Some(VueImports::Teleport),
        BuiltinType::Transition => Some(VueImports::Transition),
        BuiltinType::TransitionGroup => Some(VueImports::TransitionGroup),
        _ => None,
    }
}

pub open spec fn underscored_prefix(s: Seq<char>, n: int) -> Seq<char>
    decreases n,
{
    if n <= 0 {
        Seq::empty()
    } else {
        underscored_prefix(s, n - 1) + seq![if s[n - 1] == '-' { '_' } else { s[n - 1] }]
    }
}

/// The identifier that receives a component resolved at runtime.
pub open spec fn component_ident(tag: Seq<char>) -> Seq<char> {
    "_component_"@ + underscored_prefix(tag, tag.len() as int)
}

/// What a component or built-in element is created from.
pub open spec fn callee_code(el: ElementNode) -> Seq<char> {
    match el.kind {
        ElementKind::Builtin(b) => match builtin_import(b) {
            Some(i) => import_alias(i),
            None => component_ident(el.starting_tag.tag_name@),
        },
        _ => component_ident(el.starting_tag.tag_name@),
    }
}

/// The slots object of a component: its children in the default slot, or
/// nothing without children.
pub open spec fn slots_object(kids: Seq<Seq<char>>) -> Option<Seq<char>> {
    if kids.len() == 0 {
        None
    } else {
        Some(
            seq!['{'] + propname_text("default"@) + seq![':'] + import_alias(VueImports::WithCtx)
                + "(()=>["@ + join(kids) + "]),_:1}"@,
        )
    }
}

/// The fallback of a conditional sequence without `else`.
pub open spec fn empty_branch_code() -> Seq<char> {
    call_code(import_alias(VueImports::CreateCommentVNode), seq!["\"v-if\""@, "true"@])
}

/// The generated text of a node.
pub open spec fn node_code(n: Node) -> Seq<char>
    decreases n, 0int,
{
    match n {
        Node::Text(t) => call_code(import_alias(VueImports::CreateTextVNode), seq![js_str(t@)]),
        Node::Comment(t) => call_code(import_alias(VueImports::CreateCommentVNode), seq![js_str(t@)]),
        Node::Interpolation(i) => call_code(
            import_alias(VueImports::ToDisplayString),
            seq![expr_code(i.value)],
        ),
        Node::Element(el) => element_code(el),
        Node::ConditionalSeq(q) => expr_code(q.if_node.condition) + seq!['?'] + element_code(
            q.if_node.node,
        ) + seq![':'] + branches_code(q, 0),
    }
}

/// The generated text of the first `k` nodes.
pub open spec fn children_codes(s: Seq<Node>, k: int) -> Seq<Seq<char>>
    decreases s, k,
{
    if k <= 0 || k > s.len() {
        Seq::empty()
    } else {
        children_codes(s, k - 1).push(node_code(s[k - 1]))
    }
}

/// The generated text of the `else-if` branches from `k` on, then the
/// `else` branch or the empty fallback.
pub open spec fn branches_code(q: ConditionalNodeSequence, k: int) -> Seq<char>
    decreases q, q.else_if_nodes.len() - k,
{
    if k < 0 {
        Seq::empty()
    } else if k < q.else_if_nodes.len() {
        expr_code(q.else_if_nodes[k].condition) + seq!['?'] + element_code(q.else_if_nodes[k].node)
            + seq![':'] + branches_code(q, k + 1)
    } else {
        match q.else_node {
            Some(e) => element_code(*e),
            None => empty_branch_code(),
        }
    }
}

/// The generated text of an element: an element creation call with the tag
/// name, or a creation call for a component or built-in with its slots.
pub open spec fn element_code(el: ElementNode) -> Seq<char>
    decreases el, 0int,
{
    let attrs = attrs_object(el.starting_tag.attributes@);
    let kids = children_codes(el.children@, el.children@.len() as int);
    match el.kind {
        ElementKind::Element => call_code(
            import_alias(VueImports::CreateElementVNode),
            seq![js_str(el.starting_tag.tag_name@)] + call_args(
                attrs,
                if kids.len() == 0 {
                    None
                } else {
                    Some(seq!['['] + join(kids) + seq![']'])
                },
                el.patch_hints,
            ),
        ),
        _ => call_code(
            import_alias(VueImports::CreateVNode),
            seq![callee_code(el)] + call_args(attrs, slots_object(kids), el.patch_hints),
        ),
    }
}

pub open spec fn opt_view(o: Option<String>) -> Option<Seq<char>> {
    match o {
        Some(x) => Some(x@),
        None => None,
    }
}

/// Every helper of `a` is still in `b`.
pub open spec fn imports_grow(a: Seq<VueImports>, b: Seq<VueImports>) -> bool {
    forall|x: VueImports| a.contains(x) ==> b.contains(x)
}

/// The state of code generation: the compilation state, whose helper
/// registry records every helper the generated code refers to.
#[derive(Debug, Default)]
pub struct CodegenContext {
    pub bindings_helper: BindingsHelper,
}

fn call(callee: String, args: &Vec<String>) -> (r: String)
    ensures
        r@ == call_code(callee@, strs_view(args@)),
{
    let mut r = callee;
    push_char(&mut r, '(');
    let j = join_strings(args);
    r.append(j.as_str());
    push_char(&mut r, ')');
    r
}

fn null_text() -> (r: String)
    ensures
        r@ == "null"@,
{
    let mut r = String::new();
    r.append("null");
    r
}

/// Writes the arguments after the callee (see `call_args`).
pub fn generate_args(attrs: Option<String>, kids: Option<String>, hints: &PatchHints) -> (r: Vec<
    String,
>)
    ensures
        strs_view(r@) == call_args(
            opt_view(attrs),
            opt_view(kids),
            *hints,
        ),
{
    let ghost av = opt_view(attrs);
    let ghost kv = opt_view(kids);
    let has_attrs = attrs.is_some();
    let has_kids = kids.is_some();
    let a = match attrs {
        Some(x) => x,
        None => null_text(),
    };
    let c = match kids {
        Some(x) => x,
        None => null_text(),
    };
    let ghost a0 = a@;
    let ghost c0 = c@;
    assert(a0 == match av {
        Some(x) => x,
        None => "null"@,
    });
    assert(c0 == match kv {
        Some(x) => x,
        None => "null"@,
    });
    let mut r: Vec<String> = Vec::new();
    if hints.flags != 0 {
        r.push(a);
        r.push(c);
        let d = decimal(hints.flags);
        let ghost d0 = d@;
        r.push(d);
        assert(strs_view(r@) =~= seq![a0, c0, d0]);
        if hints.flags & PROPS != 0 {
            let mut names: Vec<String> = Vec::new();
            let mut i: usize = 0;
            while i < hints.props.len()
                invariant
                    i <= hints.props@.len(),
                    strs_view(names@) == props_view(*hints).subrange(0, i as int).map_values(
                        |p: Seq<char>| js_str(p),
                    ),
                decreases hints.props@.len() - i,
            {
                let ghost before = names@;
                let lit = string_literal(hints.props[i].as_str());
                assert(lit@ == js_str(props_view(*hints)[i as int]));
                names.push(lit);
                assert(strs_view(names@) =~= strs_view(before).push(lit@));
                assert(strs_view(names@) =~= props_view(*hints).subrange(0, i + 1).map_values(
                    |p: Seq<char>| js_str(p),
                ));
                i = i + 1;
            }
            assert(props_view(*hints).subrange(0, hints.props@.len() as int) =~= props_view(*hints));
            let mut arr = String::new();
            push_char(&mut arr, '[');
            let j = join_strings(&names);
            arr.append(j.as_str());
            push_char(&mut arr, ']');
            let ghost r0 = strs_view(r@);
            assert(arr@ == props_array(props_view(*hints)));
            r.push(arr);
            assert(strs_view(r@) =~= r0.push(props_array(props_view(*hints))));
        }
    } else if has_kids {
        r.push(a);
        r.push(c);
    } else if has_attrs {
        r.push(a);
    }
    assert(strs_view(r@) =~= call_args(av, kv, *hints));
    r
}

impl CodegenContext {
    /// Records that generated code uses the helper and returns its alias.
    pub fn get_and_add_import_ident(&mut self, i: VueImports) -> (r: String)
        ensures
            r@ == import_alias(i),
            final(self).bindings_helper.vue_imports@ == registered(
                old(self).bindings_helper.vue_imports@,
                i,
            ),
            imports_grow(old(self).bindings_helper.vue_imports@, final(self).bindings_helper.vue_imports@),
            final(self).bindings_helper.vue_imports@.contains(i),
    {
        let r = add_import(&mut self.bindings_helper.vue_imports, i);
        proof {
            let v = old(self).bindings_helper.vue_imports@;
            crate::imports::lemma_registry_idempotent(v, i);
            assert forall|x: VueImports| v.contains(x) implies registered(v, i).contains(x) by {
                if !v.contains(i) {
                    let j = choose|j: int| 0 <= j < v.len() && v[j] == x;
                    assert(v.push(i)[j] == x);
                }
            }
        }
        r
    }

    /// Generates `toDisplayString(value)` for an interpolation.
    pub fn generate_interpolation(&mut self, interpolation: &Interpolation) -> (r: String)
        ensures
            r@ == call_code(
                import_alias(VueImports::ToDisplayString),
                seq![expr_code(interpolation.value)],
            ),
            final(self).bindings_helper.vue_imports@ == registered(
                old(self).bindings_helper.vue_imports@,
                VueImports::ToDisplayString,
            ),
            imports_grow(old(self).bindings_helper.vue_imports@, final(self).bindings_helper.vue_imports@),
    {
        let callee = self.get_and_add_import_ident(VueImports::ToDisplayString);
        let mut args: Vec<String> = Vec::new();
        args.push(to_str(&interpolation.value));
        assert(strs_view(args@) =~= seq![expr_code(interpolation.value)]);
        call(callee, &args)
    }

    /// Generates the code of each child, in order.
    pub fn generate_children(&mut self, children: &Vec<Node>) -> (r: Vec<String>)
        ensures
            strs_view(r@) == children_codes(children@, children@.len() as int),
            imports_grow(old(self).bindings_helper.vue_imports@, final(self).bindings_helper.vue_imports@),
        decreases children@, children@.len() + 1,
    {
        let mut kids: Vec<String> = Vec::new();
        let mut i: usize = 0;
        while i < children.len()
            invariant
                i <= children@.len(),
                strs_view(kids@) == children_codes(children@, i as int),
                imports_grow(old(self).bindings_helper.vue_imports@, self.bindings_helper.vue_imports@),
            decreases children@.len() - i,
        {
            let ghost before = kids@;
            proof {
                assert(decreases_to!(children@ => children@[i as int]));
            }
            let c = self.generate_node(&children[i]);
            kids.push(c);
            assert(strs_view(kids@) =~= strs_view(before).push(c@));
            i = i + 1;
        }
        kids
    }

    /// Generates the code of a node.
    pub fn generate_node(&mut self, node: &Node) -> (r: String)
        ensures
            r@ == node_code(*node),
            imports_grow(old(self).bindings_helper.vue_imports@, final(self).bindings_helper.vue_imports@),
        decreases *node, 0int,
    {
        match node {
            Node::Text(t) => {
                let callee = self.get_and_add_import_ident(VueImports::CreateTextVNode);
                let mut args: Vec<String> = Vec::new();
                args.push(string_literal(t.as_str()));
                assert(strs_view(args@) =~= seq![js_str(t@)]);
                call(callee, &args)
            },
            Node::Comment(t) => {
                let callee = self.get_and_add_import_ident(VueImports::CreateCommentVNode);
                let mut args: Vec<String> = Vec::new();
                args.push(string_literal(t.as_str()));
                assert(strs_view(args@) =~= seq![js_str(t@)]);
                call(callee, &args)
            },
            Node::Interpolation(i) => self.generate_interpolation(i),
            Node::Element(el) => self.generate_element(el),
            Node::ConditionalSeq(q) => {
                let mut r = to_str(&q.if_node.condition);
                push_char(&mut r, '?');
                let e = self.generate_element(&q.if_node.node);
                r.append(e.as_str());
                push_char(&mut r, ':');
                let b = self.generate_branches(q, 0);
                r.append(b.as_str());
                r
            },
        }
    }

    /// Generates the `else-if` branches from `k` on, then the `else` branch
    /// or the empty fallback.
    pub fn generate_branches(&mut self, q: &ConditionalNodeSequence, k: usize) -> (r: String)
        requires
            k <= q.else_if_nodes@.len(),
        ensures
            r@ == branches_code(*q, k as int),
            imports_grow(old(self).bindings_helper.vue_imports@, final(self).bindings_helper.vue_imports@),
        decreases *q, q.else_if_nodes@.len() - k,
    {
        if k < q.else_if_nodes.len() {
            let mut r = to_str(&q.else_if_nodes[k].condition);
            push_char(&mut r, '?');
            proof {
                assert(decreases_to!(q.else_if_nodes@ => q.else_if_nodes@[k as int]));
            }
            let e = self.generate_element(&q.else_if_nodes[k].node);
            r.append(e.as_str());
            push_char(&mut r, ':');
            let b = self.generate_branches(q, k + 1);
            r.append(b.as_str());
            r
        } else {
            match &q.else_node {
                Some(e) => self.generate_element(e),
                None => {
                    let callee = self.get_and_add_import_ident(VueImports::CreateCommentVNode);
                    let mut args: Vec<String> = Vec::new();
                    args.push("\"v-if\"".to_string());
                    args.push("true".to_string());
                    assert(strs_view(args@) =~= seq!["\"v-if\""@, "true"@]);
                    call(callee, &args)
                },
            }
        }
    }

    /// Generates the creation call of a component or built-in: callee,
    /// attribute object, default-slot closure and patch flags.
    pub fn generate_componentlike(
        &mut self,
        callee: String,
        attrs: Option<String>,
        slots: Option<String>,
        hints: &PatchHints,
    ) -> (r: String)
        ensures
            r@ == call_code(
                import_alias(VueImports::CreateVNode),
                seq![callee@] + call_args(
                    opt_view(attrs),
                    opt_view(slots),
                    *hints,
                ),
            ),
            final(self).bindings_helper.vue_imports@ == registered(
                old(self).bindings_helper.vue_imports@,
                VueImports::CreateVNode,
            ),
            imports_grow(old(self).bindings_helper.vue_imports@, final(self).bindings_helper.vue_imports@),
    {
        let create = self.get_and_add_import_ident(VueImports::CreateVNode);
        let rest = generate_args(attrs, slots, hints);
        let mut args: Vec<String> = Vec::new();
        let ghost cv = callee@;
        let ghost rv = strs_view(rest@);
        args.push(callee);
        let mut rest = rest;
        args.append(&mut rest);
        assert(strs_view(args@) =~= seq![cv] + rv);
        call(create, &args)
    }

    /// Generates the default-slot object of a component or built-in, or
    /// nothing when it has no children.
    pub fn generate_builtin_slots(&mut self, element_node: &ElementNode) -> (r: Option<String>)
        ensures
            match r {
                Some(x) => slots_object(
                    children_codes(element_node.children@, element_node.children@.len() as int),
                ) == Some(x@),
                None => slots_object(
                    children_codes(element_node.children@, element_node.children@.len() as int),
                ) is None,
            },
            imports_grow(old(self).bindings_helper.vue_imports@, final(self).bindings_helper.vue_imports@),
        decreases *element_node, 1int,
    {
        if element_node.children.len() == 0 {
            return None;
        }
        let kids = self.generate_children(&element_node.children);
        let ctx = self.get_and_add_import_ident(VueImports::WithCtx);
        let mut r = String::new();
        push_char(&mut r, '{');
        let key = str_to_propname("default");
        r.append(key.as_str());
        push_char(&mut r, ':');
        r.append(ctx.as_str());
        r.append("(()=>[");
        let j = join_strings(&kids);
        r.append(j.as_str());
        r.append("]),_:1}");
        Some(r)
    }

    /// Generates what a component or built-in is created from, recording the
    /// built-in's helper.
    pub fn generate_callee(&mut self, element_node: &ElementNode) -> (r: String)
        ensures
            r@ == callee_code(*element_node),
            imports_grow(old(self).bindings_helper.vue_imports@, final(self).bindings_helper.vue_imports@),
    {
        let imp = match element_node.kind {
            ElementKind::Builtin(BuiltinType::KeepAlive) => Some(VueImports::KeepAlive),
            ElementKind::Builtin(BuiltinType::Suspense) => Some(VueImports::Suspense),
            ElementKind::Builtin(BuiltinType::Teleport) => Some(VueImports::Teleport),
            ElementKind::Builtin(BuiltinType::Transition) => Some(VueImports::Transition),
            ElementKind::Builtin(BuiltinType::TransitionGroup) => Some(VueImports::TransitionGroup),
            _ => None,
        };
        match imp {
            Some(i) => {
                let r = self.get_and_add_import_ident(i);
                proof {
                    crate::imports::lemma_registry_idempotent(old(self).bindings_helper.vue_imports@, i);
                }
                r
            },
            None => {
                let tag = element_node.starting_tag.tag_name.as_str();
                let mut r = String::new();
                r.append("_component_");
                let n = tag.unicode_len();
                let mut i: usize = 0;
                while i < n
                    invariant
                        i <= n,
                        n == tag@.len(),
                        r@ == "_component_"@ + underscored_prefix(tag@, i as int),
                    decreases n - i,
                {
                    let c = tag.get_char(i);
                    push_char(&mut r, if c == '-' { '_' } else { c });
                    assert(r@ =~= "_component_"@ + underscored_prefix(tag@, i + 1));
                    i = i + 1;
                }
                r
            },
        }
    }

    /// Generates the creation call of an element, component or built-in.
    pub fn generate_element(&mut self, element_node: &ElementNode) -> (r: String)
        ensures
            r@ == element_code(*element_node),
            imports_grow(old(self).bindings_helper.vue_imports@, final(self).bindings_helper.vue_imports@),
        decreases *element_node, 2int,
    {
        let attrs = generate_builtin_attrs(&element_node.starting_tag.attributes);
        match element_node.kind {
            ElementKind::Element => {
                let create = self.get_and_add_import_ident(VueImports::CreateElementVNode);
                let kids = self.generate_children(&element_node.children);
                let arr = if kids.len() == 0 {
                    None
                } else {
                    let mut a = String::new();
                    push_char(&mut a, '[');
                    let j = join_strings(&kids);
                    a.append(j.as_str());
                    push_char(&mut a, ']');
                    Some(a)
                };
                assert(opt_view(attrs) == attrs_object(element_node.starting_tag.attributes@));
                assert(strs_view(kids@).len() == kids@.len());
                assert(opt_view(arr) == (if strs_view(kids@).len() == 0 {
                    None
                } else {
                    Some(seq!['['] + join(strs_view(kids@)) + seq![']'])
                }));
                let rest = generate_args(attrs, arr, &element_node.patch_hints);
                let mut args: Vec<String> = Vec::new();
                let tag = string_literal(element_node.starting_tag.tag_name.as_str());
                let ghost tv = tag@;
                let ghost rv = strs_view(rest@);
                args.push(tag);
                let mut rest = rest;
                args.append(&mut rest);
                assert(strs_view(args@) =~= seq![tv] + rv);
                call(create, &args)
            },
            _ => {
                let callee = self.generate_callee(element_node);
                let slots = self.generate_builtin_slots(element_node);
                self.generate_componentlike(callee, attrs, slots, &element_node.patch_hints)
            },
        }
    }

    /// Generates a `<transition-group>`: the `TransitionGroup` helper with the
    /// attribute object, the default slot and the patch flags.
    pub fn generate_transition_group(&mut self, element_node: &ElementNode) -> (r: String)
        ensures
            r@ == call_code(
                import_alias(VueImports::CreateVNode),
                seq![import_alias(VueImports::TransitionGroup)] + call_args(
                    attrs_object(element_node.starting_tag.attributes@),
                    slots_object(
                        children_codes(element_node.children@, element_node.children@.len() as int),
                    ),
                    element_node.patch_hints,
                ),
            ),
            final(self).bindings_helper.vue_imports@.contains(VueImports::TransitionGroup),
            imports_grow(old(self).bindings_helper.vue_imports@, final(self).bindings_helper.vue_imports@),
    {
        let callee = self.get_and_add_import_ident(VueImports::TransitionGroup);
        let attrs = generate_builtin_attrs(&element_node.starting_tag.attributes);
        let slots = self.generate_builtin_slots(element_node);
        self.generate_componentlike(callee, attrs, slots, &element_node.patch_hints)
    }
}

} // verus!
