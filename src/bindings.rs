//! Script bindings, the compilation state, and the resolution of the free
//! identifiers of template expressions.

use vstd::prelude::*;
use crate::ast::{BuiltinType, Expr, ExprToken};
use crate::imports::VueImports;
use crate::scope::{TemplateScope, add_variable, find_scope, resolve_scope, scope_vars};

verus! {

/// How a name declared by the script is bound.
#[derive(Clone, Copy, Debug, PartialEq, Eq, Structural)]
pub enum BindingTypes {
    Data,
    Props,
    PropsAliased,
    SetupLet,
    SetupConst,
    SetupReactiveConst,
    SetupMaybeRef,
    SetupRef,
    Options,
    LiteralConst,
    Component,
    Imported,
    TemplateLocal,
    JsGlobal,
    Unresolved,
}

/// How the template's variables are reached.
#[derive(Clone, Copy, Debug, PartialEq, Eq, Structural, Default)]
pub enum TemplateGenerationMode {
    /// The template is the last statement of `setup`.
    Inline,
    /// The template is a separate `render` function.
    #[default]
    RenderFn,
}

/// A name declared in `<script setup>` and its binding kind.
#[derive(Debug)]
pub struct SetupBinding(pub String, pub BindingTypes);

/// Names declared through the options API.
#[derive(Debug, Default)]
pub struct OptionsApiBindings {
    pub data: Vec<String>,
    pub setup: Vec<SetupBinding>,
    pub props: Vec<String>,
    pub inject: Vec<String>,
    pub emits: Vec<String>,
    pub components: Vec<String>,
    pub computed: Vec<String>,
    pub methods: Vec<String>,
    pub expose: Vec<String>,
    pub name: Option<String>,
    pub directives: Vec<String>,
    pub imports: Vec<String>,
}

/// How a component tag maps to a runtime value.
#[derive(Debug, Default)]
pub enum ComponentBinding {
    /// Resolved to a value, usually an identifier.
    Resolved(Box<Expr>),
    /// Resolved at runtime; holds the identifier that receives it.
    RuntimeResolved(String),
    /// Not resolved yet.
    #[default]
    Unresolved,
    /// A built-in of the framework.
    Builtin(BuiltinType),
}

/// How a custom directive maps to a runtime value.
#[derive(Debug, Default)]
pub enum CustomDirectiveBinding {
    /// Resolved to a value, usually an identifier.
    Resolved(Box<Expr>),
    /// Resolved at runtime; holds the identifier that receives it.
    RuntimeResolved(String),
    /// Not resolved yet.
    #[default]
    Unresolved,
}

/// The state of one compilation, threaded through the whole traversal.
///
/// `used_bindings` maps each identifier used in the template to its binding
/// kind; a later entry for the same name overrides an earlier one.
/// `vue_imports` holds each runtime helper once, in order of first use.
#[derive(Debug, Default)]
pub struct BindingsHelper {
    pub components: Vec<(String, ComponentBinding)>,
    pub custom_directives: Vec<(String, CustomDirectiveBinding)>,
    pub is_prod: bool,
    pub template_scopes: Vec<TemplateScope>,
    pub setup_bindings: Vec<SetupBinding>,
    pub options_api_bindings: Option<Box<OptionsApiBindings>>,
    pub template_generation_mode: TemplateGenerationMode,
    pub used_bindings: Vec<SetupBinding>,
    pub vue_imports: Vec<VueImports>,
}

/// The kind of the first binding of `name` in the list.
pub open spec fn setup_find(bs: Seq<SetupBinding>, name: Seq<char>) -> Option<BindingTypes>
    decreases bs.len(),
{
    if bs.len() == 0 {
        None
    } else if bs[0].0@ == name {
        Some(bs[0].1)
    } else {
        setup_find(bs.drop_first(), name)
    }
}

/// Whether the list holds `name`.
pub open spec fn names_has(v: Seq<String>, name: Seq<char>) -> bool {
    exists|i: int| 0 <= i < v.len() && (#[trigger] v[i])@ == name
}

/// The kind a name has in the options API declarations, if any.
pub open spec fn options_kind(o: OptionsApiBindings, name: Seq<char>) -> Option<BindingTypes> {
    if setup_find(o.setup@, name) is Some {
        setup_find(o.setup@, name)
    } else if names_has(o.props@, name) {
        Some(BindingTypes::Props)
    } else if names_has(o.data@, name) {
        Some(BindingTypes::Data)
    } else if names_has(o.computed@, name) || names_has(o.methods@, name) || names_has(
        o.inject@,
        name,
    ) {
        Some(BindingTypes::Options)
    } else {
        None
    }
}

/// The kind of a free identifier met in scope `scope`: a template local when
/// a scope on its chain binds it, else its `<script setup>` kind, else its
/// options API kind, else unresolved.
pub open spec fn binding_kind(h: BindingsHelper, scope: int, name: Seq<char>) -> BindingTypes {
    if resolve_scope(h.template_scopes@, scope, name) is Some {
        BindingTypes::TemplateLocal
    } else if setup_find(h.setup_bindings@, name) is Some {
        setup_find(h.setup_bindings@, name)->0
    } else if h.options_api_bindings is Some && options_kind(
        *h.options_api_bindings->0,
        name,
    ) is Some {
        options_kind(*h.options_api_bindings->0, name)->0
    } else {
        BindingTypes::Unresolved
    }
}

/// Whether a reference of this kind can change between renders: all but
/// compile-time constants and globals.
pub open spec fn is_dynamic_kind(k: BindingTypes) -> bool {
    k != BindingTypes::LiteralConst && k != BindingTypes::JsGlobal
}

/// What is written before a name of this kind.
pub open spec fn access_prefix(k: BindingTypes, m: TemplateGenerationMode) -> Seq<char> {
    match m {
        TemplateGenerationMode::RenderFn => match k {
            BindingTypes::TemplateLocal | BindingTypes::JsGlobal | BindingTypes::LiteralConst => ""@,
            BindingTypes::SetupLet | BindingTypes::SetupConst | BindingTypes::SetupReactiveConst
            | BindingTypes::SetupMaybeRef | BindingTypes::SetupRef
            | BindingTypes::Imported => "$setup."@,
            BindingTypes::Props | BindingTypes::PropsAliased => "$props."@,
            BindingTypes::Data => "$data."@,
            BindingTypes::Options => "$options."@,
            BindingTypes::Component | BindingTypes::Unresolved => "_ctx."@,
        },
        TemplateGenerationMode::Inline => match k {
            BindingTypes::SetupMaybeRef | BindingTypes::SetupLet => "_unref("@,
            BindingTypes::Props | BindingTypes::PropsAliased => "__props."@,
            BindingTypes::Data | BindingTypes::Options | BindingTypes::Unresolved => "_ctx."@,
            _ => ""@,
        },
    }
}

/// What is written after a name of this kind.
pub open spec fn access_suffix(k: BindingTypes, m: TemplateGenerationMode) -> Seq<char> {
    match m {
        TemplateGenerationMode::RenderFn => ""@,
        TemplateGenerationMode::Inline => match k {
            BindingTypes::SetupRef => ".value"@,
            BindingTypes::SetupMaybeRef | BindingTypes::SetupLet => ")"@,
            _ => ""@,
        },
    }
}

/// The resolved form of a name of this kind.
pub open spec fn access_text(k: BindingTypes, m: TemplateGenerationMode, name: Seq<char>) -> Seq<
    char,
> {
    access_prefix(k, m) + name + access_suffix(k, m)
}

fn prefix_str(k: BindingTypes, m: TemplateGenerationMode) -> (r: &'static str)
    ensures
        r@ == access_prefix(k, m),
{
    match m {
        TemplateGenerationMode::RenderFn => match k {
            BindingTypes::TemplateLocal | BindingTypes::JsGlobal | BindingTypes::LiteralConst => "",
            BindingTypes::SetupLet | BindingTypes::SetupConst | BindingTypes::SetupReactiveConst
            | BindingTypes::SetupMaybeRef | BindingTypes::SetupRef
            | BindingTypes::Imported => "$setup.",
            BindingTypes::Props | BindingTypes::PropsAliased => "$props.",
            BindingTypes::Data => "$data.",
            BindingTypes::Options => "$options.",
            BindingTypes::Component | BindingTypes::Unresolved => "_ctx.",
        },
        TemplateGenerationMode::Inline => match k {
            BindingTypes::SetupMaybeRef | BindingTypes::SetupLet => "_unref(",
            BindingTypes::Props | BindingTypes::PropsAliased => "__props.",
            BindingTypes::Data | BindingTypes::Options | BindingTypes::Unresolved => "_ctx.",
            _ => "",
        },
    }
}

fn suffix_str(k: BindingTypes, m: TemplateGenerationMode) -> (r: &'static str)
    ensures
        r@ == access_suffix(k, m),
{
    match m {
        TemplateGenerationMode::RenderFn => "",
        TemplateGenerationMode::Inline => match k {
            BindingTypes::SetupRef => ".value",
            BindingTypes::SetupMaybeRef | BindingTypes::SetupLet => ")",
            _ => "",
        },
    }
}

/// The kind of the first binding of `name` in `bs`.
pub fn find_setup_binding(bs: &Vec<SetupBinding>, name: &str) -> (r: Option<BindingTypes>)
    ensures
        r == setup_find(bs@, name@),
{
    let mut i: usize = 0;
    assert(bs@.subrange(0, bs@.len() as int) =~= bs@);
    while i < bs.len()
        invariant
            i <= bs@.len(),
            setup_find(bs@, name@) == setup_find(bs@.subrange(i as int, bs@.len() as int), name@),
        decreases bs@.len() - i,
    {
        assert(bs@.subrange(i as int, bs@.len() as int).drop_first() =~= bs@.subrange(
            i + 1,
            bs@.len() as int,
        ));
        if crate::ident::str_eq(bs[i].0.as_str(), name) {
            return Some(bs[i].1);
        }
        i = i + 1;
    }
    None
}

/// Whether `v` holds `name`.
pub fn contains_name(v: &Vec<String>, name: &str) -> (r: bool)
    ensures
        r == names_has(v@, name@),
{
    let mut i: usize = 0;
    while i < v.len()
        invariant
            i <= v@.len(),
            forall|j: int| 0 <= j < i ==> (#[trigger] v@[j])@ != name@,
        decreases v@.len() - i,
    {
        if crate::ident::str_eq(v[i].as_str(), name) {
            return true;
        }
        i = i + 1;
    }
    false
}

impl OptionsApiBindings {
    /// The kind `name` has among these declarations, if any.
    pub fn find(&self, name: &str) -> (r: Option<BindingTypes>)
        ensures
            r == options_kind(*self, name@),
    {
        let s = find_setup_binding(&self.setup, name);
        if s.is_some() {
            s
        } else if contains_name(&self.props, name) {
            Some(BindingTypes::Props)
        } else if contains_name(&self.data, name) {
            Some(BindingTypes::Data)
        } else if contains_name(&self.computed, name) || contains_name(&self.methods, name)
            || contains_name(&self.inject, name) {
            Some(BindingTypes::Options)
        } else {
            None
        }
    }
}

/// The names bound by the first `n` tokens of a pattern: its identifiers, in
/// order.
pub open spec fn pattern_names(ts: Seq<ExprToken>, n: int) -> Seq<Seq<char>>
    decreases n,
{
    if n <= 0 {
        Seq::empty()
    } else {
        match ts[n - 1] {
            ExprToken::Ident(x) => pattern_names(ts, n - 1).push(x@),
            ExprToken::Raw(_) => pattern_names(ts, n - 1),
        }
    }
}

/// The token after resolution.
pub open spec fn resolved_token(h: BindingsHelper, scope: int, t: ExprToken, r: ExprToken) -> bool {
    match t {
        ExprToken::Ident(x) => r is Raw && r->Raw_0@ == access_text(
            binding_kind(h, scope, x@),
            h.template_generation_mode,
            x@,
        ),
        ExprToken::Raw(_) => r == t,
    }
}

/// The uses recorded for the first `n` tokens.
pub open spec fn token_uses(h: BindingsHelper, scope: int, ts: Seq<ExprToken>, n: int) -> Seq<
    (Seq<char>, BindingTypes),
>
    decreases n,
{
    if n <= 0 {
        Seq::empty()
    } else {
        match ts[n - 1] {
            ExprToken::Ident(x) => token_uses(h, scope, ts, n - 1).push(
                (x@, binding_kind(h, scope, x@)),
            ),
            ExprToken::Raw(_) => token_uses(h, scope, ts, n - 1),
        }
    }
}

/// Whether one of the first `n` tokens is a dynamic reference.
pub open spec fn has_dynamic_ref(h: BindingsHelper, scope: int, ts: Seq<ExprToken>, n: int) -> bool {
    exists|i: int|
        0 <= i < n && (#[trigger] ts[i]) is Ident && is_dynamic_kind(
            binding_kind(h, scope, ts[i]->Ident_0@),
        )
}

/// The recorded uses, as (name, kind) pairs.
pub open spec fn uses_view(v: Seq<SetupBinding>) -> Seq<(Seq<char>, BindingTypes)> {
    v.map_values(|b: SetupBinding| (b.0@, b.1))
}

/// Everything but the recorded uses is the same.
pub open spec fn same_but_uses(a: BindingsHelper, b: BindingsHelper) -> bool {
    &&& a.components == b.components
    &&& a.custom_directives == b.custom_directives
    &&& a.is_prod == b.is_prod
    &&& a.template_scopes == b.template_scopes
    &&& a.setup_bindings == b.setup_bindings
    &&& a.options_api_bindings == b.options_api_bindings
    &&& a.template_generation_mode == b.template_generation_mode
    &&& a.vue_imports == b.vue_imports
}

impl BindingsHelper {
    /// The binding kind of `name` met in scope `scope`.
    pub fn resolve_kind(&self, name: &str, scope: u32) -> (r: BindingTypes)
        ensures
            r == binding_kind(*self, scope as int, name@),
    {
        if find_scope(&self.template_scopes, scope, name).is_some() {
            return BindingTypes::TemplateLocal;
        }
        let s = find_setup_binding(&self.setup_bindings, name);
        if let Some(k) = s {
            return k;
        }
        match &self.options_api_bindings {
            Some(o) => match o.find(name) {
                Some(k) => k,
                None => BindingTypes::Unresolved,
            },
            None => BindingTypes::Unresolved,
        }
    }

    /// Rewrites every free identifier of `expr` to its resolved form and
    /// records its use; returns whether any of them is dynamic.
    pub fn transform_expr(&mut self, expr: &mut Expr, scope: u32) -> (r: bool)
        ensures
            same_but_uses(*final(self), *old(self)),
            uses_view(final(self).used_bindings@) == uses_view(old(self).used_bindings@)
                + token_uses(*old(self), scope as int, old(expr).tokens@, old(expr).tokens@.len() as int),
            final(expr).tokens@.len() == old(expr).tokens@.len(),
            forall|i: int|
                0 <= i < old(expr).tokens@.len() ==> resolved_token(
                    *old(self),
                    scope as int,
                    #[trigger] old(expr).tokens@[i],
                    final(expr).tokens@[i],
                ),
            r == has_dynamic_ref(*old(self), scope as int, old(expr).tokens@, old(expr).tokens@.len() as int),
    {
        let ghost h0 = *self;
        let ghost ts = expr.tokens@;
        let n = expr.tokens.len();
        let mut dynamic = false;
        let mut i: usize = 0;
        while i < n
            invariant
                i <= n,
                n == ts.len(),
                expr.tokens@.len() == n,
                same_but_uses(*self, h0),
                uses_view(self.used_bindings@) == uses_view(h0.used_bindings@) + token_uses(
                    h0,
                    scope as int,
                    ts,
                    i as int,
                ),
                forall|j: int| 0 <= j < i ==> resolved_token(h0, scope as int, #[trigger] ts[j], expr.tokens@[j]),
                forall|j: int| i <= j < n ==> expr.tokens@[j] == ts[j],
                dynamic == has_dynamic_ref(h0, scope as int, ts, i as int),
            decreases n - i,
        {
            let name = match &expr.tokens[i] {
                ExprToken::Ident(x) => Some(x.clone()),
                ExprToken::Raw(_) => None,
            };
            match name {
                Some(x) => {
                    let ghost u0 = self.used_bindings@;
                    let k = self.resolve_kind(x.as_str(), scope);
                    assert(k == binding_kind(h0, scope as int, x@));
                    let mut text = String::new();
                    text.append(prefix_str(k, self.template_generation_mode));
                    text.append(x.as_str());
                    text.append(suffix_str(k, self.template_generation_mode));
                    expr.tokens.set(i, ExprToken::Raw(text));
                    self.used_bindings.push(SetupBinding(x, k));
                    if k != BindingTypes::LiteralConst && k != BindingTypes::JsGlobal {
                        dynamic = true;
                    }
                    assert(self.used_bindings@ == u0.push(SetupBinding(x, k)));
                    assert(uses_view(self.used_bindings@) =~= uses_view(u0).push((x@, k)));
                    assert(uses_view(self.used_bindings@) =~= uses_view(h0.used_bindings@)
                        + token_uses(h0, scope as int, ts, i + 1));
                },
                None => {
                    assert(token_uses(h0, scope as int, ts, i + 1) == token_uses(h0, scope as int, ts, i as int));
                },
            }
            assert(dynamic == has_dynamic_ref(h0, scope as int, ts, i + 1)) by {
                if has_dynamic_ref(h0, scope as int, ts, i + 1) && !has_dynamic_ref(h0, scope as int, ts, i as int) {
                    assert(ts[i as int] is Ident);
                }
            }
            i = i + 1;
        }
        dynamic
    }
}

/// Adds the names a pattern binds (its identifiers) to scope `s`.
pub fn collect_variables(pattern: &Expr, scopes: &mut Vec<TemplateScope>, s: u32)
    requires
        (s as int) < old(scopes)@.len(),
    ensures
        final(scopes)@.len() == old(scopes)@.len(),
        forall|i: int|
            0 <= i < old(scopes)@.len() && i != s ==> final(scopes)@[i] == old(scopes)@[i],
        final(scopes)@[s as int].parent == old(scopes)@[s as int].parent,
        scope_vars(old(scopes)@, s as int).len() + pattern.tokens@.len() < usize::MAX
            ==> scope_vars(final(scopes)@, s as int) == scope_vars(old(scopes)@, s as int)
            + pattern_names(pattern.tokens@, pattern.tokens@.len() as int),
{
    let ghost ts = pattern.tokens@;
    let ghost v0 = scope_vars(scopes@, s as int);
    let n = pattern.tokens.len();
    let mut i: usize = 0;
    while i < n
        invariant
            i <= n,
            n == ts.len(),
            ts == pattern.tokens@,
            scopes@.len() == old(scopes)@.len(),
            (s as int) < scopes@.len(),
            forall|j: int| 0 <= j < old(scopes)@.len() && j != s ==> scopes@[j] == old(scopes)@[j],
            scopes@[s as int].parent == old(scopes)@[s as int].parent,
            v0 == scope_vars(old(scopes)@, s as int),
            v0.len() + ts.len() < usize::MAX ==> scope_vars(scopes@, s as int) == v0 + pattern_names(ts, i as int),
            pattern_names(ts, i as int).len() <= i,
        decreases n - i,
    {
        match &pattern.tokens[i] {
            ExprToken::Ident(x) => {
                add_variable(scopes, s, x.clone());
                proof {
                    if v0.len() + ts.len() < usize::MAX {
                        assert(scope_vars(scopes@, s as int) =~= v0 + pattern_names(ts, i + 1));
                    }
                }
            },
            ExprToken::Raw(_) => {},
        }
        i = i + 1;
    }
}

/// The kind recorded last for `name` among the uses, if any.
pub open spec fn latest_use(u: Seq<(Seq<char>, BindingTypes)>, name: Seq<char>) -> Option<BindingTypes>
    decreases u.len(),
{
    if u.len() == 0 {
        None
    } else if u.last().0 == name {
        Some(u.last().1)
    } else {
        latest_use(u.drop_last(), name)
    }
}

impl BindingsHelper {
    /// The binding kind recorded for a template identifier: the latest use of
    /// that name wins.
    pub fn used_binding(&self, name: &str) -> (r: Option<BindingTypes>)
        ensures
            r == latest_use(uses_view(self.used_bindings@), name@),
    {
        let ghost u = uses_view(self.used_bindings@);
        let mut i: usize = self.used_bindings.len();
        assert(u.subrange(0, i as int) =~= u);
        while i > 0
            invariant
                i <= self.used_bindings@.len(),
                u == uses_view(self.used_bindings@),
                latest_use(u, name@) == latest_use(u.subrange(0, i as int), name@),
            decreases i,
        {
            let ghost p = u.subrange(0, i as int);
            assert(p.drop_last() =~= u.subrange(0, i - 1));
            if crate::ident::str_eq(self.used_bindings[i - 1].0.as_str(), name) {
                return Some(self.used_bindings[i - 1].1);
            }
            i = i - 1;
        }
        None
    }
}

/// A name that an expression in scope `scope` resolves to a template local
/// is bound by `scope` or one of its ancestors, never by a scope created
/// after it.
pub proof fn lemma_local_in_scope_chain(h: BindingsHelper, scope: int, name: Seq<char>)
    requires
        binding_kind(h, scope, name) == BindingTypes::TemplateLocal,
        setup_find(h.setup_bindings@, name) != Some(BindingTypes::TemplateLocal),
        h.options_api_bindings is Some ==> options_kind(*h.options_api_bindings->0, name) != Some(
            BindingTypes::TemplateLocal,
        ),
    ensures
        resolve_scope(h.template_scopes@, scope, name) is Some,
        crate::scope::ancestor_or_self(
            h.template_scopes@,
            scope,
            resolve_scope(h.template_scopes@, scope, name)->0,
        ),
        scope_vars(h.template_scopes@, resolve_scope(h.template_scopes@, scope, name)->0).contains(
            name,
        ),
        resolve_scope(h.template_scopes@, scope, name)->0 <= scope,
{
    crate::scope::lemma_scope_containment(h.template_scopes@, scope, name);
}

} // verus!
