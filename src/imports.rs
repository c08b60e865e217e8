//! The registry of runtime helpers that generated code refers to.

use vstd::prelude::*;

verus! {

/// A runtime helper of the framework.
#[derive(Clone, Copy, Debug, PartialEq, Eq, Structural)]
pub enum VueImports {
    CreateBlock,
    CreateCommentVNode,
    CreateElementBlock,
    CreateElementVNode,
    CreateTextVNode,
    CreateVNode,
    Fragment,
    KeepAlive,
    NormalizeClass,
    NormalizeStyle,
    OpenBlock,
    RenderList,
    ResolveComponent,
    ResolveDirective,
    Suspense,
    Teleport,
    ToDisplayString,
    Transition,
    TransitionGroup,
    Unref,
    WithCtx,
    WithDirectives,
}

/// The helper's exported name.
pub open spec fn import_name(i: VueImports) -> Seq<char> {
    match i {
        VueImports::CreateBlock => "createBlock"@,
        VueImports::CreateCommentVNode => "createCommentVNode"@,
        VueImports::CreateElementBlock => "createElementBlock"@,
        VueImports::CreateElementVNode => "createElementVNode"@,
        VueImports::CreateTextVNode => "createTextVNode"@,
        VueImports::CreateVNode => "createVNode"@,
        VueImports::Fragment => "Fragment"@,
        VueImports::KeepAlive => "KeepAlive"@,
        VueImports::NormalizeClass => "normalizeClass"@,
        VueImports::NormalizeStyle => "normalizeStyle"@,
        VueImports::OpenBlock => "openBlock"@,
        VueImports::RenderList => "renderList"@,
        VueImports::ResolveComponent => "resolveComponent"@,
        VueImports::ResolveDirective => "resolveDirective"@,
        VueImports::Suspense => "Suspense"@,
        VueImports::Teleport => "Teleport"@,
        VueImports::ToDisplayString => "toDisplayString"@,
        VueImports::Transition => "Transition"@,
        VueImports::TransitionGroup => "TransitionGroup"@,
        VueImports::Unref => "unref"@,
        VueImports::WithCtx => "withCtx"@,
        VueImports::WithDirectives => "withDirectives"@,
    }
}

/// The local alias of a helper: its name behind an underscore.
pub open spec fn import_alias(i: VueImports) -> Seq<char> {
    seq!['_'] + import_name(i)
}

impl VueImports {
    /// The helper's exported name.
    pub fn as_str(self) -> (r: &'static str)
        ensures
            r@ == import_name(self),
    {
        match self {
            VueImports::CreateBlock => "createBlock",
            VueImports::CreateCommentVNode => "createCommentVNode",
            VueImports::CreateElementBlock => "createElementBlock",
            VueImports::CreateElementVNode => "createElementVNode",
            VueImports::CreateTextVNode => "createTextVNode",
            VueImports::CreateVNode => "createVNode",
            VueImports::Fragment => "Fragment",
            VueImports::KeepAlive => "KeepAlive",
            VueImports::NormalizeClass => "normalizeClass",
            VueImports::NormalizeStyle => "normalizeStyle",
            VueImports::OpenBlock => "openBlock",
            VueImports::RenderList => "renderList",
            VueImports::ResolveComponent => "resolveComponent",
            VueImports::ResolveDirective => "resolveDirective",
            VueImports::Suspense => "Suspense",
            VueImports::Teleport => "Teleport",
            VueImports::ToDisplayString => "toDisplayString",
            VueImports::Transition => "Transition",
            VueImports::TransitionGroup => "TransitionGroup",
            VueImports::Unref => "unref",
            VueImports::WithCtx => "withCtx",
            VueImports::WithDirectives => "withDirectives",
        }
    }
}

/// The registry after a lookup-or-insert of `i`: unchanged when `i` is
/// already there, else `i` appended.
pub open spec fn registered(v: Seq<VueImports>, i: VueImports) -> Seq<VueImports> {
    if v.contains(i) {
        v
    } else {
        v.push(i)
    }
}

/// Records that generated code uses helper `i` and returns its alias.
pub fn add_import(imports: &mut Vec<VueImports>, i: VueImports) -> (r: String)
    ensures
        final(imports)@ == registered(old(imports)@, i),
        r@ == import_alias(i),
{
    let mut k: usize = 0;
    let mut found = false;
    while k < imports.len()
        invariant
            k <= imports@.len(),
            imports@ == old(imports)@,
            found ==> imports@.contains(i),
            !found ==> forall|j: int| 0 <= j < k ==> imports@[j] != i,
        decreases imports@.len() - k,
    {
        if imports[k] == i {
            found = true;
            assert(imports@[k as int] == i);
        }
        k = k + 1;
    }
    if !found {
        imports.push(i);
    }
    let mut r = String::new();
    crate::ident::push_char(&mut r, '_');
    r.append(i.as_str());
    assert(r@ =~= import_alias(i));
    r
}

/// A registry without repeats stays without repeats.
pub proof fn lemma_registry_idempotent(v: Seq<VueImports>, i: VueImports)
    ensures
        registered(registered(v, i), i) == registered(v, i),
        registered(v, i).contains(i),
{
    if !v.contains(i) {
        assert(v.push(i)[v.len() as int] == i);
    }
}

} // verus!
