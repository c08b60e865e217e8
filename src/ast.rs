//! The template tree: nodes, elements, directives and embedded expressions.

use vstd::prelude::*;
use crate::flags::PatchHints;

verus! {

/// One token of an embedded script expression.
///
/// `Ident` is a free identifier that still needs resolving; `Raw` is any
/// other text (punctuation, literals, property names, already resolved
/// references), emitted as it stands.
#[derive(Debug)]
pub enum ExprToken {
    Ident(String),
    Raw(String),
}

/// An embedded script expression, as the sequence of its tokens.
#[derive(Debug)]
pub struct Expr {
    pub tokens: Vec<ExprToken>,
}

/// The framework's built-in components.
#[derive(Clone, Copy, Debug, PartialEq, Eq, Structural)]
pub enum BuiltinType {
    Component,
    KeepAlive,
    Slot,
    Suspense,
    Teleport,
    Transition,
    TransitionGroup,
}

/// How an element is generated.
#[derive(Clone, Copy, Debug, PartialEq, Eq, Structural)]
pub enum ElementKind {
    Element,
    Component,
    Builtin(BuiltinType),
}

/// A static string or an expression (a directive argument).
#[derive(Debug)]
pub enum StrOrExpr {
    Str(String),
    Expr(Expr),
}

/// `:name="value"` and `v-bind`.
#[derive(Debug)]
pub struct VBindDirective {
    pub argument: Option<StrOrExpr>,
    pub value: Expr,
    pub is_camel: bool,
    pub is_prop: bool,
    pub is_attr: bool,
}

/// `@event="handler"` and `v-on`.
#[derive(Debug)]
pub struct VOnDirective {
    pub event: Option<StrOrExpr>,
    pub handler: Option<Expr>,
    pub modifiers: Vec<String>,
}

/// An attribute of a starting tag.
#[derive(Debug)]
pub enum AttributeOrBinding {
    RegularAttribute { name: String, value: String },
    VBind(VBindDirective),
    VOn(VOnDirective),
}

/// `v-for="itervar in iterable"` with the fragment flags of the loop.
#[derive(Debug)]
pub struct VForDirective {
    pub iterable: Expr,
    pub itervar: Expr,
    pub patch_flags: u16,
}

/// `v-slot:name="value"`.
#[derive(Debug)]
pub struct VSlotDirective {
    pub slot_name: Option<StrOrExpr>,
    pub value: Option<Expr>,
}

/// The built-in directives of an element, one slot per kind.
#[derive(Debug, Default)]
pub struct VueDirectives {
    pub v_if: Option<Expr>,
    pub v_else_if: Option<Expr>,
    pub v_else: bool,
    pub v_for: Option<VForDirective>,
    pub v_slot: Option<VSlotDirective>,
    pub v_html: Option<Expr>,
    pub v_memo: Option<Expr>,
    pub v_show: Option<Expr>,
    pub v_text: Option<Expr>,
}

/// Tag name, attributes in source order, and directives.
#[derive(Debug)]
pub struct StartingTag {
    pub tag_name: String,
    pub attributes: Vec<AttributeOrBinding>,
    pub directives: Option<Box<VueDirectives>>,
}

/// An element, a component or a built-in.
#[derive(Debug)]
pub struct ElementNode {
    pub kind: ElementKind,
    pub starting_tag: StartingTag,
    pub children: Vec<Node>,
    pub template_scope: u32,
    pub patch_hints: PatchHints,
}

/// `{{ value }}`; `patch_flag` is set when the value is dynamic.
#[derive(Debug)]
pub struct Interpolation {
    pub value: Expr,
    pub template_scope: u32,
    pub patch_flag: bool,
}

/// A condition and the element shown when it holds.
#[derive(Debug)]
pub struct Conditional {
    pub condition: Expr,
    pub node: ElementNode,
}

/// A folded `v-if` / `v-else-if` / `v-else` chain.
#[derive(Debug)]
pub struct ConditionalNodeSequence {
    pub if_node: Box<Conditional>,
    pub else_if_nodes: Vec<Conditional>,
    pub else_node: Option<Box<ElementNode>>,
}

/// A node of the template tree.
#[derive(Debug)]
pub enum Node {
    Element(ElementNode),
    Text(String),
    Comment(String),
    Interpolation(Interpolation),
    ConditionalSeq(ConditionalNodeSequence),
}

} // verus!
