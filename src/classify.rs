//! Classification of tags into elements, components and built-ins.

use vstd::prelude::*;
use crate::ast::{AttributeOrBinding, BuiltinType, ElementKind, StartingTag, StrOrExpr};
use crate::ident::str_eq;

verus! {

/// Whether the tag is a standard HTML tag.
pub open spec fn html_tag(t: Seq<char>) -> bool {
    t == "html"@
        || t == "body"@
        || t == "base"@
        || t == "head"@
        || t == "link"@
        || t == "meta"@
        || t == "style"@
        || t == "title"@
        || t == "address"@
        || t == "article"@
        || t == "aside"@
        || t == "footer"@
        || t == "header"@
        || t == "hgroup"@
        || t == "h1"@
        || t == "h2"@
        || t == "h3"@
        || t == "h4"@
        || t == "h5"@
        || t == "h6"@
        || t == "nav"@
        || t == "section"@
        || t == "div"@
        || t == "dd"@
        || t == "dl"@
        || t == "dt"@
        || t == "figcaption"@
        || t == "figure"@
        || t == "picture"@
        || t == "hr"@
        || t == "img"@
        || t == "li"@
        || t == "main"@
        || t == "ol"@
        || t == "p"@
        || t == "pre"@
        || t == "ul"@
        || t == "a"@
        || t == "b"@
        || t == "abbr"@
        || t == "bdi"@
        || t == "bdo"@
        || t == "br"@
        || t == "cite"@
        || t == "code"@
        || t == "data"@
        || t == "dfn"@
        || t == "em"@
        || t == "i"@
        || t == "kbd"@
        || t == "mark"@
        || t == "q"@
        || t == "rp"@
        || t == "rt"@
        || t == "ruby"@
        || t == "s"@
        || t == "samp"@
        || t == "small"@
        || t == "span"@
        || t == "strong"@
        || t == "sub"@
        || t == "sup"@
        || t == "time"@
        || t == "u"@
        || t == "var"@
        || t == "wbr"@
        || t == "area"@
        || t == "audio"@
        || t == "map"@
        || t == "track"@
        || t == "video"@
        || t == "embed"@
        || t == "object"@
        || t == "param"@
        || t == "source"@
        || t == "canvas"@
        || t == "script"@
        || t == "noscript"@
        || t == "del"@
        || t == "ins"@
        || t == "caption"@
        || t == "col"@
        || t == "colgroup"@
        || t == "table"@
        || t == "thead"@
        || t == "tbody"@
        || t == "td"@
        || t == "th"@
        || t == "tr"@
        || t == "button"@
        || t == "datalist"@
        || t == "fieldset"@
        || t == "form"@
        || t == "input"@
        || t == "label"@
        || t == "legend"@
        || t == "meter"@
        || t == "optgroup"@
        || t == "option"@
        || t == "output"@
        || t == "progress"@
        || t == "select"@
        || t == "textarea"@
        || t == "details"@
        || t == "dialog"@
        || t == "menu"@
        || t == "summary"@
        || t == "template"@
        || t == "blockquote"@
        || t == "iframe"@
        || t == "tfoot"@
}

/// Whether `t` is a standard HTML tag.
pub fn is_html_tag(t: &str) -> (r: bool)
    ensures
        r == html_tag(t@),
{
    str_eq(t, "html")
        || str_eq(t, "body")
        || str_eq(t, "base")
        || str_eq(t, "head")
        || str_eq(t, "link")
        || str_eq(t, "meta")
        || str_eq(t, "style")
        || str_eq(t, "title")
        || str_eq(t, "address")
        || str_eq(t, "article")
        || str_eq(t, "aside")
        || str_eq(t, "footer")
        || str_eq(t, "header")
        || str_eq(t, "hgroup")
        || str_eq(t, "h1")
        || str_eq(t, "h2")
        || str_eq(t, "h3")
        || str_eq(t, "h4")
        || str_eq(t, "h5")
        || str_eq(t, "h6")
        || str_eq(t, "nav")
        || str_eq(t, "section")
        || str_eq(t, "div")
        || str_eq(t, "dd")
        || str_eq(t, "dl")
        || str_eq(t, "dt")
        || str_eq(t, "figcaption")
        || str_eq(t, "figure")
        || str_eq(t, "picture")
        || str_eq(t, "hr")
        || str_eq(t, "img")
        || str_eq(t, "li")
        || str_eq(t, "main")
        || str_eq(t, "ol")
        || str_eq(t, "p")
        || str_eq(t, "pre")
        || str_eq(t, "ul")
        || str_eq(t, "a")
        || str_eq(t, "b")
        || str_eq(t, "abbr")
        || str_eq(t, "bdi")
        || str_eq(t, "bdo")
        || str_eq(t, "br")
        || str_eq(t, "cite")
        || str_eq(t, "code")
        || str_eq(t, "data")
        || str_eq(t, "dfn")
        || str_eq(t, "em")
        || str_eq(t, "i")
        || str_eq(t, "kbd")
        || str_eq(t, "mark")
        || str_eq(t, "q")
        || str_eq(t, "rp")
        || str_eq(t, "rt")
        || str_eq(t, "ruby")
        || str_eq(t, "s")
        || str_eq(t, "samp")
        || str_eq(t, "small")
        || str_eq(t, "span")
        || str_eq(t, "strong")
        || str_eq(t, "sub")
        || str_eq(t, "sup")
        || str_eq(t, "time")
        || str_eq(t, "u")
        || str_eq(t, "var")
        || str_eq(t, "wbr")
        || str_eq(t, "area")
        || str_eq(t, "audio")
        || str_eq(t, "map")
        || str_eq(t, "track")
        || str_eq(t, "video")
        || str_eq(t, "embed")
        || str_eq(t, "object")
        || str_eq(t, "param")
        || str_eq(t, "source")
        || str_eq(t, "canvas")
        || str_eq(t, "script")
        || str_eq(t, "noscript")
        || str_eq(t, "del")
        || str_eq(t, "ins")
        || str_eq(t, "caption")
        || str_eq(t, "col")
        || str_eq(t, "colgroup")
        || str_eq(t, "table")
        || str_eq(t, "thead")
        || str_eq(t, "tbody")
        || str_eq(t, "td")
        || str_eq(t, "th")
        || str_eq(t, "tr")
        || str_eq(t, "button")
        || str_eq(t, "datalist")
        || str_eq(t, "fieldset")
        || str_eq(t, "form")
        || str_eq(t, "input")
        || str_eq(t, "label")
        || str_eq(t, "legend")
        || str_eq(t, "meter")
        || str_eq(t, "optgroup")
        || str_eq(t, "option")
        || str_eq(t, "output")
        || str_eq(t, "progress")
        || str_eq(t, "select")
        || str_eq(t, "textarea")
        || str_eq(t, "details")
        || str_eq(t, "dialog")
        || str_eq(t, "menu")
        || str_eq(t, "summary")
        || str_eq(t, "template")
        || str_eq(t, "blockquote")
        || str_eq(t, "iframe")
        || str_eq(t, "tfoot")
}

/// The built-in that the tag names, if any.
pub open spec fn builtin_of(t: Seq<char>) -> Option<BuiltinType> {
    if t == "component"@ {
        Some(BuiltinType::Component)
    } else if t == "keep-alive"@ {
        Some(BuiltinType::KeepAlive)
    } else if t == "KeepAlive"@ {
        Some(BuiltinType::KeepAlive)
    } else if t == "slot"@ {
        Some(BuiltinType::Slot)
    } else if t == "suspense"@ {
        Some(BuiltinType::Suspense)
    } else if t == "Suspense"@ {
        Some(BuiltinType::Suspense)
    } else if t == "teleport"@ {
        Some(BuiltinType::Teleport)
    } else if t == "Teleport"@ {
        Some(BuiltinType::Teleport)
    } else if t == "transition"@ {
        Some(BuiltinType::Transition)
    } else if t == "Transition"@ {
        Some(BuiltinType::Transition)
    } else if t == "transition-group"@ {
        Some(BuiltinType::TransitionGroup)
    } else if t == "TransitionGroup"@ {
        Some(BuiltinType::TransitionGroup)
    } else {
        None
    }
}

/// The built-in that `t` names, if any.
pub fn builtin_type(t: &str) -> (r: Option<BuiltinType>)
    ensures
        r == builtin_of(t@),
{
    if str_eq(t, "component") {
        Some(BuiltinType::Component)
    } else if str_eq(t, "keep-alive") {
        Some(BuiltinType::KeepAlive)
    } else if str_eq(t, "KeepAlive") {
        Some(BuiltinType::KeepAlive)
    } else if str_eq(t, "slot") {
        Some(BuiltinType::Slot)
    } else if str_eq(t, "suspense") {
        Some(BuiltinType::Suspense)
    } else if str_eq(t, "Suspense") {
        Some(BuiltinType::Suspense)
    } else if str_eq(t, "teleport") {
        Some(BuiltinType::Teleport)
    } else if str_eq(t, "Teleport") {
        Some(BuiltinType::Teleport)
    } else if str_eq(t, "transition") {
        Some(BuiltinType::Transition)
    } else if str_eq(t, "Transition") {
        Some(BuiltinType::Transition)
    } else if str_eq(t, "transition-group") {
        Some(BuiltinType::TransitionGroup)
    } else if str_eq(t, "TransitionGroup") {
        Some(BuiltinType::TransitionGroup)
    } else {
        None
    }
}

/// The attribute is named `name`: a plain attribute of that name, or a
/// binding whose static argument is that name.
pub open spec fn attr_named(a: AttributeOrBinding, name: Seq<char>) -> bool {
    match a {
        AttributeOrBinding::RegularAttribute { name: n, .. } => n@ == name,
        AttributeOrBinding::VBind(b) => match b.argument {
            Some(StrOrExpr::Str(n)) => n@ == name,
            _ => false,
        },
        AttributeOrBinding::VOn(_) => false,
    }
}

/// Some attribute is named `name`.
pub open spec fn has_attr(attrs: Seq<AttributeOrBinding>, name: Seq<char>) -> bool {
    exists|i: int| 0 <= i < attrs.len() && attr_named(#[trigger] attrs[i], name)
}

/// Whether the attribute is named `name`.
pub fn check_attribute_name(a: &AttributeOrBinding, name: &str) -> (r: bool)
    ensures
        r == attr_named(*a, name@),
{
    match a {
        AttributeOrBinding::RegularAttribute { name: n, .. } => str_eq(n.as_str(), name),
        AttributeOrBinding::VBind(b) => match &b.argument {
            Some(StrOrExpr::Str(n)) => str_eq(n.as_str(), name),
            _ => false,
        },
        AttributeOrBinding::VOn(_) => false,
    }
}

/// Whether some attribute is named `name`.
pub fn has_attribute(attrs: &Vec<AttributeOrBinding>, name: &str) -> (r: bool)
    ensures
        r == has_attr(attrs@, name@),
{
    let mut i: usize = 0;
    while i < attrs.len()
        invariant
            i <= attrs@.len(),
            forall|j: int| 0 <= j < i ==> !attr_named(#[trigger] attrs@[j], name@),
        decreases attrs@.len() - i,
    {
        if check_attribute_name(&attrs[i], name) {
            return true;
        }
        i = i + 1;
    }
    false
}

/// The kind of an element with this tag and these attributes: a built-in
/// when the tag names one (but `component` without `is` is a component), an
/// element for a standard HTML tag, a component otherwise.
pub open spec fn element_kind_of(t: Seq<char>, attrs: Seq<AttributeOrBinding>) -> ElementKind {
    match builtin_of(t) {
        Some(b) => if t == "component"@ && !has_attr(attrs, "is"@) {
            ElementKind::Component
        } else {
            ElementKind::Builtin(b)
        },
        None => if html_tag(t) {
            ElementKind::Element
        } else {
            ElementKind::Component
        },
    }
}

/// Classifies a starting tag as an element, a component or a built-in.
pub fn recognize_element_kind(starting_tag: &StartingTag) -> (r: ElementKind)
    ensures
        r == element_kind_of(starting_tag.tag_name@, starting_tag.attributes@),
{
    let t = starting_tag.tag_name.as_str();
    match builtin_type(t) {
        Some(b) => {
            if str_eq(t, "component") && !has_attribute(&starting_tag.attributes, "is") {
                ElementKind::Component
            } else {
                ElementKind::Builtin(b)
            }
        },
        None => {
            if is_html_tag(t) {
                ElementKind::Element
            } else {
                ElementKind::Component
            }
        },
    }
}

} // verus!
