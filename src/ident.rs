//! Identifier and property-name helpers used by the code generator.

use vstd::prelude::*;

verus! {

/// Whether the word is reserved in JavaScript.
pub uninterp spec fn js_reserved(s: Seq<char>) -> bool;

/// Whether the word is reserved in strict-mode module code.
pub uninterp spec fn js_reserved_strict(s: Seq<char>) -> bool;

/// Whether the word cannot be bound in strict mode.
pub uninterp spec fn js_reserved_strict_bind(s: Seq<char>) -> bool;

/// Whether the character may start an identifier.
pub uninterp spec fn js_ident_start(c: char) -> bool;

/// Whether the character may continue an identifier.
pub uninterp spec fn js_ident_continue(c: char) -> bool;

/// The upper-case mapping of a character (one or more characters).
pub uninterp spec fn char_upper(c: char) -> Seq<char>;

/// Relies on `EsReserved::is_reserved` for `&str` in swc_ecma_ast: a lookup in a
/// fixed word list, so the answer depends on the word alone.
#[verifier::external_body]
fn reserved_word(s: &str) -> (r: bool)
    ensures
        r == js_reserved(s@),
{
    swc_core::ecma::ast::EsReserved::is_reserved(&s)
}

/// Relies on `EsReserved::is_reserved_in_strict_mode(true)` for `&str` in
/// swc_ecma_ast: a lookup in a fixed word list.
#[verifier::external_body]
fn reserved_word_strict(s: &str) -> (r: bool)
    ensures
        r == js_reserved_strict(s@),
{
    swc_core::ecma::ast::EsReserved::is_reserved_in_strict_mode(&s, true)
}

/// Relies on `EsReserved::is_reserved_in_strict_bind` for `&str` in
/// swc_ecma_ast: a lookup in a fixed word list.
#[verifier::external_body]
fn reserved_word_strict_bind(s: &str) -> (r: bool)
    ensures
        r == js_reserved_strict_bind(s@),
{
    swc_core::ecma::ast::EsReserved::is_reserved_in_strict_bind(&s)
}

/// Relies on `Ident::is_valid_start` of swc_ecma_ast: a table lookup on the
/// character.
#[verifier::external_body]
fn ident_start(c: char) -> (r: bool)
    ensures
        r == js_ident_start(c),
{
    swc_core::ecma::ast::Ident::is_valid_start(c)
}

/// Relies on `Ident::is_valid_continue` of swc_ecma_ast: a table lookup on the
/// character.
#[verifier::external_body]
fn ident_continue(c: char) -> (r: bool)
    ensures
        r == js_ident_continue(c),
{
    swc_core::ecma::ast::Ident::is_valid_continue(c)
}

/// Relies on `char::to_uppercase` of std: the mapping depends on the character
/// alone.
#[verifier::external_body]
fn upper(c: char) -> (r: String)
    ensures
        r@ == char_upper(c),
{
    c.to_uppercase().collect()
}

/// Relies on `String::push` of std: appends one character.
#[verifier::external_body]
pub(crate) fn push_char(buf: &mut String, c: char)
    ensures
        final(buf)@ == old(buf)@.push(c),
{
    buf.push(c)
}

/// A word that can stand as a bare identifier: not reserved, first character
/// an identifier start, the others identifier continuations.
pub open spec fn valid_ident(s: Seq<char>) -> bool {
    &&& !js_reserved(s)
    &&& !js_reserved_strict(s)
    &&& !js_reserved_strict_bind(s)
    &&& s.len() > 0
    &&& js_ident_start(s[0])
    &&& forall|i: int| 1 <= i < s.len() ==> js_ident_continue(#[trigger] s[i])
}

/// Whether `s` can be written as a bare identifier in generated code.
pub fn is_valid_ident(s: &str) -> (r: bool)
    ensures
        r == valid_ident(s@),
{
    if reserved_word(s) || reserved_word_strict(s) || reserved_word_strict_bind(s) {
        return false;
    }
    let n = s.unicode_len();
    if n == 0 {
        return false;
    }
    if !ident_start(s.get_char(0)) {
        return false;
    }
    let mut i: usize = 1;
    while i < n
        invariant
            1 <= i <= n,
            n == s@.len(),
            forall|j: int| 1 <= j < i ==> js_ident_continue(#[trigger] s@[j]),
        decreases n - i,
    {
        if !ident_continue(s.get_char(i)) {
            return false;
        }
        i = i + 1;
    }
    true
}

/// Whether two strings hold the same characters.
pub fn str_eq(a: &str, b: &str) -> (r: bool)
    ensures
        r == (a@ == b@),
{
    let n = a.unicode_len();
    if n != b.unicode_len() {
        return false;
    }
    let mut i: usize = 0;
    while i < n
        invariant
            i <= n,
            n == a@.len(),
            n == b@.len(),
            forall|j: int| 0 <= j < i ==> a@[j] == b@[j],
        decreases n - i,
    {
        if a.get_char(i) != b.get_char(i) {
            return false;
        }
        i = i + 1;
    }
    assert(a@ =~= b@);
    true
}

/// The text of an object key: the bare word when it is a valid identifier,
/// else a string literal.
pub open spec fn propname_text(s: Seq<char>) -> Seq<char> {
    if valid_ident(s) {
        s
    } else {
        crate::codegen::js_str(s)
    }
}

/// Writes `s` as an object key: bare when it is a valid identifier, quoted
/// otherwise.
pub fn str_to_propname(s: &str) -> (r: String)
    ensures
        r@ == propname_text(s@),
{
    if is_valid_ident(s) {
        s.to_string()
    } else {
        crate::codegen::string_literal(s)
    }
}

/// What one character of a dash-separated word contributes to its camel or
/// Pascal form: dashes vanish, the first character of each word after the
/// first (of every word, for Pascal case) is upper-cased.
pub open spec fn case_piece(s: Seq<char>, i: int, pascal: bool) -> Seq<char> {
    if s[i] == '-' {
        Seq::empty()
    } else if (i == 0 && pascal) || (i > 0 && s[i - 1] == '-') {
        char_upper(s[i])
    } else {
        seq![s[i]]
    }
}

/// The camel or Pascal form of the first `n` characters of `s`.
pub open spec fn case_prefix(s: Seq<char>, n: int, pascal: bool) -> Seq<char>
    decreases n,
{
    if n <= 0 {
        Seq::empty()
    } else {
        case_prefix(s, n - 1, pascal) + case_piece(s, n - 1, pascal)
    }
}

fn append_case(s: &str, buf: &mut String, pascal: bool)
    ensures
        final(buf)@ == old(buf)@ + case_prefix(s@, s@.len() as int, pascal),
{
    let n = s.unicode_len();
    let mut i: usize = 0;
    while i < n
        invariant
            i <= n,
            n == s@.len(),
            buf@ == old(buf)@ + case_prefix(s@, i as int, pascal),
        decreases n - i,
    {
        let c = s.get_char(i);
        if c == '-' {
        } else if (i == 0 && pascal) || (i > 0 && s.get_char(i - 1) == '-') {
            let u = upper(c);
            buf.append(u.as_str());
        } else {
            push_char(buf, c);
        }
        assert(buf@ =~= old(buf)@ + case_prefix(s@, i + 1, pascal));
        i = i + 1;
    }
}

/// Appends the camel-case form of the dash-separated word `s` to `buf`
/// (`foo-bar` becomes `fooBar`).
pub fn to_camelcase(s: &str, buf: &mut String)
    ensures
        final(buf)@ == old(buf)@ + case_prefix(s@, s@.len() as int, false),
{
    append_case(s, buf, false)
}

/// Appends the Pascal-case form of the dash-separated word `s` to `buf`
/// (`foo-bar` becomes `FooBar`).
pub fn to_pascalcase(s: &str, buf: &mut String)
    ensures
        final(buf)@ == old(buf)@ + case_prefix(s@, s@.len() as int, true),
{
    append_case(s, buf, true)
}

} // verus!
