//! The scope table: template scopes linked to their parents, and the lookup
//! of a name along the parent chain.

use vstd::prelude::*;
use smallvec::SmallVec;

verus! {

/// The variable names of a scope, kept in a small inline vector.
#[verifier::external_body]
#[derive(Debug)]
pub struct ScopeVars {
    inner: SmallVec<[String; 1]>,
}

/// The names held by a scope's variable list, in order.
pub uninterp spec fn small_items(v: ScopeVars) -> Seq<Seq<char>>;

/// Relies on `SmallVec::new`: an empty vector.
#[verifier::external_body]
pub(crate) fn small_new() -> (r: ScopeVars)
    ensures
        small_items(r) == Seq::<Seq<char>>::empty(),
{
    ScopeVars { inner: SmallVec::new() }
}

/// Relies on `SmallVec::push`: appends one item (it panics only when the
/// length would overflow `usize`).
#[verifier::external_body]
pub(crate) fn small_push(v: &mut ScopeVars, s: String)
    requires
        small_items(*old(v)).len() < usize::MAX,
    ensures
        small_items(*final(v)) == small_items(*old(v)).push(s@),
{
    v.inner.push(s)
}

/// Relies on `SmallVec::len`: the number of items.
#[verifier::external_body]
pub(crate) fn small_len(v: &ScopeVars) -> (r: usize)
    ensures
        r == small_items(*v).len(),
{
    v.inner.len()
}

/// Relies on indexing a `SmallVec` (through its slice): the item at `i`.
#[verifier::external_body]
pub(crate) fn small_get(v: &ScopeVars, i: usize) -> (r: &String)
    requires
        i < small_items(*v).len(),
    ensures
        r@ == small_items(*v)[i as int],
{
    &v.inner[i]
}

/// A lexical scope of the template: the names it binds and its parent.
#[derive(Debug)]
pub struct TemplateScope {
    pub variables: ScopeVars,
    pub parent: u32,
}

/// The names bound by scope `s`.
pub open spec fn scope_vars(scopes: Seq<TemplateScope>, s: int) -> Seq<Seq<char>> {
    small_items(scopes[s].variables)
}

/// Each scope's parent comes before it; the root scope is its own parent.
pub open spec fn scopes_wf(scopes: Seq<TemplateScope>) -> bool {
    forall|i: int|
        0 <= i < scopes.len() ==> (#[trigger] scopes[i]).parent <= i && (i > 0
            ==> scopes[i].parent < i)
}

/// The scope, on the chain from `s` up to the root, that first binds `name`.
pub open spec fn resolve_scope(scopes: Seq<TemplateScope>, s: int, name: Seq<char>) -> Option<int>
    decreases s,
{
    if s < 0 || s >= scopes.len() {
        None
    } else if scope_vars(scopes, s).contains(name) {
        Some(s)
    } else if s == 0 || scopes[s].parent >= s {
        None
    } else {
        resolve_scope(scopes, scopes[s].parent as int, name)
    }
}

/// `a` is `s` or lies on the chain of parents from `s`.
pub open spec fn ancestor_or_self(scopes: Seq<TemplateScope>, s: int, a: int) -> bool
    decreases s,
{
    if s == a {
        true
    } else if s <= 0 || s >= scopes.len() || scopes[s].parent >= s {
        false
    } else {
        ancestor_or_self(scopes, scopes[s].parent as int, a)
    }
}

/// Whether the name is among the scope's variables.
fn scope_binds(scope: &TemplateScope, name: &str) -> (r: bool)
    ensures
        r == small_items(scope.variables).contains(name@),
{
    let n = small_len(&scope.variables);
    let mut i: usize = 0;
    while i < n
        invariant
            i <= n,
            n == small_items(scope.variables).len(),
            forall|j: int| 0 <= j < i ==> small_items(scope.variables)[j] != name@,
        decreases n - i,
    {
        if crate::ident::str_eq(small_get(&scope.variables, i).as_str(), name) {
            return true;
        }
        i = i + 1;
    }
    false
}

/// Finds the scope, from `s` up through its parents, that binds `name`.
pub fn find_scope(scopes: &Vec<TemplateScope>, s: u32, name: &str) -> (r: Option<u32>)
    ensures
        match r {
            Some(a) => resolve_scope(scopes@, s as int, name@) == Some(a as int),
            None => resolve_scope(scopes@, s as int, name@) is None,
        },
{
    let mut cur = s;
    while (cur as usize) < scopes.len()
        invariant
            resolve_scope(scopes@, s as int, name@) == resolve_scope(scopes@, cur as int, name@),
        decreases cur,
    {
        if scope_binds(&scopes[cur as usize], name) {
            return Some(cur);
        }
        let p = scopes[cur as usize].parent;
        if cur == 0 || p >= cur {
            return None;
        }
        cur = p;
    }
    None
}

/// Appends a scope with no variables under `parent`; its id is the old
/// length of the table.
pub fn open_scope(scopes: &mut Vec<TemplateScope>, parent: u32) -> (r: u32)
    requires
        old(scopes)@.len() < u32::MAX,
    ensures
        r == old(scopes)@.len(),
        final(scopes)@.len() == old(scopes)@.len() + 1,
        forall|i: int| 0 <= i < old(scopes)@.len() ==> final(scopes)@[i] == old(scopes)@[i],
        final(scopes)@[r as int].parent == parent,
        scope_vars(final(scopes)@, r as int) == Seq::<Seq<char>>::empty(),
{
    let id = scopes.len() as u32;
    scopes.push(TemplateScope { variables: small_new(), parent });
    id
}

/// Adds a name to the variables of scope `s` (a list already holding
/// `usize::MAX` names is left as it is).
pub fn add_variable(scopes: &mut Vec<TemplateScope>, s: u32, name: String)
    requires
        (s as int) < old(scopes)@.len(),
    ensures
        final(scopes)@.len() == old(scopes)@.len(),
        forall|i: int|
            0 <= i < old(scopes)@.len() && i != s ==> final(scopes)@[i] == old(scopes)@[i],
        final(scopes)@[s as int].parent == old(scopes)@[s as int].parent,
        scope_vars(old(scopes)@, s as int).len() < usize::MAX ==> scope_vars(final(scopes)@, s as int)
            == scope_vars(old(scopes)@, s as int).push(name@),
        scope_vars(old(scopes)@, s as int).len() == usize::MAX ==> final(scopes)@ == old(scopes)@,
{
    if small_len(&scopes[s as usize].variables) == usize::MAX {
        return;
    }
    let mut scope = scopes.remove(s as usize);
    small_push(&mut scope.variables, name);
    scopes.insert(s as usize, scope);
    assert(forall|i: int| 0 <= i < old(scopes)@.len() && i != s ==> final(scopes)@[i] == old(scopes)@[i]) by {
        assert(scopes@ =~= old(scopes)@.update(s as int, scopes@[s as int]));
    }
}

proof fn lemma_ancestor_below(scopes: Seq<TemplateScope>, s: int, a: int)
    requires
        ancestor_or_self(scopes, s, a),
    ensures
        a <= s,
    decreases s,
{
    if s != a {
        lemma_ancestor_below(scopes, scopes[s].parent as int, a);
    }
}

/// A name resolved from scope `s` is found in `s` itself or in an ancestor
/// of `s` along the parent chain, and that scope binds it; it never comes
/// from a scope created after `s` (a descendant or a later sibling).
pub proof fn lemma_scope_containment(scopes: Seq<TemplateScope>, s: int, name: Seq<char>)
    requires
        resolve_scope(scopes, s, name) is Some,
    ensures
        ancestor_or_self(scopes, s, resolve_scope(scopes, s, name)->0),
        scope_vars(scopes, resolve_scope(scopes, s, name)->0).contains(name),
        resolve_scope(scopes, s, name)->0 <= s,
    decreases s,
{
    let a = resolve_scope(scopes, s, name)->0;
    if !scope_vars(scopes, s).contains(name) {
        lemma_scope_containment(scopes, scopes[s].parent as int, name);
    }
    lemma_ancestor_below(scopes, s, a);
}

} // verus!
