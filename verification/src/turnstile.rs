//! Finding the Cloudflare Turnstile widget in a page's DOM tree, shadow
//! roots and frame documents included.

use vstd::prelude::*;
use vstd::string::*;
use crate::text::{contains_spec, contains_str, lowercase_of, str_eq, to_lowercase};

verus! {

/// A node of a page's DOM tree as the browser reports it.
#[derive(Debug)]
pub struct DomNode {
    /// The browser's id of the node.
    pub node_id: u32,
    /// The tag name, in whatever case the browser reports it.
    pub node_name: String,
    /// The attributes as a flat list: name, value, name, value, ...
    pub attributes: Option<Vec<String>>,
    /// The child nodes.
    pub children: Option<Vec<DomNode>>,
    /// The shadow roots attached to the node.
    pub shadow_roots: Option<Vec<DomNode>>,
    /// The document of a frame.
    pub content_document: Option<Box<DomNode>>,
}

/// An attribute that marks the Turnstile frame: a `src` on Cloudflare's
/// challenge host, or an `id` of the challenge widget.
pub open spec fn pair_marks_turnstile(name: Seq<char>, value: Seq<char>) -> bool {
    ||| name == "src"@ && contains_spec(value, "challenges.cloudflare.com"@)
    ||| name == "id"@ && contains_spec(value, "cf-chl-widget"@)
}

/// Whether the `k`-th whole (name, value) pair of a flat attribute list
/// marks the Turnstile frame.
pub open spec fn pair_at_marks(attrs: Seq<String>, k: int) -> bool {
    0 <= k && 2 * k + 1 < attrs.len() && pair_marks_turnstile(attrs[2 * k]@, attrs[2 * k + 1]@)
}

/// Whether some whole pair of a flat attribute list marks the Turnstile
/// frame (a trailing name without a value counts for nothing).
pub open spec fn attrs_mark_turnstile(attrs: Seq<String>) -> bool {
    exists|k: int| #[trigger] pair_at_marks(attrs, k)
}

/// A node is the Turnstile frame: an `iframe` (in any case) with a marking
/// attribute.
pub open spec fn is_turnstile_frame(n: DomNode) -> bool {
    &&& lowercase_of(n.node_name@) == "iframe"@
    &&& match n.attributes {
        Some(a) => attrs_mark_turnstile(a@),
        None => false,
    }
}

/// The id of the first Turnstile frame in the tree under `n`, searching the
/// node itself, then its children in order, then the children of its shadow
/// roots, then its frame document.
pub open spec fn find_frame(n: DomNode) -> Option<u32>
    decreases n,
{
    if is_turnstile_frame(n) {
        Some(n.node_id)
    } else {
        let in_children = match n.children {
            Some(v) => find_first(v@),
            None => None,
        };
        if in_children is Some {
            in_children
        } else {
            let in_shadows = match n.shadow_roots {
                Some(v) => find_in_shadows(v@),
                None => None,
            };
            if in_shadows is Some {
                in_shadows
            } else {
                match n.content_document {
                    Some(d) => find_frame(*d),
                    None => None,
                }
            }
        }
    }
}

/// The first Turnstile frame found under the nodes of `s`, in order.
pub open spec fn find_first(s: Seq<DomNode>) -> Option<u32>
    decreases s,
{
    if s.len() == 0 {
        None
    } else {
        let here = find_frame(s[0]);
        if here is Some {
            here
        } else {
            find_first(s.subrange(1, s.len() as int))
        }
    }
}

/// The first Turnstile frame found under the children of the shadow roots
/// of `s`, in order.
pub open spec fn find_in_shadows(s: Seq<DomNode>) -> Option<u32>
    decreases s,
{
    if s.len() == 0 {
        None
    } else {
        let here = match s[0].children {
            Some(v) => find_first(v@),
            None => None,
        };
        if here is Some {
            here
        } else {
            find_in_shadows(s.subrange(1, s.len() as int))
        }
    }
}

fn pair_marks(name: &String, value: &String) -> (r: bool)
    ensures
        r == pair_marks_turnstile(name@, value@),
{
    (str_eq(name.as_str(), "src") && contains_str(value.as_str(), "challenges.cloudflare.com"))
        || (str_eq(name.as_str(), "id") && contains_str(value.as_str(), "cf-chl-widget"))
}

fn attrs_mark(attrs: &Vec<String>) -> (r: bool)
    ensures
        r == attrs_mark_turnstile(attrs@),
{
    let mut k: usize = 0;
    while k < attrs.len() / 2
        invariant
            k <= attrs.len() / 2,
            forall|j: int| 0 <= j < k ==> !#[trigger] pair_at_marks(attrs@, j),
        decreases attrs.len() / 2 - k,
    {
        if pair_marks(&attrs[2 * k], &attrs[2 * k + 1]) {
            assert(pair_at_marks(attrs@, k as int));
            return true;
        }
        assert(!pair_at_marks(attrs@, k as int));
        k = k + 1;
    }
    assert forall|j: int| !#[trigger] pair_at_marks(attrs@, j) by {
        if 0 <= j && 2 * j + 1 < attrs@.len() {
            assert(j < k);
        }
    }
    false
}

fn is_frame(n: &DomNode) -> (r: bool)
    ensures
        r == is_turnstile_frame(*n),
{
    let lower = to_lowercase(n.node_name.as_str());
    if !str_eq(lower.as_str(), "iframe") {
        return false;
    }
    match &n.attributes {
        Some(a) => attrs_mark(a),
        None => false,
    }
}

/// The id of the first Turnstile frame under `node` (see `find_frame`).
pub fn find_turnstile_iframe(node: &DomNode) -> (res: Option<u32>)
    ensures
        res == find_frame(*node),
    decreases *node,
{
    if is_frame(node) {
        return Some(node.node_id);
    }
    if let Some(children) = &node.children {
        let r = first_in_nodes(children);
        if r.is_some() {
            return r;
        }
    }
    if let Some(roots) = &node.shadow_roots {
        let r = first_in_shadows(roots);
        if r.is_some() {
            return r;
        }
    }
    match &node.content_document {
        Some(d) => find_turnstile_iframe(d),
        None => None,
    }
}

fn first_in_nodes(v: &Vec<DomNode>) -> (res: Option<u32>)
    ensures
        res == find_first(v@),
    decreases v@,
{
    let mut i: usize = 0;
    assert(v@.subrange(0, v@.len() as int) =~= v@);
    while i < v.len()
        invariant
            i <= v.len(),
            find_first(v@) == find_first(v@.subrange(i as int, v@.len() as int)),
        decreases v.len() - i,
    {
        let ghost rest = v@.subrange(i as int, v@.len() as int);
        assert(rest[0] == v@[i as int]);
        assert(rest.subrange(1, rest.len() as int) =~= v@.subrange(i + 1, v@.len() as int));
        let r = find_turnstile_iframe(&v[i]);
        if r.is_some() {
            return r;
        }
        i = i + 1;
    }
    None
}

fn first_in_shadows(v: &Vec<DomNode>) -> (res: Option<u32>)
    ensures
        res == find_in_shadows(v@),
    decreases v@,
{
    let mut i: usize = 0;
    assert(v@.subrange(0, v@.len() as int) =~= v@);
    while i < v.len()
        invariant
            i <= v.len(),
            find_in_shadows(v@) == find_in_shadows(v@.subrange(i as int, v@.len() as int)),
        decreases v.len() - i,
    {
        let ghost rest = v@.subrange(i as int, v@.len() as int);
        assert(rest[0] == v@[i as int]);
        assert(rest.subrange(1, rest.len() as int) =~= v@.subrange(i + 1, v@.len() as int));
        if let Some(children) = &v[i].children {
            let r = first_in_nodes(children);
            if r.is_some() {
                return r;
            }
        }
        i = i + 1;
    }
    None
}

} // verus!
