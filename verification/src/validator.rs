use crate::request::Request;
use crate::words::chars_of;
use vstd::prelude::*;

verus! {

/// Whether `route` holds the parent-directory token: two full stops side by side.
pub open spec fn has_traversal(route: Seq<char>) -> bool {
    exists|i: int| 0 <= i && i + 1 < route.len() && #[trigger] route[i] == '.' && route[i + 1] == '.'
}

/// Whether the route of `request` may be looked up under the content root:
/// it may unless it holds the parent-directory token. The check reads the
/// text of the route only; it resolves no path.
pub fn validate_path(request: &Request) -> (valid: bool)
    ensures
        valid == !has_traversal(request@.route),
{
    let route = chars_of(request.route.as_str());
    let n = route.len();
    if n < 2 {
        return true;
    }
    let mut i: usize = 0;
    while i < n - 1
        invariant
            2 <= n == route@.len(),
            i <= n - 1,
            route@ == request@.route,
            forall|k: int| 0 <= k < i ==> !(#[trigger] route@[k] == '.' && route@[k + 1] == '.'),
        decreases n - i,
    {
        if route[i] == '.' && route[i + 1] == '.' {
            return false;
        }
        i = i + 1;
    }
    true
}

} // verus!
