//! Request paths under the API base.

use vstd::prelude::*;

use crate::numeral::{decimal_of, u32_to_decimal};

verus! {

/// The URL of one course's modules collection under the API base, asking
/// for item inclusion and one large page.
pub open spec fn modules_url_of(base: Seq<char>, course_id: int) -> Seq<char> {
    base + "/api/v1/courses/"@ + decimal_of(course_id)
        + "/modules?include[]=items&per_page=100"@
}

/// The URL of the authenticated user's own record under the API base.
pub open spec fn user_url_of(base: Seq<char>) -> Seq<char> {
    base + "/api/v1/users/self"@
}

/// Builds the modules-collection request URL for one course.
pub fn modules_url(base: &str, course_id: u32) -> (r: String)
    ensures
        r@ == modules_url_of(base@, course_id as int),
{
    let mut r = base.to_owned();
    r.append("/api/v1/courses/");
    let id_text = u32_to_decimal(course_id);
    r.append(id_text.as_str());
    r.append("/modules?include[]=items&per_page=100");
    proof {
        assert(r@ =~= modules_url_of(base@, course_id as int));
    }
    r
}

/// Builds the authenticated user's record URL.
pub fn user_url(base: &str) -> (r: String)
    ensures
        r@ == user_url_of(base@),
{
    let mut r = base.to_owned();
    r.append("/api/v1/users/self");
    r
}

} // verus!
