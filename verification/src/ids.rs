use vstd::prelude::*;
use crate::outside::{is_lower_hex, random_simple_uuid};

verus! {

/// A fresh identity: `prefix` followed by the 32 lowercase hexadecimal digits of a new
/// random UUID. Which digits is left open.
pub fn fresh_id(prefix: &str) -> (r: String)
    ensures
        r@.len() == prefix@.len() + 32,
        r@.take(prefix@.len() as int) == prefix@,
        is_lower_hex(r@.skip(prefix@.len() as int)),
{
    let u = random_simple_uuid();
    let mut r = String::from_str(prefix);
    r.append(u.as_str());
    proof {
        assert(r@.take(prefix@.len() as int) =~= prefix@);
        assert(r@.skip(prefix@.len() as int) =~= u@);
    }
    r
}

} // verus!
