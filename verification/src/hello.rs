//! The `hello` scaffold tool.

use vstd::prelude::*;
use vstd::string::*;

verus! {

/// `Hello, {name}!`.
pub fn greeting(name: &str) -> (r: String)
    ensures
        r@ == "Hello, "@ + name@ + "!"@,
{
    let mut r = String::from_str("Hello, ");
    r.append(name);
    r.append("!");
    r
}

} // verus!
