use vstd::prelude::*;

verus! {

/// Coordinator address used when none is configured.
pub fn return_default_server() -> (r: String)
    ensures
        r@ == "47.238.130.86:2333"@,
{
    String::from_str("47.238.130.86:2333")
}

/// Bootstrap token used when none is configured.
pub fn return_default_bootstrap_token() -> (r: String)
    ensures
        r@ == "cfst1234"@,
{
    String::from_str("cfst1234")
}

} // verus!
