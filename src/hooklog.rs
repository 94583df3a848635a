use vstd::prelude::*;
use vstd::string::*;
use crate::text::concat3;

verus! {

/// The line that a hook writes when it starts.
pub fn log_start(hook_name: &str) -> (r: String)
    ensures
        r@ == "["@ + hook_name@ + "] Started"@,
{
    concat3("[", hook_name, "] Started")
}

/// The line that a hook writes when it completes.
pub fn log_end(hook_name: &str) -> (r: String)
    ensures
        r@ == "["@ + hook_name@ + "] Completed"@,
{
    concat3("[", hook_name, "] Completed")
}

/// The line that a hook writes when it fails.
pub fn log_error(hook_name: &str, error: &str) -> (r: String)
    ensures
        r@ == "["@ + hook_name@ + "] ERROR: "@ + error@,
{
    let head = concat3("[", hook_name, "] ERROR: ");
    crate::text::concat2(head.as_str(), error)
}

} // verus!
