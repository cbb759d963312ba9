//! A request of the plugin's web page.

use vstd::prelude::*;

verus! {

/// One call of the plugin: which function (`function_id`), its arguments, the
/// page's domain, and the name of the page's callback that the reply is
/// addressed to.
pub struct ClientRequest {
    pub args: Vec<String>,
    pub domain: String,
    pub function_callback: String,
    pub function_id: i32,
}

} // verus!
