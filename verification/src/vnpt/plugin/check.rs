//! The plugin function that checks that the plugin is there.

use vstd::prelude::*;
use crate::vnpt::schema::server_response::{ResponseView, ServerJsonResponse};

verus! {

/// The answer to the plugin check: code 1, no data, no description. It only
/// says that the plugin runs; this library chose that answer.
pub open spec fn plugin_check_reply() -> ResponseView {
    ResponseView { code: 1i32, data: Seq::empty(), description: Seq::empty() }
}

/// Answers the plugin check.
pub fn invoke() -> (res: ServerJsonResponse)
    ensures
        res@ == plugin_check_reply(),
{
    let empty: [u8; 0] = [];
    let res = ServerJsonResponse::new(1, &empty, String::new());
    assert(res@.data =~= Seq::<char>::empty());
    res
}

} // verus!
