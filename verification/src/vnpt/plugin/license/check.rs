//! The plugin function that checks for a license.

use vstd::prelude::*;
use crate::vnpt::schema::client_request::ClientRequest;
use crate::vnpt::schema::server_response::{ResponseView, ServerJsonResponse};

verus! {

/// The request names a license: it has a first argument, and that argument
/// is not empty.
pub open spec fn license_given(request: &ClientRequest) -> bool {
    request.args@.len() > 0 && request.args@[0]@.len() > 0
}

/// The reply to a license check: code 1 and "Set license successfully" where
/// a license is given, code -1 and "License not found" where none is; no data
/// either way.
pub open spec fn license_reply(given: bool) -> ResponseView {
    if given {
        ResponseView {
            code: 1i32,
            data: Seq::empty(),
            description: "Set license successfully"@,
        }
    } else {
        ResponseView { code: -1i32, data: Seq::empty(), description: "License not found"@ }
    }
}

/// Whether a license is given depends on nothing but whether the request has
/// a non-empty first argument: not on that argument's length or characters,
/// nor on the other arguments, the domain, the callback or the function id.
pub proof fn lemma_license_given_iff_first_argument(request: &ClientRequest)
    ensures
        license_given(request) <==> (request.args@.len() > 0 && request.args@[0]@.len() > 0),
        !license_given(request) <==> (request.args@.len() == 0 || request.args@[0]@.len() == 0),
{
}

/// Every request with a non-empty first argument, whatever it holds, is
/// answered with code 1 and "Set license successfully"; every other with
/// code -1 and "License not found"; neither answer carries data.
pub proof fn lemma_license_reply_of_request(request: &ClientRequest)
    ensures
        request.args@.len() > 0 && request.args@[0]@.len() > 0 ==> {
            &&& license_reply(license_given(request)).code == 1
            &&& license_reply(license_given(request)).description == "Set license successfully"@
            &&& license_reply(license_given(request)).data.len() == 0
        },
        request.args@.len() == 0 || request.args@[0]@.len() == 0 ==> {
            &&& license_reply(license_given(request)).code == -1
            &&& license_reply(license_given(request)).description == "License not found"@
            &&& license_reply(license_given(request)).data.len() == 0
        },
{
}

/// Answers a license check: code 1 and "Set license successfully" where the
/// request's first argument is there and not empty, whatever it holds; code
/// -1 and "License not found" otherwise; no data either way.
pub fn invoke(request: &ClientRequest) -> (res: ServerJsonResponse)
    ensures
        res@ == license_reply(license_given(request)),
        request.args@.len() > 0 && request.args@[0]@.len() > 0 ==> {
            &&& res@.code == 1
            &&& res@.description == "Set license successfully"@
        },
        request.args@.len() == 0 || request.args@[0]@.len() == 0 ==> {
            &&& res@.code == -1
            &&& res@.description == "License not found"@
        },
        res@.data.len() == 0,
{
    let empty: [u8; 0] = [];
    if request.args.len() == 0 || request.args[0].as_str().is_empty() {
        let res = ServerJsonResponse::new(-1, &empty, String::from_str("License not found"));
        assert(res@.data =~= Seq::<char>::empty());
        return res;
    }
    let res = ServerJsonResponse::new(1, &empty, String::from_str("Set license successfully"));
    assert(res@.data =~= Seq::<char>::empty());
    res
}

} // verus!
