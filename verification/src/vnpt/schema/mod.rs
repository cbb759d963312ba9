pub mod client_request;
pub mod json;
pub mod server_response;
