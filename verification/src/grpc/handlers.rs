//! Validation of service requests.

use vstd::prelude::*;
use crate::grpc::proto::{AddPromptRequest, AddResponseRequest, Code, CreateSessionRequest, QueryRequest, Status};

verus! {

/// The largest prompt, in bytes of UTF-8.
pub const MAX_CONTENT_BYTES: usize = 1_000_000;

/// The largest page a query may ask for.
pub const MAX_QUERY_LIMIT: i64 = 10_000;

/// The number of bytes of a text in UTF-8, as `str::len` reports it.
pub open spec fn utf8_len(s: Seq<char>) -> usize {
    vstd::utf8::encode_utf8(s).len() as usize
}

fn invalid(message: &str) -> (s: Status)
    ensures
        s.code == Code::InvalidArgument,
        s.message@ == message@,
{
    Status { code: Code::InvalidArgument, message: String::from_str(message) }
}

/// Validate a request to create a session: every such request is valid.
pub fn validate_create_session_request(_request: &CreateSessionRequest) -> (r: Result<(), Status>)
    ensures
        r is Ok,
{
    Ok(())
}

/// Validate a request to add a prompt: it names a session and carries
/// content of at most a million bytes.
pub fn validate_add_prompt_request(request: &AddPromptRequest) -> (r: Result<(), Status>)
    ensures
        request.session_id@.len() == 0 ==> (r matches Err(s) && s.code == Code::InvalidArgument
            && s.message@ == "session_id cannot be empty"@),
        request.session_id@.len() != 0 && request.content@.len() == 0 ==> (r matches Err(s)
            && s.code == Code::InvalidArgument && s.message@ == "content cannot be empty"@),
        request.session_id@.len() != 0 && request.content@.len() != 0 && utf8_len(request.content@) > MAX_CONTENT_BYTES ==>
            (r matches Err(s) && s.code == Code::InvalidArgument && s.message@ == "content exceeds maximum length of 1MB"@),
        request.session_id@.len() != 0 && request.content@.len() != 0 && utf8_len(request.content@) <= MAX_CONTENT_BYTES ==> r is Ok,
{
    if request.session_id.as_str().unicode_len() == 0 {
        return Err(invalid("session_id cannot be empty"));
    }
    if request.content.as_str().unicode_len() == 0 {
        return Err(invalid("content cannot be empty"));
    }
    if request.content.as_str().len() > MAX_CONTENT_BYTES {
        return Err(invalid("content exceeds maximum length of 1MB"));
    }
    Ok(())
}

/// Validate a request to add a response: it names a prompt, carries
/// content and reports its token usage.
pub fn validate_add_response_request(request: &AddResponseRequest) -> (r: Result<(), Status>)
    ensures
        request.prompt_id@.len() == 0 ==> (r matches Err(s) && s.code == Code::InvalidArgument
            && s.message@ == "prompt_id cannot be empty"@),
        request.prompt_id@.len() != 0 && request.content@.len() == 0 ==> (r matches Err(s)
            && s.code == Code::InvalidArgument && s.message@ == "content cannot be empty"@),
        request.prompt_id@.len() != 0 && request.content@.len() != 0 && request.token_usage is None ==>
            (r matches Err(s) && s.code == Code::InvalidArgument && s.message@ == "token_usage is required"@),
        request.prompt_id@.len() != 0 && request.content@.len() != 0 && request.token_usage is Some ==> r is Ok,
{
    if request.prompt_id.as_str().unicode_len() == 0 {
        return Err(invalid("prompt_id cannot be empty"));
    }
    if request.content.as_str().unicode_len() == 0 {
        return Err(invalid("content cannot be empty"));
    }
    if request.token_usage.is_none() {
        return Err(invalid("token_usage is required"));
    }
    Ok(())
}

/// Validate a query request: its limit is at most ten thousand.
pub fn validate_query_request(request: &QueryRequest) -> (r: Result<(), Status>)
    ensures
        request.limit > MAX_QUERY_LIMIT ==> (r matches Err(s) && s.code == Code::InvalidArgument
            && s.message@ == "limit cannot exceed 10000"@),
        request.limit <= MAX_QUERY_LIMIT ==> r is Ok,
{
    if request.limit > MAX_QUERY_LIMIT {
        return Err(invalid("limit cannot exceed 10000"));
    }
    Ok(())
}

} // verus!
