//! The request-side helpers the converters' callers share: the HTTP
//! method shape handed to the transport collaborator, and the header
//! pairs of an authorized JSON request.

use vstd::prelude::*;
use vstd::string::StringExecFns;

use crate::conv::{chars_to_string, str_to_chars};
use crate::text::v_append;

verus! {

/// The request methods a transport is asked for.
#[derive(Debug, Clone, Copy)]
pub enum Method {
    Get,
    Post,
    Put,
    Delete,
}

/// Owner of the request helpers.
pub struct Component;

impl Component {
    /// The header pairs of an authorized JSON request: a bearer
    /// authorization from `api_key`, and the JSON content type.
    pub fn create_headers(api_key: &str) -> (r: Vec<(String, String)>)
        ensures
            r@.len() == 2,
            r@[0].0@ == "Authorization"@,
            r@[0].1@ == "Bearer "@ + api_key@,
            r@[1].0@ == "Content-Type"@,
            r@[1].1@ == "application/json"@,
    {
        let mut bearer = str_to_chars("Bearer ");
        let key = str_to_chars(api_key);
        v_append(&mut bearer, &key);
        let mut r: Vec<(String, String)> = Vec::new();
        r.push((String::from_str("Authorization"), chars_to_string(&bearer)));
        r.push((String::from_str("Content-Type"), String::from_str("application/json")));
        r
    }
}

} // verus!
