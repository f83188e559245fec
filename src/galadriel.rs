use vstd::prelude::*;
use vstd::string::StringExecFns;
use crate::text::{strip_quotes, trim_spec};

verus! {

/// Client settings for the image-generation provider.
pub struct GaladrielClient {
    api_key: String,
}

impl GaladrielClient {
    pub closed spec fn api_key_view(&self) -> Seq<char> {
        self.api_key@
    }

    pub fn new(api_key: String) -> (r: Self)
        ensures
            r.api_key_view() == api_key@,
    {
        Self { api_key }
    }

    /// The value of the `Authorization` header sent with every request.
    pub fn authorization(&self) -> (r: String)
        ensures
            r@ == seq!['B', 'e', 'a', 'r', 'e', 'r', ' '] + self.api_key_view(),
    {
        let r = String::from_str("Bearer ");
        proof {
            reveal_strlit("Bearer ");
        }
        r.concat(self.api_key.as_str())
    }

    /// The image address in the body of a generation response: the body
    /// without the quotes around it.
    pub fn image_url_from_body(body: &str) -> (r: String)
        ensures
            r@ == trim_spec(body@, true),
    {
        strip_quotes(body)
    }
}

} // verus!
