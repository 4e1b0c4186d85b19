//! One instance of the fleet: its address, its credential and the HTTP client
//! that talks to it.

use crate::encrypted_cred::EncryptedCredential;
use crate::error::GSError;
use vstd::prelude::*;
use vstd::string::*;
use vstd::utf8::{encode_utf8, is_ascii_chars, is_ascii_chars_encode_utf8};

verus! {

/// `reqwest::Client`, the HTTP client. It is carried, never looked into.
#[verifier::external_type_specification]
#[verifier::external_body]
pub struct ExClient(reqwest::Client);

/// `reqwest::header::HeaderValue`, a text that was accepted as the value of a
/// header. It is carried, never looked into.
#[verifier::external_type_specification]
#[verifier::external_body]
pub struct ExHeaderValue(reqwest::header::HeaderValue);

/// What every request asks to be answered with.
pub const ACCEPTED_CONTENT: &'static str = "application/json";

/// What every request says of the program that sends it.
pub const USER_AGENT: &'static str = "grafana_sync/0.1.0";

/// A byte that a header value may hold: a tab, or anything from the space
/// upwards but the delete character.
pub open spec fn header_byte_valid(b: u8) -> bool {
    (b >= 32 && b != 127) || b == 9
}

/// Whether `text` can be the value of a header: every byte of its UTF-8
/// encoding is one that a header value may hold.
pub open spec fn header_text_valid(text: Seq<char>) -> bool {
    forall|i: int|
        0 <= i < encode_utf8(text).len() ==> header_byte_valid(#[trigger] encode_utf8(text)[i])
}

/// The value of the `Authorization` header for the API token `token`.
pub open spec fn bearer(token: Seq<char>) -> Seq<char> {
    "Bearer "@ + token
}

/// An instance of the fleet.
pub struct GrafanaInstance {
    url: String,
    api_token: EncryptedCredential,
    http_client: reqwest::Client,
}

impl GrafanaInstance {
    /// The address of the instance.
    pub closed spec fn spec_base_url(&self) -> Seq<char> {
        self.url@
    }

    /// The API token of the instance, in the clear.
    pub closed spec fn spec_api_token(&self) -> Seq<char> {
        self.api_token@
    }

    /// The HTTP client that the instance holds.
    pub closed spec fn spec_client(&self) -> reqwest::Client {
        self.http_client
    }

    /// The value of the `Authorization` header for the API token.
    pub fn authorization(api_token: &EncryptedCredential) -> (r: String)
        ensures
            r@ == bearer(api_token@),
    {
        let token = api_token.value();
        String::from_str("Bearer ").concat(token.as_str())
    }

    /// The default headers of the HTTP client for an instance with the API
    /// token `api_token`: the token as authorization, and JSON as the content
    /// that is accepted. A token that cannot stand in a header is refused.
    fn default_headers(api_token: &EncryptedCredential) -> (r: Result<
        (reqwest::header::HeaderValue, reqwest::header::HeaderValue),
        GSError,
    >)
        ensures
            r is Ok <==> header_text_valid(bearer(api_token@)),
            r matches Err(e) ==> e is InvalidHeader,
    {
        let authorization = match header_value(Self::authorization(api_token)) {
            Ok(value) => value,
            Err(e) => {
                return Err(GSError::InvalidHeader(e));
            },
        };
        proof {
            lemma_accepted_content_is_valid();
        }
        match header_value(String::from_str(ACCEPTED_CONTENT)) {
            Ok(accept) => Ok((authorization, accept)),
            Err(e) => Err(GSError::InvalidHeader(e)),
        }
    }

    /// The HTTP client for an instance with the API token `api_token`: every
    /// request carries the token, asks for JSON and names this program.
    fn _make_new_client(api_token: &EncryptedCredential) -> (r: Result<reqwest::Client, GSError>)
        ensures
            !header_text_valid(bearer(api_token@)) ==> r matches Err(GSError::InvalidHeader(_)),
            header_text_valid(bearer(api_token@)) ==> (r matches Err(e) ==> e is RequestError),
    {
        let (authorization, accept) = match Self::default_headers(api_token) {
            Ok(headers) => headers,
            Err(e) => {
                return Err(e);
            },
        };
        match client_with(authorization, accept, USER_AGENT) {
            Ok(client) => Ok(client),
            Err(e) => Err(GSError::RequestError(e)),
        }
    }

    /// The instance at `url` with the API token `api_token`, given what came
    /// of building its HTTP client: the instance where there is a client, the
    /// error of the attempt where there is none.
    pub fn with_client(
        url: String,
        api_token: EncryptedCredential,
        built: Result<reqwest::Client, GSError>,
    ) -> (r: Result<Self, GSError>)
        ensures
            match built {
                Ok(client) => r matches Ok(instance) && instance.spec_base_url() == url@
                    && instance.spec_api_token() == api_token@ && instance.spec_client()
                    == client,
                Err(e) => r matches Err(got) && got@ == e@,
            },
    {
        match built {
            Ok(http_client) => Ok(GrafanaInstance { url, api_token, http_client }),
            Err(e) => Err(e),
        }
    }

    /// The instance at `url` with the API token `api_token`. A token that
    /// cannot stand in a header is refused. Whether an HTTP client can be
    /// built for any other token depends on the machine.
    pub fn new(url: String, api_token: EncryptedCredential) -> (r: Result<Self, GSError>)
        ensures
            !header_text_valid(bearer(api_token@)) ==> r matches Err(GSError::InvalidHeader(_)),
            header_text_valid(bearer(api_token@)) ==> match r {
                Ok(instance) => instance.spec_base_url() == url@ && instance.spec_api_token()
                    == api_token@,
                Err(e) => e is RequestError,
            },
    {
        let built = Self::_make_new_client(&api_token);
        Self::with_client(url, api_token, built)
    }

    /// The address of the instance.
    pub fn base_url(&self) -> (r: &str)
        ensures
            r@ == self.spec_base_url(),
    {
        self.url.as_str()
    }

    /// The API token of the instance.
    pub fn api_token(&self) -> (r: &EncryptedCredential)
        ensures
            r@ == self.spec_api_token(),
    {
        &self.api_token
    }

    /// The HTTP client of the instance: the one it was made with.
    pub fn client(&self) -> (r: &reqwest::Client)
        ensures
            *r == self.spec_client(),
    {
        &self.http_client
    }
}

/// The content type that is asked for can stand in a header.
proof fn lemma_accepted_content_is_valid()
    ensures
        header_text_valid("application/json"@),
{
    reveal_strlit("application/json");
    let text = "application/json"@;
    assert(is_ascii_chars(text));
    is_ascii_chars_encode_utf8(text);
    assert forall|i: int| 0 <= i < encode_utf8(text).len() implies header_byte_valid(
        #[trigger] encode_utf8(text)[i],
    ) by {
        assert(encode_utf8(text)[i] == text[i] as u8);
    }
}

impl Clone for GrafanaInstance {
    fn clone(&self) -> (r: Self)
        ensures
            r.spec_base_url() == self.spec_base_url(),
            r.spec_api_token() == self.spec_api_token(),
    {
        GrafanaInstance {
            url: self.url.clone(),
            api_token: self.api_token.clone(),
            http_client: self.http_client.clone(),
        }
    }
}

/// `Clone` of `reqwest::Client`: another handle to the same client. Nothing is
/// claimed of it.
pub assume_specification[ <reqwest::Client as Clone>::clone ](
    client: &reqwest::Client,
) -> reqwest::Client
;

/// `reqwest::header::HeaderValue::try_from` on a string. Claimed: the string is
/// accepted exactly if each of its bytes is a tab or at least 32 and not 127.
#[verifier::external_body]
fn header_value(text: String) -> (r: Result<
    reqwest::header::HeaderValue,
    reqwest::header::InvalidHeaderValue,
>)
    ensures
        r is Ok <==> header_text_valid(text@),
{
    reqwest::header::HeaderValue::try_from(text)
}

/// Builds an HTTP client with `reqwest::Client::builder`: `authorization` and
/// `accept` become the default headers of these names, `user_agent` the user
/// agent. Nothing is claimed of the outcome: whether a client can be built
/// depends on the machine.
#[verifier::external_body]
fn client_with(
    authorization: reqwest::header::HeaderValue,
    accept: reqwest::header::HeaderValue,
    user_agent: &str,
) -> Result<reqwest::Client, reqwest::Error> {
    let mut header_map = reqwest::header::HeaderMap::new();
    header_map.insert(reqwest::header::AUTHORIZATION, authorization);
    header_map.insert(reqwest::header::ACCEPT, accept);
    reqwest::Client::builder().default_headers(header_map).user_agent(user_agent).build()
}

} // verus!
