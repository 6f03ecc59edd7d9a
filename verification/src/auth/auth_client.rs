//! The client-credentials exchange: the request that asks for a
//! credential, and the decoding of the reply.

use vstd::prelude::*;
use vstd::string::StringExecFns;
use crate::auth::auth_data::{is_success, spec_grant, AuthData};
use crate::error::{CatalogError, Field};
use crate::json::{json_tree, str_from_value, u32_from_value};

verus! {

/// The identity endpoint.
pub const TOKEN_URL: &'static str = "https://accounts.spotify.com/api/token";

/// The content type of the credential exchange.
pub const FORM_CONTENT_TYPE: &'static str = "application/x-www-form-urlencoded";

/// The credential exchange, for the caller to send: a POST to `url` with the
/// content type `content_type` and the pairs of `form`, form-encoded, as
/// its body.
#[derive(Clone, Debug, PartialEq, Eq)]
pub struct TokenRequest {
    pub url: String,
    pub content_type: String,
    pub form: Vec<(String, String)>,
}

/// What a `TokenRequest` holds.
pub struct TokenRequestView {
    pub url: Seq<char>,
    pub content_type: Seq<char>,
    pub form: Seq<(Seq<char>, Seq<char>)>,
}

impl View for TokenRequest {
    type V = TokenRequestView;

    open spec fn view(&self) -> TokenRequestView {
        TokenRequestView {
            url: self.url@,
            content_type: self.content_type@,
            form: self.form@.map_values(|pair: (String, String)| (pair.0@, pair.1@)),
        }
    }
}

/// The exchange that asks for a credential on behalf of a client.
pub open spec fn spec_token_request(
    client_id: Seq<char>,
    client_secret: Seq<char>,
) -> TokenRequestView {
    TokenRequestView {
        url: TOKEN_URL@,
        content_type: FORM_CONTENT_TYPE@,
        form: seq![
            ("grant_type"@, "client_credentials"@),
            ("client_id"@, client_id),
            ("client_secret"@, client_secret),
        ],
    }
}

/// The client's side of the credential exchange: who asks.
pub struct AuthClient {
    client_id: String,
    client_secret: String,
}

impl AuthClient {
    /// The client identifier.
    pub closed spec fn client_id(self) -> Seq<char> {
        self.client_id@
    }

    /// The client secret.
    pub closed spec fn client_secret(self) -> Seq<char> {
        self.client_secret@
    }

    /// Neither the identifier nor the secret is empty.
    #[verifier::type_invariant]
    pub open spec fn wf(self) -> bool {
        self.client_id().len() > 0 && self.client_secret().len() > 0
    }

    /// A client with its identifier and its secret, neither of them empty.
    pub fn new(client_id: String, client_secret: String) -> (client: AuthClient)
        requires
            client_id@.len() > 0,
            client_secret@.len() > 0,
        ensures
            client.client_id() == client_id@,
            client.client_secret() == client_secret@,
    {
        AuthClient { client_id, client_secret }
    }

    /// The exchange to send to the identity endpoint.
    pub fn token_request(&self) -> (request: TokenRequest)
        ensures
            request@ == spec_token_request(self.client_id(), self.client_secret()),
    {
        let mut form: Vec<(String, String)> = Vec::new();
        form.push((String::from_str("grant_type"), String::from_str("client_credentials")));
        form.push((String::from_str("client_id"), self.client_id.clone()));
        form.push((String::from_str("client_secret"), self.client_secret.clone()));
        let request = TokenRequest {
            url: String::from_str(TOKEN_URL),
            content_type: String::from_str(FORM_CONTENT_TYPE),
            form,
        };
        assert(request@.form =~= spec_token_request(self.client_id(), self.client_secret()).form);
        request
    }

    /// Takes the identity endpoint's reply, its status and its body, and
    /// gives the credential it grants. A reply whose status is no success is
    /// an authentication failure that names no field. A body that lacks a
    /// field, or holds it with the wrong type, is one that names the field.
    pub fn authenticate(&self, status: u16, response: &serde_json::Value) -> (credential: Result<
        AuthData,
        CatalogError,
    >)
        ensures
            match spec_grant(status, json_tree(*response)) {
                Ok(granted) => credential is Ok && credential->Ok_0@ == granted,
                Err(failure) => credential == Err::<AuthData, CatalogError>(failure),
            },
    {
        if !is_success(status) {
            return Err(CatalogError::AuthenticationFailure(None));
        }
        let access_token = match str_from_value(response, Field::AccessToken) {
            Ok(access_token) => access_token,
            Err(missing) => return Err(CatalogError::AuthenticationFailure(Some(missing))),
        };
        let token_type = match str_from_value(response, Field::TokenType) {
            Ok(token_type) => token_type,
            Err(missing) => return Err(CatalogError::AuthenticationFailure(Some(missing))),
        };
        let expires_in = match u32_from_value(response, Field::ExpiresIn) {
            Ok(expires_in) => expires_in,
            Err(missing) => return Err(CatalogError::AuthenticationFailure(Some(missing))),
        };
        Ok(AuthData { access_token, token_type, expires_in })
    }
}

} // verus!
