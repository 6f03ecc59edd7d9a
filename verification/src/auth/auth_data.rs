//! The credential of the service, and what a reply of the identity
//! endpoint must hold to grant one.

use vstd::prelude::*;
use vstd::string::StringExecFns;
use crate::error::{CatalogError, Field};
use crate::json::JsonTree;

verus! {

/// The credential that the identity endpoint grants.
#[derive(Clone, Debug, PartialEq, Eq)]
pub struct AuthData {
    pub access_token: String,
    pub token_type: String,
    pub expires_in: u32,
}

/// What an `AuthData` holds.
pub struct AuthDataView {
    pub access_token: Seq<char>,
    pub token_type: Seq<char>,
    pub expires_in: u32,
}

impl View for AuthData {
    type V = AuthDataView;

    open spec fn view(&self) -> AuthDataView {
        AuthDataView {
            access_token: self.access_token@,
            token_type: self.token_type@,
            expires_in: self.expires_in,
        }
    }
}

impl AuthDataView {
    /// The value of the `Authorization` header: the token's type, a space,
    /// the token.
    pub open spec fn authorization(self) -> Seq<char> {
        self.token_type + " "@ + self.access_token
    }
}

impl AuthData {
    /// The value of the `Authorization` header that carries the credential.
    pub fn authorization(&self) -> (header: String)
        ensures
            header@ == self@.authorization(),
    {
        self.token_type.clone().concat(" ").concat(self.access_token.as_str())
    }
}

/// The credential that a reply of the identity endpoint stands for:
/// `access_token` and `token_type`, both strings, and `expires_in`, an
/// unsigned 32-bit integer. Where one is missing, the first that is.
pub open spec fn spec_credential(tree: JsonTree) -> Result<AuthDataView, Field> {
    match tree.text_field(Field::AccessToken) {
        Err(missing) => Err(missing),
        Ok(access_token) => match tree.text_field(Field::TokenType) {
            Err(missing) => Err(missing),
            Ok(token_type) => match tree.u32_field(Field::ExpiresIn) {
                Err(missing) => Err(missing),
                Ok(expires_in) => Ok(AuthDataView { access_token, token_type, expires_in }),
            },
        },
    }
}

/// Whether an HTTP status says that the request succeeded: 200 to 299.
pub open spec fn spec_is_success(status: u16) -> bool {
    200 <= status <= 299
}

/// Whether an HTTP status says that the request succeeded: 200 to 299.
pub fn is_success(status: u16) -> (success: bool)
    ensures
        success == spec_is_success(status),
{
    200 <= status && status <= 299
}

/// What a reply of the identity endpoint grants. A reply whose status is
/// no success grants nothing, whatever its body holds: the failure names
/// no field. A reply that succeeded grants the credential of its body, or
/// fails with the field that the body lacks.
pub open spec fn spec_grant(status: u16, tree: JsonTree) -> Result<AuthDataView, CatalogError> {
    if !spec_is_success(status) {
        Err(CatalogError::AuthenticationFailure(None))
    } else {
        match spec_credential(tree) {
            Ok(credential) => Ok(credential),
            Err(missing) => Err(CatalogError::AuthenticationFailure(Some(missing))),
        }
    }
}

/// A credential is granted only by a reply that succeeded and holds the
/// three fields, and every such reply grants one. Every other reply is an
/// authentication failure.
pub proof fn lemma_grant_needs_success(status: u16, tree: JsonTree)
    ensures
        spec_grant(status, tree) is Ok <==> spec_is_success(status) && spec_credential(tree) is Ok,
        spec_grant(status, tree) matches Ok(credential) ==> spec_credential(tree) == Ok::<
            AuthDataView,
            Field,
        >(credential),
        spec_grant(status, tree) matches Err(failure) ==> failure is AuthenticationFailure,
        spec_is_success(status) && spec_credential(tree) is Err ==> spec_grant(status, tree)
            == Err::<AuthDataView, CatalogError>(
            CatalogError::AuthenticationFailure(Some(spec_credential(tree)->Err_0)),
        ),
{
}

/// Whether a reply holds `field` of the credential with its type.
pub open spec fn credential_field_held(tree: JsonTree, field: Field) -> bool {
    match field {
        Field::AccessToken => tree.text_field(Field::AccessToken) is Ok,
        Field::TokenType => tree.text_field(Field::TokenType) is Ok,
        Field::ExpiresIn => tree.u32_field(Field::ExpiresIn) is Ok,
        _ => true,
    }
}

/// A reply that holds the three fields gives the credential that holds them
/// as they stand. A reply that gives a credential holds them. Any other
/// reply gives a failure that names one of the three fields, which the reply
/// does not hold; a reply that lacks just one field names that one.
pub proof fn lemma_credential_verbatim(tree: JsonTree)
    ensures
        spec_credential(tree) matches Ok(credential) ==> {
            &&& tree.member("access_token"@) == JsonTree::Text(credential.access_token)
            &&& tree.member("token_type"@) == JsonTree::Text(credential.token_type)
            &&& tree.member("expires_in"@) == JsonTree::Integer(credential.expires_in as int)
        },
        spec_credential(tree) is Ok <==> credential_field_held(tree, Field::AccessToken)
            && credential_field_held(tree, Field::TokenType) && credential_field_held(
            tree,
            Field::ExpiresIn,
        ),
        spec_credential(tree) matches Err(missing) ==> !credential_field_held(tree, missing) && (
        missing == Field::AccessToken || missing == Field::TokenType || missing
            == Field::ExpiresIn),
        forall|field: Field|
            !credential_field_held(tree, field) && (forall|other: Field|
                other != field ==> credential_field_held(tree, other)) ==> spec_credential(tree)
                == Err::<AuthDataView, Field>(field),
{
    assert forall|field: Field|
        !credential_field_held(tree, field) && (forall|other: Field|
            other != field ==> credential_field_held(tree, other)) implies spec_credential(tree)
        == Err::<AuthDataView, Field>(field) by {
        if field != Field::AccessToken {
            assert(credential_field_held(tree, Field::AccessToken));
        }
        if field != Field::TokenType {
            assert(credential_field_held(tree, Field::TokenType));
        }
        if field != Field::ExpiresIn {
            assert(credential_field_held(tree, Field::ExpiresIn));
        }
    }
}

} // verus!
