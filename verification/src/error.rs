//! The failures of a synchronisation run and the JSON fields they name.

use vstd::prelude::*;
use vstd::string::StringExecFns;

verus! {

/// A field that one of the service's JSON documents must hold.
#[derive(Clone, Copy, Debug, PartialEq, Eq, Structural)]
pub enum Field {
    AccessToken,
    TokenType,
    ExpiresIn,
    Items,
    Id,
    Name,
    TotalTracks,
    AvailableMarkets,
}

impl Field {
    /// The key under which the field stands in its JSON object.
    pub open spec fn spec_key(self) -> Seq<char> {
        match self {
            Field::AccessToken => "access_token"@,
            Field::TokenType => "token_type"@,
            Field::ExpiresIn => "expires_in"@,
            Field::Items => "items"@,
            Field::Id => "id"@,
            Field::Name => "name"@,
            Field::TotalTracks => "total_tracks"@,
            Field::AvailableMarkets => "available_markets"@,
        }
    }

    /// The key under which the field stands in its JSON object.
    pub fn key(self) -> (key: &'static str)
        ensures
            key@ == self.spec_key(),
    {
        match self {
            Field::AccessToken => "access_token",
            Field::TokenType => "token_type",
            Field::ExpiresIn => "expires_in",
            Field::Items => "items",
            Field::Id => "id",
            Field::Name => "name",
            Field::TotalTracks => "total_tracks",
            Field::AvailableMarkets => "available_markets",
        }
    }
}

/// Why a synchronisation run, or one decoding step of it, failed.
#[derive(Clone, Copy, Debug, PartialEq, Eq)]
pub enum CatalogError {
    /// No credential was obtained. `Some(field)` names the field that the
    /// identity endpoint's reply lacks or holds with the wrong type; `None`
    /// says that the endpoint gave no reply to decode.
    AuthenticationFailure(Option<Field>),
    /// A catalog or track reply lacks the field or holds it with the wrong type.
    DecodeFailure(Field),
    /// A catalog or track request failed in transport.
    NetworkFailure,
    /// No address could be formed for the track listing of an album.
    InvalidUrl,
}

impl CatalogError {
    /// The text of the failure: `Missing ` and the key of the field it names,
    /// or a fixed sentence where it names none.
    pub open spec fn spec_message(self) -> Seq<char> {
        match self {
            CatalogError::AuthenticationFailure(Some(field)) => "Missing "@ + field.spec_key(),
            CatalogError::AuthenticationFailure(None) => "Authentication failed"@,
            CatalogError::DecodeFailure(field) => "Missing "@ + field.spec_key(),
            CatalogError::NetworkFailure => "Network failure"@,
            CatalogError::InvalidUrl => "Invalid track listing address"@,
        }
    }

    /// The field that the failure names, if it names one.
    pub open spec fn spec_field(self) -> Option<Field> {
        match self {
            CatalogError::AuthenticationFailure(field) => field,
            CatalogError::DecodeFailure(field) => Some(field),
            _ => None,
        }
    }

    /// The field that the failure names, if it names one.
    pub fn field(&self) -> (field: Option<Field>)
        ensures
            field == self.spec_field(),
    {
        match self {
            CatalogError::AuthenticationFailure(field) => *field,
            CatalogError::DecodeFailure(field) => Some(*field),
            _ => None,
        }
    }

    /// The text of the failure, for a caller that prints it.
    pub fn message(&self) -> (text: String)
        ensures
            text@ == self.spec_message(),
    {
        match self {
            CatalogError::AuthenticationFailure(Some(field)) => String::from_str("Missing ").concat(
                field.key(),
            ),
            CatalogError::AuthenticationFailure(None) => String::from_str("Authentication failed"),
            CatalogError::DecodeFailure(field) => String::from_str("Missing ").concat(field.key()),
            CatalogError::NetworkFailure => String::from_str("Network failure"),
            CatalogError::InvalidUrl => String::from_str("Invalid track listing address"),
        }
    }
}

} // verus!
