//! The addresses the bridge connects to, and what an answer's status means.

use vstd::prelude::*;

verus! {

#[verifier::external_type_specification]
#[verifier::external_body]
pub struct ExUrl(url::Url);

#[verifier::external_type_specification]
#[verifier::external_body]
pub struct ExUrlParseError(url::ParseError);

/// Whether `url::Url::parse` accepts the text `s` as an absolute URL.
pub uninterp spec fn url_parses(s: Seq<char>) -> bool;

/// The URL that `url::Url::parse` makes of the text `s`, where it accepts it.
pub uninterp spec fn parsed_url(s: Seq<char>) -> url::Url;

/// Calls `url::Url::parse`. Trusted to succeed exactly when the named
/// predicate [`url_parses`] holds of the text, and then to give the URL named
/// [`parsed_url`] of the text (the parse depends on the text alone); which
/// error comes back otherwise is left unsaid.
#[verifier::external_body]
fn parse_url(s: &str) -> (res: Result<url::Url, url::ParseError>)
    ensures
        res is Ok <==> url_parses(s@),
        res matches Ok(u) ==> u == parsed_url(s@),
{
    url::Url::parse(s)
}

/// A text that is not an absolute URL.
#[derive(Debug, Clone, Copy, PartialEq, Eq)]
pub enum UrlError {
    Invalid,
}

/// The parsed form of `s`, or [`UrlError::Invalid`] when it is not an absolute URL.
pub fn to_url(s: &str) -> (res: Result<url::Url, UrlError>)
    ensures
        res is Ok <==> url_parses(s@),
        res matches Ok(u) ==> u == parsed_url(s@),
{
    match parse_url(s) {
        Ok(u) => Ok(u),
        Err(_) => Err(UrlError::Invalid),
    }
}

/// The address of the Discord gateway.
pub open spec fn gateway_address() -> Seq<char> {
    "wss://gateway.discord.gg/"@
}

/// The Discord gateway, parsed.
pub fn gateway_url() -> (res: Result<url::Url, UrlError>)
    ensures
        res is Ok <==> url_parses(gateway_address()),
        res matches Ok(u) ==> u == parsed_url(gateway_address()),
{
    to_url("wss://gateway.discord.gg/")
}

/// The address of the Spotify dealer for an access token.
pub open spec fn dealer_address_for(token: Seq<char>) -> Seq<char> {
    "wss://dealer.spotify.com/?access_token="@ + token
}

/// The address of the Spotify dealer for `token`.
pub fn dealer_address(token: &str) -> (res: String)
    ensures
        res@ == dealer_address_for(token@),
{
    let mut s = String::from_str("wss://dealer.spotify.com/?access_token=");
    s.append(token);
    s
}

/// The Spotify dealer for `token`, parsed.
pub fn dealer_url(token: &str) -> (res: Result<url::Url, UrlError>)
    ensures
        res is Ok <==> url_parses(dealer_address_for(token@)),
        res matches Ok(u) ==> u == parsed_url(dealer_address_for(token@)),
{
    let address = dealer_address(token);
    to_url(address.as_str())
}

/// The Discord endpoint that renews the access token of a Spotify connection.
pub open spec fn access_token_address_for(spotify_id: Seq<char>) -> Seq<char> {
    "https://discord.com/api/v9/users/@me/connections/spotify/"@ + spotify_id + "/access-token"@
}

/// The Discord endpoint that renews the access token of the Spotify connection `spotify_id`.
pub fn access_token_url(spotify_id: &str) -> (res: String)
    ensures
        res@ == access_token_address_for(spotify_id@),
{
    let mut s = String::from_str("https://discord.com/api/v9/users/@me/connections/spotify/");
    s.append(spotify_id);
    s.append("/access-token");
    s
}

/// An access token that Spotify did not accept.
#[derive(Debug, Clone, Copy, PartialEq, Eq)]
pub enum TokenError {
    /// The answer's status was not a success (2xx); the token is probably unauthorized.
    MaybeUnauthorized,
}

/// Whether an answer's status is a success: from 200 up to 299.
pub open spec fn is_success(status: u16) -> bool {
    200 <= status < 300
}

/// Whether a token is available, from the status of Spotify's answer to a
/// request made with it: available exactly when the status is a success.
pub fn token_availability(status: u16) -> (res: Result<(), TokenError>)
    ensures
        res is Ok <==> is_success(status),
        res is Err ==> res == Err::<(), TokenError>(TokenError::MaybeUnauthorized),
{
    if 200 <= status && status < 300 {
        Ok(())
    } else {
        Err(TokenError::MaybeUnauthorized)
    }
}

} // verus!
