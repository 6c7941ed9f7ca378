use spotnowplay::endpoints::{
    access_token_url, dealer_address, dealer_url, gateway_url, to_url, token_availability,
    TokenError, UrlError,
};

#[test]
fn gateway_url_parses() {
    assert_eq!(gateway_url().unwrap().as_str(), "wss://gateway.discord.gg/");
}

#[test]
fn dealer_address_appends_token() {
    assert_eq!(dealer_address("abc"), "wss://dealer.spotify.com/?access_token=abc");
    let u = dealer_url("abc").unwrap();
    assert_eq!(u.host_str(), Some("dealer.spotify.com"));
    assert_eq!(u.query(), Some("access_token=abc"));
}

#[test]
fn invalid_urls_are_rejected() {
    assert_eq!(to_url("not a url").unwrap_err(), UrlError::Invalid);
    assert!(to_url("https://example.com/x").is_ok());
}

#[test]
fn access_token_url_names_connection() {
    assert_eq!(
        access_token_url("sp-1"),
        "https://discord.com/api/v9/users/@me/connections/spotify/sp-1/access-token"
    );
}

#[test]
fn token_availability_follows_status() {
    assert!(token_availability(200).is_ok());
    assert!(token_availability(204).is_ok());
    assert!(token_availability(299).is_ok());
    assert_eq!(token_availability(199), Err(TokenError::MaybeUnauthorized));
    assert_eq!(token_availability(300), Err(TokenError::MaybeUnauthorized));
    assert_eq!(token_availability(401), Err(TokenError::MaybeUnauthorized));
}

#[test]
fn parsed_urls_keep_their_text() {
    let u = to_url("https://example.com/a?b=c").unwrap();
    assert_eq!(u.as_str(), "https://example.com/a?b=c");
    assert_eq!(dealer_url("tok-9").unwrap().as_str(), "wss://dealer.spotify.com/?access_token=tok-9");
}
