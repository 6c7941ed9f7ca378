use spotnowplay::discordapi::{
    self, find_spotify_credential, get_spotify_credentials_step, CredentialInput, CredentialOutcome,
    SpotifyCredential,
};
use spotnowplay::discordws::{
    find_spotify_token, get_spotify_token_step, identify_request, ConnectedAccount, GatewayInput,
    GatewayOutcome, Ready, Response,
};

fn spotify(token: &str) -> ConnectedAccount {
    ConnectedAccount::Spotify { access_token: token.to_string() }
}

#[test]
fn identify_request_carries_token() {
    let r = identify_request("secret-token");
    assert_eq!(r.op, 2);
    assert_eq!(r.d.token, "secret-token");
    assert!(!r.d.compress);
}

#[test]
fn first_spotify_token_is_found() {
    let accounts = vec![ConnectedAccount::Other, spotify("t1"), spotify("t2")];
    assert_eq!(find_spotify_token(&accounts), Some("t1".to_string()));
    assert_eq!(find_spotify_token(&vec![ConnectedAccount::Other]), None);
    assert_eq!(find_spotify_token(&vec![]), None);
}

#[test]
fn gateway_step_outcomes() {
    let ready = |accs| GatewayInput::Text(Some(Response::Ready(Ready { connected_accounts: accs })));
    assert!(matches!(get_spotify_token_step(ready(vec![spotify("tok")])), GatewayOutcome::Found(t) if t == "tok"));
    assert!(matches!(
        get_spotify_token_step(ready(vec![ConnectedAccount::Other])),
        GatewayOutcome::NoSpotifyAccount
    ));
    assert!(matches!(get_spotify_token_step(GatewayInput::Close), GatewayOutcome::Closed));
    assert!(matches!(get_spotify_token_step(GatewayInput::OtherFrame), GatewayOutcome::Continue));
    assert!(matches!(get_spotify_token_step(GatewayInput::Text(None)), GatewayOutcome::Continue));
}

fn credential(id: &str) -> discordapi::ConnectedAccount {
    discordapi::ConnectedAccount::Spotify(SpotifyCredential {
        id: id.to_string(),
        access_token: format!("token-{id}"),
    })
}

#[test]
fn first_spotify_credential_is_found() {
    let accounts = vec![discordapi::ConnectedAccount::Other, credential("a"), credential("b")];
    let c = find_spotify_credential(&accounts).unwrap();
    assert_eq!(c.id, "a");
    assert_eq!(c.access_token, "token-a");
    assert!(find_spotify_credential(&vec![discordapi::ConnectedAccount::Other]).is_none());
}

#[test]
fn credential_step_outcomes() {
    let ready = |accs| {
        CredentialInput::Text(Some(discordapi::Response::Ready(discordapi::Ready { connected_accounts: accs })))
    };
    assert!(matches!(
        get_spotify_credentials_step(ready(vec![credential("x")])),
        CredentialOutcome::Found(c) if c.id == "x"
    ));
    assert!(matches!(get_spotify_credentials_step(ready(vec![])), CredentialOutcome::NoSpotifyAccount));
    assert!(matches!(get_spotify_credentials_step(CredentialInput::Close), CredentialOutcome::Closed));
    assert!(matches!(get_spotify_credentials_step(CredentialInput::OtherFrame), CredentialOutcome::Continue));
    assert!(matches!(get_spotify_credentials_step(CredentialInput::Text(None)), CredentialOutcome::Continue));
}
