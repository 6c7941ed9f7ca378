//! The Discord side of the token exchange: the Spotify connection found in the
//! gateway's ready message, whose access token Discord can renew.

use vstd::prelude::*;

verus! {

/// The Spotify connection of the Discord user.
#[derive(Debug)]
pub struct SpotifyCredential {
    pub id: String,
    pub access_token: String,
}

impl Clone for SpotifyCredential {
    fn clone(&self) -> (res: Self)
        ensures
            res == *self,
    {
        SpotifyCredential { id: self.id.clone(), access_token: self.access_token.clone() }
    }
}

/// An account connected to the Discord user.
#[derive(Debug)]
pub enum ConnectedAccount {
    Spotify(SpotifyCredential),
    Other,
}

/// The ready message: the user's connected accounts.
#[derive(Debug)]
pub struct Ready {
    pub connected_accounts: Vec<ConnectedAccount>,
}

/// A gateway message that the bridge reads.
#[derive(Debug)]
pub enum Response {
    Ready(Ready),
}

/// Discord's answer to a renewal: the new access token.
#[derive(Debug)]
pub struct SpotifyAccessTokenApiResponse {
    pub access_token: String,
}

/// Account `i` is the first Spotify account.
pub open spec fn is_first_spotify(accounts: Seq<ConnectedAccount>, i: int) -> bool {
    &&& 0 <= i < accounts.len()
    &&& accounts[i] is Spotify
    &&& forall|j: int| 0 <= j < i ==> (#[trigger] accounts[j]) is Other
}

/// The first Spotify account, if there is one.
pub fn find_spotify_credential(accounts: &Vec<ConnectedAccount>) -> (res: Option<SpotifyCredential>)
    ensures
        res is None <==> forall|j: int| 0 <= j < accounts@.len() ==> (#[trigger] accounts@[j]) is Other,
        res matches Some(c) ==> exists|i: int|
            is_first_spotify(accounts@, i) && (#[trigger] accounts@[i]) == ConnectedAccount::Spotify(c),
{
    let mut k: usize = 0;
    while k < accounts.len()
        invariant
            k <= accounts.len(),
            forall|j: int| 0 <= j < k ==> (#[trigger] accounts@[j]) is Other,
        decreases accounts.len() - k,
    {
        match &accounts[k] {
            ConnectedAccount::Spotify(c) => {
                assert(is_first_spotify(accounts@, k as int));
                return Some(c.clone());
            },
            ConnectedAccount::Other => {},
        }
        k = k + 1;
    }
    None
}

/// What the gateway connection is handed on each turn of its loop.
pub enum CredentialInput {
    /// A text frame, read as a message (`None` when it is not one).
    Text(Option<Response>),
    /// The server closed the connection.
    Close,
    /// A frame of another kind.
    OtherFrame,
}

/// How a turn of the gateway connection ends.
#[derive(Debug)]
pub enum CredentialOutcome {
    /// Wait for the next frame.
    Continue,
    /// The Spotify connection was found.
    Found(SpotifyCredential),
    /// The ready message listed no Spotify account.
    NoSpotifyAccount,
    /// The server closed the connection before the ready message.
    Closed,
}

/// One turn of waiting for the Spotify connection: a ready message gives its
/// first Spotify account (or the lack of one); a close ends the wait; anything
/// else is passed over.
pub fn get_spotify_credentials_step(input: CredentialInput) -> (res: CredentialOutcome)
    ensures
        input is Close ==> res is Closed,
        input is OtherFrame ==> res is Continue,
        input matches CredentialInput::Text(None) ==> res is Continue,
        input matches CredentialInput::Text(Some(Response::Ready(r))) ==> {
            let accs = r.connected_accounts@;
            &&& res is NoSpotifyAccount <==> forall|j: int| 0 <= j < accs.len() ==> (#[trigger] accs[j]) is Other
            &&& res is Found || res is NoSpotifyAccount
            &&& res matches CredentialOutcome::Found(c) ==> exists|i: int|
                is_first_spotify(accs, i) && (#[trigger] accs[i]) == ConnectedAccount::Spotify(c)
        },
{
    match input {
        CredentialInput::Text(Some(Response::Ready(r))) => match find_spotify_credential(&r.connected_accounts) {
            Some(c) => CredentialOutcome::Found(c),
            None => CredentialOutcome::NoSpotifyAccount,
        },
        CredentialInput::Text(None) => CredentialOutcome::Continue,
        CredentialInput::Close => CredentialOutcome::Closed,
        CredentialInput::OtherFrame => CredentialOutcome::Continue,
    }
}

} // verus!
