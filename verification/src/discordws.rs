//! The Discord gateway: the identify request, the ready message, and finding
//! the Spotify access token among the connected accounts.

use vstd::prelude::*;

verus! {

/// The (empty) connection properties of the identify request.
#[derive(Debug)]
pub struct ReqOp2DProp {}

/// The payload of the identify request.
#[derive(Debug)]
pub struct ReqOp2D {
    pub token: String,
    pub properties: ReqOp2DProp,
    pub compress: bool,
}

/// The identify request (opcode 2).
#[derive(Debug)]
pub struct ReqOp2 {
    pub op: i32,
    pub d: ReqOp2D,
}

/// An account connected to the Discord user.
#[derive(Debug)]
pub enum ConnectedAccount {
    Spotify { access_token: String },
    Other,
}

/// The ready message: the user's connected accounts.
#[derive(Debug)]
pub struct Ready {
    pub connected_accounts: Vec<ConnectedAccount>,
}

/// A gateway message that the bridge reads.
#[derive(Debug)]
pub enum Response {
    Ready(Ready),
}

/// The identify request for the user's `token`: opcode 2, no compression.
pub fn identify_request(token: &str) -> (req: ReqOp2)
    ensures
        req.op == 2,
        req.d.token@ == token@,
        !req.d.compress,
{
    ReqOp2 { op: 2, d: ReqOp2D { token: String::from_str(token), properties: ReqOp2DProp {  }, compress: false } }
}

/// Account `i` is the first Spotify account.
pub open spec fn is_first_spotify(accounts: Seq<ConnectedAccount>, i: int) -> bool {
    &&& 0 <= i < accounts.len()
    &&& accounts[i] is Spotify
    &&& forall|j: int| 0 <= j < i ==> (#[trigger] accounts[j]) is Other
}

/// The access token of the first Spotify account, if there is one.
pub fn find_spotify_token(accounts: &Vec<ConnectedAccount>) -> (res: Option<String>)
    ensures
        res is None <==> forall|j: int| 0 <= j < accounts@.len() ==> (#[trigger] accounts@[j]) is Other,
        res matches Some(t) ==> exists|i: int|
            is_first_spotify(accounts@, i) && t@ == (#[trigger] accounts@[i])->access_token@,
{
    let mut k: usize = 0;
    while k < accounts.len()
        invariant
            k <= accounts.len(),
            forall|j: int| 0 <= j < k ==> (#[trigger] accounts@[j]) is Other,
        decreases accounts.len() - k,
    {
        match &accounts[k] {
            ConnectedAccount::Spotify { access_token } => {
                assert(is_first_spotify(accounts@, k as int));
                return Some(access_token.clone());
            },
            ConnectedAccount::Other => {},
        }
        k = k + 1;
    }
    None
}

/// What the gateway connection is handed on each turn of its loop.
pub enum GatewayInput {
    /// A text frame, read as a message (`None` when it is not one).
    Text(Option<Response>),
    /// The server closed the connection.
    Close,
    /// A frame of another kind.
    OtherFrame,
}

/// How a turn of the gateway connection ends.
#[derive(Debug)]
pub enum GatewayOutcome {
    /// Wait for the next frame.
    Continue,
    /// The Spotify access token was found.
    Found(String),
    /// The ready message listed no Spotify account.
    NoSpotifyAccount,
    /// The server closed the connection before the ready message.
    Closed,
}

/// One turn of waiting for the Spotify access token: a ready message gives the
/// token of its first Spotify account (or the lack of one); a close ends the
/// wait; anything else is passed over.
pub fn get_spotify_token_step(input: GatewayInput) -> (res: GatewayOutcome)
    ensures
        input is Close ==> res is Closed,
        input is OtherFrame ==> res is Continue,
        input matches GatewayInput::Text(None) ==> res is Continue,
        input matches GatewayInput::Text(Some(Response::Ready(r))) ==> {
            let accs = r.connected_accounts@;
            &&& res is NoSpotifyAccount <==> forall|j: int| 0 <= j < accs.len() ==> (#[trigger] accs[j]) is Other
            &&& res is Found || res is NoSpotifyAccount
            &&& res matches GatewayOutcome::Found(t) ==> exists|i: int|
                is_first_spotify(accs, i) && t@ == (#[trigger] accs[i])->access_token@
        },
{
    match input {
        GatewayInput::Text(Some(Response::Ready(r))) => match find_spotify_token(&r.connected_accounts) {
            Some(t) => GatewayOutcome::Found(t),
            None => GatewayOutcome::NoSpotifyAccount,
        },
        GatewayInput::Text(None) => GatewayOutcome::Continue,
        GatewayInput::Close => GatewayOutcome::Closed,
        GatewayInput::OtherFrame => GatewayOutcome::Continue,
    }
}

} // verus!
