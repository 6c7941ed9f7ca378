//! Decision logic of a "now playing" bridge between Spotify, Discord and OBS:
//! the data it receives, the text it renders and the state it keeps, with the
//! network and the OBS connection left to the program around it.

pub mod text;
pub mod notify_model;
pub mod filter;
pub mod spotifyapi;
pub mod model;
pub mod obsdriver;
pub mod endpoints;
pub mod discordws;
pub mod discordapi;
pub mod spotifyws;
pub mod playback;
