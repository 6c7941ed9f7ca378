//! Configuration of the OBS connection and the music shown in OBS.

use vstd::prelude::*;
use vstd::std_specs::cmp::PartialEqSpecImpl;
use crate::notify_model::MusicView;

verus! {

/// Where OBS is reached, and the template of the text shown
/// (`%TITLE%` and `%ARTISTS%` stand for the music's fields).
#[derive(Debug)]
pub struct ObsConfig {
    pub obs_address: String,
    pub obs_port: u16,
    pub obs_password: Option<String>,
    pub format: String,
}

/// The Discord token, and the OBS configuration.
#[derive(Debug)]
pub struct Config {
    pub discord_token: String,
    pub obs_config: ObsConfig,
}

/// A piece of music as shown in OBS.
#[derive(Debug, Eq)]
pub struct Music {
    pub title: String,
    pub artists: String,
    pub albumart: String,
}

impl View for Music {
    type V = MusicView;

    open spec fn view(&self) -> MusicView {
        MusicView { title: self.title@, artists: self.artists@, albumart: self.albumart@ }
    }
}

impl Clone for Music {
    fn clone(&self) -> (res: Self)
        ensures
            res == *self,
    {
        Music {
            title: self.title.clone(),
            artists: self.artists.clone(),
            albumart: self.albumart.clone(),
        }
    }
}

impl PartialEq for Music {
    fn eq(&self, other: &Self) -> (res: bool) {
        self.title == other.title && self.artists == other.artists && self.albumart
            == other.albumart
    }
}

impl PartialEqSpecImpl for Music {
    open spec fn obeys_eq_spec() -> bool {
        true
    }

    open spec fn eq_spec(&self, other: &Self) -> bool {
        self@ == other@
    }
}

} // verus!
