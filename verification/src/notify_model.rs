//! What the bridge announces to its consumers: the music now playing, or that
//! playback is paused or unknown.

use vstd::prelude::*;
use vstd::std_specs::cmp::PartialEqSpecImpl;

verus! {

/// A piece of music as shown to viewers.
#[derive(Debug, Eq)]
pub struct Music {
    pub title: String,
    pub artists: String,
    pub albumart: String,
}

/// The characters of each field of a [`Music`].
pub struct MusicView {
    pub title: Seq<char>,
    pub artists: Seq<char>,
    pub albumart: Seq<char>,
}

impl View for Music {
    type V = MusicView;

    open spec fn view(&self) -> MusicView {
        MusicView { title: self.title@, artists: self.artists@, albumart: self.albumart@ }
    }
}

impl Clone for Music {
    fn clone(&self) -> (res: Self)
        ensures
            res == *self,
    {
        Music {
            title: self.title.clone(),
            artists: self.artists.clone(),
            albumart: self.albumart.clone(),
        }
    }
}

impl PartialEq for Music {
    fn eq(&self, other: &Self) -> (res: bool) {
        self.title == other.title && self.artists == other.artists && self.albumart
            == other.albumart
    }
}

impl PartialEqSpecImpl for Music {
    open spec fn obeys_eq_spec() -> bool {
        true
    }

    open spec fn eq_spec(&self, other: &Self) -> bool {
        self@ == other@
    }
}

/// A notification about the player's state.
#[derive(Debug, Eq)]
pub enum Notify {
    Playing(Music),
    Unknown,
    Paused,
}

/// [`Notify`] with its music taken by view.
pub enum NotifyView {
    Playing(MusicView),
    Unknown,
    Paused,
}

impl View for Notify {
    type V = NotifyView;

    open spec fn view(&self) -> NotifyView {
        match self {
            Notify::Playing(m) => NotifyView::Playing(m@),
            Notify::Unknown => NotifyView::Unknown,
            Notify::Paused => NotifyView::Paused,
        }
    }
}

impl Clone for Notify {
    fn clone(&self) -> (res: Self)
        ensures
            res == *self,
    {
        match self {
            Notify::Playing(m) => Notify::Playing(m.clone()),
            Notify::Unknown => Notify::Unknown,
            Notify::Paused => Notify::Paused,
        }
    }
}

impl PartialEq for Notify {
    fn eq(&self, other: &Self) -> (res: bool) {
        match (self, other) {
            (Notify::Playing(a), Notify::Playing(b)) => a == b,
            (Notify::Unknown, Notify::Unknown) => true,
            (Notify::Paused, Notify::Paused) => true,
            _ => false,
        }
    }
}

impl PartialEqSpecImpl for Notify {
    open spec fn obeys_eq_spec() -> bool {
        true
    }

    open spec fn eq_spec(&self, other: &Self) -> bool {
        self@ == other@
    }
}

} // verus!
