//! The player's playback state as delivered to the bridge's event handler, the
//! music it shows, and the handler's decision to update OBS only on a change.

use vstd::prelude::*;
use crate::model::Music;
use crate::notify_model::MusicView;
use crate::text::{join, join_strs};

verus! {

/// A cover image; its size may be unknown.
#[derive(Debug)]
pub struct Image {
    pub width: Option<u32>,
    pub height: Option<u32>,
    pub url: String,
}

#[derive(Debug)]
pub struct Artist {
    pub name: String,
}

#[derive(Debug)]
pub struct Album {
    pub images: Vec<Image>,
}

#[derive(Debug)]
pub struct Track {
    pub name: String,
    pub artists: Vec<Artist>,
    pub album: Album,
}

#[derive(Debug)]
pub struct Episode {
    pub name: String,
    pub images: Vec<Image>,
}

/// What is playing: a track or a podcast episode.
#[derive(Debug)]
pub enum Item {
    Track(Track),
    Episode(Episode),
}

/// The player's state.
#[derive(Debug)]
pub struct PlaybackState {
    pub is_playing: bool,
    pub item: Option<Item>,
}

/// The area of an image, an unknown side counting as 0.
pub open spec fn area(img: Image) -> int {
    let w: int = match img.width {
        Some(w) => w as int,
        None => 0,
    };
    let h: int = match img.height {
        Some(h) => h as int,
        None => 0,
    };
    w * h
}

/// Image `i` has the largest area, and every later image has a smaller one.
pub open spec fn is_last_largest(images: Seq<Image>, i: int) -> bool {
    &&& 0 <= i < images.len()
    &&& forall|j: int| 0 <= j < images.len() ==> area(#[trigger] images[j]) <= area(images[i])
    &&& forall|j: int| i < j < images.len() ==> area(#[trigger] images[j]) < area(images[i])
}

/// Every image's area fits in a `u32`, the type it is computed in.
pub open spec fn areas_fit(images: Seq<Image>) -> bool {
    forall|j: int| 0 <= j < images.len() ==> #[trigger] area(images[j]) <= u32::MAX
}

/// The images of what is playing.
pub open spec fn item_images(item: Item) -> Seq<Image> {
    match item {
        Item::Track(t) => t.album.images@,
        Item::Episode(e) => e.images@,
    }
}

/// The inputs on which the handler completes: while playing, something is
/// playing and the areas of its images fit in a `u32`. The image sizes are
/// held as `u32` here, a type this library chose for the player's image sizes
/// (the area is computed in that type, so an area past `u32::MAX` would overflow).
pub open spec fn playback_readable(state: Option<&PlaybackState>) -> bool {
    match state {
        Some(s) => s.is_playing ==> match s.item {
            Some(item) => areas_fit(item_images(item)),
            None => false,
        },
        None => true,
    }
}

/// The url of the album art shown for these images: the last of the largest,
/// or a blank page when there are none.
pub open spec fn albumart_of(images: Seq<Image>) -> Seq<char> {
    if images.len() == 0 {
        "about:blank"@
    } else {
        images[choose|i: int| is_last_largest(images, i)].url@
    }
}

/// The music shown for a playback state: none unless playing; the track's title,
/// its artists joined by ", " and its album art, or the episode's title, "n/a"
/// and its art.
pub open spec fn playback_music(state: Option<&PlaybackState>) -> Option<MusicView> {
    match state {
        Some(s) => if s.is_playing {
            match s.item {
                Some(Item::Track(t)) => Some(
                    MusicView {
                        title: t.name@,
                        artists: join(t.artists@.map_values(|a: Artist| a.name@), ", "@),
                        albumart: albumart_of(t.album.images@),
                    },
                ),
                Some(Item::Episode(e)) => Some(
                    MusicView { title: e.name@, artists: "n/a"@, albumart: albumart_of(e.images@) },
                ),
                None => None,
            }
        } else {
            None
        },
        None => None,
    }
}

/// The view of an optional music.
pub open spec fn opt_music_view(m: Option<Music>) -> Option<MusicView> {
    match m {
        Some(x) => Some(x@),
        None => None,
    }
}

proof fn lemma_last_largest_unique(images: Seq<Image>, a: int, b: int)
    requires
        is_last_largest(images, a),
        is_last_largest(images, b),
    ensures
        a == b,
{
    if a < b {
        assert(area(images[b]) < area(images[a]));
        assert(area(images[b]) >= area(images[a]));
    } else if b < a {
        assert(area(images[a]) < area(images[b]));
        assert(area(images[a]) >= area(images[b]));
    }
}


proof fn lemma_last_largest_exists(images: Seq<Image>)
    requires
        images.len() > 0,
    ensures
        exists|i: int| is_last_largest(images, i),
    decreases images.len(),
{
    let n = images.len() as int;
    if n == 1 {
        assert(is_last_largest(images, 0));
    } else {
        let front = images.drop_last();
        lemma_last_largest_exists(front);
        let i = choose|i: int| is_last_largest(front, i);
        assert forall|j: int| 0 <= j < n - 1 implies #[trigger] images[j] == front[j] by {}
        if area(images[n - 1]) >= area(images[i]) {
            assert(is_last_largest(images, n - 1));
        } else {
            assert(images[i] == front[i]);
            assert(is_last_largest(images, i));
        }
    }
}

/// The album art shown for `images`: the url of an image whose area no image
/// exceeds and every later image falls short of, or a blank page when there is none.
proof fn lemma_albumart_is_last_largest(images: Seq<Image>)
    ensures
        images.len() == 0 ==> albumart_of(images) == "about:blank"@,
        images.len() > 0 ==> exists|i: int|
            0 <= i < images.len() && albumart_of(images) == images[i].url@ && (forall|j: int|
                0 <= j < images.len() ==> area(#[trigger] images[j]) <= area(images[i])) && (forall|
                j: int,
            |
                i < j < images.len() ==> area(#[trigger] images[j]) < area(images[i])),
{
    if images.len() > 0 {
        lemma_last_largest_exists(images);
        let i = choose|i: int| is_last_largest(images, i);
        assert(is_last_largest(images, i));
    }
}

/// While a track plays, the music shown is its title, its artists joined by
/// ", ", and as album art the url of one of its album's images whose area (an
/// unknown side counting 0) no image exceeds and every later image falls short
/// of; a blank page only when the album has no image.
pub proof fn law_playing_track_shows_largest_image(s: PlaybackState, t: Track)
    requires
        s.is_playing,
        s.item == Some(Item::Track(t)),
    ensures
        ({
            &&& playback_music(Some(&s)) matches Some(m)
            &&& m.title == t.name@
            &&& m.artists == join(t.artists@.map_values(|a: Artist| a.name@), ", "@)
            &&& t.album.images.len() == 0 ==> m.albumart == "about:blank"@
            &&& t.album.images.len() > 0 ==> exists|i: int|
                0 <= i < t.album.images.len() && m.albumart == t.album.images@[i].url@ && (forall|
                    j: int,
                |
                    0 <= j < t.album.images.len() ==> area(#[trigger] t.album.images@[j]) <= area(
                        t.album.images@[i],
                    )) && (forall|j: int|
                    i < j < t.album.images.len() ==> area(#[trigger] t.album.images@[j]) < area(
                        t.album.images@[i],
                    ))
        }),
{
    lemma_albumart_is_last_largest(t.album.images@);
}

/// While an episode plays, the music shown is its title, "n/a" for artists, and
/// as album art the url of one of the episode's own images whose area no image
/// exceeds and every later image falls short of; a blank page only when it has
/// no image.
pub proof fn law_playing_episode_shows_largest_image(s: PlaybackState, e: Episode)
    requires
        s.is_playing,
        s.item == Some(Item::Episode(e)),
    ensures
        ({
            &&& playback_music(Some(&s)) matches Some(m)
            &&& m.title == e.name@
            &&& m.artists == "n/a"@
            &&& e.images.len() == 0 ==> m.albumart == "about:blank"@
            &&& e.images.len() > 0 ==> exists|i: int|
                0 <= i < e.images.len() && m.albumart == e.images@[i].url@ && (forall|j: int|
                    0 <= j < e.images.len() ==> area(#[trigger] e.images@[j]) <= area(e.images@[i]))
                    && (forall|j: int|
                    i < j < e.images.len() ==> area(#[trigger] e.images@[j]) < area(e.images@[i]))
        }),
{
    lemma_albumart_is_last_largest(e.images@);
}

/// A playback state shows nothing unless it plays.
pub proof fn law_nothing_shown_unless_playing(s: PlaybackState)
    requires
        !s.is_playing,
    ensures
        playback_music(Some(&s)) is None,
        playback_music(None) is None,
{
}

/// The area of an image, computed as a `u32`.
fn image_area(img: &Image) -> (a: u32)
    requires
        area(*img) <= u32::MAX,
    ensures
        a == area(*img),
{
    let w = match img.width {
        Some(w) => w,
        None => 0,
    };
    let h = match img.height {
        Some(h) => h,
        None => 0,
    };
    w * h
}

/// The url of the album art for these images (see [`albumart_of`]).
pub fn albumart_url(images: &Vec<Image>) -> (res: String)
    requires
        areas_fit(images@),
    ensures
        res@ == albumart_of(images@),
{
    let n = images.len();
    if n == 0 {
        return String::from_str("about:blank");
    }
    let mut best: usize = 0;
    let mut best_area = image_area(&images[0]);
    let mut k: usize = 1;
    while k < n
        invariant
            n == images@.len(),
            areas_fit(images@),
            1 <= k <= n,
            best < k,
            best_area == area(images@[best as int]),
            forall|j: int| 0 <= j < k ==> area(#[trigger] images@[j]) <= best_area,
            forall|j: int| best < j < k ==> area(#[trigger] images@[j]) < best_area,
        decreases n - k,
    {
        let a = image_area(&images[k]);
        if a >= best_area {
            best = k;
            best_area = a;
        }
        k = k + 1;
    }
    proof {
        let c = choose|i: int| is_last_largest(images@, i);
        assert(is_last_largest(images@, best as int));
        lemma_last_largest_unique(images@, best as int, c);
    }
    images[best].url.clone()
}

/// Whether every image's area fits in a `u32`.
fn images_areas_fit(images: &Vec<Image>) -> (b: bool)
    ensures
        b == areas_fit(images@),
{
    let mut k: usize = 0;
    while k < images.len()
        invariant
            k <= images.len(),
            forall|j: int| 0 <= j < k ==> #[trigger] area(images@[j]) <= u32::MAX,
        decreases images.len() - k,
    {
        let w: u64 = match images[k].width {
            Some(w) => w as u64,
            None => 0,
        };
        let h: u64 = match images[k].height {
            Some(h) => h as u64,
            None => 0,
        };
        assert(w * h <= 0xffff_ffff * 0xffff_ffff) by (nonlinear_arith)
            requires
                w <= 0xffff_ffff,
                h <= 0xffff_ffff,
        ;
        assert(w * h == area(images@[k as int]));
        if w * h > 0xffff_ffff {
            return false;
        }
        k = k + 1;
    }
    true
}

/// Whether the handler completes on `state` (see [`playback_readable`]).
pub fn playback_is_readable(state: Option<&PlaybackState>) -> (b: bool)
    ensures
        b == playback_readable(state),
{
    match state {
        Some(s) => {
            if !s.is_playing {
                return true;
            }
            match &s.item {
                Some(Item::Track(t)) => images_areas_fit(&t.album.images),
                Some(Item::Episode(e)) => images_areas_fit(&e.images),
                None => false,
            }
        },
        None => true,
    }
}

/// The artists' names joined by ", ".
fn artists_text(artists: &Vec<Artist>) -> (res: String)
    ensures
        res@ == join(artists@.map_values(|a: Artist| a.name@), ", "@),
{
    let mut names: Vec<&str> = Vec::new();
    let mut i: usize = 0;
    while i < artists.len()
        invariant
            i <= artists.len(),
            names.len() == i,
            forall|k: int| 0 <= k < i ==> (#[trigger] names@[k])@ == artists@[k].name@,
        decreases artists.len() - i,
    {
        names.push(artists[i].name.as_str());
        i = i + 1;
    }
    assert(names@.map_values(|x: &str| x@) =~= artists@.map_values(|a: Artist| a.name@));
    join_strs(&names, ", ")
}

/// The music shown for a playback state (see [`playback_music`]).
pub fn music_of_playback(state: Option<&PlaybackState>) -> (res: Option<Music>)
    requires
        playback_readable(state),
    ensures
        opt_music_view(res) == playback_music(state),
{
    match state {
        Some(s) => {
            if !s.is_playing {
                return None;
            }
            match &s.item {
                Some(Item::Track(t)) => Some(
                    Music {
                        title: t.name.clone(),
                        artists: artists_text(&t.artists),
                        albumart: albumart_url(&t.album.images),
                    },
                ),
                Some(Item::Episode(e)) => Some(
                    Music {
                        title: e.name.clone(),
                        artists: String::from_str("n/a"),
                        albumart: albumart_url(&e.images),
                    },
                ),
                None => None,
            }
        },
        None => None,
    }
}

/// Whether two optional musics show the same.
fn same_music(a: &Option<Music>, b: &Option<Music>) -> (r: bool)
    ensures
        r == (opt_music_view(*a) == opt_music_view(*b)),
{
    match (a, b) {
        (Some(x), Some(y)) => *x == *y,
        (None, None) => true,
        _ => false,
    }
}

/// The view of the handler's answer.
pub open spec fn opt_update_view(u: Option<Option<Music>>) -> Option<Option<MusicView>> {
    match u {
        Some(m) => Some(opt_music_view(m)),
        None => None,
    }
}

/// The handler's decision, holding `held` and shown `music`: when it is the music
/// held, keep it and do nothing; otherwise hold it and send it to OBS.
pub open spec fn handler_decision(held: Option<MusicView>, music: Option<MusicView>) -> (
    Option<MusicView>,
    Option<Option<MusicView>>,
) {
    if music == held {
        (held, None)
    } else {
        (music, Some(music))
    }
}

/// Handles a playback state, holding in `previous_notified` the music last sent
/// to OBS: when the music shown for the state is the one last sent, nothing is
/// to be done and `None` comes back; otherwise it is held and comes back, to be
/// sent to OBS (see [`handler_decision`]).
pub fn on_playback_state_update(
    previous_notified: &mut Option<Music>,
    player_state: Option<&PlaybackState>,
) -> (update: Option<Option<Music>>)
    requires
        playback_readable(player_state),
    ensures
        (opt_music_view(*final(previous_notified)), opt_update_view(update)) == handler_decision(
            opt_music_view(*old(previous_notified)),
            playback_music(player_state),
        ),
        update is Some <==> playback_music(player_state) != opt_music_view(*old(previous_notified)),
        update matches Some(u) ==> opt_music_view(u) == playback_music(player_state),
        opt_music_view(*final(previous_notified)) == playback_music(player_state),
{
    let music = music_of_playback(player_state);
    if same_music(&music, previous_notified) {
        return None;
    }
    let held = match &music {
        Some(m) => Some(m.clone()),
        None => None,
    };
    *previous_notified = held;
    Some(music)
}

/// OBS is updated only when the music changes, and then with the new music:
/// the same music handled twice in a row is sent at most once, a change is
/// always sent, what is sent is the music now shown, and that music is held.
pub proof fn law_update_only_on_change(held: Option<MusicView>, music: Option<MusicView>)
    ensures
        ({
            let (h1, u1) = handler_decision(held, music);
            &&& handler_decision(h1, music) == (h1, None::<Option<MusicView>>)
            &&& (u1 is Some <==> music != held)
            &&& (u1 is Some ==> u1 == Some(music))
            &&& h1 == music
        }),
{
}

/// How a run of the player client ended.
#[derive(Debug, Clone, Copy, PartialEq, Eq)]
pub enum RunEnd {
    /// The user interrupted the program.
    Interrupted,
    /// The player connection timed out.
    TimedOut,
    /// The run ended for any other reason.
    Failed,
}

/// What the program does after a run of the player client.
#[derive(Debug, Clone, Copy, PartialEq, Eq)]
pub enum RunDecision {
    /// Start a new run (after a short pause).
    Restart,
    /// Stop, clearing OBS.
    Stop,
}

/// After a run: a timed-out connection is restarted, anything else stops the program.
pub fn after_run(end: RunEnd) -> (d: RunDecision)
    ensures
        d is Restart <==> end is TimedOut,
{
    match end {
        RunEnd::TimedOut => RunDecision::Restart,
        _ => RunDecision::Stop,
    }
}

} // verus!
