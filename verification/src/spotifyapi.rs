//! The Spotify dealer connection: the messages it delivers, the reading of a
//! player state into a notification, and the decisions taken on each message.

use vstd::prelude::*;
use crate::notify_model::{Music, MusicView, Notify, NotifyView};
use crate::text::{join, join_strs};

verus! {

/// A request sent to the dealer.
#[derive(Debug)]
pub enum Request {
    Ping,
}

/// An album cover image.
#[derive(Debug)]
pub struct Image {
    pub width: i32,
    pub height: i32,
    pub url: String,
}

#[derive(Debug)]
pub struct Album {
    pub images: Vec<Image>,
}

#[derive(Debug)]
pub struct Artist {
    pub name: String,
}

/// An album, or an object of another kind in the album's place.
#[derive(Debug)]
pub enum AlbumLikeObject {
    Album(Album),
    Other,
}

#[derive(Debug)]
pub enum ArtistLikeObject {
    Artist(Artist),
}

#[derive(Debug)]
pub struct Track {
    pub name: String,
    pub artists: Vec<ArtistLikeObject>,
    pub album: AlbumLikeObject,
}

#[derive(Debug)]
pub enum PSCItem {
    Track(Track),
}

/// A playback device.
#[derive(Debug)]
pub struct Device {
    pub id: String,
}

/// The state of the player.
#[derive(Debug)]
pub struct PSCState {
    pub item: Option<PSCItem>,
    pub is_playing: bool,
    pub device: Device,
}

#[derive(Debug)]
pub struct PSCEvent {
    pub state: PSCState,
}

#[derive(Debug)]
pub struct PlayerStateChanged {
    pub event: PSCEvent,
}

/// The devices that are currently available.
#[derive(Debug)]
pub struct DSCEvent {
    pub devices: Vec<Device>,
}

#[derive(Debug)]
pub struct DeviceStateChanged {
    pub event: DSCEvent,
}

#[derive(Debug)]
pub enum Event {
    PlayerStateChanged(PlayerStateChanged),
    DeviceStateChanged(DeviceStateChanged),
}

#[derive(Debug)]
pub struct Payload {
    pub events: Vec<Event>,
}

#[derive(Debug)]
pub struct PutHeader {
    pub spotify_connection_id: String,
}

#[derive(Debug)]
pub struct WssEvent {
    pub payloads: Vec<Payload>,
}

#[derive(Debug)]
pub struct Put {
    pub headers: PutHeader,
}

#[derive(Debug)]
pub enum MessageLikeObjects {
    WssEvent(WssEvent),
    Put(Put),
}

/// A message from the dealer.
#[derive(Debug)]
pub enum Response {
    Message(MessageLikeObjects),
    Pong,
}

/// The device that is playing, as far as the connection knows.
#[derive(Debug)]
pub enum PlayingDevice {
    Playing(String),
    Paused,
}

/// [`PlayingDevice`] with the device id taken by view.
pub enum PlayingDeviceView {
    Playing(Seq<char>),
    Paused,
}

impl View for PlayingDevice {
    type V = PlayingDeviceView;

    open spec fn view(&self) -> PlayingDeviceView {
        match self {
            PlayingDevice::Playing(id) => PlayingDeviceView::Playing(id@),
            PlayingDevice::Paused => PlayingDeviceView::Paused,
        }
    }
}

/// Why a player state could not be read.
#[derive(Debug, Clone, Copy, PartialEq, Eq)]
pub enum PscError {
    /// The track's album is not an album.
    UnexpectedAlbumLikeObject,
}

/// The area of an image, by which the album art is chosen.
pub open spec fn image_area(img: Image) -> int {
    img.width * img.height
}

/// Image `i` has the largest area, and every later image has a smaller one
/// (so among images of equal, largest area the last is chosen).
pub open spec fn is_last_largest(images: Seq<Image>, i: int) -> bool {
    &&& 0 <= i < images.len()
    &&& forall|j: int| 0 <= j < images.len() ==> image_area(#[trigger] images[j]) <= image_area(images[i])
    &&& forall|j: int| i < j < images.len() ==> image_area(#[trigger] images[j]) < image_area(images[i])
}

/// The index of the chosen album art.
pub open spec fn largest_image(images: Seq<Image>) -> int {
    choose|i: int| is_last_largest(images, i)
}

/// Every image's area fits in an `i32`, the type it is computed in.
pub open spec fn areas_fit(images: Seq<Image>) -> bool {
    forall|j: int|
        0 <= j < images.len() ==> i32::MIN <= #[trigger] image_area(images[j]) <= i32::MAX
}

/// The names of the artists, in order.
pub open spec fn artist_names(artists: Seq<ArtistLikeObject>) -> Seq<Seq<char>> {
    artists.map_values(|a: ArtistLikeObject| match a { ArtistLikeObject::Artist(x) => x.name@ })
}

/// The inputs on which reading a player state completes: where an album is
/// read, it has at least one image and every image's area fits in an `i32`.
pub open spec fn pscstate_readable(s: PSCState) -> bool {
    match s.item {
        Some(PSCItem::Track(t)) => match t.album {
            AlbumLikeObject::Album(a) => s.is_playing ==> a.images.len() > 0 && areas_fit(
                a.images@,
            ),
            AlbumLikeObject::Other => true,
        },
        None => true,
    }
}

/// What a player state reads as: the notification and the playing device.
pub open spec fn spec_parse_pscstate(s: PSCState) -> Result<
    (NotifyView, PlayingDeviceView),
    PscError,
> {
    if !s.is_playing {
        Ok((NotifyView::Paused, PlayingDeviceView::Paused))
    } else {
        match s.item {
            None => Ok((NotifyView::Unknown, PlayingDeviceView::Paused)),
            Some(PSCItem::Track(t)) => match t.album {
                AlbumLikeObject::Other => Err(PscError::UnexpectedAlbumLikeObject),
                AlbumLikeObject::Album(a) => Ok(
                    (
                        NotifyView::Playing(
                            MusicView {
                                title: t.name@,
                                artists: join(artist_names(t.artists@), ", "@),
                                albumart: a.images@[largest_image(a.images@)].url@,
                            },
                        ),
                        PlayingDeviceView::Playing(s.device.id@),
                    ),
                ),
            },
        }
    }
}

/// The view of a read result.
pub open spec fn psc_result_view(r: Result<(Notify, PlayingDevice), PscError>) -> Result<
    (NotifyView, PlayingDeviceView),
    PscError,
> {
    match r {
        Ok((n, p)) => Ok((n@, p@)),
        Err(e) => Err(e),
    }
}

proof fn lemma_last_largest_unique(images: Seq<Image>, a: int, b: int)
    requires
        is_last_largest(images, a),
        is_last_largest(images, b),
    ensures
        a == b,
{
    if a < b {
        assert(image_area(images[b]) < image_area(images[a]));
        assert(image_area(images[b]) >= image_area(images[a]));
    } else if b < a {
        assert(image_area(images[a]) < image_area(images[b]));
        assert(image_area(images[a]) >= image_area(images[b]));
    }
}

/// The index of the image with the largest area; the last one among equals.
pub fn largest_image_index(images: &Vec<Image>) -> (i: usize)
    requires
        images.len() > 0,
        areas_fit(images@),
    ensures
        i == largest_image(images@),
        is_last_largest(images@, i as int),
{
    let n = images.len();
    assert(i32::MIN <= image_area(images@[0]) <= i32::MAX);
    let mut best: usize = 0;
    let mut best_area: i32 = images[0].width * images[0].height;
    let mut k: usize = 1;
    while k < n
        invariant
            n == images@.len(),
            areas_fit(images@),
            1 <= k <= n,
            best < k,
            best_area == image_area(images@[best as int]),
            forall|j: int| 0 <= j < k ==> image_area(#[trigger] images@[j]) <= best_area,
            forall|j: int| best < j < k ==> image_area(#[trigger] images@[j]) < best_area,
        decreases n - k,
    {
        assert(i32::MIN <= image_area(images@[k as int]) <= i32::MAX);
        let area = images[k].width * images[k].height;
        if area >= best_area {
            best = k;
            best_area = area;
        }
        k = k + 1;
    }
    proof {
        let c = choose|i: int| is_last_largest(images@, i);
        assert(is_last_largest(images@, best as int));
        lemma_last_largest_unique(images@, best as int, c);
    }
    best
}

/// The artists' names joined by ", ".
pub fn artists_text(artists: &Vec<ArtistLikeObject>) -> (res: String)
    ensures
        res@ == join(artist_names(artists@), ", "@),
{
    let mut names: Vec<&str> = Vec::new();
    let mut i: usize = 0;
    while i < artists.len()
        invariant
            i <= artists.len(),
            names.len() == i,
            forall|k: int| 0 <= k < i ==> (#[trigger] names@[k])@ == artist_names(artists@)[k],
        decreases artists.len() - i,
    {
        match &artists[i] {
            ArtistLikeObject::Artist(a) => {
                names.push(a.name.as_str());
            },
        }
        i = i + 1;
    }
    assert(names@.map_values(|x: &str| x@) =~= artist_names(artists@));
    join_strs(&names, ", ")
}

proof fn lemma_last_largest_exists(images: Seq<Image>)
    requires
        images.len() > 0,
    ensures
        exists|i: int| is_last_largest(images, i),
    decreases images.len(),
{
    let n = images.len() as int;
    if n == 1 {
        assert(is_last_largest(images, 0));
    } else {
        let front = images.drop_last();
        lemma_last_largest_exists(front);
        let i = choose|i: int| is_last_largest(front, i);
        assert forall|j: int| 0 <= j < n - 1 implies #[trigger] images[j] == front[j] by {}
        if image_area(images[n - 1]) >= image_area(images[i]) {
            assert(is_last_largest(images, n - 1));
        } else {
            assert(images[i] == front[i]);
            assert(is_last_largest(images, i));
        }
    }
}

/// A playing track of an album reads as music playing on the state's device,
/// with the track's title, and as album art the url of an image `i` of the
/// album whose area (width × height) no image of the album exceeds and every
/// later image falls short of: the largest image, the last among equals.
pub proof fn law_parse_albumart_is_last_largest(s: PSCState, t: Track, a: Album)
    requires
        s.is_playing,
        s.item == Some(PSCItem::Track(t)),
        t.album == AlbumLikeObject::Album(a),
        a.images.len() > 0,
    ensures
        ({
            &&& spec_parse_pscstate(s) matches Ok(
                (NotifyView::Playing(m), PlayingDeviceView::Playing(id)),
            )
            &&& id == s.device.id@
            &&& m.title == t.name@
            &&& exists|i: int|
                0 <= i < a.images.len() && m.albumart == a.images@[i].url@ && (forall|j: int|
                    0 <= j < a.images.len() ==> (#[trigger] a.images@[j]).width * a.images@[j].height
                        <= a.images@[i].width * a.images@[i].height) && (forall|j: int|
                    i < j < a.images.len() ==> (#[trigger] a.images@[j]).width * a.images@[j].height
                        < a.images@[i].width * a.images@[i].height)
        }),
{
    lemma_last_largest_exists(a.images@);
    let i = largest_image(a.images@);
    assert(is_last_largest(a.images@, i));
    assert forall|j: int| 0 <= j < a.images.len() implies (#[trigger] a.images@[j]).width
        * a.images@[j].height <= a.images@[i].width * a.images@[i].height by {
        assert(image_area(a.images@[j]) <= image_area(a.images@[i]));
    }
    assert forall|j: int| i < j < a.images.len() implies (#[trigger] a.images@[j]).width
        * a.images@[j].height < a.images@[i].width * a.images@[i].height by {
        assert(image_area(a.images@[j]) < image_area(a.images@[i]));
    }
}

/// Reads a player state: paused when it is not playing; unknown when nothing is
/// playing; otherwise the track's title, its artists joined by ", " and the url
/// of its largest cover image (the last among equals), with the device playing
/// it. A track whose album is not an album is an error.
pub fn parse_pscstate(s: &PSCState) -> (res: Result<(Notify, PlayingDevice), PscError>)
    requires
        pscstate_readable(*s),
    ensures
        psc_result_view(res) == spec_parse_pscstate(*s),
        s.is_playing ==> (s.item matches Some(PSCItem::Track(t)) ==> (t.album matches AlbumLikeObject::Album(a) ==> (
        res matches Ok((Notify::Playing(m), PlayingDevice::Playing(id))) && id@ == s.device.id@
            && m.title@ == t.name@ && exists|i: int|
            0 <= i < a.images.len() && m.albumart@ == a.images@[i].url@ && (forall|j: int|
                0 <= j < a.images.len() ==> (#[trigger] a.images@[j]).width * a.images@[j].height
                    <= a.images@[i].width * a.images@[i].height) && (forall|j: int|
                i < j < a.images.len() ==> (#[trigger] a.images@[j]).width * a.images@[j].height
                    < a.images@[i].width * a.images@[i].height)))),
{
    if !s.is_playing {
        return Ok((Notify::Paused, PlayingDevice::Paused));
    }
    let track = match &s.item {
        Some(PSCItem::Track(track)) => track,
        None => {
            return Ok((Notify::Unknown, PlayingDevice::Paused));
        },
    };
    let artists = artists_text(&track.artists);
    let album = match &track.album {
        AlbumLikeObject::Album(a) => a,
        AlbumLikeObject::Other => {
            return Err(PscError::UnexpectedAlbumLikeObject);
        },
    };
    let best = largest_image_index(&album.images);
    let albumart = album.images[best].url.clone();
    proof {
        law_parse_albumart_is_last_largest(*s, *track, *album);
    }
    Ok(
        (
            Notify::Playing(Music { title: track.name.clone(), artists, albumart }),
            PlayingDevice::Playing(s.device.id.clone()),
        ),
    )
}

/// Whether every image's area fits in an `i32`.
fn images_areas_fit(images: &Vec<Image>) -> (b: bool)
    ensures
        b == areas_fit(images@),
{
    let mut k: usize = 0;
    while k < images.len()
        invariant
            k <= images.len(),
            forall|j: int|
                0 <= j < k ==> i32::MIN <= #[trigger] image_area(images@[j]) <= i32::MAX,
        decreases images.len() - k,
    {
        let w = images[k].width as i64;
        let h = images[k].height as i64;
        assert(-0x4000_0000_0000_0000 <= w * h <= 0x4000_0000_0000_0000) by (nonlinear_arith)
            requires
                -0x8000_0000 <= w <= 0x7fff_ffff,
                -0x8000_0000 <= h <= 0x7fff_ffff,
        ;
        let area = w * h;
        assert(area == image_area(images@[k as int]));
        if area < -0x8000_0000 || area > 0x7fff_ffff {
            return false;
        }
        k = k + 1;
    }
    true
}

/// Whether reading the player state `s` completes (see [`pscstate_readable`]).
pub fn pscstate_is_readable(s: &PSCState) -> (b: bool)
    ensures
        b == pscstate_readable(*s),
{
    if !s.is_playing {
        return true;
    }
    match &s.item {
        Some(PSCItem::Track(t)) => match &t.album {
            AlbumLikeObject::Album(a) => a.images.len() > 0 && images_areas_fit(&a.images),
            AlbumLikeObject::Other => true,
        },
        None => true,
    }
}

/// What the dealer connection is handed on each turn of its loop.
pub enum DealerInput {
    /// A text frame, read as a response (`None` when it is not one).
    Text(Option<Response>),
    /// The server closed the connection.
    Close,
    /// A frame of another kind.
    OtherFrame,
    /// The ping interval elapsed.
    Tick,
}

/// What the dealer connection does next.
#[derive(Debug)]
pub enum DealerAction {
    /// Nothing; wait for the next input.
    Nothing,
    /// Announce this notification.
    Notify(Notify),
    /// Register the player notifications for this connection id.
    ActivateConnection(String),
    /// Send [`Request::Ping`].
    SendPing,
}

/// [`DealerAction`] with its contents taken by view.
pub enum DealerActionView {
    Nothing,
    Notify(NotifyView),
    ActivateConnection(Seq<char>),
    SendPing,
}

impl View for DealerAction {
    type V = DealerActionView;

    open spec fn view(&self) -> DealerActionView {
        match self {
            DealerAction::Nothing => DealerActionView::Nothing,
            DealerAction::Notify(n) => DealerActionView::Notify(n@),
            DealerAction::ActivateConnection(id) => DealerActionView::ActivateConnection(id@),
            DealerAction::SendPing => DealerActionView::SendPing,
        }
    }
}

/// Why the dealer connection ends.
#[derive(Debug, Clone, Copy, PartialEq, Eq)]
pub enum DealerError {
    /// The server closed the connection.
    UnexpectedClose,
    /// A player state held a track whose album is not an album.
    UnexpectedAlbumLikeObject,
    /// A player state could not be read (see [`pscstate_readable`]).
    UnreadablePlayerState,
}

/// A device with this id is among `devices`.
pub open spec fn has_device(devices: Seq<Device>, id: Seq<char>) -> bool {
    exists|k: int| 0 <= k < devices.len() && (#[trigger] devices[k]).id@ == id
}

/// The event a wss event carries: the first event of its first payload.
pub open spec fn first_event(w: WssEvent) -> Option<Event> {
    if w.payloads.len() > 0 && w.payloads@[0].events.len() > 0 {
        Some(w.payloads@[0].events@[0])
    } else {
        None
    }
}

/// How the connection takes a player state: the device it then tracks and what it does.
pub open spec fn take_player_state(playing: PlayingDeviceView, s: PSCState) -> (
    PlayingDeviceView,
    Result<DealerActionView, DealerError>,
) {
    if !pscstate_readable(s) {
        (playing, Err(DealerError::UnreadablePlayerState))
    } else {
        match spec_parse_pscstate(s) {
            Ok((n, p)) => (p, Ok(DealerActionView::Notify(n))),
            Err(_) => (playing, Err(DealerError::UnexpectedAlbumLikeObject)),
        }
    }
}

/// One turn of the dealer connection: the device tracked after `input`, and what it does.
/// A device change announces a pause only when the tracked device is gone; a player
/// state is read and announced, and its device is tracked.
pub open spec fn dealer_step(playing: PlayingDeviceView, input: DealerInput) -> (
    PlayingDeviceView,
    Result<DealerActionView, DealerError>,
) {
    match input {
        DealerInput::Tick => (playing, Ok(DealerActionView::SendPing)),
        DealerInput::Close => (playing, Err(DealerError::UnexpectedClose)),
        DealerInput::OtherFrame => (playing, Ok(DealerActionView::Nothing)),
        DealerInput::Text(None) => (playing, Ok(DealerActionView::Nothing)),
        DealerInput::Text(Some(Response::Pong)) => (playing, Ok(DealerActionView::Nothing)),
        DealerInput::Text(Some(Response::Message(MessageLikeObjects::Put(p)))) => (
            playing,
            Ok(DealerActionView::ActivateConnection(p.headers.spotify_connection_id@)),
        ),
        DealerInput::Text(Some(Response::Message(MessageLikeObjects::WssEvent(w)))) => {
            match first_event(w) {
                None => (playing, Ok(DealerActionView::Nothing)),
                Some(Event::DeviceStateChanged(d)) => match playing {
                    PlayingDeviceView::Playing(id) => if has_device(d.event.devices@, id) {
                        (playing, Ok(DealerActionView::Nothing))
                    } else {
                        (PlayingDeviceView::Paused, Ok(DealerActionView::Notify(NotifyView::Paused)))
                    },
                    PlayingDeviceView::Paused => (playing, Ok(DealerActionView::Nothing)),
                },
                Some(Event::PlayerStateChanged(p)) => take_player_state(playing, p.event.state),
            }
        },
    }
}

/// The view of a step's outcome.
pub open spec fn dealer_result_view(r: Result<DealerAction, DealerError>) -> Result<
    DealerActionView,
    DealerError,
> {
    match r {
        Ok(a) => Ok(a@),
        Err(e) => Err(e),
    }
}

/// Whether a device with id `id` is among `devices`.
fn any_device_has_id(devices: &Vec<Device>, id: &String) -> (b: bool)
    ensures
        b == has_device(devices@, id@),
{
    let mut k: usize = 0;
    while k < devices.len()
        invariant
            k <= devices.len(),
            forall|j: int| 0 <= j < k ==> (#[trigger] devices@[j]).id@ != id@,
        decreases devices.len() - k,
    {
        if devices[k].id == *id {
            return true;
        }
        k = k + 1;
    }
    false
}

/// Takes a player state: reads it, announces it and tracks its device.
fn take_state(playing: &mut PlayingDevice, s: &PSCState) -> (res: Result<DealerAction, DealerError>)
    ensures
        (final(playing)@, dealer_result_view(res)) == take_player_state(old(playing)@, *s),
{
    if !pscstate_is_readable(s) {
        return Err(DealerError::UnreadablePlayerState);
    }
    match parse_pscstate(s) {
        Ok((n, p)) => {
            *playing = p;
            Ok(DealerAction::Notify(n))
        },
        Err(_) => Err(DealerError::UnexpectedAlbumLikeObject),
    }
}

/// Where the dealer connection starts: with the player state fetched when it
/// opened, if there is one, that state is read and announced and its device
/// tracked; without one, nothing is announced and no device is tracked.
pub fn connect_ws_start(initial: Option<&PSCState>) -> (res: Result<
    (Option<Notify>, PlayingDevice),
    DealerError,
>)
    ensures
        initial is None ==> (res matches Ok((None, p)) && p@ == PlayingDeviceView::Paused),
        initial matches Some(s) ==> ({
            let (p, r) = take_player_state(PlayingDeviceView::Paused, *s);
            match res {
                Ok((Some(n), d)) => r == Ok::<DealerActionView, DealerError>(
                    DealerActionView::Notify(n@),
                ) && d@ == p,
                Ok((None, _)) => false,
                Err(e) => r == Err::<DealerActionView, DealerError>(e),
            }
        }),
{
    match initial {
        None => Ok((None, PlayingDevice::Paused)),
        Some(s) => {
            let mut playing = PlayingDevice::Paused;
            match take_state(&mut playing, s) {
                Ok(DealerAction::Notify(n)) => Ok((Some(n), playing)),
                Ok(_) => Ok((None, playing)),
                Err(e) => Err(e),
            }
        },
    }
}

/// One turn of the dealer connection (see [`dealer_step`]): updates the tracked
/// device and says what to do.
pub fn connect_ws_step(playing: &mut PlayingDevice, input: DealerInput) -> (res: Result<
    DealerAction,
    DealerError,
>)
    ensures
        (final(playing)@, dealer_result_view(res)) == dealer_step(old(playing)@, input),
{
    match input {
        DealerInput::Tick => Ok(DealerAction::SendPing),
        DealerInput::Close => Err(DealerError::UnexpectedClose),
        DealerInput::OtherFrame => Ok(DealerAction::Nothing),
        DealerInput::Text(None) => Ok(DealerAction::Nothing),
        DealerInput::Text(Some(Response::Pong)) => Ok(DealerAction::Nothing),
        DealerInput::Text(Some(Response::Message(MessageLikeObjects::Put(p)))) => Ok(
            DealerAction::ActivateConnection(p.headers.spotify_connection_id),
        ),
        DealerInput::Text(Some(Response::Message(MessageLikeObjects::WssEvent(w)))) => {
            if w.payloads.len() == 0 || w.payloads[0].events.len() == 0 {
                return Ok(DealerAction::Nothing);
            }
            match &w.payloads[0].events[0] {
                Event::DeviceStateChanged(d) => {
                    let gone = match &*playing {
                        PlayingDevice::Playing(id) => !any_device_has_id(&d.event.devices, id),
                        PlayingDevice::Paused => false,
                    };
                    if gone {
                        *playing = PlayingDevice::Paused;
                        Ok(DealerAction::Notify(Notify::Paused))
                    } else {
                        Ok(DealerAction::Nothing)
                    }
                },
                Event::PlayerStateChanged(p) => take_state(playing, &p.event.state),
            }
        },
    }
}

/// A device is tracked only while the last announcement was of music playing.
pub open spec fn tracking_consistent(playing: PlayingDeviceView, last: NotifyView) -> bool {
    playing is Playing ==> last is Playing
}

/// The last announcement after a step's outcome.
pub open spec fn announced_after(last: NotifyView, r: Result<DealerActionView, DealerError>) -> NotifyView {
    match r {
        Ok(DealerActionView::Notify(n)) => n,
        _ => last,
    }
}

/// A wss event input.
pub open spec fn wss_input(w: WssEvent) -> DealerInput {
    DealerInput::Text(Some(Response::Message(MessageLikeObjects::WssEvent(w))))
}

/// Reading a player state tracks a device exactly when it announces music playing.
pub proof fn law_parse_tracks_iff_playing(s: PSCState)
    ensures
        spec_parse_pscstate(s) matches Ok((n, p)) ==> (p is Playing <==> n is Playing),
{
}

/// Every turn of the dealer connection keeps this: a device is tracked only
/// while the last announcement was of music playing. It holds at the start,
/// before anything is announced (no device tracked, the state unknown), and
/// after the initial player state is taken.
pub proof fn law_tracking_follows_announcements(
    playing: PlayingDeviceView,
    last: NotifyView,
    input: DealerInput,
)
    requires
        tracking_consistent(playing, last),
    ensures
        tracking_consistent(PlayingDeviceView::Paused, NotifyView::Unknown),
        ({
            let (p, r) = dealer_step(playing, input);
            tracking_consistent(p, announced_after(last, r))
        }),
{
}

/// Once a device change has announced a pause, another device change announces
/// nothing: a vanished device is reported once.
pub proof fn law_pause_announced_once(playing: PlayingDeviceView, w1: WssEvent, w2: WssEvent)
    requires
        first_event(w1) matches Some(Event::DeviceStateChanged(_)),
        first_event(w2) matches Some(Event::DeviceStateChanged(_)),
        dealer_step(playing, wss_input(w1)).1 == Ok::<DealerActionView, DealerError>(
            DealerActionView::Notify(NotifyView::Paused),
        ),
    ensures
        ({
            let p1 = dealer_step(playing, wss_input(w1)).0;
            dealer_step(p1, wss_input(w2)) == (p1, Ok::<DealerActionView, DealerError>(
                DealerActionView::Nothing,
            ))
        }),
{
}

/// While a device is followed, a device change announces a pause, and stops
/// following it, exactly when no device of the event's list (at any position)
/// has its id; otherwise nothing happens and the device is still followed.
/// While no device is followed, a device change does nothing.
pub proof fn law_device_change_pauses_iff_gone(id: Seq<char>, w: WssEvent, d: DeviceStateChanged)
    requires
        first_event(w) == Some(Event::DeviceStateChanged(d)),
    ensures
        (exists|k: int| 0 <= k < d.event.devices.len() && (#[trigger] d.event.devices@[k]).id@ == id)
            ==> dealer_step(PlayingDeviceView::Playing(id), wss_input(w)) == (
            PlayingDeviceView::Playing(id),
            Ok::<DealerActionView, DealerError>(DealerActionView::Nothing),
        ),
        (forall|k: int| 0 <= k < d.event.devices.len() ==> (#[trigger] d.event.devices@[k]).id@ != id)
            ==> dealer_step(PlayingDeviceView::Playing(id), wss_input(w)) == (
            PlayingDeviceView::Paused,
            Ok::<DealerActionView, DealerError>(DealerActionView::Notify(NotifyView::Paused)),
        ),
        dealer_step(PlayingDeviceView::Paused, wss_input(w)) == (
            PlayingDeviceView::Paused,
            Ok::<DealerActionView, DealerError>(DealerActionView::Nothing),
        ),
{
}

/// The dealer connection's answer to each kind of frame, the followed device
/// unchanged unless said: a tick sends a ping; a close ends it with
/// [`DealerError::UnexpectedClose`]; a pong, an unreadable text, another kind
/// of frame, or a wss event without events does nothing; a put registers its
/// own connection id.
pub proof fn law_dealer_frames(playing: PlayingDeviceView, input: DealerInput)
    ensures
        input is Tick ==> dealer_step(playing, input) == (
            playing,
            Ok::<DealerActionView, DealerError>(DealerActionView::SendPing),
        ),
        input is Close ==> dealer_step(playing, input).1 == Err::<DealerActionView, DealerError>(
            DealerError::UnexpectedClose,
        ),
        input is OtherFrame || input == DealerInput::Text(None) || input == DealerInput::Text(
            Some(Response::Pong),
        ) ==> dealer_step(playing, input) == (
            playing,
            Ok::<DealerActionView, DealerError>(DealerActionView::Nothing),
        ),
        input matches DealerInput::Text(Some(Response::Message(MessageLikeObjects::Put(p))))
            ==> dealer_step(playing, input) == (
            playing,
            Ok::<DealerActionView, DealerError>(
                DealerActionView::ActivateConnection(p.headers.spotify_connection_id@),
            ),
        ),
        input matches DealerInput::Text(Some(Response::Message(MessageLikeObjects::WssEvent(w))))
            ==> (w.payloads.len() == 0 || w.payloads@[0].events.len() == 0 ==> dealer_step(
            playing,
            input,
        ) == (playing, Ok::<DealerActionView, DealerError>(DealerActionView::Nothing))),
{
}

/// A readable player state, first event of a wss event, is announced as it
/// reads and its device is then followed; one whose track's album is not an
/// album ends the connection.
pub proof fn law_dealer_player_state(
    playing: PlayingDeviceView,
    w: WssEvent,
    pc: PlayerStateChanged,
)
    requires
        w.payloads.len() > 0,
        w.payloads@[0].events.len() > 0,
        w.payloads@[0].events@[0] == Event::PlayerStateChanged(pc),
        pscstate_readable(pc.event.state),
    ensures
        match spec_parse_pscstate(pc.event.state) {
            Ok((n, p)) => dealer_step(playing, wss_input(w)) == (
                p,
                Ok::<DealerActionView, DealerError>(DealerActionView::Notify(n)),
            ),
            Err(_) => dealer_step(playing, wss_input(w)).1 == Err::<DealerActionView, DealerError>(
                DealerError::UnexpectedAlbumLikeObject,
            ),
        },
{
}

} // verus!
