use spotnowplay::notify_model::{Music, Notify};
use spotnowplay::spotifyapi::{
    connect_ws_start, connect_ws_step, largest_image_index, parse_pscstate, pscstate_is_readable,
    Album, AlbumLikeObject, Artist, ArtistLikeObject, DSCEvent, DealerAction, DealerError,
    DealerInput, Device, DeviceStateChanged, Event, Image, MessageLikeObjects, PSCEvent, PSCItem,
    PSCState, Payload, PlayerStateChanged, PlayingDevice, PscError, Put, PutHeader, Response,
    Track, WssEvent,
};
use spotnowplay::spotifyws::{fetch_step, FetchAction};

fn image(w: i32, h: i32, url: &str) -> Image {
    Image { width: w, height: h, url: url.to_string() }
}

fn track(album: AlbumLikeObject) -> Track {
    Track {
        name: "Song".to_string(),
        artists: vec![
            ArtistLikeObject::Artist(Artist { name: "A".to_string() }),
            ArtistLikeObject::Artist(Artist { name: "B".to_string() }),
        ],
        album,
    }
}

fn album(images: Vec<Image>) -> AlbumLikeObject {
    AlbumLikeObject::Album(Album { images })
}

fn state(is_playing: bool, item: Option<PSCItem>, device: &str) -> PSCState {
    PSCState { item, is_playing, device: Device { id: device.to_string() } }
}

fn playing_state(device: &str) -> PSCState {
    state(
        true,
        Some(PSCItem::Track(track(album(vec![image(64, 64, "small"), image(640, 640, "large")])))),
        device,
    )
}

fn wss(event: Event) -> DealerInput {
    DealerInput::Text(Some(Response::Message(MessageLikeObjects::WssEvent(WssEvent {
        payloads: vec![Payload { events: vec![event] }],
    }))))
}

fn devices_changed(ids: &[&str]) -> DealerInput {
    wss(Event::DeviceStateChanged(DeviceStateChanged {
        event: DSCEvent { devices: ids.iter().map(|i| Device { id: i.to_string() }).collect() },
    }))
}

fn player_changed(s: PSCState) -> DealerInput {
    wss(Event::PlayerStateChanged(PlayerStateChanged { event: PSCEvent { state: s } }))
}

#[test]
fn parse_pscstate_not_playing_is_paused() {
    let r = parse_pscstate(&state(false, None, "d")).unwrap();
    assert_eq!(r.0, Notify::Paused);
    assert!(matches!(r.1, PlayingDevice::Paused));
}

#[test]
fn parse_pscstate_without_item_is_unknown() {
    let r = parse_pscstate(&state(true, None, "d")).unwrap();
    assert_eq!(r.0, Notify::Unknown);
    assert!(matches!(r.1, PlayingDevice::Paused));
}

#[test]
fn parse_pscstate_rejects_other_album() {
    let s = state(true, Some(PSCItem::Track(track(AlbumLikeObject::Other))), "d");
    assert_eq!(parse_pscstate(&s).unwrap_err(), PscError::UnexpectedAlbumLikeObject);
}

#[test]
fn parse_pscstate_reads_track() {
    let s = state(
        true,
        Some(PSCItem::Track(track(album(vec![
            image(64, 64, "s"),
            image(640, 640, "l1"),
            image(300, 300, "m"),
            image(640, 640, "l2"),
        ])))),
        "device-1",
    );
    let (n, p) = parse_pscstate(&s).unwrap();
    assert_eq!(
        n,
        Notify::Playing(Music {
            title: "Song".to_string(),
            artists: "A, B".to_string(),
            albumart: "l2".to_string(),
        })
    );
    match p {
        PlayingDevice::Playing(id) => assert_eq!(id, "device-1"),
        PlayingDevice::Paused => panic!("expected a playing device"),
    }
}

#[test]
fn largest_image_is_last_among_equals() {
    let images = vec![image(2, 3, "a"), image(3, 2, "b"), image(1, 1, "c")];
    assert_eq!(largest_image_index(&images), 1);
    let images = vec![image(-5, 2, "neg"), image(0, 0, "zero")];
    assert_eq!(largest_image_index(&images), 1);
}

#[test]
fn readability_of_player_states() {
    assert!(pscstate_is_readable(&playing_state("d")));
    assert!(pscstate_is_readable(&state(false, Some(PSCItem::Track(track(album(vec![])))), "d")));
    assert!(!pscstate_is_readable(&state(true, Some(PSCItem::Track(track(album(vec![])))), "d")));
    let huge = state(true, Some(PSCItem::Track(track(album(vec![image(100000, 100000, "x")])))), "d");
    assert!(!pscstate_is_readable(&huge));
}

#[test]
fn dealer_tracks_device_of_player_state() {
    let mut playing = PlayingDevice::Paused;
    match connect_ws_step(&mut playing, player_changed(playing_state("dev"))) {
        Ok(DealerAction::Notify(Notify::Playing(m))) => {
            assert_eq!(m.title, "Song");
            assert_eq!(m.artists, "A, B");
            assert_eq!(m.albumart, "large");
        }
        other => panic!("unexpected {:?}", other),
    }
    assert!(matches!(&playing, PlayingDevice::Playing(id) if id == "dev"));
}

#[test]
fn dealer_announces_pause_once_when_device_vanishes() {
    let mut playing = PlayingDevice::Playing("dev".to_string());
    assert!(matches!(
        connect_ws_step(&mut playing, devices_changed(&["dev", "other"])),
        Ok(DealerAction::Nothing)
    ));
    assert!(matches!(&playing, PlayingDevice::Playing(_)));
    assert!(matches!(
        connect_ws_step(&mut playing, devices_changed(&["other"])),
        Ok(DealerAction::Notify(Notify::Paused))
    ));
    assert!(matches!(playing, PlayingDevice::Paused));
    assert!(matches!(
        connect_ws_step(&mut playing, devices_changed(&[])),
        Ok(DealerAction::Nothing)
    ));
}

#[test]
fn dealer_handles_frames() {
    let mut playing = PlayingDevice::Paused;
    assert!(matches!(connect_ws_step(&mut playing, DealerInput::Tick), Ok(DealerAction::SendPing)));
    assert!(matches!(connect_ws_step(&mut playing, DealerInput::OtherFrame), Ok(DealerAction::Nothing)));
    assert!(matches!(connect_ws_step(&mut playing, DealerInput::Text(None)), Ok(DealerAction::Nothing)));
    assert!(matches!(
        connect_ws_step(&mut playing, DealerInput::Text(Some(Response::Pong))),
        Ok(DealerAction::Nothing)
    ));
    assert!(matches!(
        connect_ws_step(&mut playing, DealerInput::Close),
        Err(DealerError::UnexpectedClose)
    ));
    let put = DealerInput::Text(Some(Response::Message(MessageLikeObjects::Put(Put {
        headers: PutHeader { spotify_connection_id: "conn-7".to_string() },
    }))));
    match connect_ws_step(&mut playing, put) {
        Ok(DealerAction::ActivateConnection(id)) => assert_eq!(id, "conn-7"),
        other => panic!("unexpected {:?}", other),
    }
    let empty = DealerInput::Text(Some(Response::Message(MessageLikeObjects::WssEvent(WssEvent {
        payloads: vec![],
    }))));
    assert!(matches!(connect_ws_step(&mut playing, empty), Ok(DealerAction::Nothing)));
}

#[test]
fn dealer_errors_on_bad_player_states() {
    let mut playing = PlayingDevice::Playing("keep".to_string());
    let other = state(true, Some(PSCItem::Track(track(AlbumLikeObject::Other))), "d");
    assert!(matches!(
        connect_ws_step(&mut playing, player_changed(other)),
        Err(DealerError::UnexpectedAlbumLikeObject)
    ));
    let no_images = state(true, Some(PSCItem::Track(track(album(vec![])))), "d");
    assert!(matches!(
        connect_ws_step(&mut playing, player_changed(no_images)),
        Err(DealerError::UnreadablePlayerState)
    ));
    assert!(matches!(&playing, PlayingDevice::Playing(id) if id == "keep"));
}

#[test]
fn dealer_start_reads_initial_state() {
    let (n, p) = connect_ws_start(None).unwrap();
    assert!(n.is_none());
    assert!(matches!(p, PlayingDevice::Paused));
    let s = state(false, None, "d");
    let (n, p) = connect_ws_start(Some(&s)).unwrap();
    assert_eq!(n, Some(Notify::Paused));
    assert!(matches!(p, PlayingDevice::Paused));
    let s = playing_state("dev");
    let (n, p) = connect_ws_start(Some(&s)).unwrap();
    assert!(matches!(n, Some(Notify::Playing(_))));
    assert!(matches!(&p, PlayingDevice::Playing(id) if id == "dev"));
}

#[test]
fn fetch_forwards_events_and_answers_requests() {
    assert!(matches!(fetch_step(DealerInput::Tick), FetchAction::SendPing));
    assert!(matches!(fetch_step(DealerInput::Close), FetchAction::Abort));
    assert!(matches!(fetch_step(DealerInput::OtherFrame), FetchAction::Nothing));
    assert!(matches!(fetch_step(DealerInput::Text(None)), FetchAction::Nothing));
    assert!(matches!(fetch_step(DealerInput::Text(Some(Response::Pong))), FetchAction::Nothing));
    match fetch_step(devices_changed(&["x"])) {
        FetchAction::Forward(w) => assert_eq!(w.payloads.len(), 1),
        other => panic!("unexpected {:?}", other),
    }
    let put = DealerInput::Text(Some(Response::Message(MessageLikeObjects::Put(Put {
        headers: PutHeader { spotify_connection_id: "c".to_string() },
    }))));
    assert!(matches!(fetch_step(put), FetchAction::ActivateConnection(id) if id == "c"));
}
