use spotnowplay::playback::{after_run, RunDecision, RunEnd};
use spotnowplay::model::Music;
use spotnowplay::playback::{
    albumart_url, music_of_playback, on_playback_state_update, playback_is_readable, Album, Artist,
    Episode, Image, Item, PlaybackState, Track,
};

fn image(w: Option<u32>, h: Option<u32>, url: &str) -> Image {
    Image { width: w, height: h, url: url.to_string() }
}

fn track_state(is_playing: bool) -> PlaybackState {
    PlaybackState {
        is_playing,
        item: Some(Item::Track(Track {
            name: "Song".to_string(),
            artists: vec![Artist { name: "A".to_string() }, Artist { name: "B".to_string() }],
            album: Album {
                images: vec![image(Some(64), Some(64), "small"), image(Some(300), Some(300), "big")],
            },
        })),
    }
}

#[test]
fn track_music_is_read() {
    let m = music_of_playback(Some(&track_state(true))).unwrap();
    assert_eq!(
        m,
        Music { title: "Song".to_string(), artists: "A, B".to_string(), albumart: "big".to_string() }
    );
}

#[test]
fn episode_music_has_no_artists() {
    let s = PlaybackState {
        is_playing: true,
        item: Some(Item::Episode(Episode { name: "Talk".to_string(), images: vec![] })),
    };
    let m = music_of_playback(Some(&s)).unwrap();
    assert_eq!(m.title, "Talk");
    assert_eq!(m.artists, "n/a");
    assert_eq!(m.albumart, "about:blank");
}

#[test]
fn nothing_shown_unless_playing() {
    assert_eq!(music_of_playback(None), None);
    assert_eq!(music_of_playback(Some(&track_state(false))), None);
}

#[test]
fn albumart_unknown_sizes_count_as_zero() {
    let images = vec![image(None, Some(10), "a"), image(Some(1), Some(1), "b"), image(Some(5), None, "c")];
    assert_eq!(albumart_url(&images), "b");
    let images = vec![image(None, None, "a"), image(None, None, "b")];
    assert_eq!(albumart_url(&images), "b");
}

#[test]
fn readability_of_playback_states() {
    assert!(playback_is_readable(None));
    assert!(playback_is_readable(Some(&track_state(true))));
    assert!(playback_is_readable(Some(&PlaybackState { is_playing: false, item: None })));
    assert!(!playback_is_readable(Some(&PlaybackState { is_playing: true, item: None })));
    let huge = PlaybackState {
        is_playing: true,
        item: Some(Item::Episode(Episode {
            name: "x".to_string(),
            images: vec![image(Some(100000), Some(100000), "x")],
        })),
    };
    assert!(!playback_is_readable(Some(&huge)));
}

#[test]
fn obs_updated_only_on_change() {
    let mut held: Option<Music> = None;
    let first = on_playback_state_update(&mut held, Some(&track_state(true)));
    assert!(matches!(first, Some(Some(ref m)) if m.title == "Song"));
    assert_eq!(held.as_ref().map(|m| m.albumart.as_str()), Some("big"));
    assert_eq!(on_playback_state_update(&mut held, Some(&track_state(true))), None);
    assert_eq!(on_playback_state_update(&mut held, Some(&track_state(false))), Some(None));
    assert_eq!(held, None);
    assert_eq!(on_playback_state_update(&mut held, None), None);
}

#[test]
fn only_a_timeout_restarts() {
    assert_eq!(after_run(RunEnd::TimedOut), RunDecision::Restart);
    assert_eq!(after_run(RunEnd::Interrupted), RunDecision::Stop);
    assert_eq!(after_run(RunEnd::Failed), RunDecision::Stop);
}
