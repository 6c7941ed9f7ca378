use spotnowplay::obsdriver::format_surely_fills;
use spotnowplay::model;
use spotnowplay::notify_model::{Music, Notify};
use spotnowplay::obsdriver::{
    albumart_for_format, albumart_for_music, albumart_inputs, obsdriver_step, playing_music,
    select_inputs, text_for_format, text_for_music, text_inputs, DriverEvent,
};

fn music() -> Music {
    Music { title: "Song".to_string(), artists: "A, B".to_string(), albumart: "https://img/1".to_string() }
}

fn model_music(title: &str, artists: &str) -> model::Music {
    model::Music { title: title.to_string(), artists: artists.to_string(), albumart: "https://img/2".to_string() }
}

#[test]
fn inputs_are_selected_by_suffix() {
    let names = vec![
        "main obs-spotify.text".to_string(),
        "obs-spotify.albumart".to_string(),
        "camera".to_string(),
        "second obs-spotify.text".to_string(),
    ];
    assert_eq!(text_inputs(&names), vec![0, 3]);
    assert_eq!(albumart_inputs(&names), vec![1]);
    assert_eq!(select_inputs(&names, "camera"), vec![2]);
    assert_eq!(select_inputs(&vec![], "x"), Vec::<usize>::new());
}

#[test]
fn default_template_is_filled() {
    let m = model_music("Song", "A, B");
    assert_eq!(text_for_format("♪%TITLE%/%ARTISTS%", Some(&m)), "♪Song/A, B");
    assert_eq!(text_for_format("♪%TITLE%/%ARTISTS%", None), "");
}

#[test]
fn template_placeholders_are_replaced_everywhere() {
    let m = model_music("T", "R");
    assert_eq!(text_for_format("%TITLE% %TITLE% by %ARTISTS%", Some(&m)), "T T by R");
    assert_eq!(text_for_format("no placeholders", Some(&m)), "no placeholders");
}

#[test]
fn albumart_defaults_to_blank_page() {
    let m = model_music("T", "R");
    assert_eq!(albumart_for_format(Some(&m)), "https://img/2");
    assert_eq!(albumart_for_format(None), "about:blank");
    assert_eq!(albumart_for_music(Some(&music())), "https://img/1");
    assert_eq!(albumart_for_music(None), "about:blank");
}

#[test]
fn now_playing_text_has_note_title_and_artists() {
    assert_eq!(text_for_music(Some(&music())), "♪Song/A, B");
    assert_eq!(text_for_music(None), "");
}

#[test]
fn driver_steps() {
    let a = obsdriver_step(DriverEvent::Shutdown);
    assert!(a.music.is_none() && a.finish);
    let a = obsdriver_step(DriverEvent::Changed(Notify::Playing(music())));
    assert_eq!(a.music, Some(music()));
    assert!(!a.finish);
    let a = obsdriver_step(DriverEvent::Changed(Notify::Paused));
    assert!(a.music.is_none() && !a.finish);
    assert_eq!(playing_music(Notify::Unknown), None);
    assert_eq!(playing_music(Notify::Playing(music())), Some(music()));
}

#[test]
fn filling_surely_completes_for_plain_fields() {
    assert!(format_surely_fills(&model_music("Song", "A, B")));
    assert!(!format_surely_fills(&model_music("%TITLE%", "A")));
    assert!(!format_surely_fills(&model_music("Song", "%ARTISTS% and more")));
}
