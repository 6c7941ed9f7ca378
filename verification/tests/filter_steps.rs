use spotnowplay::filter::duplicate_filter;
use spotnowplay::notify_model::{Music, Notify};

fn song(t: &str) -> Notify {
    Notify::Playing(Music {
        title: t.to_string(),
        artists: "Band".to_string(),
        albumart: "https://img/1".to_string(),
    })
}

fn run(prev: &mut Notify, inputs: Vec<Notify>) -> Vec<Notify> {
    let mut out = Vec::new();
    for v in inputs {
        if let Some(n) = duplicate_filter(prev, v) {
            out.push(n);
        }
    }
    out
}

#[test]
fn filter_drops_consecutive_duplicates() {
    let mut prev = Notify::Unknown;
    let out = run(
        &mut prev,
        vec![Notify::Unknown, Notify::Paused, Notify::Paused, song("a"), song("a"), Notify::Paused],
    );
    assert_eq!(out, vec![Notify::Paused, song("a"), Notify::Paused]);
    assert_eq!(prev, Notify::Paused);
}

#[test]
fn filter_passes_changed_music() {
    let mut prev = song("a");
    assert_eq!(duplicate_filter(&mut prev, song("b")), Some(song("b")));
    assert_eq!(prev, song("b"));
    assert_eq!(duplicate_filter(&mut prev, song("b")), None);
    assert_eq!(prev, song("b"));
}

#[test]
fn filter_is_idempotent_on_an_example() {
    let inputs = vec![Notify::Paused, Notify::Paused, song("x"), Notify::Unknown, Notify::Unknown];
    let mut p1 = Notify::Unknown;
    let once = run(&mut p1, inputs);
    let mut p2 = Notify::Unknown;
    let twice = run(&mut p2, once.clone());
    assert_eq!(once, twice);
    assert_eq!(once, vec![Notify::Paused, song("x"), Notify::Unknown]);
}
