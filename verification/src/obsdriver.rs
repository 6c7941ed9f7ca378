//! What is written into OBS: which inputs are updated, the text they show and
//! the album art they load, and how the OBS driver reacts to its inputs.

use vstd::prelude::*;
use crate::model;
use crate::notify_model::{Music, MusicView, Notify};
use crate::text::{
    ends_with, has_suffix, law_no_occurrence_unchanged, lemma_fixpoint_after_one_pass,
    lemma_no_occurrence_split, lemma_replace_each_no_occurrence, lemma_replace_each_split,
    law_fixpoint_is_first_stop, law_surely_terminates, matches_at, occurs_in, replace_each, replace_fixpoint,
    replace_recursively, replace_terminates, replacement_surely_stops, rewrite_n, surely_terminates,
};

verus! {

/// What the OBS driver is told to do by its owner.
#[derive(Debug, Clone, Copy, PartialEq, Eq)]
pub enum ExpectedState {
    Operational,
    GracefulShutdown,
}

/// The names of the inputs that show the text end with this.
pub open spec fn text_input_suffix() -> Seq<char> {
    "obs-spotify.text"@
}

/// The names of the inputs that show the album art end with this.
pub open spec fn albumart_input_suffix() -> Seq<char> {
    "obs-spotify.albumart"@
}

/// The album art shown when no music is playing.
pub open spec fn blank_page() -> Seq<char> {
    "about:blank"@
}

/// `res` lists, in increasing order, exactly the indices of `names` whose name ends with `suffix`.
pub open spec fn selects_suffix(names: Seq<String>, suffix: Seq<char>, res: Seq<usize>) -> bool {
    &&& forall|i: int|
        0 <= i < res.len() ==> #[trigger] res[i] < names.len() && has_suffix(
            names[res[i] as int]@,
            suffix,
        )
    &&& forall|i: int, j: int| 0 <= i < j < res.len() ==> res[i] < res[j]
    &&& forall|k: int|
        0 <= k < names.len() && has_suffix((#[trigger] names[k])@, suffix) ==> res.contains(
            k as usize,
        )
}

/// The indices, in order, of the input names that end with `suffix`.
pub fn select_inputs(names: &Vec<String>, suffix: &str) -> (res: Vec<usize>)
    ensures
        selects_suffix(names@, suffix@, res@),
{
    let mut res: Vec<usize> = Vec::new();
    let mut k: usize = 0;
    while k < names.len()
        invariant
            k <= names.len(),
            forall|i: int| 0 <= i < res.len() ==> #[trigger] res@[i] < k && has_suffix(
                names@[res@[i] as int]@,
                suffix@,
            ),
            forall|i: int, j: int| 0 <= i < j < res.len() ==> res@[i] < res@[j],
            forall|q: int|
                0 <= q < k && has_suffix((#[trigger] names@[q])@, suffix@) ==> res@.contains(
                    q as usize,
                ),
        decreases names.len() - k,
    {
        if ends_with(names[k].as_str(), suffix) {
            let ghost old_res = res@;
            res.push(k);
            assert forall|q: int|
                0 <= q < k + 1 && has_suffix((#[trigger] names@[q])@, suffix@) implies res@.contains(
                q as usize,
            ) by {
                if q < k {
                    let w = choose|w: int| 0 <= w < old_res.len() && old_res[w] == q as usize;
                    assert(res@[w] == q as usize);
                } else {
                    assert(res@[res@.len() - 1] == q as usize);
                }
            }
        }
        k = k + 1;
    }
    res
}

/// The indices, in order, of the inputs that show the text.
pub fn text_inputs(names: &Vec<String>) -> (res: Vec<usize>)
    ensures
        selects_suffix(names@, text_input_suffix(), res@),
{
    select_inputs(names, "obs-spotify.text")
}

/// The indices, in order, of the inputs that show the album art.
pub fn albumart_inputs(names: &Vec<String>) -> (res: Vec<usize>)
    ensures
        selects_suffix(names@, albumart_input_suffix(), res@),
{
    select_inputs(names, "obs-spotify.albumart")
}

/// Filling the template completes: replacing `%TITLE%` by the title, repeatedly,
/// stops, and so does replacing `%ARTISTS%` by the artists in what that gives.
pub open spec fn format_fills(format: Seq<char>, m: MusicView) -> bool {
    &&& replace_terminates(format, "%TITLE%"@, m.title)
    &&& replace_terminates(replace_fixpoint(format, "%TITLE%"@, m.title), "%ARTISTS%"@, m.artists)
}

/// The template with the music's fields filled in.
pub open spec fn filled_format(format: Seq<char>, m: MusicView) -> Seq<char> {
    replace_fixpoint(replace_fixpoint(format, "%TITLE%"@, m.title), "%ARTISTS%"@, m.artists)
}

/// The text shown for `music` with the template `format`: the template with
/// `%TITLE%` replaced by the title until none is left, then `%ARTISTS%` by the
/// artists likewise; empty when nothing plays.
pub fn text_for_format(format: &str, music: Option<&model::Music>) -> (res: String)
    requires
        music matches Some(m) ==> format_fills(format@, m@),
    ensures
        music matches Some(m) ==> res@ == filled_format(format@, m@) && !occurs_in(
            res@,
            "%ARTISTS%"@,
        ),
        music is None ==> res@ == Seq::<char>::empty(),
{
    match music {
        Some(m) => {
            let with_title = replace_recursively(format, "%TITLE%", m.title.as_str());
            replace_recursively(with_title.as_str(), "%ARTISTS%", m.artists.as_str())
        },
        None => String::new(),
    }
}

/// A template without placeholders is shown as it is, whatever the music.
pub proof fn law_template_without_placeholders(format: Seq<char>, m: MusicView)
    requires
        !occurs_in(format, "%TITLE%"@),
        !occurs_in(format, "%ARTISTS%"@),
    ensures
        format_fills(format, m),
        filled_format(format, m) == format,
{
    law_no_occurrence_unchanged(format, "%TITLE%"@, m.title);
    law_no_occurrence_unchanged(format, "%ARTISTS%"@, m.artists);
}

/// The template that OBS is configured with unless told otherwise.
pub open spec fn default_format() -> Seq<char> {
    "♪%TITLE%/%ARTISTS%"@
}

/// The default template shows the same text as the notification driver,
/// "♪title/artists", whenever the fields hold no placeholder that filling
/// would replace: the title neither `%TITLE%` nor `%ARTISTS%`, the artists no
/// `%ARTISTS%`.
pub proof fn law_default_template_shows_fixed_text(m: MusicView)
    requires
        !occurs_in(m.title, "%TITLE%"@),
        !occurs_in(m.title, "%ARTISTS%"@),
        !occurs_in(m.artists, "%ARTISTS%"@),
    ensures
        format_fills(default_format(), m),
        filled_format(default_format(), m) == "♪"@ + m.title + "/"@ + m.artists,
{
    reveal_strlit("♪%TITLE%/%ARTISTS%");
    reveal_strlit("%TITLE%");
    reveal_strlit("%ARTISTS%");
    reveal_strlit("♪");
    reveal_strlit("/");
    let f = default_format();
    let pt = "%TITLE%"@;
    let pa = "%ARTISTS%"@;
    let t = m.title;
    let a = m.artists;
    let note = '♪';
    let slash = '/';
    let empty = Seq::<char>::empty();
    assert(!pt.contains(slash) && !pt.contains(note)) by {
        assert forall|k: int| 0 <= k < pt.len() implies pt[k] != slash && pt[k] != note by {}
    }
    assert(!pa.contains(slash) && !pa.contains(note)) by {
        assert forall|k: int| 0 <= k < pa.len() implies pa[k] != slash && pa[k] != note by {}
    }
    // The template is "♪", the title placeholder, "/" and the artists placeholder.
    assert(f =~= (empty + seq![note] + pt) + seq![slash] + pa);
    assert(!occurs_in(empty, pt) && !occurs_in(empty, pa)) by {
        assert forall|i: int| !matches_at(empty, pt, i) && !matches_at(empty, pa, i) by {}
    }
    assert(!occurs_in(pa, pt)) by {
        assert forall|i: int| !matches_at(pa, pt, i) by {
            if 0 <= i && i + pt.len() <= pa.len() {
                if i == 0 {
                    assert(pa.subrange(i, i + pt.len())[1] != pt[1]);
                } else {
                    assert(pa.subrange(i, i + pt.len())[0] != pt[0]);
                }
            }
        }
    }
    // First pass: the title placeholder is replaced.
    assert(pt.subrange(0, pt.len() as int) =~= pt);
    assert(pt.subrange(pt.len() as int, pt.len() as int) =~= empty);
    assert(replace_each(pt, pt, t) == t + replace_each(empty, pt, t));
    lemma_replace_each_split(empty, note, pt, pt, t);
    lemma_replace_each_split(empty + seq![note] + pt, slash, pa, pt, t);
    lemma_replace_each_no_occurrence(pa, pt, t);
    let r1 = (empty + seq![note] + t) + seq![slash] + pa;
    assert(replace_each(f, pt, t) =~= r1);
    lemma_no_occurrence_split(empty, note, t, pt);
    lemma_no_occurrence_split(empty + seq![note] + t, slash, pa, pt);
    assert(f.subrange(1, 1 + pt.len() as int) =~= pt);
    assert(matches_at(f, pt, 1));
    lemma_fixpoint_after_one_pass(f, pt, t);
    // Second pass: the artists placeholder is replaced.
    assert(pa.subrange(0, pa.len() as int) =~= pa);
    assert(pa.subrange(pa.len() as int, pa.len() as int) =~= empty);
    assert(replace_each(pa, pa, a) == a + replace_each(empty, pa, a));
    lemma_no_occurrence_split(empty, note, t, pa);
    lemma_replace_each_no_occurrence(empty + seq![note] + t, pa, a);
    lemma_replace_each_split(empty + seq![note] + t, slash, pa, pa, a);
    let r2 = (empty + seq![note] + t) + seq![slash] + a;
    assert(replace_each(r1, pa, a) =~= r2);
    lemma_no_occurrence_split(empty + seq![note] + t, slash, a, pa);
    let k: int = t.len() as int + 2;
    assert(r1.subrange(k, k + pa.len() as int) =~= pa);
    assert(matches_at(r1, pa, k));
    lemma_fixpoint_after_one_pass(r1, pa, a);
    assert(r2 =~= "♪"@ + t + "/"@ + a);
}

/// Filling surely completes for `m`, whatever the template: replacing
/// `%TITLE%` by the title surely stops, and so does replacing `%ARTISTS%` by
/// the artists (see [`surely_terminates`]).
pub open spec fn music_surely_fills(m: MusicView) -> bool {
    surely_terminates("%TITLE%"@, m.title) && surely_terminates("%ARTISTS%"@, m.artists)
}

/// Where filling surely completes for the music, it completes for every template.
pub proof fn law_fills_when_replacements_stop(format: Seq<char>, m: MusicView)
    requires
        music_surely_fills(m),
    ensures
        format_fills(format, m),
{
    law_surely_terminates(format, "%TITLE%"@, m.title);
    law_surely_terminates(replace_fixpoint(format, "%TITLE%"@, m.title), "%ARTISTS%"@, m.artists);
}

/// Whether filling surely completes for `music` (see [`music_surely_fills`]);
/// where it does, [`text_for_format`] may be called with any template.
pub fn format_surely_fills(music: &model::Music) -> (b: bool)
    ensures
        b == music_surely_fills(music@),
{
    replacement_surely_stops("%TITLE%", music.title.as_str()) && replacement_surely_stops(
        "%ARTISTS%",
        music.artists.as_str(),
    )
}

/// Filling a template is two rounds of passes of single-pass replacement: first
/// `%TITLE%` by the title, pass after pass until `%TITLE%` no longer occurs
/// (after `n1` passes, and it still occurred before each), then `%ARTISTS%` by
/// the artists in that text likewise (after `n2` passes); the text shown is the
/// result, in which `%ARTISTS%` does not occur.
pub proof fn law_text_fills_in_passes(format: Seq<char>, m: MusicView) -> (ns: (nat, nat))
    requires
        format_fills(format, m),
    ensures
        ({
            let (n1, n2) = ns;
            let mid = rewrite_n(format, "%TITLE%"@, m.title, n1);
            &&& !occurs_in(mid, "%TITLE%"@)
            &&& forall|j: nat| j < n1 ==> occurs_in(#[trigger] rewrite_n(format, "%TITLE%"@, m.title, j), "%TITLE%"@)
            &&& filled_format(format, m) == rewrite_n(mid, "%ARTISTS%"@, m.artists, n2)
            &&& !occurs_in(filled_format(format, m), "%ARTISTS%"@)
            &&& forall|j: nat| j < n2 ==> occurs_in(#[trigger] rewrite_n(mid, "%ARTISTS%"@, m.artists, j), "%ARTISTS%"@)
        }),
{
    let n1 = law_fixpoint_is_first_stop(format, "%TITLE%"@, m.title);
    let mid = replace_fixpoint(format, "%TITLE%"@, m.title);
    let n2 = law_fixpoint_is_first_stop(mid, "%ARTISTS%"@, m.artists);
    (n1, n2)
}

/// The album art shown for `music`: its url, or a blank page when nothing plays.
pub fn albumart_for_format(music: Option<&model::Music>) -> (res: String)
    ensures
        music matches Some(m) ==> res@ == m.albumart@,
        music is None ==> res@ == blank_page(),
{
    match music {
        Some(m) => m.albumart.clone(),
        None => String::from_str("about:blank"),
    }
}

/// The text shown for `music`: "♪", the title, "/" and the artists; empty when
/// nothing plays.
pub fn text_for_music(music: Option<&Music>) -> (res: String)
    ensures
        music matches Some(m) ==> res@ == "♪"@ + m.title@ + "/"@ + m.artists@,
        music is None ==> res@ == Seq::<char>::empty(),
{
    match music {
        Some(m) => {
            let mut t = String::from_str("♪");
            t.append(m.title.as_str());
            t.append("/");
            t.append(m.artists.as_str());
            t
        },
        None => String::new(),
    }
}

/// The album art shown for `music`: its url, or a blank page when nothing plays.
pub fn albumart_for_music(music: Option<&Music>) -> (res: String)
    ensures
        music matches Some(m) ==> res@ == m.albumart@,
        music is None ==> res@ == blank_page(),
{
    match music {
        Some(m) => m.albumart.clone(),
        None => String::from_str("about:blank"),
    }
}

/// The music a notification shows: its music when playing, none otherwise.
pub fn playing_music(n: Notify) -> (res: Option<Music>)
    ensures
        n matches Notify::Playing(m) ==> res == Some(m),
        !(n is Playing) ==> res is None,
{
    match n {
        Notify::Playing(m) => Some(m),
        _ => None,
    }
}

/// What the OBS driver is handed on each turn of its loop.
pub enum DriverEvent {
    /// The owner asked it to stop.
    Shutdown,
    /// A new notification arrived.
    Changed(Notify),
}

/// What the OBS driver does: update OBS with this music (none: clear it), then stop or go on.
pub struct DriverAction {
    pub music: Option<Music>,
    pub finish: bool,
}

/// One turn of the OBS driver: on shutdown it clears OBS and stops; on a
/// notification it shows the music playing (or clears OBS) and goes on.
pub fn obsdriver_step(ev: DriverEvent) -> (res: DriverAction)
    ensures
        ev is Shutdown ==> res.music is None && res.finish,
        ev matches DriverEvent::Changed(Notify::Playing(m)) ==> res.music == Some(m) && !res.finish,
        ev matches DriverEvent::Changed(n) ==> (!(n is Playing) ==> res.music is None
            && !res.finish),
{
    match ev {
        DriverEvent::Shutdown => DriverAction { music: None, finish: true },
        DriverEvent::Changed(n) => DriverAction { music: playing_music(n), finish: false },
    }
}

} // verus!
