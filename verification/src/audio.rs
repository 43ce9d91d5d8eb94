//! Which alert sound a mode plays and where a custom sound is looked for.

use vstd::prelude::*;

use crate::strings::{owned, push_str, string_views};
use crate::types::Mode;

verus! {

/// The sound a mode plays on entry: `attention` for attention, `done` for
/// done, none for the other modes.
pub open spec fn sound_for_mode_spec(mode: Mode) -> Option<Seq<char>> {
    match mode {
        Mode::Attention => Some("attention"@),
        Mode::Done => Some("done"@),
        _ => None,
    }
}

/// The name of the sound a mode plays on entry, if any.
pub fn sound_for_mode(mode: Mode) -> (r: Option<&'static str>)
    ensures
        match r {
            Some(n) => sound_for_mode_spec(mode) == Some(n@),
            None => sound_for_mode_spec(mode) is None,
        },
{
    match mode {
        Mode::Attention => Some("attention"),
        Mode::Done => Some("done"),
        _ => None,
    }
}

/// The custom file names tried for a sound, in order of preference:
/// `m4a`, `mp4`, `mp3`, `wav`, `ogg`.
pub open spec fn sound_file_names_spec(name: Seq<char>) -> Seq<Seq<char>> {
    seq![name + ".m4a"@, name + ".mp4"@, name + ".mp3"@, name + ".wav"@, name + ".ogg"@]
}

fn with_ext(name: &str, ext: &str) -> (r: String)
    ensures
        r@ == name@ + ext@,
{
    let mut r = owned(name);
    push_str(&mut r, ext);
    r
}

/// The file names looked for in the custom directory before the embedded sound.
pub fn sound_file_names(name: &str) -> (r: Vec<String>)
    ensures
        string_views(r@) == sound_file_names_spec(name@),
{
    let mut r: Vec<String> = Vec::new();
    r.push(with_ext(name, ".m4a"));
    r.push(with_ext(name, ".mp4"));
    r.push(with_ext(name, ".mp3"));
    r.push(with_ext(name, ".wav"));
    r.push(with_ext(name, ".ogg"));
    assert(string_views(r@) =~= sound_file_names_spec(name@));
    r
}

} // verus!
