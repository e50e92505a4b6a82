//! Telling whether a configuration fits a project file.

use crate::apps::tracks::{Cup, Track};
use crate::apps::{CodeStruct, State};
use crate::project::encode::encode_project;
use crate::project::laws::lemma_project_len;
use crate::project::layout::{
    code_encodable, cup_encodable, encodable, text_fits, track_encodable,
};
use crate::text::string_bytes;
use crate::wire::PrefixWidth;
use vstd::prelude::*;

verus! {

/// Whether the UTF-8 form of `text` is short enough for a length of `width`
/// bytes.
pub fn text_fits_prefix(text: &String, width: PrefixWidth) -> (r: bool)
    ensures
        r == text_fits(text@, width),
{
    let n: usize = string_bytes(text).len();
    match width {
        PrefixWidth::One => n < 0x100,
        PrefixWidth::Two => n < 0x1_0000,
        PrefixWidth::Four => (n as u64) < 0x1_0000_0000,
        PrefixWidth::Eight => true,
    }
}

/// Whether every text of the track fits its length field.
pub fn track_fits(track: &Track) -> (r: bool)
    ensures
        r == track_encodable(track@),
{
    text_fits_prefix(&track.name, PrefixWidth::One) && text_fits_prefix(
        &track.author,
        PrefixWidth::One,
    ) && text_fits_prefix(&track.filename, PrefixWidth::One)
}

/// Whether the cup has four tracks and all of it fits its length fields.
pub fn cup_fits(cup: &Cup) -> (r: bool)
    ensures
        r == cup_encodable(cup@),
{
    if !(text_fits_prefix(&cup.name, PrefixWidth::One) && text_fits_prefix(
        &cup.icon.filename,
        PrefixWidth::One,
    )) {
        return false;
    }
    let image_len: usize = cup.icon.image.len();
    if cup.trackset.len() != 4 {
        return false;
    }
    let mut i: usize = 0;
    while i < 4
        invariant
            i <= 4,
            cup.trackset@.len() == 4,
            forall|k: int| 0 <= k < i ==> track_encodable(#[trigger] cup@.tracks[k]),
        decreases 4 - i,
    {
        if !track_fits(&cup.trackset[i]) {
            assert(!track_encodable(cup@.tracks[i as int]));
            return false;
        }
        i += 1;
    }
    true
}

/// Whether the name and every text of the code fit their length fields.
pub fn code_fits(code: &CodeStruct) -> (r: bool)
    ensures
        r == code_encodable(code@),
{
    text_fits_prefix(&code.name, PrefixWidth::Two) && text_fits_prefix(
        &code.code_ntsc,
        PrefixWidth::Four,
    ) && text_fits_prefix(&code.code_pal, PrefixWidth::Four) && text_fits_prefix(
        &code.code_jp,
        PrefixWidth::Four,
    ) && text_fits_prefix(&code.code_kor, PrefixWidth::Four)
}

impl State {
    /// Whether a project file can hold the configuration without loss: a
    /// file written from such a configuration is read back as the same
    /// configuration.
    pub fn fits_project_file(&self) -> (r: bool)
        ensures
            r == encodable(self@),
    {
        let cups = &self.tracks.editor.cups;
        let codes = &self.codes.codes;
        if cups.len() < 1 || cups.len() >= 0x1_0000 || codes.len() < 1 {
            return false;
        }
        let mut i: usize = 0;
        while i < cups.len()
            invariant
                i <= cups@.len(),
                cups == &self.tracks.editor.cups,
                forall|k: int| 0 <= k < i ==> cup_encodable(#[trigger] self@.cups[k]),
            decreases cups@.len() - i,
        {
            if !cup_fits(&cups[i]) {
                assert(!cup_encodable(self@.cups[i as int]));
                return false;
            }
            i += 1;
        }
        let mut j: usize = 0;
        while j < codes.len()
            invariant
                j <= codes@.len(),
                codes == &self.codes.codes,
                forall|k: int| 0 <= k < j ==> code_encodable(#[trigger] self@.codes[k]),
            decreases codes@.len() - j,
        {
            if !code_fits(&codes[j]) {
                assert(!code_encodable(self@.codes[j as int]));
                return false;
            }
            j += 1;
        }
        let size: usize = encode_project(self).len();
        proof {
            lemma_project_len(self@);
        }
        (size as u64) < 0x1_0000_0000
    }
}

} // verus!
