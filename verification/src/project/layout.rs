//! The byte layout of a project file, as a function from the configuration
//! to the bytes that stand for it.

use crate::apps::codes::CodeView;
use crate::apps::tracks::{CupSettings, CupView, TrackView};
use crate::apps::{SettingApp, StateView};
use crate::text::utf8;
use crate::wire::{
    block, bool_byte, i16_bits, i32_bits, i8_bits, padded, padding_len, u16_be, u32_be, u64_be,
    zero_bytes, PrefixWidth,
};
use vstd::prelude::*;

verus! {

/// The format version that this library writes and reads.
pub const FILE_BUILD_NUMBER: u16 = 4;

/// The eight bytes that open a project file: `ZRP0DIB1` in ASCII.
pub open spec fn magic() -> Seq<u8> {
    seq![0x5Au8, 0x52u8, 0x50u8, 0x30u8, 0x44u8, 0x49u8, 0x42u8, 0x31u8]
}

/// The twenty bytes of the settings, before padding: the 200cc switch, the
/// three engine chances in four bytes each, the time trial switch, the
/// presence switch, the block count, the speedometer mode, the blue shell
/// switch and the cloud time in two bytes.
pub open spec fn settings_fields(s: SettingApp) -> Seq<u8> {
    seq![bool_byte(s.toggle_200cc)] + u32_be(i32_bits(s.engine_probs.low)) + u32_be(
        i32_bits(s.engine_probs.mid),
    ) + u32_be(i32_bits(s.engine_probs.high)) + seq![
        bool_byte(s.toggle_ct_tt),
        bool_byte(s.toggle_custom_presence),
        i8_bits(s.prevent_selection_online),
        s.toggle_som.index() as u8,
        bool_byte(s.toggle_drag_blue),
    ] + u16_be(i16_bits(s.time_cloud))
}

/// The settings block: the fields, padded to 16 bytes.
pub open spec fn settings_block(s: SettingApp) -> Seq<u8> {
    padded(settings_fields(s), 16)
}

/// A track: its slot number in eight bytes, name and author as blocks with
/// a one-byte length, one byte each for property, music, the new switch and
/// the group flag, and the file name as a block with a one-byte length.
pub open spec fn track_bytes(t: TrackView) -> Seq<u8> {
    u64_be(t.id as u64) + block(utf8(t.name), PrefixWidth::One) + block(
        utf8(t.author),
        PrefixWidth::One,
    ) + seq![
        t.property.index() as u8,
        t.music.index() as u8,
        bool_byte(t.new),
        t.flag.index() as u8,
    ] + block(utf8(t.filename), PrefixWidth::One)
}

/// The byte form of each track.
pub open spec fn track_parts(tracks: Seq<TrackView>) -> Seq<Seq<u8>> {
    tracks.map_values(|t: TrackView| track_bytes(t))
}

/// The tracks of a cup, one after the other.
pub open spec fn tracks_bytes(tracks: Seq<TrackView>) -> Seq<u8> {
    track_parts(tracks).flatten()
}

/// A cup: its name as a block with a one-byte length, the icon picture as a
/// block with an eight-byte length, the icon's file name as a block with a
/// one-byte length, then its tracks.
pub open spec fn cup_bytes(c: CupView) -> Seq<u8> {
    block(utf8(c.name), PrefixWidth::One) + block(c.icon.image, PrefixWidth::Eight) + block(
        utf8(c.icon.filename),
        PrefixWidth::One,
    ) + tracks_bytes(c.tracks)
}

/// The byte form of each cup.
pub open spec fn cup_parts(cups: Seq<CupView>) -> Seq<Seq<u8>> {
    cups.map_values(|c: CupView| cup_bytes(c))
}

/// The cups of the roster, one after the other.
pub open spec fn cups_bytes(cups: Seq<CupView>) -> Seq<u8> {
    cup_parts(cups).flatten()
}

/// The head of the roster block: the cup switches in one byte, a zero
/// byte, the number of cups in two bytes, padded to 16 bytes.
pub open spec fn roster_header(mode: CupSettings, count: nat) -> Seq<u8> {
    padded(seq![mode.bits() as u8, 0u8] + u16_be((count % 0x1_0000) as u16), 16)
}

/// The roster block: head and cups, padded to 16 bytes.
pub open spec fn roster_block(mode: CupSettings, cups: Seq<CupView>) -> Seq<u8> {
    padded(roster_header(mode, cups.len()) + cups_bytes(cups), 16)
}

/// A cheat code: its name as a block with a two-byte length, then its text
/// for NTSC, PAL, JAP and KOR, each a block with a four-byte length.
pub open spec fn code_bytes(c: CodeView) -> Seq<u8> {
    block(utf8(c.name), PrefixWidth::Two) + block(utf8(c.ntsc), PrefixWidth::Four) + block(
        utf8(c.pal),
        PrefixWidth::Four,
    ) + block(utf8(c.jp), PrefixWidth::Four) + block(utf8(c.kor), PrefixWidth::Four)
}

/// The byte form of each cheat code.
pub open spec fn code_parts(codes: Seq<CodeView>) -> Seq<Seq<u8>> {
    codes.map_values(|c: CodeView| code_bytes(c))
}

/// The cheat codes, one after the other.
pub open spec fn codes_bytes(codes: Seq<CodeView>) -> Seq<u8> {
    code_parts(codes).flatten()
}

/// The size of the cheat payload: head, codes and padding to 16 bytes.
#[verifier::opaque]
pub open spec fn cheat_payload_len(codes: Seq<CodeView>) -> nat {
    8 + codes_bytes(codes).len() + padding_len(8 + codes_bytes(codes).len(), 16)
}

/// The cheat payload: four zero bytes, the size of the whole payload in
/// four bytes, the codes, and zero padding to 16 bytes.
pub open spec fn cheat_payload(codes: Seq<CodeView>) -> Seq<u8> {
    zero_bytes(4) + u32_be((cheat_payload_len(codes) % 0x1_0000_0000) as u32) + codes_bytes(
        codes,
    ) + zero_bytes(padding_len(8 + codes_bytes(codes).len(), 16))
}

/// The size of the whole file.
#[verifier::opaque]
pub open spec fn project_len(m: StateView) -> nat {
    16 + settings_block(m.settings).len() + roster_block(m.mode, m.cups).len() + cheat_payload(
        m.codes,
    ).len()
}

/// The project file of a configuration: the magic, the size of the whole
/// file in four bytes, the version and the cheat switch in two bytes each,
/// then the settings block, the roster block and the cheat payload.
#[verifier::opaque]
pub open spec fn project_bytes(m: StateView) -> Seq<u8> {
    magic() + u32_be((project_len(m) % 0x1_0000_0000) as u32) + u16_be(FILE_BUILD_NUMBER) + u16_be(
        bool_byte(m.cheats_enabled) as u16,
    ) + settings_block(m.settings) + roster_block(m.mode, m.cups) + cheat_payload(m.codes)
}

/// The UTF-8 form of `text` is short enough for a length of `width` bytes.
pub open spec fn text_fits(text: Seq<char>, width: PrefixWidth) -> bool {
    utf8(text).len() < width.limit()
}

/// Every text of the track fits the one byte that holds its length.
pub open spec fn track_encodable(t: TrackView) -> bool {
    &&& text_fits(t.name, PrefixWidth::One)
    &&& text_fits(t.author, PrefixWidth::One)
    &&& text_fits(t.filename, PrefixWidth::One)
}

/// The cup has four tracks, and its texts, its picture and its tracks fit
/// their length fields.
pub open spec fn cup_encodable(c: CupView) -> bool {
    &&& text_fits(c.name, PrefixWidth::One)
    &&& text_fits(c.icon.filename, PrefixWidth::One)
    &&& c.icon.image.len() < PrefixWidth::Eight.limit()
    &&& c.tracks.len() == 4
    &&& forall|i: int| 0 <= i < c.tracks.len() ==> track_encodable(#[trigger] c.tracks[i])
}

/// The name fits two bytes of length and each text four.
pub open spec fn code_encodable(c: CodeView) -> bool {
    &&& text_fits(c.name, PrefixWidth::Two)
    &&& text_fits(c.ntsc, PrefixWidth::Four)
    &&& text_fits(c.pal, PrefixWidth::Four)
    &&& text_fits(c.jp, PrefixWidth::Four)
    &&& text_fits(c.kor, PrefixWidth::Four)
}

/// The configurations that a project file can hold without loss: at least
/// one cup and one code, every length within its field, and the whole file
/// under 4 GiB.
pub open spec fn encodable(m: StateView) -> bool {
    &&& 1 <= m.cups.len() < 0x1_0000
    &&& forall|i: int| 0 <= i < m.cups.len() ==> cup_encodable(#[trigger] m.cups[i])
    &&& 1 <= m.codes.len()
    &&& forall|i: int| 0 <= i < m.codes.len() ==> code_encodable(#[trigger] m.codes[i])
    &&& project_len(m) < 0x1_0000_0000
}

/// The tracks with one more at the end are the tracks, then that one.
pub proof fn lemma_tracks_bytes_push(tracks: Seq<TrackView>, last: TrackView)
    ensures
        tracks_bytes(tracks.push(last)) == tracks_bytes(tracks) + track_bytes(last),
{
    assert(track_parts(tracks.push(last)) =~= track_parts(tracks).push(track_bytes(last)));
    track_parts(tracks).lemma_flatten_push(track_bytes(last));
}

/// Tracks start with their first track; no tracks are no bytes.
pub proof fn lemma_tracks_bytes_front(tracks: Seq<TrackView>)
    ensures
        tracks.len() == 0 ==> tracks_bytes(tracks) == Seq::<u8>::empty(),
        tracks.len() > 0 ==> tracks_bytes(tracks) == track_bytes(tracks[0]) + tracks_bytes(
            tracks.drop_first(),
        ),
{
    if tracks.len() > 0 {
        assert(track_parts(tracks).drop_first() =~= track_parts(tracks.drop_first()));
    }
}

/// The cups with one more at the end are the cups, then that one.
pub proof fn lemma_cups_bytes_push(cups: Seq<CupView>, last: CupView)
    ensures
        cups_bytes(cups.push(last)) == cups_bytes(cups) + cup_bytes(last),
{
    assert(cup_parts(cups.push(last)) =~= cup_parts(cups).push(cup_bytes(last)));
    cup_parts(cups).lemma_flatten_push(cup_bytes(last));
}

/// Cups start with their first cup; no cups are no bytes.
pub proof fn lemma_cups_bytes_front(cups: Seq<CupView>)
    ensures
        cups.len() == 0 ==> cups_bytes(cups) == Seq::<u8>::empty(),
        cups.len() > 0 ==> cups_bytes(cups) == cup_bytes(cups[0]) + cups_bytes(
            cups.drop_first(),
        ),
{
    if cups.len() > 0 {
        assert(cup_parts(cups).drop_first() =~= cup_parts(cups.drop_first()));
    }
}

/// The codes with one more at the end are the codes, then that one.
pub proof fn lemma_codes_bytes_push(codes: Seq<CodeView>, last: CodeView)
    ensures
        codes_bytes(codes.push(last)) == codes_bytes(codes) + code_bytes(last),
{
    assert(code_parts(codes.push(last)) =~= code_parts(codes).push(code_bytes(last)));
    code_parts(codes).lemma_flatten_push(code_bytes(last));
}

/// Codes start with their first code; no codes are no bytes.
pub proof fn lemma_codes_bytes_front(codes: Seq<CodeView>)
    ensures
        codes.len() == 0 ==> codes_bytes(codes) == Seq::<u8>::empty(),
        codes.len() > 0 ==> codes_bytes(codes) == code_bytes(codes[0]) + codes_bytes(
            codes.drop_first(),
        ),
{
    if codes.len() > 0 {
        assert(code_parts(codes).drop_first() =~= code_parts(codes.drop_first()));
    }
}

} // verus!
