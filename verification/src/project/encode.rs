//! Writing a project file.

use crate::apps::codes::CodeView;
use crate::apps::tracks::{Cup, CupView, Track, TrackDefinition, TrackView};
use crate::apps::{CheatCodeApp, CodeStruct, SettingApp, State, StateView};
use crate::project::laws::lemma_project_round_trip;
use crate::project::layout::{
    cheat_payload, cheat_payload_len, code_bytes, codes_bytes, cup_bytes, cups_bytes, encodable,
    lemma_codes_bytes_push, lemma_cups_bytes_push, lemma_tracks_bytes_push, magic,
    project_bytes, project_len, roster_block, roster_header, settings_block, settings_fields,
    track_bytes, tracks_bytes, FILE_BUILD_NUMBER,
};
use crate::project::parse::{parse_project, DecodeError};
use crate::text::{string_bytes, utf8};
use crate::wire::{
    append_bytes, block, bool_byte, i16_bits, i16_to_bits, i32_bits, i32_to_bits, i8_to_bits,
    lemma_padded, lemma_u16_be_round_trip, lemma_u32_be_round_trip, pad_to, padding_len, u16_be,
    u32_be, write_length_prefixed_bytes, write_u16_be, write_u32_be, write_u64_be, zero_bytes,
    zeros, PrefixWidth,
};
use vstd::prelude::*;

verus! {

/// The byte that stands for a truth value.
pub fn bool_to_byte(b: bool) -> (v: u8)
    ensures
        v == bool_byte(b),
{
    if b {
        1
    } else {
        0
    }
}

/// Appends `text` as a block whose length takes `width` bytes.
pub fn write_text(buf: &mut Vec<u8>, text: &String, width: PrefixWidth)
    ensures
        final(buf)@ == old(buf)@ + block(utf8(text@), width),
{
    write_length_prefixed_bytes(buf, string_bytes(text), width);
}

/// The settings block: twenty bytes of fields, padded to 32.
pub fn encode_settings(s: &SettingApp) -> (pl: Vec<u8>)
    ensures
        pl@ == settings_block(*s),
        pl@.len() == 32,
        pl@.subrange(0, 20) == settings_fields(*s),
{
    let mut pl: Vec<u8> = Vec::new();
    pl.push(bool_to_byte(s.toggle_200cc));
    write_u32_be(&mut pl, i32_to_bits(s.engine_probs.low));
    write_u32_be(&mut pl, i32_to_bits(s.engine_probs.mid));
    write_u32_be(&mut pl, i32_to_bits(s.engine_probs.high));
    pl.push(bool_to_byte(s.toggle_ct_tt));
    pl.push(bool_to_byte(s.toggle_custom_presence));
    pl.push(i8_to_bits(s.prevent_selection_online));
    pl.push(s.toggle_som.to_u8());
    pl.push(bool_to_byte(s.toggle_drag_blue));
    write_u16_be(&mut pl, i16_to_bits(s.time_cloud));
    assert(pl@ =~= settings_fields(*s));
    proof {
        lemma_u32_be_round_trip(i32_bits(s.engine_probs.low));
        lemma_u32_be_round_trip(i32_bits(s.engine_probs.mid));
        lemma_u32_be_round_trip(i32_bits(s.engine_probs.high));
        lemma_u16_be_round_trip(i16_bits(s.time_cloud));
        lemma_padded(pl@, 16);
    }
    pad_to(&mut pl, 16);
    pl
}

/// Appends one track.
pub fn write_track(buf: &mut Vec<u8>, track: &Track)
    ensures
        final(buf)@ == old(buf)@ + track_bytes(track@),
{
    write_u64_be(buf, track.id as u64);
    write_text(buf, &track.name, PrefixWidth::One);
    write_text(buf, &track.author, PrefixWidth::One);
    buf.push(track.property.to_u8());
    buf.push(track.music.to_u8());
    buf.push(bool_to_byte(track.new));
    buf.push(track.flag.to_u8());
    write_text(buf, &track.filename, PrefixWidth::One);
    assert(buf@ =~= old(buf)@ + track_bytes(track@));
}

/// Appends one cup with its tracks.
pub fn write_cup(buf: &mut Vec<u8>, cup: &Cup)
    ensures
        final(buf)@ == old(buf)@ + cup_bytes(cup@),
{
    write_text(buf, &cup.name, PrefixWidth::One);
    write_length_prefixed_bytes(buf, cup.icon.image.as_slice(), PrefixWidth::Eight);
    write_text(buf, &cup.icon.filename, PrefixWidth::One);
    let ghost head = buf@;
    let n: usize = cup.trackset.len();
    let mut i: usize = 0;
    assert(cup@.tracks.take(0) =~= Seq::<TrackView>::empty());
    while i < n
        invariant
            i <= n,
            n == cup.trackset@.len(),
            buf@ == head + tracks_bytes(cup@.tracks.take(i as int)),
        decreases n - i,
    {
        write_track(buf, &cup.trackset[i]);
        proof {
            lemma_tracks_bytes_push(cup@.tracks.take(i as int), cup.trackset@[i as int]@);
            assert(cup@.tracks.take(i + 1) =~= cup@.tracks.take(i as int).push(
                cup.trackset@[i as int]@,
            ));
        }
        i += 1;
    }
    assert(cup@.tracks.take(n as int) =~= cup@.tracks);
    assert(buf@ =~= old(buf)@ + cup_bytes(cup@));
}

/// The roster block: the cup switches, the number of cups, and every cup
/// with its tracks.
pub fn encode_cups(c: &TrackDefinition) -> (pl: Vec<u8>)
    ensures
        pl@ == roster_block(c.mode, c@),
{
    let mut pl: Vec<u8> = Vec::new();
    pl.push(c.mode.to_u8());
    pl.push(0);
    let n: usize = c.cups.len();
    write_u16_be(&mut pl, (n % 0x1_0000) as u16);
    assert(pl@ =~= seq![c.mode.bits() as u8, 0u8] + u16_be((n as nat % 0x1_0000) as u16));
    pad_to(&mut pl, 16);
    let ghost head = pl@;
    let mut i: usize = 0;
    assert(c@.take(0) =~= Seq::<CupView>::empty());
    while i < n
        invariant
            i <= n,
            n == c.cups@.len(),
            head == roster_header(c.mode, n as nat),
            pl@ == head + cups_bytes(c@.take(i as int)),
        decreases n - i,
    {
        write_cup(&mut pl, &c.cups[i]);
        proof {
            lemma_cups_bytes_push(c@.take(i as int), c.cups@[i as int]@);
            assert(c@.take(i + 1) =~= c@.take(i as int).push(c.cups@[i as int]@));
        }
        i += 1;
    }
    assert(c@.take(n as int) =~= c@);
    pad_to(&mut pl, 16);
    pl
}

/// Appends one cheat code.
pub fn write_code(buf: &mut Vec<u8>, code: &CodeStruct)
    ensures
        final(buf)@ == old(buf)@ + code_bytes(code@),
{
    write_text(buf, &code.name, PrefixWidth::Two);
    write_text(buf, &code.code_ntsc, PrefixWidth::Four);
    write_text(buf, &code.code_pal, PrefixWidth::Four);
    write_text(buf, &code.code_jp, PrefixWidth::Four);
    write_text(buf, &code.code_kor, PrefixWidth::Four);
    assert(buf@ =~= old(buf)@ + code_bytes(code@));
}

/// Overwrites the four bytes of `buf` from `at` on with `v`, big-endian.
pub fn patch_u32_be(buf: &mut Vec<u8>, at: usize, v: u32)
    requires
        at + 4 <= old(buf)@.len(),
    ensures
        final(buf)@ == old(buf)@.subrange(0, at as int) + u32_be(v) + old(buf)@.subrange(
            at + 4,
            old(buf)@.len() as int,
        ),
{
    assert(at + 4 <= buf.len());
    buf.set(at, (v / 16777216) as u8);
    buf.set(at + 1, ((v / 65536) % 256) as u8);
    buf.set(at + 2, ((v / 256) % 256) as u8);
    buf.set(at + 3, (v % 256) as u8);
    proof {
        reveal(u32_be);
    }
    assert(buf@ =~= old(buf)@.subrange(0, at as int) + u32_be(v) + old(buf)@.subrange(
        at + 4,
        old(buf)@.len() as int,
    ));
}

/// The cheat switch as the two bytes of the header, and the cheat payload.
/// The payload is built with its length left open and the length is filled
/// in once the payload is complete.
pub fn encode_cheats(c: &CheatCodeApp) -> (out: (Vec<u8>, Vec<u8>))
    ensures
        out.0@ == u16_be(bool_byte(c.enabled) as u16),
        out.1@ == cheat_payload(c@),
{
    proof {
        reveal(cheat_payload_len);
        reveal(padding_len);
    }
    let mut flag: Vec<u8> = Vec::new();
    write_u16_be(&mut flag, bool_to_byte(c.enabled()) as u16);
    let mut pl: Vec<u8> = zeros(8);
    let n: usize = c.codes.len();
    let mut i: usize = 0;
    assert(c@.take(0) =~= Seq::<CodeView>::empty());
    while i < n
        invariant
            i <= n,
            n == c.codes@.len(),
            pl@ == zero_bytes(8) + codes_bytes(c@.take(i as int)),
        decreases n - i,
    {
        write_code(&mut pl, &c.codes[i]);
        proof {
            lemma_codes_bytes_push(c@.take(i as int), c.codes@[i as int]@);
            assert(c@.take(i + 1) =~= c@.take(i as int).push(c.codes@[i as int]@));
        }
        i += 1;
    }
    assert(c@.take(n as int) =~= c@);
    pad_to(&mut pl, 16);
    let len: usize = pl.len();
    assert(len == cheat_payload_len(c@));
    patch_u32_be(&mut pl, 4, ((len as u64) % 0x1_0000_0000) as u32);
    assert(pl@ =~= cheat_payload(c@));
    (flag, pl)
}

/// Appends the eight bytes of the magic.
pub fn write_magic(buf: &mut Vec<u8>)
    ensures
        final(buf)@ == old(buf)@ + magic(),
{
    buf.push(0x5A);
    buf.push(0x52);
    buf.push(0x50);
    buf.push(0x30);
    buf.push(0x44);
    buf.push(0x49);
    buf.push(0x42);
    buf.push(0x31);
    assert(buf@ =~= old(buf)@ + magic());
}

/// The project file of `state`. The selections of the editor are not part
/// of the file. Where the configuration fits the file format, the file is
/// read back as that configuration.
pub fn encode_project(state: &State) -> (m: Vec<u8>)
    ensures
        m@ == project_bytes(state@),
        encodable(state@) ==> parse_project(m@) == Ok::<StateView, DecodeError>(state@),
{
    let setting = encode_settings(&state.settings);
    let cheats = encode_cheats(&state.codes);
    let cup = encode_cups(&state.tracks.editor);
    let mut rest: Vec<u8> = Vec::new();
    write_u16_be(&mut rest, FILE_BUILD_NUMBER);
    append_bytes(&mut rest, cheats.0.as_slice());
    append_bytes(&mut rest, setting.as_slice());
    append_bytes(&mut rest, cup.as_slice());
    append_bytes(&mut rest, cheats.1.as_slice());
    let total: u128 = 12 + rest.len() as u128;
    proof {
        reveal(project_bytes);
        reveal(project_len);
        lemma_u16_be_round_trip(FILE_BUILD_NUMBER);
        lemma_u16_be_round_trip(bool_byte(state.codes.enabled) as u16);
        lemma_u32_be_round_trip((total % 0x1_0000_0000) as u32);
    }
    assert(total == project_len(state@));
    let mut m: Vec<u8> = Vec::new();
    write_magic(&mut m);
    write_u32_be(&mut m, (total % 0x1_0000_0000) as u32);
    append_bytes(&mut m, rest.as_slice());
    assert(m@ =~= project_bytes(state@));
    proof {
        if encodable(state@) {
            lemma_project_round_trip(state@);
        }
    }
    m
}

} // verus!
