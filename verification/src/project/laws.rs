//! What holds of writing and reading together: a project file that was
//! written is read back as the configuration it was written from, and a
//! file that was cut short or whose magic was damaged is refused.

use crate::apps::codes::CodeView;
use crate::apps::ids::Id;
use crate::apps::tracks::{CupSettings, CupView, GroupFlag, TrackView};
use crate::apps::{SettingApp, StateView};
use crate::project::layout::{
    cheat_payload, cheat_payload_len, code_bytes, code_encodable, codes_bytes, cup_bytes,
    cup_encodable, cups_bytes, encodable, lemma_codes_bytes_front, lemma_cups_bytes_front,
    lemma_tracks_bytes_front, magic, project_bytes, project_len, roster_block, roster_header,
    settings_block, settings_fields, text_fits, track_bytes, track_encodable, tracks_bytes,
    FILE_BUILD_NUMBER,
};
use crate::project::parse::{
    parse_cheats, parse_code, parse_codes, parse_cup, parse_cups, parse_project, parse_roster,
    parse_settings, parse_text, parse_track, parse_track_bytes, parse_tracks, read_block,
    DecodeError,
};
use crate::text::{lemma_text_round_trip, utf8};
use crate::wire::{
    block, bool_byte, holds_at, i16_bits, i32_bits, i8_bits, lemma_block_parts,
    lemma_holds_at_index, lemma_holds_at_inside, lemma_holds_at_of_part,
    lemma_holds_at_split, lemma_holds_at_take, lemma_holds_at_whole,
    lemma_padding_len, lemma_prefix_value_at, lemma_u16_at, lemma_u16_be_round_trip,
    lemma_u32_at, lemma_u32_be_round_trip, lemma_u64_at, lemma_u64_be_round_trip, padding_len,
    u16_be, u16_from_be, u32_be, u32_from_be, u64_be, zero_bytes, PrefixWidth,
};
use vstd::prelude::*;

verus! {

/// A block that stands at `at` is read there, with the data it was made
/// from, as long as the data is shorter than the prefix's limit.
pub proof fn lemma_read_block_of_block(s: Seq<u8>, at: int, data: Seq<u8>, width: PrefixWidth)
    requires
        holds_at(s, at, block(data, width)),
        data.len() < width.limit(),
    ensures
        read_block(s, at, width) == Some((data, at + block(data, width).len())),
        block(data, width).len() >= 8,
{
    lemma_block_parts(s, at, data, width);
    lemma_prefix_value_at(s, at, data.len(), width);
    lemma_holds_at_inside(s, at + width.bytes(), data);
    reveal(read_block);
}

/// A text whose block stands at `at` is read there.
pub proof fn lemma_parse_text_of_block(s: Seq<u8>, at: int, text: Seq<char>, width: PrefixWidth)
    requires
        holds_at(s, at, block(utf8(text), width)),
        text_fits(text, width),
    ensures
        parse_text(s, at, width) == Ok::<(Seq<char>, int), DecodeError>(
            (text, at + block(utf8(text), width).len()),
        ),
        block(utf8(text), width).len() >= 8,
{
    lemma_read_block_of_block(s, at, utf8(text), width);
    lemma_text_round_trip(text);
    reveal(parse_text);
}

/// The switches are read back from their packed form.
pub proof fn lemma_cup_settings_bits(mode: CupSettings)
    ensures
        mode.bits() < 8,
        CupSettings::of_bits(mode.bits()) == Some(mode),
{
}

/// Where a track stands, its five parts stand one after the other.
pub proof fn lemma_track_parts(s: Seq<u8>, at: int, t: TrackView)
    requires
        holds_at(s, at, track_bytes(t)),
    ensures
        holds_at(s, at, u64_be(t.id as u64)),
        holds_at(s, at + 8, block(utf8(t.name), PrefixWidth::One)),
        holds_at(
            s,
            at + 8 + block(utf8(t.name), PrefixWidth::One).len(),
            block(utf8(t.author), PrefixWidth::One),
        ),
        holds_at(
            s,
            at + 8 + block(utf8(t.name), PrefixWidth::One).len() + block(
                utf8(t.author),
                PrefixWidth::One,
            ).len(),
            seq![
                t.property.index() as u8,
                t.music.index() as u8,
                bool_byte(t.new),
                t.flag.index() as u8,
            ],
        ),
        holds_at(
            s,
            at + 8 + block(utf8(t.name), PrefixWidth::One).len() + block(
                utf8(t.author),
                PrefixWidth::One,
            ).len() + 4,
            block(utf8(t.filename), PrefixWidth::One),
        ),
        track_bytes(t).len() == 8 + block(utf8(t.name), PrefixWidth::One).len() + block(
            utf8(t.author),
            PrefixWidth::One,
        ).len() + 4 + block(utf8(t.filename), PrefixWidth::One).len(),
{
    let id = u64_be(t.id as u64);
    let name = block(utf8(t.name), PrefixWidth::One);
    let author = block(utf8(t.author), PrefixWidth::One);
    let four = seq![
        t.property.index() as u8,
        t.music.index() as u8,
        bool_byte(t.new),
        t.flag.index() as u8,
    ];
    let filename = block(utf8(t.filename), PrefixWidth::One);
    lemma_u64_be_round_trip(t.id as u64);
    assert(track_bytes(t) == id + name + author + four + filename);
    lemma_holds_at_split(s, at, id + name + author + four, filename);
    lemma_holds_at_split(s, at, id + name + author, four);
    lemma_holds_at_split(s, at, id + name, author);
    lemma_holds_at_split(s, at, id, name);
}

/// The four single bytes of a track are read as they were written.
pub proof fn lemma_parse_track_bytes_of(s: Seq<u8>, at: int, t: TrackView)
    requires
        holds_at(
            s,
            at,
            seq![
                t.property.index() as u8,
                t.music.index() as u8,
                bool_byte(t.new),
                t.flag.index() as u8,
            ],
        ),
    ensures
        parse_track_bytes(s, at) == Ok::<(Id, Id, bool, GroupFlag), DecodeError>(
            (t.property, t.music, t.new, t.flag),
        ),
{
    let four = seq![
        t.property.index() as u8,
        t.music.index() as u8,
        bool_byte(t.new),
        t.flag.index() as u8,
    ];
    lemma_holds_at_inside(s, at, four);
    lemma_holds_at_index(s, at, four, 0);
    lemma_holds_at_index(s, at, four, 1);
    lemma_holds_at_index(s, at, four, 2);
    lemma_holds_at_index(s, at, four, 3);
    t.property.lemma_index_at();
    t.music.lemma_index_at();
    reveal(parse_track_bytes);
}

/// A track that stands at `at` is read there.
pub proof fn lemma_parse_track_of(s: Seq<u8>, at: int, t: TrackView)
    requires
        holds_at(s, at, track_bytes(t)),
        track_encodable(t),
    ensures
        parse_track(s, at) == Ok::<(TrackView, int), DecodeError>(
            (t, at + track_bytes(t).len()),
        ),
        track_bytes(t).len() > 0,
{
    lemma_track_parts(s, at, t);
    lemma_u64_be_round_trip(t.id as u64);
    lemma_holds_at_inside(s, at, u64_be(t.id as u64));
    lemma_u64_at(s, at, t.id as u64);
    let p0 = at + 8;
    lemma_parse_text_of_block(s, p0, t.name, PrefixWidth::One);
    let p1 = p0 + block(utf8(t.name), PrefixWidth::One).len();
    lemma_parse_text_of_block(s, p1, t.author, PrefixWidth::One);
    let p2 = p1 + block(utf8(t.author), PrefixWidth::One).len();
    lemma_parse_track_bytes_of(s, p2, t);
    lemma_parse_text_of_block(s, p2 + 4, t.filename, PrefixWidth::One);
    reveal(parse_track);
}

/// Tracks that stand at `at` are read there, one after the other.
pub proof fn lemma_parse_tracks_of(s: Seq<u8>, at: int, tracks: Seq<TrackView>, acc: Seq<TrackView>)
    requires
        holds_at(s, at, tracks_bytes(tracks)),
        forall|i: int| 0 <= i < tracks.len() ==> track_encodable(#[trigger] tracks[i]),
    ensures
        parse_tracks(s, at, tracks.len(), acc) == Ok::<(Seq<TrackView>, int), DecodeError>(
            (acc + tracks, at + tracks_bytes(tracks).len()),
        ),
    decreases tracks.len(),
{
    lemma_tracks_bytes_front(tracks);
    if tracks.len() == 0 {
        assert(acc + tracks =~= acc);
    } else {
        let first = tracks[0];
        let rest = tracks.drop_first();
        lemma_holds_at_split(s, at, track_bytes(first), tracks_bytes(rest));
        lemma_parse_track_of(s, at, first);
        assert forall|i: int| 0 <= i < rest.len() implies track_encodable(#[trigger] rest[i]) by {
            assert(rest[i] == tracks[i + 1]);
        }
        lemma_parse_tracks_of(s, at + track_bytes(first).len(), rest, acc.push(first));
        assert(acc.push(first) + rest =~= acc + tracks);
    }
}

/// Where a cup stands, its four parts stand one after the other.
pub proof fn lemma_cup_parts(s: Seq<u8>, at: int, c: CupView)
    requires
        holds_at(s, at, cup_bytes(c)),
    ensures
        holds_at(s, at, block(utf8(c.name), PrefixWidth::One)),
        holds_at(
            s,
            at + block(utf8(c.name), PrefixWidth::One).len(),
            block(c.icon.image, PrefixWidth::Eight),
        ),
        holds_at(
            s,
            at + block(utf8(c.name), PrefixWidth::One).len() + block(
                c.icon.image,
                PrefixWidth::Eight,
            ).len(),
            block(utf8(c.icon.filename), PrefixWidth::One),
        ),
        holds_at(
            s,
            at + block(utf8(c.name), PrefixWidth::One).len() + block(
                c.icon.image,
                PrefixWidth::Eight,
            ).len() + block(utf8(c.icon.filename), PrefixWidth::One).len(),
            tracks_bytes(c.tracks),
        ),
        cup_bytes(c).len() == block(utf8(c.name), PrefixWidth::One).len() + block(
            c.icon.image,
            PrefixWidth::Eight,
        ).len() + block(utf8(c.icon.filename), PrefixWidth::One).len() + tracks_bytes(
            c.tracks,
        ).len(),
{
    let name = block(utf8(c.name), PrefixWidth::One);
    let image = block(c.icon.image, PrefixWidth::Eight);
    let filename = block(utf8(c.icon.filename), PrefixWidth::One);
    let tracks = tracks_bytes(c.tracks);
    assert(cup_bytes(c) == name + image + filename + tracks);
    lemma_holds_at_split(s, at, name + image + filename, tracks);
    lemma_holds_at_split(s, at, name + image, filename);
    lemma_holds_at_split(s, at, name, image);
}

/// A cup that stands at `at` is read there.
pub proof fn lemma_parse_cup_of(s: Seq<u8>, at: int, c: CupView)
    requires
        holds_at(s, at, cup_bytes(c)),
        cup_encodable(c),
    ensures
        parse_cup(s, at) == Ok::<(CupView, int), DecodeError>((c, at + cup_bytes(c).len())),
        cup_bytes(c).len() > 0,
{
    lemma_cup_parts(s, at, c);
    lemma_parse_text_of_block(s, at, c.name, PrefixWidth::One);
    let p1 = at + block(utf8(c.name), PrefixWidth::One).len();
    lemma_read_block_of_block(s, p1, c.icon.image, PrefixWidth::Eight);
    let p2 = p1 + block(c.icon.image, PrefixWidth::Eight).len();
    lemma_parse_text_of_block(s, p2, c.icon.filename, PrefixWidth::One);
    let p3 = p2 + block(utf8(c.icon.filename), PrefixWidth::One).len();
    lemma_parse_tracks_of(s, p3, c.tracks, Seq::empty());
    assert(Seq::<TrackView>::empty() + c.tracks =~= c.tracks);
    reveal(parse_cup);
}

/// Cups that stand at `at` are read there, one after the other.
pub proof fn lemma_parse_cups_of(s: Seq<u8>, at: int, cups: Seq<CupView>, acc: Seq<CupView>)
    requires
        holds_at(s, at, cups_bytes(cups)),
        forall|i: int| 0 <= i < cups.len() ==> cup_encodable(#[trigger] cups[i]),
    ensures
        parse_cups(s, at, cups.len(), acc) == Ok::<(Seq<CupView>, int), DecodeError>(
            (acc + cups, at + cups_bytes(cups).len()),
        ),
    decreases cups.len(),
{
    lemma_cups_bytes_front(cups);
    if cups.len() == 0 {
        assert(acc + cups =~= acc);
    } else {
        let first = cups[0];
        let rest = cups.drop_first();
        lemma_holds_at_split(s, at, cup_bytes(first), cups_bytes(rest));
        lemma_parse_cup_of(s, at, first);
        assert forall|i: int| 0 <= i < rest.len() implies cup_encodable(#[trigger] rest[i]) by {
            assert(rest[i] == cups[i + 1]);
        }
        lemma_parse_cups_of(s, at + cup_bytes(first).len(), rest, acc.push(first));
        assert(acc.push(first) + rest =~= acc + cups);
    }
}

/// The head of the roster block takes 16 bytes.
pub proof fn lemma_roster_header_len(mode: CupSettings, count: nat)
    ensures
        roster_header(mode, count).len() == 16,
{
    let fields = seq![mode.bits() as u8, 0u8] + u16_be((count % 0x1_0000) as u16);
    lemma_u16_be_round_trip((count % 0x1_0000) as u16);
    assert(fields.len() == 4);
    reveal(padding_len);
}

/// The size of a roster block: its head, its cups, and their padding.
pub proof fn lemma_roster_block_len(mode: CupSettings, cups: Seq<CupView>)
    ensures
        roster_block(mode, cups).len() == 16 + cups_bytes(cups).len() + padding_len(
            16 + cups_bytes(cups).len(),
            16,
        ),
        roster_block(mode, cups).len() >= 17,
{
    lemma_roster_header_len(mode, cups.len());
    lemma_padding_len(16 + cups_bytes(cups).len(), 16);
}

/// Where a roster block stands, its switch byte, its cup count and its
/// cups stand at their offsets, and the block ends inside the bytes.
pub proof fn lemma_roster_parts(s: Seq<u8>, at: int, mode: CupSettings, cups: Seq<CupView>)
    requires
        holds_at(s, at, roster_block(mode, cups)),
    ensures
        s[at] == mode.bits() as u8,
        holds_at(s, at + 2, u16_be((cups.len() % 0x1_0000) as u16)),
        holds_at(s, at + 16, cups_bytes(cups)),
        0 <= at,
        at + 16 <= s.len(),
        at + roster_block(mode, cups).len() <= s.len(),
{
    let count = (cups.len() % 0x1_0000) as u16;
    let flags = seq![mode.bits() as u8, 0u8];
    let fields = flags + u16_be(count);
    let head = roster_header(mode, cups.len());
    let body = head + cups_bytes(cups);
    let fill = zero_bytes(padding_len(body.len(), 16));
    let head_fill = zero_bytes(padding_len(fields.len(), 16));
    lemma_roster_header_len(mode, cups.len());
    lemma_roster_block_len(mode, cups);
    lemma_holds_at_inside(s, at, roster_block(mode, cups));
    lemma_holds_at_split(s, at, body, fill);
    lemma_holds_at_split(s, at, head, cups_bytes(cups));
    lemma_holds_at_split(s, at, fields, head_fill);
    lemma_holds_at_split(s, at, flags, u16_be(count));
    lemma_holds_at_index(s, at, flags, 0);
}

/// A roster is read where its head holds valid switches and a count that
/// is not zero, that many cups are read behind the head, and their padding
/// ends inside the bytes.
pub proof fn lemma_parse_roster_when(
    s: Seq<u8>,
    at: int,
    mode: CupSettings,
    cups: Seq<CupView>,
    p: int,
)
    requires
        0 <= at,
        at + 16 <= s.len(),
        CupSettings::of_bits(s[at] as nat) == Some(mode),
        u16_from_be(s.skip(at + 2)) != 0,
        parse_cups(s, at + 16, u16_from_be(s.skip(at + 2)) as nat, Seq::empty()) == Ok::<
            (Seq<CupView>, int),
            DecodeError,
        >((cups, p)),
        p + padding_len((p - at) as nat, 16) <= s.len(),
    ensures
        parse_roster(s, at) == Ok::<(CupSettings, Seq<CupView>, int), DecodeError>(
            (mode, cups, p + padding_len((p - at) as nat, 16)),
        ),
{
    reveal(parse_roster);
}

/// A roster block that stands at `at` is read there.
pub proof fn lemma_parse_roster_of(s: Seq<u8>, at: int, mode: CupSettings, cups: Seq<CupView>)
    requires
        holds_at(s, at, roster_block(mode, cups)),
        1 <= cups.len() < 0x1_0000,
        forall|i: int| 0 <= i < cups.len() ==> cup_encodable(#[trigger] cups[i]),
    ensures
        parse_roster(s, at) == Ok::<(CupSettings, Seq<CupView>, int), DecodeError>(
            (mode, cups, at + roster_block(mode, cups).len()),
        ),
{
    lemma_roster_parts(s, at, mode, cups);
    lemma_roster_block_len(mode, cups);
    lemma_cup_settings_bits(mode);
    lemma_u16_at(s, at + 2, (cups.len() % 0x1_0000) as u16);
    lemma_parse_cups_of(s, at + 16, cups, Seq::empty());
    assert(Seq::<CupView>::empty() + cups =~= cups);
    let p = at + 16 + cups_bytes(cups).len();
    assert((p - at) as nat == 16 + cups_bytes(cups).len());
    lemma_parse_roster_when(s, at, mode, cups, p);
}

/// Where a code stands, its five texts stand one after the other.
pub proof fn lemma_code_parts(s: Seq<u8>, at: int, c: CodeView)
    requires
        holds_at(s, at, code_bytes(c)),
    ensures
        holds_at(s, at, block(utf8(c.name), PrefixWidth::Two)),
        holds_at(
            s,
            at + block(utf8(c.name), PrefixWidth::Two).len(),
            block(utf8(c.ntsc), PrefixWidth::Four),
        ),
        holds_at(
            s,
            at + block(utf8(c.name), PrefixWidth::Two).len() + block(
                utf8(c.ntsc),
                PrefixWidth::Four,
            ).len(),
            block(utf8(c.pal), PrefixWidth::Four),
        ),
        holds_at(
            s,
            at + block(utf8(c.name), PrefixWidth::Two).len() + block(
                utf8(c.ntsc),
                PrefixWidth::Four,
            ).len() + block(utf8(c.pal), PrefixWidth::Four).len(),
            block(utf8(c.jp), PrefixWidth::Four),
        ),
        holds_at(
            s,
            at + block(utf8(c.name), PrefixWidth::Two).len() + block(
                utf8(c.ntsc),
                PrefixWidth::Four,
            ).len() + block(utf8(c.pal), PrefixWidth::Four).len() + block(
                utf8(c.jp),
                PrefixWidth::Four,
            ).len(),
            block(utf8(c.kor), PrefixWidth::Four),
        ),
        code_bytes(c).len() == block(utf8(c.name), PrefixWidth::Two).len() + block(
            utf8(c.ntsc),
            PrefixWidth::Four,
        ).len() + block(utf8(c.pal), PrefixWidth::Four).len() + block(
            utf8(c.jp),
            PrefixWidth::Four,
        ).len() + block(utf8(c.kor), PrefixWidth::Four).len(),
{
    let name = block(utf8(c.name), PrefixWidth::Two);
    let ntsc = block(utf8(c.ntsc), PrefixWidth::Four);
    let pal = block(utf8(c.pal), PrefixWidth::Four);
    let jp = block(utf8(c.jp), PrefixWidth::Four);
    let kor = block(utf8(c.kor), PrefixWidth::Four);
    assert(code_bytes(c) == name + ntsc + pal + jp + kor);
    lemma_holds_at_split(s, at, name + ntsc + pal + jp, kor);
    lemma_holds_at_split(s, at, name + ntsc + pal, jp);
    lemma_holds_at_split(s, at, name + ntsc, pal);
    lemma_holds_at_split(s, at, name, ntsc);
}

/// A cheat code that stands at `at` is read there. It takes at least 40
/// bytes.
pub proof fn lemma_parse_code_of(s: Seq<u8>, at: int, c: CodeView)
    requires
        holds_at(s, at, code_bytes(c)),
        code_encodable(c),
    ensures
        parse_code(s, at) == Ok::<(CodeView, int), DecodeError>((c, at + code_bytes(c).len())),
        code_bytes(c).len() >= 40,
{
    lemma_code_parts(s, at, c);
    lemma_parse_text_of_block(s, at, c.name, PrefixWidth::Two);
    let p1 = at + block(utf8(c.name), PrefixWidth::Two).len();
    lemma_parse_text_of_block(s, p1, c.ntsc, PrefixWidth::Four);
    let p2 = p1 + block(utf8(c.ntsc), PrefixWidth::Four).len();
    lemma_parse_text_of_block(s, p2, c.pal, PrefixWidth::Four);
    let p3 = p2 + block(utf8(c.pal), PrefixWidth::Four).len();
    lemma_parse_text_of_block(s, p3, c.jp, PrefixWidth::Four);
    let p4 = p3 + block(utf8(c.jp), PrefixWidth::Four).len();
    lemma_parse_text_of_block(s, p4, c.kor, PrefixWidth::Four);
    reveal(parse_code);
}

/// Codes that stand at `at` and are followed by nothing but up to 16 bytes
/// are read there, one after the other.
pub proof fn lemma_parse_codes_of(s: Seq<u8>, at: int, codes: Seq<CodeView>, acc: Seq<CodeView>)
    requires
        holds_at(s, at, codes_bytes(codes)),
        forall|i: int| 0 <= i < codes.len() ==> code_encodable(#[trigger] codes[i]),
        s.len() - (at + codes_bytes(codes).len()) <= 16,
    ensures
        parse_codes(s, at, acc) == Ok::<(Seq<CodeView>, int), DecodeError>(
            (acc + codes, at + codes_bytes(codes).len()),
        ),
    decreases codes.len(),
{
    lemma_codes_bytes_front(codes);
    if codes.len() == 0 {
        assert(acc + codes =~= acc);
    } else {
        let first = codes[0];
        let rest = codes.drop_first();
        lemma_holds_at_split(s, at, code_bytes(first), codes_bytes(rest));
        lemma_holds_at_inside(s, at + code_bytes(first).len(), codes_bytes(rest));
        lemma_parse_code_of(s, at, first);
        assert forall|i: int| 0 <= i < rest.len() implies code_encodable(#[trigger] rest[i]) by {
            assert(rest[i] == codes[i + 1]);
        }
        lemma_parse_codes_of(s, at + code_bytes(first).len(), rest, acc.push(first));
        assert(acc.push(first) + rest =~= acc + codes);
    }
}

/// The cheat payload has the size that its head gives: 8 bytes of head,
/// the codes, and their padding to 16 bytes.
pub proof fn lemma_cheat_payload_len(codes: Seq<CodeView>)
    ensures
        cheat_payload(codes).len() == cheat_payload_len(codes),
        cheat_payload_len(codes) == 8 + codes_bytes(codes).len() + padding_len(
            8 + codes_bytes(codes).len(),
            16,
        ),
        cheat_payload_len(codes) >= 16,
{
    reveal(cheat_payload_len);
    lemma_padding_len(8 + codes_bytes(codes).len(), 16);
    lemma_u32_be_round_trip((cheat_payload_len(codes) % 0x1_0000_0000) as u32);
    if codes_bytes(codes).len() < 8 {
        reveal(padding_len);
    }
}

/// Where a cheat payload stands, its size field and its codes stand at
/// their offsets, and the payload ends inside the bytes.
pub proof fn lemma_cheat_parts(s: Seq<u8>, at: int, codes: Seq<CodeView>)
    requires
        holds_at(s, at, cheat_payload(codes)),
    ensures
        holds_at(s, at + 4, u32_be((cheat_payload_len(codes) % 0x1_0000_0000) as u32)),
        holds_at(s, at + 8, codes_bytes(codes)),
        0 <= at,
        at + 8 <= s.len(),
        at + cheat_payload_len(codes) <= s.len(),
{
    lemma_cheat_payload_len(codes);
    lemma_holds_at_inside(s, at, cheat_payload(codes));
    let size = u32_be((cheat_payload_len(codes) % 0x1_0000_0000) as u32);
    let reserved = zero_bytes(4);
    let body = codes_bytes(codes);
    let fill = zero_bytes(padding_len(8 + body.len(), 16));
    lemma_u32_be_round_trip((cheat_payload_len(codes) % 0x1_0000_0000) as u32);
    assert(cheat_payload(codes) == reserved + size + body + fill);
    lemma_holds_at_split(s, at, reserved + size + body, fill);
    lemma_holds_at_split(s, at, reserved + size, body);
    lemma_holds_at_split(s, at, reserved, size);
}

/// The codes of a cheat payload that stands at `at` are read from the
/// bytes up to the payload's end, and their padding ends the payload.
pub proof fn lemma_cheat_codes_read(s: Seq<u8>, at: int, codes: Seq<CodeView>, p: int)
    requires
        holds_at(s, at + 8, codes_bytes(codes)),
        at + cheat_payload_len(codes) <= s.len(),
        forall|i: int| 0 <= i < codes.len() ==> code_encodable(#[trigger] codes[i]),
        p == at + 8 + codes_bytes(codes).len(),
    ensures
        parse_codes(s.take(at + cheat_payload_len(codes)), at + 8, Seq::empty()) == Ok::<
            (Seq<CodeView>, int),
            DecodeError,
        >((codes, p)),
        p + padding_len((p - at) as nat, 16) == at + cheat_payload_len(codes),
{
    lemma_cheat_payload_len(codes);
    let end = at + cheat_payload_len(codes);
    lemma_padding_len(8 + codes_bytes(codes).len(), 16);
    lemma_holds_at_inside(s, at + 8, codes_bytes(codes));
    lemma_holds_at_take(s, at + 8, codes_bytes(codes), end);
    lemma_parse_codes_of(s.take(end), at + 8, codes, Seq::empty());
    assert(Seq::<CodeView>::empty() + codes =~= codes);
    assert((p - at) as nat == 8 + codes_bytes(codes).len());
}

/// A payload is read where its head gives a size of at least 16 bytes that
/// ends inside the bytes, and that size is the head, the codes read up to
/// it, and their padding.
pub proof fn lemma_parse_cheats_when(s: Seq<u8>, at: int, size: int, codes: Seq<CodeView>, p: int)
    requires
        0 <= at,
        at + 8 <= s.len(),
        size == u32_from_be(s.skip(at + 4)),
        16 <= size,
        at + size <= s.len(),
        parse_codes(s.take(at + size), at + 8, Seq::empty()) == Ok::<
            (Seq<CodeView>, int),
            DecodeError,
        >((codes, p)),
        codes.len() >= 1,
        p + padding_len((p - at) as nat, 16) == at + size,
    ensures
        parse_cheats(s, at) == Ok::<(Seq<CodeView>, int), DecodeError>((codes, at + size)),
{
    reveal(parse_cheats);
}

/// A cheat payload that stands at `at` is read there.
pub proof fn lemma_parse_cheats_of(s: Seq<u8>, at: int, codes: Seq<CodeView>)
    requires
        holds_at(s, at, cheat_payload(codes)),
        1 <= codes.len(),
        forall|i: int| 0 <= i < codes.len() ==> code_encodable(#[trigger] codes[i]),
        cheat_payload_len(codes) < 0x1_0000_0000,
    ensures
        parse_cheats(s, at) == Ok::<(Seq<CodeView>, int), DecodeError>(
            (codes, at + cheat_payload(codes).len()),
        ),
{
    lemma_cheat_payload_len(codes);
    lemma_cheat_parts(s, at, codes);
    lemma_u32_at(s, at + 4, (cheat_payload_len(codes) % 0x1_0000_0000) as u32);
    let p = at + 8 + codes_bytes(codes).len();
    lemma_cheat_codes_read(s, at, codes, p);
    lemma_parse_cheats_when(s, at, cheat_payload_len(codes) as int, codes, p);
}

/// Where the settings fields stand, each field stands at its offset.
pub proof fn lemma_settings_parts(a: Seq<u8>, settings: SettingApp)
    requires
        holds_at(a, 0, settings_fields(settings)),
    ensures
        settings_fields(settings).len() == 20,
        a.len() >= 20,
        a[0] == bool_byte(settings.toggle_200cc),
        holds_at(a, 1, u32_be(i32_bits(settings.engine_probs.low))),
        holds_at(a, 5, u32_be(i32_bits(settings.engine_probs.mid))),
        holds_at(a, 9, u32_be(i32_bits(settings.engine_probs.high))),
        a[13] == bool_byte(settings.toggle_ct_tt),
        a[14] == bool_byte(settings.toggle_custom_presence),
        a[15] == i8_bits(settings.prevent_selection_online),
        a[16] == settings.toggle_som.index() as u8,
        a[17] == bool_byte(settings.toggle_drag_blue),
        holds_at(a, 18, u16_be(i16_bits(settings.time_cloud))),
{
    let low = u32_be(i32_bits(settings.engine_probs.low));
    let mid = u32_be(i32_bits(settings.engine_probs.mid));
    let high = u32_be(i32_bits(settings.engine_probs.high));
    let first = seq![bool_byte(settings.toggle_200cc)];
    let five = seq![
        bool_byte(settings.toggle_ct_tt),
        bool_byte(settings.toggle_custom_presence),
        i8_bits(settings.prevent_selection_online),
        settings.toggle_som.index() as u8,
        bool_byte(settings.toggle_drag_blue),
    ];
    let cloud = u16_be(i16_bits(settings.time_cloud));
    assert(settings_fields(settings) == first + low + mid + high + five + cloud);
    lemma_u32_be_round_trip(i32_bits(settings.engine_probs.low));
    lemma_u32_be_round_trip(i32_bits(settings.engine_probs.mid));
    lemma_u32_be_round_trip(i32_bits(settings.engine_probs.high));
    lemma_u16_be_round_trip(i16_bits(settings.time_cloud));
    lemma_holds_at_inside(a, 0, settings_fields(settings));
    lemma_holds_at_split(a, 0, first + low + mid + high + five, cloud);
    lemma_holds_at_split(a, 0, first + low + mid + high, five);
    lemma_holds_at_split(a, 0, first + low + mid, high);
    lemma_holds_at_split(a, 0, first + low, mid);
    lemma_holds_at_split(a, 0, first, low);
    lemma_holds_at_index(a, 0, first, 0);
    lemma_holds_at_index(a, 13, five, 0);
    lemma_holds_at_index(a, 13, five, 1);
    lemma_holds_at_index(a, 13, five, 2);
    lemma_holds_at_index(a, 13, five, 3);
    lemma_holds_at_index(a, 13, five, 4);
}

/// The settings fields are read back as the settings they were made from,
/// with or without padding behind them.
pub proof fn lemma_parse_settings_of(a: Seq<u8>, settings: SettingApp)
    requires
        holds_at(a, 0, settings_fields(settings)),
    ensures
        parse_settings(a) == Ok::<SettingApp, DecodeError>(settings),
{
    lemma_settings_parts(a, settings);
    lemma_u32_at(a, 1, i32_bits(settings.engine_probs.low));
    lemma_u32_at(a, 5, i32_bits(settings.engine_probs.mid));
    lemma_u32_at(a, 9, i32_bits(settings.engine_probs.high));
    lemma_u16_at(a, 18, i16_bits(settings.time_cloud));
    reveal(parse_settings);
}

/// The sizes of the parts of a project file.
pub proof fn lemma_project_len(m: StateView)
    ensures
        project_bytes(m).len() == project_len(m),
        project_len(m) == 48 + roster_block(m.mode, m.cups).len() + cheat_payload_len(m.codes),
        settings_fields(m.settings).len() == 20,
        settings_block(m.settings).len() == 32,
        project_len(m) >= 81,
{
    reveal(project_bytes);
    reveal(project_len);
    lemma_u32_be_round_trip((project_len(m) % 0x1_0000_0000) as u32);
    lemma_u16_be_round_trip(FILE_BUILD_NUMBER);
    lemma_u16_be_round_trip(bool_byte(m.cheats_enabled) as u16);
    lemma_u32_be_round_trip(i32_bits(m.settings.engine_probs.low));
    lemma_u32_be_round_trip(i32_bits(m.settings.engine_probs.mid));
    lemma_u32_be_round_trip(i32_bits(m.settings.engine_probs.high));
    lemma_u16_be_round_trip(i16_bits(m.settings.time_cloud));
    assert(settings_fields(m.settings).len() == 20);
    assert(padding_len(20, 16) == 12) by {
        reveal(padding_len);
    }
    lemma_cheat_payload_len(m.codes);
    lemma_roster_block_len(m.mode, m.cups);
}

/// Where the parts of a project file stand in it.
pub proof fn lemma_project_parts(m: StateView)
    ensures
        holds_at(project_bytes(m), 0, magic()),
        holds_at(project_bytes(m), 8, u32_be((project_len(m) % 0x1_0000_0000) as u32)),
        holds_at(project_bytes(m), 12, u16_be(FILE_BUILD_NUMBER)),
        holds_at(project_bytes(m), 14, u16_be(bool_byte(m.cheats_enabled) as u16)),
        holds_at(project_bytes(m), 16, settings_block(m.settings)),
        holds_at(project_bytes(m), 48, roster_block(m.mode, m.cups)),
        holds_at(
            project_bytes(m),
            48 + roster_block(m.mode, m.cups).len() as int,
            cheat_payload(m.codes),
        ),
{
    lemma_project_len(m);
    let s = project_bytes(m);
    let a = magic();
    let b = u32_be((project_len(m) % 0x1_0000_0000) as u32);
    let c = u16_be(FILE_BUILD_NUMBER);
    let d = u16_be(bool_byte(m.cheats_enabled) as u16);
    let e = settings_block(m.settings);
    let f = roster_block(m.mode, m.cups);
    let g = cheat_payload(m.codes);
    lemma_u32_be_round_trip((project_len(m) % 0x1_0000_0000) as u32);
    lemma_u16_be_round_trip(FILE_BUILD_NUMBER);
    lemma_u16_be_round_trip(bool_byte(m.cheats_enabled) as u16);
    assert(s == a + b + c + d + e + f + g) by {
        reveal(project_bytes);
    }
    lemma_holds_at_whole(s);
    lemma_holds_at_split(s, 0, a + b + c + d + e + f, g);
    lemma_holds_at_split(s, 0, a + b + c + d + e, f);
    lemma_holds_at_split(s, 0, a + b + c + d, e);
    lemma_holds_at_split(s, 0, a + b + c, d);
    lemma_holds_at_split(s, 0, a + b, c);
    lemma_holds_at_split(s, 0, a, b);
}

/// Bytes are read as a project file where they open with the magic, give
/// the right version and a size inside the bytes, and the three sections
/// are read one after the other from the bytes up to that size.
pub proof fn lemma_parse_project_when(
    s: Seq<u8>,
    size: int,
    settings: SettingApp,
    mode: CupSettings,
    cups: Seq<CupView>,
    p: int,
    codes: Seq<CodeView>,
    end: int,
)
    requires
        s.len() >= 16,
        s.subrange(0, 8) == magic(),
        u16_from_be(s.skip(12)) == FILE_BUILD_NUMBER,
        size == u32_from_be(s.skip(8)),
        48 <= size <= s.len(),
        parse_settings(s.take(size).subrange(16, 48)) == Ok::<SettingApp, DecodeError>(settings),
        parse_roster(s.take(size), 48) == Ok::<(CupSettings, Seq<CupView>, int), DecodeError>(
            (mode, cups, p),
        ),
        parse_cheats(s.take(size), p) == Ok::<(Seq<CodeView>, int), DecodeError>((codes, end)),
    ensures
        parse_project(s) == Ok::<StateView, DecodeError>(
            StateView {
                settings,
                cheats_enabled: u16_from_be(s.take(size).skip(14)) != 0,
                codes,
                mode,
                cups,
            },
        ),
{
    reveal(parse_project);
}

/// The size field of a project file under 4 GiB holds the file's size.
pub proof fn lemma_project_size_field(m: StateView)
    requires
        project_len(m) < 0x1_0000_0000,
    ensures
        u32_from_be(project_bytes(m).skip(8)) == project_len(m),
{
    lemma_project_parts(m);
    lemma_u32_at(project_bytes(m), 8, (project_len(m) % 0x1_0000_0000) as u32);
}

/// The version field of a project file holds the version of this library.
pub proof fn lemma_project_version_field(m: StateView)
    ensures
        u16_from_be(project_bytes(m).skip(12)) == FILE_BUILD_NUMBER,
{
    lemma_project_parts(m);
    lemma_u16_at(project_bytes(m), 12, FILE_BUILD_NUMBER);
}

/// The cheat switch of a project file is read as it was written.
pub proof fn lemma_project_cheat_field(m: StateView)
    ensures
        (u16_from_be(project_bytes(m).skip(14)) != 0) == m.cheats_enabled,
{
    lemma_project_parts(m);
    lemma_u16_at(project_bytes(m), 14, bool_byte(m.cheats_enabled) as u16);
}

/// A project file opens with the magic.
pub proof fn lemma_project_magic_field(m: StateView)
    ensures
        project_bytes(m).len() >= 16,
        project_bytes(m).subrange(0, 8) == magic(),
{
    lemma_project_len(m);
    lemma_project_parts(m);
    lemma_holds_at_inside(project_bytes(m), 0, magic());
}

/// The settings block of a project file is read as the settings it was
/// written from.
pub proof fn lemma_project_settings(m: StateView)
    ensures
        parse_settings(project_bytes(m).subrange(16, 48)) == Ok::<SettingApp, DecodeError>(
            m.settings,
        ),
{
    lemma_project_len(m);
    lemma_project_parts(m);
    let s = project_bytes(m);
    let fields = settings_fields(m.settings);
    let fill = zero_bytes(padding_len(fields.len(), 16));
    assert(settings_block(m.settings) == fields + fill);
    lemma_holds_at_split(s, 16, fields, fill);
    lemma_holds_at_of_part(s, 16, 48, 16, fields);
    lemma_parse_settings_of(s.subrange(16, 48), m.settings);
}

/// A project file that was written from a configuration is read back as
/// that configuration: every setting, the cheat switch, every cheat code
/// with its text for each region, the cup switches, and every cup with its
/// icon and its tracks.
pub proof fn lemma_project_round_trip(m: StateView)
    requires
        encodable(m),
    ensures
        parse_project(project_bytes(m)) == Ok::<StateView, DecodeError>(m),
{
    let s = project_bytes(m);
    let size = project_len(m) as int;
    lemma_project_len(m);
    lemma_project_magic_field(m);
    lemma_project_size_field(m);
    lemma_project_version_field(m);
    lemma_project_cheat_field(m);
    lemma_project_settings(m);
    lemma_project_parts(m);
    assert(s.take(size) =~= s);
    lemma_parse_roster_of(s, 48, m.mode, m.cups);
    let p = 48 + roster_block(m.mode, m.cups).len() as int;
    lemma_cheat_payload_len(m.codes);
    lemma_parse_cheats_of(s, p, m.codes);
    lemma_parse_project_when(
        s,
        size,
        m.settings,
        m.mode,
        m.cups,
        p,
        m.codes,
        p + cheat_payload(m.codes).len(),
    );
}

/// Two configurations that fit the file format and give the same project
/// file are the same configuration: nothing of a configuration is lost in
/// its file.
pub proof fn lemma_files_tell_apart(a: StateView, b: StateView)
    requires
        encodable(a),
        encodable(b),
        project_bytes(a) == project_bytes(b),
    ensures
        a == b,
{
    lemma_project_round_trip(a);
    lemma_project_round_trip(b);
}

/// Every section of a project file starts on a multiple of 16 bytes and the
/// file ends on one: the settings block at 16, the roster block at 48, the
/// cheat payload behind the roster block.
pub proof fn lemma_project_aligned(m: StateView)
    ensures
        roster_block(m.mode, m.cups).len() % 16 == 0,
        cheat_payload_len(m.codes) % 16 == 0,
        (48 + roster_block(m.mode, m.cups).len()) % 16 == 0,
        project_bytes(m).len() % 16 == 0,
{
    lemma_project_len(m);
    lemma_roster_block_len(m.mode, m.cups);
    lemma_cheat_payload_len(m.codes);
    lemma_padding_len(16 + cups_bytes(m.cups).len(), 16);
    lemma_padding_len(8 + codes_bytes(m.codes).len(), 16);
    let r = roster_block(m.mode, m.cups).len() as int;
    let c = cheat_payload_len(m.codes) as int;
    assert((48 + r) % 16 == 0 && (48 + r + c) % 16 == 0) by (nonlinear_arith)
        requires
            r % 16 == 0,
            c % 16 == 0,
    ;
}

/// Bytes that are at least a header long and differ from the magic in one
/// of their first eight bytes are refused for their magic, whatever else
/// they hold.
pub proof fn lemma_wrong_magic_is_refused(s: Seq<u8>, i: int)
    requires
        s.len() >= 16,
        0 <= i < 8,
        s[i] != magic()[i],
    ensures
        parse_project(s) == Err::<StateView, DecodeError>(DecodeError::MagicMismatch),
{
    reveal(parse_project);
    assert(s.subrange(0, 8)[i] == s[i]);
}

/// A project file in which one byte of the magic was changed is refused
/// for its magic.
pub proof fn lemma_damaged_magic_is_refused(m: StateView, i: int, b: u8)
    requires
        0 <= i < 8,
        b != magic()[i],
    ensures
        parse_project(project_bytes(m).update(i, b)) == Err::<StateView, DecodeError>(
            DecodeError::MagicMismatch,
        ),
{
    lemma_project_len(m);
    lemma_wrong_magic_is_refused(project_bytes(m).update(i, b), i);
}

/// Bytes that open with the magic and give another version than the one
/// this library reads are refused for their version.
pub proof fn lemma_wrong_version_is_refused(s: Seq<u8>)
    requires
        s.len() >= 16,
        s.subrange(0, 8) == magic(),
        u16_from_be(s.skip(12)) != FILE_BUILD_NUMBER,
    ensures
        parse_project(s) == Err::<StateView, DecodeError>(DecodeError::VersionMismatch),
{
    reveal(parse_project);
}

/// Bytes shorter than a header, and bytes that open with the magic and the
/// right version but are shorter than the size their header gives, are
/// refused as truncated.
pub proof fn lemma_short_is_refused(s: Seq<u8>)
    requires
        s.len() < 16 || (s.subrange(0, 8) == magic() && u16_from_be(s.skip(12))
            == FILE_BUILD_NUMBER && u32_from_be(s.skip(8)) > s.len()),
    ensures
        parse_project(s) == Err::<StateView, DecodeError>(DecodeError::Truncated),
{
    reveal(parse_project);
}

/// The header of the first `n` bytes of a project file under 4 GiB, for `n`
/// of at least 16, is the header of the file.
pub proof fn lemma_cut_header(m: StateView, n: int)
    requires
        project_len(m) < 0x1_0000_0000,
        16 <= n <= project_bytes(m).len(),
    ensures
        project_bytes(m).take(n).subrange(0, 8) == magic(),
        u16_from_be(project_bytes(m).take(n).skip(12)) == FILE_BUILD_NUMBER,
        u32_from_be(project_bytes(m).take(n).skip(8)) == project_len(m),
{
    let s = project_bytes(m);
    let size = (project_len(m) % 0x1_0000_0000) as u32;
    lemma_project_parts(m);
    lemma_u32_be_round_trip(size);
    lemma_u16_be_round_trip(FILE_BUILD_NUMBER);
    lemma_holds_at_take(s, 0, magic(), n);
    lemma_holds_at_take(s, 8, u32_be(size), n);
    lemma_holds_at_take(s, 12, u16_be(FILE_BUILD_NUMBER), n);
    lemma_holds_at_inside(s.take(n), 0, magic());
    lemma_u32_at(s.take(n), 8, size);
    lemma_u16_at(s.take(n), 12, FILE_BUILD_NUMBER);
}

/// A project file under 4 GiB of which only the first `n` bytes are left,
/// `n` less than its size, is refused as truncated, wherever the cut falls.
pub proof fn lemma_truncated_is_refused(m: StateView, n: int)
    requires
        project_len(m) < 0x1_0000_0000,
        0 <= n < project_bytes(m).len(),
    ensures
        parse_project(project_bytes(m).take(n)) == Err::<StateView, DecodeError>(
            DecodeError::Truncated,
        ),
{
    lemma_project_len(m);
    if n >= 16 {
        lemma_cut_header(m, n);
    }
    lemma_short_is_refused(project_bytes(m).take(n));
}

} // verus!
