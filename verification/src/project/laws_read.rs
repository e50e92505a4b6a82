//! What holds of every project file that is read: the configuration it
//! gives fits the file format, so it can be written again without loss.

use crate::apps::codes::CodeView;
use crate::apps::tracks::{CupView, TrackView};
use crate::apps::StateView;
use crate::project::laws::{
    lemma_cheat_payload_len, lemma_project_len, lemma_project_round_trip, lemma_roster_block_len,
};
use crate::project::layout::{
    cheat_payload_len, code_bytes, code_encodable, codes_bytes, cup_bytes, cup_encodable,
    cups_bytes, encodable, lemma_codes_bytes_front, lemma_cups_bytes_front,
    lemma_tracks_bytes_front, project_bytes, roster_block, text_fits, track_bytes,
    track_encodable, tracks_bytes,
};
use crate::project::parse::{
    lemma_parse_cheats_bounds, lemma_parse_code_bounds, parse_cheats, parse_code, parse_codes,
    parse_cup, parse_cups, parse_project, parse_roster, parse_text, parse_track,
    parse_track_bytes, parse_tracks, read_block, DecodeError,
};
use crate::text::{text_of, utf8};
use crate::wire::{
    block, lemma_block, lemma_u64_be_round_trip, prefix_value, u16_from_be, u32_from_be,
    PrefixWidth,
};
use vstd::prelude::*;
use vstd::utf8::decode_utf8_encode_utf8;

verus! {

/// The length in a prefix is under the prefix's limit.
pub proof fn lemma_prefix_value_bound(s: Seq<u8>, width: PrefixWidth)
    ensures
        prefix_value(s, width) < width.limit(),
{
}

/// A block that is read holds data shorter than its prefix's limit, and is
/// as long as the block of that data.
pub proof fn lemma_read_block_fits(s: Seq<u8>, at: int, width: PrefixWidth)
    ensures
        read_block(s, at, width) matches Some((data, next)) ==> data.len() < width.limit()
            && next == at + block(data, width).len(),
{
    reveal(read_block);
    if let Some((data, next)) = read_block(s, at, width) {
        lemma_prefix_value_bound(s.skip(at), width);
        lemma_block(data, width);
    }
}

/// A text that is read fits its length field, and is as long in the file as
/// its block.
pub proof fn lemma_parse_text_fits(s: Seq<u8>, at: int, width: PrefixWidth)
    ensures
        parse_text(s, at, width) matches Ok((text, next)) ==> text_fits(text, width) && next
            == at + block(utf8(text), width).len(),
{
    reveal(parse_text);
    lemma_read_block_fits(s, at, width);
    if let Some((data, next)) = read_block(s, at, width) {
        if text_of(data) is Some {
            decode_utf8_encode_utf8(data);
        }
    }
}

/// A track that is read fits its length fields, and is as long in the file
/// as its bytes.
pub proof fn lemma_parse_track_fits(s: Seq<u8>, at: int)
    ensures
        parse_track(s, at) matches Ok((t, next)) ==> track_encodable(t) && next == at
            + track_bytes(t).len(),
{
    reveal(parse_track);
    reveal(parse_track_bytes);
    if let Ok((t, next)) = parse_track(s, at) {
        lemma_u64_be_round_trip(t.id as u64);
        let p0 = at + 8;
        lemma_parse_text_fits(s, p0, PrefixWidth::One);
        let p1 = p0 + block(utf8(t.name), PrefixWidth::One).len();
        lemma_parse_text_fits(s, p1, PrefixWidth::One);
        let p2 = p1 + block(utf8(t.author), PrefixWidth::One).len();
        lemma_parse_text_fits(s, p2 + 4, PrefixWidth::One);
    }
}

/// Tracks that are read stand behind those that were read before, fit
/// their length fields, and are as long in the file as their bytes.
pub proof fn lemma_parse_tracks_fit(s: Seq<u8>, at: int, n: nat, acc: Seq<TrackView>)
    ensures
        parse_tracks(s, at, n, acc) matches Ok((tracks, next)) ==> {
            &&& tracks.len() == acc.len() + n
            &&& tracks.take(acc.len() as int) == acc
            &&& forall|i: int|
                acc.len() <= i < tracks.len() ==> track_encodable(#[trigger] tracks[i])
            &&& next == at + tracks_bytes(tracks.skip(acc.len() as int)).len()
        },
    decreases n,
{
    if n == 0 {
        assert(acc.take(acc.len() as int) =~= acc);
        assert(acc.skip(acc.len() as int) =~= Seq::<TrackView>::empty());
        lemma_tracks_bytes_front(Seq::<TrackView>::empty());
    } else {
        lemma_parse_track_fits(s, at);
        if let Ok((t, p)) = parse_track(s, at) {
            lemma_parse_tracks_fit(s, p, (n - 1) as nat, acc.push(t));
            if let Ok((tracks, next)) = parse_tracks(s, p, (n - 1) as nat, acc.push(t)) {
                let read = tracks.skip(acc.len() as int);
                assert(tracks.take(acc.len() as int) =~= tracks.take(acc.len() as int + 1).take(
                    acc.len() as int,
                ));
                assert(acc.push(t).take(acc.len() as int) =~= acc);
                assert(tracks[acc.len() as int] == tracks.take(acc.len() as int + 1)[acc.len()
                    as int]);
                assert(read[0] == t);
                assert(read.drop_first() =~= tracks.skip(acc.len() as int + 1));
                lemma_tracks_bytes_front(read);
            }
        }
    }
}

/// A cup that is read has four tracks, fits its length fields, and is as
/// long in the file as its bytes.
pub proof fn lemma_parse_cup_fits(s: Seq<u8>, at: int)
    ensures
        parse_cup(s, at) matches Ok((c, next)) ==> cup_encodable(c) && next == at + cup_bytes(
            c,
        ).len(),
{
    reveal(parse_cup);
    if let Ok((c, next)) = parse_cup(s, at) {
        lemma_parse_text_fits(s, at, PrefixWidth::One);
        let p1 = at + block(utf8(c.name), PrefixWidth::One).len();
        lemma_read_block_fits(s, p1, PrefixWidth::Eight);
        let p2 = p1 + block(c.icon.image, PrefixWidth::Eight).len();
        lemma_parse_text_fits(s, p2, PrefixWidth::One);
        let p3 = p2 + block(utf8(c.icon.filename), PrefixWidth::One).len();
        lemma_parse_tracks_fit(s, p3, 4, Seq::empty());
        assert(c.tracks.skip(0) =~= c.tracks);
    }
}

/// Cups that are read stand behind those that were read before, fit their
/// length fields, and are as long in the file as their bytes.
pub proof fn lemma_parse_cups_fit(s: Seq<u8>, at: int, n: nat, acc: Seq<CupView>)
    ensures
        parse_cups(s, at, n, acc) matches Ok((cups, next)) ==> {
            &&& cups.len() == acc.len() + n
            &&& cups.take(acc.len() as int) == acc
            &&& forall|i: int| acc.len() <= i < cups.len() ==> cup_encodable(#[trigger] cups[i])
            &&& next == at + cups_bytes(cups.skip(acc.len() as int)).len()
        },
    decreases n,
{
    if n == 0 {
        assert(acc.take(acc.len() as int) =~= acc);
        assert(acc.skip(acc.len() as int) =~= Seq::<CupView>::empty());
        lemma_cups_bytes_front(Seq::<CupView>::empty());
    } else {
        lemma_parse_cup_fits(s, at);
        if let Ok((c, p)) = parse_cup(s, at) {
            lemma_parse_cups_fit(s, p, (n - 1) as nat, acc.push(c));
            if let Ok((cups, next)) = parse_cups(s, p, (n - 1) as nat, acc.push(c)) {
                let read = cups.skip(acc.len() as int);
                assert(cups.take(acc.len() as int) =~= cups.take(acc.len() as int + 1).take(
                    acc.len() as int,
                ));
                assert(acc.push(c).take(acc.len() as int) =~= acc);
                assert(cups[acc.len() as int] == cups.take(acc.len() as int + 1)[acc.len()
                    as int]);
                assert(read[0] == c);
                assert(read.drop_first() =~= cups.skip(acc.len() as int + 1));
                lemma_cups_bytes_front(read);
            }
        }
    }
}

/// A roster that is read holds between one cup and 65535 cups that fit
/// their length fields, and is as long in the file as its block.
pub proof fn lemma_parse_roster_fits(s: Seq<u8>, at: int)
    ensures
        parse_roster(s, at) matches Ok((mode, cups, end)) ==> {
            &&& 1 <= cups.len() < 0x1_0000
            &&& forall|i: int| 0 <= i < cups.len() ==> cup_encodable(#[trigger] cups[i])
            &&& end == at + roster_block(mode, cups).len()
        },
{
    reveal(parse_roster);
    if let Ok((mode, cups, end)) = parse_roster(s, at) {
        let count = u16_from_be(s.skip(at + 2));
        lemma_parse_cups_fit(s, at + 16, count as nat, Seq::empty());
        assert(cups.skip(0) =~= cups);
        lemma_roster_block_len(mode, cups);
        let p = at + 16 + cups_bytes(cups).len();
        assert((p - at) as nat == 16 + cups_bytes(cups).len());
    }
}

/// A code that is read fits its length fields, and is as long in the file
/// as its bytes.
pub proof fn lemma_parse_code_fits(s: Seq<u8>, at: int)
    ensures
        parse_code(s, at) matches Ok((c, next)) ==> code_encodable(c) && next == at
            + code_bytes(c).len(),
{
    reveal(parse_code);
    if let Ok((c, next)) = parse_code(s, at) {
        lemma_parse_text_fits(s, at, PrefixWidth::Two);
        let p1 = at + block(utf8(c.name), PrefixWidth::Two).len();
        lemma_parse_text_fits(s, p1, PrefixWidth::Four);
        let p2 = p1 + block(utf8(c.ntsc), PrefixWidth::Four).len();
        lemma_parse_text_fits(s, p2, PrefixWidth::Four);
        let p3 = p2 + block(utf8(c.pal), PrefixWidth::Four).len();
        lemma_parse_text_fits(s, p3, PrefixWidth::Four);
        let p4 = p3 + block(utf8(c.jp), PrefixWidth::Four).len();
        lemma_parse_text_fits(s, p4, PrefixWidth::Four);
    }
}

/// Codes that are read stand behind those that were read before, fit
/// their length fields, and are as long in the file as their bytes.
pub proof fn lemma_parse_codes_fit(s: Seq<u8>, at: int, acc: Seq<CodeView>)
    ensures
        parse_codes(s, at, acc) matches Ok((codes, next)) ==> {
            &&& codes.len() >= acc.len()
            &&& codes.take(acc.len() as int) == acc
            &&& forall|i: int|
                acc.len() <= i < codes.len() ==> code_encodable(#[trigger] codes[i])
            &&& next == at + codes_bytes(codes.skip(acc.len() as int)).len()
        },
    decreases s.len() - at,
{
    if s.len() - at > 16 {
        lemma_parse_code_fits(s, at);
        lemma_parse_code_bounds(s, at);
        if let Ok((c, p)) = parse_code(s, at) {
            lemma_parse_codes_fit(s, p, acc.push(c));
            if let Ok((codes, next)) = parse_codes(s, p, acc.push(c)) {
                let read = codes.skip(acc.len() as int);
                assert(codes.take(acc.len() as int) =~= codes.take(acc.len() as int + 1).take(
                    acc.len() as int,
                ));
                assert(acc.push(c).take(acc.len() as int) =~= acc);
                assert(codes[acc.len() as int] == codes.take(acc.len() as int + 1)[acc.len()
                    as int]);
                assert(read[0] == c);
                assert(read.drop_first() =~= codes.skip(acc.len() as int + 1));
                lemma_codes_bytes_front(read);
            }
        }
    } else {
        assert(acc.take(acc.len() as int) =~= acc);
        assert(acc.skip(acc.len() as int) =~= Seq::<CodeView>::empty());
        lemma_codes_bytes_front(Seq::<CodeView>::empty());
    }
}

/// A cheat payload that is read holds at least one code, its codes fit
/// their length fields, and it is as long in the file as its size says,
/// which is the size of the payload of its codes.
pub proof fn lemma_parse_cheats_fits(s: Seq<u8>, at: int)
    ensures
        parse_cheats(s, at) matches Ok((codes, end)) ==> {
            &&& 1 <= codes.len()
            &&& forall|i: int| 0 <= i < codes.len() ==> code_encodable(#[trigger] codes[i])
            &&& end == at + cheat_payload_len(codes)
            &&& cheat_payload_len(codes) < 0x1_0000_0000
        },
{
    reveal(parse_cheats);
    if let Ok((codes, end)) = parse_cheats(s, at) {
        let len = u32_from_be(s.skip(at + 4));
        lemma_parse_codes_fit(s.take(at + len), at + 8, Seq::empty());
        assert(codes.skip(0) =~= codes);
        lemma_cheat_payload_len(codes);
        let p = at + 8 + codes_bytes(codes).len();
        assert((p - at) as nat == 8 + codes_bytes(codes).len());
    }
}

/// A configuration that is read from a project file fits the file format.
pub proof fn lemma_read_fits(s: Seq<u8>)
    ensures
        parse_project(s) matches Ok(m) ==> encodable(m),
{
    reveal(parse_project);
    if let Ok(m) = parse_project(s) {
        let size = u32_from_be(s.skip(8));
        let b = s.take(size as int);
        lemma_parse_roster_fits(b, 48);
        let p = 48 + roster_block(m.mode, m.cups).len() as int;
        lemma_parse_cheats_fits(b, p);
        lemma_parse_cheats_bounds(b, p);
        lemma_project_len(m);
    }
}

/// A configuration that is read from a project file, written again and
/// read again, is the same configuration.
pub proof fn lemma_read_written_read(s: Seq<u8>)
    ensures
        parse_project(s) matches Ok(m) ==> parse_project(project_bytes(m)) == Ok::<
            StateView,
            DecodeError,
        >(m),
{
    lemma_read_fits(s);
    if let Ok(m) = parse_project(s) {
        lemma_project_round_trip(m);
    }
}

} // verus!
