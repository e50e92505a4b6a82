//! Reading a project file.

use crate::apps::codes::code_views;
use crate::apps::ids::Id;
use crate::apps::tracks::{
    cup_views, track_views, Cup, CupSettings, GroupFlag, Icon, Track, TrackDefinition,
};
use crate::apps::{
    CheatCodeApp, CodeStruct, EngineProbSet, Region, SettingApp, SpeedometerMode, State,
    TrackDefApp,
};
use crate::project::layout::{encodable, magic, FILE_BUILD_NUMBER};
use crate::project::parse::{
    lemma_parse_code_bounds, lemma_parse_cups_bounds, parse_cheats, parse_code, parse_codes,
    parse_cup, parse_cups, parse_project, parse_roster, parse_settings, parse_text, parse_track,
    parse_track_bytes, parse_tracks, read_block, DecodeError,
};
use crate::project::laws_read::lemma_read_fits;
use crate::text::string_from_utf8;
use crate::wire::{
    i16_from_bits, i32_from_bits, i8_from_bits, padding_len, read_u16_be, read_u32_be,
    read_u64_be, PrefixWidth,
};
use vstd::prelude::*;
use vstd::slice::{slice_subrange, slice_to_vec};

verus! {

/// The block at `at`: a copy of its data and the position after its
/// padding, or `None` where the block does not lie inside `bytes`.
pub fn read_length_prefixed_bytes(bytes: &[u8], at: usize, width: PrefixWidth) -> (r: Option<
    (Vec<u8>, usize),
>)
    ensures
        match read_block(bytes@, at as int, width) {
            Some((data, next)) => r matches Some((v, n)) && v@ == data && n == next,
            None => r is None,
        },
{
    proof {
        reveal(padding_len);
        reveal(read_block);
    }
    let w: usize = width.size();
    let len: usize = bytes.len();
    if len < w || at > len - w {
        return None;
    }
    let n: u64 = match width {
        PrefixWidth::One => bytes[at] as u64,
        PrefixWidth::Two => match read_u16_be(bytes, at) {
            Some(v) => v as u64,
            None => { return None; },
        },
        PrefixWidth::Four => match read_u32_be(bytes, at) {
            Some(v) => v as u64,
            None => { return None; },
        },
        PrefixWidth::Eight => match read_u64_be(bytes, at) {
            Some(v) => v,
            None => { return None; },
        },
    };
    let room: usize = len - at - w;
    if n > room as u64 {
        return None;
    }
    let count: usize = n as usize;
    let fill: usize = 8 - (w + count) % 8;
    if fill > room - count {
        return None;
    }
    let start: usize = at + w;
    let end: usize = start + count;
    let data = slice_to_vec(slice_subrange(bytes, start, end));
    Some((data, end + fill))
}

/// The text in the block at `at`, and the position after the block.
pub fn read_text(bytes: &[u8], at: usize, width: PrefixWidth) -> (r: Result<
    (String, usize),
    DecodeError,
>)
    ensures
        match parse_text(bytes@, at as int, width) {
            Ok((text, next)) => r matches Ok((t, n)) && t@ == text && n == next,
            Err(e) => r matches Err(e2) && e2 == e,
        },
{
    proof {
        reveal(parse_text);
    }
    match read_length_prefixed_bytes(bytes, at, width) {
        None => Err(DecodeError::Truncated),
        Some((data, next)) => match string_from_utf8(data) {
            None => Err(DecodeError::InvalidField),
            Some(text) => Ok((text, next)),
        },
    }
}

/// The settings in the first twenty bytes of `a`.
pub fn decode_settings(a: &[u8]) -> (r: Result<SettingApp, DecodeError>)
    ensures
        r == parse_settings(a@),
{
    proof {
        reveal(parse_settings);
    }
    if a.len() < 20 {
        return Err(DecodeError::Truncated);
    }
    let som = match SpeedometerMode::from_usize(a[16] as usize) {
        None => { return Err(DecodeError::InvalidField); },
        Some(som) => som,
    };
    let low = match read_u32_be(a, 1) {
        Some(v) => v,
        None => { return Err(DecodeError::Truncated); },
    };
    let mid = match read_u32_be(a, 5) {
        Some(v) => v,
        None => { return Err(DecodeError::Truncated); },
    };
    let high = match read_u32_be(a, 9) {
        Some(v) => v,
        None => { return Err(DecodeError::Truncated); },
    };
    let cloud = match read_u16_be(a, 18) {
        Some(v) => v,
        None => { return Err(DecodeError::Truncated); },
    };
    Ok(
        SettingApp {
            toggle_200cc: a[0] != 0,
            engine_probs: EngineProbSet {
                low: i32_from_bits(low),
                mid: i32_from_bits(mid),
                high: i32_from_bits(high),
            },
            toggle_ct_tt: a[13] != 0,
            toggle_custom_presence: a[14] != 0,
            prevent_selection_online: i8_from_bits(a[15]),
            toggle_som: som,
            toggle_drag_blue: a[17] != 0,
            time_cloud: i16_from_bits(cloud),
        },
    )
}

/// The track at `at`, and the position after it.
pub fn read_track(bytes: &[u8], at: usize) -> (r: Result<(Track, usize), DecodeError>)
    ensures
        match parse_track(bytes@, at as int) {
            Ok((track, next)) => r matches Ok((t, n)) && t@ == track && n == next,
            Err(e) => r matches Err(e2) && e2 == e,
        },
{
    proof {
        reveal(parse_track);
        reveal(parse_track_bytes);
    }
    let len: usize = bytes.len();
    let id: u64 = match read_u64_be(bytes, at) {
        None => { return Err(DecodeError::Truncated); },
        Some(v) => v,
    };
    if id > usize::MAX as u64 {
        return Err(DecodeError::InvalidField);
    }
    let (name, p1) = match read_text(bytes, at + 8, PrefixWidth::One) {
        Err(e) => { return Err(e); },
        Ok(v) => v,
    };
    let (author, p2) = match read_text(bytes, p1, PrefixWidth::One) {
        Err(e) => { return Err(e); },
        Ok(v) => v,
    };
    if len < 4 || p2 > len - 4 {
        return Err(DecodeError::Truncated);
    }
    let property = Id::from_u8(bytes[p2]);
    let music = Id::from_u8(bytes[p2 + 1]);
    let flag = GroupFlag::from_u8(bytes[p2 + 3]);
    let (property, music, flag) = match (property, music, flag) {
        (Some(property), Some(music), Some(flag)) => (property, music, flag),
        _ => { return Err(DecodeError::InvalidField); },
    };
    let new: bool = bytes[p2 + 2] != 0;
    let (filename, p3) = match read_text(bytes, p2 + 4, PrefixWidth::One) {
        Err(e) => { return Err(e); },
        Ok(v) => v,
    };
    Ok((Track { id: id as usize, name, author, property, music, new, flag, filename }, p3))
}

/// The cup at `at` with its four tracks, and the position after it.
#[verifier::loop_isolation(false)]
pub fn read_cup(bytes: &[u8], at: usize) -> (r: Result<(Cup, usize), DecodeError>)
    ensures
        match parse_cup(bytes@, at as int) {
            Ok((cup, next)) => r matches Ok((c, n)) && c@ == cup && c.wf() && n == next,
            Err(e) => r matches Err(e2) && e2 == e,
        },
{
    proof {
        reveal(parse_cup);
    }
    let (name, p1) = match read_text(bytes, at, PrefixWidth::One) {
        Err(e) => { return Err(e); },
        Ok(v) => v,
    };
    let (image, p2) = match read_length_prefixed_bytes(bytes, p1, PrefixWidth::Eight) {
        None => { return Err(DecodeError::Truncated); },
        Some(v) => v,
    };
    let (filename, p3) = match read_text(bytes, p2, PrefixWidth::One) {
        Err(e) => { return Err(e); },
        Ok(v) => v,
    };
    let mut trackset: Vec<Track> = Vec::new();
    let mut pos: usize = p3;
    let mut i: usize = 0;
    assert(track_views(trackset@) =~= Seq::empty());
    while i < 4
        invariant
            i <= 4,
            trackset@.len() == i,
            parse_tracks(bytes@, p3 as int, 4, Seq::empty()) == parse_tracks(
                bytes@,
                pos as int,
                (4 - i) as nat,
                track_views(trackset@),
            ),
        decreases 4 - i,
    {
        let ghost before = track_views(trackset@);
        match read_track(bytes, pos) {
            Err(e) => { return Err(e); },
            Ok((track, next)) => {
                trackset.push(track);
                pos = next;
            },
        }
        assert(track_views(trackset@) =~= before.push(trackset@[i as int]@));
        i += 1;
    }
    Ok((Cup { icon: Icon { filename, image }, name, trackset }, pos))
}

/// The roster block at `at`, and the position after the block's padding.
/// The first cup is the selected one.
#[verifier::loop_isolation(false)]
pub fn decode_cups(bytes: &[u8], at: usize) -> (r: Result<(TrackDefinition, usize), DecodeError>)
    ensures
        match parse_roster(bytes@, at as int) {
            Ok((mode, cups, next)) => r matches Ok((roster, n)) && roster.mode == mode
                && roster@ == cups && roster.selected == 0 && roster.wf() && n == next,
            Err(e) => r matches Err(e2) && e2 == e,
        },
{
    proof {
        reveal(padding_len);
        reveal(parse_roster);
    }
    let len: usize = bytes.len();
    if len < 16 || at > len - 16 {
        return Err(DecodeError::Truncated);
    }
    let mode = match CupSettings::from_u8(bytes[at]) {
        None => { return Err(DecodeError::InvalidField); },
        Some(mode) => mode,
    };
    let count: u16 = match read_u16_be(bytes, at + 2) {
        None => { return Err(DecodeError::Truncated); },
        Some(v) => v,
    };
    if count == 0 {
        return Err(DecodeError::InvalidField);
    }
    let mut cups: Vec<Cup> = Vec::new();
    let mut pos: usize = at + 16;
    let mut i: u16 = 0;
    assert(cup_views(cups@) =~= Seq::empty());
    while i < count
        invariant
            i <= count,
            cups@.len() == i,
            forall|k: int| 0 <= k < cups@.len() ==> (#[trigger] cups@[k]).wf(),
            parse_cups(bytes@, at + 16, count as nat, Seq::empty()) == parse_cups(
                bytes@,
                pos as int,
                (count - i) as nat,
                cup_views(cups@),
            ),
        decreases count - i,
    {
        let ghost before = cup_views(cups@);
        match read_cup(bytes, pos) {
            Err(e) => { return Err(e); },
            Ok((cup, next)) => {
                cups.push(cup);
                pos = next;
            },
        }
        assert(cup_views(cups@) =~= before.push(cups@[i as int]@));
        i += 1;
    }
    proof {
        lemma_parse_cups_bounds(bytes@, at + 16, count as nat, Seq::empty());
    }
    let fill: usize = 16 - (pos - at) % 16;
    if fill > len - pos {
        return Err(DecodeError::Truncated);
    }
    Ok((TrackDefinition { mode, selected: 0, cups }, pos + fill))
}

/// The cheat code at `at`, and the position after it.
pub fn read_code(bytes: &[u8], at: usize) -> (r: Result<(CodeStruct, usize), DecodeError>)
    ensures
        match parse_code(bytes@, at as int) {
            Ok((code, next)) => r matches Ok((c, n)) && c@ == code && n == next,
            Err(e) => r matches Err(e2) && e2 == e,
        },
{
    proof {
        reveal(parse_code);
    }
    let (name, p1) = match read_text(bytes, at, PrefixWidth::Two) {
        Err(e) => { return Err(e); },
        Ok(v) => v,
    };
    let (code_ntsc, p2) = match read_text(bytes, p1, PrefixWidth::Four) {
        Err(e) => { return Err(e); },
        Ok(v) => v,
    };
    let (code_pal, p3) = match read_text(bytes, p2, PrefixWidth::Four) {
        Err(e) => { return Err(e); },
        Ok(v) => v,
    };
    let (code_jp, p4) = match read_text(bytes, p3, PrefixWidth::Four) {
        Err(e) => { return Err(e); },
        Ok(v) => v,
    };
    let (code_kor, p5) = match read_text(bytes, p4, PrefixWidth::Four) {
        Err(e) => { return Err(e); },
        Ok(v) => v,
    };
    Ok((CodeStruct { name, code_ntsc, code_pal, code_jp, code_kor }, p5))
}

/// The cheat payload at `at` as a code list with the switch set to
/// `enabled`, and the position after the payload. The first code is the
/// selected one, for the first region.
#[verifier::loop_isolation(false)]
pub fn decode_cheats(bytes: &[u8], at: usize, enabled: bool) -> (r: Result<
    (CheatCodeApp, usize),
    DecodeError,
>)
    ensures
        match parse_cheats(bytes@, at as int) {
            Ok((codes, next)) => r matches Ok((app, n)) && app@ == codes && app.enabled
                == enabled && app.selected_code == 0 && app.selected_region == Region::NTSC
                && app.wf() && n == next,
            Err(e) => r matches Err(e2) && e2 == e,
        },
{
    proof {
        reveal(padding_len);
        reveal(parse_cheats);
    }
    let len: usize = bytes.len();
    if len < 8 || at > len - 8 {
        return Err(DecodeError::Truncated);
    }
    let size: u32 = match read_u32_be(bytes, at + 4) {
        None => { return Err(DecodeError::Truncated); },
        Some(v) => v,
    };
    if size as u64 > (len - at) as u64 {
        return Err(DecodeError::Truncated);
    }
    if size < 16 {
        return Err(DecodeError::InvalidField);
    }
    let end: usize = at + size as usize;
    let payload = slice_subrange(bytes, 0, end);
    assert(payload@ == bytes@.take(end as int));
    let mut codes: Vec<CodeStruct> = Vec::new();
    let mut pos: usize = at + 8;
    assert(code_views(codes@) =~= Seq::empty());
    while end - pos > 16
        invariant
            at + 8 <= pos <= end,
            end == payload@.len(),
            parse_codes(payload@, at + 8, Seq::empty()) == parse_codes(
                payload@,
                pos as int,
                code_views(codes@),
            ),
        decreases end - pos,
    {
        let ghost before = code_views(codes@);
        match read_code(payload, pos) {
            Err(e) => { return Err(e); },
            Ok((code, next)) => {
                proof {
                    lemma_parse_code_bounds(payload@, pos as int);
                }
                codes.push(code);
                pos = next;
            },
        }
        assert(code_views(codes@) =~= before.push(codes@[codes@.len() - 1]@));
    }
    if codes.len() == 0 {
        return Err(DecodeError::InvalidField);
    }
    let fill: usize = 16 - (pos - at) % 16;
    if fill != end - pos {
        return Err(DecodeError::InvalidField);
    }
    Ok((CheatCodeApp { enabled, selected_code: 0, selected_region: Region::NTSC, codes }, end))
}

/// Whether `bytes` start with the magic of a project file.
pub fn has_magic(bytes: &[u8]) -> (r: bool)
    ensures
        r == (bytes@.len() >= 8 && bytes@.subrange(0, 8) == magic()),
{
    if bytes.len() < 8 {
        return false;
    }
    let r = bytes[0] == 0x5A && bytes[1] == 0x52 && bytes[2] == 0x50 && bytes[3] == 0x30
        && bytes[4] == 0x44 && bytes[5] == 0x49 && bytes[6] == 0x42 && bytes[7] == 0x31;
    proof {
        let head = bytes@.subrange(0, 8);
        let m = magic();
        if r {
            assert(head =~= m);
        } else {
            assert(head[0] == bytes@[0] && head[1] == bytes@[1] && head[2] == bytes@[2]
                && head[3] == bytes@[3] && head[4] == bytes@[4] && head[5] == bytes@[5]
                && head[6] == bytes@[6] && head[7] == bytes@[7]);
        }
    }
    r
}

/// The configuration that the project file `bytes` holds, or why it holds
/// none. Nothing is returned of a file that is cut short or damaged. A
/// configuration that is returned is well formed and fits the file format,
/// and its first cup and its first code are the selected ones.
pub fn decode_project(bytes: &[u8]) -> (r: Result<State, DecodeError>)
    ensures
        match parse_project(bytes@) {
            Ok(m) => r matches Ok(state) && state@ == m && state.wf()
                && state.tracks.editor.selected == 0 && state.codes.selected_code == 0
                && state.codes.selected_region == Region::NTSC,
            Err(e) => r matches Err(e2) && e2 == e,
        },
        r matches Ok(state) ==> encodable(state@),
{
    proof {
        lemma_read_fits(bytes@);
        reveal(parse_project);
    }
    if bytes.len() < 16 {
        return Err(DecodeError::Truncated);
    }
    if !has_magic(bytes) {
        return Err(DecodeError::MagicMismatch);
    }
    let version: u16 = match read_u16_be(bytes, 12) {
        None => { return Err(DecodeError::Truncated); },
        Some(v) => v,
    };
    if version != FILE_BUILD_NUMBER {
        return Err(DecodeError::VersionMismatch);
    }
    let size: u32 = match read_u32_be(bytes, 8) {
        None => { return Err(DecodeError::Truncated); },
        Some(v) => v,
    };
    if size as u64 > bytes.len() as u64 || size < 48 {
        return Err(DecodeError::Truncated);
    }
    let body = slice_subrange(bytes, 0, size as usize);
    assert(body@ == bytes@.take(size as int));
    let flag: u16 = match read_u16_be(body, 14) {
        None => { return Err(DecodeError::Truncated); },
        Some(v) => v,
    };
    let settings = match decode_settings(slice_subrange(body, 16, 48)) {
        Err(e) => { return Err(e); },
        Ok(v) => v,
    };
    let (editor, p) = match decode_cups(body, 48) {
        Err(e) => { return Err(e); },
        Ok(v) => v,
    };
    let (codes, _end) = match decode_cheats(body, p, flag != 0) {
        Err(e) => { return Err(e); },
        Ok(v) => v,
    };
    Ok(State { settings, codes, tracks: TrackDefApp { editor } })
}

} // verus!
