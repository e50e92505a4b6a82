//! Reading a project file, as a function from bytes to the configuration
//! they stand for or to the reason why they stand for none.
//!
//! Padding bytes are skipped without a look at their values, and bytes
//! after the size that the header gives are ignored.

use crate::apps::codes::CodeView;
use crate::apps::ids::Id;
use crate::apps::tracks::{CupSettings, CupView, GroupFlag, IconView, TrackView};
use crate::apps::{EngineProbSet, SettingApp, SpeedometerMode, StateView};
use crate::project::layout::{magic, FILE_BUILD_NUMBER};
use crate::text::text_of;
use crate::wire::{
    block_len, i16_of_bits, i32_of_bits, i8_of_bits, padding_len, prefix_value, u16_from_be,
    u32_from_be, u64_from_be, PrefixWidth,
};
use vstd::prelude::*;

verus! {

/// Why bytes are not a project file.
#[derive(Debug, PartialEq, Eq, Structural, Clone, Copy)]
pub enum DecodeError {
    /// The first eight bytes are not the magic.
    MagicMismatch,
    /// The file is of another format version.
    VersionMismatch,
    /// The bytes end before a field or a section does.
    Truncated,
    /// A field holds a value that stands for nothing: a byte outside an
    /// enumeration, text that is not UTF-8, an empty roster or code list, or
    /// a length that does not agree with what it measures.
    InvalidField,
}

/// The block at `at`: its data and the position after its padding, or
/// `None` where the block does not lie inside `s`.
#[verifier::opaque]
pub open spec fn read_block(s: Seq<u8>, at: int, width: PrefixWidth) -> Option<(Seq<u8>, int)> {
    if 0 <= at && at + width.bytes() <= s.len() {
        let n = prefix_value(s.skip(at), width);
        let next = at + block_len(n, width);
        if next <= s.len() {
            Some((s.subrange(at + width.bytes(), at + width.bytes() + n), next))
        } else {
            None
        }
    } else {
        None
    }
}

/// The text in the block at `at`, and the position after the block.
#[verifier::opaque]
pub open spec fn parse_text(s: Seq<u8>, at: int, width: PrefixWidth) -> Result<
    (Seq<char>, int),
    DecodeError,
> {
    match read_block(s, at, width) {
        None => Err(DecodeError::Truncated),
        Some((data, next)) => match text_of(data) {
            None => Err(DecodeError::InvalidField),
            Some(text) => Ok((text, next)),
        },
    }
}

/// The settings in the first twenty bytes of `a`. A byte that is not zero
/// is a switch that is on.
#[verifier::opaque]
pub open spec fn parse_settings(a: Seq<u8>) -> Result<SettingApp, DecodeError> {
    if a.len() < 20 {
        Err(DecodeError::Truncated)
    } else {
        match SpeedometerMode::at(a[16] as nat) {
            None => Err(DecodeError::InvalidField),
            Some(som) => Ok(
                SettingApp {
                    toggle_200cc: a[0] != 0,
                    engine_probs: EngineProbSet {
                        low: i32_of_bits(u32_from_be(a.skip(1))),
                        mid: i32_of_bits(u32_from_be(a.skip(5))),
                        high: i32_of_bits(u32_from_be(a.skip(9))),
                    },
                    toggle_ct_tt: a[13] != 0,
                    toggle_custom_presence: a[14] != 0,
                    prevent_selection_online: i8_of_bits(a[15]),
                    toggle_som: som,
                    toggle_drag_blue: a[17] != 0,
                    time_cloud: i16_of_bits(u16_from_be(a.skip(18))),
                },
            ),
        }
    }
}

/// The four single bytes of a track: property, music, the new switch and
/// the group flag.
#[verifier::opaque]
pub open spec fn parse_track_bytes(s: Seq<u8>, at: int) -> Result<
    (Id, Id, bool, GroupFlag),
    DecodeError,
> {
    if !(0 <= at && at + 4 <= s.len()) {
        Err(DecodeError::Truncated)
    } else {
        match (Id::at(s[at] as nat), Id::at(s[at + 1] as nat), GroupFlag::at(s[at + 3] as nat)) {
            (Some(property), Some(music), Some(flag)) => Ok(
                (property, music, s[at + 2] != 0, flag),
            ),
            _ => Err(DecodeError::InvalidField),
        }
    }
}

/// The track at `at`, and the position after it.
#[verifier::opaque]
pub open spec fn parse_track(s: Seq<u8>, at: int) -> Result<(TrackView, int), DecodeError> {
    if !(0 <= at && at + 8 <= s.len()) {
        Err(DecodeError::Truncated)
    } else if u64_from_be(s.skip(at)) > usize::MAX {
        Err(DecodeError::InvalidField)
    } else {
        match parse_text(s, at + 8, PrefixWidth::One) {
            Err(e) => Err(e),
            Ok((name, p1)) => match parse_text(s, p1, PrefixWidth::One) {
                Err(e) => Err(e),
                Ok((author, p2)) => match parse_track_bytes(s, p2) {
                    Err(e) => Err(e),
                    Ok((property, music, new, flag)) => match parse_text(
                        s,
                        p2 + 4,
                        PrefixWidth::One,
                    ) {
                        Err(e) => Err(e),
                        Ok((filename, p3)) => Ok(
                            (
                                TrackView {
                                    id: u64_from_be(s.skip(at)) as usize,
                                    name,
                                    author,
                                    property,
                                    music,
                                    new,
                                    flag,
                                    filename,
                                },
                                p3,
                            ),
                        ),
                    },
                },
            },
        }
    }
}

/// `n` tracks from `at` on, added to `acc`, and the position after them.
pub open spec fn parse_tracks(s: Seq<u8>, at: int, n: nat, acc: Seq<TrackView>) -> Result<
    (Seq<TrackView>, int),
    DecodeError,
>
    decreases n,
{
    if n == 0 {
        Ok((acc, at))
    } else {
        match parse_track(s, at) {
            Err(e) => Err(e),
            Ok((t, next)) => parse_tracks(s, next, (n - 1) as nat, acc.push(t)),
        }
    }
}

/// The cup at `at` with its four tracks, and the position after it.
#[verifier::opaque]
pub open spec fn parse_cup(s: Seq<u8>, at: int) -> Result<(CupView, int), DecodeError> {
    match parse_text(s, at, PrefixWidth::One) {
        Err(e) => Err(e),
        Ok((name, p1)) => match read_block(s, p1, PrefixWidth::Eight) {
            None => Err(DecodeError::Truncated),
            Some((image, p2)) => match parse_text(s, p2, PrefixWidth::One) {
                Err(e) => Err(e),
                Ok((filename, p3)) => match parse_tracks(s, p3, 4, Seq::empty()) {
                    Err(e) => Err(e),
                    Ok((tracks, p4)) => Ok(
                        (CupView { name, icon: IconView { filename, image }, tracks }, p4),
                    ),
                },
            },
        },
    }
}

/// `n` cups from `at` on, added to `acc`, and the position after them.
pub open spec fn parse_cups(s: Seq<u8>, at: int, n: nat, acc: Seq<CupView>) -> Result<
    (Seq<CupView>, int),
    DecodeError,
>
    decreases n,
{
    if n == 0 {
        Ok((acc, at))
    } else {
        match parse_cup(s, at) {
            Err(e) => Err(e),
            Ok((c, next)) => parse_cups(s, next, (n - 1) as nat, acc.push(c)),
        }
    }
}

/// The roster block at `at`: the cup switches, the cups, and the position
/// after the block's padding. A switch byte with a bit above the three, and
/// a roster without cups, are invalid.
#[verifier::opaque]
pub open spec fn parse_roster(s: Seq<u8>, at: int) -> Result<
    (CupSettings, Seq<CupView>, int),
    DecodeError,
> {
    if !(0 <= at && at + 16 <= s.len()) {
        Err(DecodeError::Truncated)
    } else {
        match CupSettings::of_bits(s[at] as nat) {
            None => Err(DecodeError::InvalidField),
            Some(mode) => {
                let count = u16_from_be(s.skip(at + 2));
                if count == 0 {
                    Err(DecodeError::InvalidField)
                } else {
                    match parse_cups(s, at + 16, count as nat, Seq::empty()) {
                        Err(e) => Err(e),
                        Ok((cups, p)) => {
                            let end = p + padding_len((p - at) as nat, 16);
                            if end > s.len() {
                                Err(DecodeError::Truncated)
                            } else {
                                Ok((mode, cups, end))
                            }
                        },
                    }
                }
            },
        }
    }
}

/// The cheat code at `at`, and the position after it.
#[verifier::opaque]
pub open spec fn parse_code(s: Seq<u8>, at: int) -> Result<(CodeView, int), DecodeError> {
    match parse_text(s, at, PrefixWidth::Two) {
        Err(e) => Err(e),
        Ok((name, p1)) => match parse_text(s, p1, PrefixWidth::Four) {
            Err(e) => Err(e),
            Ok((ntsc, p2)) => match parse_text(s, p2, PrefixWidth::Four) {
                Err(e) => Err(e),
                Ok((pal, p3)) => match parse_text(s, p3, PrefixWidth::Four) {
                    Err(e) => Err(e),
                    Ok((jp, p4)) => match parse_text(s, p4, PrefixWidth::Four) {
                        Err(e) => Err(e),
                        Ok((kor, p5)) => Ok((CodeView { name, ntsc, pal, jp, kor }, p5)),
                    },
                },
            },
        }
    }
}

/// Codes from `at` on, added to `acc`, for as long as more than the 16
/// bytes that padding can take are left in `s`; and the position after the
/// last code.
pub open spec fn parse_codes(s: Seq<u8>, at: int, acc: Seq<CodeView>) -> Result<
    (Seq<CodeView>, int),
    DecodeError,
>
    decreases s.len() - at,
{
    if s.len() - at > 16 {
        match parse_code(s, at) {
            Err(e) => Err(e),
            Ok((c, next)) => {
                proof {
                    lemma_parse_code_bounds(s, at);
                }
                parse_codes(s, next, acc.push(c))
            },
        }
    } else {
        Ok((acc, at))
    }
}

/// The cheat payload at `at`: its codes and the position after it. The
/// length in the payload's head must be that of the head, the codes and
/// their padding to 16 bytes, and there must be at least one code.
#[verifier::opaque]
pub open spec fn parse_cheats(s: Seq<u8>, at: int) -> Result<(Seq<CodeView>, int), DecodeError> {
    if !(0 <= at && at + 8 <= s.len()) {
        Err(DecodeError::Truncated)
    } else {
        let len = u32_from_be(s.skip(at + 4));
        if at + len > s.len() {
            Err(DecodeError::Truncated)
        } else if len < 16 {
            Err(DecodeError::InvalidField)
        } else {
            match parse_codes(s.take(at + len), at + 8, Seq::empty()) {
                Err(e) => Err(e),
                Ok((codes, p)) => if codes.len() == 0 || p + padding_len((p - at) as nat, 16)
                    != at + len {
                    Err(DecodeError::InvalidField)
                } else {
                    Ok((codes, at + len))
                },
            }
        }
    }
}

/// The configuration that the project file `s` stands for.
///
/// Bytes shorter than the header, than the size the header gives, or than
/// a field or section inside, are truncated; the magic is tested before the
/// version, and both before anything else is read.
#[verifier::opaque]
pub open spec fn parse_project(s: Seq<u8>) -> Result<StateView, DecodeError> {
    if s.len() < 16 {
        Err(DecodeError::Truncated)
    } else if s.subrange(0, 8) != magic() {
        Err(DecodeError::MagicMismatch)
    } else if u16_from_be(s.skip(12)) != FILE_BUILD_NUMBER {
        Err(DecodeError::VersionMismatch)
    } else {
        let size = u32_from_be(s.skip(8));
        if size > s.len() || size < 48 {
            Err(DecodeError::Truncated)
        } else {
            let b = s.take(size as int);
            match parse_settings(b.subrange(16, 48)) {
                Err(e) => Err(e),
                Ok(settings) => match parse_roster(b, 48) {
                    Err(e) => Err(e),
                    Ok((mode, cups, p)) => match parse_cheats(b, p) {
                        Err(e) => Err(e),
                        Ok((codes, _end)) => Ok(
                            StateView {
                                settings,
                                cheats_enabled: u16_from_be(b.skip(14)) != 0,
                                codes,
                                mode,
                                cups,
                            },
                        ),
                    },
                },
            }
        }
    }
}

/// A block that was read ends inside `s`, at least eight bytes after its
/// start.
pub proof fn lemma_read_block_bounds(s: Seq<u8>, at: int, width: PrefixWidth)
    ensures
        read_block(s, at, width) matches Some((_, next)) ==> 0 <= at && at + 8 <= next
            <= s.len(),
{
    reveal(read_block);
    if read_block(s, at, width) is Some {
        let n = prefix_value(s.skip(at), width);
        crate::wire::lemma_padding_len(width.bytes() + n, 8);
        assert((width.bytes() + n + padding_len(width.bytes() + n, 8)) % 8 == 0);
    }
}

/// A text that was read ends inside `s`, at least eight bytes after its
/// start.
pub proof fn lemma_parse_text_bounds(s: Seq<u8>, at: int, width: PrefixWidth)
    ensures
        parse_text(s, at, width) matches Ok((_, next)) ==> 0 <= at && at + 8 <= next
            <= s.len(),
{
    reveal(parse_text);
    lemma_read_block_bounds(s, at, width);
}

/// A code that was read ends inside `s`, at least forty bytes after its
/// start.
pub proof fn lemma_parse_code_bounds(s: Seq<u8>, at: int)
    ensures
        parse_code(s, at) matches Ok((_, next)) ==> 0 <= at && at + 40 <= next <= s.len(),
{
    reveal(parse_code);
    if let Ok((_, p1)) = parse_text(s, at, PrefixWidth::Two) {
        lemma_parse_text_bounds(s, at, PrefixWidth::Two);
        if let Ok((_, p2)) = parse_text(s, p1, PrefixWidth::Four) {
            lemma_parse_text_bounds(s, p1, PrefixWidth::Four);
            if let Ok((_, p3)) = parse_text(s, p2, PrefixWidth::Four) {
                lemma_parse_text_bounds(s, p2, PrefixWidth::Four);
                if let Ok((_, p4)) = parse_text(s, p3, PrefixWidth::Four) {
                    lemma_parse_text_bounds(s, p3, PrefixWidth::Four);
                    lemma_parse_text_bounds(s, p4, PrefixWidth::Four);
                }
            }
        }
    }
}

/// A track that was read ends inside `s`, after its start.
pub proof fn lemma_parse_track_bounds(s: Seq<u8>, at: int)
    ensures
        parse_track(s, at) matches Ok((_, next)) ==> 0 <= at < next <= s.len(),
{
    reveal(parse_track);
    reveal(parse_track_bytes);
    if let Ok((_, p1)) = parse_text(s, at + 8, PrefixWidth::One) {
        lemma_parse_text_bounds(s, at + 8, PrefixWidth::One);
        if let Ok((_, p2)) = parse_text(s, p1, PrefixWidth::One) {
            lemma_parse_text_bounds(s, p1, PrefixWidth::One);
            lemma_parse_text_bounds(s, p2 + 4, PrefixWidth::One);
        }
    }
}

/// Tracks that were read end inside `s`, not before their start, and are
/// as many more as were asked for.
pub proof fn lemma_parse_tracks_bounds(s: Seq<u8>, at: int, n: nat, acc: Seq<TrackView>)
    requires
        0 <= at <= s.len(),
    ensures
        parse_tracks(s, at, n, acc) matches Ok((tracks, next)) ==> at <= next <= s.len()
            && tracks.len() == acc.len() + n,
    decreases n,
{
    if n > 0 {
        lemma_parse_track_bounds(s, at);
        if let Ok((t, next)) = parse_track(s, at) {
            lemma_parse_tracks_bounds(s, next, (n - 1) as nat, acc.push(t));
        }
    }
}

/// A cup that was read ends inside `s`, after its start, and has four
/// tracks.
pub proof fn lemma_parse_cup_bounds(s: Seq<u8>, at: int)
    ensures
        parse_cup(s, at) matches Ok((cup, next)) ==> 0 <= at < next <= s.len()
            && cup.tracks.len() == 4,
{
    reveal(parse_cup);
    if let Ok((_, p1)) = parse_text(s, at, PrefixWidth::One) {
        lemma_parse_text_bounds(s, at, PrefixWidth::One);
        if let Some((_, p2)) = read_block(s, p1, PrefixWidth::Eight) {
            lemma_read_block_bounds(s, p1, PrefixWidth::Eight);
            if let Ok((_, p3)) = parse_text(s, p2, PrefixWidth::One) {
                lemma_parse_text_bounds(s, p2, PrefixWidth::One);
                lemma_parse_tracks_bounds(s, p3, 4, Seq::empty());
            }
        }
    }
}

/// Cups that were read end inside `s`, not before their start, and are as
/// many more as were asked for.
pub proof fn lemma_parse_cups_bounds(s: Seq<u8>, at: int, n: nat, acc: Seq<CupView>)
    requires
        0 <= at <= s.len(),
    ensures
        parse_cups(s, at, n, acc) matches Ok((cups, next)) ==> at <= next <= s.len()
            && cups.len() == acc.len() + n,
    decreases n,
{
    if n > 0 {
        lemma_parse_cup_bounds(s, at);
        if let Ok((c, next)) = parse_cup(s, at) {
            lemma_parse_cups_bounds(s, next, (n - 1) as nat, acc.push(c));
        }
    }
}

/// A cheat payload that was read ends inside `s`.
pub proof fn lemma_parse_cheats_bounds(s: Seq<u8>, at: int)
    ensures
        parse_cheats(s, at) matches Ok((_, end)) ==> 0 <= at && end <= s.len(),
{
    reveal(parse_cheats);
}

} // verus!
