use mkw_distro_tool::apps::ids::Id;
use mkw_distro_tool::apps::tracks::{Cup, CupSettings, GroupFlag, Icon, Track, TrackDefinition};
use mkw_distro_tool::apps::{
    CheatCodeApp, CodeStruct, EngineProbSet, Region, SettingApp, SpeedometerMode, State,
    TrackDefApp,
};
use mkw_distro_tool::project::decode::{
    decode_cheats, decode_cups, decode_project, decode_settings, has_magic, read_code, read_cup,
    read_length_prefixed_bytes, read_text, read_track,
};
use mkw_distro_tool::project::encode::{
    bool_to_byte, encode_cheats, encode_cups, encode_project, encode_settings, patch_u32_be,
    write_code, write_cup, write_magic, write_text, write_track,
};
use mkw_distro_tool::project::fit::{code_fits, cup_fits, text_fits_prefix, track_fits};
use mkw_distro_tool::project::layout::FILE_BUILD_NUMBER;
use mkw_distro_tool::project::parse::DecodeError;
use mkw_distro_tool::wire::PrefixWidth;

fn example_settings() -> SettingApp {
    SettingApp {
        toggle_200cc: false,
        engine_probs: EngineProbSet { low: 10, mid: 60, high: 30 },
        toggle_ct_tt: false,
        toggle_custom_presence: true,
        prevent_selection_online: 0,
        toggle_som: SpeedometerMode::Two,
        toggle_drag_blue: true,
        time_cloud: 300,
    }
}

fn track(id: usize, name: &str, author: &str, file: &str) -> Track {
    Track {
        id,
        name: String::from(name),
        author: String::from(author),
        property: Id::CoconutMall,
        music: Id::GalaxyArena,
        new: id % 2 == 1,
        flag: if id % 3 == 0 { GroupFlag::Header } else { GroupFlag::Child },
        filename: String::from(file),
    }
}

fn cup(n: usize, name: &str, icon: Icon) -> Cup {
    Cup {
        icon,
        name: String::from(name),
        trackset: vec![
            track(n * 4, "Sunset Ridge", "Ann", "tracks/sunset.szs"),
            track(n * 4 + 1, "Caf\u{e9} Loop", "B\u{f6}rje", "tracks/cafe.szs"),
            track(n * 4 + 2, "", "", ""),
            track(n * 4 + 3, "\u{96ea}\u{5c71}", "\u{1F3C1}", "C:\\tracks\\yuki.szs"),
        ],
    }
}

fn code(name: &str, ntsc: &str, pal: &str, jp: &str, kor: &str) -> CodeStruct {
    CodeStruct {
        name: String::from(name),
        code_ntsc: String::from(ntsc),
        code_pal: String::from(pal),
        code_jp: String::from(jp),
        code_kor: String::from(kor),
    }
}

fn rich_state(cups: usize, codes: usize) -> State {
    let mut roster = Vec::new();
    for n in 0..cups {
        let icon = if n % 2 == 0 {
            Icon::default()
        } else {
            Icon {
                filename: format!("icon{}.png", n),
                image: (0..(n * 37 + 5)).map(|i| (i * 7 + n) as u8).collect(),
            }
        };
        roster.push(cup(n, &format!("Cup number {}", n), icon));
    }
    let mut list = Vec::new();
    for n in 0..codes {
        list.push(code(
            &format!("Code {}", n),
            "04112233 00000000\nC2556677 00000002",
            if n % 2 == 0 { "" } else { "04AABBCC 00000001" },
            "",
            &"0".repeat(n * 11),
        ));
    }
    State {
        settings: SettingApp {
            toggle_200cc: true,
            engine_probs: EngineProbSet { low: -1, mid: i32::MAX, high: i32::MIN },
            toggle_ct_tt: true,
            toggle_custom_presence: false,
            prevent_selection_online: -7,
            toggle_som: SpeedometerMode::Three,
            toggle_drag_blue: false,
            time_cloud: -612,
        },
        codes: CheatCodeApp {
            enabled: true,
            selected_code: 0,
            selected_region: Region::NTSC,
            codes: list,
        },
        tracks: TrackDefApp {
            editor: TrackDefinition {
                mode: CupSettings { nintendo: false, nin_swap: true, wiimm_cup: false },
                selected: 0,
                cups: roster,
            },
        },
    }
}

#[test]
fn the_layout_constants() {
    assert_eq!(FILE_BUILD_NUMBER, 4);
    assert_eq!(bool_to_byte(true), 1);
    assert_eq!(bool_to_byte(false), 0);
}

#[test]
fn the_settings_block_follows_the_layout_field_by_field() {
    let block = encode_settings(&example_settings());
    let fields: [u8; 20] = [
        0, // 200cc
        0, 0, 0, 10, // low
        0, 0, 0, 60, // mid
        0, 0, 0, 30, // high
        0, // custom tracks in time trial
        1, // presence flags
        0, // block count
        3, // speedometer: two decimals
        1, // blue shell
        0x01, 0x2C, // cloud time 300
    ];
    assert_eq!(&block[..20], &fields);
    assert_eq!(block.len(), 32);
    assert_eq!(&block[20..], &[0u8; 12]);
}

#[test]
fn settings_with_every_switch_the_other_way() {
    let s = SettingApp {
        toggle_200cc: true,
        engine_probs: EngineProbSet { low: -1, mid: 0x01020304, high: i32::MIN },
        toggle_ct_tt: true,
        toggle_custom_presence: false,
        prevent_selection_online: -2,
        toggle_som: SpeedometerMode::Hidden,
        toggle_drag_blue: false,
        time_cloud: 612,
    };
    let block = encode_settings(&s);
    assert_eq!(
        &block[..20],
        &[1, 0xFF, 0xFF, 0xFF, 0xFF, 1, 2, 3, 4, 0x80, 0, 0, 0, 1, 0, 0xFE, 0, 0, 0x02, 0x64]
    );
    assert_eq!(decode_settings(&block), Ok(s));
    assert_eq!(decode_settings(&block[..20]), Ok(s));
}

#[test]
fn settings_are_read_back() {
    let s = example_settings();
    assert_eq!(decode_settings(&encode_settings(&s)), Ok(s));
    assert_eq!(decode_settings(&encode_settings(&SettingApp::default())), Ok(SettingApp::default()));
}

#[test]
fn settings_out_of_their_intended_ranges_are_read_as_they_stand() {
    let mut block = encode_settings(&example_settings());
    block[4] = 200; // low = 200
    block[15] = 0xFF; // block count = -1
    block[0] = 7; // any byte but zero is an on switch
    let s = decode_settings(&block).unwrap();
    assert_eq!(s.engine_probs.low, 200);
    assert_eq!(s.prevent_selection_online, -1);
    assert!(s.toggle_200cc);
}

#[test]
fn short_settings_are_truncated() {
    let block = encode_settings(&example_settings());
    assert_eq!(decode_settings(&block[..19]), Err(DecodeError::Truncated));
    assert_eq!(decode_settings(&[]), Err(DecodeError::Truncated));
}

#[test]
fn a_speedometer_byte_out_of_range_is_invalid() {
    let mut block = encode_settings(&example_settings());
    block[16] = 5;
    assert_eq!(decode_settings(&block), Err(DecodeError::InvalidField));
    block[16] = 0xFF;
    assert_eq!(decode_settings(&block), Err(DecodeError::InvalidField));
}

#[test]
fn the_project_file_of_a_new_project() {
    let bytes = encode_project(&State::default());
    assert_eq!(bytes.len(), 320);
    assert_eq!(&bytes[..8], b"ZRP0DIB1");
    assert_eq!(&bytes[8..12], &[0, 0, 0x01, 0x40]);
    assert_eq!(&bytes[12..14], &[0, 4]);
    assert_eq!(&bytes[14..16], &[0, 0]);
    assert_eq!(&bytes[16..48], &encode_settings(&SettingApp::default())[..]);
    // roster head
    assert_eq!(&bytes[48..52], &[0b111, 0, 0, 1]);
    assert_eq!(&bytes[52..64], &[0u8; 12]);
    // cup name
    assert_eq!(&bytes[64..72], &[5, b'C', b'u', b'p', b' ', b'0', 0, 0]);
    // icon picture and icon name
    assert_eq!(&bytes[72..88], &[0u8; 16]);
    assert_eq!(&bytes[88..96], &[0u8; 8]);
    // first track
    assert_eq!(&bytes[96..104], &[0u8; 8]);
    assert_eq!(&bytes[104..120], &[0u8; 16]);
    assert_eq!(&bytes[120..124], &[4, 4, 0, 0]);
    assert_eq!(&bytes[124..132], &[0u8; 8]);
    // fourth track's slot number
    assert_eq!(&bytes[96 + 3 * 36..96 + 3 * 36 + 8], &[0, 0, 0, 0, 0, 0, 0, 3]);
    // the roster is 192 bytes and gets a whole unit of padding
    assert_eq!(&bytes[240..256], &[0u8; 16]);
    // cheat payload
    assert_eq!(&bytes[256..264], &[0, 0, 0, 0, 0, 0, 0, 64]);
    assert_eq!(&bytes[264..320], &[0u8; 56]);
}

#[test]
fn the_size_field_is_the_length_of_the_file() {
    for (cups, codes) in [(1usize, 1usize), (2, 3), (5, 2)] {
        let bytes = encode_project(&rich_state(cups, codes));
        let size = u32::from_be_bytes([bytes[8], bytes[9], bytes[10], bytes[11]]) as usize;
        assert_eq!(size, bytes.len());
        assert_eq!(bytes.len() % 16, 0);
    }
}

#[test]
fn a_new_project_is_read_back() {
    let state = State::default();
    assert_eq!(decode_project(&encode_project(&state)), Ok(state));
}

#[test]
fn projects_are_read_back_field_by_field() {
    for cups in 1usize..6 {
        for codes in 1usize..4 {
            let state = rich_state(cups, codes);
            assert!(state.fits_project_file());
            let bytes = encode_project(&state);
            let back = decode_project(&bytes).unwrap();
            assert_eq!(back.settings, state.settings);
            assert_eq!(back.codes.enabled, state.codes.enabled);
            assert_eq!(back.codes.codes, state.codes.codes);
            assert_eq!(back.tracks.editor.mode, state.tracks.editor.mode);
            assert_eq!(back.tracks.editor.cups, state.tracks.editor.cups);
            assert_eq!(back, state);
            assert_eq!(encode_project(&back), bytes);
        }
    }
}

#[test]
fn cups_with_and_without_icons_are_read_back() {
    let state = rich_state(4, 1);
    let back = decode_project(&encode_project(&state)).unwrap();
    assert!(back.tracks.editor.cups[0].icon.is_empty());
    assert!(back.tracks.editor.cups[2].icon.is_empty());
    assert_eq!(back.tracks.editor.cups[1].icon.filename, "icon1.png");
    assert_eq!(back.tracks.editor.cups[1].icon.image.len(), 42);
    assert_eq!(back.tracks.editor.cups[3].icon, state.tracks.editor.cups[3].icon);
}

#[test]
fn one_code_with_only_an_ntsc_text_is_read_back() {
    let mut state = State::default();
    state.codes.enabled = true;
    state.codes.codes = vec![code("Infinite Boost", "04112233 00000000", "", "", "")];
    let back = decode_project(&encode_project(&state)).unwrap();
    assert!(back.codes.enabled);
    assert_eq!(back.codes.codes.len(), 1);
    assert_eq!(back.codes.codes[0].name, "Infinite Boost");
    assert_eq!(back.codes.codes[0].code_ntsc, "04112233 00000000");
    assert_eq!(back.codes.codes[0].code_pal, "");
    assert_eq!(back.codes.codes[0].code_jp, "");
    assert_eq!(back.codes.codes[0].code_kor, "");
}

#[test]
fn the_cheat_payload_of_one_code() {
    let app = CheatCodeApp {
        enabled: true,
        selected_code: 0,
        selected_region: Region::PAL,
        codes: vec![code("Infinite Boost", "04112233 00000000", "", "", "")],
    };
    let (flag, payload) = encode_cheats(&app);
    assert_eq!(flag, vec![0, 1]);
    // head
    let mut expected: Vec<u8> = vec![0, 0, 0, 0, 0, 0, 0, 96];
    // name: 2 + 14 bytes fill two units, so a whole unit of padding follows
    expected.extend_from_slice(&[0, 14]);
    expected.extend_from_slice(b"Infinite Boost");
    expected.extend_from_slice(&[0u8; 8]);
    // NTSC text: 4 + 17 bytes, padded to 24
    expected.extend_from_slice(&[0, 0, 0, 17]);
    expected.extend_from_slice(b"04112233 00000000");
    expected.extend_from_slice(&[0u8; 3]);
    // PAL, JAP and KOR: a zero length and four bytes of padding each
    expected.extend_from_slice(&[0u8; 24]);
    // 80 bytes are a multiple of 16, so a whole unit of padding follows
    expected.extend_from_slice(&[0u8; 16]);
    assert_eq!(payload, expected);
    assert_eq!(payload.len(), 96);
}

#[test]
fn the_cheat_switch_is_two_bytes() {
    let mut app = CheatCodeApp::default();
    assert_eq!(encode_cheats(&app).0, vec![0, 0]);
    app.enabled = true;
    assert_eq!(encode_cheats(&app).0, vec![0, 1]);
}

#[test]
fn code_text_keeps_its_spaces_and_line_breaks() {
    let mut state = State::default();
    state.codes.codes = vec![
        code("a", "04112233 00000000\n04445566 00000001\r\n", " ", "\n\n", "\t"),
        code("b", "", "", "", ""),
    ];
    let back = decode_project(&encode_project(&state)).unwrap();
    assert_eq!(back.codes.codes, state.codes.codes);
}

#[test]
fn the_roster_block_of_one_cup() {
    let roster = TrackDefinition {
        mode: CupSettings { nintendo: true, nin_swap: false, wiimm_cup: true },
        selected: 0,
        cups: vec![Cup {
            icon: Icon { filename: String::from("star.png"), image: vec![0x89, b'P', b'N', b'G'] },
            name: String::from("Star"),
            trackset: vec![
                Track {
                    id: 0x0102,
                    name: String::from("A"),
                    author: String::from("Bee"),
                    property: Id::MooMooMeadow,
                    music: Id::GalaxyArena,
                    new: true,
                    flag: GroupFlag::Child,
                    filename: String::from("a.szs"),
                },
                Track::numbered(1),
                Track::numbered(2),
                Track::numbered(3),
            ],
        }],
    };
    let block = encode_cups(&roster);
    let mut expected: Vec<u8> = vec![0b101, 0, 0, 1];
    expected.extend_from_slice(&[0u8; 12]);
    expected.extend_from_slice(&[4, b'S', b't', b'a', b'r', 0, 0, 0]);
    expected.extend_from_slice(&[0, 0, 0, 0, 0, 0, 0, 4, 0x89, b'P', b'N', b'G', 0, 0, 0, 0]);
    expected.extend_from_slice(&[8, b's', b't', b'a', b'r', b'.', b'p', b'n', b'g']);
    expected.extend_from_slice(&[0u8; 7]);
    // first track
    expected.extend_from_slice(&[0, 0, 0, 0, 0, 0, 1, 2]);
    expected.extend_from_slice(&[1, b'A', 0, 0, 0, 0, 0, 0]);
    expected.extend_from_slice(&[3, b'B', b'e', b'e', 0, 0, 0, 0]);
    expected.extend_from_slice(&[1, 42, 1, 2]);
    expected.extend_from_slice(&[5, b'a', b'.', b's', b'z', b's', 0, 0]);
    // three blank tracks
    for id in 1u8..4 {
        expected.extend_from_slice(&[0, 0, 0, 0, 0, 0, 0, id]);
        expected.extend_from_slice(&[0u8; 16]);
        expected.extend_from_slice(&[4, 4, 0, 0]);
        expected.extend_from_slice(&[0u8; 8]);
    }
    let fill = 16 - expected.len() % 16;
    expected.extend_from_slice(&vec![0u8; fill]);
    assert_eq!(block, expected);
    let (back, end) = decode_cups(&block, 0).unwrap();
    assert_eq!(back, roster);
    assert_eq!(end, block.len());
}

#[test]
fn the_selections_are_not_part_of_the_file() {
    let mut state = rich_state(3, 3);
    state.tracks.editor.selected = 2;
    state.codes.selected_code = 1;
    state.codes.selected_region = Region::KOR;
    let back = decode_project(&encode_project(&state)).unwrap();
    assert_eq!(back.tracks.editor.selected, 0);
    assert_eq!(back.codes.selected_code, 0);
    assert_eq!(back.codes.selected_region, Region::NTSC);
    state.tracks.editor.selected = 0;
    state.codes.selected_code = 0;
    state.codes.selected_region = Region::NTSC;
    assert_eq!(back, state);
}

#[test]
fn a_damaged_magic_is_refused() {
    let bytes = encode_project(&rich_state(2, 2));
    for i in 0..8 {
        let mut damaged = bytes.clone();
        damaged[i] ^= 0x20;
        assert_eq!(decode_project(&damaged), Err(DecodeError::MagicMismatch));
        damaged[i] = 0;
        assert_eq!(decode_project(&damaged), Err(DecodeError::MagicMismatch));
    }
    assert!(has_magic(&bytes));
    assert!(!has_magic(b"ZRP0TRC0"));
    assert!(!has_magic(b"ZRP0DIB"));
}

#[test]
fn another_version_is_refused() {
    let bytes = encode_project(&State::default());
    for version in [[0u8, 3], [0, 5], [4, 0], [0xFF, 0xFF]] {
        let mut other = bytes.clone();
        other[12] = version[0];
        other[13] = version[1];
        assert_eq!(decode_project(&other), Err(DecodeError::VersionMismatch));
    }
}

#[test]
fn the_magic_is_tested_before_the_version() {
    let mut bytes = encode_project(&State::default());
    bytes[0] = b'X';
    bytes[13] = 9;
    assert_eq!(decode_project(&bytes), Err(DecodeError::MagicMismatch));
}

#[test]
fn a_file_cut_anywhere_is_truncated() {
    let bytes = encode_project(&rich_state(2, 2));
    for n in 0..bytes.len() {
        assert_eq!(decode_project(&bytes[..n]), Err(DecodeError::Truncated), "cut at {}", n);
    }
    assert!(decode_project(&bytes).is_ok());
}

#[test]
fn a_size_that_cuts_a_section_is_truncated() {
    let state = rich_state(2, 2);
    let bytes = encode_project(&state);
    for size in [0u32, 16, 47, 48, 63, 64, 100, (bytes.len() - 16) as u32, (bytes.len() - 1) as u32] {
        let mut short = bytes.clone();
        short[8..12].copy_from_slice(&size.to_be_bytes());
        assert_eq!(decode_project(&short), Err(DecodeError::Truncated), "size {}", size);
    }
}

#[test]
fn bytes_behind_the_size_are_ignored() {
    let state = rich_state(2, 2);
    let mut bytes = encode_project(&state);
    bytes.extend_from_slice(b"trailing");
    assert_eq!(decode_project(&bytes), Ok(state));
}

#[test]
fn padding_bytes_are_not_looked_at() {
    let state = State::default();
    let mut bytes = encode_project(&state);
    bytes[47] = 0xEE; // settings padding
    bytes[63] = 0xEE; // roster head padding
    bytes[71] = 0xEE; // cup name padding
    bytes[255] = 0xEE; // roster padding
    bytes[319] = 0xEE; // cheat padding
    assert_eq!(decode_project(&bytes), Ok(state));
}

#[test]
fn an_identifier_byte_out_of_range_is_invalid() {
    let bytes = encode_project(&State::default());
    for (at, value) in [(120usize, 43u8), (121, 200), (123, 3)] {
        let mut bad = bytes.clone();
        bad[at] = value;
        assert_eq!(decode_project(&bad), Err(DecodeError::InvalidField));
    }
    let mut music_only = bytes.clone();
    music_only[121] = 42;
    assert_eq!(
        decode_project(&music_only).unwrap().tracks.editor.cups[0].trackset[0].music,
        Id::GalaxyArena
    );
}

#[test]
fn cup_switches_above_three_bits_are_invalid() {
    let mut bytes = encode_project(&State::default());
    bytes[48] = 8;
    assert_eq!(decode_project(&bytes), Err(DecodeError::InvalidField));
    bytes[48] = 0;
    let state = decode_project(&bytes).unwrap();
    assert_eq!(
        state.tracks.editor.mode,
        CupSettings { nintendo: false, nin_swap: false, wiimm_cup: false }
    );
}

#[test]
fn a_roster_without_cups_is_invalid() {
    let mut bytes = encode_project(&State::default());
    bytes[50] = 0;
    bytes[51] = 0;
    assert_eq!(decode_project(&bytes), Err(DecodeError::InvalidField));
}

#[test]
fn a_cup_count_beyond_the_roster_is_truncated() {
    let mut bytes = encode_project(&State::default());
    bytes[51] = 2;
    assert_eq!(decode_project(&bytes), Err(DecodeError::Truncated));
}

#[test]
fn text_that_is_not_utf8_is_invalid() {
    let mut bytes = encode_project(&State::default());
    bytes[65] = 0xFF; // first byte of the cup's name
    assert_eq!(decode_project(&bytes), Err(DecodeError::InvalidField));
    bytes[65] = 0xC3; // a lead byte without its continuation
    assert_eq!(decode_project(&bytes), Err(DecodeError::InvalidField));
}

#[test]
fn a_cheat_list_without_codes_is_invalid() {
    let mut state = State::default();
    state.codes.codes.clear();
    assert!(!state.fits_project_file());
    let bytes = encode_project(&state);
    assert_eq!(bytes.len(), 16 + 32 + 208 + 16);
    assert_eq!(decode_project(&bytes), Err(DecodeError::InvalidField));
}

#[test]
fn a_cheat_length_that_disagrees_is_invalid() {
    let bytes = encode_project(&State::default());
    let mut small = bytes.clone();
    small[263] = 8;
    assert_eq!(decode_project(&small), Err(DecodeError::InvalidField));
    let mut off = bytes.clone();
    off[263] = 48;
    assert_eq!(decode_project(&off), Err(DecodeError::InvalidField));
    let mut large = bytes.clone();
    large[263] = 80;
    assert_eq!(decode_project(&large), Err(DecodeError::Truncated));
}

#[test]
fn a_slot_number_is_kept_when_cups_move() {
    let mut state = rich_state(3, 1);
    state.tracks.editor.cups.swap(0, 2);
    let back = decode_project(&encode_project(&state)).unwrap();
    let ids: Vec<usize> = back.tracks.editor.cups[0].trackset.iter().map(|t| t.id).collect();
    assert_eq!(ids, vec![8, 9, 10, 11]);
    assert_eq!(back.tracks.editor.cups, state.tracks.editor.cups);
}

#[test]
fn the_largest_slot_number_is_read_back() {
    let mut state = State::default();
    state.tracks.editor.cups[0].trackset[3].id = usize::MAX;
    assert_eq!(decode_project(&encode_project(&state)), Ok(state));
}

#[test]
fn names_too_long_for_their_length_byte_do_not_fit() {
    let mut state = State::default();
    assert!(state.fits_project_file());
    state.tracks.editor.cups[0].name = "n".repeat(255);
    assert!(state.fits_project_file());
    assert_eq!(decode_project(&encode_project(&state)).as_ref(), Ok(&state));
    state.tracks.editor.cups[0].name = "n".repeat(256);
    assert!(!state.fits_project_file());
    assert_ne!(decode_project(&encode_project(&state)).as_ref(), Ok(&state));
    state.tracks.editor.cups[0].name = "\u{e9}".repeat(128);
    assert!(!state.fits_project_file());
    state.tracks.editor.cups[0].name = "\u{e9}".repeat(127);
    assert!(state.fits_project_file());
}

#[test]
fn a_cup_without_its_four_tracks_does_not_fit() {
    let mut state = State::default();
    state.tracks.editor.cups[0].trackset.pop();
    assert!(!state.fits_project_file());
    assert!(!cup_fits(&state.tracks.editor.cups[0]));
    state.tracks.editor.cups[0].trackset.push(Track::numbered(3));
    state.tracks.editor.cups[0].trackset.push(Track::numbered(4));
    assert!(!state.fits_project_file());
}

#[test]
fn an_empty_roster_does_not_fit() {
    let mut state = State::default();
    state.tracks.editor.cups.clear();
    assert!(!state.fits_project_file());
}

#[test]
fn the_parts_tell_whether_they_fit() {
    let mut t = Track::numbered(0);
    assert!(track_fits(&t));
    t.author = "a".repeat(300);
    assert!(!track_fits(&t));
    let mut c = CodeStruct::default();
    assert!(code_fits(&c));
    c.name = "n".repeat(65535);
    assert!(code_fits(&c));
    c.name = "n".repeat(65536);
    assert!(!code_fits(&c));
    assert!(cup_fits(&Cup::default(3)));
    let text = "x".repeat(256);
    assert!(!text_fits_prefix(&text, PrefixWidth::One));
    assert!(text_fits_prefix(&text, PrefixWidth::Two));
    assert!(text_fits_prefix(&text, PrefixWidth::Four));
    assert!(text_fits_prefix(&text, PrefixWidth::Eight));
}

#[test]
fn a_long_code_name_is_read_back() {
    let mut state = State::default();
    state.codes.codes[0].name = "n".repeat(65535);
    state.codes.codes[0].code_jp = "0".repeat(70000);
    assert!(state.fits_project_file());
    assert_eq!(decode_project(&encode_project(&state)), Ok(state));
}

#[test]
fn the_writers_of_the_parts_agree_with_the_readers() {
    let mut buf = vec![0xAAu8; 3];
    write_text(&mut buf, &String::from("h\u{e9}llo"), PrefixWidth::One);
    assert_eq!(read_text(&buf, 3, PrefixWidth::One), Ok((String::from("h\u{e9}llo"), buf.len())));
    assert_eq!(
        read_length_prefixed_bytes(&buf, 3, PrefixWidth::One),
        Some(("h\u{e9}llo".as_bytes().to_vec(), buf.len()))
    );
    assert_eq!(read_length_prefixed_bytes(&buf[..buf.len() - 1], 3, PrefixWidth::One), None);
    assert_eq!(read_text(&buf[..5], 3, PrefixWidth::One), Err(DecodeError::Truncated));

    let t = track(77, "Name", "Author", "file.szs");
    let mut buf = vec![1u8];
    write_track(&mut buf, &t);
    assert_eq!(read_track(&buf, 1), Ok((t, buf.len())));
    assert_eq!(read_track(&buf, 2).is_ok(), false);

    let c = cup(5, "Five", Icon { filename: String::from("f.png"), image: vec![1, 2, 3] });
    let mut buf = Vec::new();
    write_cup(&mut buf, &c);
    assert_eq!(read_cup(&buf, 0), Ok((c, buf.len())));

    let k = code("k", "1", "22", "333", "4444");
    let mut buf = vec![0u8; 8];
    write_code(&mut buf, &k);
    assert_eq!(buf.len(), 56);
    assert_eq!(read_code(&buf, 8), Ok((k, 56)));
}

#[test]
fn the_cheat_payload_is_read_back_with_the_switch() {
    let app = CheatCodeApp {
        enabled: false,
        selected_code: 0,
        selected_region: Region::NTSC,
        codes: vec![code("a", "1", "", "", ""), code("b", "", "2", "", "")],
    };
    let (_, payload) = encode_cheats(&app);
    let (back, end) = decode_cheats(&payload, 0, false).unwrap();
    assert_eq!(back, app);
    assert_eq!(end, payload.len());
    let (on, _) = decode_cheats(&payload, 0, true).unwrap();
    assert!(on.enabled);
    assert_eq!(on.codes, app.codes);
}

#[test]
fn the_magic_and_a_patched_length() {
    let mut buf = Vec::new();
    write_magic(&mut buf);
    assert_eq!(buf, b"ZRP0DIB1".to_vec());
    let mut buf = vec![9u8; 8];
    patch_u32_be(&mut buf, 2, 0x01020304);
    assert_eq!(buf, vec![9, 9, 1, 2, 3, 4, 9, 9]);
}
