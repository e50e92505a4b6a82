use mkw_distro_tool::apps::ids::{Id, ID_COUNT};
use mkw_distro_tool::apps::settings::{engine_label, EngineProbMode};
use mkw_distro_tool::apps::tracks::{
    Cup, CupSettings, GroupFlag, Icon, Track, TrackDefinition, TRACKS_PER_CUP,
};
use mkw_distro_tool::apps::{
    app_name, gen_title, CheatCodeApp, CloudShrinkTime, CodeStruct, EngineProbSet, Region,
    SettingApp, SpeedometerMode, State, TrackDefApp,
};
use mkw_distro_tool::text::push_decimal;

#[test]
fn settings_start_with_their_defaults() {
    let s = SettingApp::default();
    assert!(!s.toggle_200cc);
    assert_eq!(s.engine_probs, EngineProbSet { low: 10, mid: 60, high: 30 });
    assert!(!s.toggle_ct_tt);
    assert!(s.toggle_custom_presence);
    assert_eq!(s.prevent_selection_online, 0);
    assert_eq!(s.toggle_som, SpeedometerMode::Two);
    assert!(s.toggle_drag_blue);
    assert_eq!(s.time_cloud, 300);
}

#[test]
fn engine_chances_start_at_10_60_30_and_can_be_reset() {
    assert_eq!(EngineProbSet::default(), EngineProbSet { low: 10, mid: 60, high: 30 });
    let mut s = SettingApp::default();
    s.engine_probs = EngineProbSet { low: 1, mid: 2, high: 3 };
    s.time_cloud = 612;
    s.reset_engine_probs();
    assert_eq!(s.engine_probs, EngineProbSet { low: 10, mid: 60, high: 30 });
    assert_eq!(s.time_cloud, 612);
}

#[test]
fn cloud_times_are_612_and_300_frames() {
    assert_eq!(CloudShrinkTime::Nintendo.frames(), 612);
    assert_eq!(CloudShrinkTime::LECODE.frames(), 300);
}

#[test]
fn speedometer_modes_map_to_0_through_4() {
    assert_eq!(SpeedometerMode::from_usize(0), Some(SpeedometerMode::Hidden));
    assert_eq!(SpeedometerMode::from_usize(1), Some(SpeedometerMode::Show));
    assert_eq!(SpeedometerMode::from_usize(2), Some(SpeedometerMode::One));
    assert_eq!(SpeedometerMode::from_usize(3), Some(SpeedometerMode::Two));
    assert_eq!(SpeedometerMode::from_usize(4), Some(SpeedometerMode::Three));
    assert_eq!(SpeedometerMode::from_usize(5), None);
    assert_eq!(SpeedometerMode::from_usize(usize::MAX), None);
    for n in 0usize..5 {
        let mode = SpeedometerMode::from_usize(n).unwrap();
        assert_eq!(mode.to_u8() as usize, n);
    }
}

#[test]
fn engine_labels_move_up_with_the_custom_engine() {
    assert_eq!(engine_label(false, EngineProbMode::Low), "100cc");
    assert_eq!(engine_label(true, EngineProbMode::Low), "150cc");
    assert_eq!(engine_label(false, EngineProbMode::Mid), "150cc");
    assert_eq!(engine_label(true, EngineProbMode::Mid), "200cc");
    assert_eq!(engine_label(false, EngineProbMode::High), "Mirror");
    assert_eq!(engine_label(true, EngineProbMode::High), "Mirror");
}

#[test]
fn the_window_title_names_the_open_project() {
    assert_eq!(app_name(), "mkw-distro-tool");
    assert_eq!(gen_title(None), "mkw-distro-tool");
    assert_eq!(gen_title(Some("")), "mkw-distro-tool");
    assert_eq!(gen_title(Some("/home/me/pack.mkprj")), "mkw-distro-tool - /home/me/pack.mkprj");
}

#[test]
fn there_are_43_course_identifiers() {
    assert_eq!(ID_COUNT, 43);
    let all = Id::values();
    assert_eq!(all.len(), 43);
    assert_eq!(all[0], Id::LuigiCircuit);
    assert_eq!(all[4], Id::MarioCircuit);
    assert_eq!(all[41], Id::TwilightHouseDS);
    assert_eq!(all[42], Id::GalaxyArena);
    for (i, id) in all.iter().enumerate() {
        assert_eq!(id.to_u8() as usize, i);
        assert_eq!(Id::from_u8(i as u8), Some(*id));
    }
    assert_eq!(Id::from_u8(43), None);
    assert_eq!(Id::from_u8(255), None);
}

#[test]
fn course_identifiers_have_their_names() {
    assert_eq!(Id::LuigiCircuit.as_str(), "Luigi Circuit");
    assert_eq!(Id::ToadsFactory.as_str(), "Toad's Factory");
    assert_eq!(Id::GhostValleySNES.as_str(), "SNES Ghost Valley 2");
    assert_eq!(Id::JungleParkwayN64.as_str(), "N64 DK Jungle Parkway");
    assert_eq!(Id::ChompWheel.as_str(), "Chain Chomp Wheel");
    assert_eq!(Id::TwilightHouseDS.as_str(), "DS Twilight House");
    assert_eq!(Id::GalaxyArena.as_str(), "Galaxy Colosseum");
    let mut names: Vec<&str> = Id::values().iter().map(|id| id.as_str()).collect();
    names.sort();
    names.dedup();
    assert_eq!(names.len(), 43);
}

#[test]
fn only_the_last_identifier_is_kept_from_properties() {
    for id in Id::values() {
        assert_eq!(id.allowed_as_property(), id != Id::GalaxyArena);
    }
}

#[test]
fn group_flags_map_to_0_through_2() {
    assert_eq!(GroupFlag::NoGroup.to_u8(), 0);
    assert_eq!(GroupFlag::Header.to_u8(), 1);
    assert_eq!(GroupFlag::Child.to_u8(), 2);
    assert_eq!(GroupFlag::from_u8(0), Some(GroupFlag::NoGroup));
    assert_eq!(GroupFlag::from_u8(1), Some(GroupFlag::Header));
    assert_eq!(GroupFlag::from_u8(2), Some(GroupFlag::Child));
    assert_eq!(GroupFlag::from_u8(3), None);
}

#[test]
fn cup_switches_pack_into_three_bits() {
    let all = CupSettings { nintendo: true, nin_swap: true, wiimm_cup: true };
    let none = CupSettings { nintendo: false, nin_swap: false, wiimm_cup: false };
    assert_eq!(all.to_u8(), 0b111);
    assert_eq!(none.to_u8(), 0);
    assert_eq!(CupSettings { nintendo: true, nin_swap: false, wiimm_cup: false }.to_u8(), 0b001);
    assert_eq!(CupSettings { nintendo: false, nin_swap: true, wiimm_cup: false }.to_u8(), 0b010);
    assert_eq!(CupSettings { nintendo: false, nin_swap: false, wiimm_cup: true }.to_u8(), 0b100);
    for b in 0u8..8 {
        assert_eq!(CupSettings::from_u8(b).unwrap().to_u8(), b);
    }
    assert_eq!(CupSettings::from_u8(8), None);
    assert_eq!(CupSettings::from_u8(0x80), None);
}

#[test]
fn a_new_cup_is_named_after_its_place_and_numbers_its_tracks() {
    assert_eq!(TRACKS_PER_CUP, 4);
    let cup = Cup::default(0);
    assert_eq!(cup.name, "Cup 0");
    assert!(cup.icon.is_empty());
    assert_eq!(cup.trackset.len(), 4);
    let ids: Vec<usize> = cup.trackset.iter().map(|t| t.id).collect();
    assert_eq!(ids, vec![0, 1, 2, 3]);

    let cup = Cup::default(12);
    assert_eq!(cup.name, "Cup 12");
    let ids: Vec<usize> = cup.trackset.iter().map(|t| t.id).collect();
    assert_eq!(ids, vec![48, 49, 50, 51]);
    for t in &cup.trackset {
        assert_eq!(t.name, "");
        assert_eq!(t.author, "");
        assert_eq!(t.filename, "");
        assert_eq!(t.property, Id::MarioCircuit);
        assert_eq!(t.music, Id::MarioCircuit);
        assert!(!t.new);
        assert_eq!(t.flag, GroupFlag::NoGroup);
    }
    assert_eq!(Cup::default(1005).name, "Cup 1005");
}

#[test]
fn numerals_are_decimal_without_leading_zeros() {
    for n in [0usize, 7, 10, 99, 100, 1234567890, usize::MAX] {
        let mut text = String::from("n=");
        push_decimal(&mut text, n);
        assert_eq!(text, format!("n={}", n));
    }
}

#[test]
fn a_default_track_is_blank() {
    let t = Track::default();
    assert_eq!(t, Track::numbered(0));
    assert_eq!(Track::numbered(9).id, 9);
}

#[test]
fn an_icon_is_empty_until_it_has_a_name_or_a_picture() {
    let mut icon = Icon::default();
    assert!(icon.is_empty());
    icon.image = vec![1, 2, 3];
    assert!(!icon.is_empty());
    icon.clear();
    assert!(icon.is_empty());
    icon.filename = String::from("a.png");
    assert!(!icon.is_empty());
    icon.clear();
    assert_eq!(icon, Icon::default());
}

#[test]
fn a_new_roster_holds_one_cup_and_all_stock_cups() {
    let roster = TrackDefinition::default();
    assert_eq!(roster.selected, 0);
    assert_eq!(roster.cups, vec![Cup::default(0)]);
    assert_eq!(roster.mode, CupSettings { nintendo: true, nin_swap: true, wiimm_cup: true });
    assert_eq!(TrackDefApp::default().editor, roster);
}

#[test]
fn cups_are_added_at_the_end() {
    let mut roster = TrackDefinition::default();
    roster.add_cup();
    roster.add_cup();
    assert_eq!(roster.cups.len(), 3);
    assert_eq!(roster.cups[1], Cup::default(1));
    assert_eq!(roster.cups[2], Cup::default(2));
    assert_eq!(roster.selected, 0);
}

#[test]
fn the_last_cup_is_never_deleted() {
    let mut roster = TrackDefinition::default();
    roster.delete_selected();
    assert_eq!(roster, TrackDefinition::default());
}

#[test]
fn deleting_a_cup_moves_the_selection_up() {
    let mut roster = TrackDefinition::default();
    roster.add_cup();
    roster.add_cup();
    roster.select(2);
    assert_eq!(roster.selected, 2);
    roster.delete_selected();
    assert_eq!(roster.selected, 1);
    assert_eq!(roster.cups, vec![Cup::default(0), Cup::default(1)]);
    roster.select(0);
    roster.delete_selected();
    assert_eq!(roster.selected, 0);
    assert_eq!(roster.cups, vec![Cup::default(1)]);
    assert_eq!(roster.cups[0].trackset[0].id, 4);
}

#[test]
fn selecting_outside_the_roster_changes_nothing() {
    let mut roster = TrackDefinition::default();
    roster.add_cup();
    roster.select(1);
    roster.select(2);
    assert_eq!(roster.selected, 1);
    roster.select(usize::MAX);
    assert_eq!(roster.selected, 1);
}

#[test]
fn a_new_cheat_list_holds_one_empty_code() {
    let app = CheatCodeApp::default();
    assert!(!app.enabled);
    assert!(!app.enabled());
    assert_eq!(app.selected_code, 0);
    assert_eq!(app.selected_region, Region::NTSC);
    assert_eq!(app.codes, vec![CodeStruct::default()]);
    let code = CodeStruct::default();
    assert_eq!(code.name, "");
    assert_eq!(code.code_ntsc, "");
    assert_eq!(code.code_pal, "");
    assert_eq!(code.code_jp, "");
    assert_eq!(code.code_kor, "");
}

#[test]
fn codes_are_added_and_deleted_like_cups() {
    let mut app = CheatCodeApp::default();
    app.delete_selected();
    assert_eq!(app, CheatCodeApp::default());
    app.codes[0].name = String::from("first");
    app.add_code();
    app.codes[1].name = String::from("second");
    app.add_code();
    assert_eq!(app.codes.len(), 3);
    assert_eq!(app.codes[2], CodeStruct::default());
    app.select(1);
    app.select(3);
    assert_eq!(app.selected_code, 1);
    app.delete_selected();
    assert_eq!(app.selected_code, 0);
    assert_eq!(app.codes.len(), 2);
    assert_eq!(app.codes[0].name, "first");
    assert_eq!(app.codes[1], CodeStruct::default());
    app.delete_selected();
    assert_eq!(app.selected_code, 0);
    assert_eq!(app.codes, vec![CodeStruct::default()]);
}

#[test]
fn a_code_gives_its_text_by_region() {
    let code = CodeStruct {
        name: String::from("n"),
        code_ntsc: String::from("a"),
        code_pal: String::from("b"),
        code_jp: String::from("c"),
        code_kor: String::from("d"),
    };
    assert_eq!(code.text(Region::NTSC), "a");
    assert_eq!(code.text(Region::PAL), "b");
    assert_eq!(code.text(Region::JAP), "c");
    assert_eq!(code.text(Region::KOR), "d");
}

#[test]
fn a_new_project_is_made_of_the_defaults() {
    let state = State::default();
    assert_eq!(state.settings, SettingApp::default());
    assert_eq!(state.codes, CheatCodeApp::default());
    assert_eq!(state.tracks, TrackDefApp::default());
    assert!(state.fits_project_file());
}

#[test]
fn a_roster_knows_whether_it_is_well_formed() {
    let mut roster = TrackDefinition::default();
    assert!(roster.is_well_formed());
    assert!(roster.has_room());
    roster.selected = 1;
    assert!(!roster.is_well_formed());
    roster.add_cup();
    assert!(roster.is_well_formed());
    roster.cups[0].trackset.pop();
    assert!(!roster.is_well_formed());
    roster.cups.clear();
    roster.selected = 0;
    assert!(!roster.is_well_formed());
}

#[test]
fn a_cheat_list_knows_whether_it_is_well_formed() {
    let mut app = CheatCodeApp::default();
    assert!(app.is_well_formed());
    app.selected_code = 1;
    assert!(!app.is_well_formed());
    app.add_code();
    assert!(app.is_well_formed());
    app.codes.clear();
    app.selected_code = 0;
    assert!(!app.is_well_formed());
}
