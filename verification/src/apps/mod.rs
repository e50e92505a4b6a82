//! The configuration model that the editor holds in memory: gameplay
//! settings, cheat codes and the cup roster.

pub mod codes;
pub mod ids;
pub mod settings;
pub mod tracks;

use crate::apps::codes::CodeView;
use crate::apps::tracks::{CupSettings, CupView, TrackDefinition};
use vstd::prelude::*;
use vstd::string::*;

verus! {

/// The name of the editor, as its window shows it.
pub open spec fn app_name_text() -> Seq<char> {
    "mkw-distro-tool"@
}

/// The title of the editor's window: the editor's name, followed by a
/// hyphen between spaces and the path of the open project where there is a
/// path and it is not empty.
pub open spec fn title_text(path: Option<Seq<char>>) -> Seq<char> {
    match path {
        Some(p) => if p.len() == 0 {
            app_name_text()
        } else {
            app_name_text() + " - "@ + p
        },
        None => app_name_text(),
    }
}

/// The name of the editor.
pub fn app_name() -> (name: &'static str)
    ensures
        name@ == app_name_text(),
{
    "mkw-distro-tool"
}

/// The title of the editor's window for the project at `path`.
pub fn gen_title(path: Option<&str>) -> (title: String)
    ensures
        title@ == title_text(
            match path {
                Some(p) => Some(p@),
                None => None,
            },
        ),
{
    let mut title: String = app_name().to_owned();
    match path {
        Some(p) => {
            if !p.is_empty() {
                title.append(" - ");
                title.append(p);
            }
        },
        None => {},
    }
    title
}

/// The game regions a cheat code is written for.
#[derive(Debug, PartialEq, Eq, Structural, Clone, Copy)]
pub enum Region {
    NTSC,
    PAL,
    JAP,
    KOR,
}

/// The track listing panel's data.
#[derive(Debug, PartialEq, Eq, Clone)]
pub struct TrackDefApp {
    pub editor: TrackDefinition,
}

/// The whole configuration of one project.
#[derive(Debug, PartialEq, Eq, Clone)]
pub struct State {
    pub settings: SettingApp,
    pub codes: CheatCodeApp,
    pub tracks: TrackDefApp,
}

/// What a project file keeps of a `State`: everything but the selections of
/// the editor.
pub struct StateView {
    pub settings: SettingApp,
    pub cheats_enabled: bool,
    pub codes: Seq<CodeView>,
    pub mode: CupSettings,
    pub cups: Seq<CupView>,
}

impl View for State {
    type V = StateView;

    open spec fn view(&self) -> StateView {
        StateView {
            settings: self.settings,
            cheats_enabled: self.codes.enabled,
            codes: self.codes.view(),
            mode: self.tracks.editor.mode,
            cups: self.tracks.editor.view(),
        }
    }
}

impl State {
    /// The selections point at entries that exist, both lists are non-empty
    /// and every cup has its four tracks.
    pub open spec fn wf(&self) -> bool {
        self.codes.wf() && self.tracks.editor.wf()
    }
}

impl Default for TrackDefApp {
    fn default() -> (r: TrackDefApp)
        ensures
            r.editor.wf(),
            r.editor.selected == 0,
            r.editor.mode == (CupSettings { nintendo: true, nin_swap: true, wiimm_cup: true }),
            r.editor.cups@.len() == 1,
            r.editor.view() == seq![CupView::fresh(0)],
    {
        TrackDefApp { editor: TrackDefinition::default() }
    }
}

impl Default for State {
    fn default() -> (r: State)
        ensures
            r.wf(),
            r.settings == SettingApp::initial(),
            !r.codes.enabled,
            r.codes.selected_code == 0,
            r.codes.selected_region == Region::NTSC,
            r.codes.codes@.len() == 1,
            r.codes.view() == seq![CodeView::empty()],
            r.tracks.editor.selected == 0,
            r.tracks.editor.cups@.len() == 1,
            r.tracks.editor.mode == (CupSettings {
                nintendo: true,
                nin_swap: true,
                wiimm_cup: true,
            }),
            r.tracks.editor.view() == seq![CupView::fresh(0)],
    {
        State {
            settings: SettingApp::default(),
            codes: CheatCodeApp::default(),
            tracks: TrackDefApp::default(),
        }
    }
}

/// Gameplay parameters.
#[derive(Debug, PartialEq, Eq, Structural, Clone, Copy)]
pub struct SettingApp {
    /// 200cc.
    pub toggle_200cc: bool,
    /// Chances of each engine class online.
    pub engine_probs: EngineProbSet,
    /// Custom tracks in time trial.
    pub toggle_ct_tt: bool,
    /// Extended presence flags.
    pub toggle_custom_presence: bool,
    /// For how many races a track that was raced is blocked.
    pub prevent_selection_online: i8,
    /// Speedometer.
    pub toggle_som: SpeedometerMode,
    /// Draggable blue shell.
    pub toggle_drag_blue: bool,
    /// Frames a player stays small after a thundercloud strike.
    pub time_cloud: i16,
}

/// How the speedometer is shown.
#[derive(Debug, PartialEq, Eq, Structural, Clone, Copy)]
pub enum SpeedometerMode {
    Hidden,
    Show,
    One,
    Two,
    Three,
}

impl SpeedometerMode {
    /// The byte that stands for the mode in a project file.
    pub open spec fn index(self) -> nat {
        match self {
            SpeedometerMode::Hidden => 0,
            SpeedometerMode::Show => 1,
            SpeedometerMode::One => 2,
            SpeedometerMode::Two => 3,
            SpeedometerMode::Three => 4,
        }
    }

    /// The mode that `n` stands for, if any.
    pub open spec fn at(n: nat) -> Option<SpeedometerMode> {
        if n == 0 {
            Some(SpeedometerMode::Hidden)
        } else if n == 1 {
            Some(SpeedometerMode::Show)
        } else if n == 2 {
            Some(SpeedometerMode::One)
        } else if n == 3 {
            Some(SpeedometerMode::Two)
        } else if n == 4 {
            Some(SpeedometerMode::Three)
        } else {
            None
        }
    }

    /// The mode that `n` stands for, or `None` where `n` stands for none.
    pub fn from_usize(n: usize) -> (r: Option<SpeedometerMode>)
        ensures
            r == SpeedometerMode::at(n as nat),
    {
        match n {
            0 => Some(SpeedometerMode::Hidden),
            1 => Some(SpeedometerMode::Show),
            2 => Some(SpeedometerMode::One),
            3 => Some(SpeedometerMode::Two),
            4 => Some(SpeedometerMode::Three),
            _ => None,
        }
    }

    /// The byte that stands for the mode in a project file.
    pub fn to_u8(self) -> (b: u8)
        ensures
            b == self.index(),
            SpeedometerMode::at(b as nat) == Some(self),
    {
        match self {
            SpeedometerMode::Hidden => 0,
            SpeedometerMode::Show => 1,
            SpeedometerMode::One => 2,
            SpeedometerMode::Two => 3,
            SpeedometerMode::Three => 4,
        }
    }
}

/// The two stock values of the thundercloud shrink time.
#[derive(Debug, PartialEq, Eq, Structural, Clone, Copy)]
pub enum CloudShrinkTime {
    Nintendo,
    LECODE,
}

impl CloudShrinkTime {
    /// The time in frames.
    pub open spec fn spec_frames(self) -> i16 {
        match self {
            CloudShrinkTime::Nintendo => 612,
            CloudShrinkTime::LECODE => 300,
        }
    }

    /// The time in frames.
    #[verifier::when_used_as_spec(spec_frames)]
    pub fn frames(self) -> (t: i16)
        ensures
            t == self.spec_frames(),
    {
        match self {
            CloudShrinkTime::Nintendo => 612,
            CloudShrinkTime::LECODE => 300,
        }
    }
}

/// The cheat code panel's data: the switch, the list and the selection.
#[derive(Debug, PartialEq, Eq, Clone)]
pub struct CheatCodeApp {
    pub enabled: bool,
    pub selected_code: usize,
    pub selected_region: Region,
    pub codes: Vec<CodeStruct>,
}

/// One cheat code: its name and its text for each region.
#[derive(Debug, PartialEq, Eq, Clone)]
pub struct CodeStruct {
    pub name: String,
    pub code_ntsc: String,
    pub code_pal: String,
    pub code_jp: String,
    pub code_kor: String,
}

/// The chances of the three engine classes.
#[derive(Debug, PartialEq, Eq, Structural, Clone, Copy)]
pub struct EngineProbSet {
    pub low: i32,
    pub mid: i32,
    pub high: i32,
}

impl Default for EngineProbSet {
    fn default() -> (r: EngineProbSet)
        ensures
            r == (EngineProbSet { low: 10, mid: 60, high: 30 }),
    {
        EngineProbSet { low: 10, mid: 60, high: 30 }
    }
}

} // verus!
