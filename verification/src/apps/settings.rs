//! Defaults and labels of the gameplay settings.

use crate::apps::{CloudShrinkTime, EngineProbSet, SettingApp, SpeedometerMode};
use vstd::prelude::*;

verus! {

impl SettingApp {
    /// The settings of a new project.
    pub open spec fn initial() -> SettingApp {
        SettingApp {
            toggle_200cc: false,
            engine_probs: EngineProbSet { low: 10, mid: 60, high: 30 },
            toggle_ct_tt: false,
            toggle_custom_presence: true,
            prevent_selection_online: 0,
            toggle_som: SpeedometerMode::Two,
            toggle_drag_blue: true,
            time_cloud: 300,
        }
    }

    /// Puts the three engine chances back to their defaults.
    pub fn reset_engine_probs(&mut self)
        ensures
            *final(self) == (SettingApp {
                engine_probs: SettingApp::initial().engine_probs,
                ..*old(self)
            }),
    {
        self.engine_probs = EngineProbSet::default();
    }
}

impl Default for SettingApp {
    fn default() -> (r: SettingApp)
        ensures
            r == SettingApp::initial(),
    {
        SettingApp {
            toggle_200cc: false,
            engine_probs: EngineProbSet::default(),
            toggle_ct_tt: false,
            toggle_custom_presence: true,
            prevent_selection_online: 0,
            toggle_som: SpeedometerMode::Two,
            toggle_drag_blue: true,
            time_cloud: CloudShrinkTime::LECODE.frames(),
        }
    }
}

/// The engine classes whose chances can be set.
#[derive(Debug, PartialEq, Eq, Structural, Clone, Copy)]
pub enum EngineProbMode {
    Low,
    Mid,
    High,
}

/// The name of an engine class, which moves up by one class when the custom
/// engine is on. The highest is always the mirror class.
pub open spec fn engine_label_text(custom_engine: bool, mode: EngineProbMode) -> Seq<char> {
    match mode {
        EngineProbMode::Low => if custom_engine {
            "150cc"@
        } else {
            "100cc"@
        },
        EngineProbMode::Mid => if custom_engine {
            "200cc"@
        } else {
            "150cc"@
        },
        EngineProbMode::High => "Mirror"@,
    }
}

/// The name of an engine class.
pub fn engine_label(custom_engine: bool, mode: EngineProbMode) -> (label: &'static str)
    ensures
        label@ == engine_label_text(custom_engine, mode),
{
    match mode {
        EngineProbMode::Low => {
            if custom_engine {
                "150cc"
            } else {
                "100cc"
            }
        },
        EngineProbMode::Mid => {
            if custom_engine {
                "200cc"
            } else {
                "150cc"
            }
        },
        _ => "Mirror",
    }
}

} // verus!
