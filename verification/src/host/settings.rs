//! The settings that outlive a run.

use vstd::prelude::*;

use crate::host::logging;

verus! {

pub const SETTINGS_FILE_NAME: &'static str = "settings.json";

pub const APP_FOLDER: &'static str = "EternalMonitor";

/// What the user has set.
#[derive(Debug)]
pub struct SettingsFile {
    /// The maximum bitrate; zero where none is set.
    pub bitrate_bps: u32,
    pub target_fps: u32,
    pub target_ip: Option<String>,
    pub encoder_override: Option<String>,
    /// The name of the display to capture; none means the primary one.
    pub capture_display: Option<String>,
    pub start_on_boot: bool,
    /// Whether HEVC is preferred for clients that can decode it.
    pub prefer_hevc: bool,
}

impl Default for SettingsFile {
    fn default() -> (s: SettingsFile)
        ensures
            s == (SettingsFile {
                bitrate_bps: 15_000_000,
                target_fps: 60,
                target_ip: None,
                encoder_override: None,
                capture_display: None,
                start_on_boot: false,
                prefer_hevc: false,
            }),
    {
        SettingsFile {
            bitrate_bps: 15_000_000,
            target_fps: 60,
            target_ip: None,
            encoder_override: None,
            capture_display: None,
            start_on_boot: false,
            prefer_hevc: false,
        }
    }
}

/// The parts of the path of the application's data directory: below the data
/// directory that the system names, else below the user's library; none where
/// neither is known.
pub fn app_data_dir(app_data: Option<&str>, home: Option<&str>) -> (parts: Option<Vec<String>>)
    ensures
        match (app_data, home) {
            (Some(d), _) => parts matches Some(p) && logging::texts(p@) == seq![d@, APP_FOLDER@],
            (None, Some(h)) => parts matches Some(p) && logging::texts(p@) == seq![
                h@,
                "Library"@,
                "Application Support"@,
                APP_FOLDER@,
            ],
            (None, None) => parts is None,
        },
{
    let mut parts: Vec<String> = Vec::new();
    match (app_data, home) {
        (Some(d), _) => {
            parts.push(d.to_owned());
            parts.push(APP_FOLDER.to_owned());
            assert(logging::texts(parts@) =~= seq![d@, APP_FOLDER@]);
        },
        (None, Some(h)) => {
            parts.push(h.to_owned());
            parts.push("Library".to_owned());
            parts.push("Application Support".to_owned());
            parts.push(APP_FOLDER.to_owned());
            assert(logging::texts(parts@) =~= seq![
                h@,
                "Library"@,
                "Application Support"@,
                APP_FOLDER@,
            ]);
        },
        (None, None) => {
            return None;
        },
    }
    Some(parts)
}

} // verus!
