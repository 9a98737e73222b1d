//! Built-in settings: the theme colors and font, the workspace names and
//! the programs pwm launches.

use vstd::prelude::*;

verus! {

/// Theme colors and font
pub const BLACK: u32 = 0x282828ff;

pub const WHITE: u32 = 0xebdbb2ff;

pub const GREY: u32 = 0x3c3836ff;

pub const LAVENDER: u32 = 0xAA96DAFF;

pub const FONT: &'static str = "JetBrainsMono Nerd Font";

/// Workspace settings
pub const WORKSPACES: [&'static str; 9] = ["1", "2", "3", "4", "5", "6", "7", "8", "9"];

/// Application settings
pub struct AppConfig {
    pub terminal: &'static str,
    pub launcher: &'static str,
    pub locker: &'static str,
    pub startup_script: &'static str,
}

impl Default for AppConfig {
    fn default() -> (r: Self)
        ensures
            r.terminal@ == "st"@,
            r.launcher@ == "dmenu_run"@,
            r.locker@ == "slock"@,
            r.startup_script@ == "/etc/xdg/pwm/startup.sh"@,
    {
        AppConfig {
            terminal: "st",
            launcher: "dmenu_run",
            locker: "slock",
            startup_script: "/etc/xdg/pwm/startup.sh",
        }
    }
}

} // verus!
