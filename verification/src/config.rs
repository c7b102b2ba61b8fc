//! The user's configuration: default command, exec commands per extension, colors.
use vstd::prelude::*;

verus! {

pub const FELIX: &'static str = "felix";
pub const CONFIG_FILE: &'static str = "config.yaml";
pub const CONFIG_FILE_ANOTHER_EXT: &'static str = "config.yml";

/// The configuration. `exec_config` (the `exec` setting) lists, for each command (in the order of the
/// commands' names), the extensions it opens.
#[derive(Debug, Clone)]
pub struct Config {
    pub default: Option<String>,
    pub match_vim_exit_behavior: Option<bool>,
    pub exec_config: Option<Vec<(String, Vec<String>)>>,
    pub color: Option<ConfigColor>,
}

/// Whether the commands of an `exec` setting come in ascending order of their
/// names, each name once (as the keys of the map the setting is read into).
pub open spec fn names_ascending(c: Seq<(String, Vec<String>)>) -> bool {
    forall|i: int, j: int| 0 <= i < j < c.len() ==> crate::arrange::str_lt(#[trigger] c[i].0@, #[trigger] c[j].0@)
}

impl Config {
    /// The `exec` setting, if any, lists its commands in ascending order.
    pub open spec fn exec_ordered(&self) -> bool {
        match self.exec_config {
            Some(c) => names_ascending(c@),
            None => true,
        }
    }
}

/// Foreground colors of directories, files, symlinks and dirty (git) items.
#[derive(Debug, Clone, Copy, PartialEq, Eq, Structural)]
pub struct ConfigColor {
    pub dir_fg: Colorname,
    pub file_fg: Colorname,
    pub symlink_fg: Colorname,
    pub dirty_fg: Colorname,
}

/// A terminal color by name, an RGB triple or an ANSI value.
#[derive(Debug, Clone, Copy, PartialEq, Eq, Structural)]
pub enum Colorname {
    Black,
    Red,
    Green,
    Yellow,
    Blue,
    Magenta,
    Cyan,
    White,
    LightBlack,
    LightRed,
    LightGreen,
    LightYellow,
    LightBlue,
    LightMagenta,
    LightCyan,
    LightWhite,
    Rgb(u8, u8, u8),
    AnsiValue(u8),
}

/// The colors used when the configuration names none.
pub open spec fn default_colors() -> ConfigColor {
    ConfigColor {
        dir_fg: Colorname::LightCyan,
        file_fg: Colorname::LightWhite,
        symlink_fg: Colorname::LightYellow,
        dirty_fg: Colorname::Red,
    }
}

impl Default for ConfigColor {
    fn default() -> (c: Self)
        ensures
            c == default_colors(),
    {
        ConfigColor {
            dir_fg: Colorname::LightCyan,
            file_fg: Colorname::LightWhite,
            symlink_fg: Colorname::LightYellow,
            dirty_fg: Colorname::Red,
        }
    }
}

impl Default for Config {
    fn default() -> (c: Self)
        ensures
            c.default is None,
            c.match_vim_exit_behavior is None,
            c.exec_config is None,
            c.color == Some(default_colors()),
    {
        Config {
            default: None,
            match_vim_exit_behavior: None,
            exec_config: None,
            color: Some(ConfigColor::default()),
        }
    }
}

impl ConfigColor {
    /// The configured colors, or the default ones.
    pub fn or_default(color: Option<ConfigColor>) -> (c: ConfigColor)
        ensures
            c == match color {
                Some(c) => c,
                None => default_colors(),
            },
    {
        match color {
            Some(c) => c,
            None => ConfigColor::default(),
        }
    }
}

} // verus!
