//! Plain configuration values and their defaults.

use vstd::prelude::*;

verus! {

#[derive(Debug, Clone, PartialEq, Eq)]
pub struct MicaSection {
    pub version: String,
}

impl MicaSection {
    pub fn default_section() -> (r: MicaSection)
        ensures
            r.version@ == "0.1.0"@,
    {
        MicaSection { version: crate::text::chars_to_string(&crate::text::str_to_chars("0.1.0")) }
    }
}

#[derive(Debug, Clone, PartialEq, Eq)]
pub struct NixpkgsSection {
    pub default_url: String,
    pub default_branch: String,
}

impl NixpkgsSection {
    pub fn default_section() -> (r: NixpkgsSection)
        ensures
            r.default_url@ == "https://github.com/jpetrucciani/nix"@,
            r.default_branch@ == "main"@,
    {
        NixpkgsSection {
            default_url: crate::text::chars_to_string(
                &crate::text::str_to_chars("https://github.com/jpetrucciani/nix"),
            ),
            default_branch: crate::text::chars_to_string(&crate::text::str_to_chars("main")),
        }
    }
}

#[derive(Debug, Clone, PartialEq, Eq)]
pub struct IndexSection {
    pub remote_url: String,
    pub update_check_interval: u64,
}

impl IndexSection {
    pub fn default_section() -> (r: IndexSection)
        ensures
            r.remote_url@ == "https://static.g7c.us/mica"@,
            r.update_check_interval == 24,
    {
        IndexSection {
            remote_url: crate::text::chars_to_string(
                &crate::text::str_to_chars("https://static.g7c.us/mica"),
            ),
            update_check_interval: 24,
        }
    }
}

#[derive(Debug, Clone, PartialEq, Eq)]
pub struct PresetSection {
    pub extra_dirs: Vec<String>,
}

impl PresetSection {
    pub fn default_section() -> (r: PresetSection)
        ensures
            r.extra_dirs@.len() == 0,
    {
        PresetSection { extra_dirs: Vec::new() }
    }
}

/// Which field a package search matches against.
#[derive(Debug, Clone, Copy, PartialEq, Eq, Structural)]
pub enum SearchMode {
    Name,
    Description,
    Binary,
    All,
}

#[derive(Debug, Clone, Copy, PartialEq, Eq, Structural)]
pub struct TuiColumns {
    pub version: bool,
    pub description: bool,
    pub license: bool,
    pub platforms: bool,
    pub main_program: bool,
}

impl TuiColumns {
    pub fn default_columns() -> (r: TuiColumns)
        ensures
            r.version && r.description && !r.license && !r.platforms && !r.main_program,
    {
        TuiColumns {
            version: true,
            description: true,
            license: false,
            platforms: false,
            main_program: false,
        }
    }
}

#[derive(Debug, Clone, PartialEq, Eq)]
pub struct TuiSection {
    pub show_details: bool,
    pub search_mode: SearchMode,
    pub columns: TuiColumns,
}

impl TuiSection {
    pub fn default_section() -> (r: TuiSection)
        ensures
            r.show_details,
            r.search_mode is All,
            r.columns.version && r.columns.description && !r.columns.license
                && !r.columns.platforms && !r.columns.main_program,
    {
        TuiSection {
            show_details: true,
            search_mode: SearchMode::All,
            columns: TuiColumns::default_columns(),
        }
    }
}

/// The tool's plain configuration.
#[derive(Debug, Clone, PartialEq, Eq)]
pub struct Config {
    pub mica: MicaSection,
    pub nixpkgs: NixpkgsSection,
    pub index: IndexSection,
    pub presets: PresetSection,
    pub tui: TuiSection,
}

impl Default for Config {
    /// The configuration used when no file exists.
    fn default() -> (r: Config)
        ensures
            r.mica.version@ == "0.1.0"@,
            r.index.remote_url@ == "https://static.g7c.us/mica"@,
            r.index.update_check_interval == 24,
            r.nixpkgs.default_url@ == "https://github.com/jpetrucciani/nix"@,
            r.nixpkgs.default_branch@ == "main"@,
            r.presets.extra_dirs@.len() == 0,
            r.tui.show_details && r.tui.search_mode is All,
            r.tui.columns.version && r.tui.columns.description && !r.tui.columns.license
                && !r.tui.columns.platforms && !r.tui.columns.main_program,
    {
        Config {
            mica: MicaSection::default_section(),
            nixpkgs: NixpkgsSection::default_section(),
            index: IndexSection::default_section(),
            presets: PresetSection::default_section(),
            tui: TuiSection::default_section(),
        }
    }
}

} // verus!
