//! The two persisted state shapes (project and profile) and their parts.
//!
//! Calendar dates and timestamps are held as plain values: a date as
//! year/month/day numbers, a timestamp as its rendered RFC 3339 text.
//! The caller converts at its I/O boundary.

use vstd::prelude::*;

use crate::smap::StrMap;

verus! {

/// A calendar date as plain numbers.
#[derive(Debug, Clone, Copy, PartialEq, Eq, Structural)]
pub struct Date {
    pub year: u32,
    pub month: u32,
    pub day: u32,
}

impl Date {
    /// The date the parser stamps on recovered pins, which carry no date.
    pub fn epoch() -> (r: Date)
        ensures
            r.year == 1970 && r.month == 1 && r.day == 1,
    {
        Date { year: 1970, month: 1, day: 1 }
    }
}

#[derive(Debug, Clone, PartialEq, Eq)]
pub struct MicaMetadata {
    pub version: String,
    pub created: String,
    pub modified: String,
}

/// The view of an optional character vector.
pub open spec fn opt_chars_view(o: Option<Vec<char>>) -> Option<Seq<char>> {
    match o {
        Some(v) => Some(v@),
        None => None,
    }
}

/// The view of an `Option<String>`: the characters, if present.
pub open spec fn opt_str_view(o: Option<String>) -> Option<Seq<char>> {
    match o {
        Some(s) => Some(s@),
        None => None,
    }
}

/// A reproducible source snapshot; fetched from `{url}/archive/{rev}.tar.gz`.
#[derive(Debug, Clone, PartialEq, Eq)]
pub struct Pin {
    pub name: Option<String>,
    pub url: String,
    pub rev: String,
    pub sha256: String,
    pub branch: String,
    pub updated: Date,
}

/// The mathematical value of a `Pin`.
pub struct PinView {
    pub name: Option<Seq<char>>,
    pub url: Seq<char>,
    pub rev: Seq<char>,
    pub sha256: Seq<char>,
    pub branch: Seq<char>,
    pub updated: Date,
}

impl View for Pin {
    type V = PinView;

    open spec fn view(&self) -> PinView {
        PinView {
            name: opt_str_view(self.name),
            url: self.url@,
            rev: self.rev@,
            sha256: self.sha256@,
            branch: self.branch@,
            updated: self.updated,
        }
    }
}

impl Pin {
    pub fn clone_pin(&self) -> (r: Pin)
        ensures
            r@ == self@,
    {
        Pin {
            name: match &self.name {
                Some(n) => Some(clone_string(n)),
                None => None,
            },
            url: clone_string(&self.url),
            rev: clone_string(&self.rev),
            sha256: clone_string(&self.sha256),
            branch: clone_string(&self.branch),
            updated: self.updated,
        }
    }
}

/// One package sourced from a snapshot other than the primary pin.
#[derive(Debug, Clone, PartialEq, Eq)]
pub struct PinnedPackage {
    pub version: String,
    pub pin: Pin,
}

/// The mathematical value of a `PinnedPackage`.
pub struct PinnedPackageView {
    pub version: Seq<char>,
    pub pin: PinView,
}

impl View for PinnedPackage {
    type V = PinnedPackageView;

    open spec fn view(&self) -> PinnedPackageView {
        PinnedPackageView { version: self.version@, pin: self.pin@ }
    }
}

impl PinnedPackage {
    pub fn clone_pinned(&self) -> (r: PinnedPackage)
        ensures
            r@ == self@,
    {
        PinnedPackage { version: clone_string(&self.version), pin: self.pin.clone_pin() }
    }
}

#[derive(Debug, Clone, PartialEq, Eq)]
pub struct PresetState {
    pub active: Vec<String>,
}

#[derive(Debug, Clone)]
pub struct PackagesState {
    pub added: Vec<String>,
    pub removed: Vec<String>,
    pub pinned: StrMap<PinnedPackage>,
}

#[derive(Debug, Clone, PartialEq, Eq)]
pub struct ShellState {
    pub hook: Option<String>,
}

/// The seven opaque raw-fragment slots, plus the raw pin arguments.
#[derive(Debug, Clone, PartialEq, Eq)]
pub struct NixBlocks {
    pub let_block: Option<String>,
    pub pins: Option<String>,
    pub packages_raw: Option<String>,
    pub scripts: Option<String>,
    pub env_raw: Option<String>,
    pub override_attrs: Option<String>,
    pub override_merge: Option<String>,
    pub override_shell_hook: Option<String>,
}

impl NixBlocks {
    pub fn empty() -> (r: NixBlocks)
        ensures
            r.let_block is None,
            r.pins is None,
            r.packages_raw is None,
            r.scripts is None,
            r.env_raw is None,
            r.override_attrs is None,
            r.override_merge is None,
            r.override_shell_hook is None,
    {
        NixBlocks {
            let_block: None,
            pins: None,
            packages_raw: None,
            scripts: None,
            env_raw: None,
            override_attrs: None,
            override_merge: None,
            override_shell_hook: None,
        }
    }
}

/// The full project descriptor state.
#[derive(Debug, Clone)]
pub struct ProjectState {
    pub mica: MicaMetadata,
    pub pin: Pin,
    pub pins: StrMap<Pin>,
    pub presets: PresetState,
    pub packages: PackagesState,
    pub env: StrMap<String>,
    pub shell: ShellState,
    pub nix: NixBlocks,
}

impl ProjectState {
    /// The ordered maps inside the state keep their keys sorted.
    pub open spec fn wf(&self) -> bool {
        self.pins.wf() && self.packages.pinned.wf() && self.env.wf()
    }
}

/// The reduced profile state.
#[derive(Debug, Clone)]
pub struct GlobalProfileState {
    pub mica: MicaMetadata,
    pub pin: Pin,
    pub presets: PresetState,
    pub packages: PackagesState,
    pub generations: GenerationsState,
}

impl GlobalProfileState {
    pub open spec fn wf(&self) -> bool {
        self.packages.pinned.wf()
    }
}

#[derive(Debug, Clone)]
pub struct GenerationsState {
    pub history: Vec<GenerationEntry>,
}

#[derive(Debug, Clone)]
pub struct GenerationEntry {
    pub id: u64,
    pub timestamp: String,
    pub packages: Vec<String>,
}

pub fn clone_string(s: &String) -> (r: String)
    ensures
        r@ == s@,
{
    s.clone()
}

pub fn clone_opt_string(s: &Option<String>) -> (r: Option<String>)
    ensures
        opt_str_view(r) == opt_str_view(*s),
{
    match s {
        Some(v) => Some(clone_string(v)),
        None => None,
    }
}

} // verus!
