//! The interactive layer's data model: entries, filters, editor states
//! and key actions. Rendering and terminal handling live with the
//! caller; everything here is plain data and pure rules.

use vstd::prelude::*;

use crate::text::{chars_to_string, contains_sub, spec_trim, str_to_chars, trim_chars};

verus! {

/// One package row.
#[derive(Debug, Clone)]
pub struct PackageEntry {
    pub attr_path: String,
    pub name: String,
    pub version: Option<String>,
    pub description: Option<String>,
    pub homepage: Option<String>,
    pub license: Option<String>,
    pub platforms: Option<String>,
    pub main_program: Option<String>,
    pub position: Option<String>,
    pub broken: bool,
    pub insecure: bool,
}

/// The lowercase form of a text, as the platform's case folding gives
/// it; a function of the characters alone.
pub uninterp spec fn lower_of(s: Seq<char>) -> Seq<char>;

/// Relies on str::to_lowercase: the result depends on the characters
/// alone.
#[verifier::external_body]
fn to_lowercase(s: &str) -> (r: String)
    ensures
        r@ == lower_of(s@),
{
    s.to_lowercase()
}

/// Case-insensitive containment, by lowercasing both sides.
pub fn contains_case_insensitive(haystack: &str, needle: &str) -> (r: bool)
    ensures
        r == contains_sub(lower_of(haystack@), lower_of(needle@)),
{
    let h = to_lowercase(haystack);
    let n = to_lowercase(needle);
    let hc = str_to_chars(h.as_str());
    let nc = str_to_chars(n.as_str());
    crate::text::contains_in(&hc, &nc)
}

/// The package-list filters.
#[derive(Debug, Clone)]
pub struct PackageFilters {
    pub show_broken: bool,
    pub show_insecure: bool,
    pub license: String,
    pub platform: String,
    pub show_installed_only: bool,
}

pub open spec fn opt_or_empty(v: Option<String>) -> Seq<char> {
    match v {
        Some(s) => s@,
        None => Seq::empty(),
    }
}

impl PackageFilters {
    /// Whether a package passes the filters: broken and insecure rows
    /// only when shown, and case-insensitive license and platform
    /// matches when those filters are set.
    pub fn matches(&self, pkg: &PackageEntry) -> (r: bool)
        ensures
            r == {
                &&& (self.show_broken || !pkg.broken)
                &&& (self.show_insecure || !pkg.insecure)
                &&& (self.license@.len() == 0 || contains_sub(
                    lower_of(opt_or_empty(pkg.license)),
                    lower_of(self.license@),
                ))
                &&& (self.platform@.len() == 0 || contains_sub(
                    lower_of(opt_or_empty(pkg.platforms)),
                    lower_of(self.platform@),
                ))
            },
    {
        if !self.show_broken && pkg.broken {
            return false;
        }
        if !self.show_insecure && pkg.insecure {
            return false;
        }
        if self.license.as_str().unicode_len() != 0 {
            let hay: &str = match &pkg.license {
                Some(l) => l.as_str(),
                None => "",
            };
            proof {
                if pkg.license is None {
                    reveal_strlit("");
                    assert(""@ =~= Seq::<char>::empty());
                    assert(opt_or_empty(pkg.license) == ""@);
                }
            }
            if !contains_case_insensitive(hay, self.license.as_str()) {
                return false;
            }
        }
        if self.platform.as_str().unicode_len() != 0 {
            let hay: &str = match &pkg.platforms {
                Some(l) => l.as_str(),
                None => "",
            };
            proof {
                if pkg.platforms is None {
                    reveal_strlit("");
                    assert(""@ =~= Seq::<char>::empty());
                    assert(opt_or_empty(pkg.platforms) == ""@);
                }
            }
            if !contains_case_insensitive(hay, self.platform.as_str()) {
                return false;
            }
        }
        true
    }
}

/// A preset row.
#[derive(Debug, Clone)]
pub struct PresetEntry {
    pub name: String,
    pub description: String,
    pub order: i32,
    pub packages_required: Vec<String>,
    pub packages_optional: Vec<String>,
}

/// What is known about the loaded index.
#[derive(Debug, Clone)]
pub struct IndexInfo {
    pub url: String,
    pub rev: String,
    pub count: Option<usize>,
    pub generated_at: Option<String>,
    pub displayed_count: Option<usize>,
}

impl IndexInfo {
    pub fn unknown_info() -> (r: IndexInfo)
        ensures
            r.url@ == "unknown"@,
            r.rev@ == "unknown"@,
            r.count is None,
            r.generated_at is None,
            r.displayed_count is None,
    {
        IndexInfo {
            url: chars_to_string(&str_to_chars("unknown")),
            rev: chars_to_string(&str_to_chars("unknown")),
            count: None,
            generated_at: None,
            displayed_count: None,
        }
    }
}

#[derive(Debug, Clone, Copy, PartialEq, Eq, Structural)]
pub enum Focus {
    Packages,
    Presets,
    Changes,
}

#[derive(Debug, Clone, Copy, PartialEq, Eq, Structural)]
pub enum ColumnKind {
    Version,
    Description,
    License,
    Platforms,
    MainProgram,
}

/// One toggleable column with its display label.
#[derive(Debug, Clone)]
pub struct ColumnOption {
    pub kind: ColumnKind,
    pub label: String,
}

#[derive(Debug, Clone, Copy, PartialEq, Eq, Structural)]
pub struct ColumnSettings {
    pub show_version: bool,
    pub show_description: bool,
    pub show_license: bool,
    pub show_platforms: bool,
    pub show_main_program: bool,
}

impl ColumnSettings {
    pub fn default_settings() -> (r: ColumnSettings)
        ensures
            r.show_version && r.show_description && !r.show_license && !r.show_platforms
                && !r.show_main_program,
    {
        ColumnSettings {
            show_version: true,
            show_description: true,
            show_license: false,
            show_platforms: false,
            show_main_program: false,
        }
    }
}

#[derive(Debug, Clone, Copy, PartialEq, Eq, Structural)]
pub enum AppMode {
    Project,
    Global,
}

#[derive(Debug, Clone, Copy, PartialEq, Eq, Structural)]
pub enum FilterKind {
    License,
    Platform,
}

#[derive(Debug, Clone)]
pub struct FilterEditorState {
    pub kind: FilterKind,
    pub input: String,
    pub cursor: usize,
}

pub use crate::envvalue::EnvValueMode;

#[derive(Debug, Clone, PartialEq, Eq)]
pub enum EnvEditMode {
    List,
    Edit { original_key: Option<String>, value_mode: EnvValueMode },
}

#[derive(Debug, Clone)]
pub struct EnvEntry {
    pub key: String,
    pub value: String,
}

#[derive(Debug, Clone)]
pub struct EnvEditorState {
    pub entries: Vec<EnvEntry>,
    pub cursor: usize,
    pub input: String,
    pub input_cursor: usize,
    pub mode: EnvEditMode,
    pub error: Option<String>,
}

#[derive(Debug, Clone)]
pub struct ShellEditorState {
    pub lines: Vec<String>,
    pub cursor_row: usize,
    pub cursor_col: usize,
    pub original: Vec<String>,
}

/// Keeps the hook editor's cursor inside its line grid: at least one
/// line exists, the row is in range, and the column is within its line.
pub fn ensure_shell_lines(state: &mut ShellEditorState)
    ensures
        final(state).lines@.len() > 0,
        final(state).cursor_row < final(state).lines@.len(),
        final(state).cursor_col <= final(state).lines@[final(state).cursor_row as int]@.len(),
        old(state).lines@.len() > 0 ==> final(state).lines == old(state).lines,
        final(state).original == old(state).original,
{
    if state.lines.len() == 0 {
        let e: Vec<char> = Vec::new();
        state.lines.push(chars_to_string(&e));
    }
    if state.cursor_row >= state.lines.len() {
        state.cursor_row = state.lines.len() - 1;
    }
    let line_len = state.lines[state.cursor_row].as_str().unicode_len();
    if state.cursor_col > line_len {
        state.cursor_col = line_len;
    }
}

#[derive(Debug, Clone)]
pub struct DiffViewerState {
    pub full_lines: Vec<String>,
    pub change_lines: Vec<String>,
    pub show_full: bool,
    pub scroll: usize,
}

#[derive(Debug, Clone)]
pub struct PackageInfoState {
    pub lines: Vec<String>,
    pub scroll: usize,
}

#[derive(Debug, Clone)]
pub struct VersionPickerEntry {
    pub source: String,
    pub version: String,
    pub commit: String,
    pub commit_date: String,
    pub branch: String,
    pub url: String,
}

#[derive(Debug, Clone)]
pub struct VersionPickerState {
    pub entries: Vec<VersionPickerEntry>,
    pub cursor: usize,
    pub package: String,
}

#[derive(Debug, Clone, Copy, PartialEq, Eq, Structural)]
pub struct ColumnsEditorState {
    pub cursor: usize,
}

#[derive(Debug, Clone, Copy, PartialEq, Eq, Structural)]
pub enum PinField {
    Name,
    Url,
    Branch,
    Rev,
    Sha256,
    TarballName,
}

/// The pin-editor overlay state.
#[derive(Debug, Clone)]
pub struct PinEditorState {
    pub name: String,
    pub name_cursor: usize,
    pub url: String,
    pub url_cursor: usize,
    pub branch: String,
    pub branch_cursor: usize,
    pub rev: String,
    pub rev_cursor: usize,
    pub sha256: String,
    pub sha256_cursor: usize,
    pub tarball_name: String,
    pub tarball_name_cursor: usize,
    pub active: PinField,
    pub use_latest: bool,
    pub error: Option<String>,
}

impl PinEditorState {
    /// A fresh editor: the given location filled in, a blank branch
    /// falling back to the default branch name, cursors at the ends.
    pub fn new(default_url: String, default_branch: String) -> (r: PinEditorState)
        ensures
            r.url@ == default_url@,
            spec_trim(default_branch@).len() == 0 ==> r.branch@ == "main"@,
            spec_trim(default_branch@).len() > 0 ==> r.branch@ == default_branch@,
            r.name@.len() == 0,
            r.rev@.len() == 0,
            r.sha256@.len() == 0,
            r.tarball_name@.len() == 0,
            r.active is Name,
            r.use_latest,
            r.error is None,
    {
        let bc = str_to_chars(default_branch.as_str());
        let bt = trim_chars(&bc);
        let branch: String = if bt.len() == 0 {
            chars_to_string(&str_to_chars("main"))
        } else {
            default_branch
        };
        let url_cursor = default_url.as_str().unicode_len();
        let branch_cursor = branch.as_str().unicode_len();
        let e: Vec<char> = Vec::new();
        PinEditorState {
            name: chars_to_string(&e),
            name_cursor: 0,
            url: default_url,
            url_cursor,
            branch,
            branch_cursor,
            rev: chars_to_string(&e),
            rev_cursor: 0,
            sha256: chars_to_string(&e),
            sha256_cursor: 0,
            tarball_name: chars_to_string(&e),
            tarball_name_cursor: 0,
            active: PinField::Name,
            use_latest: true,
            error: None,
        }
    }
}

#[derive(Debug, Clone, Copy, PartialEq, Eq, Structural)]
pub enum ToastLevel {
    Info,
    Error,
}

/// A transient message; the caller supplies its expiry as milliseconds
/// on its own clock.
#[derive(Debug, Clone)]
pub struct Toast {
    pub message: String,
    pub level: ToastLevel,
    pub expires_at_millis: u64,
}

#[derive(Debug, Clone)]
pub enum Overlay {
    Help,
    PackageInfo(PackageInfoState),
    VersionPicker(VersionPickerState),
    PinEditor(PinEditorState),
    Columns(ColumnsEditorState),
    Env(EnvEditorState),
    Shell(ShellEditorState),
    Filter(FilterEditorState),
    Diff(DiffViewerState),
}

/// The abstract action a key press maps to.
#[derive(Debug, Clone, Copy, PartialEq, Eq, Structural)]
pub enum InputAction {
    Idle,
    Quit,
    Save,
    Toggle,
    ToggleFocus,
    Next,
    Prev,
    Backspace,
    Clear,
    Help,
    ShowPackageInfo,
    OpenVersionPicker,
    OpenEnv,
    OpenShell,
    ToggleBroken,
    ToggleInsecure,
    ToggleInstalled,
    ToggleSearchMode,
    ToggleDetails,
    EditLicenseFilter,
    EditPlatformFilter,
    PreviewDiff,
    UpdatePin,
    AddPin,
    TogglePresets,
    ToggleChanges,
    OpenColumns,
    RebuildIndex,
    Sync,
    Insert(char),
}

/// A short revision label: the first eight characters.
pub fn short_rev(value: &str) -> (r: String)
    ensures
        value@.len() <= 8 ==> r@ == value@,
        value@.len() > 8 ==> r@ == value@.take(8),
{
    let vc = str_to_chars(value);
    if vc.len() <= 8 {
        return chars_to_string(&vc);
    }
    let t = crate::text::subvec(&vc, 0, 8);
    assert(t@ =~= value@.take(8));
    chars_to_string(&t)
}

/// Trimmed text cut to a display width, with an ellipsis when cut.
pub fn truncate_text(text: &str, max: usize) -> (r: String)
    ensures
        max == 0 ==> r@.len() == 0,
        max > 0 && spec_trim(text@).len() <= max ==> r@ == spec_trim(text@),
        max > 0 && spec_trim(text@).len() > max ==> r@ == spec_trim(text@).take(
            if max >= 3 {
                max - 3
            } else {
                0
            },
        ) + "..."@,
{
    let e: Vec<char> = Vec::new();
    if max == 0 {
        return chars_to_string(&e);
    }
    let tc = str_to_chars(text);
    let t = trim_chars(&tc);
    if t.len() <= max {
        return chars_to_string(&t);
    }
    let keep = if max >= 3 {
        max - 3
    } else {
        0
    };
    let mut out = crate::text::subvec(&t, 0, keep);
    assert(out@ =~= spec_trim(text@).take(keep as int));
    crate::text::push_str_chars(&mut out, "...");
    chars_to_string(&out)
}

} // verus!
