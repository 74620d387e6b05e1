//! Presets: named, priority-ordered bundles of packages, environment
//! entries, hooks and raw fragments, and the merge engine that combines
//! them with the state into one canonical result.

use vstd::prelude::*;

use crate::smap::{kv_view, spec_insert_kv, StrMap};
use crate::state::{clone_string, opt_str_view, GlobalProfileState, NixBlocks, ProjectState,
    ShellState};
use crate::text::{str_to_chars, spec_trim, strs_view, trim_chars};

verus! {

/// An on-disk preset file: metadata plus optional sections.
#[derive(Debug, Clone, PartialEq, Eq)]
pub struct PresetMetadata {
    pub name: String,
    pub description: String,
    pub order: i32,
}

#[derive(Debug, Clone, PartialEq, Eq)]
pub struct PresetPackages {
    pub required: Vec<String>,
    pub optional: Vec<String>,
}

#[derive(Debug, Clone)]
pub struct PresetFile {
    pub preset: PresetMetadata,
    pub packages: PresetPackages,
    pub env: StrMap<String>,
    pub shell: ShellState,
    pub nix: NixBlocks,
}

/// A preset embedded in the binary by name.
#[derive(Debug, Clone, PartialEq, Eq)]
pub struct EmbeddedPreset {
    pub name: String,
    pub content: String,
}

/// A loaded preset.
#[derive(Debug, Clone)]
pub struct Preset {
    pub name: String,
    pub description: String,
    pub order: i32,
    pub packages_required: Vec<String>,
    pub packages_optional: Vec<String>,
    pub env: StrMap<String>,
    pub shell: ShellState,
    pub nix: NixBlocks,
    pub source: String,
}

/// The mathematical value of a `Preset`, as the merge engine reads it.
pub struct PresetView {
    pub name: Seq<char>,
    pub order: int,
    pub packages_required: Seq<Seq<char>>,
    pub env: Seq<(Seq<char>, Seq<char>)>,
    pub shell_hook: Option<Seq<char>>,
    pub nix: NixBlocksView,
}

/// The views of the raw-fragment slots.
pub struct NixBlocksView {
    pub let_block: Option<Seq<char>>,
    pub pins: Option<Seq<char>>,
    pub packages_raw: Option<Seq<char>>,
    pub scripts: Option<Seq<char>>,
    pub env_raw: Option<Seq<char>>,
    pub override_attrs: Option<Seq<char>>,
    pub override_merge: Option<Seq<char>>,
    pub override_shell_hook: Option<Seq<char>>,
}

pub open spec fn nix_blocks_view(b: NixBlocks) -> NixBlocksView {
    NixBlocksView {
        let_block: opt_str_view(b.let_block),
        pins: opt_str_view(b.pins),
        packages_raw: opt_str_view(b.packages_raw),
        scripts: opt_str_view(b.scripts),
        env_raw: opt_str_view(b.env_raw),
        override_attrs: opt_str_view(b.override_attrs),
        override_merge: opt_str_view(b.override_merge),
        override_shell_hook: opt_str_view(b.override_shell_hook),
    }
}

impl View for Preset {
    type V = PresetView;

    open spec fn view(&self) -> PresetView {
        PresetView {
            name: self.name@,
            order: self.order as int,
            packages_required: strs_view(self.packages_required@),
            env: kv_view(self.env.entries@),
            shell_hook: opt_str_view(self.shell.hook),
            nix: nix_blocks_view(self.nix),
        }
    }
}

/// The views of a sequence of presets.
pub open spec fn presets_view(s: Seq<Preset>) -> Seq<PresetView> {
    Seq::new(s.len(), |i: int| s[i]@)
}

impl Preset {
    /// Builds a preset from its file form and provenance path.
    pub fn from_file(file: PresetFile, source: String) -> (r: Preset)
        ensures
            r.name@ == file.preset.name@,
            r.description@ == file.preset.description@,
            r.order == file.preset.order,
            r.packages_required == file.packages.required,
            r.packages_optional == file.packages.optional,
            r.env == file.env,
            r.shell == file.shell,
            r.nix == file.nix,
            r.source@ == source@,
    {
        Preset {
            name: file.preset.name,
            description: file.preset.description,
            order: file.preset.order,
            packages_required: file.packages.required,
            packages_optional: file.packages.optional,
            env: file.env,
            shell: file.shell,
            nix: file.nix,
            source,
        }
    }
}

/// One preset's surviving packages, labeled with the preset's name.
#[derive(Debug, Clone)]
pub struct PresetPackageGroup {
    pub preset: String,
    pub packages: Vec<String>,
}

/// The mathematical value of a package group.
pub struct GroupView {
    pub preset: Seq<char>,
    pub packages: Seq<Seq<char>>,
}

impl View for PresetPackageGroup {
    type V = GroupView;

    open spec fn view(&self) -> GroupView {
        GroupView { preset: self.preset@, packages: strs_view(self.packages@) }
    }
}

pub open spec fn groups_view(s: Seq<PresetPackageGroup>) -> Seq<GroupView> {
    Seq::new(s.len(), |i: int| s[i]@)
}

/// The merge engine's output for the project shape.
#[derive(Debug, Clone)]
pub struct MergedResult {
    pub preset_packages: Vec<PresetPackageGroup>,
    pub user_packages: Vec<String>,
    pub env: StrMap<String>,
    pub shell_hooks: Vec<String>,
    pub all_packages: Vec<String>,
    pub let_blocks: Vec<String>,
    pub pin_blocks: Vec<String>,
    pub packages_raw_blocks: Vec<String>,
    pub scripts_blocks: Vec<String>,
    pub env_raw_blocks: Vec<String>,
    pub override_blocks: Vec<String>,
    pub override_merge_blocks: Vec<String>,
    pub override_shellhook_blocks: Vec<String>,
}

/// The merge engine's output for the profile shape.
#[derive(Debug, Clone)]
pub struct MergedProfileResult {
    pub preset_packages: Vec<PresetPackageGroup>,
    pub user_packages: Vec<String>,
    pub all_packages: Vec<String>,
}

} // verus!

verus! {

// ---------- cloning helpers (view-preserving) ----------

pub fn clone_env_map(m: &StrMap<String>) -> (r: StrMap<String>)
    ensures
        kv_view(r.entries@) == kv_view(m.entries@),
        r.entries@.len() == m.entries@.len(),
{
    let mut e: Vec<(String, String)> = Vec::new();
    let mut i: usize = 0;
    while i < m.entries.len()
        invariant
            i <= m.entries@.len(),
            e@.len() == i,
            kv_view(e@) == kv_view(m.entries@).take(i as int),
        decreases m.entries@.len() - i,
    {
        let ghost prev = e@;
        e.push((clone_string(&m.entries[i].0), clone_string(&m.entries[i].1)));
        i = i + 1;
        assert forall|j: int| 0 <= j < i implies kv_view(e@)[j] == kv_view(m.entries@).take(
            i as int,
        )[j] by {
            if j < i - 1 {
                assert(e@[j] == prev[j]);
                assert(kv_view(prev)[j] == kv_view(m.entries@).take(i - 1)[j]);
            }
        }
        assert(kv_view(e@) =~= kv_view(m.entries@).take(i as int));
    }
    assert(kv_view(e@) =~= kv_view(m.entries@));
    StrMap { entries: e }
}

pub fn clone_nix_blocks(b: &NixBlocks) -> (r: NixBlocks)
    ensures
        nix_blocks_view(r) == nix_blocks_view(*b),
{
    NixBlocks {
        let_block: crate::state::clone_opt_string(&b.let_block),
        pins: crate::state::clone_opt_string(&b.pins),
        packages_raw: crate::state::clone_opt_string(&b.packages_raw),
        scripts: crate::state::clone_opt_string(&b.scripts),
        env_raw: crate::state::clone_opt_string(&b.env_raw),
        override_attrs: crate::state::clone_opt_string(&b.override_attrs),
        override_merge: crate::state::clone_opt_string(&b.override_merge),
        override_shell_hook: crate::state::clone_opt_string(&b.override_shell_hook),
    }
}

pub fn clone_preset(p: &Preset) -> (r: Preset)
    ensures
        r@ == p@,
        r.description@ == p.description@,
        r.source@ == p.source@,
        strs_view(r.packages_optional@) == strs_view(p.packages_optional@),
{
    Preset {
        name: clone_string(&p.name),
        description: clone_string(&p.description),
        order: p.order,
        packages_required: crate::text::clone_strings(&p.packages_required),
        packages_optional: crate::text::clone_strings(&p.packages_optional),
        env: clone_env_map(&p.env),
        shell: ShellState { hook: crate::state::clone_opt_string(&p.shell.hook) },
        nix: clone_nix_blocks(&p.nix),
        source: clone_string(&p.source),
    }
}

// ---------- stable sort by priority order ----------

/// Stable insertion of one preset after all entries with order at most its own.
pub open spec fn spec_insert_by_order(p: PresetView, s: Seq<PresetView>) -> Seq<PresetView>
    decreases s.len(),
{
    if s.len() == 0 {
        seq![p]
    } else if p.order < s[0].order {
        seq![p] + s
    } else {
        seq![s[0]] + spec_insert_by_order(p, s.drop_first())
    }
}

/// Stable sort of the presets by ascending priority order.
pub open spec fn spec_sort_presets(s: Seq<PresetView>) -> Seq<PresetView>
    decreases s.len(),
{
    if s.len() == 0 {
        s
    } else {
        spec_insert_by_order(s.last(), spec_sort_presets(s.drop_last()))
    }
}

proof fn lemma_insert_by_order_at(p: PresetView, s: Seq<PresetView>, j: int)
    requires
        0 <= j <= s.len(),
        forall|k: int| 0 <= k < j ==> !(p.order < (#[trigger] s[k]).order),
        j < s.len() ==> p.order < s[j].order,
    ensures
        spec_insert_by_order(p, s) == s.take(j) + seq![p] + s.skip(j),
    decreases s.len(),
{
    if s.len() == 0 {
        assert(spec_insert_by_order(p, s) =~= s.take(j) + seq![p] + s.skip(j));
    } else if j == 0 {
        assert(p.order < s[0].order);
        assert(spec_insert_by_order(p, s) =~= s.take(0) + seq![p] + s.skip(0));
    } else {
        assert(!(p.order < s[0].order));
        let t = s.drop_first();
        assert(forall|k: int| 0 <= k < j - 1 ==> !(p.order < (#[trigger] t[k]).order)) by {
            assert(forall|k: int| 0 <= k < j - 1 ==> t[k] == s[k + 1]);
        }
        assert(j - 1 < t.len() ==> t[j - 1] == s[j]);
        lemma_insert_by_order_at(p, t, j - 1);
        assert(spec_insert_by_order(p, s) =~= s.take(j) + seq![p] + s.skip(j)) by {
            assert(spec_insert_by_order(p, s) == seq![s[0]] + spec_insert_by_order(p, t));
            assert(spec_insert_by_order(p, t) == t.take(j - 1) + seq![p] + t.skip(j - 1));
        }
    }
}

/// Sorts the presets by ascending order, keeping the order of equals.
pub fn sort_presets(presets: &Vec<Preset>) -> (r: Vec<Preset>)
    ensures
        presets_view(r@) == spec_sort_presets(presets_view(presets@)),
{
    let ghost pv = presets_view(presets@);
    let mut out: Vec<Preset> = Vec::new();
    let mut i: usize = 0;
    assert(presets_view(out@) =~= spec_sort_presets(pv.take(0)));
    while i < presets.len()
        invariant
            i <= presets@.len(),
            pv == presets_view(presets@),
            presets_view(out@) == spec_sort_presets(pv.take(i as int)),
        decreases presets@.len() - i,
    {
        let ghost prev = presets_view(out@);
        let p = clone_preset(&presets[i]);
        let mut j: usize = 0;
        while j < out.len() && !(p.order < out[j].order)
            invariant
                j <= out@.len(),
                forall|k: int|
                    0 <= k < j ==> !(p@.order < (#[trigger] presets_view(out@)[k]).order),
                presets_view(out@) == prev,
                p@ == pv[i as int],
            decreases out@.len() - j,
        {
            assert(presets_view(out@)[j as int] == out@[j as int]@);
            j = j + 1;
        }
        proof {
            if j < out@.len() {
                assert(presets_view(out@)[j as int] == out@[j as int]@);
            }
            lemma_insert_by_order_at(p@, prev, j as int);
        }
        out.insert(j, p);
        assert(presets_view(out@) =~= prev.take(j as int) + seq![p@] + prev.skip(j as int)) by {
            assert(forall|k: int| 0 <= k < j ==> out@[k]@ == (#[trigger] prev[k]));
            assert(out@[j as int]@ == p@);
            assert(forall|k: int|
                j < k < out@.len() ==> out@[k]@ == (#[trigger] presets_view(out@)[k]));
            assert(forall|k: int| j < k < out@.len() ==> out@[k]@ == prev[k - 1]);
        }
        i = i + 1;
        assert(pv.take(i as int).drop_last() =~= pv.take(i as int - 1));
        assert(pv.take(i as int).last() == pv[i as int - 1]);
        assert(presets_view(out@) == spec_sort_presets(pv.take(i as int)));
    }
    assert(pv.take(i as int) =~= pv);
    out
}

// ---------- the ordered dedup set, from the indexmap crate ----------

#[verifier::external_type_specification]
#[verifier::external_body]
#[verifier::reject_recursive_types(T)]
#[verifier::reject_recursive_types(S)]
pub struct ExIndexSet<T, S>(indexmap::IndexSet<T, S>);

/// The values the set holds, in insertion order.
pub uninterp spec fn iset_elems(
    s: indexmap::IndexSet<String, std::collections::hash_map::RandomState>,
) -> Seq<Seq<char>>;

/// Relies on indexmap::IndexSet::new: the new set is empty.
#[verifier::external_body]
fn iset_new() -> (r: indexmap::IndexSet<String, std::collections::hash_map::RandomState>)
    ensures
        iset_elems(r) == Seq::<Seq<char>>::empty(),
{
    indexmap::IndexSet::new()
}

/// Relies on indexmap::IndexSet::insert: an absent value is appended at
/// the end and `true` returned; a present one leaves the set and its
/// order unchanged and `false` is returned.
#[verifier::external_body]
fn iset_insert(
    s: &mut indexmap::IndexSet<String, std::collections::hash_map::RandomState>,
    v: String,
) -> (r: bool)
    ensures
        r == !iset_elems(*old(s)).contains(v@),
        iset_elems(*final(s)) == if iset_elems(*old(s)).contains(v@) {
            iset_elems(*old(s))
        } else {
            iset_elems(*old(s)).push(v@)
        },
{
    s.insert(v)
}

/// Relies on indexmap::IndexSet::into_iter: yields the values in
/// insertion order.
#[verifier::external_body]
fn iset_into_vec(s: indexmap::IndexSet<String, std::collections::hash_map::RandomState>) -> (r: Vec<
    String,
>)
    ensures
        strs_view(r@) == iset_elems(s),
{
    s.into_iter().collect()
}

} // verus!

verus! {

// ---------- the merge folds, stated over views ----------

/// Folds one preset's required packages through the first-occurrence-wins
/// set, skipping removed names; yields the surviving group and the set.
pub open spec fn spec_group_step(
    pkgs: Seq<Seq<char>>,
    j: int,
    removed: Seq<Seq<char>>,
    seen: Seq<Seq<char>>,
    group: Seq<Seq<char>>,
) -> (Seq<Seq<char>>, Seq<Seq<char>>)
    decreases pkgs.len() - j,
{
    if j < 0 || j >= pkgs.len() {
        (group, seen)
    } else if removed.contains(pkgs[j]) || seen.contains(pkgs[j]) {
        spec_group_step(pkgs, j + 1, removed, seen, group)
    } else {
        spec_group_step(pkgs, j + 1, removed, seen.push(pkgs[j]), group.push(pkgs[j]))
    }
}

/// Folds the sorted presets into labeled package groups, keeping only
/// presets that contributed at least one surviving package.
pub open spec fn spec_groups_step(
    ps: Seq<PresetView>,
    i: int,
    removed: Seq<Seq<char>>,
    seen: Seq<Seq<char>>,
    groups: Seq<GroupView>,
) -> (Seq<GroupView>, Seq<Seq<char>>)
    decreases ps.len() - i,
{
    if i < 0 || i >= ps.len() {
        (groups, seen)
    } else {
        let folded = spec_group_step(ps[i].packages_required, 0, removed, seen, Seq::empty());
        let groups2 = if folded.0.len() > 0 {
            groups.push(GroupView { preset: ps[i].name, packages: folded.0 })
        } else {
            groups
        };
        spec_groups_step(ps, i + 1, removed, folded.1, groups2)
    }
}

/// Folds the user-added packages through the same set.
pub open spec fn spec_user_step(
    added: Seq<Seq<char>>,
    j: int,
    removed: Seq<Seq<char>>,
    seen: Seq<Seq<char>>,
    user: Seq<Seq<char>>,
) -> (Seq<Seq<char>>, Seq<Seq<char>>)
    decreases added.len() - j,
{
    if j < 0 || j >= added.len() {
        (user, seen)
    } else if removed.contains(added[j]) || seen.contains(added[j]) {
        spec_user_step(added, j + 1, removed, seen, user)
    } else {
        spec_user_step(added, j + 1, removed, seen.push(added[j]), user.push(added[j]))
    }
}

/// The package part of the merge: groups, user additions, and the full
/// deduplicated install list, in that derivation order.
pub open spec fn spec_merge_groups(sorted: Seq<PresetView>, removed: Seq<Seq<char>>) -> (
    Seq<GroupView>,
    Seq<Seq<char>>,
) {
    spec_groups_step(sorted, 0, removed, Seq::empty(), Seq::empty())
}

pub open spec fn spec_merge_user(
    added: Seq<Seq<char>>,
    removed: Seq<Seq<char>>,
    seen: Seq<Seq<char>>,
) -> (Seq<Seq<char>>, Seq<Seq<char>>) {
    spec_user_step(added, 0, removed, seen, Seq::empty())
}

/// Folding one environment table into the accumulated map, later writes
/// overriding earlier keys.
pub open spec fn spec_env_fold_entries(
    pairs: Seq<(Seq<char>, Seq<char>)>,
    j: int,
    acc: Seq<(Seq<char>, Seq<char>)>,
) -> Seq<(Seq<char>, Seq<char>)>
    decreases pairs.len() - j,
{
    if j < 0 || j >= pairs.len() {
        acc
    } else {
        spec_env_fold_entries(pairs, j + 1, spec_insert_kv(acc, pairs[j].0, pairs[j].1))
    }
}

/// The merged environment: preset tables in priority order, then the
/// state's table.
pub open spec fn spec_env_fold_presets(
    ps: Seq<PresetView>,
    i: int,
    acc: Seq<(Seq<char>, Seq<char>)>,
) -> Seq<(Seq<char>, Seq<char>)>
    decreases ps.len() - i,
{
    if i < 0 || i >= ps.len() {
        acc
    } else {
        spec_env_fold_presets(ps, i + 1, spec_env_fold_entries(ps[i].env, 0, acc))
    }
}

pub open spec fn spec_merged_env(
    sorted: Seq<PresetView>,
    state_env: Seq<(Seq<char>, Seq<char>)>,
) -> Seq<(Seq<char>, Seq<char>)> {
    spec_env_fold_entries(state_env, 0, spec_env_fold_presets(sorted, 0, Seq::empty()))
}

/// The ordered shell-hook list: presets first, then the state hook.
pub open spec fn spec_hooks_step(ps: Seq<PresetView>, i: int, acc: Seq<Seq<char>>) -> Seq<
    Seq<char>,
>
    decreases ps.len() - i,
{
    if i < 0 || i >= ps.len() {
        acc
    } else {
        spec_hooks_step(
            ps,
            i + 1,
            match ps[i].shell_hook {
                Some(h) => acc.push(h),
                None => acc,
            },
        )
    }
}

pub open spec fn spec_merged_hooks(
    sorted: Seq<PresetView>,
    state_hook: Option<Seq<char>>,
) -> Seq<Seq<char>> {
    match state_hook {
        Some(h) => spec_hooks_step(sorted, 0, Seq::empty()).push(h),
        None => spec_hooks_step(sorted, 0, Seq::empty()),
    }
}

/// The raw-fragment slots, numbered.
pub open spec fn nix_slot(n: NixBlocksView, slot: int) -> Option<Seq<char>> {
    if slot == 0 {
        n.let_block
    } else if slot == 1 {
        n.pins
    } else if slot == 2 {
        n.packages_raw
    } else if slot == 3 {
        n.scripts
    } else if slot == 4 {
        n.env_raw
    } else if slot == 5 {
        n.override_attrs
    } else if slot == 6 {
        n.override_merge
    } else {
        n.override_shell_hook
    }
}

/// What `push_block` does: a present block with nonblank text is trimmed
/// and appended.
pub open spec fn spec_push_block(acc: Seq<Seq<char>>, b: Option<Seq<char>>) -> Seq<Seq<char>> {
    match b {
        Some(v) => if spec_trim(v).len() > 0 {
            acc.push(spec_trim(v))
        } else {
            acc
        },
        None => acc,
    }
}

pub open spec fn spec_blocks_fold(
    ps: Seq<PresetView>,
    i: int,
    slot: int,
    acc: Seq<Seq<char>>,
) -> Seq<Seq<char>>
    decreases ps.len() - i,
{
    if i < 0 || i >= ps.len() {
        acc
    } else {
        spec_blocks_fold(ps, i + 1, slot, spec_push_block(acc, nix_slot(ps[i].nix, slot)))
    }
}

/// One raw-fragment category: preset fragments in priority order, then
/// the state's fragment, each trimmed, blanks dropped.
pub open spec fn spec_merged_blocks(
    sorted: Seq<PresetView>,
    state_nix: NixBlocksView,
    slot: int,
) -> Seq<Seq<char>> {
    spec_push_block(spec_blocks_fold(sorted, 0, slot, Seq::empty()), nix_slot(state_nix, slot))
}

// ---------- executable merge ----------

/// Appends a block's trimmed text, dropping absent or blank blocks.
pub fn push_block(target: &mut Vec<String>, block: &Option<String>)
    ensures
        strs_view(final(target)@) == spec_push_block(strs_view(old(target)@), opt_str_view(*block)),
{
    let ghost prev = strs_view(target@);
    match block {
        Some(value) => {
            let vc = str_to_chars(value.as_str());
            let t = trim_chars(&vc);
            if t.len() > 0 {
                target.push(crate::text::chars_to_string(&t));
                assert(strs_view(target@) =~= prev.push(spec_trim(value@)));
            }
        },
        None => {},
    }
}

fn slot_of<'a>(n: &'a NixBlocks, slot: u8) -> (r: &'a Option<String>)
    requires
        slot < 8,
    ensures
        opt_str_view(*r) == nix_slot(nix_blocks_view(*n), slot as int),
{
    if slot == 0 {
        &n.let_block
    } else if slot == 1 {
        &n.pins
    } else if slot == 2 {
        &n.packages_raw
    } else if slot == 3 {
        &n.scripts
    } else if slot == 4 {
        &n.env_raw
    } else if slot == 5 {
        &n.override_attrs
    } else if slot == 6 {
        &n.override_merge
    } else {
        &n.override_shell_hook
    }
}

fn collect_slot_blocks(ordered: &Vec<Preset>, state_nix: &NixBlocks, slot: u8) -> (r: Vec<String>)
    requires
        slot < 8,
    ensures
        strs_view(r@) == spec_merged_blocks(
            presets_view(ordered@),
            nix_blocks_view(*state_nix),
            slot as int,
        ),
{
    let ghost pv = presets_view(ordered@);
    let mut out: Vec<String> = Vec::new();
    let mut i: usize = 0;
    assert(strs_view(out@) =~= Seq::<Seq<char>>::empty());
    while i < ordered.len()
        invariant
            i <= ordered@.len(),
            slot < 8,
            pv == presets_view(ordered@),
            spec_blocks_fold(pv, 0, slot as int, Seq::empty()) == spec_blocks_fold(
                pv,
                i as int,
                slot as int,
                strs_view(out@),
            ),
        decreases ordered@.len() - i,
    {
        assert(pv[i as int] == ordered@[i as int]@);
        push_block(&mut out, slot_of(&ordered[i].nix, slot));
        i = i + 1;
    }
    push_block(&mut out, slot_of(state_nix, slot));
    out
}

fn collect_hooks(ordered: &Vec<Preset>, state_hook: &Option<String>) -> (r: Vec<String>)
    ensures
        strs_view(r@) == spec_merged_hooks(presets_view(ordered@), opt_str_view(*state_hook)),
{
    let ghost pv = presets_view(ordered@);
    let mut out: Vec<String> = Vec::new();
    let mut i: usize = 0;
    assert(strs_view(out@) =~= Seq::<Seq<char>>::empty());
    while i < ordered.len()
        invariant
            i <= ordered@.len(),
            pv == presets_view(ordered@),
            spec_hooks_step(pv, 0, Seq::empty()) == spec_hooks_step(
                pv,
                i as int,
                strs_view(out@),
            ),
        decreases ordered@.len() - i,
    {
        assert(pv[i as int] == ordered@[i as int]@);
        let ghost prev = strs_view(out@);
        match &ordered[i].shell.hook {
            Some(h) => {
                out.push(clone_string(h));
                assert(strs_view(out@) =~= prev.push(h@));
            },
            None => {},
        }
        i = i + 1;
    }
    let ghost prev = strs_view(out@);
    match state_hook {
        Some(h) => {
            out.push(clone_string(h));
            assert(strs_view(out@) =~= prev.push(h@));
        },
        None => {},
    }
    out
}

fn fold_env_entries(env: &mut StrMap<String>, pairs: &StrMap<String>)
    requires
        old(env).wf(),
    ensures
        final(env).wf(),
        kv_view(final(env).entries@) == spec_env_fold_entries(
            kv_view(pairs.entries@),
            0,
            kv_view(old(env).entries@),
        ),
{
    let ghost pr = kv_view(pairs.entries@);
    let mut j: usize = 0;
    while j < pairs.entries.len()
        invariant
            j <= pairs.entries@.len(),
            pr == kv_view(pairs.entries@),
            env.wf(),
            spec_env_fold_entries(pr, 0, kv_view(old(env).entries@)) == spec_env_fold_entries(
                pr,
                j as int,
                kv_view(env.entries@),
            ),
        decreases pairs.entries@.len() - j,
    {
        let ghost before = env.entries@;
        let k = clone_string(&pairs.entries[j].0);
        let v = clone_string(&pairs.entries[j].1);
        assert(pr[j as int] == (pairs.entries@[j as int].0@, pairs.entries@[j as int].1@));
        proof {
            crate::smap::lemma_insert_entries_view(before, k, v);
        }
        env.insert(k, v);
        assert(kv_view(env.entries@) == crate::smap::spec_insert_kv(
            kv_view(before),
            pr[j as int].0,
            pr[j as int].1,
        ));
        j = j + 1;
    }
}

/// The merge engine (project shape): combines the presets, sorted by
/// ascending priority, with the state into one canonical result. No
/// error conditions: empty inputs give an empty result.
pub fn merge_presets(presets: &Vec<Preset>, state: &ProjectState) -> (r: MergedResult)
    ensures
        ({
            let sorted = spec_sort_presets(presets_view(presets@));
            let removed = strs_view(state.packages.removed@);
            let added = strs_view(state.packages.added@);
            let groups = spec_merge_groups(sorted, removed);
            let user = spec_merge_user(added, removed, groups.1);
            &&& groups_view(r.preset_packages@) == groups.0
            &&& strs_view(r.user_packages@) == user.0
            &&& strs_view(r.all_packages@) == user.1
            &&& kv_view(r.env.entries@) == spec_merged_env(sorted, kv_view(state.env.entries@))
            &&& r.env.wf()
            &&& strs_view(r.shell_hooks@) == spec_merged_hooks(
                sorted,
                opt_str_view(state.shell.hook),
            )
            &&& strs_view(r.let_blocks@) == spec_merged_blocks(
                sorted,
                nix_blocks_view(state.nix),
                0,
            )
            &&& strs_view(r.pin_blocks@) == spec_merged_blocks(
                sorted,
                nix_blocks_view(state.nix),
                1,
            )
            &&& strs_view(r.packages_raw_blocks@) == spec_merged_blocks(
                sorted,
                nix_blocks_view(state.nix),
                2,
            )
            &&& strs_view(r.scripts_blocks@) == spec_merged_blocks(
                sorted,
                nix_blocks_view(state.nix),
                3,
            )
            &&& strs_view(r.env_raw_blocks@) == spec_merged_blocks(
                sorted,
                nix_blocks_view(state.nix),
                4,
            )
            &&& strs_view(r.override_blocks@) == spec_merged_blocks(
                sorted,
                nix_blocks_view(state.nix),
                5,
            )
            &&& strs_view(r.override_merge_blocks@) == spec_merged_blocks(
                sorted,
                nix_blocks_view(state.nix),
                6,
            )
            &&& strs_view(r.override_shellhook_blocks@) == spec_merged_blocks(
                sorted,
                nix_blocks_view(state.nix),
                7,
            )
        }),
{
    let ordered = sort_presets(presets);
    let ghost sv = presets_view(ordered@);
    let ghost removedv = strs_view(state.packages.removed@);

    let mut seen = iset_new();
    let mut preset_packages: Vec<PresetPackageGroup> = Vec::new();
    let mut i: usize = 0;
    assert(groups_view(preset_packages@) =~= Seq::<GroupView>::empty());
    while i < ordered.len()
        invariant
            i <= ordered@.len(),
            sv == presets_view(ordered@),
            removedv == strs_view(state.packages.removed@),
            spec_groups_step(sv, 0, removedv, Seq::empty(), Seq::empty()) == spec_groups_step(
                sv,
                i as int,
                removedv,
                iset_elems(seen),
                groups_view(preset_packages@),
            ),
        decreases ordered@.len() - i,
    {
        assert(sv[i as int] == ordered@[i as int]@);
        let ghost seen0 = iset_elems(seen);
        let ghost pk = sv[i as int].packages_required;
        let mut group_packages: Vec<String> = Vec::new();
        let mut j: usize = 0;
        assert(strs_view(group_packages@) =~= Seq::<Seq<char>>::empty());
        while j < ordered[i].packages_required.len()
            invariant
                i < ordered@.len(),
                j <= ordered@[i as int].packages_required@.len(),
                sv == presets_view(ordered@),
                sv[i as int] == ordered@[i as int]@,
                pk == sv[i as int].packages_required,
                removedv == strs_view(state.packages.removed@),
                spec_group_step(pk, 0, removedv, seen0, Seq::empty()) == spec_group_step(
                    pk,
                    j as int,
                    removedv,
                    iset_elems(seen),
                    strs_view(group_packages@),
                ),
            decreases ordered@[i as int].packages_required@.len() - j,
        {
            assert(pk[j as int] == ordered@[i as int].packages_required@[j as int]@);
            let pkgc = str_to_chars(ordered[i].packages_required[j].as_str());
            if !crate::text::strs_contain(&state.packages.removed, &pkgc) {
                let ghost gprev = strs_view(group_packages@);
                let inserted = iset_insert(
                    &mut seen,
                    clone_string(&ordered[i].packages_required[j]),
                );
                if inserted {
                    group_packages.push(clone_string(&ordered[i].packages_required[j]));
                    assert(strs_view(group_packages@) =~= gprev.push(pk[j as int]));
                }
            }
            j = j + 1;
        }
        let ghost gprev = groups_view(preset_packages@);
        if group_packages.len() > 0 {
            let group = PresetPackageGroup {
                preset: clone_string(&ordered[i].name),
                packages: group_packages,
            };
            assert(group@.preset == sv[i as int].name);
            preset_packages.push(group);
            assert(groups_view(preset_packages@) =~= gprev.push(
                GroupView {
                    preset: sv[i as int].name,
                    packages: spec_group_step(pk, 0, removedv, seen0, Seq::empty()).0,
                },
            ));
        }
        i = i + 1;
    }

    let ghost seen_after_groups = iset_elems(seen);
    let ghost addedv = strs_view(state.packages.added@);
    let mut user_packages: Vec<String> = Vec::new();
    let mut j: usize = 0;
    assert(strs_view(user_packages@) =~= Seq::<Seq<char>>::empty());
    while j < state.packages.added.len()
        invariant
            j <= state.packages.added@.len(),
            addedv == strs_view(state.packages.added@),
            removedv == strs_view(state.packages.removed@),
            spec_user_step(addedv, 0, removedv, seen_after_groups, Seq::empty())
                == spec_user_step(
                addedv,
                j as int,
                removedv,
                iset_elems(seen),
                strs_view(user_packages@),
            ),
        decreases state.packages.added@.len() - j,
    {
        assert(addedv[j as int] == state.packages.added@[j as int]@);
        let pkgc = str_to_chars(state.packages.added[j].as_str());
        if !crate::text::strs_contain(&state.packages.removed, &pkgc) {
            let ghost uprev = strs_view(user_packages@);
            let inserted = iset_insert(&mut seen, clone_string(&state.packages.added[j]));
            if inserted {
                user_packages.push(clone_string(&state.packages.added[j]));
                assert(strs_view(user_packages@) =~= uprev.push(addedv[j as int]));
            }
        }
        j = j + 1;
    }

    let all_packages = iset_into_vec(seen);

    let mut env: StrMap<String> = StrMap::new();
    assert(kv_view(env.entries@) =~= Seq::<(Seq<char>, Seq<char>)>::empty());
    let mut i2: usize = 0;
    while i2 < ordered.len()
        invariant
            i2 <= ordered@.len(),
            sv == presets_view(ordered@),
            env.wf(),
            spec_env_fold_presets(sv, 0, Seq::empty()) == spec_env_fold_presets(
                sv,
                i2 as int,
                kv_view(env.entries@),
            ),
        decreases ordered@.len() - i2,
    {
        assert(sv[i2 as int] == ordered@[i2 as int]@);
        fold_env_entries(&mut env, &ordered[i2].env);
        i2 = i2 + 1;
    }
    fold_env_entries(&mut env, &state.env);

    let shell_hooks = collect_hooks(&ordered, &state.shell.hook);

    let let_blocks = collect_slot_blocks(&ordered, &state.nix, 0);
    let pin_blocks = collect_slot_blocks(&ordered, &state.nix, 1);
    let packages_raw_blocks = collect_slot_blocks(&ordered, &state.nix, 2);
    let scripts_blocks = collect_slot_blocks(&ordered, &state.nix, 3);
    let env_raw_blocks = collect_slot_blocks(&ordered, &state.nix, 4);
    let override_blocks = collect_slot_blocks(&ordered, &state.nix, 5);
    let override_merge_blocks = collect_slot_blocks(&ordered, &state.nix, 6);
    let override_shellhook_blocks = collect_slot_blocks(&ordered, &state.nix, 7);

    MergedResult {
        preset_packages,
        user_packages,
        env,
        shell_hooks,
        all_packages,
        let_blocks,
        pin_blocks,
        packages_raw_blocks,
        scripts_blocks,
        env_raw_blocks,
        override_blocks,
        override_merge_blocks,
        override_shellhook_blocks,
    }
}

/// The merge engine (profile shape): only the package part.
pub fn merge_profile_presets(presets: &Vec<Preset>, state: &GlobalProfileState) -> (r:
    MergedProfileResult)
    ensures
        ({
            let sorted = spec_sort_presets(presets_view(presets@));
            let removed = strs_view(state.packages.removed@);
            let added = strs_view(state.packages.added@);
            let groups = spec_merge_groups(sorted, removed);
            let user = spec_merge_user(added, removed, groups.1);
            &&& groups_view(r.preset_packages@) == groups.0
            &&& strs_view(r.user_packages@) == user.0
            &&& strs_view(r.all_packages@) == user.1
        }),
{
    let ordered = sort_presets(presets);
    let ghost sv = presets_view(ordered@);
    let ghost removedv = strs_view(state.packages.removed@);

    let mut seen = iset_new();
    let mut preset_packages: Vec<PresetPackageGroup> = Vec::new();
    let mut i: usize = 0;
    assert(groups_view(preset_packages@) =~= Seq::<GroupView>::empty());
    while i < ordered.len()
        invariant
            i <= ordered@.len(),
            sv == presets_view(ordered@),
            removedv == strs_view(state.packages.removed@),
            spec_groups_step(sv, 0, removedv, Seq::empty(), Seq::empty()) == spec_groups_step(
                sv,
                i as int,
                removedv,
                iset_elems(seen),
                groups_view(preset_packages@),
            ),
        decreases ordered@.len() - i,
    {
        assert(sv[i as int] == ordered@[i as int]@);
        let ghost seen0 = iset_elems(seen);
        let ghost pk = sv[i as int].packages_required;
        let mut group_packages: Vec<String> = Vec::new();
        let mut j: usize = 0;
        assert(strs_view(group_packages@) =~= Seq::<Seq<char>>::empty());
        while j < ordered[i].packages_required.len()
            invariant
                i < ordered@.len(),
                j <= ordered@[i as int].packages_required@.len(),
                sv == presets_view(ordered@),
                sv[i as int] == ordered@[i as int]@,
                pk == sv[i as int].packages_required,
                removedv == strs_view(state.packages.removed@),
                spec_group_step(pk, 0, removedv, seen0, Seq::empty()) == spec_group_step(
                    pk,
                    j as int,
                    removedv,
                    iset_elems(seen),
                    strs_view(group_packages@),
                ),
            decreases ordered@[i as int].packages_required@.len() - j,
        {
            assert(pk[j as int] == ordered@[i as int].packages_required@[j as int]@);
            let pkgc = str_to_chars(ordered[i].packages_required[j].as_str());
            if !crate::text::strs_contain(&state.packages.removed, &pkgc) {
                let ghost gprev = strs_view(group_packages@);
                let inserted = iset_insert(
                    &mut seen,
                    clone_string(&ordered[i].packages_required[j]),
                );
                if inserted {
                    group_packages.push(clone_string(&ordered[i].packages_required[j]));
                    assert(strs_view(group_packages@) =~= gprev.push(pk[j as int]));
                }
            }
            j = j + 1;
        }
        let ghost gprev = groups_view(preset_packages@);
        if group_packages.len() > 0 {
            let group = PresetPackageGroup {
                preset: clone_string(&ordered[i].name),
                packages: group_packages,
            };
            preset_packages.push(group);
            assert(groups_view(preset_packages@) =~= gprev.push(
                GroupView {
                    preset: sv[i as int].name,
                    packages: spec_group_step(pk, 0, removedv, seen0, Seq::empty()).0,
                },
            ));
        }
        i = i + 1;
    }

    let ghost seen_after_groups = iset_elems(seen);
    let ghost addedv = strs_view(state.packages.added@);
    let mut user_packages: Vec<String> = Vec::new();
    let mut j: usize = 0;
    assert(strs_view(user_packages@) =~= Seq::<Seq<char>>::empty());
    while j < state.packages.added.len()
        invariant
            j <= state.packages.added@.len(),
            addedv == strs_view(state.packages.added@),
            removedv == strs_view(state.packages.removed@),
            spec_user_step(addedv, 0, removedv, seen_after_groups, Seq::empty())
                == spec_user_step(
                addedv,
                j as int,
                removedv,
                iset_elems(seen),
                strs_view(user_packages@),
            ),
        decreases state.packages.added@.len() - j,
    {
        assert(addedv[j as int] == state.packages.added@[j as int]@);
        let pkgc = str_to_chars(state.packages.added[j].as_str());
        if !crate::text::strs_contain(&state.packages.removed, &pkgc) {
            let ghost uprev = strs_view(user_packages@);
            let inserted = iset_insert(&mut seen, clone_string(&state.packages.added[j]));
            if inserted {
                user_packages.push(clone_string(&state.packages.added[j]));
                assert(strs_view(user_packages@) =~= uprev.push(addedv[j as int]));
            }
        }
        j = j + 1;
    }

    let all_packages = iset_into_vec(seen);

    MergedProfileResult { preset_packages, user_packages, all_packages }
}

/// The first catalog preset with this name.
pub open spec fn spec_find_preset(ps: Seq<PresetView>, name: Seq<char>, j: int) -> Option<
    PresetView,
>
    decreases ps.len() - j,
{
    if j < 0 || j >= ps.len() {
        None
    } else if ps[j].name == name {
        Some(ps[j])
    } else {
        spec_find_preset(ps, name, j + 1)
    }
}

/// The index of the first catalog preset with this name.
pub fn find_preset_in(presets: &Vec<Preset>, name: &Vec<char>) -> (r: Option<usize>)
    ensures
        spec_find_preset(presets_view(presets@), name@, 0) == match r {
            Some(j) => Some(presets_view(presets@)[j as int]),
            None => None::<PresetView>,
        },
        r matches Some(j) ==> j < presets@.len(),
{
    let ghost pv = presets_view(presets@);
    let mut j: usize = 0;
    while j < presets.len()
        invariant
            j <= presets@.len(),
            pv == presets_view(presets@),
            spec_find_preset(pv, name@, 0) == spec_find_preset(pv, name@, j as int),
        decreases presets@.len() - j,
    {
        assert(pv[j as int] == presets@[j as int]@);
        let pn = str_to_chars(presets[j].name.as_str());
        if crate::text::chars_eq(pn.as_slice(), name.as_slice()) {
            assert(pv[j as int].name == name@);
            return Some(j);
        }
        j = j + 1;
    }
    None
}

/// Selects the active presets by name, in activation order. An active
/// name not found in the catalog is the merge stage's one error.
pub fn select_active_presets(presets: &Vec<Preset>, active: &Vec<String>) -> (r: Result<
    Vec<Preset>,
    String,
>)
    ensures
        match r {
            Ok(sel) => {
                &&& sel@.len() == active@.len()
                &&& forall|i: int|
                    0 <= i < active@.len() ==> spec_find_preset(
                        presets_view(presets@),
                        strs_view(active@)[i],
                        0,
                    ) == Some(#[trigger] presets_view(sel@)[i])
            },
            Err(name) => {
                &&& strs_view(active@).contains(name@)
                &&& spec_find_preset(presets_view(presets@), name@, 0) is None
            },
        },
{
    let ghost pv = presets_view(presets@);
    let mut sel: Vec<Preset> = Vec::new();
    let mut i: usize = 0;
    while i < active.len()
        invariant
            i <= active@.len(),
            sel@.len() == i,
            pv == presets_view(presets@),
            forall|k: int|
                0 <= k < i ==> spec_find_preset(pv, strs_view(active@)[k], 0) == Some(
                    #[trigger] presets_view(sel@)[k],
                ),
        decreases active@.len() - i,
    {
        let ghost selprev = presets_view(sel@);
        let name = str_to_chars(active[i].as_str());
        assert(strs_view(active@)[i as int] == name@);
        let j = match find_preset_in(presets, &name) {
            Some(j) => j,
            None => {
                return Err(clone_string(&active[i]));
            },
        };
        let p = clone_preset(&presets[j]);
        assert(p@ == pv[j as int]);
        sel.push(p);
        assert(presets_view(sel@) =~= selprev.push(pv[j as int]));
        i = i + 1;
        assert forall|k: int|
            0 <= k < i implies spec_find_preset(pv, strs_view(active@)[k], 0) == Some(
            #[trigger] presets_view(sel@)[k],
        ) by {
            if k < i - 1 {
                assert(presets_view(sel@)[k] == selprev[k]);
            } else {
                assert(presets_view(sel@)[k] == pv[j as int]);
            }
        }
    }
    Ok(sel)
}

} // verus!
