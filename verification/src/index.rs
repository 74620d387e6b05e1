//! Package-index values: the row shapes the search layer hands around
//! and the pure pieces of query handling. The store itself and its
//! queries live with the caller.

use vstd::prelude::*;

use crate::text::{chars_eq, str_to_chars};

verus! {

/// One package row as search results carry it.
#[derive(Debug, Clone, PartialEq, Eq)]
pub struct PackageInfo {
    pub attr_path: String,
    pub name: String,
    pub version: Option<String>,
    pub description: Option<String>,
    pub homepage: Option<String>,
    pub license: Option<String>,
    pub platforms: Option<String>,
    pub main_program: Option<String>,
    pub position: Option<String>,
    pub broken: bool,
    pub insecure: bool,
}

/// Which field a search matches against.
#[derive(Debug, Clone, Copy, PartialEq, Eq, Structural)]
pub enum SearchMode {
    Name,
    Description,
    Binary,
    All,
}

/// Maps the configured search mode onto the index's own mode.
pub fn to_index_search_mode(mode: &crate::config::SearchMode) -> (r: SearchMode)
    ensures
        mode is Name <==> r is Name,
        mode is Description <==> r is Description,
        mode is Binary <==> r is Binary,
        mode is All <==> r is All,
{
    match mode {
        crate::config::SearchMode::Name => SearchMode::Name,
        crate::config::SearchMode::Description => SearchMode::Description,
        crate::config::SearchMode::Binary => SearchMode::Binary,
        crate::config::SearchMode::All => SearchMode::All,
    }
}

/// One recorded version of a package.
#[derive(Debug, Clone, PartialEq, Eq)]
pub struct PackageVersion {
    pub source: String,
    pub version: String,
    pub commit: String,
    pub commit_date: String,
    pub branch: String,
    pub url: String,
}

/// One indexed snapshot source.
#[derive(Debug, Clone, PartialEq, Eq)]
pub struct VersionSource {
    pub source: String,
    pub url: String,
    pub branch: String,
    pub commit: String,
    pub commit_date: String,
    pub indexed_at: String,
}

/// The attribute paths of search results.
pub open spec fn attrs_view(s: Seq<PackageInfo>) -> Seq<Seq<char>> {
    Seq::new(s.len(), |i: int| s[i].attr_path@)
}

/// Appending extras deduplicated by attribute path, up to the limit.
pub open spec fn spec_append_unique(
    target: Seq<PackageInfo>,
    extras: Seq<PackageInfo>,
    limit: int,
) -> Seq<PackageInfo>
    decreases extras.len(),
{
    if extras.len() == 0 || target.len() >= limit {
        target
    } else if attrs_view(target).contains(extras[0].attr_path@) {
        spec_append_unique(target, extras.drop_first(), limit)
    } else {
        spec_append_unique(target.push(extras[0]), extras.drop_first(), limit)
    }
}

fn attrs_contain(target: &Vec<PackageInfo>, attr: &Vec<char>) -> (r: bool)
    ensures
        r == attrs_view(target@).contains(attr@),
{
    let ghost av = attrs_view(target@);
    let mut i: usize = 0;
    while i < target.len()
        invariant
            i <= target@.len(),
            av == attrs_view(target@),
            forall|j: int| 0 <= j < i ==> (#[trigger] av[j]) != attr@,
        decreases target@.len() - i,
    {
        assert(av[i as int] == target@[i as int].attr_path@);
        let ac = str_to_chars(target[i].attr_path.as_str());
        if chars_eq(ac.as_slice(), attr.as_slice()) {
            return true;
        }
        i = i + 1;
    }
    assert(!av.contains(attr@)) by {
        if av.contains(attr@) {
            let j = choose|j: int| 0 <= j < av.len() && av[j] == attr@;
            assert(av[j] != attr@);
        }
    }
    false
}

/// Merges secondary results into the list, skipping attribute paths that
/// are already present, never growing past the limit.
pub fn append_unique_by_attr(target: &mut Vec<PackageInfo>, extras: Vec<PackageInfo>, limit: usize)
    ensures
        final(target)@ == spec_append_unique(old(target)@, extras@, limit as int),
{
    let mut rest = extras;
    loop
        invariant
            spec_append_unique(target@, rest@, limit as int) == spec_append_unique(
                old(target)@,
                extras@,
                limit as int,
            ),
        decreases rest@.len(),
    {
        if rest.len() == 0 {
            assert(spec_append_unique(target@, rest@, limit as int) == target@);
            return ;
        }
        if target.len() >= limit {
            assert(spec_append_unique(target@, rest@, limit as int) == target@);
            return ;
        }
        let ghost restv = rest@;
        let item = rest.remove(0);
        assert(rest@ =~= restv.drop_first());
        assert(item == restv[0]);
        let ac = str_to_chars(item.attr_path.as_str());
        if !attrs_contain(target, &ac) {
            target.push(item);
        }
    }
}

} // verus!
