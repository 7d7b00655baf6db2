//! The package metadata record of the `ipak` format, and its mapping onto
//! the canonical package record.

use crate::modules::compats::pkg::{
    AuthorInfo, AuthorInfoView, PackageDescriptions, PackageDescriptionsView, PackageInfo,
    PackageInfoView, PackageRangeView, PackageVersionView, PackagesRelations,
    PackagesRelationsView, alternative_met, conflicts_absent, group_met, group_view, groups_view,
    virtuals_view,
};
use crate::version::{Version, VersionRange};
use vstd::prelude::*;
use vstd::std_specs::convert::FromSpecImpl;

verus! {

/// A package metadata record: what it is about, and how it relates to
/// other packages.
#[derive(Debug, Default)]
pub struct PackageData {
    pub about: AboutData,
    pub relation: RelationData,
}

/// The author and the package that a record is about.
#[derive(Debug, Default)]
pub struct AboutData {
    pub author: AuthorAboutData,
    pub package: PackageAboutData,
}

/// The author of a package.
#[derive(Debug, Default)]
pub struct AuthorAboutData {
    pub name: String,
    pub email: String,
}

/// Name, version and description of a package.
#[derive(Debug, Default)]
pub struct PackageAboutData {
    pub name: String,
    pub version: Version,
    pub description: String,
}

/// The relations of a package: `depend`, `recommends` and `suggests` are
/// lists of groups of alternatives, `conflicts` and `virtuals` are flat.
#[derive(Debug, Default)]
pub struct RelationData {
    pub depend: Vec<Vec<PackageRange>>,
    pub recommends: Vec<Vec<PackageRange>>,
    pub suggests: Vec<Vec<PackageRange>>,
    pub conflicts: Vec<PackageRange>,
    pub virtuals: Vec<PackageVersion>,
}

/// A package name with a range of versions.
#[derive(Debug, Default)]
pub struct PackageRange {
    pub name: String,
    pub range: VersionRange,
}

/// A package name with one version.
#[derive(Debug, Default)]
pub struct PackageVersion {
    pub name: String,
    pub version: Version,
}

/// The canonical form of one name with its range.
pub open spec fn adapted_range(r: PackageRange) -> PackageRangeView {
    PackageRangeView { range: r.range@, name: r.name@ }
}

/// The canonical form of one name with its version.
pub open spec fn adapted_version(v: PackageVersion) -> PackageVersionView {
    PackageVersionView { version: v.version@, name: v.name@ }
}

/// The canonical form of a group: each alternative, in place.
pub open spec fn adapted_group(group: Seq<PackageRange>) -> Seq<PackageRangeView> {
    Seq::new(group.len(), |i: int| adapted_range(group[i]))
}

/// The canonical form of a list of groups: each group, in place.
pub open spec fn adapted_groups(groups: Seq<Vec<PackageRange>>) -> Seq<Seq<PackageRangeView>> {
    Seq::new(groups.len(), |i: int| adapted_group(groups[i]@))
}

/// The canonical form of a flat list of conflicts: each entry alone in a
/// group of its own, in place.
pub open spec fn singleton_groups(entries: Seq<PackageRange>) -> Seq<Seq<PackageRangeView>> {
    Seq::new(entries.len(), |i: int| seq![adapted_range(entries[i])])
}

/// The canonical form of a list of virtual packages: each entry, in place.
pub open spec fn adapted_virtuals(virtuals: Seq<PackageVersion>) -> Seq<PackageVersionView> {
    Seq::new(virtuals.len(), |i: int| adapted_version(virtuals[i]))
}

/// The canonical relations of a record: recommended groups come first,
/// suggested groups after them, and the two are told apart no more.
pub open spec fn adapted_relations(rel: RelationData) -> PackagesRelationsView {
    PackagesRelationsView {
        depend_required: adapted_groups(rel.depend@),
        recommend_suggested: adapted_groups(rel.recommends@) + adapted_groups(rel.suggests@),
        break_conflicts: singleton_groups(rel.conflicts@),
        provided_virtuals: adapted_virtuals(rel.virtuals@),
    }
}

/// The canonical author.
pub open spec fn adapted_author(author: AuthorAboutData) -> AuthorInfoView {
    AuthorInfoView { name: author.name@, email: author.email@ }
}

/// The canonical descriptions: the summary is the name of the package.
pub open spec fn adapted_descriptions(package: PackageAboutData) -> PackageDescriptionsView {
    PackageDescriptionsView { summary: package.name@, detail: package.description@ }
}

/// The canonical record of a package.
pub open spec fn adapted(data: PackageData) -> PackageInfoView {
    PackageInfoView {
        author: adapted_author(data.about.author),
        name: data.about.package.name@,
        version: data.about.package.version@,
        description: adapted_descriptions(data.about.package),
        relation: adapted_relations(data.relation),
    }
}

impl From<PackageRange> for crate::modules::compats::pkg::PackageRange {
    fn from(r: PackageRange) -> (out: Self)
        ensures
            out@ == adapted_range(r),
    {
        crate::modules::compats::pkg::PackageRange { name: r.name, range: r.range }
    }
}

impl FromSpecImpl<PackageRange> for crate::modules::compats::pkg::PackageRange {
    open spec fn obeys_from_spec() -> bool {
        true
    }

    open spec fn from_spec(r: PackageRange) -> Self {
        crate::modules::compats::pkg::PackageRange { name: r.name, range: r.range }
    }
}

impl From<PackageVersion> for crate::modules::compats::pkg::PackageVersion {
    fn from(v: PackageVersion) -> (out: Self)
        ensures
            out@ == adapted_version(v),
    {
        crate::modules::compats::pkg::PackageVersion { name: v.name, version: v.version }
    }
}

impl FromSpecImpl<PackageVersion> for crate::modules::compats::pkg::PackageVersion {
    open spec fn obeys_from_spec() -> bool {
        true
    }

    open spec fn from_spec(v: PackageVersion) -> Self {
        crate::modules::compats::pkg::PackageVersion { name: v.name, version: v.version }
    }
}

impl From<AuthorAboutData> for AuthorInfo {
    fn from(author: AuthorAboutData) -> (out: Self)
        ensures
            out@ == adapted_author(author),
    {
        AuthorInfo { name: author.name, email: author.email }
    }
}

impl FromSpecImpl<AuthorAboutData> for AuthorInfo {
    open spec fn obeys_from_spec() -> bool {
        true
    }

    open spec fn from_spec(author: AuthorAboutData) -> Self {
        AuthorInfo { name: author.name, email: author.email }
    }
}

impl From<PackageAboutData> for PackageDescriptions {
    fn from(package: PackageAboutData) -> (out: Self)
        ensures
            out@ == adapted_descriptions(package),
    {
        PackageDescriptions { summary: package.name, detail: package.description }
    }
}

impl FromSpecImpl<PackageAboutData> for PackageDescriptions {
    open spec fn obeys_from_spec() -> bool {
        true
    }

    open spec fn from_spec(package: PackageAboutData) -> Self {
        PackageDescriptions { summary: package.name, detail: package.description }
    }
}

/// The canonical form of a group of alternatives.
pub fn adapt_group(group: Vec<PackageRange>) -> (out: Vec<
    crate::modules::compats::pkg::PackageRange,
>)
    ensures
        group_view(out@) == adapted_group(group@),
{
    let ghost all = group@;
    let mut out: Vec<crate::modules::compats::pkg::PackageRange> = Vec::new();
    for r in it: group
        invariant
            it.seq() == all,
            out.len() == it.index(),
            forall|j: int| 0 <= j < out.len() ==> (#[trigger] out@[j])@ == adapted_range(all[j]),
    {
        out.push(crate::modules::compats::pkg::PackageRange::from(r));
    }
    assert(group_view(out@) =~= adapted_group(all));
    out
}

/// The canonical form of a list of groups.
pub fn adapt_groups(groups: Vec<Vec<PackageRange>>) -> (out: Vec<
    Vec<crate::modules::compats::pkg::PackageRange>,
>)
    ensures
        groups_view(out@) == adapted_groups(groups@),
{
    let ghost all = groups@;
    let mut out: Vec<Vec<crate::modules::compats::pkg::PackageRange>> = Vec::new();
    for group in it: groups
        invariant
            it.seq() == all,
            out.len() == it.index(),
            forall|j: int|
                0 <= j < out.len() ==> group_view((#[trigger] out@[j])@) == adapted_group(all[j]@),
    {
        out.push(adapt_group(group));
    }
    assert(groups_view(out@) =~= adapted_groups(all));
    out
}

/// The canonical form of a flat list of conflicts.
pub fn adapt_conflicts(entries: Vec<PackageRange>) -> (out: Vec<
    Vec<crate::modules::compats::pkg::PackageRange>,
>)
    ensures
        groups_view(out@) == singleton_groups(entries@),
{
    let ghost all = entries@;
    let mut out: Vec<Vec<crate::modules::compats::pkg::PackageRange>> = Vec::new();
    for r in it: entries
        invariant
            it.seq() == all,
            out.len() == it.index(),
            forall|j: int|
                0 <= j < out.len() ==> group_view((#[trigger] out@[j])@) == seq![
                    adapted_range(all[j]),
                ],
    {
        let mut group: Vec<crate::modules::compats::pkg::PackageRange> = Vec::new();
        group.push(crate::modules::compats::pkg::PackageRange::from(r));
        assert(group_view(group@) =~= seq![adapted_range(r)]);
        out.push(group);
    }
    assert(groups_view(out@) =~= singleton_groups(all));
    out
}

/// The canonical form of a list of virtual packages.
pub fn adapt_virtuals(virtuals: Vec<PackageVersion>) -> (out: Vec<
    crate::modules::compats::pkg::PackageVersion,
>)
    ensures
        virtuals_view(out@) == adapted_virtuals(virtuals@),
{
    let ghost all = virtuals@;
    let mut out: Vec<crate::modules::compats::pkg::PackageVersion> = Vec::new();
    for v in it: virtuals
        invariant
            it.seq() == all,
            out.len() == it.index(),
            forall|j: int| 0 <= j < out.len() ==> (#[trigger] out@[j])@ == adapted_version(all[j]),
    {
        out.push(crate::modules::compats::pkg::PackageVersion::from(v));
    }
    assert(virtuals_view(out@) =~= adapted_virtuals(all));
    out
}

/// In the canonical relations the recommended groups come first, each
/// in its place and whole, and the suggested groups follow them, each in its
/// place and whole: nothing is reordered, merged or dropped.
pub proof fn lemma_recommends_before_suggests(rel: RelationData)
    ensures
        adapted_relations(rel).recommend_suggested.len() == rel.recommends@.len()
            + rel.suggests@.len(),
        forall|i: int|
            0 <= i < rel.recommends@.len() ==> #[trigger] adapted_relations(
                rel,
            ).recommend_suggested[i] == adapted_group(rel.recommends@[i]@),
        forall|i: int|
            0 <= i < rel.suggests@.len() ==> #[trigger] adapted_relations(
                rel,
            ).recommend_suggested[rel.recommends@.len() + i] == adapted_group(rel.suggests@[i]@),
{
}

/// In the canonical relations every group of conflicts holds one entry,
/// and the groups are the entries of the record in their order.
pub proof fn lemma_conflicts_stand_alone(rel: RelationData)
    ensures
        adapted_relations(rel).break_conflicts.len() == rel.conflicts@.len(),
        forall|i: int|
            0 <= i < rel.conflicts@.len() ==> {
                &&& (#[trigger] adapted_relations(rel).break_conflicts[i]).len() == 1
                &&& adapted_relations(rel).break_conflicts[i][0] == adapted_range(rel.conflicts@[i])
            },
{
}

/// No conflict of a record is at hand exactly when none of its entries is
/// met by a package at hand.
pub proof fn lemma_conflicts_absent(
    entries: Seq<PackageRange>,
    at_hand: Seq<PackageVersionView>,
    admits: spec_fn(Seq<char>, Seq<char>) -> bool,
)
    ensures
        conflicts_absent(singleton_groups(entries), at_hand, admits) <==> forall|e: int, j: int|
            0 <= e < entries.len() && 0 <= j < at_hand.len() ==> !alternative_met(
                adapted_range(#[trigger] entries[e]),
                #[trigger] at_hand[j],
                admits,
            ),
{
    let groups = singleton_groups(entries);
    if conflicts_absent(groups, at_hand, admits) {
        assert forall|e: int, j: int|
            0 <= e < entries.len() && 0 <= j < at_hand.len() implies !alternative_met(
            adapted_range(#[trigger] entries[e]),
            #[trigger] at_hand[j],
            admits,
        ) by {
            assert(!group_met(groups[e], at_hand, admits));
            assert(groups[e][0] == adapted_range(entries[e]));
        }
    } else {
        let g = choose|g: int|
            0 <= g < groups.len() && group_met(#[trigger] groups[g], at_hand, admits);
        let (i, j) = choose|i: int, j: int|
            0 <= i < groups[g].len() && 0 <= j < at_hand.len() && alternative_met(
                #[trigger] groups[g][i],
                #[trigger] at_hand[j],
                admits,
            );
        assert(groups[g][i] == adapted_range(entries[g]));
        assert(alternative_met(adapted_range(entries[g]), at_hand[j], admits));
    }
}

/// Groups and alternatives keep their number and their order.
pub proof fn lemma_groups_keep_order(groups: Seq<Vec<PackageRange>>)
    ensures
        adapted_groups(groups).len() == groups.len(),
        forall|i: int|
            0 <= i < groups.len() ==> (#[trigger] adapted_groups(groups)[i]).len()
                == groups[i]@.len(),
        forall|i: int, j: int|
            0 <= i < groups.len() && 0 <= j < groups[i]@.len() ==> #[trigger] adapted_groups(
                groups,
            )[i][j] == adapted_range(groups[i]@[j]),
{
}

impl From<RelationData> for PackagesRelations {
    /// Maps the relations of a record onto the canonical ones: groups and
    /// alternatives keep their order, the suggested groups follow the
    /// recommended ones, and each conflict becomes a group of its own.
    fn from(rel: RelationData) -> (out: Self)
        ensures
            out@ == adapted_relations(rel),
    {
        let mut recommend_suggested = adapt_groups(rel.recommends);
        let mut suggests = adapt_groups(rel.suggests);
        let ghost first = recommend_suggested@;
        let ghost second = suggests@;
        recommend_suggested.append(&mut suggests);
        assert(groups_view(recommend_suggested@) =~= groups_view(first) + groups_view(second));
        PackagesRelations {
            depend_required: adapt_groups(rel.depend),
            recommend_suggested,
            break_conflicts: adapt_conflicts(rel.conflicts),
            provided_virtuals: adapt_virtuals(rel.virtuals),
        }
    }
}

impl FromSpecImpl<RelationData> for PackagesRelations {
    /// The result is stated over what it holds, in the contract of `from`.
    open spec fn obeys_from_spec() -> bool {
        false
    }

    open spec fn from_spec(rel: RelationData) -> Self {
        arbitrary()
    }
}

impl From<PackageData> for PackageInfo {
    /// Maps a record onto the canonical one. The name of the package is
    /// both the name and the summary of the result.
    fn from(data: PackageData) -> (out: Self)
        ensures
            out@ == adapted(data),
    {
        PackageInfo {
            author: AuthorInfo::from(data.about.author),
            name: data.about.package.name.clone(),
            version: data.about.package.version,
            description: PackageDescriptions {
                summary: data.about.package.name,
                detail: data.about.package.description,
            },
            relation: PackagesRelations::from(data.relation),
        }
    }
}

impl FromSpecImpl<PackageData> for PackageInfo {
    /// The result is stated over what it holds, in the contract of `from`.
    open spec fn obeys_from_spec() -> bool {
        false
    }

    open spec fn from_spec(data: PackageData) -> Self {
        arbitrary()
    }
}

} // verus!
