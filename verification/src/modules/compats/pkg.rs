//! Packages, whatever format they come in: the canonical package record and
//! its dependency relations.
//!
//! Every relation is a list of groups. For required and recommended packages
//! a group is a choice: the relation holds when every group has at least one
//! alternative that is met. For conflicts each group holds one entry, and
//! every entry is ruled out by itself.

use crate::version::{Version, VersionRange};
use vstd::prelude::*;

pub mod ipak;

verus! {

/// The package formats that are known.
pub enum PackageType {
    Dpkg,
    Flatpak,
    Snap,
    Ipak,
}

/// The canonical record of a package.
pub struct PackageInfo {
    /// Who made the package.
    pub author: AuthorInfo,
    /// The name of the package.
    pub name: String,
    /// The version of the package.
    pub version: Version,
    /// What the package is.
    pub description: PackageDescriptions,
    /// How the package relates to others.
    pub relation: PackagesRelations,
}

/// Who made a package.
pub struct AuthorInfo {
    pub name: String,
    pub email: String,
}

/// What a package is, in short and at length.
pub struct PackageDescriptions {
    pub summary: String,
    pub detail: String,
}

/// How a package relates to others.
pub struct PackagesRelations {
    /// What the package needs: every group must be met by one of its
    /// alternatives.
    pub depend_required: Vec<Vec<PackageRange>>,
    /// What is recommended, followed by what is suggested.
    pub recommend_suggested: Vec<Vec<PackageRange>>,
    /// What the package cannot live with: one entry in each group.
    pub break_conflicts: Vec<Vec<PackageRange>>,
    /// The virtual packages that the package provides.
    pub provided_virtuals: Vec<PackageVersion>,
}

/// A package name with a range of versions.
pub struct PackageRange {
    pub range: VersionRange,
    pub name: String,
}

/// A package name with one version.
pub struct PackageVersion {
    pub version: Version,
    pub name: String,
}

/// What an `AuthorInfo` holds.
pub struct AuthorInfoView {
    pub name: Seq<char>,
    pub email: Seq<char>,
}

/// What a `PackageDescriptions` holds.
pub struct PackageDescriptionsView {
    pub summary: Seq<char>,
    pub detail: Seq<char>,
}

/// What a `PackageRange` holds.
pub struct PackageRangeView {
    pub range: Seq<char>,
    pub name: Seq<char>,
}

/// What a `PackageVersion` holds.
pub struct PackageVersionView {
    pub version: Seq<char>,
    pub name: Seq<char>,
}

/// What a `PackagesRelations` holds.
pub struct PackagesRelationsView {
    pub depend_required: Seq<Seq<PackageRangeView>>,
    pub recommend_suggested: Seq<Seq<PackageRangeView>>,
    pub break_conflicts: Seq<Seq<PackageRangeView>>,
    pub provided_virtuals: Seq<PackageVersionView>,
}

/// What a `PackageInfo` holds.
pub struct PackageInfoView {
    pub author: AuthorInfoView,
    pub name: Seq<char>,
    pub version: Seq<char>,
    pub description: PackageDescriptionsView,
    pub relation: PackagesRelationsView,
}

/// What a group of alternatives holds.
pub open spec fn group_view(group: Seq<PackageRange>) -> Seq<PackageRangeView> {
    Seq::new(group.len(), |i: int| group[i]@)
}

/// What a list of groups holds.
pub open spec fn groups_view(groups: Seq<Vec<PackageRange>>) -> Seq<Seq<PackageRangeView>> {
    Seq::new(groups.len(), |i: int| group_view(groups[i]@))
}

/// What a list of virtual packages holds.
pub open spec fn virtuals_view(virtuals: Seq<PackageVersion>) -> Seq<PackageVersionView> {
    Seq::new(virtuals.len(), |i: int| virtuals[i]@)
}

/// Whether the package `have` meets the alternative `alt`: the names are
/// the same, and the range admits the version. `admits` is the relation
/// between the text of a range and the text of a version that it admits.
pub open spec fn alternative_met(
    alt: PackageRangeView,
    have: PackageVersionView,
    admits: spec_fn(Seq<char>, Seq<char>) -> bool,
) -> bool {
    alt.name == have.name && admits(alt.range, have.version)
}

/// Whether one of the packages `at_hand` meets one alternative of `group`.
pub open spec fn group_met(
    group: Seq<PackageRangeView>,
    at_hand: Seq<PackageVersionView>,
    admits: spec_fn(Seq<char>, Seq<char>) -> bool,
) -> bool {
    exists|i: int, j: int|
        0 <= i < group.len() && 0 <= j < at_hand.len() && alternative_met(
            #[trigger] group[i],
            #[trigger] at_hand[j],
            admits,
        )
}

/// Whether a requirement holds: every group is met.
pub open spec fn groups_met(
    groups: Seq<Seq<PackageRangeView>>,
    at_hand: Seq<PackageVersionView>,
    admits: spec_fn(Seq<char>, Seq<char>) -> bool,
) -> bool {
    forall|g: int| 0 <= g < groups.len() ==> group_met(#[trigger] groups[g], at_hand, admits)
}

/// Whether no conflict is at hand: no entry of any group is met. The
/// entries of a group of conflicts are no alternatives.
pub open spec fn conflicts_absent(
    groups: Seq<Seq<PackageRangeView>>,
    at_hand: Seq<PackageVersionView>,
    admits: spec_fn(Seq<char>, Seq<char>) -> bool,
) -> bool {
    forall|g: int| 0 <= g < groups.len() ==> !group_met(#[trigger] groups[g], at_hand, admits)
}

impl View for AuthorInfo {
    type V = AuthorInfoView;

    open spec fn view(&self) -> AuthorInfoView {
        AuthorInfoView { name: self.name@, email: self.email@ }
    }
}

impl View for PackageDescriptions {
    type V = PackageDescriptionsView;

    open spec fn view(&self) -> PackageDescriptionsView {
        PackageDescriptionsView { summary: self.summary@, detail: self.detail@ }
    }
}

impl View for PackageRange {
    type V = PackageRangeView;

    open spec fn view(&self) -> PackageRangeView {
        PackageRangeView { range: self.range@, name: self.name@ }
    }
}

impl View for PackageVersion {
    type V = PackageVersionView;

    open spec fn view(&self) -> PackageVersionView {
        PackageVersionView { version: self.version@, name: self.name@ }
    }
}

impl View for PackagesRelations {
    type V = PackagesRelationsView;

    open spec fn view(&self) -> PackagesRelationsView {
        PackagesRelationsView {
            depend_required: groups_view(self.depend_required@),
            recommend_suggested: groups_view(self.recommend_suggested@),
            break_conflicts: groups_view(self.break_conflicts@),
            provided_virtuals: virtuals_view(self.provided_virtuals@),
        }
    }
}

impl View for PackageInfo {
    type V = PackageInfoView;

    open spec fn view(&self) -> PackageInfoView {
        PackageInfoView {
            author: self.author@,
            name: self.name@,
            version: self.version@,
            description: self.description@,
            relation: self.relation@,
        }
    }
}

} // verus!
