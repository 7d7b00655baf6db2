use infinite_package_manager::modules::compats::pkg::ipak::{
    AboutData as IpakAboutData, AuthorAboutData as IpakAuthorAboutData,
    PackageAboutData as IpakPackageAboutData, PackageData as IpakPackageData,
    PackageRange as IpakPackageRange, PackageVersion as IpakPackageVersion,
    RelationData as IpakRelationData,
};
use infinite_package_manager::modules::compats::pkg::ipak::{
    adapt_conflicts, adapt_group, adapt_groups, adapt_virtuals,
};
use infinite_package_manager::modules::compats::pkg::{
    AuthorInfo, PackageDescriptions, PackageInfo, PackageRange, PackageVersion, PackagesRelations,
};
use infinite_package_manager::version::{Version, VersionRange};
use std::str::FromStr;

fn range(name: &str, text: &str) -> IpakPackageRange {
    IpakPackageRange { name: name.to_string(), range: VersionRange::from_str(text).unwrap() }
}

fn names(groups: &Vec<Vec<PackageRange>>) -> Vec<Vec<String>> {
    groups.iter().map(|g| g.iter().map(|r| r.name.clone()).collect()).collect()
}

#[test]
fn test_package_data_to_package_info_conversion() {
    let ipak_data = IpakPackageData {
        about: IpakAboutData {
            author: IpakAuthorAboutData {
                name: "Test Author".to_string(),
                email: "test@example.com".to_string(),
            },
            package: IpakPackageAboutData {
                name: "test-package".to_string(),
                version: Version::from_str("1.2.3").unwrap(),
                description: "This is a test package.".to_string(),
            },
        },
        relation: IpakRelationData {
            depend: vec![vec![IpakPackageRange {
                name: "dep-a".to_string(),
                range: VersionRange::from_str(">= 1.0").unwrap(),
            }]],
            recommends: vec![vec![IpakPackageRange {
                name: "rec-b".to_string(),
                range: VersionRange::from_str("= 2.0").unwrap(),
            }]],
            suggests: vec![vec![IpakPackageRange {
                name: "sugg-c".to_string(),
                range: VersionRange::from_str("< 3.0").unwrap(),
            }]],
            conflicts: vec![IpakPackageRange {
                name: "conf-d".to_string(),
                range: VersionRange::from_str("0.5").unwrap(),
            }],
            virtuals: vec![IpakPackageVersion {
                name: "virtual-pkg".to_string(),
                version: Version::from_str("1.0.0").unwrap(),
            }],
            ..Default::default()
        },
        ..Default::default()
    };

    let pkg_info: PackageInfo = ipak_data.into();

    assert_eq!(pkg_info.name, "test-package");
    assert_eq!(pkg_info.version, Version::from_str("1.2.3").unwrap());
    assert_eq!(pkg_info.author.name, "Test Author");
    assert_eq!(pkg_info.author.email, "test@example.com");
    assert_eq!(pkg_info.description.summary, "test-package");
    assert_eq!(pkg_info.description.detail, "This is a test package.");

    assert_eq!(pkg_info.relation.depend_required.len(), 1);
    assert_eq!(pkg_info.relation.depend_required[0][0].name, "dep-a");
    assert_eq!(
        pkg_info.relation.depend_required[0][0].range.to_string(),
        ">= 1.0"
    );

    assert_eq!(pkg_info.relation.recommend_suggested.len(), 2);
    assert_eq!(pkg_info.relation.recommend_suggested[0][0].name, "rec-b");
    assert_eq!(pkg_info.relation.recommend_suggested[1][0].name, "sugg-c");

    assert_eq!(pkg_info.relation.break_conflicts.len(), 1);
    assert_eq!(pkg_info.relation.break_conflicts[0][0].name, "conf-d");

    assert_eq!(pkg_info.relation.provided_virtuals.len(), 1);
    assert_eq!(pkg_info.relation.provided_virtuals[0].name, "virtual-pkg");
}

#[test]
fn test_empty_relation_conversion() {
    let ipak_data = IpakPackageData::default();
    let pkg_info: PackageInfo = ipak_data.into();

    assert!(pkg_info.relation.depend_required.is_empty());
    assert!(pkg_info.relation.recommend_suggested.is_empty());
    assert!(pkg_info.relation.break_conflicts.is_empty());
    assert!(pkg_info.relation.provided_virtuals.is_empty());
}

#[test]
fn recommends_come_before_suggests_and_groups_stay_apart() {
    let rel = IpakRelationData {
        recommends: vec![vec![range("A", "= 1")]],
        suggests: vec![vec![range("B", "= 2")]],
        ..Default::default()
    };
    let out = PackagesRelations::from(rel);
    assert_eq!(
        names(&out.recommend_suggested),
        vec![vec!["A".to_string()], vec!["B".to_string()]]
    );
    assert_eq!(out.recommend_suggested[0][0].range.to_string(), "= 1");
    assert_eq!(out.recommend_suggested[1][0].range.to_string(), "= 2");
}

#[test]
fn groups_and_alternatives_keep_their_order() {
    let groups = vec![
        vec![range("b", ">= 2"), range("a", "< 1"), range("b", ">= 2")],
        vec![],
        vec![range("c", "3")],
    ];
    let out = adapt_groups(groups);
    assert_eq!(
        names(&out),
        vec![
            vec!["b".to_string(), "a".to_string(), "b".to_string()],
            vec![],
            vec!["c".to_string()],
        ]
    );
    assert_eq!(out[0][1].range.as_str(), "< 1");
    let one = adapt_group(vec![range("x", "1"), range("y", "2")]);
    assert_eq!(one.len(), 2);
    assert_eq!(one[0].name, "x");
    assert_eq!(one[1].name, "y");
    assert_eq!(one[1].range.as_str(), "2");
}

#[test]
fn each_conflict_is_a_group_of_its_own() {
    let out = adapt_conflicts(vec![range("x", "1"), range("y", "2"), range("x", "1")]);
    assert_eq!(
        names(&out),
        vec![vec!["x".to_string()], vec!["y".to_string()], vec!["x".to_string()]]
    );
    assert_eq!(out[1][0].range.as_str(), "2");
    assert!(adapt_conflicts(vec![]).is_empty());
}

#[test]
fn virtuals_are_copied_in_order() {
    let out = adapt_virtuals(vec![
        IpakPackageVersion { name: "mail".to_string(), version: Version::new("2.0") },
        IpakPackageVersion { name: "editor".to_string(), version: Version::new("1.0") },
    ]);
    assert_eq!(out.len(), 2);
    assert_eq!(out[0].name, "mail");
    assert_eq!(out[0].version.as_str(), "2.0");
    assert_eq!(out[1].name, "editor");
    assert_eq!(out[1].version, Version::new("1.0"));
}

#[test]
fn element_conversions_copy_their_fields() {
    let r = PackageRange::from(range("dep", ">= 4"));
    assert_eq!(r.name, "dep");
    assert_eq!(r.range, VersionRange::new(">= 4"));
    let v = PackageVersion::from(IpakPackageVersion {
        name: "virt".to_string(),
        version: Version::new("9"),
    });
    assert_eq!(v.name, "virt");
    assert_eq!(v.version.to_string(), "9");
    let a = AuthorInfo::from(IpakAuthorAboutData {
        name: "N".to_string(),
        email: "n@example.org".to_string(),
    });
    assert_eq!(a.name, "N");
    assert_eq!(a.email, "n@example.org");
    let d = PackageDescriptions::from(IpakPackageAboutData {
        name: "pkg".to_string(),
        version: Version::new("1"),
        description: "long text".to_string(),
    });
    assert_eq!(d.summary, "pkg");
    assert_eq!(d.detail, "long text");
}

#[test]
fn versions_keep_their_text() {
    assert_eq!(Version::from_str("1.2.3").unwrap().as_str(), "1.2.3");
    assert_eq!(VersionRange::from_str(">= 1.0").unwrap().to_string(), ">= 1.0");
    assert_ne!(Version::new("1.0"), Version::new("1.0.0"));
    assert_eq!(Version::default().as_str(), "");
}
