use infinite_package_manager::modules::compats::repo::apt::{
    append_repos, classify_line, field_of, parse_repo_info, Field, LineKind, Parser, RepoInfo,
    Signature,
};
use infinite_package_manager::modules::compats::repo::{RepoType, Repository};
use infinite_package_manager::Error;
use std::path::PathBuf;

const TEST_SOURCES_CONTENT: &str = "Types: deb deb-src
URIs: https://archive.ubuntu.com/ubuntu
Suites: plucky plucky-updates plucky-backports
Components: main universe restricted multiverse
Signed-By: /usr/share/keyrings/ubuntu-archive-keyring.gpg

Types: deb deb-src
URIs: https://security.ubuntu.com/ubuntu/
Suites: plucky-security
Components: main universe restricted multiverse
Signed-By: /usr/share/keyrings/ubuntu-archive-keyring.gpg
";

fn strings(items: &[&str]) -> Vec<String> {
    items.iter().map(|s| s.to_string()).collect()
}

fn chars(s: &str) -> Vec<char> {
    s.chars().collect()
}

fn message(content: &str) -> String {
    match parse_repo_info(content) {
        Err(Error::ParseError(m)) => m,
        Ok(repos) => panic!("parsed to {:?}", repos),
    }
}

fn serialize(repo: &RepoInfo) -> String {
    format!(
        "Types: {}\nURIs: {}\nSuites: {}\nComponents: {}\nArchitectures: {}\n",
        repo.types.join(" "),
        repo.uris.join(" "),
        repo.suites.join(" "),
        repo.components.join(" "),
        repo.architectures.join(" ")
    )
}

#[test]
fn test_parse_repo_info() {
    let repos = parse_repo_info(TEST_SOURCES_CONTENT).unwrap();

    assert_eq!(repos.len(), 2);

    let repo1 = &repos[0];
    assert_eq!(repo1.types, vec!["deb", "deb-src"]);
    assert_eq!(repo1.uris, vec!["https://archive.ubuntu.com/ubuntu"]);
    assert_eq!(
        repo1.suites,
        vec!["plucky", "plucky-updates", "plucky-backports"]
    );
    assert_eq!(
        repo1.components,
        vec!["main", "universe", "restricted", "multiverse"]
    );
    let expected_signed_by_path = PathBuf::from("/usr/share/keyrings/ubuntu-archive-keyring.gpg");
    assert_eq!(
        &PathBuf::from(repo1.signed_by.as_ref().unwrap().path.as_ref().unwrap()),
        &expected_signed_by_path
    );
    assert!(repo1.architectures.is_empty());

    let repo2 = &repos[1];
    assert_eq!(repo2.types, vec!["deb", "deb-src"]);
    assert_eq!(repo2.uris, vec!["https://security.ubuntu.com/ubuntu/"]);
    assert_eq!(repo2.suites, vec!["plucky-security"]);
    assert_eq!(
        repo2.components,
        vec!["main", "universe", "restricted", "multiverse"]
    );
    let expected_signed_by_path = PathBuf::from("/usr/share/keyrings/ubuntu-archive-keyring.gpg");
    assert_eq!(
        &PathBuf::from(repo2.signed_by.as_ref().unwrap().path.as_ref().unwrap()),
        &expected_signed_by_path
    );
    assert!(repo2.architectures.is_empty());
}

#[test]
fn two_stanzas_without_a_last_blank_line() {
    let content = "Types: deb\nURIs: https://a.example/repo\nSuites: stable\nComponents: main\n\nTypes: deb\nURIs: https://b.example/repo\nSuites: testing\nComponents: main contrib";
    let repos = parse_repo_info(content).unwrap();
    assert_eq!(repos.len(), 2);
    assert_eq!(repos[0].uris, strings(&["https://a.example/repo"]));
    assert_eq!(repos[0].suites, strings(&["stable"]));
    assert_eq!(repos[1].types, strings(&["deb"]));
    assert_eq!(repos[1].uris, strings(&["https://b.example/repo"]));
    assert_eq!(repos[1].suites, strings(&["testing"]));
    assert_eq!(repos[1].components, strings(&["main", "contrib"]));
    assert_eq!(repos[1].signed_by, None);
}

#[test]
fn indented_first_line_is_an_error() {
    assert_eq!(
        message("  indented-first-line"),
        "Indented line without a preceding key:   indented-first-line"
    );
    assert_eq!(
        message("Types: deb\n\n\tdeb-src\n"),
        "Indented line without a preceding key: \tdeb-src"
    );
}

#[test]
fn line_without_colon_is_an_error() {
    assert_eq!(
        message("Types deb\nURIs: x\n"),
        "Invalid key-value pair format: Types deb"
    );
    assert_eq!(
        message("Types: deb\n\nSuites: a\nnonsense here  \nURIs: x"),
        "Invalid key-value pair format: nonsense here  "
    );
    let e = parse_repo_info("oops").unwrap_err();
    assert_eq!(e.message(), "Invalid key-value pair format: oops");
    assert_eq!(e, Error::ParseError("Invalid key-value pair format: oops".to_string()));
}

#[test]
fn continuation_appends_to_the_last_key() {
    let wrapped = parse_repo_info("Suites: a b\n  c d\n").unwrap();
    let single = parse_repo_info("Suites: a b c d\n").unwrap();
    assert_eq!(wrapped, single);
    assert_eq!(wrapped[0].suites, strings(&["a", "b", "c", "d"]));
    let all = parse_repo_info(
        "Types: t1\n t2\nURIs: u1\n\tu2 u3\nComponents: c1\n c2\nArchitectures: amd64\n  arm64\n   riscv64\n",
    )
    .unwrap();
    assert_eq!(all.len(), 1);
    assert_eq!(all[0].types, strings(&["t1", "t2"]));
    assert_eq!(all[0].uris, strings(&["u1", "u2", "u3"]));
    assert_eq!(all[0].components, strings(&["c1", "c2"]));
    assert_eq!(all[0].architectures, strings(&["amd64", "arm64", "riscv64"]));
}

#[test]
fn second_occurrence_of_a_key_replaces() {
    let repos = parse_repo_info("Suites: a b\nSuites: c\n").unwrap();
    assert_eq!(repos.len(), 1);
    assert_eq!(repos[0].suites, strings(&["c"]));
    let repos = parse_repo_info("Types: deb\n deb-src\nTypes:\n").unwrap();
    assert!(repos[0].types.is_empty());
}

#[test]
fn signing_key_is_a_path_without_bytes() {
    let repos = parse_repo_info("Signed-By:   /no/such/file.gpg  \n  ignored words\n").unwrap();
    assert_eq!(repos.len(), 1);
    assert_eq!(
        repos[0].signed_by,
        Some(Signature { path: Some("/no/such/file.gpg".to_string()), data: vec![] })
    );
    assert_eq!(repos[0].key_path(), Some(&"/no/such/file.gpg".to_string()));
}

#[test]
fn key_data_is_attached_or_left_empty() {
    let repo = parse_repo_info("Signed-By: /k.gpg\nTypes: deb\n").unwrap().remove(0);
    let missing = repo.clone().with_key_data(None);
    assert_eq!(
        missing.signed_by,
        Some(Signature { path: Some("/k.gpg".to_string()), data: vec![] })
    );
    assert_eq!(missing.types, strings(&["deb"]));
    let read = repo.with_key_data(Some(vec![1, 2, 3]));
    assert_eq!(
        read.signed_by,
        Some(Signature { path: Some("/k.gpg".to_string()), data: vec![1, 2, 3] })
    );
    let plain = parse_repo_info("Types: deb\n").unwrap().remove(0);
    assert_eq!(plain.key_path(), None);
    let same = plain.clone().with_key_data(Some(vec![9]));
    assert_eq!(same, plain);
}

#[test]
fn comments_do_not_end_a_stanza_or_forget_the_key() {
    let repos =
        parse_repo_info("# head\nTypes: deb\n   # inside\n deb-src\n#tail\nSuites: s\n\n# alone\n")
            .unwrap();
    assert_eq!(repos.len(), 1);
    assert_eq!(repos[0].types, strings(&["deb", "deb-src"]));
    assert_eq!(repos[0].suites, strings(&["s"]));
}

#[test]
fn unknown_keys_are_read_and_ignored() {
    let repos = parse_repo_info("Enabled: yes\n more\nX-Note: a:b:c\n").unwrap();
    assert_eq!(repos.len(), 1);
    assert_eq!(repos[0], RepoInfo::empty());
    let repos = parse_repo_info("types: deb\nTYPES: deb\n").unwrap();
    assert!(repos[0].types.is_empty());
}

#[test]
fn number_of_descriptors_is_the_number_of_stanzas() {
    assert_eq!(parse_repo_info("").unwrap().len(), 0);
    assert_eq!(parse_repo_info("\n\n   \n# c\n\n").unwrap().len(), 0);
    assert_eq!(parse_repo_info("A: 1").unwrap().len(), 1);
    assert_eq!(parse_repo_info("A: 1\n\n\n\nB: 2\n \nC: 3\n").unwrap().len(), 3);
    assert_eq!(parse_repo_info("A: 1\n#\nB: 2\n").unwrap().len(), 1);
}

#[test]
fn lists_survive_writing_and_reading_again() {
    let first = parse_repo_info(
        "Types: deb deb-src\nURIs: https://x.example/a\thttps://y.example/b\nSuites: s1\n  s2\nComponents: main\nArchitectures: amd64 arm64\n",
    )
    .unwrap();
    assert_eq!(first.len(), 1);
    let again = parse_repo_info(&serialize(&first[0])).unwrap();
    assert_eq!(again, first);
    assert_eq!(again[0].uris, strings(&["https://x.example/a", "https://y.example/b"]));
}

#[test]
fn carriage_returns_and_wide_spaces_are_whitespace() {
    let repos = parse_repo_info("Types: deb\r\nSuites:\u{3000}a\u{a0}b\r\n\r\nTypes: src\r\n").unwrap();
    assert_eq!(repos.len(), 2);
    assert_eq!(repos[0].types, strings(&["deb"]));
    assert_eq!(repos[0].suites, strings(&["a", "b"]));
    assert_eq!(repos[1].types, strings(&["src"]));
}

#[test]
fn key_and_value_are_trimmed_around_the_first_colon() {
    let repos = parse_repo_info("URIs  :   http://h:80/p  \n").unwrap();
    assert_eq!(repos[0].uris, strings(&["http://h:80/p"]));
}

#[test]
fn lines_are_classified_in_order() {
    assert_eq!(classify_line(&chars("")), LineKind::Blank);
    assert_eq!(classify_line(&chars(" \t ")), LineKind::Blank);
    assert_eq!(classify_line(&chars("# c")), LineKind::Comment);
    assert_eq!(classify_line(&chars("   # c")), LineKind::Comment);
    assert_eq!(classify_line(&chars(" x")), LineKind::Continuation);
    assert_eq!(classify_line(&chars("x #")), LineKind::KeyValue);
}

#[test]
fn keys_name_fields() {
    assert_eq!(field_of("Types"), Field::Types);
    assert_eq!(field_of("URIs"), Field::Uris);
    assert_eq!(field_of("Suites"), Field::Suites);
    assert_eq!(field_of("Components"), Field::Components);
    assert_eq!(field_of("Architectures"), Field::Architectures);
    assert_eq!(field_of("Signed-By"), Field::SignedBy);
    assert_eq!(field_of("Signed-by"), Field::Other);
    assert_eq!(field_of(""), Field::Other);
}

#[test]
fn parser_reads_line_by_line() {
    let p = Parser::new();
    let p = p.feed(&chars("Types: deb")).unwrap();
    let p = p.feed(&chars("  deb-src")).unwrap();
    let p = p.feed(&chars("")).unwrap();
    assert_eq!(p.repos.len(), 1);
    let p = p.feed(&chars("Suites: s")).unwrap();
    assert!(p.feed(&chars(" still fine")).is_ok());
    let repos = Parser::new()
        .feed(&chars("Suites: s"))
        .unwrap()
        .close()
        .feed(&chars("Types: t"))
        .unwrap()
        .finish();
    assert_eq!(repos.len(), 2);
    assert_eq!(repos[0].suites, strings(&["s"]));
    assert_eq!(repos[1].types, strings(&["t"]));
    assert!(Parser::new().feed(&chars(" x")).is_err());
}

#[test]
fn repository_keeps_its_parts() {
    let r = Repository::new(
        "main".to_string(),
        "https://x.example".to_string(),
        strings(&["main", "universe"]),
        strings(&["amd64"]),
        Some("ABCD".to_string()),
        RepoType::Apt,
    );
    assert_eq!(r.name, "main");
    assert_eq!(r.url, "https://x.example");
    assert_eq!(r.components, strings(&["main", "universe"]));
    assert_eq!(r.architectures, strings(&["amd64"]));
    assert_eq!(r.key, Some("ABCD".to_string()));
    assert_eq!(r.repo_type, RepoType::Apt);
}

#[test]
fn malformed_text_adds_nothing() {
    let mut all = parse_repo_info("Types: deb\n").unwrap();
    assert_eq!(append_repos(&mut all, "Suites: a\n\nSuites: b\n"), Ok(()));
    assert_eq!(all.len(), 3);
    assert_eq!(all[0].types, strings(&["deb"]));
    assert_eq!(all[1].suites, strings(&["a"]));
    assert_eq!(all[2].suites, strings(&["b"]));
    assert_eq!(
        append_repos(&mut all, "Suites: c\n\nbroken\n"),
        Err(Error::ParseError("Invalid key-value pair format: broken".to_string()))
    );
    assert_eq!(all.len(), 3);
}

#[test]
fn empty_descriptor_is_emitted() {
    let repos = parse_repo_info("Enabled: yes\n\nTypes: deb\n").unwrap();
    assert_eq!(repos.len(), 2);
    assert_eq!(repos[0], RepoInfo::empty());
    assert_eq!(repos[0].signed_by, None);
    assert!(repos[0].types.is_empty());
}
