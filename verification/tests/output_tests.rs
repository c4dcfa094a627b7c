use background_fission::output::{artifact_name, artifact_path, purge, DirEntry};

fn entry(name: &str, is_file: bool) -> DirEntry {
    DirEntry { name: String::from(name), is_file }
}

#[test]
fn artifact_is_named_after_the_identifier() {
    assert_eq!(artifact_name(0), "background-0.png");
    assert_eq!(artifact_name(9), "background-9.png");
    assert_eq!(artifact_name(10), "background-10.png");
    assert_eq!(artifact_name(1_566_000_123), "background-1566000123.png");
    assert_eq!(artifact_name(u64::MAX), "background-18446744073709551615.png");
}

#[test]
fn artifact_path_joins_directory_and_name() {
    assert_eq!(artifact_path("/home/u/images", 42), "/home/u/images/background-42.png");
    assert_eq!(artifact_path("/home/u/images/", 42), "/home/u/images/background-42.png");
    assert_eq!(artifact_path("", 42), "background-42.png");
    assert_eq!(artifact_path("/", 7), "/background-7.png");
}

#[test]
fn purge_names_every_regular_file() {
    let entries = vec![
        entry("background-1.png", true),
        entry("cache", false),
        entry("notes.txt", true),
    ];
    assert_eq!(purge(&entries), vec![String::from("background-1.png"), String::from("notes.txt")]);
    assert_eq!(purge(&vec![]), Vec::<String>::new());
}

#[test]
fn second_purge_removes_nothing() {
    let entries = vec![entry("a.png", true), entry("sub", false), entry("b.png", true)];
    let gone = purge(&entries);
    let left: Vec<DirEntry> = entries.into_iter().filter(|e| !gone.contains(&e.name)).collect();
    assert_eq!(left, vec![entry("sub", false)]);
    assert!(purge(&left).is_empty());
}

#[test]
fn one_artifact_after_purge_and_publish() {
    let entries = vec![entry("background-1.png", true), entry("sub", false)];
    let gone = purge(&entries);
    let mut left: Vec<DirEntry> = entries.into_iter().filter(|e| !gone.contains(&e.name)).collect();
    left.push(entry(&artifact_name(2), true));
    assert_eq!(purge(&left), vec![String::from("background-2.png")]);
}

#[test]
fn different_identifiers_give_different_names() {
    let ids = [0u64, 1, 9, 10, 11, 19, 90, 99, 100, 101, 110, 1_000_000, u64::MAX - 1, u64::MAX];
    for (i, a) in ids.iter().enumerate() {
        for b in &ids[i + 1..] {
            assert_ne!(artifact_name(*a), artifact_name(*b));
            assert_ne!(artifact_path("/out", *a), artifact_path("/out", *b));
        }
    }
}
