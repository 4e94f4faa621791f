use std::io::Write;

use modpacks::extract::plan_entry;
use modpacks::paths::decode_entry_path;
use modpacks::paths::join_pieces;
use modpacks::paths::remap_overrides;
use modpacks::paths::resolve_entry_path;
use modpacks::EntryAction;
use modpacks::OverridesExtractor;
use modpacks::PackError;

#[test]
fn decode_splits_and_classifies() {
    assert_eq!(
        decode_entry_path("overrides/config/foo.txt").unwrap(),
        vec!["overrides", "config", "foo.txt"]
    );
    assert_eq!(decode_entry_path("./a").unwrap(), vec![".", "a"]);
    assert_eq!(decode_entry_path("config/").unwrap(), vec!["config"]);
    assert_eq!(decode_entry_path("").unwrap(), Vec::<String>::new());
}

#[test]
fn decode_rejects_traversal_and_empty_components() {
    for bad in ["../../etc/passwd", "a/../b", "..", "/etc/passwd", "a//b"] {
        match decode_entry_path(bad) {
            Err(PackError::InvalidArchiveEntry(m)) => assert_eq!(m, bad),
            other => panic!("{:?} should have been rejected, got {:?}", bad, other),
        }
    }
}

#[test]
fn remap_drops_exactly_the_first_overrides_component() {
    let remap = |pieces: &[&str]| {
        remap_overrides(pieces.iter().map(|s| s.to_string()).collect::<Vec<String>>())
    };
    assert_eq!(remap(&["overrides", "config", "foo.txt"]), vec!["config", "foo.txt"]);
    assert_eq!(remap(&["overrides", "overrides", "x"]), vec!["overrides", "x"]);
    assert_eq!(remap(&[".", "overrides", "x"]), vec![".", "x"]);
    assert_eq!(remap(&["standalone", "bar.txt"]), vec!["standalone", "bar.txt"]);
    assert_eq!(remap(&["config", "overrides", "x"]), vec!["config", "overrides", "x"]);
}

#[test]
fn join_interleaves_separators() {
    let pieces: Vec<String> = vec!["a".to_string(), ".".to_string(), "b".to_string()];
    assert_eq!(join_pieces(&pieces), "a/./b");
    assert_eq!(join_pieces(&Vec::new()), "");
}

#[test]
fn override_entries_land_under_the_package_root() {
    assert_eq!(
        resolve_entry_path("overrides/config/foo.txt", "./", "pkg").unwrap(),
        "./pkg/config/foo.txt"
    );
    assert_eq!(
        resolve_entry_path("standalone/bar.txt", "./", "pkg").unwrap(),
        "./pkg/standalone/bar.txt"
    );
    assert!(matches!(
        resolve_entry_path("../../etc/passwd", "./", "pkg"),
        Err(PackError::InvalidArchiveEntry(_))
    ));
}

#[test]
fn directory_entries_plan_no_file() {
    let action = plan_entry("config/", true, Vec::new(), "./", "pkg").unwrap();
    assert_eq!(action, EntryAction::MakeDir("./pkg/config".to_string()));
    let action = plan_entry("data/notes.txt", false, b"n".to_vec(), "./", "pkg").unwrap();
    assert_eq!(
        action,
        EntryAction::WriteFile("./pkg/data/notes.txt".to_string(), b"n".to_vec())
    );
}

fn build_archive(entries: &[(&str, Option<&[u8]>)]) -> Vec<u8> {
    let mut w = zip::ZipWriter::new(std::io::Cursor::new(Vec::new()));
    let opts = zip::write::SimpleFileOptions::default();
    for (name, content) in entries {
        match content {
            Some(bytes) => {
                w.start_file(*name, opts).unwrap();
                w.write_all(bytes).unwrap();
            }
            None => {
                w.add_directory(*name, opts).unwrap();
            }
        }
    }
    w.finish().unwrap().into_inner()
}

fn drain(mut x: OverridesExtractor) -> Result<Vec<EntryAction>, PackError> {
    let mut actions = Vec::new();
    loop {
        match x.next_action()? {
            Some(a) => actions.push(a),
            None => return Ok(actions),
        }
    }
}

#[test]
fn extractor_resolves_every_entry_of_a_real_archive() {
    let bytes = build_archive(&[
        ("config", None),
        ("overrides/config/foo.txt", Some(b"hello")),
        ("standalone/bar.txt", Some(b"bar")),
    ]);
    let x = OverridesExtractor::new(bytes, "./".to_string(), "pkg".to_string()).unwrap();
    assert_eq!(x.total_entries(), 3);
    let actions = drain(x).unwrap();
    assert_eq!(
        actions,
        vec![
            EntryAction::MakeDir("./pkg/config".to_string()),
            EntryAction::WriteFile("./pkg/config/foo.txt".to_string(), b"hello".to_vec()),
            EntryAction::WriteFile("./pkg/standalone/bar.txt".to_string(), b"bar".to_vec()),
        ]
    );
}

#[test]
fn extractor_rejects_a_traversal_entry() {
    let bytes = build_archive(&[
        ("fine.txt", Some(b"ok")),
        ("../evil.txt", Some(b"boom")),
    ]);
    let mut x = OverridesExtractor::new(bytes, "./".to_string(), "pkg".to_string()).unwrap();
    assert_eq!(
        x.next_action().unwrap(),
        Some(EntryAction::WriteFile("./pkg/fine.txt".to_string(), b"ok".to_vec()))
    );
    match x.next_action() {
        Err(PackError::InvalidArchiveEntry(m)) => assert_eq!(m, "../evil.txt"),
        other => panic!("traversal entry should fail extraction, got {:?}", other),
    }
}

#[test]
fn extractor_refuses_bytes_that_are_no_archive() {
    let r = OverridesExtractor::new(b"not a zip".to_vec(), "./".to_string(), "pkg".to_string());
    assert!(matches!(r, Err(PackError::Extraction(_))));
}
