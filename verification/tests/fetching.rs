use modpacks::dispatch::FetchOutcome;
use modpacks::Dispatcher;
use modpacks::FileDescriptor;
use modpacks::Manifest;
use modpacks::PackError;

fn sha1_hex(data: &[u8]) -> String {
    let mut hasher = <sha1::Sha1 as sha1::Digest>::new();
    sha1::Digest::update(&mut hasher, data);
    hex::encode(sha1::Digest::finalize(hasher))
}

fn descriptor(url: &str, name: &str, rel: &str, hash: &str) -> FileDescriptor {
    FileDescriptor {
        url: url.to_string(),
        name: name.to_string(),
        relative_path: rel.to_string(),
        expected_hash: hash.to_string(),
    }
}

#[test]
fn content_hash_known_vector() {
    // SHA-1 of "abc", as every implementation prints it
    let hash = modpacks::hashing::content_hash_hex(&b"abc".to_vec());
    assert_eq!(hash, "a9993e364706816aba3e25717850c26c9cd0d89d");
}

#[test]
fn empty_expected_hash_skips_verification() {
    let d = descriptor("http://x/a", "a.jar", "mods/", "");
    let w = modpacks::manifest::plan_file_write(&d, b"anything".to_vec(), "./", "pkg").unwrap();
    assert_eq!(w.content, b"anything".to_vec());
    let d = descriptor("http://x/a", "a.jar", "mods/", "notahash");
    assert!(modpacks::manifest::plan_file_write(&d, b"anything".to_vec(), "./", "pkg").is_err());
}

#[test]
fn plan_writes_exact_bytes_at_destination() {
    let d = descriptor("http://x/a", "a.jar", "mods/", &sha1_hex(b"alpha"));
    let w = modpacks::manifest::plan_file_write(&d, b"alpha".to_vec(), "./", "pkg").unwrap();
    assert_eq!(w.dir_path, "./pkg/mods/");
    assert_eq!(w.file_path, "./pkg/mods/a.jar");
    assert_eq!(w.content, b"alpha".to_vec());
}

#[test]
fn plan_mismatch_reports_both_hashes_and_writes_nothing() {
    let d = descriptor("http://x/a", "a.jar", "mods/", "0000000000000000000000000000000000000000");
    let r = modpacks::manifest::plan_file_write(&d, b"alpha".to_vec(), "./", "pkg");
    match r {
        Err(PackError::HashMismatch { expected, found }) => {
            assert_eq!(expected, "0000000000000000000000000000000000000000");
            assert_eq!(found, sha1_hex(b"alpha"));
        }
        other => panic!("expected a hash mismatch, got {:?}", other),
    }
}

#[test]
fn successful_run_writes_every_descriptor() {
    let files = vec![
        descriptor("http://x/a", "a.txt", "data/", &sha1_hex(b"alpha")),
        descriptor("http://x/b", "b.txt", "cfg/", ""),
    ];
    let manifest = Manifest { pack_id: "pkg".to_string(), files };
    let mut d = Dispatcher::new(manifest, "./".to_string());
    let bodies: Vec<&[u8]> = vec![b"alpha", b"beta"];
    let mut writes = Vec::new();
    while let Some((i, url)) = d.next_fetch() {
        assert_eq!(url, if i == 0 { "http://x/a" } else { "http://x/b" });
        let w = d.on_outcome(FetchOutcome::Fetched(bodies[i].to_vec())).unwrap();
        writes.push((w.file_path, w.content));
    }
    assert!(d.finished());
    assert_eq!(
        writes,
        vec![
            ("./pkg/data/a.txt".to_string(), b"alpha".to_vec()),
            ("./pkg/cfg/b.txt".to_string(), b"beta".to_vec()),
        ]
    );
}

#[test]
fn mismatch_fails_run_and_skips_the_file() {
    let files = vec![
        descriptor("http://x/a", "a.txt", "data/", &sha1_hex(b"other")),
        descriptor("http://x/b", "b.txt", "data/", ""),
    ];
    let manifest = Manifest { pack_id: "pkg".to_string(), files };
    let mut d = Dispatcher::new(manifest, "./".to_string());
    let (i, _) = d.next_fetch().unwrap();
    assert_eq!(i, 0);
    let r = d.on_outcome(FetchOutcome::Fetched(b"alpha".to_vec()));
    assert!(matches!(r, Err(PackError::HashMismatch { .. })));
    assert!(!d.finished());
}

#[test]
fn sequential_failure_never_reaches_later_descriptors() {
    // descriptor A fails, so B is never even scheduled
    let files = vec![
        descriptor("http://x/a", "a.txt", "data/", "0000000000000000000000000000000000000000"),
        descriptor("http://x/b", "b.txt", "data/", ""),
    ];
    let manifest = Manifest { pack_id: "pkg".to_string(), files };
    let mut d = Dispatcher::new(manifest, "./".to_string());
    let _ = d.next_fetch().unwrap();
    let r = d.on_outcome(FetchOutcome::Fetched(b"alpha".to_vec()));
    assert!(r.is_err());
    assert_eq!(d.next_fetch(), None);
}

#[test]
fn network_failure_halts_with_its_message() {
    let files = vec![descriptor("http://x/a", "a.txt", "data/", "")];
    let manifest = Manifest { pack_id: "pkg".to_string(), files };
    let mut d = Dispatcher::new(manifest, "./".to_string());
    let _ = d.next_fetch().unwrap();
    let r = d.on_outcome(FetchOutcome::NetworkFailed("connection refused".to_string()));
    assert_eq!(r, Err(PackError::Network("connection refused".to_string())));
    assert_eq!(d.next_fetch(), None);
    assert!(!d.finished());
}

#[test]
fn write_failure_halts_the_run() {
    let files = vec![
        descriptor("http://x/a", "a.txt", "data/", ""),
        descriptor("http://x/b", "b.txt", "data/", ""),
    ];
    let manifest = Manifest { pack_id: "pkg".to_string(), files };
    let mut d = Dispatcher::new(manifest, "./".to_string());
    let _ = d.next_fetch().unwrap();
    let _ = d.on_outcome(FetchOutcome::Fetched(b"alpha".to_vec())).unwrap();
    let e = d.on_write_failure("disk full".to_string());
    assert_eq!(e, PackError::Io("disk full".to_string()));
    assert_eq!(d.next_fetch(), None);
}

#[test]
fn empty_manifest_finishes_at_once() {
    let manifest = Manifest { pack_id: "pkg".to_string(), files: Vec::new() };
    let d = Dispatcher::new(manifest, "./".to_string());
    assert_eq!(d.next_fetch(), None);
    assert!(d.finished());
}

fn run_sequential(files: Vec<FileDescriptor>, bodies: &[&[u8]]) -> Vec<(String, Vec<u8>)> {
    let manifest = Manifest { pack_id: "pkg".to_string(), files };
    let mut d = Dispatcher::new(manifest, "./".to_string());
    let mut writes = Vec::new();
    while let Some((i, _)) = d.next_fetch() {
        let w = d.on_outcome(FetchOutcome::Fetched(bodies[i].to_vec())).unwrap();
        writes.push((w.file_path, w.content));
    }
    writes
}

#[test]
fn concurrency_order_does_not_change_the_tree() {
    // the writes of a sequential run and of per-descriptor plans handed out in
    // reverse completion order build the same tree
    let files = vec![
        descriptor("http://x/a", "a.txt", "data/", &sha1_hex(b"alpha")),
        descriptor("http://x/b", "b.txt", "cfg/", &sha1_hex(b"beta")),
        descriptor("http://x/c", "c.txt", "", ""),
    ];
    let bodies: Vec<&[u8]> = vec![b"alpha", b"beta", b"gamma"];
    let mut sequential = run_sequential(files.clone(), &bodies);
    let mut parallel = Vec::new();
    for i in (0..files.len()).rev() {
        let w =
            modpacks::manifest::plan_file_write(&files[i], bodies[i].to_vec(), "./", "pkg").unwrap();
        parallel.push((w.file_path, w.content));
    }
    sequential.sort();
    parallel.sort();
    assert_eq!(sequential, parallel);
}

#[test]
fn rerun_overwrites_with_identical_content() {
    let files = vec![
        descriptor("http://x/a", "a.txt", "data/", &sha1_hex(b"alpha")),
        descriptor("http://x/b", "b.txt", "cfg/", ""),
    ];
    let bodies: Vec<&[u8]> = vec![b"alpha", b"beta"];
    let first = run_sequential(files.clone(), &bodies);
    let second = run_sequential(files, &bodies);
    assert_eq!(first, second);
}
