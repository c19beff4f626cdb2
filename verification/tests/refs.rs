use ref_negotiation::capabilities::{Capabilities, Capability};
use ref_negotiation::refs::{extract_symrefs, ObjectId, Ref};

fn entry(name: &str, value: Option<&str>) -> Capability {
    Capability { name: name.as_bytes().to_vec(), value: value.map(|v| v.as_bytes().to_vec()) }
}

fn lookup(path: &str, target: &str) -> Ref {
    Ref::SymbolicForLookup { path: path.as_bytes().to_vec(), target: target.as_bytes().to_vec() }
}

#[test]
fn extract_symbolic_references_from_capabilities() {
    let mut caps = Capabilities::new();
    caps.add(b"unrelated".to_vec(), None);
    caps.add(b"symref".to_vec(), Some(b"HEAD:refs/heads/main".to_vec()));
    caps.add(b"symref".to_vec(), Some(b"ANOTHER:refs/heads/baz".to_vec()));
    caps.add(b"also-unrelated".to_vec(), Some(b"with-value".to_vec()));
    let mut out = Vec::new();
    extract_symrefs(&mut out, &caps);

    assert_eq!(out, vec![lookup("HEAD", "refs/heads/main"), lookup("ANOTHER", "refs/heads/baz")]);
    assert_eq!(
        caps.entries(),
        vec![
            entry("also-unrelated", Some("with-value")),
            entry("symref", Some("HEAD:refs/heads/main")),
            entry("symref", Some("ANOTHER:refs/heads/baz")),
            entry("unrelated", None),
        ]
    );
}

#[test]
fn extract_symrefs_appends_to_what_is_there() {
    let caps = Capabilities::from_tokens(&vec![b"symref=HEAD:refs/heads/main".to_vec()]);
    let commit = Ref::Commit { path: b"refs/heads/main".to_vec(), id: ObjectId([7; 20]) };
    let mut out = vec![commit.clone()];
    extract_symrefs(&mut out, &caps);
    assert_eq!(out, vec![commit, lookup("HEAD", "refs/heads/main")]);
}

#[test]
fn extract_symrefs_passes_over_values_that_announce_nothing() {
    let caps = Capabilities::from_tokens(&vec![
        b"symref".to_vec(),
        b"symref=no-colon".to_vec(),
        b"symref=:refs/heads/main".to_vec(),
        b"symref=HEAD:".to_vec(),
        b"symref=a:b:c".to_vec(),
        b"symrefs=HEAD:refs/heads/other".to_vec(),
    ]);
    let mut out = Vec::new();
    extract_symrefs(&mut out, &caps);
    assert_eq!(out, vec![lookup("a", "b:c")]);
}

#[test]
fn the_null_id_is_all_zero() {
    assert_eq!(ObjectId::null(), ObjectId([0; 20]));
    assert!(ObjectId::null().is_null());
    let mut bytes = [0u8; 20];
    bytes[19] = 1;
    assert!(!ObjectId(bytes).is_null());
}

#[test]
fn unpack_gives_the_name_and_the_object() {
    let id = ObjectId([3; 20]);
    let tag = Ref::Tag { path: b"refs/tags/v1".to_vec(), id };
    assert_eq!(tag.unpack(), (&b"refs/tags/v1".to_vec(), Some(id)));
    let symbolic = Ref::Symbolic { path: b"HEAD".to_vec(), target: b"refs/heads/main".to_vec(), id };
    assert_eq!(symbolic.unpack(), (&b"HEAD".to_vec(), Some(id)));
    assert_eq!(lookup("HEAD", "refs/heads/main").unpack(), (&b"HEAD".to_vec(), None));
    assert_eq!(symbolic.clone(), symbolic);
}
