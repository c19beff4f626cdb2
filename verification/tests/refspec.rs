use ref_negotiation::refs::ObjectId;
use ref_negotiation::refspec::{match_refs, Fix, Instruction, Item, RefSpec};

fn spec(text: &str) -> RefSpec {
    RefSpec::parse(text.as_bytes()).expect("a valid fetch refspec")
}

fn item(name: &str, byte: u8) -> Item {
    Item { full_ref_name: name.as_bytes().to_vec(), target: ObjectId([byte; 20]) }
}

#[test]
fn parse_keeps_the_text_and_reads_the_instruction() {
    let s = spec("+refs/heads/*:refs/remotes/origin/*");
    assert_eq!(s.text().as_slice(), b"+refs/heads/*:refs/remotes/origin/*");
    match s.instruction() {
        Instruction::AndUpdate { src, dst, allow_non_fast_forward } => {
            assert_eq!(src.as_slice(), b"refs/heads/*");
            assert_eq!(dst.as_slice(), b"refs/remotes/origin/*");
            assert!(*allow_non_fast_forward);
        }
        other => panic!("unexpected instruction {other:?}"),
    }
}

#[test]
fn parse_reads_source_only_and_negative_specs() {
    assert!(matches!(spec("refs/heads/main").instruction(), Instruction::Only { src } if src.as_slice() == b"refs/heads/main"));
    assert!(matches!(spec("^refs/heads/secret").instruction(), Instruction::Exclude { src } if src.as_slice() == b"refs/heads/secret"));
}

#[test]
fn parse_refuses_what_is_no_refspec() {
    assert!(RefSpec::parse(b"refs/heads/*:refs/remotes/origin/main").is_none());
    assert!(RefSpec::parse(b"refs/heads/**").is_none());
    assert!(RefSpec::parse(b"^a:b").is_none());
}

#[test]
fn same_instruction_ignores_spelling() {
    assert!(spec("refs/heads/main").same_instruction(&spec("+refs/heads/main")));
    assert!(!spec("refs/heads/main:refs/heads/a").same_instruction(&spec("+refs/heads/main:refs/heads/a")));
    assert!(!spec("refs/heads/main").same_instruction(&spec("refs/heads/other")));
}

#[test]
fn prefixes_of_a_pattern_and_of_a_partial_name() {
    assert_eq!(spec("refs/heads/*:refs/remotes/origin/*").prefixes(), vec![b"refs/heads/".to_vec()]);
    assert_eq!(
        spec("main").prefixes(),
        vec![
            b"main".to_vec(),
            b"refs/main".to_vec(),
            b"refs/tags/main".to_vec(),
            b"refs/heads/main".to_vec(),
            b"refs/remotes/main".to_vec(),
            b"refs/remotes/main/HEAD".to_vec(),
        ]
    );
    assert!(spec("^refs/heads/secret").prefixes().is_empty());
}

#[test]
fn match_refs_maps_items_by_index() {
    let specs = vec![spec("refs/heads/*:refs/remotes/origin/*"), spec("refs/tags/*:refs/tags/*")];
    let items = vec![item("refs/heads/main", 1), item("refs/tags/v1", 2), item("refs/other/x", 3)];
    let (rows, fixes) = match_refs(&specs, &items).expect("no conflict");
    assert!(fixes.is_empty());
    assert_eq!(rows.len(), 2);
    assert_eq!(rows[0].item_index, Some(0));
    assert_eq!(rows[0].spec_index, 0);
    assert_eq!(rows[0].rhs.as_deref(), Some(&b"refs/remotes/origin/main"[..]));
    assert!(rows[0].object.is_none());
    assert_eq!(rows[1].item_index, Some(1));
    assert_eq!(rows[1].spec_index, 1);
    assert_eq!(rows[1].rhs.as_deref(), Some(&b"refs/tags/v1"[..]));
}

#[test]
fn match_refs_reports_an_object_named_by_hash() {
    let specs = vec![spec("1111111111111111111111111111111111111111:refs/heads/pinned")];
    let (rows, _) = match_refs(&specs, &Vec::new()).expect("no conflict");
    assert_eq!(rows.len(), 1);
    assert_eq!(rows[0].item_index, None);
    assert_eq!(rows[0].object.map(|id| id.0), Some([0x11; 20]));
    assert_eq!(rows[0].rhs.as_deref(), Some(&b"refs/heads/pinned"[..]));
}

#[test]
fn match_refs_fails_on_conflicting_destinations() {
    let specs = vec![spec("refs/heads/a:refs/heads/x"), spec("refs/heads/b:refs/heads/x")];
    let items = vec![item("refs/heads/a", 1), item("refs/heads/b", 2)];
    let message = match_refs(&specs, &items).expect_err("two sources write one destination");
    assert!(message.contains("refs/heads/x"), "{message}");
}

#[test]
fn match_refs_drops_partial_destinations_with_a_fix() {
    let specs = vec![spec("refs/heads/*:tracking/*")];
    let items = vec![item("refs/heads/main", 1)];
    let (rows, fixes) = match_refs(&specs, &items).expect("no conflict");
    assert_eq!(
        fixes,
        vec![Fix::MappingWithPartialDestinationRemoved {
            name: b"tracking/main".to_vec(),
            spec: b"refs/heads/*:tracking/*".to_vec(),
        }]
    );
    assert!(rows.is_empty());
}

#[test]
fn match_refs_honours_negative_specs() {
    let specs = vec![spec("refs/heads/*:refs/remotes/origin/*"), spec("^refs/heads/secret")];
    let items = vec![item("refs/heads/main", 1), item("refs/heads/secret", 2)];
    let (rows, _) = match_refs(&specs, &items).expect("no conflict");
    assert_eq!(rows.len(), 1);
    assert_eq!(rows[0].item_index, Some(0));
}

#[test]
fn a_forced_refspec_is_written_with_its_sign_in_a_fix() {
    let specs = vec![spec("refs/heads/main:refs/heads/main"), spec("+refs/tags/*:tags/*")];
    let items = vec![item("refs/heads/main", 1), item("refs/tags/v1", 2)];
    let (rows, fixes) = match_refs(&specs, &items).expect("no conflict");
    assert_eq!(rows.len(), 1);
    assert_eq!(fixes, vec![Fix::removed(b"tags/v1".to_vec(), b"+refs/tags/*:tags/*".to_vec())]);
}
