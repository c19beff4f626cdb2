use ref_negotiation::capabilities::Capabilities;
use ref_negotiation::handshake;
use ref_negotiation::handshake::{Outcome, Protocol, TransportError};
use ref_negotiation::ls_refs::Feature;
use ref_negotiation::ref_map::{
    copy_refs, copy_specs, to_items, to_mappings, with_tag_spec, Connection, Error, ListRefsError,
    Mapping, Options, RefMap, Source, SpecIndex, Step,
};
use ref_negotiation::refs::{Kind, ObjectId, Ref};
use ref_negotiation::refspec::{Fix, Item, RefSpec, Row};

fn spec(text: &str) -> RefSpec {
    RefSpec::parse(text.as_bytes()).expect("a valid fetch refspec")
}

fn specs(texts: &[&str]) -> Vec<RefSpec> {
    texts.iter().map(|t| spec(t)).collect()
}

fn texts(specs: &[RefSpec]) -> Vec<String> {
    specs.iter().map(|s| String::from_utf8(s.text().clone()).expect("text")).collect()
}

fn commit(path: &str, byte: u8) -> Ref {
    Ref::Commit { path: path.as_bytes().to_vec(), id: ObjectId([byte; 20]) }
}

fn tag(path: &str, byte: u8) -> Ref {
    Ref::Tag { path: path.as_bytes().to_vec(), id: ObjectId([byte; 20]) }
}

fn remote_refs() -> Vec<Ref> {
    vec![
        Ref::SymbolicForLookup { path: b"HEAD".to_vec(), target: b"refs/heads/main".to_vec() },
        commit("refs/heads/main", 1),
        commit("refs/heads/topic", 2),
        tag("refs/tags/v1", 3),
    ]
}

fn outcome(protocol: Protocol, tokens: &[&str]) -> Outcome {
    let tokens: Vec<Vec<u8>> = tokens.iter().map(|t| t.as_bytes().to_vec()).collect();
    let refs = match protocol {
        Protocol::V1 => Some(remote_refs()),
        Protocol::V2 => None,
    };
    Outcome::new(protocol, Capabilities::from_tokens(&tokens), refs).expect("conforming")
}

fn agent() -> Feature {
    Feature { name: "agent".to_string(), value: Some("git/oxide-0.1.0".to_string()) }
}

fn connection(fetch_specs: &[&str], tag_spec: Option<&str>) -> Connection {
    Connection { fetch_specs: specs(fetch_specs), tag_spec: tag_spec.map(spec), agent_feature: agent() }
}

fn mapping(remote: Ref, local: Option<&str>, spec_index: SpecIndex) -> Mapping {
    Mapping { remote: Source::Ref(remote), local: local.map(|l| l.as_bytes().to_vec()), spec_index }
}

#[test]
fn options_filter_by_prefix_unless_told_otherwise() {
    let options = Options::default();
    assert!(options.prefix_from_spec_as_filter_on_remote);
    assert!(options.handshake_parameters.is_empty());
    assert!(options.extra_refspecs.is_empty());
}

#[test]
fn mappings_are_tagged_explicit_below_the_boundary_and_implicit_from_it_on() {
    let map = RefMap::from_refs(
        &specs(&["refs/heads/main:refs/remotes/origin/main", "refs/heads/topic:refs/remotes/origin/topic"]),
        specs(&["refs/tags/*:refs/tags/*"]),
        remote_refs(),
        outcome(Protocol::V2, &[]),
    )
    .expect("no conflict");
    assert_eq!(
        map.mappings,
        vec![
            mapping(commit("refs/heads/main", 1), Some("refs/remotes/origin/main"), SpecIndex::ExplicitInRemote(0)),
            mapping(commit("refs/heads/topic", 2), Some("refs/remotes/origin/topic"), SpecIndex::ExplicitInRemote(1)),
            mapping(tag("refs/tags/v1", 3), Some("refs/tags/v1"), SpecIndex::Implicit(0)),
        ]
    );
    assert_eq!(texts(&map.extra_refspecs), vec!["refs/tags/*:refs/tags/*"]);
    assert_eq!(map.remote_refs, remote_refs());
    assert_eq!(map.object_hash, Kind::Sha1);
    assert!(map.fixes.is_empty());
    assert_eq!(map.handshake, outcome(Protocol::V2, &[]));
}

#[test]
fn to_mappings_counts_implicit_refspecs_from_the_boundary() {
    let rows = vec![
        Row { item_index: Some(1), object: None, rhs: Some(b"refs/heads/a".to_vec()), spec_index: 0 },
        Row { item_index: Some(0), object: None, rhs: None, spec_index: 2 },
        Row { item_index: None, object: Some(ObjectId([9; 20])), rhs: Some(b"refs/heads/b".to_vec()), spec_index: 3 },
        Row { item_index: Some(1), object: None, rhs: None, spec_index: 1 },
    ];
    let refs = vec![commit("refs/heads/x", 1), commit("refs/heads/y", 2)];
    assert_eq!(
        to_mappings(rows, &refs, 2),
        vec![
            mapping(commit("refs/heads/y", 2), Some("refs/heads/a"), SpecIndex::ExplicitInRemote(0)),
            mapping(commit("refs/heads/x", 1), None, SpecIndex::Implicit(0)),
            Mapping {
                remote: Source::ObjectId(ObjectId([9; 20])),
                local: Some(b"refs/heads/b".to_vec()),
                spec_index: SpecIndex::Implicit(1),
            },
            mapping(commit("refs/heads/y", 2), None, SpecIndex::ExplicitInRemote(1)),
        ]
    );
    assert!(to_mappings(Vec::new(), &refs, 0).is_empty());
}

#[test]
fn a_reference_without_object_is_shown_with_the_null_id() {
    assert_eq!(
        to_items(&remote_refs()),
        vec![
            Item { full_ref_name: b"HEAD".to_vec(), target: ObjectId([0; 20]) },
            Item { full_ref_name: b"refs/heads/main".to_vec(), target: ObjectId([1; 20]) },
            Item { full_ref_name: b"refs/heads/topic".to_vec(), target: ObjectId([2; 20]) },
            Item { full_ref_name: b"refs/tags/v1".to_vec(), target: ObjectId([3; 20]) },
        ]
    );
}

#[test]
fn a_refspec_that_names_an_object_maps_the_object() {
    let map = RefMap::from_refs(
        &specs(&["2222222222222222222222222222222222222222:refs/heads/pinned", "HEAD"]),
        Vec::new(),
        remote_refs(),
        outcome(Protocol::V2, &["object-format=sha1"]),
    )
    .expect("no conflict");
    assert_eq!(
        map.mappings,
        vec![
            Mapping {
                remote: Source::ObjectId(ObjectId([0x22; 20])),
                local: Some(b"refs/heads/pinned".to_vec()),
                spec_index: SpecIndex::ExplicitInRemote(0),
            },
            mapping(remote_refs().remove(0), None, SpecIndex::ExplicitInRemote(1)),
        ]
    );
}

#[test]
fn conflicting_matches_fail_the_whole() {
    let made = RefMap::from_refs(
        &specs(&["refs/heads/main:refs/heads/x", "refs/heads/topic:refs/heads/x"]),
        Vec::new(),
        remote_refs(),
        outcome(Protocol::V2, &[]),
    );
    match made {
        Err(Error::MappingValidation(conflicts)) => assert!(conflicts.contains("refs/heads/x"), "{conflicts}"),
        other => panic!("unexpected {other:?}"),
    }
}

#[test]
fn conflicts_are_reported_before_an_unknown_object_format() {
    let made = RefMap::from_refs(
        &specs(&["refs/heads/main:refs/heads/x", "refs/heads/topic:refs/heads/x"]),
        Vec::new(),
        remote_refs(),
        outcome(Protocol::V2, &["object-format=sha256"]),
    );
    assert!(matches!(made, Err(Error::MappingValidation(_))));
}

#[test]
fn an_unknown_object_format_fails_the_whole() {
    let made = RefMap::from_refs(
        &specs(&["refs/heads/*:refs/remotes/origin/*"]),
        Vec::new(),
        remote_refs(),
        outcome(Protocol::V2, &["object-format=sha256"]),
    );
    match made {
        Err(Error::Handshake(handshake::Error::UnknownObjectFormat { format })) => assert_eq!(format, b"sha256".to_vec()),
        other => panic!("unexpected {other:?}"),
    }
}

#[test]
fn a_partial_destination_is_dropped_and_noted() {
    let map = RefMap::from_refs(
        &specs(&["refs/heads/*:tracking/*"]),
        Vec::new(),
        remote_refs(),
        outcome(Protocol::V2, &[]),
    )
    .expect("no conflict");
    assert!(map.mappings.is_empty());
    assert_eq!(
        map.fixes,
        vec![
            Fix::removed(b"tracking/main".to_vec(), b"refs/heads/*:tracking/*".to_vec()),
            Fix::removed(b"tracking/topic".to_vec(), b"refs/heads/*:tracking/*".to_vec()),
        ]
    );
}

#[test]
fn the_tag_refspec_joins_the_implicit_ones_unless_it_is_there() {
    let tags = "refs/tags/*:refs/tags/*";
    assert_eq!(texts(&with_tag_spec(specs(&["refs/notes/*:refs/notes/*"]), Some(spec(tags)))), vec!["refs/notes/*:refs/notes/*", tags]);
    assert_eq!(texts(&with_tag_spec(specs(&[tags, "HEAD"]), Some(spec(tags)))), vec![tags, "HEAD"]);
    assert_eq!(texts(&with_tag_spec(specs(&["HEAD"]), None)), vec!["HEAD"]);
    assert_eq!(texts(&with_tag_spec(Vec::new(), Some(spec(tags)))), vec![tags]);
}

#[test]
fn copies_hold_the_same() {
    let list = specs(&["HEAD", "refs/heads/*:refs/remotes/origin/*"]);
    assert_eq!(texts(&copy_specs(&list)), texts(&list));
    assert_eq!(copy_refs(&remote_refs()), remote_refs());
}

fn begin(connection: Connection, options: Options) -> ref_negotiation::ref_map::Handshaking {
    let parameters = options.handshake_parameters.clone();
    match connection.ref_map(options) {
        Step::Handshake(asked, state) => {
            assert_eq!(asked, parameters);
            state
        }
        other => panic!("unexpected {other:?}"),
    }
}

#[test]
fn refs_of_the_handshake_are_mapped_without_listing() {
    let options = Options {
        handshake_parameters: vec![("key".to_string(), Some("value".to_string()))],
        ..Options::default()
    };
    let state = begin(connection(&["refs/heads/*:refs/remotes/origin/*"], Some("refs/tags/*:refs/tags/*")), options);
    assert_eq!(texts(&state.extra_refspecs), vec!["refs/tags/*:refs/tags/*"]);
    let ending = match state.handshaken(Ok(outcome(Protocol::V1, &[]))) {
        Step::EndInteraction(ending) => ending,
        other => panic!("unexpected {other:?}"),
    };
    let map = ending.ended(Ok(())).expect("no conflict");
    assert_eq!(
        map.mappings,
        vec![
            mapping(commit("refs/heads/main", 1), Some("refs/remotes/origin/main"), SpecIndex::ExplicitInRemote(0)),
            mapping(commit("refs/heads/topic", 2), Some("refs/remotes/origin/topic"), SpecIndex::ExplicitInRemote(0)),
            mapping(tag("refs/tags/v1", 3), Some("refs/tags/v1"), SpecIndex::Implicit(0)),
        ]
    );
    assert_eq!(map.remote_refs, remote_refs());
    assert_eq!(map.handshake, outcome(Protocol::V1, &[]));
}

#[test]
fn without_refs_the_server_is_asked_to_list_them_by_prefix() {
    let state = begin(
        connection(&["refs/heads/*:refs/remotes/origin/*", "refs/heads/*:refs/remotes/origin/*"], Some("refs/tags/*:refs/tags/*")),
        Options::default(),
    );
    let (request, state) = match state.handshaken(Ok(outcome(Protocol::V2, &[]))) {
        Step::ListRefs(request, state) => (request, state),
        other => panic!("unexpected {other:?}"),
    };
    assert_eq!(request.arguments, vec![b"ref-prefix refs/heads/".to_vec(), b"ref-prefix refs/tags/".to_vec()]);
    assert_eq!(request.features, vec![agent()]);
    let ending = match state.listed(Ok(remote_refs())) {
        Step::EndInteraction(ending) => ending,
        other => panic!("unexpected {other:?}"),
    };
    let map = ending.ended(Ok(())).expect("no conflict");
    assert_eq!(map.mappings.len(), 3);
    assert_eq!(map.mappings[2].spec_index, SpecIndex::Implicit(0));
    assert_eq!(map.handshake, outcome(Protocol::V2, &[]));
}

#[test]
fn the_filter_can_be_switched_off() {
    let options = Options { prefix_from_spec_as_filter_on_remote: false, ..Options::default() };
    let state = begin(connection(&["refs/heads/*:refs/remotes/origin/*"], None), options);
    match state.handshaken(Ok(outcome(Protocol::V2, &[]))) {
        Step::ListRefs(request, _) => {
            assert!(request.arguments.is_empty());
            assert_eq!(request.features, vec![agent()]);
        }
        other => panic!("unexpected {other:?}"),
    }
}

#[test]
fn the_interaction_is_ended_even_when_validation_fails() {
    let state = begin(
        connection(&["refs/heads/main:refs/heads/x", "refs/heads/topic:refs/heads/x"], None),
        Options::default(),
    );
    let listing = match state.handshaken(Ok(outcome(Protocol::V2, &[]))) {
        Step::ListRefs(_, state) => state,
        other => panic!("unexpected {other:?}"),
    };
    let ending = match listing.listed(Ok(remote_refs())) {
        Step::EndInteraction(ending) => ending,
        other => panic!("unexpected {other:?}"),
    };
    assert!(matches!(ending.ended(Ok(())), Err(Error::MappingValidation(_))));
}

#[test]
fn the_interaction_is_ended_after_a_failed_handshake_or_listing() {
    let denied = || handshake::Error::Transport(TransportError {
        permission_denied: true,
        is_spurious: false,
        message: "denied".to_string(),
    });
    let state = begin(connection(&["HEAD"], None), Options::default());
    match state.handshaken(Err(denied())) {
        Step::EndInteraction(ending) => assert_eq!(ending.ended(Ok(())).unwrap_err(), Error::Handshake(denied())),
        other => panic!("unexpected {other:?}"),
    }
    let lost = || ListRefsError { is_spurious: true, message: "connection lost".to_string() };
    let state = begin(connection(&["HEAD"], None), Options::default());
    let listing = match state.handshaken(Ok(outcome(Protocol::V2, &[]))) {
        Step::ListRefs(_, state) => state,
        other => panic!("unexpected {other:?}"),
    };
    match listing.listed(Err(lost())) {
        Step::EndInteraction(ending) => assert_eq!(ending.ended(Ok(())).unwrap_err(), Error::ListRefs(lost())),
        other => panic!("unexpected {other:?}"),
    }
}

#[test]
fn a_failure_to_end_the_interaction_changes_nothing() {
    let failed = Err(TransportError { permission_denied: false, is_spurious: true, message: "gone".to_string() });
    let state = begin(connection(&["refs/heads/*:refs/remotes/origin/*"], None), Options::default());
    match state.handshaken(Ok(outcome(Protocol::V1, &[]))) {
        Step::EndInteraction(ending) => assert_eq!(ending.ended(failed).expect("no conflict").mappings.len(), 2),
        other => panic!("unexpected {other:?}"),
    }
}

#[test]
fn spurious_failures_are_told_apart() {
    let transport = |is_spurious| TransportError { permission_denied: false, is_spurious, message: "reset".to_string() };
    assert!(Error::ListRefs(ListRefsError { is_spurious: true, message: "lost".to_string() }).is_spurious());
    assert!(!Error::ListRefs(ListRefsError { is_spurious: false, message: "bad line".to_string() }).is_spurious());
    assert!(Error::Handshake(handshake::Error::Transport(transport(true))).is_spurious());
    assert!(!Error::Handshake(handshake::Error::Transport(transport(false))).is_spurious());
    assert!(!Error::Handshake(handshake::Error::UnknownObjectFormat { format: b"sha256".to_vec() }).is_spurious());
    assert!(!Error::MappingValidation("conflict".to_string()).is_spurious());
}
