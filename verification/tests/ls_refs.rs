use ref_negotiation::ls_refs::{prepare, Feature};
use ref_negotiation::refspec::RefSpec;

fn spec(text: &str) -> RefSpec {
    RefSpec::parse(text.as_bytes()).expect("a valid fetch refspec")
}

fn agent() -> Feature {
    Feature { name: "agent".to_string(), value: Some("git/oxide-0.1.0".to_string()) }
}

fn arguments_for(specs: &[&str], filter: bool) -> Vec<String> {
    let specs: Vec<RefSpec> = specs.iter().map(|s| spec(s)).collect();
    let mut arguments = Vec::new();
    let mut features = Vec::new();
    prepare(&mut arguments, &mut features, &specs, filter, agent());
    assert_eq!(features, vec![agent()]);
    arguments.into_iter().map(|a| String::from_utf8(a).expect("text")).collect()
}

#[test]
fn each_prefix_becomes_one_argument() {
    assert_eq!(
        arguments_for(&["refs/heads/*:refs/remotes/origin/*", "refs/tags/*:refs/tags/*"], true),
        vec!["ref-prefix refs/heads/", "ref-prefix refs/tags/"]
    );
}

#[test]
fn a_repeated_instruction_gives_its_arguments_once() {
    assert_eq!(
        arguments_for(&["refs/heads/*:refs/remotes/origin/*", "refs/heads/*:refs/remotes/origin/*"], true),
        vec!["ref-prefix refs/heads/"]
    );
    assert_eq!(
        arguments_for(&["refs/heads/main", "refs/tags/*:refs/tags/*", "+refs/heads/main"], true),
        vec!["ref-prefix refs/heads/main", "ref-prefix refs/tags/"]
    );
}

#[test]
fn refspecs_that_differ_in_force_or_destination_are_not_repeats() {
    assert_eq!(
        arguments_for(&["refs/heads/*:refs/remotes/a/*", "+refs/heads/*:refs/remotes/a/*", "refs/heads/*:refs/remotes/b/*"], true),
        vec!["ref-prefix refs/heads/", "ref-prefix refs/heads/", "ref-prefix refs/heads/"]
    );
}

#[test]
fn a_partial_name_expands_to_all_its_candidates() {
    assert_eq!(
        arguments_for(&["main"], true),
        vec![
            "ref-prefix main",
            "ref-prefix refs/main",
            "ref-prefix refs/tags/main",
            "ref-prefix refs/heads/main",
            "ref-prefix refs/remotes/main",
            "ref-prefix refs/remotes/main/HEAD",
        ]
    );
}

#[test]
fn without_the_filter_only_the_agent_is_added() {
    assert!(arguments_for(&["refs/heads/*:refs/remotes/origin/*"], false).is_empty());
    assert!(arguments_for(&[], true).is_empty());
}

#[test]
fn prepare_appends_to_what_the_request_holds() {
    let mut arguments = vec![b"symrefs".to_vec(), b"peel".to_vec()];
    let mut features = vec![Feature { name: "object-format".to_string(), value: Some("sha1".to_string()) }];
    prepare(&mut arguments, &mut features, &vec![spec("^refs/heads/x"), spec("HEAD")], true, agent());
    assert_eq!(arguments, vec![b"symrefs".to_vec(), b"peel".to_vec(), b"ref-prefix HEAD".to_vec()]);
    assert_eq!(features.len(), 2);
    assert_eq!(features[1], agent());
}
