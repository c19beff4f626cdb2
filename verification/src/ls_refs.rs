//! What a client adds to the request that lists the references of a server,
//! where the server does not send them with the handshake.

use crate::byte_str;
use crate::byte_str::contents;
use crate::refspec::{expanded_prefixes, parsed, texts, RefSpec};
use vstd::prelude::*;
use vstd::string::StringSliceAdditionalSpecFns;

verus! {

/// A feature that a request announces: a name, with a value or without.
#[derive(Debug, PartialEq, Eq)]
pub struct Feature {
    pub name: String,
    pub value: Option<String>,
}

/// The argument that has a server list the references under `prefix` only.
pub open spec fn ref_prefix_argument(prefix: Seq<u8>) -> Seq<u8> {
    "ref-prefix ".spec_bytes() + prefix
}

/// The arguments for a list of prefixes, one for each.
pub open spec fn ref_prefix_arguments(prefixes: Seq<Seq<u8>>) -> Seq<Seq<u8>> {
    prefixes.map_values(|p: Seq<u8>| ref_prefix_argument(p))
}

/// An earlier refspec of the list asks for the same as the one at `at`.
pub open spec fn seen_earlier(specs: Seq<Seq<u8>>, at: int) -> bool {
    exists|j: int| 0 <= j < at && parsed(#[trigger] specs[j]) == parsed(specs[at])
}

/// The arguments by which a server is to filter its references for `specs`:
/// those of the prefixes of each refspec, in the order of the refspecs, a
/// refspec that repeats the instruction of an earlier one adding nothing.
pub open spec fn prefix_arguments(specs: Seq<Seq<u8>>) -> Seq<Seq<u8>>
    decreases specs.len(),
{
    if specs.len() == 0 {
        Seq::empty()
    } else {
        let before = prefix_arguments(specs.drop_last());
        if seen_earlier(specs, specs.len() - 1) {
            before
        } else {
            before + ref_prefix_arguments(expanded_prefixes(specs.last()))
        }
    }
}

/// A refspec whose instruction the list holds already adds no argument.
pub proof fn repeated_instruction_adds_nothing(specs: Seq<Seq<u8>>, spec: Seq<u8>)
    requires
        exists|j: int| 0 <= j < specs.len() && parsed(#[trigger] specs[j]) == parsed(spec),
    ensures
        prefix_arguments(specs.push(spec)) == prefix_arguments(specs),
{
    let all = specs.push(spec);
    let j = choose|j: int| 0 <= j < specs.len() && parsed(#[trigger] specs[j]) == parsed(spec);
    assert(all.drop_last() =~= specs);
    assert(parsed(all[j]) == parsed(all[all.len() - 1]));
    assert(seen_earlier(all, all.len() - 1));
}

/// Two refspecs with one instruction give the arguments of the first alone.
pub proof fn same_instruction_twice(first: Seq<u8>, second: Seq<u8>)
    requires
        parsed(first) == parsed(second),
    ensures
        prefix_arguments(seq![first, second]) == prefix_arguments(seq![first]),
        prefix_arguments(seq![first]) == ref_prefix_arguments(expanded_prefixes(first)),
{
    let one = seq![first];
    assert(one[0] == first);
    repeated_instruction_adds_nothing(one, second);
    assert(one.push(second) =~= seq![first, second]);
    assert(one.drop_last() =~= Seq::<Seq<u8>>::empty());
    assert(prefix_arguments(Seq::<Seq<u8>>::empty()) =~= Seq::<Seq<u8>>::empty());
    assert(!seen_earlier(one, 0));
    assert(prefix_arguments(one) =~= ref_prefix_arguments(expanded_prefixes(first)));
}

/// Whether one of the first `at` refspecs asks for the same as the one at `at`.
fn is_seen_earlier(refspecs: &Vec<RefSpec>, at: usize) -> (seen: bool)
    requires
        at < refspecs.len(),
    ensures
        seen == seen_earlier(texts(refspecs@), at as int),
{
    let ghost specs = texts(refspecs@);
    let mut j: usize = 0;
    while j < at
        invariant
            j <= at < refspecs.len(),
            specs == texts(refspecs@),
            forall|k: int| 0 <= k < j ==> parsed(#[trigger] specs[k]) != parsed(specs[at as int]),
        decreases at - j,
    {
        if refspecs[j].same_instruction(&refspecs[at]) {
            assert(parsed(specs[j as int]) == parsed(specs[at as int]));
            return true;
        }
        j += 1;
    }
    false
}

/// Completes the request that lists references: `agent_feature` joins the
/// features, and where `filter_by_prefix` is set the arguments get one
/// `ref-prefix` argument for each prefix that `refspecs` can match.
pub fn prepare(
    arguments: &mut Vec<Vec<u8>>,
    features: &mut Vec<Feature>,
    refspecs: &Vec<RefSpec>,
    filter_by_prefix: bool,
    agent_feature: Feature,
)
    ensures
        final(features)@ == old(features)@.push(agent_feature),
        contents(final(arguments)@) == contents(old(arguments)@) + if filter_by_prefix {
            prefix_arguments(texts(refspecs@))
        } else {
            Seq::<Seq<u8>>::empty()
        },
{
    features.push(agent_feature);
    let ghost had = contents(arguments@);
    let ghost specs = texts(refspecs@);
    if !filter_by_prefix {
        assert(contents(arguments@) =~= had + Seq::<Seq<u8>>::empty());
        return ;
    }
    let mut i: usize = 0;
    proof {
        assert(specs.take(0) =~= Seq::<Seq<u8>>::empty());
        assert(contents(arguments@) =~= had + prefix_arguments(specs.take(0)));
    }
    while i < refspecs.len()
        invariant
            i <= refspecs.len(),
            specs == texts(refspecs@),
            contents(arguments@) == had + prefix_arguments(specs.take(i as int)),
        decreases refspecs.len() - i,
    {
        let ghost before = prefix_arguments(specs.take(i as int));
        proof {
            assert(specs.take(i + 1).drop_last() =~= specs.take(i as int));
            assert(seen_earlier(specs.take(i + 1), i as int) == seen_earlier(specs, i as int)) by {
                if seen_earlier(specs, i as int) {
                    let j = choose|j: int| 0 <= j < i && parsed(#[trigger] specs[j]) == parsed(specs[i as int]);
                    assert(parsed(specs.take(i + 1)[j]) == parsed(specs.take(i + 1)[i as int]));
                }
                if seen_earlier(specs.take(i + 1), i as int) {
                    let j = choose|j: int|
                        0 <= j < i && parsed(#[trigger] specs.take(i + 1)[j]) == parsed(
                            specs.take(i + 1)[i as int],
                        );
                    assert(parsed(specs[j]) == parsed(specs[i as int]));
                }
            }
        }
        if !is_seen_earlier(refspecs, i) {
            let prefixes = refspecs[i].prefixes();
            let ghost expanded = contents(prefixes@);
            assert(expanded == expanded_prefixes(specs[i as int]));
            let mut k: usize = 0;
            proof {
                assert(ref_prefix_arguments(expanded.take(0)) =~= Seq::<Seq<u8>>::empty());
                assert(contents(arguments@) =~= had + before + ref_prefix_arguments(
                    expanded.take(0),
                ));
            }
            while k < prefixes.len()
                invariant
                    k <= prefixes.len(),
                    expanded == contents(prefixes@),
                    contents(arguments@) == had + before + ref_prefix_arguments(
                        expanded.take(k as int),
                    ),
                decreases prefixes.len() - k,
            {
                let ghost listed = contents(arguments@);
                let argument = byte_str::append("ref-prefix ".as_bytes(), prefixes[k].as_slice());
                arguments.push(argument);
                proof {
                    assert(argument@ == ref_prefix_argument(expanded[k as int]));
                    assert(contents(arguments@) =~= listed.push(argument@));
                    assert(ref_prefix_arguments(expanded.take(k + 1)) =~= ref_prefix_arguments(
                        expanded.take(k as int),
                    ).push(argument@));
                    assert(contents(arguments@) =~= had + before + ref_prefix_arguments(
                        expanded.take(k + 1),
                    ));
                }
                k += 1;
            }
            proof {
                assert(expanded.take(prefixes.len() as int) =~= expanded);
                assert(contents(arguments@) =~= had + prefix_arguments(specs.take(i + 1)));
            }
        }
        i += 1;
    }
    proof {
        assert(specs.take(refspecs.len() as int) =~= specs);
    }
}

} // verus!
