//! The mapping of what a remote offers onto what a caller wants: the
//! references of the remote, matched against the fetch refspecs of the caller.
//!
//! `Connection::ref_map` names the first request to make; each answer, handed
//! to the state that waits for it, names the next. The mapping is had only
//! after the server was told that nothing more will be asked of it.

use crate::byte_str;
use crate::handshake;
use crate::handshake::{object_format_of, optional_views, Outcome, Protocol, TransportError};
use crate::ls_refs;
use crate::ls_refs::{prefix_arguments, Feature};
use crate::refs::{views, Kind, ObjectId, Ref, RefView};
use crate::refspec::{
    fix_views, item_views, match_refs, parsed, row_in_range, row_resolves, row_views, texts,
    validated_fixes, validated_matches, Fix, Item, ItemView, RefSpec, Row, RowView,
};
use crate::byte_str::contents;
use vstd::prelude::*;

verus! {

/// How to go about `Connection::ref_map`.
#[derive(Debug)]
pub struct Options {
    /// Have the server list only the references that the refspecs can match,
    /// by the prefixes of their sources. On unless switched off.
    pub prefix_from_spec_as_filter_on_remote: bool,
    /// Parameters to add to the handshake, each a name with an optional value.
    pub handshake_parameters: Vec<(String, Option<String>)>,
    /// Refspecs to use besides those of the remote, without making them part
    /// of it.
    pub extra_refspecs: Vec<RefSpec>,
}

impl Default for Options {
    fn default() -> (options: Options)
        ensures
            options.prefix_from_spec_as_filter_on_remote,
            options.handshake_parameters@.len() == 0,
            options.extra_refspecs@.len() == 0,
    {
        Options {
            prefix_from_spec_as_filter_on_remote: true,
            handshake_parameters: Vec::new(),
            extra_refspecs: Vec::new(),
        }
    }
}

impl Clone for Options {
    fn clone(&self) -> (copy: Options)
        ensures
            copy.prefix_from_spec_as_filter_on_remote == self.prefix_from_spec_as_filter_on_remote,
            copy.handshake_parameters@ == self.handshake_parameters@,
            texts(copy.extra_refspecs@) == texts(self.extra_refspecs@),
    {
        let mut handshake_parameters: Vec<(String, Option<String>)> = Vec::new();
        let mut i: usize = 0;
        while i < self.handshake_parameters.len()
            invariant
                i <= self.handshake_parameters.len(),
                handshake_parameters@ == self.handshake_parameters@.take(i as int),
            decreases self.handshake_parameters.len() - i,
        {
            let name = self.handshake_parameters[i].0.clone();
            let value = match &self.handshake_parameters[i].1 {
                Some(value) => Some(value.clone()),
                None => None,
            };
            handshake_parameters.push((name, value));
            i += 1;
            assert(handshake_parameters@ =~= self.handshake_parameters@.take(i as int));
        }
        assert(self.handshake_parameters@.take(self.handshake_parameters.len() as int)
            =~= self.handshake_parameters@);
        Options {
            prefix_from_spec_as_filter_on_remote: self.prefix_from_spec_as_filter_on_remote,
            handshake_parameters,
            extra_refspecs: copy_specs(&self.extra_refspecs),
        }
    }
}

/// A failure to list the references of a server.
#[derive(Debug, PartialEq, Eq)]
pub struct ListRefsError {
    /// The failure may pass if the whole operation is tried again.
    pub is_spurious: bool,
    /// What went wrong, in words.
    pub message: String,
}

/// Why no mapping could be made.
#[derive(Debug, PartialEq, Eq)]
pub enum Error {
    /// The handshake failed.
    Handshake(handshake::Error),
    /// The references could not be listed.
    ListRefs(ListRefsError),
    /// Two sources would write one destination. The conflicts are told in words.
    MappingValidation(String),
}

impl Error {
    /// Whether the operation may succeed if all of it is tried again.
    pub fn is_spurious(&self) -> (spurious: bool)
        ensures
            spurious == match *self {
                Error::ListRefs(err) => err.is_spurious,
                Error::Handshake(handshake::Error::Transport(err)) => err.is_spurious,
                _ => false,
            },
    {
        match self {
            Error::ListRefs(err) => err.is_spurious,
            Error::Handshake(err) => err.is_spurious(),
            _ => false,
        }
    }
}

/// Which refspec a mapping came from.
#[derive(Clone, Copy, Debug, PartialEq, Eq, Structural)]
pub enum SpecIndex {
    /// The index of one of the fetch refspecs of the remote.
    ExplicitInRemote(usize),
    /// The index of one of the refspecs that were used besides.
    Implicit(usize),
}

/// The remote side of a mapping.
#[derive(Debug, PartialEq, Eq)]
pub enum Source {
    /// An object that a refspec named by its hash.
    ObjectId(ObjectId),
    /// The reference that a refspec matched by its name.
    Ref(Ref),
}

/// What a `Source` holds.
pub enum SourceView {
    ObjectId(Seq<u8>),
    Ref(RefView),
}

impl View for Source {
    type V = SourceView;

    open spec fn view(&self) -> SourceView {
        match *self {
            Source::ObjectId(id) => SourceView::ObjectId(id@),
            Source::Ref(r) => SourceView::Ref(r@),
        }
    }
}

/// A remote reference or object, and the local reference to update with it.
#[derive(Debug, PartialEq, Eq)]
pub struct Mapping {
    /// What the remote has.
    pub remote: Source,
    /// The local reference to update, if any.
    pub local: Option<Vec<u8>>,
    /// The refspec that brought the mapping about.
    pub spec_index: SpecIndex,
}

/// What a `Mapping` holds.
pub struct MappingView {
    pub remote: SourceView,
    pub local: Option<Seq<u8>>,
    pub spec_index: SpecIndex,
}

impl View for Mapping {
    type V = MappingView;

    open spec fn view(&self) -> MappingView {
        MappingView {
            remote: self.remote@,
            local: match self.local {
                Some(name) => Some(name@),
                None => None,
            },
            spec_index: self.spec_index,
        }
    }
}

/// What each mapping of a list holds.
pub open spec fn mapping_views(mappings: Seq<Mapping>) -> Seq<MappingView> {
    mappings.map_values(|m: Mapping| m@)
}

/// The refspec at `index` of the explicit refspecs followed by the implicit
/// ones, `explicit` being the number of the explicit ones.
pub open spec fn spec_index_of(index: usize, explicit: usize) -> SpecIndex {
    if index < explicit {
        SpecIndex::ExplicitInRemote(index)
    } else {
        SpecIndex::Implicit((index - explicit) as usize)
    }
}

/// The mapping that a match stands for.
pub open spec fn mapping_of(row: RowView, refs: Seq<RefView>, explicit: usize) -> MappingView {
    MappingView {
        remote: match row.item_index {
            Some(index) => SourceView::Ref(refs[index as int]),
            None => SourceView::ObjectId(row.object->Some_0),
        },
        local: row.rhs,
        spec_index: spec_index_of(row.spec_index, explicit),
    }
}

/// The mappings that a list of matches stands for, in the same order.
pub open spec fn mappings_of(rows: Seq<RowView>, refs: Seq<RefView>, explicit: usize) -> Seq<
    MappingView,
> {
    rows.map_values(|row: RowView| mapping_of(row, refs, explicit))
}

/// What the matcher is shown of a reference: its name, and the object it
/// points to or else the reserved all-zero id, which no object has.
pub open spec fn item_of(r: RefView) -> ItemView {
    ItemView {
        full_ref_name: r.path(),
        target: match r.id() {
            Some(id) => id,
            None => ObjectId::spec_null(),
        },
    }
}

/// What the matcher is shown of a list of references.
pub open spec fn items_of(refs: Seq<RefView>) -> Seq<ItemView> {
    refs.map_values(|r: RefView| item_of(r))
}

/// A mapping of a refspec before `explicit` is tagged as explicit with its
/// index; one of a later refspec as implicit, counted from `explicit` on.
pub proof fn spec_index_is_tagged(row: RowView, refs: Seq<RefView>, explicit: usize)
    ensures
        row.spec_index < explicit ==> mapping_of(row, refs, explicit).spec_index
            == SpecIndex::ExplicitInRemote(row.spec_index),
        row.spec_index >= explicit ==> mapping_of(row, refs, explicit).spec_index
            == SpecIndex::Implicit((row.spec_index - explicit) as usize),
{
}

/// The remote side of a mapping is the reference that its match points at, or
/// else the object that the refspec of the match names; its local side is the
/// destination of the match.
pub proof fn mapping_is_of_a_reference_or_an_object(
    row: RowView,
    refs: Seq<RefView>,
    explicit: usize,
)
    requires
        row_resolves(row, refs.len()),
    ensures
        match mapping_of(row, refs, explicit).remote {
            SourceView::Ref(r) => row.item_index is Some && row.item_index->Some_0 < refs.len()
                && r == refs[row.item_index->Some_0 as int],
            SourceView::ObjectId(id) => row.item_index is None && row.object == Some(id),
        },
        mapping_of(row, refs, explicit).local == row.rhs,
{
}

/// The items that the matcher is to see for `refs`.
pub fn to_items(refs: &Vec<Ref>) -> (items: Vec<Item>)
    ensures
        item_views(items@) == items_of(views(refs@)),
{
    let mut items: Vec<Item> = Vec::new();
    let mut i: usize = 0;
    while i < refs.len()
        invariant
            i <= refs.len(),
            item_views(items@) == items_of(views(refs@).take(i as int)),
        decreases refs.len() - i,
    {
        let ghost had = item_views(items@);
        let (name, id) = refs[i].unpack();
        let target = match id {
            Some(id) => id,
            None => ObjectId::null(),
        };
        let item = Item { full_ref_name: byte_str::copy(name.as_slice()), target };
        items.push(item);
        proof {
            assert(item@ == item_of(refs[i as int]@));
            assert(item_views(items@) =~= had.push(item@));
            assert(items_of(views(refs@).take(i + 1)) =~= items_of(views(refs@).take(i as int)).push(
                item_of(views(refs@)[i as int]),
            ));
        }
        i += 1;
    }
    proof {
        assert(views(refs@).take(refs.len() as int) =~= views(refs@));
    }
    items
}

/// The mappings that `rows` stand for: the reference at the index of a row, or
/// the object that it names; its destination; and its refspec, tagged as
/// explicit if it is one of the first `num_explicit_specs`.
pub fn to_mappings(rows: Vec<Row>, remote_refs: &Vec<Ref>, num_explicit_specs: usize) -> (mappings:
    Vec<Mapping>)
    requires
        forall|k: int| 0 <= k < rows.len() ==> row_resolves(#[trigger] rows[k]@, remote_refs.len() as nat),
    ensures
        mapping_views(mappings@) == mappings_of(
            row_views(rows@),
            views(remote_refs@),
            num_explicit_specs,
        ),
{
    let ghost wanted = mappings_of(row_views(rows@), views(remote_refs@), num_explicit_specs);
    let mut mappings: Vec<Mapping> = Vec::new();
    let mut k: usize = 0;
    while k < rows.len()
        invariant
            k <= rows.len(),
            wanted == mappings_of(row_views(rows@), views(remote_refs@), num_explicit_specs),
            forall|k: int|
                0 <= k < rows.len() ==> row_resolves(#[trigger] rows[k]@, remote_refs.len() as nat),
            mapping_views(mappings@) == wanted.take(k as int),
        decreases rows.len() - k,
    {
        let ghost had = mapping_views(mappings@);
        let row = &rows[k];
        assert(row_resolves(rows[k as int]@, remote_refs.len() as nat));
        let remote = match row.item_index {
            Some(index) => Source::Ref(remote_refs[index].clone()),
            None => Source::ObjectId(row.object.unwrap()),
        };
        let local = match &row.rhs {
            Some(name) => Some(byte_str::copy(name.as_slice())),
            None => None,
        };
        let spec_index = if row.spec_index < num_explicit_specs {
            SpecIndex::ExplicitInRemote(row.spec_index)
        } else {
            SpecIndex::Implicit(row.spec_index - num_explicit_specs)
        };
        let mapping = Mapping { remote, local, spec_index };
        mappings.push(mapping);
        proof {
            assert(mapping@ == wanted[k as int]);
            assert(mapping_views(mappings@) =~= had.push(mapping@));
            assert(wanted.take(k + 1) =~= wanted.take(k as int).push(wanted[k as int]));
        }
        k += 1;
    }
    proof {
        assert(wanted.take(rows.len() as int) =~= wanted);
    }
    mappings
}

/// A copy of a list of refspecs.
pub fn copy_specs(specs: &Vec<RefSpec>) -> (copy: Vec<RefSpec>)
    ensures
        texts(copy@) == texts(specs@),
{
    let mut copy: Vec<RefSpec> = Vec::new();
    let mut i: usize = 0;
    while i < specs.len()
        invariant
            i <= specs.len(),
            texts(copy@) == texts(specs@).take(i as int),
        decreases specs.len() - i,
    {
        let ghost had = texts(copy@);
        copy.push(specs[i].clone());
        proof {
            assert(texts(copy@) =~= had.push(specs[i as int]@));
            assert(texts(specs@).take(i + 1) =~= texts(specs@).take(i as int).push(
                texts(specs@)[i as int],
            ));
        }
        i += 1;
    }
    proof {
        assert(texts(specs@).take(specs.len() as int) =~= texts(specs@));
    }
    copy
}

/// A copy of a list of references.
pub fn copy_refs(refs: &Vec<Ref>) -> (copy: Vec<Ref>)
    ensures
        views(copy@) == views(refs@),
{
    let mut copy: Vec<Ref> = Vec::new();
    let mut i: usize = 0;
    while i < refs.len()
        invariant
            i <= refs.len(),
            views(copy@) == views(refs@).take(i as int),
        decreases refs.len() - i,
    {
        let ghost had = views(copy@);
        copy.push(refs[i].clone());
        proof {
            assert(views(copy@) =~= had.push(refs[i as int]@));
            assert(views(refs@).take(i + 1) =~= views(refs@).take(i as int).push(views(refs@)[i as int]));
        }
        i += 1;
    }
    proof {
        assert(views(refs@).take(refs.len() as int) =~= views(refs@));
    }
    copy
}

/// One of `specs` asks for the same as `spec`.
pub open spec fn asks_the_same(specs: Seq<Seq<u8>>, spec: Seq<u8>) -> bool {
    exists|j: int| 0 <= j < specs.len() && parsed(#[trigger] specs[j]) == parsed(spec)
}

/// The implicit refspecs of a call: the caller's, followed by the refspec
/// that follows tags unless there is none or the caller's ask for the same.
pub open spec fn implicit_specs(extra: Seq<Seq<u8>>, tag_spec: Option<Seq<u8>>) -> Seq<Seq<u8>> {
    match tag_spec {
        Some(spec) => if asks_the_same(extra, spec) {
            extra
        } else {
            extra.push(spec)
        },
        None => extra,
    }
}

/// Adds the refspec that follows tags to the caller's implicit refspecs,
/// unless one of them asks for the same already.
pub fn with_tag_spec(extra_refspecs: Vec<RefSpec>, tag_spec: Option<RefSpec>) -> (all: Vec<RefSpec>)
    ensures
        texts(all@) == implicit_specs(
            texts(extra_refspecs@),
            match tag_spec {
                Some(spec) => Some(spec@),
                None => None,
            },
        ),
{
    let mut all = extra_refspecs;
    match tag_spec {
        Some(spec) => {
            let ghost extra = texts(all@);
            let mut j: usize = 0;
            while j < all.len()
                invariant
                    j <= all.len(),
                    extra == texts(all@),
                    extra == texts(extra_refspecs@),
                    tag_spec == Some(spec),
                    forall|k: int| 0 <= k < j ==> parsed(#[trigger] extra[k]) != parsed(spec@),
                decreases all.len() - j,
            {
                if all[j].same_instruction(&spec) {
                    assert(parsed(extra[j as int]) == parsed(spec@));
                    assert(asks_the_same(extra, spec@));
                    return all;
                }
                j += 1;
            }
            all.push(spec);
            assert(texts(all@) =~= extra.push(spec@));
            all
        },
        None => all,
    }
}

/// What a remote offers of what the caller wants.
#[derive(Debug)]
pub struct RefMap {
    /// The references and objects to fetch, each with the local reference to
    /// update, in the order in which the refspecs matched.
    pub mappings: Vec<Mapping>,
    /// The refspecs that were used besides those of the remote.
    pub extra_refspecs: Vec<RefSpec>,
    /// What validation corrected in the mappings.
    pub fixes: Vec<Fix>,
    /// The references of the remote, as it advertised them.
    pub remote_refs: Vec<Ref>,
    /// The outcome of the handshake.
    pub handshake: Outcome,
    /// The hash function by which the remote names its objects.
    pub object_hash: Kind,
}

/// `made` is what the references `remote_refs` and the handshake `outcome`
/// give for the refspecs `fetch_specs` followed by `extra_refspecs`: the
/// mappings of the validated matches, each of one of the references or of an
/// object that a refspec names, together with the corrections that validation
/// made; or the failure of validation; or else the failure to tell the hash
/// function of the remote.
pub open spec fn is_ref_map_of(
    made: Result<RefMap, Error>,
    fetch_specs: Seq<Seq<u8>>,
    extra_refspecs: Seq<Seq<u8>>,
    remote_refs: Seq<RefView>,
    outcome: Outcome,
) -> bool {
    let found = validated_matches(fetch_specs + extra_refspecs, items_of(remote_refs));
    let format = object_format_of(outcome.advertised());
    match made {
        Ok(map) => {
            &&& found is Some
            &&& format is Ok
            &&& forall|k: int|
                0 <= k < found->Some_0.len() ==> row_in_range(
                    #[trigger] found->Some_0[k],
                    (fetch_specs + extra_refspecs).len(),
                    remote_refs.len(),
                )
            &&& mapping_views(map.mappings@) == mappings_of(
                found->Some_0,
                remote_refs,
                fetch_specs.len() as usize,
            )
            &&& validated_fixes(fetch_specs + extra_refspecs, items_of(remote_refs)) == Some(
                fix_views(map.fixes@),
            )
            &&& texts(map.extra_refspecs@) == extra_refspecs
            &&& views(map.remote_refs@) == remote_refs
            &&& map.handshake == outcome
            &&& map.object_hash == format->Ok_0
        },
        Err(Error::MappingValidation(_)) => found is None,
        Err(Error::Handshake(handshake::Error::UnknownObjectFormat { format: unknown })) => {
            &&& found is Some
            &&& format == Err::<Kind, Seq<u8>>(unknown@)
        },
        Err(_) => false,
    }
}

impl RefMap {
    /// Maps `remote_refs` onto `fetch_specs` followed by `extra_refspecs`.
    /// Conflicting matches fail the whole; nothing is made of a part of them.
    pub fn from_refs(
        fetch_specs: &Vec<RefSpec>,
        extra_refspecs: Vec<RefSpec>,
        remote_refs: Vec<Ref>,
        outcome: Outcome,
    ) -> (made: Result<RefMap, Error>)
        ensures
            is_ref_map_of(
                made,
                texts(fetch_specs@),
                texts(extra_refspecs@),
                views(remote_refs@),
                outcome,
            ),
    {
        let mut specs = copy_specs(fetch_specs);
        let mut extra = copy_specs(&extra_refspecs);
        let ghost explicit = texts(specs@);
        let ghost implicit = texts(extra@);
        specs.append(&mut extra);
        proof {
            assert(texts(specs@) =~= explicit + implicit);
        }
        let items = to_items(&remote_refs);
        let (rows, fixes) = match match_refs(&specs, &items) {
            Ok(found) => found,
            Err(conflicts) => {
                return Err(Error::MappingValidation(conflicts));
            },
        };
        let ghost found = row_views(rows@);
        proof {
            assert(item_views(items@).len() == items.len());
            assert(items_of(views(remote_refs@)).len() == remote_refs.len());
            assert(texts(specs@).len() == specs.len());
            assert forall|k: int| 0 <= k < rows.len() implies row_resolves(
                #[trigger] rows[k]@,
                remote_refs.len() as nat,
            ) by {
                assert(row_in_range(rows[k]@, specs.len() as nat, items.len() as nat));
            }
            assert forall|k: int| 0 <= k < found.len() implies row_in_range(
                #[trigger] found[k],
                (explicit + implicit).len(),
                views(remote_refs@).len(),
            ) by {
                assert(row_in_range(rows[k]@, specs.len() as nat, items.len() as nat));
            }
        }
        let mappings = to_mappings(rows, &remote_refs, fetch_specs.len());
        let object_hash = match handshake::extract_object_format(&outcome) {
            Ok(kind) => kind,
            Err(unknown) => {
                return Err(Error::Handshake(unknown));
            },
        };
        Ok(RefMap { mappings, extra_refspecs, fixes, remote_refs, handshake: outcome, object_hash })
    }
}

/// What a connection knows of its remote: the fetch refspecs that the remote
/// is configured with, the refspec by which tags are followed, if they are,
/// and the feature that tells a server who is asking.
#[derive(Debug)]
pub struct Connection {
    pub fetch_specs: Vec<RefSpec>,
    pub tag_spec: Option<RefSpec>,
    pub agent_feature: Feature,
}

/// What the request to list references is to carry besides what the protocol
/// has it carry anyway.
#[derive(Debug, PartialEq, Eq)]
pub struct ListRefs {
    pub arguments: Vec<Vec<u8>>,
    pub features: Vec<Feature>,
}

/// Waiting for the outcome of the handshake.
#[derive(Debug)]
pub struct Handshaking {
    pub fetch_specs: Vec<RefSpec>,
    pub extra_refspecs: Vec<RefSpec>,
    pub prefix_from_spec_as_filter_on_remote: bool,
    pub agent_feature: Feature,
}

/// Waiting for the references that the server was asked to list.
#[derive(Debug)]
pub struct Listing {
    pub fetch_specs: Vec<RefSpec>,
    pub extra_refspecs: Vec<RefSpec>,
    pub outcome: Outcome,
}

/// Waiting for the server to be told that the interaction has ended.
#[derive(Debug)]
pub struct Ending {
    pub result: Result<RefMap, Error>,
}

/// What is to be done next, and the state that takes the answer.
#[derive(Debug)]
pub enum Step {
    /// Perform the handshake, with these parameters added.
    Handshake(Vec<(String, Option<String>)>, Handshaking),
    /// Ask the server to list its references.
    ListRefs(ListRefs, Listing),
    /// Tell the server that nothing more will be asked of it.
    EndInteraction(Ending),
}

/// The arguments that the request to list references gets for `specs`.
pub open spec fn list_arguments(filter_by_prefix: bool, specs: Seq<Seq<u8>>) -> Seq<Seq<u8>> {
    if filter_by_prefix {
        prefix_arguments(specs)
    } else {
        Seq::empty()
    }
}

impl Connection {
    /// Begins the mapping of the references of the remote onto its fetch
    /// refspecs and the implicit ones: the caller's, and the one that follows
    /// tags. The handshake comes first.
    pub fn ref_map(self, options: Options) -> (step: Step)
        ensures
            step matches Step::Handshake(parameters, state) && {
                &&& parameters == options.handshake_parameters
                &&& texts(state.fetch_specs@) == texts(self.fetch_specs@)
                &&& texts(state.extra_refspecs@) == implicit_specs(
                    texts(options.extra_refspecs@),
                    match self.tag_spec {
                        Some(spec) => Some(spec@),
                        None => None,
                    },
                )
                &&& state.prefix_from_spec_as_filter_on_remote
                    == options.prefix_from_spec_as_filter_on_remote
                &&& state.agent_feature == self.agent_feature
            },
    {
        let extra_refspecs = with_tag_spec(options.extra_refspecs, self.tag_spec);
        Step::Handshake(
            options.handshake_parameters,
            Handshaking {
                fetch_specs: self.fetch_specs,
                extra_refspecs,
                prefix_from_spec_as_filter_on_remote: options.prefix_from_spec_as_filter_on_remote,
                agent_feature: self.agent_feature,
            },
        )
    }
}

impl Handshaking {
    /// Takes the outcome of the handshake. A failed handshake ends the
    /// interaction. References that came with the handshake are mapped at
    /// once, and the interaction ends whether or not that succeeds. Without
    /// them the server is asked to list its references, by the prefixes of the
    /// refspecs if that is wanted.
    pub fn handshaken(self, result: Result<Outcome, handshake::Error>) -> (step: Step)
        ensures
            match result {
                Err(error) => step matches Step::EndInteraction(ending) && ending.result == Err::<
                    RefMap,
                    Error,
                >(Error::Handshake(error)),
                Ok(outcome) => match outcome.inline_refs() {
                    Some(refs) => step matches Step::EndInteraction(ending) && is_ref_map_of(
                        ending.result,
                        texts(self.fetch_specs@),
                        texts(self.extra_refspecs@),
                        refs,
                        outcome,
                    ),
                    None => step matches Step::ListRefs(request, state) && {
                        &&& contents(request.arguments@) == list_arguments(
                            self.prefix_from_spec_as_filter_on_remote,
                            texts(self.fetch_specs@) + texts(self.extra_refspecs@),
                        )
                        &&& request.features@ == seq![self.agent_feature]
                        &&& texts(state.fetch_specs@) == texts(self.fetch_specs@)
                        &&& texts(state.extra_refspecs@) == texts(self.extra_refspecs@)
                        &&& state.outcome == outcome
                    },
                },
            },
    {
        let outcome = match result {
            Ok(outcome) => outcome,
            Err(error) => {
                return Step::EndInteraction(Ending { result: Err(Error::Handshake(error)) });
            },
        };
        let inline = match outcome.refs() {
            Some(refs) => Some(copy_refs(refs)),
            None => None,
        };
        match inline {
            Some(remote_refs) => Step::EndInteraction(
                Ending {
                    result: RefMap::from_refs(
                        &self.fetch_specs,
                        self.extra_refspecs,
                        remote_refs,
                        outcome,
                    ),
                },
            ),
            None => {
                let mut specs = copy_specs(&self.fetch_specs);
                let mut extra = copy_specs(&self.extra_refspecs);
                let ghost explicit = texts(specs@);
                let ghost implicit = texts(extra@);
                specs.append(&mut extra);
                proof {
                    assert(texts(specs@) =~= explicit + implicit);
                }
                let mut arguments: Vec<Vec<u8>> = Vec::new();
                let mut features: Vec<Feature> = Vec::new();
                ls_refs::prepare(
                    &mut arguments,
                    &mut features,
                    &specs,
                    self.prefix_from_spec_as_filter_on_remote,
                    self.agent_feature,
                );
                proof {
                    assert(contents(arguments@) =~= list_arguments(
                        self.prefix_from_spec_as_filter_on_remote,
                        texts(self.fetch_specs@) + texts(self.extra_refspecs@),
                    ));
                    assert(features@ =~= seq![self.agent_feature]);
                }
                Step::ListRefs(
                    ListRefs { arguments, features },
                    Listing {
                        fetch_specs: self.fetch_specs,
                        extra_refspecs: self.extra_refspecs,
                        outcome,
                    },
                )
            },
        }
    }
}

impl Listing {
    /// Takes the references that the server listed, or the failure to list
    /// them. Either way the interaction ends next, also where the references
    /// cannot be mapped.
    pub fn listed(self, result: Result<Vec<Ref>, ListRefsError>) -> (step: Step)
        ensures
            step matches Step::EndInteraction(ending) && match result {
                Err(error) => ending.result == Err::<RefMap, Error>(Error::ListRefs(error)),
                Ok(refs) => is_ref_map_of(
                    ending.result,
                    texts(self.fetch_specs@),
                    texts(self.extra_refspecs@),
                    views(refs@),
                    self.outcome,
                ),
            },
    {
        match result {
            Err(error) => Step::EndInteraction(Ending { result: Err(Error::ListRefs(error)) }),
            Ok(remote_refs) => Step::EndInteraction(
                Ending {
                    result: RefMap::from_refs(
                        &self.fetch_specs,
                        self.extra_refspecs,
                        remote_refs,
                        self.outcome,
                    ),
                },
            ),
        }
    }
}

impl Ending {
    /// Takes what came of telling the server that the interaction has ended,
    /// and gives the result of the whole. A failure to tell the server changes
    /// nothing of it.
    pub fn ended(self, notified: Result<(), TransportError>) -> (made: Result<RefMap, Error>)
        ensures
            made == self.result,
    {
        self.result
    }
}

} // verus!
