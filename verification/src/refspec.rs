//! Fetch refspecs. A refspec is held as the text it was written as; parsing,
//! prefix expansion and matching are the work of the `gix-refspec` crate.

use crate::byte_str;
use crate::byte_str::contents;
use crate::refs::ObjectId;
use gix_refspec::instruction::Fetch;
use gix_refspec::match_group::Item as MatchItem;
use gix_refspec::match_group::validate;
use gix_refspec::match_group::SourceRef;
use gix_refspec::parse;
use gix_refspec::parse::Operation;
use gix_refspec::MatchGroup;
use vstd::prelude::*;

verus! {

/// What a fetch refspec asks for.
#[derive(Debug, PartialEq, Eq)]
pub enum Instruction {
    /// Fetch `src` without updating anything locally.
    Only { src: Vec<u8> },
    /// Leave out what `src` matches.
    Exclude { src: Vec<u8> },
    /// Fetch `src` and update `dst` with it.
    AndUpdate { src: Vec<u8>, dst: Vec<u8>, allow_non_fast_forward: bool },
}

/// What an `Instruction` holds.
pub enum InstructionView {
    Only { src: Seq<u8> },
    Exclude { src: Seq<u8> },
    AndUpdate { src: Seq<u8>, dst: Seq<u8>, allow_non_fast_forward: bool },
}

impl View for Instruction {
    type V = InstructionView;

    open spec fn view(&self) -> InstructionView {
        match *self {
            Instruction::Only { src } => InstructionView::Only { src: src@ },
            Instruction::Exclude { src } => InstructionView::Exclude { src: src@ },
            Instruction::AndUpdate { src, dst, allow_non_fast_forward } => InstructionView::AndUpdate {
                src: src@,
                dst: dst@,
                allow_non_fast_forward,
            },
        }
    }
}

/// A remote reference as the matcher sees it: its full name and the object it
/// points to.
#[derive(Debug, PartialEq, Eq)]
pub struct Item {
    pub full_ref_name: Vec<u8>,
    pub target: ObjectId,
}

/// What an `Item` holds.
pub struct ItemView {
    pub full_ref_name: Seq<u8>,
    pub target: Seq<u8>,
}

impl View for Item {
    type V = ItemView;

    open spec fn view(&self) -> ItemView {
        ItemView { full_ref_name: self.full_ref_name@, target: self.target@ }
    }
}

/// One match of a refspec.
#[derive(Debug, PartialEq, Eq)]
pub struct Row {
    /// The index of the matched item, unless the refspec named an object by its hash.
    pub item_index: Option<usize>,
    /// The object that the refspec named by its hash.
    pub object: Option<ObjectId>,
    /// The local reference to update, if the refspec has a destination.
    pub rhs: Option<Vec<u8>>,
    /// The index of the refspec that matched.
    pub spec_index: usize,
}

/// What a `Row` holds.
pub struct RowView {
    pub item_index: Option<usize>,
    pub object: Option<Seq<u8>>,
    pub rhs: Option<Seq<u8>>,
    pub spec_index: usize,
}

impl View for Row {
    type V = RowView;

    open spec fn view(&self) -> RowView {
        RowView {
            item_index: self.item_index,
            object: match self.object {
                Some(id) => Some(id@),
                None => None,
            },
            rhs: match self.rhs {
                Some(name) => Some(name@),
                None => None,
            },
            spec_index: self.spec_index,
        }
    }
}

impl Row {
    /// A row of these parts.
    pub fn new(
        item_index: Option<usize>,
        object: Option<ObjectId>,
        rhs: Option<Vec<u8>>,
        spec_index: usize,
    ) -> (row: Row)
        ensures
            row == (Row { item_index, object, rhs, spec_index }),
    {
        Row { item_index, object, rhs, spec_index }
    }
}

/// What each item of a list holds.
pub open spec fn item_views(items: Seq<Item>) -> Seq<ItemView> {
    items.map_values(|i: Item| i@)
}

/// What each row of a list holds.
pub open spec fn row_views(rows: Seq<Row>) -> Seq<RowView> {
    rows.map_values(|r: Row| r@)
}

/// A row refers to one of `items` items, or else names an object.
pub open spec fn row_resolves(row: RowView, items: nat) -> bool {
    match row.item_index {
        Some(index) => index < items,
        None => row.object is Some,
    }
}

/// A row refers to one of `items` items, or else names an object, and it
/// refers to one of `specs` refspecs.
pub open spec fn row_in_range(row: RowView, specs: nat, items: nat) -> bool {
    row.spec_index < specs && row_resolves(row, items)
}

/// A correction that validation applied to the matches.
#[derive(Debug, PartialEq, Eq)]
pub enum Fix {
    /// A match was dropped because its destination `name` is no full
    /// reference name. `spec` is the refspec that matched, as `gix-refspec`
    /// writes it.
    MappingWithPartialDestinationRemoved { name: Vec<u8>, spec: Vec<u8> },
}

/// What a `Fix` holds.
pub enum FixView {
    MappingWithPartialDestinationRemoved { name: Seq<u8>, spec: Seq<u8> },
}

impl View for Fix {
    type V = FixView;

    open spec fn view(&self) -> FixView {
        match *self {
            Fix::MappingWithPartialDestinationRemoved { name, spec } => FixView::MappingWithPartialDestinationRemoved {
                name: name@,
                spec: spec@,
            },
        }
    }
}

impl Fix {
    /// The correction that dropped the match of `spec` with the destination `name`.
    pub fn removed(name: Vec<u8>, spec: Vec<u8>) -> (fix: Fix)
        ensures
            fix == (Fix::MappingWithPartialDestinationRemoved { name, spec }),
    {
        Fix::MappingWithPartialDestinationRemoved { name, spec }
    }
}

/// What each correction of a list holds.
pub open spec fn fix_views(fixes: Seq<Fix>) -> Seq<FixView> {
    fixes.map_values(|f: Fix| f@)
}

/// The instruction that `gix_refspec::parse` reads from `text` as a fetch
/// refspec, or `None` where it refuses the text.
pub uninterp spec fn parsed(text: Seq<u8>) -> Option<InstructionView>;

/// The reference prefixes that `RefSpecRef::expand_prefixes` derives from the
/// fetch refspec `text`; none where the text is no refspec.
pub uninterp spec fn expanded_prefixes(text: Seq<u8>) -> Seq<Seq<u8>>;

/// The matches of `items` against the fetch refspecs `specs` that remain after
/// validation, in the order `gix-refspec` reports them. `None` where
/// validation finds a conflict, or where a refspec names an object by a digest
/// that is not SHA-1.
pub uninterp spec fn validated_matches(specs: Seq<Seq<u8>>, items: Seq<ItemView>) -> Option<
    Seq<RowView>,
>;

/// The corrections that validation applies to the matches of `items` against
/// the fetch refspecs `specs`, in the order `gix-refspec` reports them. `None`
/// where validation finds a conflict.
pub uninterp spec fn validated_fixes(specs: Seq<Seq<u8>>, items: Seq<ItemView>) -> Option<
    Seq<FixView>,
>;

/// Calls `gix_refspec::parse` for a fetch refspec and reads the instruction of
/// what it returns with `RefSpecRef::instruction`. The result is the one that
/// `parsed` names; a push instruction never comes from a fetch refspec.
#[verifier::external_body]
fn parse_instruction(text: &[u8]) -> (instruction: Option<Instruction>)
    ensures
        match instruction {
            Some(i) => parsed(text@) == Some(i@),
            None => parsed(text@) is None,
        },
{
    Some(match gix_refspec::parse(text.into(), Operation::Fetch).ok()?.instruction() {
        gix_refspec::Instruction::Fetch(Fetch::Only { src }) => Instruction::Only { src: src.to_vec() },
        gix_refspec::Instruction::Fetch(Fetch::Exclude { src }) => Instruction::Exclude { src: src.to_vec() },
        gix_refspec::Instruction::Fetch(Fetch::AndUpdate { src, dst, allow_non_fast_forward }) => {
            Instruction::AndUpdate { src: src.to_vec(), dst: dst.to_vec(), allow_non_fast_forward }
        },
        gix_refspec::Instruction::Push(_) => return None,
    })
}

/// Turns `text` into a refspec with `gix_refspec::parse` and calls
/// `RefSpecRef::expand_prefixes` on it. The result is the one that
/// `expanded_prefixes` names; a text that is no refspec has no prefixes.
#[verifier::external_body]
fn expand_prefixes(text: &[u8]) -> (prefixes: Vec<Vec<u8>>)
    ensures
        contents(prefixes@) == expanded_prefixes(text@),
{
    let mut out = Vec::new();
    if let Ok(spec) = gix_refspec::parse(text.into(), Operation::Fetch) {
        spec.expand_prefixes(&mut out);
    }
    out.into_iter().map(Vec::from).collect()
}

/// Turns `specs` into refspecs with `gix_refspec::parse`, matches `items`
/// against them with `MatchGroup::from_fetch_specs` and `MatchGroup::match_lhs`,
/// each item shown by its name and its target and without a peeled object, and
/// validates the matches with `Outcome::validated`. The rows are those that
/// `validated_matches` names: the crate computes them from the refspecs and
/// the items alone. Each row carries the index of one of the items, or else
/// the object id that its refspec spelled out, and the index of one of the
/// refspecs. There are no rows where validation finds a conflict, nor where
/// an object id is of another digest than SHA-1.
#[verifier::external_body]
fn validated_rows(specs: &Vec<Vec<u8>>, items: &Vec<Item>) -> (found: Option<Vec<Row>>)
    requires
        forall|i: int| 0 <= i < specs.len() ==> parsed(#[trigger] specs[i]@) is Some,
    ensures
        match found {
            Some(rows) => {
                &&& validated_matches(contents(specs@), item_views(items@)) == Some(row_views(rows@))
                &&& forall|k: int|
                    0 <= k < rows.len() ==> row_in_range(
                        #[trigger] rows[k]@,
                        specs.len() as nat,
                        items.len() as nat,
                    )
            },
            None => validated_matches(contents(specs@), item_views(items@)) is None,
        },
{
    MatchGroup::from_fetch_specs(specs.iter().map(|s| parse(s[..].into(), Operation::Fetch).unwrap()))
        .match_lhs(items.iter().map(|i| MatchItem { full_ref_name: i.full_ref_name[..].into(), target: (&i.target.0).into(), object: None }))
        .validated().ok()?.0.mappings.into_iter().map(|m| Some(Row::new(
            m.item_index,
            match m.lhs {
                SourceRef::ObjectId(gix_hash::ObjectId::Sha1(id)) => Some(ObjectId(id)),
                SourceRef::ObjectId(_) => return None,
                SourceRef::FullName(_) => None
            },
            m.rhs.map(|d| d.to_vec()),
            m.spec_index
        ))).collect()
}

/// Matches and validates as `validated_rows` does, with `gix_refspec::parse`,
/// `MatchGroup::from_fetch_specs`, `MatchGroup::match_lhs` and
/// `Outcome::validated`, and gives the corrections that validation made: for
/// each, the destination that was dropped and the refspec that matched, written
/// with `RefSpecRef::to_bstring`. They are those that `validated_fixes` names.
/// Where validation finds a conflict there are no corrections and no rows, and
/// the conflict is told in the words of `gix-refspec`.
#[verifier::external_body]
fn validated_corrections(specs: &Vec<Vec<u8>>, items: &Vec<Item>) -> (fixes: Result<Vec<Fix>, String>)
    requires
        forall|i: int| 0 <= i < specs.len() ==> parsed(#[trigger] specs[i]@) is Some,
    ensures
        match fixes {
            Ok(list) => validated_fixes(contents(specs@), item_views(items@)) == Some(
                fix_views(list@),
            ),
            Err(_) => {
                &&& validated_fixes(contents(specs@), item_views(items@)) is None
                &&& validated_matches(contents(specs@), item_views(items@)) is None
            },
        },
{
    match MatchGroup::from_fetch_specs(specs.iter().map(|s| parse(s[..].into(), Operation::Fetch).unwrap()))
        .match_lhs(items.iter().map(|i| MatchItem { full_ref_name: i.full_ref_name[..].into(), target: (&i.target.0).into(), object: None }))
        .validated()
    {
        Ok((_, fixes)) => Ok(fixes.into_iter().map(|validate::Fix::MappingWithPartialDestinationRemoved { name, spec }| {
            Fix::removed(name.into(), spec.to_ref().to_bstring().into())
        }).collect()),
        Err(conflicts) => Err(conflicts.to_string()),
    }
}

/// The text of each refspec of a list.
pub open spec fn texts(specs: Seq<RefSpec>) -> Seq<Seq<u8>> {
    specs.map_values(|s: RefSpec| s@)
}

impl Instruction {
    /// Whether two instructions ask for the same.
    pub fn same(&self, other: &Instruction) -> (same: bool)
        ensures
            same == (self@ == other@),
    {
        match (self, other) {
            (Instruction::Only { src: a }, Instruction::Only { src: b }) => byte_str::equal(
                a.as_slice(),
                b.as_slice(),
            ),
            (Instruction::Exclude { src: a }, Instruction::Exclude { src: b }) => byte_str::equal(
                a.as_slice(),
                b.as_slice(),
            ),
            (
                Instruction::AndUpdate { src: a, dst: c, allow_non_fast_forward: f },
                Instruction::AndUpdate { src: b, dst: d, allow_non_fast_forward: g },
            ) => byte_str::equal(a.as_slice(), b.as_slice()) && byte_str::equal(
                c.as_slice(),
                d.as_slice(),
            ) && *f == *g,
            _ => false,
        }
    }
}

impl Clone for Instruction {
    fn clone(&self) -> (copy: Instruction)
        ensures
            copy@ == self@,
    {
        match self {
            Instruction::Only { src } => Instruction::Only { src: byte_str::copy(src.as_slice()) },
            Instruction::Exclude { src } => Instruction::Exclude {
                src: byte_str::copy(src.as_slice()),
            },
            Instruction::AndUpdate { src, dst, allow_non_fast_forward } => Instruction::AndUpdate {
                src: byte_str::copy(src.as_slice()),
                dst: byte_str::copy(dst.as_slice()),
                allow_non_fast_forward: *allow_non_fast_forward,
            },
        }
    }
}

/// A fetch refspec: a text that parses as one.
#[derive(Debug)]
pub struct RefSpec {
    text: Vec<u8>,
    instruction: Instruction,
}

impl View for RefSpec {
    type V = Seq<u8>;

    closed spec fn view(&self) -> Seq<u8> {
        self.text@
    }
}

impl RefSpec {
    #[verifier::type_invariant]
    spec fn parses(self) -> bool {
        parsed(self.text@) == Some(self.instruction@)
    }

    /// Reads `text` as a fetch refspec. `None` where it is none.
    pub fn parse(text: &[u8]) -> (spec: Option<RefSpec>)
        ensures
            match spec {
                Some(s) => s@ == text@ && parsed(text@) is Some,
                None => parsed(text@) is None,
            },
    {
        match parse_instruction(text) {
            Some(instruction) => Some(RefSpec { text: byte_str::copy(text), instruction }),
            None => None,
        }
    }

    /// The text of the refspec.
    pub fn text(&self) -> (text: &Vec<u8>)
        ensures
            text@ == self@,
    {
        &self.text
    }

    /// What the refspec asks for.
    pub fn instruction(&self) -> (instruction: &Instruction)
        ensures
            parsed(self@) == Some(instruction@),
    {
        proof {
            use_type_invariant(self);
        }
        &self.instruction
    }

    /// Whether two refspecs ask for the same, however they are written.
    pub fn same_instruction(&self, other: &RefSpec) -> (same: bool)
        ensures
            same == (parsed(self@) == parsed(other@)),
    {
        self.instruction().same(other.instruction())
    }

    /// The prefixes of reference names that the refspec can match, for a
    /// remote to filter its advertisement by.
    pub fn prefixes(&self) -> (prefixes: Vec<Vec<u8>>)
        ensures
            contents(prefixes@) == expanded_prefixes(self@),
    {
        expand_prefixes(self.text.as_slice())
    }
}

impl Clone for RefSpec {
    fn clone(&self) -> (copy: RefSpec)
        ensures
            copy@ == self@,
    {
        proof {
            use_type_invariant(self);
        }
        RefSpec { text: byte_str::copy(self.text.as_slice()), instruction: self.instruction.clone() }
    }
}

/// Matches `items` against `specs` and validates the matches: whether two
/// sources would write one destination, which is a conflict, and whether a
/// destination is a full reference name, without which the match is dropped
/// and a correction noted.
pub fn match_refs(specs: &Vec<RefSpec>, items: &Vec<Item>) -> (found: Result<
    (Vec<Row>, Vec<Fix>),
    String,
>)
    ensures
        match found {
            Ok((rows, fixes)) => {
                &&& validated_matches(texts(specs@), item_views(items@)) == Some(row_views(rows@))
                &&& forall|k: int|
                    0 <= k < rows.len() ==> row_in_range(
                        #[trigger] rows[k]@,
                        specs.len() as nat,
                        items.len() as nat,
                    )
                &&& validated_fixes(texts(specs@), item_views(items@)) == Some(fix_views(fixes@))
            },
            Err(_) => validated_matches(texts(specs@), item_views(items@)) is None,
        },
{
    let mut plain: Vec<Vec<u8>> = Vec::new();
    let mut i: usize = 0;
    while i < specs.len()
        invariant
            i <= specs.len(),
            plain.len() == i,
            forall|j: int| 0 <= j < i ==> #[trigger] plain[j]@ == specs[j]@,
            forall|j: int| 0 <= j < i ==> parsed(#[trigger] plain[j]@) is Some,
        decreases specs.len() - i,
    {
        let spec = &specs[i];
        proof {
            use_type_invariant(spec);
        }
        plain.push(byte_str::copy(spec.text.as_slice()));
        i += 1;
    }
    assert(contents(plain@) =~= texts(specs@));
    let corrections = validated_corrections(&plain, items);
    match validated_rows(&plain, items) {
        Some(rows) => match corrections {
            Ok(fixes) => Ok((rows, fixes)),
            Err(conflicts) => Err(conflicts),
        },
        None => match corrections {
            Ok(_) => Err("A refspec names an object by a digest that is not SHA-1".to_owned()),
            Err(conflicts) => Err(conflicts),
        },
    }
}

} // verus!
