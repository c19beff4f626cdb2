//! The capabilities a server advertises: names with optional values, kept in
//! the order of their names. A name may be advertised more than once; the
//! entries of one name stay in the order in which they came.

use crate::byte_str;
use crate::byte_str::{contents, lex_le, lex_lt, position, split};
use vstd::prelude::*;
use vstd::string::StringSliceAdditionalSpecFns;

verus! {

/// One advertised capability.
#[derive(Debug, PartialEq, Eq)]
pub struct Capability {
    pub name: Vec<u8>,
    pub value: Option<Vec<u8>>,
}

/// What a `Capability` holds.
pub struct CapabilityView {
    pub name: Seq<u8>,
    pub value: Option<Seq<u8>>,
}

impl View for Capability {
    type V = CapabilityView;

    open spec fn view(&self) -> CapabilityView {
        CapabilityView {
            name: self.name@,
            value: match self.value {
                Some(v) => Some(v@),
                None => None,
            },
        }
    }
}

impl Clone for Capability {
    fn clone(&self) -> (copy: Capability)
        ensures
            copy@ == self@,
    {
        Capability {
            name: byte_str::copy(self.name.as_slice()),
            value: match &self.value {
                Some(v) => Some(byte_str::copy(v.as_slice())),
                None => None,
            },
        }
    }
}

/// What each capability of a list holds.
pub open spec fn capability_views(list: Seq<Capability>) -> Seq<CapabilityView> {
    list.map_values(|c: Capability| c@)
}

/// No entry stands before one with a smaller name.
pub open spec fn sorted_by_name(entries: Seq<CapabilityView>) -> bool {
    forall|i: int, j: int|
        0 <= i < j < entries.len() ==> lex_le((#[trigger] entries[i]).name, (#[trigger] entries[j]).name)
}

/// The values of the entries called `name`, in their order. An entry without a
/// value contributes `None`.
pub open spec fn values_named(entries: Seq<CapabilityView>, name: Seq<u8>) -> Seq<Option<Seq<u8>>>
    decreases entries.len(),
{
    if entries.len() == 0 {
        Seq::empty()
    } else {
        let before = values_named(entries.drop_last(), name);
        if entries.last().name == name {
            before.push(entries.last().value)
        } else {
            before
        }
    }
}

/// Whether one of `values` is present.
pub open spec fn any_present(values: Seq<Option<Seq<u8>>>) -> bool {
    exists|i: int| 0 <= i < values.len() && (#[trigger] values[i]) is Some
}

/// The items of the present values, each value being a list of items with one
/// space between neighbours.
pub open spec fn listed_items(values: Seq<Option<Seq<u8>>>) -> Seq<Seq<u8>>
    decreases values.len(),
{
    if values.len() == 0 {
        Seq::empty()
    } else {
        let before = listed_items(values.drop_last());
        match values.last() {
            Some(v) => before + split(v, 0x20),
            None => before,
        }
    }
}

/// What a lookup of multi-item values gives: nothing where no entry of the
/// name has a value, else the items of all of them.
pub open spec fn items_of(values: Seq<Option<Seq<u8>>>) -> Option<Seq<Seq<u8>>> {
    if any_present(values) {
        Some(listed_items(values))
    } else {
        None
    }
}

/// `after` has the one value `value` under `name`, and under every other name
/// what `before` has.
pub open spec fn replaced(
    before: Seq<CapabilityView>,
    after: Seq<CapabilityView>,
    name: Seq<u8>,
    value: Option<Seq<u8>>,
) -> bool {
    forall|other: Seq<u8>| #[trigger]
        values_named(after, other) == if other == name {
            seq![value]
        } else {
            values_named(before, other)
        }
}

/// `entries` are ordered by name and hold, under every name, the values that
/// `advertised` has under it, in the same order.
pub open spec fn holds(entries: Seq<CapabilityView>, advertised: Seq<CapabilityView>) -> bool {
    &&& entries.len() == advertised.len()
    &&& sorted_by_name(entries)
    &&& forall|name: Seq<u8>| #[trigger]
        values_named(entries, name) == values_named(advertised, name)
}

/// The capability that a token `name` or `name=value` stands for. The name
/// ends at the first `=`.
pub open spec fn token_capability(token: Seq<u8>) -> CapabilityView {
    let at = position(token, 0x3d);
    if at < token.len() {
        CapabilityView {
            name: token.subrange(0, at),
            value: Some(token.subrange(at + 1, token.len() as int)),
        }
    } else {
        CapabilityView { name: token, value: None }
    }
}

/// The capabilities that a list of tokens stands for, in the order of the tokens.
pub open spec fn token_capabilities(tokens: Seq<Seq<u8>>) -> Seq<CapabilityView> {
    tokens.map_values(|t: Seq<u8>| token_capability(t))
}

/// The values called `name` of a list are those of its front followed by those
/// of its back.
pub proof fn values_named_concat(a: Seq<CapabilityView>, b: Seq<CapabilityView>, name: Seq<u8>)
    ensures
        values_named(a + b, name) == values_named(a, name) + values_named(b, name),
    decreases b.len(),
{
    if b.len() == 0 {
        assert(a + b =~= a);
        assert(values_named(a, name) + values_named(b, name) =~= values_named(a, name));
    } else {
        assert((a + b).drop_last() =~= a + b.drop_last());
        values_named_concat(a, b.drop_last(), name);
        if b.last().name == name {
            assert(values_named(a + b, name) =~= values_named(a, name) + values_named(b, name));
        }
    }
}

/// A list without an entry called `name` has no value of that name.
pub proof fn values_named_absent(entries: Seq<CapabilityView>, name: Seq<u8>)
    requires
        forall|i: int| 0 <= i < entries.len() ==> (#[trigger] entries[i]).name != name,
    ensures
        values_named(entries, name) == Seq::<Option<Seq<u8>>>::empty(),
    decreases entries.len(),
{
    if entries.len() > 0 {
        values_named_absent(entries.drop_last(), name);
    }
}

/// A name has a value in a list exactly if an entry of the list carries it.
pub proof fn values_named_present(entries: Seq<CapabilityView>, name: Seq<u8>)
    ensures
        values_named(entries, name).len() > 0 <==> exists|i: int|
            0 <= i < entries.len() && (#[trigger] entries[i]).name == name,
    decreases entries.len(),
{
    if entries.len() > 0 {
        let front = entries.drop_last();
        values_named_present(front, name);
        if exists|i: int| 0 <= i < front.len() && (#[trigger] front[i]).name == name {
            let i = choose|i: int| 0 <= i < front.len() && (#[trigger] front[i]).name == name;
            assert(entries[i].name == name);
        }
        if exists|i: int| 0 <= i < entries.len() && (#[trigger] entries[i]).name == name {
            let i = choose|i: int| 0 <= i < entries.len() && (#[trigger] entries[i]).name == name;
            if i < front.len() {
                assert(front[i].name == name);
            }
        }
    }
}

/// Two lists that are ordered by name and hold the same values under every
/// name are one and the same list.
pub proof fn values_determine_entries(a: Seq<CapabilityView>, b: Seq<CapabilityView>)
    requires
        a.len() == b.len(),
        sorted_by_name(a),
        sorted_by_name(b),
        forall|name: Seq<u8>| #[trigger] values_named(a, name) == values_named(b, name),
    ensures
        a == b,
    decreases a.len(),
{
    if a.len() == 0 {
        assert(a =~= b);
    } else {
        let x = a.last();
        let y = b.last();
        let front = a.drop_last();
        let back = b.drop_last();
        assert(x.name == y.name) by {
            values_named_present(a, y.name);
            values_named_present(b, x.name);
            assert(b[b.len() - 1].name == y.name);
            assert(a[a.len() - 1].name == x.name);
            assert(values_named(a, y.name) == values_named(b, y.name));
            assert(values_named(a, x.name) == values_named(b, x.name));
            let i = choose|i: int| 0 <= i < a.len() && (#[trigger] a[i]).name == y.name;
            let j = choose|j: int| 0 <= j < b.len() && (#[trigger] b[j]).name == x.name;
            if i < a.len() - 1 {
                assert(lex_le(a[i].name, a[a.len() - 1].name));
            }
            if j < b.len() - 1 {
                assert(lex_le(b[j].name, b[b.len() - 1].name));
            }
            byte_str::lex_lt_total(x.name, y.name);
        }
        assert(values_named(a, x.name) == values_named(b, x.name));
        assert(values_named(front, x.name).push(x.value).drop_last() =~= values_named(
            front,
            x.name,
        ));
        assert(values_named(back, x.name).push(y.value).drop_last() =~= values_named(back, x.name));
        assert(values_named(front, x.name).push(x.value).last() == x.value);
        assert(values_named(back, x.name).push(y.value).last() == y.value);
        assert(x == y);
        assert forall|name: Seq<u8>| #[trigger]
            values_named(front, name) == values_named(back, name) by {
            assert(values_named(a, name) == values_named(b, name));
        }
        assert forall|i: int, j: int| 0 <= i < j < front.len() implies lex_le(
            (#[trigger] front[i]).name,
            (#[trigger] front[j]).name,
        ) by {
            assert(lex_le(a[i].name, a[j].name));
        }
        assert forall|i: int, j: int| 0 <= i < j < back.len() implies lex_le(
            (#[trigger] back[i]).name,
            (#[trigger] back[j]).name,
        ) by {
            assert(lex_le(b[i].name, b[j].name));
        }
        values_determine_entries(front, back);
        assert(a =~= front.push(x));
        assert(b =~= back.push(y));
    }
}

/// What is advertised is held in one way only.
pub proof fn holds_one_list(
    first: Seq<CapabilityView>,
    second: Seq<CapabilityView>,
    advertised: Seq<CapabilityView>,
)
    requires
        holds(first, advertised),
        holds(second, advertised),
    ensures
        first == second,
{
    assert forall|name: Seq<u8>| #[trigger]
        values_named(first, name) == values_named(second, name) by {
        assert(values_named(first, name) == values_named(advertised, name));
        assert(values_named(second, name) == values_named(advertised, name));
    }
    values_determine_entries(first, second);
}

/// Stamping a name twice leaves the one entry of the second stamp, and every
/// other name as it was before the first.
pub proof fn replaced_twice(
    first: Seq<CapabilityView>,
    second: Seq<CapabilityView>,
    third: Seq<CapabilityView>,
    name: Seq<u8>,
    earlier: Option<Seq<u8>>,
    later: Option<Seq<u8>>,
)
    requires
        replaced(first, second, name, earlier),
        replaced(second, third, name, later),
    ensures
        replaced(first, third, name, later),
        values_named(third, name) == seq![later],
{
    assert forall|other: Seq<u8>| #[trigger]
        values_named(third, other) == if other == name {
            seq![later]
        } else {
            values_named(first, other)
        } by {
        assert(values_named(second, other) == if other == name {
            seq![earlier]
        } else {
            values_named(first, other)
        });
    }
    assert(values_named(third, name) == if name == name {
        seq![later]
    } else {
        values_named(first, name)
    });
}

/// A name that was given one value without a space has exactly that one item.
pub proof fn replaced_by_one_item(
    before: Seq<CapabilityView>,
    after: Seq<CapabilityView>,
    name: Seq<u8>,
    value: Seq<u8>,
)
    requires
        replaced(before, after, name, Some(value)),
        !value.contains(0x20),
    ensures
        items_of(values_named(after, name)) == Some(seq![value]),
{
    let values = seq![Some(value)];
    assert(values_named(after, name) == if name == name {
        values
    } else {
        values_named(before, name)
    });
    assert(values[0] is Some);
    assert(values.drop_last() =~= Seq::<Option<Seq<u8>>>::empty());
    assert(listed_items(Seq::<Option<Seq<u8>>>::empty()) =~= Seq::<Seq<u8>>::empty());
    byte_str::split_without_separator(value, 0x20);
    assert(listed_items(values) =~= seq![value]);
}

/// Where to put an entry called `name` so that it follows every entry whose
/// name is not greater.
fn upper_bound(list: &Vec<Capability>, name: &[u8]) -> (at: usize)
    requires
        sorted_by_name(capability_views(list@)),
    ensures
        at <= list.len(),
        forall|j: int| 0 <= j < at ==> lex_le((#[trigger] capability_views(list@)[j]).name, name@),
        forall|j: int|
            at <= j < list.len() ==> lex_lt(name@, (#[trigger] capability_views(list@)[j]).name),
{
    let ghost entries = capability_views(list@);
    let mut i: usize = 0;
    while i < list.len()
        invariant
            i <= list.len(),
            entries == capability_views(list@),
            sorted_by_name(entries),
            forall|j: int| 0 <= j < i ==> lex_le((#[trigger] entries[j]).name, name@),
        decreases list.len() - i,
    {
        if byte_str::less(name, list[i].name.as_slice()) {
            proof {
                assert(entries[i as int].name == list[i as int].name@);
                assert forall|j: int| i <= j < list.len() implies lex_lt(
                    name@,
                    (#[trigger] entries[j]).name,
                ) by {
                    if j > i {
                        assert(lex_le(entries[i as int].name, entries[j].name));
                        if entries[i as int].name != entries[j].name {
                            byte_str::lex_lt_transitive(name@, entries[i as int].name, entries[j].name);
                        }
                    }
                }
            }
            return i;
        }
        proof {
            assert(entries[i as int].name == list[i as int].name@);
            byte_str::lex_lt_total(name@, entries[i as int].name);
        }
        i += 1;
    }
    i
}

/// Puts `entry` behind the entries whose name is not greater than its own.
fn insert_entry(list: &mut Vec<Capability>, entry: Capability)
    requires
        sorted_by_name(capability_views(old(list)@)),
    ensures
        sorted_by_name(capability_views(final(list)@)),
        final(list).len() == old(list).len() + 1,
        forall|name: Seq<u8>| #[trigger]
            values_named(capability_views(final(list)@), name) == if name == entry@.name {
                values_named(capability_views(old(list)@), name).push(entry@.value)
            } else {
                values_named(capability_views(old(list)@), name)
            },
{
    let at = upper_bound(list, entry.name.as_slice());
    let ghost before = capability_views(list@);
    let ghost added = entry@;
    list.insert(at, entry);
    proof {
        let after = capability_views(list@);
        let front = before.subrange(0, at as int);
        let back = before.subrange(at as int, before.len() as int);
        assert(after =~= front + seq![added] + back);
        assert(before =~= front + back);
        assert forall|i: int, j: int| 0 <= i < j < after.len() implies lex_le(
            (#[trigger] after[i]).name,
            (#[trigger] after[j]).name,
        ) by {
            if j < at {
                assert(lex_le(before[i].name, before[j].name));
            } else if j == at {
                assert(lex_le(before[i].name, added.name));
            } else if i == at {
                assert(lex_lt(added.name, before[j - 1].name));
            } else if i < at {
                assert(lex_le(before[i].name, added.name));
                assert(lex_lt(added.name, before[j - 1].name));
                if before[i].name != added.name {
                    byte_str::lex_lt_transitive(before[i].name, added.name, before[j - 1].name);
                }
            } else {
                assert(lex_le(before[i - 1].name, before[j - 1].name));
            }
        }
        assert forall|name: Seq<u8>| #[trigger]
            values_named(after, name) == if name == added.name {
                values_named(before, name).push(added.value)
            } else {
                values_named(before, name)
            } by {
            values_named_concat(front + seq![added], back, name);
            values_named_concat(front, seq![added], name);
            values_named_concat(front, back, name);
            assert(seq![added].drop_last() =~= Seq::<CapabilityView>::empty());
            assert(values_named(Seq::<CapabilityView>::empty(), name) =~= Seq::<
                Option<Seq<u8>>,
            >::empty());
            if name == added.name {
                assert forall|j: int| 0 <= j < back.len() implies (#[trigger] back[j]).name
                    != name by {
                    assert(lex_lt(added.name, before[at + j].name));
                    byte_str::lex_lt_irreflexive(name);
                }
                values_named_absent(back, name);
                assert(values_named(seq![added], name) =~= seq![added.value]);
                assert(values_named(after, name) =~= values_named(before, name).push(added.value));
            } else {
                assert(values_named(seq![added], name) =~= Seq::<Option<Seq<u8>>>::empty());
                assert(values_named(after, name) =~= values_named(before, name));
            }
        }
    }
}

/// A copy of `list` without the entries called `name`.
fn without(list: &Vec<Capability>, name: &[u8]) -> (kept: Vec<Capability>)
    requires
        sorted_by_name(capability_views(list@)),
    ensures
        sorted_by_name(capability_views(kept@)),
        kept.len() <= list.len(),
        forall|other: Seq<u8>| #[trigger]
            values_named(capability_views(kept@), other) == if other == name@ {
                Seq::<Option<Seq<u8>>>::empty()
            } else {
                values_named(capability_views(list@), other)
            },
{
    let ghost entries = capability_views(list@);
    let mut kept: Vec<Capability> = Vec::new();
    let mut i: usize = 0;
    proof {
        assert(entries.take(0) =~= Seq::<CapabilityView>::empty());
    }
    while i < list.len()
        invariant
            i <= list.len(),
            entries == capability_views(list@),
            sorted_by_name(entries),
            sorted_by_name(capability_views(kept@)),
            kept.len() <= i,
            forall|a: int, j: int|
                0 <= a < kept.len() && i <= j < list.len() ==> lex_le(
                    (#[trigger] capability_views(kept@)[a]).name,
                    (#[trigger] entries[j]).name,
                ),
            forall|other: Seq<u8>| #[trigger]
                values_named(capability_views(kept@), other) == if other == name@ {
                    Seq::<Option<Seq<u8>>>::empty()
                } else {
                    values_named(entries.take(i as int), other)
                },
        decreases list.len() - i,
    {
        let ghost had = capability_views(kept@);
        proof {
            assert(entries.take(i + 1).drop_last() =~= entries.take(i as int));
            assert(entries[i as int].name == list[i as int].name@);
        }
        if !byte_str::equal(list[i].name.as_slice(), name) {
            kept.push(list[i].clone());
            proof {
                let has = capability_views(kept@);
                assert(has =~= had.push(entries[i as int]));
                assert(has.drop_last() =~= had);
                assert forall|a: int, b: int| 0 <= a < b < has.len() implies lex_le(
                    (#[trigger] has[a]).name,
                    (#[trigger] has[b]).name,
                ) by {
                    if b < had.len() {
                        assert(lex_le(had[a].name, had[b].name));
                    } else {
                        assert(lex_le(had[a].name, entries[i as int].name));
                    }
                }
                assert forall|a: int, j: int|
                    0 <= a < has.len() && i + 1 <= j < list.len() implies lex_le(
                    (#[trigger] has[a]).name,
                    (#[trigger] entries[j]).name,
                ) by {
                    if a < had.len() {
                        assert(lex_le(had[a].name, entries[j].name));
                    } else {
                        assert(lex_le(entries[i as int].name, entries[j].name));
                    }
                }
                assert forall|other: Seq<u8>| #[trigger]
                    values_named(has, other) == if other == name@ {
                        Seq::<Option<Seq<u8>>>::empty()
                    } else {
                        values_named(entries.take(i + 1), other)
                    } by {
                    assert(values_named(had, other) == if other == name@ {
                        Seq::<Option<Seq<u8>>>::empty()
                    } else {
                        values_named(entries.take(i as int), other)
                    });
                }
            }
        } else {
            proof {
                assert forall|other: Seq<u8>| #[trigger]
                    values_named(had, other) == if other == name@ {
                        Seq::<Option<Seq<u8>>>::empty()
                    } else {
                        values_named(entries.take(i + 1), other)
                    } by {
                    assert(values_named(had, other) == if other == name@ {
                        Seq::<Option<Seq<u8>>>::empty()
                    } else {
                        values_named(entries.take(i as int), other)
                    });
                }
            }
        }
        i += 1;
    }
    proof {
        assert(entries.take(list.len() as int) =~= entries);
    }
    kept
}

/// The capabilities of a server.
#[derive(Debug, PartialEq, Eq)]
pub struct Capabilities {
    available: Vec<Capability>,
}

impl View for Capabilities {
    type V = Seq<CapabilityView>;

    closed spec fn view(&self) -> Seq<CapabilityView> {
        capability_views(self.available@)
    }
}

impl Capabilities {
    #[verifier::type_invariant]
    spec fn ordered(self) -> bool {
        sorted_by_name(capability_views(self.available@))
    }

    /// No capability at all.
    pub fn new() -> (none: Capabilities)
        ensures
            none@ == Seq::<CapabilityView>::empty(),
    {
        let none = Capabilities { available: Vec::new() };
        assert(none@ =~= Seq::<CapabilityView>::empty());
        none
    }

    /// The capabilities that `tokens` advertise, each token being `name` or
    /// `name=value`. A name that comes twice is kept twice.
    pub fn from_tokens(tokens: &Vec<Vec<u8>>) -> (all: Capabilities)
        ensures
            holds(all@, token_capabilities(contents(tokens@))),
    {
        let ghost parsed = token_capabilities(contents(tokens@));
        let mut list: Vec<Capability> = Vec::new();
        let mut i: usize = 0;
        proof {
            assert(parsed.take(0) =~= Seq::<CapabilityView>::empty());
        }
        while i < tokens.len()
            invariant
                i <= tokens.len(),
                parsed == token_capabilities(contents(tokens@)),
                list.len() == i,
                sorted_by_name(capability_views(list@)),
                forall|name: Seq<u8>| #[trigger]
                    values_named(capability_views(list@), name) == values_named(
                        parsed.take(i as int),
                        name,
                    ),
            decreases tokens.len() - i,
        {
            let token = tokens[i].as_slice();
            let entry = match byte_str::find(token, 0x3d) {
                Some(at) => Capability {
                    name: byte_str::copy_range(token, 0, at),
                    value: Some(byte_str::copy_range(token, at + 1, token.len())),
                },
                None => Capability { name: byte_str::copy(token), value: None },
            };
            proof {
                assert(parsed.take(i + 1).drop_last() =~= parsed.take(i as int));
                assert(parsed[i as int] == token_capability(tokens[i as int]@));
                assert(entry@ == parsed[i as int]);
            }
            insert_entry(&mut list, entry);
            i += 1;
        }
        proof {
            assert(parsed.take(tokens.len() as int) =~= parsed);
        }
        Capabilities { available: list }
    }

    /// How many capabilities there are.
    pub fn len(&self) -> (n: usize)
        ensures
            n == self@.len(),
    {
        self.available.len()
    }

    /// All capabilities, ordered by name.
    pub fn entries(&self) -> (list: Vec<Capability>)
        ensures
            capability_views(list@) == self@,
            sorted_by_name(self@),
    {
        proof {
            use_type_invariant(self);
        }
        let mut list: Vec<Capability> = Vec::new();
        let mut i: usize = 0;
        while i < self.available.len()
            invariant
                i <= self.available.len(),
                capability_views(list@) == self@.take(i as int),
            decreases self.available.len() - i,
        {
            let ghost had = capability_views(list@);
            list.push(self.available[i].clone());
            i += 1;
            proof {
                assert(capability_views(list@) =~= had.push(self.available[i - 1]@));
                assert(self@.take(i as int) =~= self@.take(i - 1).push(self@[i - 1]));
            }
        }
        assert(self@.take(self.available.len() as int) =~= self@);
        list
    }

    /// Adds a capability. Entries of the same name that are there already stay,
    /// and come before it.
    pub fn add(&mut self, name: Vec<u8>, value: Option<Vec<u8>>)
        ensures
            final(self)@.len() == old(self)@.len() + 1,
            forall|other: Seq<u8>| #[trigger]
                values_named(final(self)@, other) == if other == name@ {
                    values_named(old(self)@, other).push(
                        match value {
                            Some(v) => Some(v@),
                            None => None,
                        },
                    )
                } else {
                    values_named(old(self)@, other)
                },
    {
        let mut list = self.entries();
        insert_entry(&mut list, Capability { name, value });
        self.available = list;
    }

    /// Gives `name` the one value `value`, in place of every entry of that name.
    pub fn set(&mut self, name: Vec<u8>, value: Option<Vec<u8>>)
        ensures
            replaced(
                old(self)@,
                final(self)@,
                name@,
                match value {
                    Some(v) => Some(v@),
                    None => None,
                },
            ),
    {
        proof {
            use_type_invariant(&*self);
        }
        let mut list = without(&self.available, name.as_slice());
        insert_entry(&mut list, Capability { name, value });
        self.available = list;
    }

    /// Stamps the `agent` capability with the product and version that this
    /// client presents itself as. An earlier `agent` entry is replaced.
    pub fn set_agent_version(&mut self, agent: &[u8])
        ensures
            replaced(old(self)@, final(self)@, "agent".spec_bytes(), Some(agent@)),
    {
        self.set(byte_str::copy("agent".as_bytes()), Some(byte_str::copy(agent)));
    }

    /// Whether a capability called `name` is advertised.
    pub fn contains(&self, name: &[u8]) -> (found: bool)
        ensures
            found == (values_named(self@, name@).len() > 0),
    {
        let mut i: usize = 0;
        proof {
            assert(self@.take(0) =~= Seq::<CapabilityView>::empty());
        }
        while i < self.available.len()
            invariant
                i <= self.available.len(),
                values_named(self@.take(i as int), name@).len() == 0,
            decreases self.available.len() - i,
        {
            proof {
                assert(self@.take(i + 1).drop_last() =~= self@.take(i as int));
                assert(self@[i as int].name == self.available[i as int].name@);
            }
            if byte_str::equal(self.available[i].name.as_slice(), name) {
                proof {
                    values_named_present(self@, name@);
                }
                return true;
            }
            i += 1;
        }
        proof {
            assert(self@.take(self.available.len() as int) =~= self@);
        }
        false
    }

    /// The value of the first capability called `name`, if there is such a
    /// capability and it has a value.
    pub fn value_of(&self, name: &[u8]) -> (value: Option<Vec<u8>>)
        ensures
            match value {
                Some(v) => values_named(self@, name@).len() > 0 && values_named(self@, name@)[0]
                    == Some(v@),
                None => values_named(self@, name@).len() == 0 || values_named(self@, name@)[0]
                    is None,
            },
    {
        let mut i: usize = 0;
        proof {
            assert(self@.take(0) =~= Seq::<CapabilityView>::empty());
        }
        while i < self.available.len()
            invariant
                i <= self.available.len(),
                values_named(self@.take(i as int), name@).len() == 0,
            decreases self.available.len() - i,
        {
            proof {
                assert(self@.take(i + 1).drop_last() =~= self@.take(i as int));
                assert(self@[i as int].name == self.available[i as int].name@);
            }
            if byte_str::equal(self.available[i].name.as_slice(), name) {
                proof {
                    let front = self@.take(i + 1);
                    let back = self@.skip(i + 1);
                    assert(self@ =~= front + back);
                    values_named_concat(front, back, name@);
                    assert(values_named(front, name@) =~= seq![self@[i as int].value]);
                }
                return match &self.available[i].value {
                    Some(v) => Some(byte_str::copy(v.as_slice())),
                    None => None,
                };
            }
            i += 1;
        }
        proof {
            assert(self@.take(self.available.len() as int) =~= self@);
        }
        None
    }

    /// The items of the values of the capability called `name`, a value being
    /// a list of items with one space between neighbours. `None` where no
    /// capability of that name has a value.
    pub fn values_of(&self, name: &str) -> (items: Option<Vec<Vec<u8>>>)
        ensures
            match items {
                Some(list) => items_of(values_named(self@, name.spec_bytes())) == Some(
                    contents(list@),
                ),
                None => items_of(values_named(self@, name.spec_bytes())) is None,
            },
    {
        let wanted = name.as_bytes();
        let mut found = false;
        let mut items: Vec<Vec<u8>> = Vec::new();
        let mut i: usize = 0;
        proof {
            assert(self@.take(0) =~= Seq::<CapabilityView>::empty());
        }
        while i < self.available.len()
            invariant
                i <= self.available.len(),
                wanted@ == name.spec_bytes(),
                found == any_present(values_named(self@.take(i as int), wanted@)),
                contents(items@) == listed_items(values_named(self@.take(i as int), wanted@)),
            decreases self.available.len() - i,
        {
            let ghost before = values_named(self@.take(i as int), wanted@);
            proof {
                assert(self@.take(i + 1).drop_last() =~= self@.take(i as int));
                assert(self@[i as int] == self.available[i as int]@);
            }
            if byte_str::equal(self.available[i].name.as_slice(), wanted) {
                let ghost after = before.push(self@[i as int].value);
                proof {
                    assert(after.drop_last() =~= before);
                    if any_present(before) {
                        let k = choose|k: int| 0 <= k < before.len() && (#[trigger] before[k]) is Some;
                        assert(after[k] is Some);
                    }
                    if any_present(after) {
                        let k = choose|k: int| 0 <= k < after.len() && (#[trigger] after[k]) is Some;
                        if k < before.len() {
                            assert(before[k] is Some);
                        }
                    }
                }
                match &self.available[i].value {
                    Some(v) => {
                        let mut pieces = byte_str::split_on(v.as_slice(), 0x20);
                        let ghost had = contents(items@);
                        let ghost more = contents(pieces@);
                        items.append(&mut pieces);
                        found = true;
                        proof {
                            assert(contents(items@) =~= had + more);
                            assert(after[before.len() as int] is Some);
                        }
                    },
                    None => {},
                }
            }
            i += 1;
        }
        proof {
            assert(self@.take(self.available.len() as int) =~= self@);
        }
        if found {
            Some(items)
        } else {
            None
        }
    }
}

impl Clone for Capabilities {
    fn clone(&self) -> (copy: Capabilities)
        ensures
            copy@ == self@,
    {
        proof {
            use_type_invariant(self);
        }
        let list = self.entries();
        Capabilities { available: list }
    }
}

} // verus!
