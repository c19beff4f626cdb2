//! References as a remote advertises them.

use crate::byte_str;
use crate::byte_str::position;
use crate::capabilities::{capability_views, values_named, Capabilities, CapabilityView};
use vstd::prelude::*;
use vstd::string::StringSliceAdditionalSpecFns;

verus! {

/// The content hash of an object: twenty bytes.
#[derive(Clone, Copy, Debug, PartialEq, Eq)]
pub struct ObjectId(pub [u8; 20]);

impl View for ObjectId {
    type V = Seq<u8>;

    open spec fn view(&self) -> Seq<u8> {
        self.0@
    }
}

impl ObjectId {
    /// The hash of no object at all: twenty zero bytes.
    pub open spec fn spec_null() -> Seq<u8> {
        Seq::new(20, |i: int| 0u8)
    }

    /// The reserved id that stands in where no object is known. No object has it.
    pub fn null() -> (id: ObjectId)
        ensures
            id@ == Self::spec_null(),
    {
        let id = ObjectId([0u8; 20]);
        assert(id@ =~= Self::spec_null());
        id
    }

    /// Whether this is the reserved all-zero id.
    pub fn is_null(&self) -> (null: bool)
        ensures
            null == (self@ == Self::spec_null()),
    {
        let mut i: usize = 0;
        while i < 20
            invariant
                i <= 20,
                forall|j: int| 0 <= j < i ==> self.0@[j] == 0,
            decreases 20 - i,
        {
            if self.0[i] != 0 {
                assert(Self::spec_null()[i as int] == 0);
                return false;
            }
            i += 1;
        }
        assert(self@ =~= Self::spec_null());
        true
    }
}

/// The hash function that names the objects of a repository.
#[derive(Clone, Copy, Debug, PartialEq, Eq, Structural)]
pub enum Kind {
    /// SHA-1, with digests of twenty bytes.
    Sha1,
}

/// A reference of the remote.
#[derive(Debug, PartialEq, Eq)]
pub enum Ref {
    /// A reference to an annotated tag.
    Tag { path: Vec<u8>, id: ObjectId },
    /// A reference to a commit.
    Commit { path: Vec<u8>, id: ObjectId },
    /// A symbolic reference whose target was resolved to an object.
    Symbolic { path: Vec<u8>, target: Vec<u8>, id: ObjectId },
    /// A symbolic reference as the capabilities announce it, before any object is known.
    SymbolicForLookup { path: Vec<u8>, target: Vec<u8> },
}

/// What a `Ref` holds.
pub enum RefView {
    Tag { path: Seq<u8>, id: Seq<u8> },
    Commit { path: Seq<u8>, id: Seq<u8> },
    Symbolic { path: Seq<u8>, target: Seq<u8>, id: Seq<u8> },
    SymbolicForLookup { path: Seq<u8>, target: Seq<u8> },
}

impl View for Ref {
    type V = RefView;

    open spec fn view(&self) -> RefView {
        match *self {
            Ref::Tag { path, id } => RefView::Tag { path: path@, id: id@ },
            Ref::Commit { path, id } => RefView::Commit { path: path@, id: id@ },
            Ref::Symbolic { path, target, id } => RefView::Symbolic {
                path: path@,
                target: target@,
                id: id@,
            },
            Ref::SymbolicForLookup { path, target } => RefView::SymbolicForLookup {
                path: path@,
                target: target@,
            },
        }
    }
}

impl RefView {
    /// The name of the reference.
    pub open spec fn path(self) -> Seq<u8> {
        match self {
            RefView::Tag { path, .. } => path,
            RefView::Commit { path, .. } => path,
            RefView::Symbolic { path, .. } => path,
            RefView::SymbolicForLookup { path, .. } => path,
        }
    }

    /// The object the reference points to, where one is known.
    pub open spec fn id(self) -> Option<Seq<u8>> {
        match self {
            RefView::Tag { id, .. } => Some(id),
            RefView::Commit { id, .. } => Some(id),
            RefView::Symbolic { id, .. } => Some(id),
            RefView::SymbolicForLookup { .. } => None,
        }
    }
}

/// What each reference of a list holds.
pub open spec fn views(refs: Seq<Ref>) -> Seq<RefView> {
    refs.map_values(|r: Ref| r@)
}

impl Ref {
    /// The name of the reference and, where one is known, the object it points to.
    pub fn unpack(&self) -> (parts: (&Vec<u8>, Option<ObjectId>))
        ensures
            parts.0@ == self@.path(),
            match parts.1 {
                Some(id) => self@.id() == Some(id@),
                None => self@.id() is None,
            },
    {
        match self {
            Ref::Tag { path, id } => (path, Some(*id)),
            Ref::Commit { path, id } => (path, Some(*id)),
            Ref::Symbolic { path, id, .. } => (path, Some(*id)),
            Ref::SymbolicForLookup { path, .. } => (path, None),
        }
    }

}

impl Clone for Ref {
    fn clone(&self) -> (copy: Ref)
        ensures
            copy@ == self@,
    {
        match self {
            Ref::Tag { path, id } => Ref::Tag { path: byte_str::copy(path.as_slice()), id: *id },
            Ref::Commit { path, id } => Ref::Commit {
                path: byte_str::copy(path.as_slice()),
                id: *id,
            },
            Ref::Symbolic { path, target, id } => Ref::Symbolic {
                path: byte_str::copy(path.as_slice()),
                target: byte_str::copy(target.as_slice()),
                id: *id,
            },
            Ref::SymbolicForLookup { path, target } => Ref::SymbolicForLookup {
                path: byte_str::copy(path.as_slice()),
                target: byte_str::copy(target.as_slice()),
            },
        }
    }
}

/// The symbolic reference that a value `<path>:<target>` of the `symref`
/// capability announces. The path ends at the first colon; a value without a
/// colon, without a path or without a target announces nothing.
pub open spec fn symref_of(value: Seq<u8>) -> Option<RefView> {
    let at = position(value, 0x3a);
    if 0 < at && at + 1 < value.len() {
        Some(
            RefView::SymbolicForLookup {
                path: value.subrange(0, at),
                target: value.subrange(at + 1, value.len() as int),
            },
        )
    } else {
        None
    }
}

/// The symbolic references that the values of the `symref` capability
/// announce, in the order of the values.
pub open spec fn symrefs_of(values: Seq<Option<Seq<u8>>>) -> Seq<RefView>
    decreases values.len(),
{
    if values.len() == 0 {
        Seq::empty()
    } else {
        let before = symrefs_of(values.drop_last());
        match values.last() {
            Some(value) => match symref_of(value) {
                Some(symref) => before.push(symref),
                None => before,
            },
            None => before,
        }
    }
}

/// Appends to `out_refs` the symbolic references that the `symref` entries of
/// `capabilities` announce, one for each entry, however often the capability
/// is advertised.
pub fn extract_symrefs(out_refs: &mut Vec<Ref>, capabilities: &Capabilities)
    ensures
        views(final(out_refs)@) == views(old(out_refs)@) + symrefs_of(
            values_named(capabilities@, "symref".spec_bytes()),
        ),
{
    let entries = capabilities.entries();
    let wanted = "symref".as_bytes();
    let ghost all = capabilities@;
    let ghost had = views(out_refs@);
    let mut i: usize = 0;
    proof {
        assert(all.take(0) =~= Seq::<CapabilityView>::empty());
        assert(views(out_refs@) =~= had + symrefs_of(values_named(all.take(0), wanted@)));
    }
    while i < entries.len()
        invariant
            i <= entries.len(),
            all == capability_views(entries@),
            wanted@ == "symref".spec_bytes(),
            views(out_refs@) == had + symrefs_of(values_named(all.take(i as int), wanted@)),
        decreases entries.len() - i,
    {
        let ghost before = values_named(all.take(i as int), wanted@);
        proof {
            assert(all.take(i + 1).drop_last() =~= all.take(i as int));
            assert(all[i as int] == entries[i as int]@);
        }
        if byte_str::equal(entries[i].name.as_slice(), wanted) {
            proof {
                assert(before.push(all[i as int].value).drop_last() =~= before);
            }
            match &entries[i].value {
                Some(value) => {
                    match byte_str::find(value.as_slice(), 0x3a) {
                        Some(at) => {
                            if 0 < at && at + 1 < value.len() {
                                let ghost listed = views(out_refs@);
                                let symref = Ref::SymbolicForLookup {
                                    path: byte_str::copy_range(value.as_slice(), 0, at),
                                    target: byte_str::copy_range(
                                        value.as_slice(),
                                        at + 1,
                                        value.len(),
                                    ),
                                };
                                out_refs.push(symref);
                                proof {
                                    assert(views(out_refs@) =~= listed.push(symref@));
                                    assert(views(out_refs@) =~= had + symrefs_of(
                                        before.push(all[i as int].value),
                                    ));
                                }
                            }
                        },
                        None => {},
                    }
                },
                None => {},
            }
        }
        i += 1;
    }
    proof {
        assert(all.take(entries.len() as int) =~= all);
    }
}

} // verus!
