//! The records that make up an archive's metadata, as they are stored.
//!
//! Each record that owns vectors or strings has a model, named after it with
//! `View` appended, in which sequences stand for them; `@` yields it.

pub mod coders_info;
pub mod files_info;
pub mod header;
pub mod property_id;
pub mod streams_info;

use crate::parser::types::header::{Header, HeaderInfo, HeaderView, PackedHeader, SignatureHeader};
use crate::parser::types::property_id::PropertyID;
use vstd::prelude::*;

verus! {

/// One of two alternatives. In the per-file records `Left` holds the index
/// of an auxiliary stream in which the value is kept, `Right` the value.
#[derive(Debug, Clone, Copy, PartialEq, Eq)]
pub enum Either<L, R> {
    Left(L),
    Right(R),
}

/// The model of an optional value.
pub open spec fn opt_view<T: View>(o: Option<T>) -> Option<T::V> {
    match o {
        Some(v) => Some(v@),
        None => None,
    }
}

/// The models of the items of a sequence.
pub open spec fn seq_view<T: View>(s: Seq<T>) -> Seq<T::V> {
    Seq::new(s.len(), |i: int| s[i]@)
}

/// The models of a sequence with one more item.
pub proof fn lemma_seq_view_push<T: View>(s: Seq<T>, x: T)
    ensures
        seq_view(s.push(x)) == seq_view(s).push(x@),
{
    assert(seq_view(s.push(x)) =~= seq_view(s).push(x@));
}

/// The empty sequence has no models.
pub proof fn lemma_seq_view_empty<T: View>()
    ensures
        seq_view(Seq::<T>::empty()) == Seq::<T::V>::empty(),
{
    assert(seq_view(Seq::<T>::empty()) =~= Seq::<T::V>::empty());
}

/// Items that are their own models make up a sequence that is its own.
pub proof fn lemma_seq_view_plain<T: View<V = T>>(s: Seq<T>)
    requires
        forall|x: T| #[trigger] x@ == x,
    ensures
        seq_view(s) == s,
{
    assert(seq_view(s) =~= s);
}

/// Where the packed streams lie in the data region, and how long each is.
#[derive(Debug, Clone, PartialEq, Eq)]
pub struct PackInfo {
    pub pack_pos: u64,
    pub num_pack_streams: usize,
    pub sizes: Option<Vec<u64>>,
    pub crcs: Option<Vec<u32>>,
}

/// The model of a `PackInfo`.
pub struct PackInfoView {
    pub pack_pos: u64,
    pub num_pack_streams: usize,
    pub sizes: Option<Seq<u64>>,
    pub crcs: Option<Seq<u32>>,
}

impl View for PackInfo {
    type V = PackInfoView;

    open spec fn view(&self) -> PackInfoView {
        PackInfoView {
            pack_pos: self.pack_pos,
            num_pack_streams: self.num_pack_streams,
            sizes: opt_view(self.sizes),
            crcs: opt_view(self.crcs),
        }
    }
}

impl PackInfoView {
    /// Each list that is present has one entry per packed stream.
    pub open spec fn wf(self) -> bool {
        &&& self.sizes matches Some(sizes) ==> sizes.len() == self.num_pack_streams
        &&& self.crcs matches Some(crcs) ==> crcs.len() == self.num_pack_streams
    }
}

/// Properties of the archive as a whole: each a marker and its raw data.
#[derive(Debug, Clone, PartialEq, Eq)]
pub struct ArchiveProperties {
    pub property_data: Vec<(PropertyID, Vec<u8>)>,
}

/// The model of `ArchiveProperties`.
pub struct ArchivePropertiesView {
    pub property_data: Seq<(PropertyID, Seq<u8>)>,
}

impl View for ArchiveProperties {
    type V = ArchivePropertiesView;

    open spec fn view(&self) -> ArchivePropertiesView {
        ArchivePropertiesView {
            property_data: Seq::new(
                self.property_data@.len(),
                |i: int| (self.property_data@[i].0, self.property_data@[i].1@),
            ),
        }
    }
}

/// An archive's metadata: the signature header, and the header, plain or
/// packed.
#[derive(Debug, Clone, PartialEq, Eq)]
pub struct Archive {
    pub signature_header: SignatureHeader,
    pub header_or_packed_header: Either<Header, (PackedHeader, HeaderInfo)>,
}

/// The model of an `Archive`.
pub struct ArchiveView {
    pub signature_header: SignatureHeader,
    pub header_or_packed_header: Either<HeaderView, (PackedHeader, HeaderInfo)>,
}

impl View for Archive {
    type V = ArchiveView;

    open spec fn view(&self) -> ArchiveView {
        ArchiveView {
            signature_header: self.signature_header,
            header_or_packed_header: match self.header_or_packed_header {
                Either::Left(h) => Either::Left(h@),
                Either::Right(p) => Either::Right(p),
            },
        }
    }
}

impl ArchiveView {
    /// The header, if it is plain, is well-formed.
    pub open spec fn wf(self) -> bool {
        self.header_or_packed_header matches Either::Left(header) ==> header.wf()
    }
}

} // verus!
