//! The record store: assigns identifiers and persists compressed payloads.
//!
//! Abstractly a store is the sequence of texts stored so far, in call
//! order; record `id` holds the text at position `id - 1`. The concrete
//! state keeps each payload compressed, with a type invariant that every
//! payload decompresses to the text it was stored with.

use crate::codec;
use crate::codec::CodecError;
use vstd::prelude::*;

verus! {

/// An immutable pair of identifier and compressed payload.
pub struct DataRecord {
    pub id: u64,
    pub compressed_data: Vec<u8>,
}

/// Maps identifiers to records; the next identifier is always one more
/// than the current record count.
pub struct RecordStore {
    records: Vec<DataRecord>,
    texts: Ghost<Seq<Seq<char>>>,
}

impl View for RecordStore {
    type V = Seq<Seq<char>>;

    closed spec fn view(&self) -> Seq<Seq<char>> {
        self.texts@
    }
}

impl RecordStore {
    /// Record `i` carries identifier `i + 1` and a payload that
    /// decompresses to the text stored by the call that created it.
    #[verifier::type_invariant]
    spec fn wf(self) -> bool {
        &&& self.texts@.len() == self.records@.len()
        &&& forall|i: int|
            0 <= i < self.records@.len() ==> {
                &&& (#[trigger] self.records@[i]).id == i + 1
                &&& codec::decompressed_of(self.records@[i].compressed_data@) == Some(
                    self.texts@[i],
                )
            }
    }

    /// An empty store.
    pub fn new() -> (r: Self)
        ensures
            r@ == Seq::<Seq<char>>::empty(),
    {
        RecordStore { records: Vec::new(), texts: Ghost(Seq::empty()) }
    }

    /// How many records have been stored.
    pub fn count(&self) -> (r: u64)
        ensures
            r == self@.len(),
    {
        proof {
            use_type_invariant(&*self);
        }
        self.records.len() as u64
    }

    /// Compress the text and persist it under the next identifier,
    /// `count + 1`.
    ///
    /// Either the record is fully stored or — on a compression failure —
    /// the error would propagate unchanged with the store left exactly as
    /// it was (no record inserted, no identifier consumed). The codec's
    /// contract proves the failure case unreachable, so storing always
    /// succeeds: the new identifier is returned and the text appended.
    pub fn store(&mut self, text: String) -> (r: Result<u64, CodecError>)
        requires
            old(self)@.len() < u64::MAX,
        ensures
            r matches Ok(id) && id == old(self)@.len() + 1 && final(self)@ == old(self)@.push(
                text@,
            ),
    {
        proof {
            use_type_invariant(&*self);
        }
        let id: u64 = (self.records.len() as u64) + 1;
        match codec::compress(text.as_str()) {
            Ok(compressed_data) => {
                let mut tmp = RecordStore { records: Vec::new(), texts: Ghost(Seq::empty()) };
                std::mem::swap(self, &mut tmp);
                let RecordStore { records: mut records, texts } = tmp;
                records.push(DataRecord { id, compressed_data });
                let ghost new_texts = texts@.push(text@);
                *self = RecordStore { records, texts: Ghost(new_texts) };
                Ok(id)
            },
            Err(e) => Err(e),
        }
    }

    /// Retrieve and decompress the record stored under `id`.
    ///
    /// Absent identifiers are not an error: the result is `None` exactly
    /// when no record exists for `id`. For an existing record the stored
    /// text is recovered; the type invariant rules a decode failure out.
    pub fn get(&self, id: u64) -> (r: Option<Result<String, CodecError>>)
        ensures
            r is Some <==> 1 <= id && id <= self@.len(),
            r matches Some(res) ==> (res matches Ok(s) && s@ == self@[id - 1]),
    {
        proof {
            use_type_invariant(&*self);
        }
        if id == 0 || id > self.records.len() as u64 {
            return None;
        }
        let idx: usize = (id - 1) as usize;
        let record = &self.records[idx];
        Some(codec::decompress(record.compressed_data.as_slice()))
    }
}

} // verus!
