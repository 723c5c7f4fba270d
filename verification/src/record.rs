//! The records that the resolver keeps, and its errors.
use crate::table::Table;
use vstd::prelude::*;

verus! {

/// Why a resolver operation was refused.
#[derive(Copy, Clone, Debug, PartialEq, Eq, PartialOrd, Ord)]
pub enum ResolverError {
    Validation,
    RecordNotFound,
    Unauthorized,
    TooManyTextRecords,
    NotInitialized,
}

impl ResolverError {
    /// The numeric code under which the contract reports this error.
    pub fn code(&self) -> (c: u32)
        ensures
            c == match *self {
                ResolverError::Validation => 1u32,
                ResolverError::RecordNotFound => 2u32,
                ResolverError::Unauthorized => 3u32,
                ResolverError::TooManyTextRecords => 4u32,
                ResolverError::NotInitialized => 5u32,
            },
    {
        match self {
            ResolverError::Validation => 1,
            ResolverError::RecordNotFound => 2,
            ResolverError::Unauthorized => 3,
            ResolverError::TooManyTextRecords => 4,
            ResolverError::NotInitialized => 5,
        }
    }
}

/// What a name resolves to: its owner, the address it points at, its text
/// records and the time of its last update.  Addresses are held by their
/// string encoding.
pub struct ResolutionRecord {
    pub owner: String,
    pub address: String,
    pub text_records: Table<String>,
    pub updated_at: u64,
}

/// A record seen as plain values.
pub struct RecordView {
    pub owner: Seq<char>,
    pub address: Seq<char>,
    pub text_records: Map<Seq<char>, Seq<char>>,
    pub updated_at: u64,
}

impl View for ResolutionRecord {
    type V = RecordView;

    open spec fn view(&self) -> RecordView {
        RecordView {
            owner: self.owner@,
            address: self.address@,
            text_records: self.text_records@,
            updated_at: self.updated_at,
        }
    }
}

impl ResolutionRecord {
    /// A copy of the record.
    pub fn copy(&self) -> (r: Self)
        ensures
            r@ == self@,
    {
        ResolutionRecord {
            owner: self.owner.clone(),
            address: self.address.clone(),
            text_records: self.text_records.copy(),
            updated_at: self.updated_at,
        }
    }
}

} // verus!
