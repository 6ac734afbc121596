use vstd::prelude::*;

use crate::error::Error;
use crate::schema::{Schema, SpecField};

verus! {

/// Record batches held in memory.  The batches themselves stay with the
/// caller, which finds them again by `key`; the planner reads only the schema.
#[derive(Debug, Clone)]
pub struct MemoryDataSource {
    schema: Schema,
    key: u64,
}

impl MemoryDataSource {
    pub closed spec fn spec_schema(&self) -> Seq<SpecField> {
        self.schema@
    }

    pub closed spec fn spec_key(&self) -> u64 {
        self.key
    }

    pub fn new(schema: Schema, key: u64) -> (d: MemoryDataSource)
        ensures
            d.spec_schema() == schema@,
            d.spec_key() == key,
    {
        MemoryDataSource { schema, key }
    }

    pub fn key(&self) -> (k: u64)
        ensures
            k == self.spec_key(),
    {
        self.key
    }

    pub fn schema(&self) -> (r: Result<Schema, Error>)
        ensures
            r matches Ok(s) && s@ == self.spec_schema(),
    {
        Ok(self.schema.duplicate())
    }

    pub fn duplicate(&self) -> (d: MemoryDataSource)
        ensures
            d.spec_schema() == self.spec_schema(),
            d.spec_key() == self.spec_key(),
    {
        MemoryDataSource { schema: self.schema.duplicate(), key: self.key }
    }
}

} // verus!
