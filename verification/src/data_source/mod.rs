pub mod csv;
pub mod memory;
pub mod parquet;

use vstd::prelude::*;

use crate::data_source::csv::CsvDataSource;
use crate::data_source::memory::MemoryDataSource;
use crate::data_source::parquet::ParquetDataSource;
use crate::error::{Error, SpecError, result_view};
use crate::schema::{Schema, SpecField};

verus! {

#[derive(Debug, Clone)]
pub enum DataSource {
    Csv(CsvDataSource),
    Parquet(ParquetDataSource),
    Memory(MemoryDataSource),
}

pub enum SpecDataSource {
    Csv { path: Seq<char>, schema: Option<Seq<SpecField>> },
    Parquet { path: Seq<char>, schema: Option<Seq<SpecField>> },
    Memory { schema: Seq<SpecField>, key: u64 },
}

impl View for DataSource {
    type V = SpecDataSource;

    open spec fn view(&self) -> SpecDataSource {
        match self {
            DataSource::Csv(d) => SpecDataSource::Csv { path: d.path(), schema: d.known_schema() },
            DataSource::Parquet(d) => SpecDataSource::Parquet { path: d.path(), schema: d.known_schema() },
            DataSource::Memory(d) => SpecDataSource::Memory { schema: d.spec_schema(), key: d.spec_key() },
        }
    }
}

/// The schema of a data source: read for a file, or an error until read.
pub open spec fn source_schema(d: SpecDataSource) -> Result<Seq<SpecField>, SpecError> {
    match d {
        SpecDataSource::Csv { path, schema } | SpecDataSource::Parquet { path, schema } => match schema {
            Some(s) => Ok(s),
            None => Err(SpecError::SchemaUnavailable(path)),
        },
        SpecDataSource::Memory { schema, .. } => Ok(schema),
    }
}

impl DataSource {
    pub fn schema(&self) -> (r: Result<Schema, Error>)
        ensures
            result_view(r) == source_schema(self@),
    {
        match self {
            DataSource::Csv(d) => d.schema(),
            DataSource::Parquet(d) => d.schema(),
            DataSource::Memory(d) => d.schema(),
        }
    }

    pub fn duplicate(&self) -> (d: DataSource)
        ensures
            d@ == self@,
    {
        match self {
            DataSource::Csv(d) => DataSource::Csv(d.duplicate()),
            DataSource::Parquet(d) => DataSource::Parquet(d.duplicate()),
            DataSource::Memory(d) => DataSource::Memory(d.duplicate()),
        }
    }
}

} // verus!
