use vstd::prelude::*;

use crate::error::{Error, SpecError};
use crate::schema::{Schema, SpecField};

verus! {

/// A CSV file with a header row.  Its schema is read from the file by the
/// caller and handed over with [`CsvDataSource::with_schema`].
#[derive(Debug, Clone)]
pub struct CsvDataSource {
    filepath: String,
    schema: Option<Schema>,
}

impl CsvDataSource {
    /// The path of the file.
    pub closed spec fn path(&self) -> Seq<char> {
        self.filepath@
    }

    /// The schema read from the file, if it has been read.
    pub closed spec fn known_schema(&self) -> Option<Seq<SpecField>> {
        match self.schema {
            Some(s) => Some(s@),
            None => None,
        }
    }

    pub fn new(file: &str) -> (d: CsvDataSource)
        ensures
            d.path() == file@,
            d.known_schema() is None,
    {
        CsvDataSource { filepath: String::from_str(file), schema: None }
    }

    /// The same file, with the schema that was read from it.
    pub fn with_schema(self, schema: Schema) -> (d: CsvDataSource)
        ensures
            d.path() == self.path(),
            d.known_schema() == Some(schema@),
    {
        CsvDataSource { filepath: self.filepath, schema: Some(schema) }
    }

    pub fn filepath(&self) -> (s: &str)
        ensures
            s@ == self.path(),
    {
        self.filepath.as_str()
    }

    /// The schema of the file; an error when it has not been read.
    pub fn schema(&self) -> (r: Result<Schema, Error>)
        ensures
            match self.known_schema() {
                Some(s) => r matches Ok(v) && v@ == s,
                None => r matches Err(e) && e@ == SpecError::SchemaUnavailable(self.path()),
            },
    {
        match &self.schema {
            Some(s) => Ok(s.duplicate()),
            None => Err(Error::SchemaUnavailable(self.filepath.clone())),
        }
    }

    pub fn duplicate(&self) -> (d: CsvDataSource)
        ensures
            d.path() == self.path(),
            d.known_schema() == self.known_schema(),
    {
        CsvDataSource {
            filepath: self.filepath.clone(),
            schema: match &self.schema {
                Some(s) => Some(s.duplicate()),
                None => None,
            },
        }
    }
}

} // verus!
