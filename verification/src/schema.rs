//! Schemas: named, typed, nullable fields, and lookups by name and index.
use vstd::prelude::*;

use crate::error::{Error, SpecError, result_view};
use crate::text::str_eq;

verus! {

/// The data type of a column.  `Other` holds the text of a type that the
/// planner only carries along.
#[derive(Debug, Clone, PartialEq, Eq)]
pub enum DataType {
    Null,
    Boolean,
    Int8,
    Int16,
    Int32,
    Int64,
    UInt8,
    UInt16,
    UInt32,
    UInt64,
    Float16,
    Float32,
    Float64,
    Utf8,
    LargeUtf8,
    Other(String),
}

pub enum SpecDataType {
    Null,
    Boolean,
    Int8,
    Int16,
    Int32,
    Int64,
    UInt8,
    UInt16,
    UInt32,
    UInt64,
    Float16,
    Float32,
    Float64,
    Utf8,
    LargeUtf8,
    Other(Seq<char>),
}

impl View for DataType {
    type V = SpecDataType;

    open spec fn view(&self) -> SpecDataType {
        match self {
            DataType::Null => SpecDataType::Null,
            DataType::Boolean => SpecDataType::Boolean,
            DataType::Int8 => SpecDataType::Int8,
            DataType::Int16 => SpecDataType::Int16,
            DataType::Int32 => SpecDataType::Int32,
            DataType::Int64 => SpecDataType::Int64,
            DataType::UInt8 => SpecDataType::UInt8,
            DataType::UInt16 => SpecDataType::UInt16,
            DataType::UInt32 => SpecDataType::UInt32,
            DataType::UInt64 => SpecDataType::UInt64,
            DataType::Float16 => SpecDataType::Float16,
            DataType::Float32 => SpecDataType::Float32,
            DataType::Float64 => SpecDataType::Float64,
            DataType::Utf8 => SpecDataType::Utf8,
            DataType::LargeUtf8 => SpecDataType::LargeUtf8,
            DataType::Other(s) => SpecDataType::Other(s@),
        }
    }
}

pub open spec fn data_type_text(d: SpecDataType) -> Seq<char> {
    match d {
        SpecDataType::Null => "Null"@,
        SpecDataType::Boolean => "Boolean"@,
        SpecDataType::Int8 => "Int8"@,
        SpecDataType::Int16 => "Int16"@,
        SpecDataType::Int32 => "Int32"@,
        SpecDataType::Int64 => "Int64"@,
        SpecDataType::UInt8 => "UInt8"@,
        SpecDataType::UInt16 => "UInt16"@,
        SpecDataType::UInt32 => "UInt32"@,
        SpecDataType::UInt64 => "UInt64"@,
        SpecDataType::Float16 => "Float16"@,
        SpecDataType::Float32 => "Float32"@,
        SpecDataType::Float64 => "Float64"@,
        SpecDataType::Utf8 => "Utf8"@,
        SpecDataType::LargeUtf8 => "LargeUtf8"@,
        SpecDataType::Other(s) => s,
    }
}

impl DataType {
    /// Appends the type's name to `out`.
    pub fn write_to(&self, out: &mut String)
        ensures
            final(out)@ == old(out)@ + data_type_text(self@),
    {
        match self {
            DataType::Null => out.append("Null"),
            DataType::Boolean => out.append("Boolean"),
            DataType::Int8 => out.append("Int8"),
            DataType::Int16 => out.append("Int16"),
            DataType::Int32 => out.append("Int32"),
            DataType::Int64 => out.append("Int64"),
            DataType::UInt8 => out.append("UInt8"),
            DataType::UInt16 => out.append("UInt16"),
            DataType::UInt32 => out.append("UInt32"),
            DataType::UInt64 => out.append("UInt64"),
            DataType::Float16 => out.append("Float16"),
            DataType::Float32 => out.append("Float32"),
            DataType::Float64 => out.append("Float64"),
            DataType::Utf8 => out.append("Utf8"),
            DataType::LargeUtf8 => out.append("LargeUtf8"),
            DataType::Other(s) => out.append(s.as_str()),
        }
    }

    pub fn to_string(&self) -> (s: String)
        ensures
            s@ == data_type_text(self@),
    {
        let mut s = String::new();
        self.write_to(&mut s);
        s
    }

    pub fn duplicate(&self) -> (r: DataType)
        ensures
            r@ == self@,
    {
        match self {
            DataType::Null => DataType::Null,
            DataType::Boolean => DataType::Boolean,
            DataType::Int8 => DataType::Int8,
            DataType::Int16 => DataType::Int16,
            DataType::Int32 => DataType::Int32,
            DataType::Int64 => DataType::Int64,
            DataType::UInt8 => DataType::UInt8,
            DataType::UInt16 => DataType::UInt16,
            DataType::UInt32 => DataType::UInt32,
            DataType::UInt64 => DataType::UInt64,
            DataType::Float16 => DataType::Float16,
            DataType::Float32 => DataType::Float32,
            DataType::Float64 => DataType::Float64,
            DataType::Utf8 => DataType::Utf8,
            DataType::LargeUtf8 => DataType::LargeUtf8,
            DataType::Other(s) => DataType::Other(s.clone()),
        }
    }

    /// Whether two data types are the same type.
    pub fn same_as(&self, other: &DataType) -> (r: bool)
        ensures
            r == (self@ == other@),
    {
        match (self, other) {
            (DataType::Null, DataType::Null) => true,
            (DataType::Boolean, DataType::Boolean) => true,
            (DataType::Int8, DataType::Int8) => true,
            (DataType::Int16, DataType::Int16) => true,
            (DataType::Int32, DataType::Int32) => true,
            (DataType::Int64, DataType::Int64) => true,
            (DataType::UInt8, DataType::UInt8) => true,
            (DataType::UInt16, DataType::UInt16) => true,
            (DataType::UInt32, DataType::UInt32) => true,
            (DataType::UInt64, DataType::UInt64) => true,
            (DataType::Float16, DataType::Float16) => true,
            (DataType::Float32, DataType::Float32) => true,
            (DataType::Float64, DataType::Float64) => true,
            (DataType::Utf8, DataType::Utf8) => true,
            (DataType::LargeUtf8, DataType::LargeUtf8) => true,
            (DataType::Other(a), DataType::Other(b)) => str_eq(a.as_str(), b.as_str()),
            _ => false,
        }
    }
}

/// A named, typed column.
#[derive(Debug, Clone, PartialEq, Eq)]
pub struct Field {
    pub name: String,
    pub data_type: DataType,
    pub nullable: bool,
}

pub struct SpecField {
    pub name: Seq<char>,
    pub data_type: SpecDataType,
    pub nullable: bool,
}

impl View for Field {
    type V = SpecField;

    open spec fn view(&self) -> SpecField {
        SpecField { name: self.name@, data_type: self.data_type@, nullable: self.nullable }
    }
}

impl Field {
    pub fn new(name: String, data_type: DataType, nullable: bool) -> (f: Field)
        ensures
            f@ == (SpecField { name: name@, data_type: data_type@, nullable }),
    {
        Field { name, data_type, nullable }
    }

    /// The field under another name.
    pub fn with_name(self, name: String) -> (f: Field)
        ensures
            f@ == (SpecField { name: name@, ..self@ }),
    {
        Field { name, data_type: self.data_type, nullable: self.nullable }
    }

    /// The field with another data type.
    pub fn with_data_type(self, data_type: DataType) -> (f: Field)
        ensures
            f@ == (SpecField { data_type: data_type@, ..self@ }),
    {
        Field { name: self.name, data_type, nullable: self.nullable }
    }

    pub fn duplicate(&self) -> (f: Field)
        ensures
            f@ == self@,
    {
        Field { name: self.name.clone(), data_type: self.data_type.duplicate(), nullable: self.nullable }
    }
}

/// The fields of a table or of a plan's output, in order.
#[derive(Debug, Clone, PartialEq, Eq)]
pub struct Schema {
    pub fields: Vec<Field>,
}

pub open spec fn fields_view(fs: Seq<Field>) -> Seq<SpecField> {
    fs.map_values(|f: Field| f@)
}

impl View for Schema {
    type V = Seq<SpecField>;

    open spec fn view(&self) -> Seq<SpecField> {
        fields_view(self.fields@)
    }
}

/// The index of the first field at or after `i` with the given name.
pub open spec fn index_of_from(fs: Seq<SpecField>, name: Seq<char>, i: int) -> Option<int>
    decreases fs.len() - i,
{
    if i < 0 || i >= fs.len() {
        None
    } else if fs[i].name == name {
        Some(i)
    } else {
        index_of_from(fs, name, i + 1)
    }
}

/// The index of the first field with the given name.
pub open spec fn index_of_name(fs: Seq<SpecField>, name: Seq<char>) -> Option<int> {
    index_of_from(fs, name, 0)
}

pub open spec fn spec_field_with_name(fs: Seq<SpecField>, name: Seq<char>) -> Result<SpecField, SpecError> {
    match index_of_name(fs, name) {
        Some(i) => Ok(fs[i]),
        None => Err(SpecError::FieldNotFound(name)),
    }
}

/// The fields at the given indices, in the order of the indices.
pub open spec fn spec_project(fs: Seq<SpecField>, indices: Seq<usize>) -> Result<Seq<SpecField>, SpecError>
    decreases indices.len(),
{
    if indices.len() == 0 {
        Ok(Seq::empty())
    } else {
        match spec_project(fs, indices.drop_last()) {
            Err(e) => Err(e),
            Ok(prefix) => if indices.last() < fs.len() {
                Ok(prefix.push(fs[indices.last() as int]))
            } else {
                Err(SpecError::ColumnIndexOutOfRange(indices.last()))
            },
        }
    }
}

pub proof fn lemma_index_of_from(fs: Seq<SpecField>, name: Seq<char>, i: int)
    requires
        0 <= i <= fs.len(),
    ensures
        match index_of_from(fs, name, i) {
            Some(k) => i <= k < fs.len() && fs[k].name == name
                && forall|j: int| i <= j < k ==> fs[j].name != name,
            None => forall|j: int| i <= j < fs.len() ==> fs[j].name != name,
        },
    decreases fs.len() - i,
{
    if i < fs.len() && fs[i].name != name {
        lemma_index_of_from(fs, name, i + 1);
    }
}

impl Schema {
    pub fn new(fields: Vec<Field>) -> (s: Schema)
        ensures
            s.fields@ == fields@,
    {
        Schema { fields }
    }

    pub fn empty() -> (s: Schema)
        ensures
            s@ == Seq::<SpecField>::empty(),
    {
        let s = Schema { fields: Vec::new() };
        assert(s@ =~= Seq::<SpecField>::empty());
        s
    }

    pub fn len(&self) -> (n: usize)
        ensures
            n == self@.len(),
    {
        self.fields.len()
    }

    /// The index of the first field with the given name.
    pub fn index_of(&self, name: &str) -> (r: Result<usize, Error>)
        ensures
            match r {
                Ok(i) => index_of_name(self@, name@) == Some(i as int),
                Err(e) => index_of_name(self@, name@) is None && e@ == SpecError::FieldNotFound(name@),
            },
    {
        proof {
            lemma_index_of_from(self@, name@, 0);
        }
        let mut i: usize = 0;
        while i < self.fields.len()
            invariant
                i <= self.fields.len(),
                index_of_name(self@, name@) == index_of_from(self@, name@, i as int),
            decreases self.fields.len() - i,
        {
            if str_eq(self.fields[i].name.as_str(), name) {
                return Ok(i);
            }
            i = i + 1;
        }
        Err(Error::FieldNotFound(String::from_str(name)))
    }

    /// A copy of the field at index `i`.
    pub fn field(&self, i: usize) -> (f: Field)
        requires
            i < self@.len(),
        ensures
            f@ == self@[i as int],
    {
        self.fields[i].duplicate()
    }

    /// A copy of the first field with the given name.
    pub fn field_with_name(&self, name: &str) -> (r: Result<Field, Error>)
        ensures
            result_view(r) == spec_field_with_name(self@, name@),
    {
        proof {
            lemma_index_of_from(self@, name@, 0);
        }
        let i = match self.index_of(name) {
            Ok(i) => i,
            Err(e) => return Err(e),
        };
        Ok(self.fields[i].duplicate())
    }

    /// The fields at the given indices.
    pub fn project(&self, indices: &Vec<usize>) -> (r: Result<Schema, Error>)
        ensures
            result_view(r) == spec_project(self@, indices@),
    {
        let mut fields: Vec<Field> = Vec::new();
        let mut k: usize = 0;
        assert(indices@.subrange(0, 0) =~= Seq::<usize>::empty());
        assert(fields_view(fields@) =~= Seq::<SpecField>::empty());
        while k < indices.len()
            invariant
                k <= indices.len(),
                spec_project(self@, indices@.subrange(0, k as int)) == Ok::<Seq<SpecField>, SpecError>(fields_view(fields@)),
            decreases indices.len() - k,
        {
            let i = indices[k];
            assert(indices@.subrange(0, k + 1).drop_last() =~= indices@.subrange(0, k as int));
            if i >= self.fields.len() {
                proof {
                    lemma_project_error_persists(self@, indices@, k as int + 1);
                }
                assert(indices@.subrange(0, indices@.len() as int) =~= indices@);
                return Err(Error::ColumnIndexOutOfRange(i));
            }
            let ghost prev = fields@;
            fields.push(self.fields[i].duplicate());
            assert(fields_view(fields@) =~= fields_view(prev).push(self@[i as int]));
            k = k + 1;
        }
        assert(indices@.subrange(0, indices@.len() as int) =~= indices@);
        Ok(Schema { fields })
    }

    pub fn duplicate(&self) -> (s: Schema)
        ensures
            s@ == self@,
    {
        let mut fields: Vec<Field> = Vec::new();
        let mut i: usize = 0;
        while i < self.fields.len()
            invariant
                i <= self.fields.len(),
                fields_view(fields@) == self@.subrange(0, i as int),
            decreases self.fields.len() - i,
        {
            let ghost prev = fields@;
            fields.push(self.fields[i].duplicate());
            assert(fields_view(fields@) =~= fields_view(prev).push(self@[i as int]));
            assert(self@.subrange(0, i + 1) =~= self@.subrange(0, i as int).push(self@[i as int]));
            i = i + 1;
        }
        assert(self@.subrange(0, self.fields.len() as int) =~= self@);
        Schema { fields }
    }
}

/// Once a prefix of the indices fails, the whole list fails with the same error.
pub proof fn lemma_project_error_persists(fs: Seq<SpecField>, indices: Seq<usize>, k: int)
    requires
        0 <= k <= indices.len(),
        spec_project(fs, indices.subrange(0, k)) is Err,
    ensures
        spec_project(fs, indices) == spec_project(fs, indices.subrange(0, k)),
    decreases indices.len() - k,
{
    if k < indices.len() {
        assert(indices.subrange(0, k + 1).drop_last() =~= indices.subrange(0, k));
        lemma_project_error_persists(fs, indices, k + 1);
    } else {
        assert(indices.subrange(0, k) =~= indices);
    }
}

} // verus!
