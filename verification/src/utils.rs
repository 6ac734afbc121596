use vstd::prelude::*;

use crate::error::{Error, SpecError};
use crate::schema::{Schema, SpecField, index_of_name};

verus! {

pub open spec fn strings_view(v: Seq<String>) -> Seq<Seq<char>> {
    v.map_values(|s: String| s@)
}

/// The indices of the named fields, in the order of the names; the first
/// name that no field has is an error.
pub open spec fn spec_field_ids(s: Seq<SpecField>, names: Seq<Seq<char>>) -> Result<Seq<usize>, SpecError>
    decreases names.len(),
{
    if names.len() == 0 {
        Ok(Seq::empty())
    } else {
        match spec_field_ids(s, names.drop_last()) {
            Err(e) => Err(e),
            Ok(ids) => match index_of_name(s, names.last()) {
                Some(i) => Ok(ids.push(i as usize)),
                None => Err(SpecError::FieldNotFound(names.last())),
            },
        }
    }
}

proof fn lemma_field_ids_error_persists(s: Seq<SpecField>, names: Seq<Seq<char>>, k: int)
    requires
        0 <= k <= names.len(),
        spec_field_ids(s, names.subrange(0, k)) is Err,
    ensures
        spec_field_ids(s, names) == spec_field_ids(s, names.subrange(0, k)),
    decreases names.len() - k,
{
    if k < names.len() {
        assert(names.subrange(0, k + 1).drop_last() =~= names.subrange(0, k));
        lemma_field_ids_error_persists(s, names, k + 1);
    } else {
        assert(names.subrange(0, k) =~= names);
    }
}

pub fn field_ids_by_names(schema: &Schema, projection: &Vec<String>) -> (r: Result<Vec<usize>, Error>)
    ensures
        match r {
            Ok(ids) => spec_field_ids(schema@, strings_view(projection@)) == Ok::<Seq<usize>, SpecError>(ids@),
            Err(e) => spec_field_ids(schema@, strings_view(projection@)) == Err::<Seq<usize>, SpecError>(e@),
        },
{
    let ghost names = strings_view(projection@);
    let mut field_ids: Vec<usize> = Vec::new();
    let mut k: usize = 0;
    assert(names.subrange(0, 0) =~= Seq::<Seq<char>>::empty());
    while k < projection.len()
        invariant
            k <= projection.len(),
            names == strings_view(projection@),
            spec_field_ids(schema@, names.subrange(0, k as int)) == Ok::<Seq<usize>, SpecError>(field_ids@),
        decreases projection.len() - k,
    {
        assert(names.subrange(0, k + 1).drop_last() =~= names.subrange(0, k as int));
        match schema.index_of(projection[k].as_str()) {
            Ok(field_id) => {
                field_ids.push(field_id);
            },
            Err(e) => {
                proof {
                    lemma_field_ids_error_persists(schema@, names, k + 1);
                }
                return Err(e);
            },
        }
        k = k + 1;
    }
    assert(names.subrange(0, projection.len() as int) =~= names);
    Ok(field_ids)
}

/// A copy of a list of strings.
pub fn copy_strings(v: &Vec<String>) -> (r: Vec<String>)
    ensures
        strings_view(r@) == strings_view(v@),
{
    let mut r: Vec<String> = Vec::new();
    let mut i: usize = 0;
    while i < v.len()
        invariant
            i <= v.len(),
            strings_view(r@) == strings_view(v@).subrange(0, i as int),
        decreases v.len() - i,
    {
        let ghost prev = r@;
        r.push(v[i].clone());
        assert(strings_view(r@) =~= strings_view(prev).push(v@[i as int]@));
        assert(strings_view(v@).subrange(0, i + 1) =~= strings_view(v@).subrange(0, i as int).push(v@[i as int]@));
        i = i + 1;
    }
    assert(strings_view(v@).subrange(0, v.len() as int) =~= strings_view(v@));
    r
}

} // verus!
