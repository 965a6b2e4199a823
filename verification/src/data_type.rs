//! The DataType enumeration: the only values a property's `data_type` may take.

use vstd::prelude::*;
use crate::text::str_eq;

verus! {

/// The DataType values, as a sequence of character strings.
pub open spec fn spec_data_types() -> Seq<Seq<char>> {
    seq![
        "STRING"@, "INTEGER"@, "SHORT"@, "LONG"@, "BOOLEAN"@, "BYTE"@, "FLOAT"@,
        "DOUBLE"@, "DECIMAL"@, "DATE"@, "TIMESTAMP"@, "ARRAY"@, "STRUCT"@, "VECTOR"@,
        "GEOPOINT"@, "GEOSHAPE"@, "GEOTEMPORAL_SERIES"@, "TIME_SERIES"@,
        "MEDIA_REFERENCE"@, "ATTACHMENT"@,
    ]
}

/// The DataType values.
pub fn data_types() -> (v: Vec<&'static str>)
    ensures
        v@.len() == spec_data_types().len(),
        forall|i: int| 0 <= i < v@.len() ==> (#[trigger] v@[i])@ == spec_data_types()[i],
{
    let v = vec![
        "STRING", "INTEGER", "SHORT", "LONG", "BOOLEAN", "BYTE", "FLOAT",
        "DOUBLE", "DECIMAL", "DATE", "TIMESTAMP", "ARRAY", "STRUCT", "VECTOR",
        "GEOPOINT", "GEOSHAPE", "GEOTEMPORAL_SERIES", "TIME_SERIES",
        "MEDIA_REFERENCE", "ATTACHMENT",
    ];
    assert(v@.len() == 20);
    v
}

/// Whether `s` is one of the DataType values (case sensitive).
pub fn is_valid_data_type(s: &str) -> (r: bool)
    ensures
        r == spec_data_types().contains(s@),
{
    let types = data_types();
    let n = types.len();
    let mut i: usize = 0;
    while i < n
        invariant
            n == types@.len(),
            n == spec_data_types().len(),
            i <= n,
            forall|k: int| 0 <= k < types@.len() ==> (#[trigger] types@[k])@ == spec_data_types()[k],
            forall|k: int| 0 <= k < i ==> spec_data_types()[k] != s@,
        decreases n - i,
    {
        if str_eq(types[i], s) {
            assert(spec_data_types()[i as int] == s@);
            return true;
        }
        i = i + 1;
    }
    assert(!spec_data_types().contains(s@));
    false
}

} // verus!
