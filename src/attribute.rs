use vstd::prelude::*;
use crate::schema::RecordSpec;

verus! {

/// An annotation that takes no keys.
#[derive(Clone, Copy, Debug, PartialEq, Eq)]
pub struct NoField;

impl NoField {
    /// The schema of this annotation: no fields, answering to `NoField`.
    pub fn schema() -> (r: RecordSpec)
        ensures
            r.declared_path@ == "NoField"@,
            r.fields.len() == 0,
    {
        RecordSpec { declared_path: "NoField".to_owned(), fields: Vec::new() }
    }
}

/// A record with positional fields, which no annotation can name.
#[derive(Clone, Debug, PartialEq)]
pub struct Tuple(pub i32, pub Option<String>);

} // verus!
