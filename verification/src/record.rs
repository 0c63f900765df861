//! The record model: one parsed CSV row with fields `id`, `name`, `email`.

use vstd::prelude::*;

verus! {

/// One row of the dataset: three required string fields.
#[derive(Debug, Clone)]
pub struct Record {
    pub id: String,
    pub name: String,
    pub email: String,
}

/// The mathematical model of a [`Record`]: its three fields as character
/// sequences.
pub struct RecordModel {
    pub id: Seq<char>,
    pub name: Seq<char>,
    pub email: Seq<char>,
}

impl DeepView for Record {
    type V = RecordModel;

    open spec fn deep_view(&self) -> RecordModel {
        RecordModel { id: self.id@, name: self.name@, email: self.email@ }
    }
}

impl Record {
    /// Builds a record from its three field values.
    pub fn new(id: String, name: String, email: String) -> (r: Record)
        ensures
            r.deep_view() == (RecordModel { id: id@, name: name@, email: email@ }),
    {
        Record { id, name, email }
    }

    /// Returns a record equal to this one, with freshly owned field strings.
    pub fn duplicate(&self) -> (r: Record)
        ensures
            r == *self,
    {
        Record { id: self.id.clone(), name: self.name.clone(), email: self.email.clone() }
    }
}

} // verus!
