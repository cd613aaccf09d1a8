//! What a conversion that unpacks does when it runs: it finds the fields
//! whose value is not there.

use crate::error::{listed, push_listed};
use crate::plan::{ConversionPlan, FieldPlanView};
use vstd::prelude::*;
use vstd::string::StringExecFns;

verus! {

/// The fields of the sub struct for which the super struct holds no value.
#[derive(Debug, PartialEq, Eq)]
pub struct MissingFields {
    /// The super type, as it is named in the message.
    pub from_type: String,
    /// The fields, in the order in which they were found.
    pub missing: Vec<String>,
}

/// The message for the fields `missing` of a conversion from `from_type`.
pub open spec fn missing_message(from_type: Seq<char>, missing: Seq<Seq<char>>) -> Seq<char> {
    "Attribute(s) "@ + listed(missing, ""@) + " of the super struct "@ + from_type
        + " not initialized"@
}

/// Whether the value for the field at `index` is not there: the field is
/// unpacked, and `present` does not say that its option holds a value.
pub open spec fn is_missing(fields: Seq<FieldPlanView>, present: Seq<bool>, index: int) -> bool {
    fields[index].unwrap && !(index < present.len() && present[index])
}

/// The fields among the first `n` of `fields` whose value is not there, in
/// their order.
pub open spec fn missing_fields(fields: Seq<FieldPlanView>, present: Seq<bool>, n: int) -> Seq<
    Seq<char>,
>
    decreases n,
{
    if 0 < n <= fields.len() {
        if is_missing(fields, present, n - 1) {
            missing_fields(fields, present, n - 1).push(fields[n - 1].target)
        } else {
            missing_fields(fields, present, n - 1)
        }
    } else {
        seq![]
    }
}

impl MissingFields {
    /// No field, of a conversion from `from_type`.
    pub fn new(from_type: &str) -> (none: MissingFields)
        ensures
            none.from_type@ == from_type@,
            none.missing.deep_view() == Seq::<Seq<char>>::empty(),
    {
        let none = MissingFields { from_type: from_type.to_owned(), missing: Vec::new() };
        assert(none.missing.deep_view() =~= Seq::<Seq<char>>::empty());
        none
    }

    /// Adds the field `missing`.
    pub fn push(&mut self, missing: &str)
        ensures
            final(self).from_type@ == old(self).from_type@,
            final(self).missing.deep_view() == old(self).missing.deep_view().push(missing@),
    {
        self.missing.push(missing.to_owned());
        assert(self.missing.deep_view() =~= old(self).missing.deep_view().push(missing@));
    }

    /// Whether any field is missing.
    pub fn any_missing(&self) -> (any: bool)
        ensures
            any == (self.missing.deep_view().len() > 0),
    {
        self.missing.len() > 0
    }

    /// The message that names the missing fields.
    pub fn message(&self) -> (text: String)
        ensures
            text@ == missing_message(self.from_type@, self.missing.deep_view()),
    {
        let mut text = "Attribute(s) ".to_owned();
        push_listed(&self.missing, "", &mut text);
        text.append(" of the super struct ");
        text.append(self.from_type.as_str());
        text.append(" not initialized");
        text
    }
}

impl ConversionPlan {
    /// Checks that every value that the conversion unpacks is there.
    /// `present` says of each field, in the order of the fields, whether the
    /// option that holds its value holds one; a field of which it says
    /// nothing counts as not there.
    pub fn check(&self, present: &Vec<bool>) -> (r: Result<(), MissingFields>)
        ensures
            r is Ok <==> missing_fields(
                self.fields.deep_view(),
                present@,
                self.fields.len() as int,
            ).len() == 0,
            r matches Err(missing) ==> missing.from_type@ == self.from_type@
                && missing.missing.deep_view() == missing_fields(
                self.fields.deep_view(),
                present@,
                self.fields.len() as int,
            ),
    {
        let mut error = MissingFields::new(self.from_type.as_str());
        let mut i: usize = 0;
        while i < self.fields.len()
            invariant
                i <= self.fields.len(),
                error.from_type@ == self.from_type@,
                error.missing.deep_view() == missing_fields(
                    self.fields.deep_view(),
                    present@,
                    i as int,
                ),
            decreases self.fields.len() - i,
        {
            let there = i < present.len() && present[i];
            if self.fields[i].unwrap && !there {
                error.push(self.fields[i].target.as_str());
            }
            i += 1;
        }
        if error.any_missing() {
            Err(error)
        } else {
            Ok(())
        }
    }
}

} // verus!
