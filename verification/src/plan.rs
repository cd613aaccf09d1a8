//! What a struct asks for, and the conversion that is derived from it.

use crate::error::{DeriveError, DeriveErrorView};
use crate::generics::{composed, AppendOrder, Generics};
use crate::reconcile::{reconcile, reconciled};
use crate::text::{alphanumerics, keep_alphanumerics};
use crate::from_type::TypeWithParams;
use vstd::prelude::*;
use vstd::string::StringExecFns;

verus! {

/// What one field of the sub struct asks for.
#[derive(Debug, PartialEq, Eq)]
pub struct FieldReceiver {
    /// The identifier of the field.
    pub ident: String,
    /// Whether the field is exempt from unpacking.
    pub no_unpack: Option<bool>,
    /// The field of the super struct to take the value from, where it is
    /// named otherwise.
    pub rename_from: Option<String>,
}

/// The mathematical value of a [`FieldReceiver`].
pub struct FieldReceiverView {
    pub ident: Seq<char>,
    pub no_unpack: Option<bool>,
    pub rename_from: Option<Seq<char>>,
}

impl View for FieldReceiver {
    type V = FieldReceiverView;

    open spec fn view(&self) -> FieldReceiverView {
        FieldReceiverView {
            ident: self.ident@,
            no_unpack: self.no_unpack,
            rename_from: match self.rename_from {
                Some(name) => Some(name@),
                None => None,
            },
        }
    }
}

impl DeepView for FieldReceiver {
    type V = FieldReceiverView;

    open spec fn deep_view(&self) -> FieldReceiverView {
        self@
    }
}

/// What the sub struct asks for.
#[derive(Debug, PartialEq, Eq)]
pub struct StructReceiver {
    /// The identifier of the sub struct.
    pub ident: String,
    /// The generic parameters that the sub struct declares.
    pub generics: Generics,
    /// The fields of the sub struct, in their order.
    pub fields: Vec<FieldReceiver>,
    /// The super type to convert from.
    pub from_type: TypeWithParams,
    /// Whether the fields of the super struct are options to unpack. Not
    /// unless it is said.
    pub unpack: Option<bool>,
    /// Whether the sub struct refers to the values of the super struct
    /// rather than taking them. Not unless it is said.
    pub make_refs: Option<bool>,
}

/// How one field of the sub struct gets its value.
#[derive(Debug, PartialEq, Eq)]
pub struct FieldPlan {
    /// The field of the sub struct.
    pub target: String,
    /// The field of the super struct.
    pub source: String,
    /// Whether the value is an option that has to hold a value, which is
    /// taken out of it.
    pub unwrap: bool,
}

/// The mathematical value of a [`FieldPlan`].
pub struct FieldPlanView {
    pub target: Seq<char>,
    pub source: Seq<char>,
    pub unwrap: bool,
}

impl View for FieldPlan {
    type V = FieldPlanView;

    open spec fn view(&self) -> FieldPlanView {
        FieldPlanView { target: self.target@, source: self.source@, unwrap: self.unwrap }
    }
}

impl DeepView for FieldPlan {
    type V = FieldPlanView;

    open spec fn deep_view(&self) -> FieldPlanView {
        self@
    }
}

/// A conversion from the super type to the sub struct.
#[derive(Debug, PartialEq, Eq)]
pub struct ConversionPlan {
    /// The identifier of the sub struct.
    pub ident: String,
    /// The super type, printed as tokens.
    pub from_type: String,
    /// The type parameters that the conversion introduces beside the
    /// declared ones.
    pub extra_types: Vec<String>,
    /// The lifetimes that the conversion introduces beside the declared
    /// ones.
    pub extra_lifetimes: Vec<String>,
    /// The parameter list of the conversion.
    pub generics: Generics,
    /// The name of the error type of a conversion that can fail, which is
    /// one that unpacks; `None` for one that cannot.
    pub error_type: Option<String>,
    /// How each field of the sub struct gets its value.
    pub fields: Vec<FieldPlan>,
    /// Whether the sub struct refers to the values of the super struct.
    pub by_reference: bool,
}

/// Whether an option that may hold a flag holds `true`.
pub open spec fn is_set(flag: Option<bool>) -> bool {
    flag == Some(true)
}

/// How `field` gets its value: from the field of the same name unless another
/// is named, and out of an option where the struct unpacks and the field is
/// not exempt.
pub open spec fn field_plan(field: FieldReceiverView, unpack: bool) -> FieldPlanView {
    FieldPlanView {
        target: field.ident,
        source: match field.rename_from {
            Some(name) => name,
            None => field.ident,
        },
        unwrap: unpack && !is_set(field.no_unpack),
    }
}

/// How each of `fields` gets its value.
pub open spec fn field_plans(fields: Seq<FieldReceiverView>, unpack: bool) -> Seq<FieldPlanView> {
    Seq::new(fields.len(), |i: int| field_plan(fields[i], unpack))
}

/// The name of the error type of a conversion to the struct `ident` from the
/// type printed as `from_type`.
pub open spec fn error_type_name(ident: Seq<char>, from_type: Seq<char>) -> Seq<char> {
    ident + "FromSuperError_"@ + alphanumerics(from_type)
}

impl StructReceiver {
    /// Whether the fields of the super struct are unpacked.
    pub open spec fn unpacks(&self) -> bool {
        is_set(self.unpack)
    }

    /// Derives the conversion: reconciles the generic parameters, composes
    /// the parameter list in the order `order`, and settles how each field
    /// gets its value.
    pub fn plan(&self, order: AppendOrder) -> (r: Result<ConversionPlan, DeriveError>)
        ensures
            match r {
                Ok(plan) => {
                    &&& reconciled(
                        self.from_type.ty@,
                        self.from_type.params.deep_view(),
                        self.generics@,
                    ) == Ok::<(Seq<Seq<char>>, Seq<Seq<char>>), DeriveErrorView>(
                        (plan.extra_types.deep_view(), plan.extra_lifetimes.deep_view()),
                    )
                    &&& plan.generics@ == composed(
                        self.generics@,
                        plan.extra_types.deep_view(),
                        plan.extra_lifetimes.deep_view(),
                        order,
                    )
                    &&& plan.ident@ == self.ident@
                    &&& plan.from_type@ == self.from_type.tokens@
                    &&& plan.by_reference == is_set(self.make_refs)
                    &&& plan.fields.deep_view() == field_plans(
                        self.fields.deep_view(),
                        self.unpacks(),
                    )
                    &&& match plan.error_type {
                        Some(name) => self.unpacks() && name@ == error_type_name(
                            self.ident@,
                            self.from_type.tokens@,
                        ),
                        None => !self.unpacks(),
                    }
                },
                Err(e) => reconciled(
                    self.from_type.ty@,
                    self.from_type.params.deep_view(),
                    self.generics@,
                ) == Err::<(Seq<Seq<char>>, Seq<Seq<char>>), DeriveErrorView>(e@),
            },
    {
        let done = match reconcile(&self.from_type, &self.generics, order) {
            Ok(done) => done,
            Err(e) => {
                return Err(e);
            },
        };
        let unpack = match self.unpack {
            Some(flag) => flag,
            None => false,
        };
        let by_reference = match self.make_refs {
            Some(flag) => flag,
            None => false,
        };
        let error_type = if unpack {
            let mut name = self.ident.clone();
            name.append("FromSuperError_");
            name.append(keep_alphanumerics(self.from_type.tokens.as_str()).as_str());
            Some(name)
        } else {
            None
        };
        let mut fields: Vec<FieldPlan> = Vec::new();
        let mut i: usize = 0;
        while i < self.fields.len()
            invariant
                i <= self.fields.len(),
                unpack == self.unpacks(),
                fields.deep_view() == field_plans(self.fields.deep_view().take(i as int), unpack),
            decreases self.fields.len() - i,
        {
            let field = &self.fields[i];
            let source = match &field.rename_from {
                Some(name) => name.clone(),
                None => field.ident.clone(),
            };
            let exempt = match field.no_unpack {
                Some(flag) => flag,
                None => false,
            };
            let ghost before = fields.deep_view();
            fields.push(FieldPlan { target: field.ident.clone(), source, unwrap: unpack && !exempt });
            proof {
                let target = field_plans(self.fields.deep_view().take(i + 1), unpack);
                assert(fields.deep_view() =~= before.push(field_plan(field@, unpack)));
                assert forall|k: int| 0 <= k < target.len() implies fields.deep_view()[k]
                    == target[k] by {
                    if k < i {
                        assert(before[k] == field_plans(
                            self.fields.deep_view().take(i as int),
                            unpack,
                        )[k]);
                    }
                }
                assert(fields.deep_view() =~= target);
            }
            i += 1;
        }
        assert(self.fields.deep_view().take(i as int) =~= self.fields.deep_view());
        Ok(
            ConversionPlan {
                ident: self.ident.clone(),
                from_type: self.from_type.tokens.clone(),
                extra_types: done.extra_types,
                extra_lifetimes: done.extra_lifetimes,
                generics: done.generics,
                error_type,
                fields,
                by_reference,
            },
        )
    }
}

} // verus!
