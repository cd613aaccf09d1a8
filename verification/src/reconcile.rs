//! The reconciliation of a super type with the parameters that the sub struct
//! declares.

use crate::error::{DeriveError, DeriveErrorView};
use crate::generics::{
    compose, composed, lifetime_names, type_names, AppendOrder, GenericParamView, Generics,
};
use crate::lifetimes::{
    anonymous_lifetime, collect_extra_lifetimes, extra_lifetimes, lifetimes_of,
};
use crate::type_expr::TypeTree;
use crate::type_params::{collect_extra_type_params, extra_type_params};
use crate::from_type::TypeWithParams;
use vstd::prelude::*;

verus! {

/// What a conversion has to introduce beside the parameters that the sub
/// struct declares.
#[derive(Debug, PartialEq, Eq)]
pub struct Reconciled {
    /// The extra type parameters.
    pub extra_types: Vec<String>,
    /// The extra lifetimes.
    pub extra_lifetimes: Vec<String>,
    /// The parameter list of the conversion.
    pub generics: Generics,
}

/// The extra type parameters and the extra lifetimes of a conversion from
/// `ty`, or the reason why there is no such conversion.
///
/// The anonymous lifetime is reported before anything else, then what is
/// wrong with the type parameters, then what is wrong with the lifetimes.
pub open spec fn reconciled(
    ty: TypeTree,
    free: Seq<Seq<char>>,
    declared: Seq<GenericParamView>,
) -> Result<(Seq<Seq<char>>, Seq<Seq<char>>), DeriveErrorView> {
    if lifetimes_of(ty).contains(anonymous_lifetime()) {
        Err(DeriveErrorView::AnonymousLifetimeUnsupported)
    } else {
        match extra_type_params(ty, free, type_names(declared)) {
            Err(e) => Err(e),
            Ok(types) => match extra_lifetimes(ty, lifetime_names(declared)) {
                Err(e) => Err(e),
                Ok(lifetimes) => Ok((types, lifetimes)),
            },
        }
    }
}

/// Reconciles the super type `from_type` with the parameters that the sub
/// struct declares, and composes the parameter list of the conversion in the
/// order `order`.
pub fn reconcile(from_type: &TypeWithParams, subtype_generics: &Generics, order: AppendOrder) -> (r:
    Result<Reconciled, DeriveError>)
    ensures
        match r {
            Ok(done) => {
                &&& reconciled(from_type.ty@, from_type.params.deep_view(), subtype_generics@)
                    == Ok::<(Seq<Seq<char>>, Seq<Seq<char>>), DeriveErrorView>(
                    (done.extra_types.deep_view(), done.extra_lifetimes.deep_view()),
                )
                &&& done.generics@ == composed(
                    subtype_generics@,
                    done.extra_types.deep_view(),
                    done.extra_lifetimes.deep_view(),
                    order,
                )
            },
            Err(e) => reconciled(from_type.ty@, from_type.params.deep_view(), subtype_generics@)
                == Err::<(Seq<Seq<char>>, Seq<Seq<char>>), DeriveErrorView>(e@),
        },
{
    let lifetimes = collect_extra_lifetimes(&from_type.ty, subtype_generics);
    if let Err(DeriveError::AnonymousLifetimeUnsupported) = lifetimes {
        return Err(DeriveError::AnonymousLifetimeUnsupported);
    }
    let extra_types = match collect_extra_type_params(
        &from_type.ty,
        &from_type.params,
        subtype_generics,
    ) {
        Ok(extra) => extra,
        Err(e) => {
            return Err(e);
        },
    };
    let extra_lifetimes = match lifetimes {
        Ok(extra) => extra,
        Err(e) => {
            return Err(e);
        },
    };
    let generics = compose(subtype_generics, &extra_types, &extra_lifetimes, order);
    Ok(Reconciled { extra_types, extra_lifetimes, generics })
}

} // verus!
