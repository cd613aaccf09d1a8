//! The generic parameters that a struct declares, and how parameters are
//! added to them.

use crate::names::{contains_name, lemma_missing, missing, missing_names};
use vstd::prelude::*;

verus! {

/// One declared generic parameter, by its identifier. A lifetime is kept
/// without its apostrophe.
#[derive(Debug, PartialEq, Eq)]
pub enum GenericParam {
    Lifetime(String),
    Type(String),
    Const(String),
}

/// The mathematical value of a [`GenericParam`].
pub enum GenericParamView {
    Lifetime(Seq<char>),
    Type(Seq<char>),
    Const(Seq<char>),
}

impl View for GenericParam {
    type V = GenericParamView;

    open spec fn view(&self) -> GenericParamView {
        match self {
            GenericParam::Lifetime(name) => GenericParamView::Lifetime(name@),
            GenericParam::Type(name) => GenericParamView::Type(name@),
            GenericParam::Const(name) => GenericParamView::Const(name@),
        }
    }
}

impl DeepView for GenericParam {
    type V = GenericParamView;

    open spec fn deep_view(&self) -> GenericParamView {
        self@
    }
}

/// The identifiers of the lifetime parameters among `params`, in their order.
pub open spec fn lifetime_names(params: Seq<GenericParamView>) -> Seq<Seq<char>>
    decreases params.len(),
{
    if params.len() == 0 {
        seq![]
    } else {
        match params.last() {
            GenericParamView::Lifetime(name) => lifetime_names(params.drop_last()).push(name),
            _ => lifetime_names(params.drop_last()),
        }
    }
}

/// The identifiers of the type parameters among `params`, in their order.
pub open spec fn type_names(params: Seq<GenericParamView>) -> Seq<Seq<char>>
    decreases params.len(),
{
    if params.len() == 0 {
        seq![]
    } else {
        match params.last() {
            GenericParamView::Type(name) => type_names(params.drop_last()).push(name),
            _ => type_names(params.drop_last()),
        }
    }
}

/// The identifiers of the const parameters among `params`, in their order.
pub open spec fn const_names(params: Seq<GenericParamView>) -> Seq<Seq<char>>
    decreases params.len(),
{
    if params.len() == 0 {
        seq![]
    } else {
        match params.last() {
            GenericParamView::Const(name) => const_names(params.drop_last()).push(name),
            _ => const_names(params.drop_last()),
        }
    }
}

/// Whether no identifier stands twice among the parameters of one kind. A
/// lifetime and a type may share an identifier.
pub open spec fn distinct_within_kind(params: Seq<GenericParamView>) -> bool {
    &&& lifetime_names(params).no_duplicates()
    &&& type_names(params).no_duplicates()
    &&& const_names(params).no_duplicates()
}

/// `names` as lifetime parameters.
pub open spec fn as_lifetimes(names: Seq<Seq<char>>) -> Seq<GenericParamView> {
    Seq::new(names.len(), |i: int| GenericParamView::Lifetime(names[i]))
}

/// `names` as type parameters.
pub open spec fn as_types(names: Seq<Seq<char>>) -> Seq<GenericParamView> {
    Seq::new(names.len(), |i: int| GenericParamView::Type(names[i]))
}

/// The generic parameters of a struct, in the order of their declaration.
///
/// No identifier stands twice among the parameters of one kind.
#[derive(Debug, PartialEq, Eq)]
pub struct Generics {
    params: Vec<GenericParam>,
}

impl View for Generics {
    type V = Seq<GenericParamView>;

    closed spec fn view(&self) -> Seq<GenericParamView> {
        Seq::new(self.params.len() as nat, |i: int| self.params[i]@)
    }
}

/// Whether `params` holds a parameter of the kind and identifier of `param`.
pub open spec fn declares(params: Seq<GenericParamView>, param: GenericParamView) -> bool {
    match param {
        GenericParamView::Lifetime(name) => lifetime_names(params).contains(name),
        GenericParamView::Type(name) => type_names(params).contains(name),
        GenericParamView::Const(name) => const_names(params).contains(name),
    }
}

/// What the names of each kind are once a parameter is appended.
pub proof fn lemma_names_push(params: Seq<GenericParamView>, param: GenericParamView)
    ensures
        lifetime_names(params.push(param)) == match param {
            GenericParamView::Lifetime(name) => lifetime_names(params).push(name),
            _ => lifetime_names(params),
        },
        type_names(params.push(param)) == match param {
            GenericParamView::Type(name) => type_names(params).push(name),
            _ => type_names(params),
        },
        const_names(params.push(param)) == match param {
            GenericParamView::Const(name) => const_names(params).push(name),
            _ => const_names(params),
        },
{
    assert(params.push(param).drop_last() =~= params);
}

/// Appending a parameter that is not declared yet keeps the identifiers of
/// each kind distinct.
pub proof fn lemma_distinct_push(params: Seq<GenericParamView>, param: GenericParamView)
    requires
        distinct_within_kind(params),
        !declares(params, param),
    ensures
        distinct_within_kind(params.push(param)),
{
    lemma_names_push(params, param);
}

/// Appending a parameter that is declared already repeats its identifier.
pub proof fn lemma_declared_push(params: Seq<GenericParamView>, param: GenericParamView)
    requires
        declares(params, param),
    ensures
        !distinct_within_kind(params.push(param)),
{
    lemma_names_push(params, param);
    match param {
        GenericParamView::Lifetime(name) => {
            let names = lifetime_names(params);
            let k = choose|k: int| 0 <= k < names.len() && names[k] == name;
            assert(names.push(name)[k] == names.push(name)[names.len() as int]);
        },
        GenericParamView::Type(name) => {
            let names = type_names(params);
            let k = choose|k: int| 0 <= k < names.len() && names[k] == name;
            assert(names.push(name)[k] == names.push(name)[names.len() as int]);
        },
        GenericParamView::Const(name) => {
            let names = const_names(params);
            let k = choose|k: int| 0 <= k < names.len() && names[k] == name;
            assert(names.push(name)[k] == names.push(name)[names.len() as int]);
        },
    }
}

/// A copy of `param`.
pub fn copy_param(param: &GenericParam) -> (copy: GenericParam)
    ensures
        copy@ == param@,
{
    match param {
        GenericParam::Lifetime(name) => GenericParam::Lifetime(name.clone()),
        GenericParam::Type(name) => GenericParam::Type(name.clone()),
        GenericParam::Const(name) => GenericParam::Const(name.clone()),
    }
}

impl Generics {
    #[verifier::type_invariant]
    spec fn distinct(self) -> bool {
        distinct_within_kind(self@)
    }

    /// No parameters.
    pub fn new() -> (generics: Generics)
        ensures
            generics@ == Seq::<GenericParamView>::empty(),
    {
        let generics = Generics { params: Vec::new() };
        assert(generics@ =~= Seq::<GenericParamView>::empty());
        generics
    }

    /// The parameters `params`, in that order, unless an identifier stands
    /// twice among those of one kind.
    pub fn from_params(params: Vec<GenericParam>) -> (generics: Option<Generics>)
        ensures
            generics is Some <==> distinct_within_kind(params.deep_view()),
            generics matches Some(declared) ==> declared@ == params.deep_view(),
    {
        let mut generics = Generics::new();
        let mut i: usize = 0;
        while i < params.len()
            invariant
                i <= params.len(),
                generics@ == params.deep_view().take(i as int),
                distinct_within_kind(generics@),
            decreases params.len() - i,
        {
            proof {
                assert(params.deep_view().take(i + 1) =~= params.deep_view().take(i as int).push(
                    params[i as int]@,
                ));
                lemma_names_push(generics@, params[i as int]@);
            }
            if generics.declares(&params[i]) {
                proof {
                    lemma_declared_push(generics@, params[i as int]@);
                    lemma_not_distinct_extends(params.deep_view(), i + 1);
                }
                return None;
            }
            generics = generics.with(copy_param(&params[i]));
            i += 1;
        }
        assert(params.deep_view().take(i as int) =~= params.deep_view());
        Some(generics)
    }

    /// Whether a parameter of the kind and identifier of `param` is declared.
    pub fn declares(&self, param: &GenericParam) -> (found: bool)
        ensures
            found == declares(self@, param@),
    {
        match param {
            GenericParam::Lifetime(name) => contains_name(&self.lifetime_names(), name),
            GenericParam::Type(name) => contains_name(&self.type_names(), name),
            GenericParam::Const(name) => contains_name(&self.const_names(), name),
        }
    }

    /// These parameters and then `param`, which is not declared yet.
    fn with(self, param: GenericParam) -> (generics: Generics)
        requires
            !declares(self@, param@),
        ensures
            generics@ == self@.push(param@),
    {
        proof {
            use_type_invariant(&self);
            lemma_distinct_push(self@, param@);
        }
        let ghost before = self@;
        let mut params = self.params;
        params.push(param);
        let ghost after = Seq::new(params.len() as nat, |i: int| params[i]@);
        assert(after =~= before.push(param@));
        Generics { params }
    }

    /// These parameters and then `extra`, where that repeats no identifier
    /// within a kind.
    fn extended(&self, extra: Vec<GenericParam>) -> (generics: Generics)
        requires
            distinct_within_kind(self@ + extra.deep_view()),
        ensures
            generics@ == self@ + extra.deep_view(),
    {
        let mut params: Vec<GenericParam> = Vec::new();
        let mut i: usize = 0;
        while i < self.params.len()
            invariant
                i <= self.params.len(),
                params.deep_view() == self@.take(i as int),
            decreases self.params.len() - i,
        {
            let ghost before = params.deep_view();
            params.push(copy_param(&self.params[i]));
            assert(params.deep_view() =~= before.push(self@[i as int]));
            assert(self@.take(i + 1) =~= self@.take(i as int).push(self@[i as int]));
            i += 1;
        }
        assert(self@.take(i as int) =~= self@);
        let mut extra = extra;
        let ghost added = extra.deep_view();
        let ghost before = params.deep_view();
        params.append(&mut extra);
        let ghost after = Seq::new(params.len() as nat, |i: int| params[i]@);
        assert(after =~= before + added);
        Generics { params }
    }

    /// The number of parameters.
    pub fn len(&self) -> (n: usize)
        ensures
            n == self@.len(),
    {
        self.params.len()
    }

    /// The parameter at `index`, if there is one.
    pub fn get(&self, index: usize) -> (param: Option<&GenericParam>)
        ensures
            param is Some <==> index < self@.len(),
            param matches Some(found) ==> found@ == self@[index as int],
    {
        if index < self.params.len() {
            Some(&self.params[index])
        } else {
            None
        }
    }

    /// The identifiers of the lifetime parameters, in their order.
    pub fn lifetime_names(&self) -> (names: Vec<String>)
        ensures
            names.deep_view() == lifetime_names(self@),
    {
        let mut names: Vec<String> = Vec::new();
        let mut i: usize = 0;
        assert(self@.take(0) =~= seq![]);
        while i < self.params.len()
            invariant
                i <= self.params.len(),
                names.deep_view() == lifetime_names(self@.take(i as int)),
            decreases self.params.len() - i,
        {
            proof {
                assert(self@.take(i + 1).drop_last() =~= self@.take(i as int));
            }
            if let GenericParam::Lifetime(name) = &self.params[i] {
                let ghost before = names.deep_view();
                names.push(name.clone());
                assert(names.deep_view() =~= before.push(name@));
            }
            i += 1;
        }
        assert(self@.take(i as int) =~= self@);
        names
    }

    /// The identifiers of the type parameters, in their order.
    pub fn type_names(&self) -> (names: Vec<String>)
        ensures
            names.deep_view() == type_names(self@),
    {
        let mut names: Vec<String> = Vec::new();
        let mut i: usize = 0;
        assert(self@.take(0) =~= seq![]);
        while i < self.params.len()
            invariant
                i <= self.params.len(),
                names.deep_view() == type_names(self@.take(i as int)),
            decreases self.params.len() - i,
        {
            proof {
                assert(self@.take(i + 1).drop_last() =~= self@.take(i as int));
            }
            if let GenericParam::Type(name) = &self.params[i] {
                let ghost before = names.deep_view();
                names.push(name.clone());
                assert(names.deep_view() =~= before.push(name@));
            }
            i += 1;
        }
        assert(self@.take(i as int) =~= self@);
        names
    }

    /// The identifiers of the const parameters, in their order.
    pub fn const_names(&self) -> (names: Vec<String>)
        ensures
            names.deep_view() == const_names(self@),
    {
        let mut names: Vec<String> = Vec::new();
        let mut i: usize = 0;
        assert(self@.take(0) =~= seq![]);
        while i < self.params.len()
            invariant
                i <= self.params.len(),
                names.deep_view() == const_names(self@.take(i as int)),
            decreases self.params.len() - i,
        {
            proof {
                assert(self@.take(i + 1).drop_last() =~= self@.take(i as int));
            }
            if let GenericParam::Const(name) = &self.params[i] {
                let ghost before = names.deep_view();
                names.push(name.clone());
                assert(names.deep_view() =~= before.push(name@));
            }
            i += 1;
        }
        assert(self@.take(i as int) =~= self@);
        names
    }
}

/// Appending type parameters adds their identifiers to those of the types
/// and leaves the other kinds as they are.
pub proof fn lemma_names_with_types(params: Seq<GenericParamView>, names: Seq<Seq<char>>)
    ensures
        type_names(params + as_types(names)) == type_names(params) + names,
        lifetime_names(params + as_types(names)) == lifetime_names(params),
        const_names(params + as_types(names)) == const_names(params),
    decreases names.len(),
{
    if names.len() == 0 {
        assert(params + as_types(names) =~= params);
        assert(type_names(params) + names =~= type_names(params));
    } else {
        let init = names.drop_last();
        lemma_names_with_types(params, init);
        lemma_names_push(params + as_types(init), GenericParamView::Type(names.last()));
        assert(params + as_types(names) =~= (params + as_types(init)).push(
            GenericParamView::Type(names.last()),
        ));
        assert(type_names(params) + names =~= (type_names(params) + init).push(names.last()));
    }
}

/// Appending lifetime parameters adds their identifiers to those of the
/// lifetimes and leaves the other kinds as they are.
pub proof fn lemma_names_with_lifetimes(params: Seq<GenericParamView>, names: Seq<Seq<char>>)
    ensures
        lifetime_names(params + as_lifetimes(names)) == lifetime_names(params) + names,
        type_names(params + as_lifetimes(names)) == type_names(params),
        const_names(params + as_lifetimes(names)) == const_names(params),
    decreases names.len(),
{
    if names.len() == 0 {
        assert(params + as_lifetimes(names) =~= params);
        assert(lifetime_names(params) + names =~= lifetime_names(params));
    } else {
        let init = names.drop_last();
        lemma_names_with_lifetimes(params, init);
        lemma_names_push(params + as_lifetimes(init), GenericParamView::Lifetime(names.last()));
        assert(params + as_lifetimes(names) =~= (params + as_lifetimes(init)).push(
            GenericParamView::Lifetime(names.last()),
        ));
        assert(lifetime_names(params) + names =~= (lifetime_names(params) + init).push(
            names.last(),
        ));
    }
}

/// Two lists without repetition that share no member make one such list.
pub proof fn lemma_distinct_concat(first: Seq<Seq<char>>, second: Seq<Seq<char>>)
    requires
        first.no_duplicates(),
        second.no_duplicates(),
        forall|name: Seq<char>| first.contains(name) ==> !second.contains(name),
    ensures
        (first + second).no_duplicates(),
{
    let all = first + second;
    assert forall|i: int, j: int| 0 <= i < all.len() && 0 <= j < all.len() && i != j implies all[i]
        != all[j] by {
        if i < first.len() && j >= first.len() {
            assert(first.contains(first[i]));
            assert(second.contains(second[j - first.len()]));
        }
        if j < first.len() && i >= first.len() {
            assert(first.contains(first[j]));
            assert(second.contains(second[i - first.len()]));
        }
    }
}

/// A list whose first `n` parameters repeat an identifier within a kind
/// repeats it as a whole.
pub proof fn lemma_not_distinct_extends(params: Seq<GenericParamView>, n: int)
    requires
        0 <= n <= params.len(),
        !distinct_within_kind(params.take(n)),
    ensures
        !distinct_within_kind(params),
    decreases params.len() - n,
{
    if n < params.len() {
        assert(params.take(n + 1).drop_last() =~= params.take(n));
        lemma_names_push(params.take(n), params[n]);
        assert(params.take(n + 1) =~= params.take(n).push(params[n]));
        let before = params.take(n);
        let after = params.take(n + 1);
        if !lifetime_names(before).no_duplicates() {
            let (i, j) = choose|i: int, j: int|
                0 <= i < lifetime_names(before).len() && 0 <= j < lifetime_names(before).len() && i
                    != j && lifetime_names(before)[i] == lifetime_names(before)[j];
            assert(lifetime_names(after)[i] == lifetime_names(after)[j]);
        } else if !type_names(before).no_duplicates() {
            let (i, j) = choose|i: int, j: int|
                0 <= i < type_names(before).len() && 0 <= j < type_names(before).len() && i != j
                    && type_names(before)[i] == type_names(before)[j];
            assert(type_names(after)[i] == type_names(after)[j]);
        } else {
            let (i, j) = choose|i: int, j: int|
                0 <= i < const_names(before).len() && 0 <= j < const_names(before).len() && i != j
                    && const_names(before)[i] == const_names(before)[j];
            assert(const_names(after)[i] == const_names(after)[j]);
        }
        lemma_not_distinct_extends(params, n + 1);
    } else {
        assert(params.take(n) =~= params);
    }
}

/// The parameters of `generics`, and after them each of `new_idents` as a
/// type parameter, unless a type parameter of that identifier stands there
/// already.
pub fn add_types(generics: &Generics, new_idents: &Vec<String>) -> (extended: Generics)
    ensures
        extended@ == generics@ + as_types(
            missing(new_idents.deep_view(), type_names(generics@)),
        ),
{
    let declared = generics.type_names();
    let names = missing_names(new_idents, &declared);
    let mut extra: Vec<GenericParam> = Vec::new();
    let mut i: usize = 0;
    while i < names.len()
        invariant
            i <= names.len(),
            extra.deep_view() == as_types(names.deep_view().take(i as int)),
        decreases names.len() - i,
    {
        let ghost before = extra.deep_view();
        extra.push(GenericParam::Type(names[i].clone()));
        proof {
            let target = as_types(names.deep_view().take(i + 1));
            assert(extra.deep_view() =~= before.push(GenericParamView::Type(names[i as int]@)));
            assert forall|k: int| 0 <= k < target.len() implies extra.deep_view()[k] == target[k] by {
                if k < i {
                    assert(before[k] == as_types(names.deep_view().take(i as int))[k]);
                }
            }
            assert(extra.deep_view() =~= target);
        }
        i += 1;
    }
    proof {
        assert(names.deep_view().take(i as int) =~= names.deep_view());
        use_type_invariant(generics);
        lemma_missing(new_idents.deep_view(), type_names(generics@));
        lemma_names_with_types(generics@, names.deep_view());
        lemma_distinct_concat(type_names(generics@), names.deep_view());
    }
    generics.extended(extra)
}

/// The parameters of `generics`, and after them each of `new_lifetimes` as a
/// lifetime parameter, unless a lifetime parameter of that identifier stands
/// there already.
pub fn add_lifetimes(generics: &Generics, new_lifetimes: &Vec<String>) -> (extended: Generics)
    ensures
        extended@ == generics@ + as_lifetimes(
            missing(new_lifetimes.deep_view(), lifetime_names(generics@)),
        ),
{
    let declared = generics.lifetime_names();
    let names = missing_names(new_lifetimes, &declared);
    let mut extra: Vec<GenericParam> = Vec::new();
    let mut i: usize = 0;
    while i < names.len()
        invariant
            i <= names.len(),
            extra.deep_view() == as_lifetimes(names.deep_view().take(i as int)),
        decreases names.len() - i,
    {
        let ghost before = extra.deep_view();
        extra.push(GenericParam::Lifetime(names[i].clone()));
        proof {
            let target = as_lifetimes(names.deep_view().take(i + 1));
            assert(extra.deep_view() =~= before.push(GenericParamView::Lifetime(names[i as int]@)));
            assert forall|k: int| 0 <= k < target.len() implies extra.deep_view()[k] == target[k] by {
                if k < i {
                    assert(before[k] == as_lifetimes(names.deep_view().take(i as int))[k]);
                }
            }
            assert(extra.deep_view() =~= target);
        }
        i += 1;
    }
    proof {
        assert(names.deep_view().take(i as int) =~= names.deep_view());
        use_type_invariant(generics);
        lemma_missing(new_lifetimes.deep_view(), lifetime_names(generics@));
        lemma_names_with_lifetimes(generics@, names.deep_view());
        lemma_distinct_concat(lifetime_names(generics@), names.deep_view());
    }
    generics.extended(extra)
}

/// Which of the extra parameters are appended first.
#[derive(Debug, Clone, Copy, PartialEq, Eq)]
pub enum AppendOrder {
    /// The type parameters, then the lifetimes.
    TypesFirst,
    /// The lifetimes, then the type parameters.
    LifetimesFirst,
}

/// The parameter list of a conversion: the declared parameters `params`, as
/// they are, then the extra type parameters and the extra lifetimes in the
/// order `order`. An identifier that stands among the parameters of its kind
/// already is not appended again.
pub open spec fn composed(
    params: Seq<GenericParamView>,
    extra_types: Seq<Seq<char>>,
    extra_lifetimes: Seq<Seq<char>>,
    order: AppendOrder,
) -> Seq<GenericParamView> {
    let types = as_types(missing(extra_types, type_names(params)));
    let lifetimes = as_lifetimes(missing(extra_lifetimes, lifetime_names(params)));
    match order {
        AppendOrder::TypesFirst => params + types + lifetimes,
        AppendOrder::LifetimesFirst => params + lifetimes + types,
    }
}

/// Composes the parameter list of a conversion from the parameters that the
/// sub struct declares and the extra ones. The sub struct's own list is left
/// as it is.
pub fn compose(
    generics: &Generics,
    extra_types: &Vec<String>,
    extra_lifetimes: &Vec<String>,
    order: AppendOrder,
) -> (all: Generics)
    ensures
        all@ == composed(generics@, extra_types.deep_view(), extra_lifetimes.deep_view(), order),
{
    proof {
        lemma_names_with_types(
            generics@,
            missing(extra_types.deep_view(), type_names(generics@)),
        );
        lemma_names_with_lifetimes(
            generics@,
            missing(extra_lifetimes.deep_view(), lifetime_names(generics@)),
        );
    }
    match order {
        AppendOrder::TypesFirst => add_lifetimes(&add_types(generics, extra_types), extra_lifetimes),
        AppendOrder::LifetimesFirst => add_types(
            &add_lifetimes(generics, extra_lifetimes),
            extra_types,
        ),
    }
}

} // verus!
