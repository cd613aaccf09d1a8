//! What can go wrong while a super type is read and reconciled.

use vstd::prelude::*;
use vstd::string::StringExecFns;

verus! {

/// The reason why no conversion can be derived.
#[derive(Debug, PartialEq, Eq)]
pub enum DeriveError {
    /// A `#` that no identifier follows.
    MalformedFreeParameter,
    /// The text, with its markers taken out, is no type expression. Holds
    /// that text.
    UnparsableType(String),
    /// The sub struct declares a type parameter that the super type does not
    /// mention: the parameter, and the identifiers that the super type does
    /// mention.
    UnknownTypeParameter(String, Vec<String>),
    /// The sub struct declares a lifetime that the super type does not
    /// mention: the lifetime, and the lifetimes that the super type does
    /// mention.
    UnknownLifetimeParameter(String, Vec<String>),
    /// The super type mentions the anonymous lifetime `'_`.
    AnonymousLifetimeUnsupported,
}

/// The mathematical value of a [`DeriveError`].
#[verifier::ext_equal]
pub enum DeriveErrorView {
    MalformedFreeParameter,
    UnparsableType(Seq<char>),
    UnknownTypeParameter(Seq<char>, Seq<Seq<char>>),
    UnknownLifetimeParameter(Seq<char>, Seq<Seq<char>>),
    AnonymousLifetimeUnsupported,
}

impl View for DeriveError {
    type V = DeriveErrorView;

    open spec fn view(&self) -> DeriveErrorView {
        match self {
            DeriveError::MalformedFreeParameter => DeriveErrorView::MalformedFreeParameter,
            DeriveError::UnparsableType(text) => DeriveErrorView::UnparsableType(text@),
            DeriveError::UnknownTypeParameter(name, mentioned) => DeriveErrorView::UnknownTypeParameter(
                name@,
                mentioned.deep_view(),
            ),
            DeriveError::UnknownLifetimeParameter(name, mentioned) => DeriveErrorView::UnknownLifetimeParameter(
                name@,
                mentioned.deep_view(),
            ),
            DeriveError::AnonymousLifetimeUnsupported => DeriveErrorView::AnonymousLifetimeUnsupported,
        }
    }
}

/// `names` written one after the other, `sigil` before each and `, `
/// between them.
pub open spec fn listed(names: Seq<Seq<char>>, sigil: Seq<char>) -> Seq<char>
    decreases names.len(),
{
    if names.len() == 0 {
        seq![]
    } else if names.len() == 1 {
        sigil + names[0]
    } else {
        listed(names.drop_last(), sigil) + ", "@ + sigil + names.last()
    }
}

/// What a super type is said to use: `names`, or nothing.
pub open spec fn uses(names: Seq<Seq<char>>, sigil: Seq<char>) -> Seq<char> {
    if names.len() == 0 {
        "uses none"@
    } else {
        "only uses the following: "@ + listed(names, sigil)
    }
}

/// The message of `error`.
pub open spec fn message_text(error: DeriveErrorView) -> Seq<char> {
    match error {
        DeriveErrorView::MalformedFreeParameter => "hash mark without following type parameter name"@,
        DeriveErrorView::UnparsableType(text) => "Unknown literal value `"@ + text + "`"@,
        DeriveErrorView::UnknownTypeParameter(name, mentioned) => "Type parameter '"@ + name
            + "' is unknown from super type, which "@ + uses(mentioned, ""@),
        DeriveErrorView::UnknownLifetimeParameter(name, mentioned) => "Lifetime parameter ''"@
            + name + "' is unknown from super type, which "@ + uses(mentioned, "'"@),
        DeriveErrorView::AnonymousLifetimeUnsupported => "The anonymous lifetime '_ is not supported."@,
    }
}

/// Appends to `out` the names `names`, `sigil` before each and `, ` between
/// them.
pub fn push_listed(names: &Vec<String>, sigil: &str, out: &mut String)
    ensures
        final(out)@ == old(out)@ + listed(names.deep_view(), sigil@),
{
    let mut i: usize = 0;
    assert(names.deep_view().take(0) =~= Seq::<Seq<char>>::empty());
    assert(out@ =~= old(out)@ + Seq::<char>::empty());
    while i < names.len()
        invariant
            i <= names.len(),
            out@ == old(out)@ + listed(names.deep_view().take(i as int), sigil@),
        decreases names.len() - i,
    {
        proof {
            let next = names.deep_view().take(i + 1);
            assert(next.drop_last() =~= names.deep_view().take(i as int));
            assert(next.last() == names[i as int]@);
        }
        if i > 0 {
            out.append(", ");
        }
        out.append(sigil);
        out.append(names[i].as_str());
        proof {
            let before = listed(names.deep_view().take(i as int), sigil@);
            if i == 0 {
                assert(before =~= Seq::<char>::empty());
                assert(names.deep_view().take(1)[0] == names[0]@);
                assert(out@ =~= old(out)@ + (sigil@ + names[0]@));
            } else {
                assert(out@ =~= old(out)@ + (before + ", "@ + sigil@ + names[i as int]@));
            }
        }
        i += 1;
    }
    assert(names.deep_view().take(i as int) =~= names.deep_view());
}

/// Appends to `out` what a super type is said to use.
fn push_uses(names: &Vec<String>, sigil: &str, out: &mut String)
    ensures
        final(out)@ == old(out)@ + uses(names.deep_view(), sigil@),
{
    if names.len() == 0 {
        out.append("uses none");
    } else {
        out.append("only uses the following: ");
        push_listed(names, sigil, out);
        assert(out@ =~= old(out)@ + ("only uses the following: "@ + listed(
            names.deep_view(),
            sigil@,
        )));
    }
}

impl DeriveError {
    /// The message that tells a user what is wrong.
    pub fn message(&self) -> (text: String)
        ensures
            text@ == message_text(self@),
    {
        match self {
            DeriveError::MalformedFreeParameter => {
                "hash mark without following type parameter name".to_owned()
            },
            DeriveError::UnparsableType(value) => {
                let mut text = "Unknown literal value `".to_owned();
                text.append(value.as_str());
                text.append("`");
                text
            },
            DeriveError::UnknownTypeParameter(name, mentioned) => {
                let mut text = "Type parameter '".to_owned();
                text.append(name.as_str());
                text.append("' is unknown from super type, which ");
                push_uses(mentioned, "", &mut text);
                assert(text@ =~= message_text(self@));
                text
            },
            DeriveError::UnknownLifetimeParameter(name, mentioned) => {
                let mut text = "Lifetime parameter ''".to_owned();
                text.append(name.as_str());
                text.append("' is unknown from super type, which ");
                push_uses(mentioned, "'", &mut text);
                assert(text@ =~= message_text(self@));
                text
            },
            DeriveError::AnonymousLifetimeUnsupported => {
                "The anonymous lifetime '_ is not supported.".to_owned()
            },
        }
    }
}

} // verus!
