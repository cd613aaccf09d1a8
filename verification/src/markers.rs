//! The `#` markers that declare an identifier of the super type to be a free
//! parameter.

use crate::error::{DeriveError, DeriveErrorView};
use crate::text::{chars_of, text_of};
use vstd::prelude::*;

verus! {

/// The marker that declares the identifier after it to be free.
pub open spec fn is_marker(c: char) -> bool {
    c == '#'
}

/// Whether `c` can stand in a marked identifier: an ASCII letter or digit.
pub open spec fn is_ident_char(c: char) -> bool {
    ('a' <= c && c <= 'z') || ('A' <= c && c <= 'Z') || ('0' <= c && c <= '9')
}

/// Where the run of identifier characters that starts at `from` ends.
pub open spec fn run_end(text: Seq<char>, from: int) -> int
    decreases text.len() - from,
{
    if 0 <= from < text.len() && is_ident_char(text[from]) {
        run_end(text, from + 1)
    } else {
        from
    }
}

/// The longest run of identifier characters that starts at `from`.
pub open spec fn ident_run(text: Seq<char>, from: int) -> Seq<char> {
    text.subrange(from, run_end(text, from))
}

/// Whether some marker of `text` has no identifier after it.
pub open spec fn has_bare_marker(text: Seq<char>) -> bool {
    exists|i: int|
        0 <= i < text.len() && is_marker(#[trigger] text[i]) && !(i + 1 < text.len()
            && is_ident_char(text[i + 1]))
}

/// The identifiers after the markers among the first `n` characters of
/// `text`, in the order of the markers.
pub open spec fn marked_before(text: Seq<char>, n: int) -> Seq<Seq<char>>
    decreases n,
{
    if n <= 0 {
        seq![]
    } else if is_marker(text[n - 1]) {
        marked_before(text, n - 1).push(ident_run(text, n))
    } else {
        marked_before(text, n - 1)
    }
}

/// The identifiers that `text` marks as free, in the order of their markers.
/// One that is marked twice stands twice.
pub open spec fn free_params(text: Seq<char>) -> Seq<Seq<char>> {
    marked_before(text, text.len() as int)
}

/// `text` without its markers.
pub open spec fn strip_markers(text: Seq<char>) -> Seq<char> {
    text.filter(|c: char| !is_marker(c))
}

/// Whether `c` is an ASCII letter or digit.
pub fn is_ascii_alphanumeric(c: char) -> (r: bool)
    ensures
        r == is_ident_char(c),
{
    ('a' <= c && c <= 'z') || ('A' <= c && c <= 'Z') || ('0' <= c && c <= '9')
}

/// Finds the identifiers marked as free, and takes the markers out.
///
/// Fails exactly where a marker has no identifier after it. Otherwise the
/// result holds the marked identifiers, in the order of their markers, and
/// the text without its markers.
pub fn parse_hashmark_types(s: &str) -> (r: Result<(Vec<String>, String), DeriveError>)
    ensures
        r is Err <==> has_bare_marker(s@),
        r matches Err(e) ==> e@ == DeriveErrorView::MalformedFreeParameter,
        r matches Ok(found) ==> found.0.deep_view() == free_params(s@) && found.1@
            == strip_markers(s@),
{
    let chars = chars_of(s);
    let mut params: Vec<String> = Vec::new();
    let mut stripped = String::new();
    let mut i: usize = 0;
    proof {
        reveal(Seq::filter);
        assert(chars@.take(0) =~= seq![]);
    }
    while i < chars.len()
        invariant
            i <= chars.len(),
            chars@ == s@,
            params.deep_view() == marked_before(chars@, i as int),
            stripped@ == strip_markers(chars@.take(i as int)),
            forall|k: int|
                0 <= k < i && is_marker(#[trigger] chars@[k]) ==> k + 1 < chars.len()
                    && is_ident_char(chars@[k + 1]),
        decreases chars.len() - i,
    {
        let c = chars[i];
        proof {
            assert(chars@.take(i + 1).drop_last() =~= chars@.take(i as int));
            reveal(Seq::filter);
        }
        if c == '#' {
            let mut j: usize = i + 1;
            while j < chars.len() && is_ascii_alphanumeric(chars[j])
                invariant
                    i + 1 <= j <= chars.len(),
                    run_end(chars@, j as int) == run_end(chars@, i + 1),
                decreases chars.len() - j,
            {
                j += 1;
            }
            if j == i + 1 {
                return Err(DeriveError::MalformedFreeParameter);
            }
            let name = text_of(&chars, i + 1, j);
            let ghost before = params.deep_view();
            params.push(name);
            assert(params.deep_view() =~= before.push(name@));
        } else {
            stripped.push(c);
        }
        i += 1;
    }
    proof {
        assert(chars@.take(i as int) =~= chars@);
    }
    Ok((params, stripped))
}

} // verus!
