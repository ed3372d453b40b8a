//! Breaking one raw line into the fragments that a pane shows.
//!
//! Line breaking is done by `textwrap` and the test for styled text by
//! `ansi_to_tui`; what either returns is not proved here, only named.

use ansi_to_tui::IntoText;
use vstd::prelude::*;

verus! {

/// The lines into which `textwrap::wrap` breaks `text` at `width` columns.
pub uninterp spec fn wrapped_lines(text: Seq<char>, width: nat) -> Seq<Seq<char>>;

/// Whether `ansi_to_tui` accepts `fragment` as text with ANSI styling.
pub uninterp spec fn styles_parse(fragment: Seq<char>) -> bool;

/// The contents of a list of strings.
pub open spec fn texts(strings: Seq<String>) -> Seq<Seq<char>> {
    strings.map_values(|s: String| s@)
}

/// The columns left for text in a pane that is `width` columns wide: the
/// border and the scrollbar take three.
pub open spec fn text_width(width: u16) -> nat {
    if width >= 3 {
        (width - 3) as nat
    } else {
        0
    }
}

/// Whether a fragment is shown: empty ones and those that do not parse as
/// styled text are dropped.
pub open spec fn shown(fragment: Seq<char>) -> bool {
    fragment.len() > 0 && styles_parse(fragment)
}

/// The fragments of `broken` that are shown, in order.
pub open spec fn retained(broken: Seq<Seq<char>>) -> Seq<Seq<char>> {
    broken.filter(|fragment: Seq<char>| shown(fragment))
}

/// The fragments that one raw line contributes to a pane of `width` columns.
pub open spec fn fragments(text: Seq<char>, width: u16) -> Seq<Seq<char>> {
    retained(wrapped_lines(text, text_width(width)))
}

/// Calls `textwrap::wrap` with a plain width, which selects the crate's
/// default options, and copies each line into a `String`. The contract only
/// names the result: the same text and width give the same lines.
#[verifier::external_body]
fn wrap_text(text: &str, width: u16) -> (lines: Vec<String>)
    ensures
        texts(lines@) == wrapped_lines(text@, width as nat),
{
    textwrap::wrap(text, width as usize).into_iter().map(|line| line.into_owned()).collect()
}

/// Calls `IntoText::into_text` of `ansi_to_tui` on the fragment and tells
/// whether it returned `Ok`. The contract only names the answer.
#[verifier::external_body]
fn parses_as_styled(fragment: &str) -> (ok: bool)
    ensures
        ok == styles_parse(fragment@),
{
    fragment.into_text().is_ok()
}

/// Keeps the fragments that are shown.
pub fn retain_shown(broken: Vec<String>) -> (kept: Vec<String>)
    ensures
        texts(kept@) == retained(texts(broken@)),
{
    let mut kept: Vec<String> = Vec::new();
    let mut broken = broken;
    let ghost all = broken@;
    let n = broken.len();
    let mut i: usize = 0;
    proof {
        reveal(Seq::filter);
    }
    while i < n
        invariant
            i <= n,
            n == all.len(),
            broken@.len() == n,
            forall|j: int| i <= j < n ==> broken@[j] == all[j],
            texts(kept@) == retained(texts(all).subrange(0, i as int)),
        decreases n - i,
    {
        let mut fragment = String::new();
        std::mem::swap(&mut fragment, &mut broken[i]);
        let keep = !fragment.as_str().is_empty() && parses_as_styled(fragment.as_str());
        proof {
            let before = texts(all).subrange(0, i as int);
            let after = texts(all).subrange(0, i as int + 1);
            assert(after.drop_last() =~= before);
            reveal(Seq::filter);
        }
        if keep {
            kept.push(fragment);
        }
        i = i + 1;
    }
    proof {
        assert(texts(all).subrange(0, n as int) =~= texts(all));
    }
    kept
}

/// The fragments that the raw line `text` contributes to a pane of `width`
/// columns.
pub fn visible_fragments(text: &str, width: u16) -> (kept: Vec<String>)
    ensures
        texts(kept@) == fragments(text@, width),
{
    let columns: u16 = if width >= 3 {
        width - 3
    } else {
        0
    };
    retain_shown(wrap_text(text, columns))
}

} // verus!
