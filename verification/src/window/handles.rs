//! Handles: the names by which workspaces, panes and surfaces are spoken of from
//! outside.
use vstd::prelude::*;
use vstd::string::*;

use crate::text::{
    after_prefix, decimal, decimal_text, is_white_space, lemma_number_written_and_read, number_in,
    parse_number, strip_prefix, trim, trimmed,
};

verus! {

pub open spec fn workspace_handle(id: Seq<char>) -> Seq<char> {
    "workspace:"@ + id
}

pub open spec fn pane_handle(id: u32) -> Seq<char> {
    "pane:"@ + decimal_text(id as nat)
}

pub open spec fn surface_handle(id: Seq<char>) -> Seq<char> {
    "surface:"@ + id
}

/// The handle of a workspace.
pub fn workspace_ref(id: &str) -> (r: String)
    ensures
        r@ == workspace_handle(id@),
{
    let mut handle = "workspace:".to_owned();
    handle.append(id);
    handle
}

/// The handle of a pane.
pub fn pane_ref(id: u32) -> (r: String)
    ensures
        r@ == pane_handle(id),
{
    let mut handle = "pane:".to_owned();
    handle.append(decimal(id as u128).as_str());
    handle
}

/// The handle of a surface.
pub fn surface_ref(id: &str) -> (r: String)
    ensures
        r@ == surface_handle(id@),
{
    let mut handle = "surface:".to_owned();
    handle.append(id);
    handle
}

/// What a handle names: the text without white space around it and without the
/// prefix of its kind, if it has that.
pub open spec fn named(raw: Seq<char>, prefix: Seq<char>) -> Seq<char> {
    after_prefix(trimmed(raw), prefix)
}

fn normalize<'a>(raw: &'a str, prefix: &str) -> (r: &'a str)
    ensures
        r@ == named(raw@, prefix@),
{
    let text = trim(raw);
    match strip_prefix(text, prefix) {
        Some(rest) => rest,
        None => text,
    }
}

pub fn normalize_workspace_handle<'a>(raw: &'a str) -> (r: &'a str)
    ensures
        r@ == named(raw@, "workspace:"@),
{
    normalize(raw, "workspace:")
}

pub fn normalize_pane_handle<'a>(raw: &'a str) -> (r: &'a str)
    ensures
        r@ == named(raw@, "pane:"@),
{
    normalize(raw, "pane:")
}

pub fn normalize_surface_handle<'a>(raw: &'a str) -> (r: &'a str)
    ensures
        r@ == named(raw@, "surface:"@),
{
    normalize(raw, "surface:")
}

/// The number of the pane that a handle names.
pub open spec fn pane_named(raw: Seq<char>) -> Option<u32> {
    number_in(named(raw, "pane:"@))
}

pub fn parse_pane_handle(raw: &str) -> (r: Option<u32>)
    ensures
        r == pane_named(raw@),
{
    parse_number(normalize_pane_handle(raw))
}

/// Text that neither begins nor ends with white space is its own trimmed form.
proof fn lemma_already_trimmed(s: Seq<char>)
    requires
        s.len() > 0,
        !is_white_space(s[0]),
        !is_white_space(s.last()),
    ensures
        trimmed(s) == s,
{
}

/// A handle leads back to what it names: workspaces and surfaces by their
/// identifier, unless that ends with white space, and panes by their number.
pub proof fn lemma_handles_lead_back(id: Seq<char>, pane: u32)
    requires
        id.len() > 0 ==> !is_white_space(id.last()),
    ensures
        named(workspace_handle(id), "workspace:"@) == id,
        named(surface_handle(id), "surface:"@) == id,
        pane_named(pane_handle(pane)) == Some(pane),
{
    reveal_strlit("workspace:");
    reveal_strlit("surface:");
    reveal_strlit("pane:");
    lemma_prefixed(id, "workspace:"@);
    lemma_prefixed(id, "surface:"@);
    let digits = decimal_text(pane as nat);
    lemma_number_written_and_read(pane);
    crate::text::lemma_decimal_digits(pane as nat);
    assert(crate::text::digit_value(digits[digits.len() - 1]) is Some);
    lemma_prefixed(digits, "pane:"@);
}

proof fn lemma_prefixed(id: Seq<char>, prefix: Seq<char>)
    requires
        prefix.len() > 0,
        !is_white_space(prefix[0]),
        !is_white_space(prefix.last()),
        id.len() > 0 ==> !is_white_space(id.last()),
    ensures
        named(prefix + id, prefix) == id,
{
    let s = prefix + id;
    assert(s[0] == prefix[0]);
    if id.len() == 0 {
        assert(s =~= prefix);
    } else {
        assert(s.last() == id.last());
    }
    lemma_already_trimmed(s);
    assert(s.subrange(0, prefix.len() as int) =~= prefix);
    assert(s.skip(prefix.len() as int) =~= id);
}

} // verus!
