//! Posting a conversation to the sharing service: the request body and the
//! address of the shared page.

use vstd::prelude::*;

verus! {

/// Who said a shared line.
#[derive(Clone, Copy, Debug, PartialEq, Eq, Structural)]
pub enum FromType {
    Gpt,
    Human,
}

/// One line of a shared conversation.
#[derive(Debug)]
pub struct ShareGPTItem {
    pub from: FromType,
    pub value: String,
}

/// The body posted to the sharing service.
#[derive(Debug)]
pub struct ShareGPTSubmitBodyInterface {
    pub avatar_url: String,
    pub items: Vec<ShareGPTItem>,
}

/// The address of the shared page with identifier `id`.
pub open spec fn spec_share_url(id: Seq<char>) -> Seq<char> {
    "https://shareg.pt/"@ + id
}

/// The address of the shared page with identifier `id`.
pub fn share_url(id: &str) -> (r: String)
    ensures
        r@ == spec_share_url(id@),
{
    let mut out = String::from_str("https://shareg.pt/");
    out.append(id);
    out
}

} // verus!
