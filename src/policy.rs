use vstd::prelude::*;
use crate::grant::{EmbeddedToken, GrantView};

verus! {

/// An extra acceptance rule applied to tokens that already passed signature
/// and validity-window checks. It sees the signed text, from which every
/// claim can be decoded, and the grant decoded from it.
pub trait PolicyHook {
    /// Whether the rule accepts the token with this text and grant.
    spec fn accepts(&self, jwt: Seq<char>, grant: GrantView) -> bool;

    /// Decides on `token`; must not change any state.
    fn accept(&self, token: &EmbeddedToken) -> (r: bool)
        ensures
            r == self.accepts(token.jwt@, token.grant@),
    ;
}

/// The rule in force when none is installed: accept every grant.
#[derive(Clone, Copy, Debug)]
pub struct AllowAll;

impl PolicyHook for AllowAll {
    open spec fn accepts(&self, jwt: Seq<char>, grant: GrantView) -> bool {
        true
    }

    fn accept(&self, token: &EmbeddedToken) -> (r: bool) {
        true
    }
}

} // verus!
