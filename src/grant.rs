use vstd::prelude::*;
use vstd::string::*;

verus! {

broadcast use vstd::string::group_string_axioms;

/// The decoded, verified claims of an actor module.
#[derive(Clone, Debug, PartialEq, Eq)]
pub struct Grant {
    /// Stable identity of the module.
    pub subject: String,
    pub issuer: String,
    /// Seconds since the epoch.
    pub issued_at: u64,
    pub expires_at: Option<u64>,
    pub not_before: Option<u64>,
    /// Capability identifiers the subject may invoke; `None` when the token
    /// carries no capability list.
    pub capabilities: Option<Vec<String>>,
}

/// Why a module was refused at load time.
#[derive(Debug, PartialEq, Eq)]
pub enum AuthError {
    /// The module carries no embedded token.
    MissingToken,
    /// The module, its token or the token's signature did not verify.
    InvalidSignature,
    /// The token's expiry lies in the past.
    Expired,
    /// The token is not valid yet; holds a description of when it becomes valid.
    NotYetValid(String),
    /// The policy hook rejected the token.
    PolicyDenied,
}

/// The mathematical value of a [`Grant`].
pub struct GrantView {
    pub subject: Seq<char>,
    pub issuer: Seq<char>,
    pub issued_at: u64,
    pub expires_at: Option<u64>,
    pub not_before: Option<u64>,
    pub capabilities: Option<Seq<Seq<char>>>,
}

/// The text of each string in `v`.
pub open spec fn texts(v: Seq<String>) -> Seq<Seq<char>> {
    v.map_values(|s: String| s@)
}

impl View for Grant {
    type V = GrantView;

    open spec fn view(&self) -> GrantView {
        GrantView {
            subject: self.subject@,
            issuer: self.issuer@,
            issued_at: self.issued_at,
            expires_at: self.expires_at,
            not_before: self.not_before,
            capabilities: match self.capabilities {
                Some(caps) => Some(texts(caps@)),
                None => None,
            },
        }
    }
}

impl GrantView {
    /// The grant permits capability `cap`; a missing capability list permits nothing.
    pub open spec fn permits(self, cap: Seq<char>) -> bool {
        match self.capabilities {
            Some(caps) => caps.contains(cap),
            None => false,
        }
    }
}

impl Grant {

    /// Whether the grant lists capability `cap`.
    pub fn has_capability(&self, cap: &str) -> (r: bool)
        ensures
            r == self@.permits(cap@),
    {
        match &self.capabilities {
            None => false,
            Some(caps) => {
                let wanted = cap.to_string();
                proof {
                    assert(texts(caps@).len() == caps@.len());
                }
                let mut i: usize = 0;
                while i < caps.len()
                    invariant
                        0 <= i <= caps.len(),
                        wanted@ == cap@,
                        self@.capabilities == Some(texts(caps@)),
                        forall|j: int| 0 <= j < i ==> (#[trigger] texts(caps@)[j]) != cap@,
                    decreases caps.len() - i,
                {
                    if caps[i] == wanted {
                        assert(texts(caps@)[i as int] == cap@);
                        assert(texts(caps@).contains(cap@));
                        return true;
                    }
                    i = i + 1;
                }
                assert(!texts(caps@).contains(cap@));
                false
            }
        }
    }

    /// A copy equal to this grant.
    pub fn duplicate(&self) -> (r: Grant)
        ensures
            r@ == self@,
    {
        let capabilities = match &self.capabilities {
            None => None,
            Some(caps) => Some(copy_strings(caps)),
        };
        Grant {
            subject: self.subject.clone(),
            issuer: self.issuer.clone(),
            issued_at: self.issued_at,
            expires_at: self.expires_at,
            not_before: self.not_before,
            capabilities,
        }
    }
}

fn copy_strings(v: &Vec<String>) -> (r: Vec<String>)
    ensures
        r@ == v@,
{
    let mut r: Vec<String> = Vec::new();
    let mut i: usize = 0;
    while i < v.len()
        invariant
            0 <= i <= v.len(),
            r@ == v@.subrange(0, i as int),
        decreases v.len() - i,
    {
        r.push(v[i].clone());
        i = i + 1;
        assert(r@ =~= v@.subrange(0, i as int));
    }
    assert(r@ =~= v@);
    r
}

/// A signed token found in a module: its encoded text and the grant decoded
/// from it.
pub struct EmbeddedToken {
    pub jwt: String,
    pub grant: Grant,
}

} // verus!
