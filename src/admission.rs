use vstd::prelude::*;
use vstd::string::*;
use crate::grant::{AuthError, EmbeddedToken, Grant, GrantView};
use crate::policy::PolicyHook;
use crate::registry::AuthorizationContext;

verus! {

broadcast use vstd::string::group_string_axioms;

#[verifier::external_type_specification]
#[verifier::external_body]
pub struct ExWascapError(wascap::Error);

/// What checking a token's signature and validity window found.
pub struct Validation {
    pub signature_valid: bool,
    /// The expiry lies in the past.
    pub expired: bool,
    /// The not-before time lies in the future.
    pub cannot_use_yet: bool,
    /// When the token becomes valid, in words.
    pub not_before_human: String,
}

/// Distance from the epoch, in seconds either way, within which the token
/// checker can render a calendar date. It reads a timestamp as a signed
/// number, so the top of the `u64` range stands for dates just before the
/// epoch.
pub const LATEST_STAMP: u64 = 8_000_000_000_000;

/// The token checker can render timestamp `t` as a date.
pub open spec fn stamp_renderable(t: u64) -> bool {
    t <= LATEST_STAMP || t >= u64::MAX - LATEST_STAMP
}

/// Whether the token checker can render timestamp `t` as a date.
fn renderable(t: Option<u64>) -> (r: bool)
    ensures
        r == (t matches Some(s) ==> stamp_renderable(s)),
{
    match t {
        Some(s) => s <= LATEST_STAMP || s >= u64::MAX - LATEST_STAMP,
        None => true,
    }
}

/// Number of `.` characters in `s`.
pub open spec fn dot_count(s: Seq<char>) -> nat
    decreases s.len(),
{
    if s.len() == 0 {
        0
    } else {
        dot_count(s.drop_last()) + if s.last() == '.' {
            1nat
        } else {
            0nat
        }
    }
}

/// Both timestamps that are checked against the clock can be rendered.
pub open spec fn stamps_in_range(g: GrantView) -> bool {
    &&& (g.expires_at matches Some(t) ==> stamp_renderable(t))
    &&& (g.not_before matches Some(t) ==> stamp_renderable(t))
}

/// Length of the signature part of a token: 64 bytes in unpadded base64.
pub const SIGNATURE_CHARS: usize = 86;

/// Fewest characters of an issuer key that decode to the 4 bytes the key
/// reader needs (a prefix byte, key bytes and a 2-byte checksum).
pub const MIN_ISSUER_CHARS: usize = 7;

/// The characters after the last `.` of `s` (all of `s` when it has none).
pub open spec fn last_segment(s: Seq<char>) -> Seq<char>
    decreases s.len(),
{
    if s.len() == 0 || s.last() == '.' {
        Seq::empty()
    } else {
        last_segment(s.drop_last()).push(s.last())
    }
}

/// `c` encodes six bits whose top three are zero in unpadded base64.
pub open spec fn low_base64(c: char) -> bool {
    'A' <= c <= 'H'
}

/// A token text and the grant decoded from it have the shape the signature
/// check reads without failing: three parts; a signature part of 64 bytes
/// whose last byte has its top three bits clear (they come from the
/// second-to-last character), as the signature reader demands; an issuer key
/// long enough to read; and timestamps it can render.
pub open spec fn checkable(jwt: Seq<char>, g: GrantView) -> bool {
    &&& dot_count(jwt) == 2
    &&& last_segment(jwt).len() == SIGNATURE_CHARS
    &&& jwt.len() >= 2 && low_base64(jwt[jwt.len() - 2])
    &&& g.issuer.len() >= MIN_ISSUER_CHARS
    &&& stamps_in_range(g)
}

/// The grant fields of the claims decoded from a token text, if it decodes.
pub uninterp spec fn claims_of(jwt: Seq<char>) -> Option<GrantView>;

/// Whether the signature of a token text verifies with its issuer's key;
/// `None` when the token cannot be checked at all.
pub uninterp spec fn signature_verdict(jwt: Seq<char>) -> Option<bool>;

/// The token embedded in a module: `None` when the module or its token
/// cannot be parsed or the module's hash does not match the token,
/// `Some(None)` when there is no token, else its text and grant.
pub uninterp spec fn embedded_token(module: Seq<u8>) -> Option<Option<(Seq<char>, GrantView)>>;

/// Relies on `wascap::wasm::extract_claims`: it parses the module, takes the
/// `jwt` custom section, decodes its claims with `Claims::decode` (which
/// requires exactly three dot-separated parts) and checks the module hash; a
/// token it returns always carries metadata. The result depends on the bytes
/// alone.
#[verifier::external_body]
fn read_embedded_token(module: &[u8]) -> (r: Result<Option<EmbeddedToken>, wascap::Error>)
    ensures
        match r {
            Ok(Some(t)) => embedded_token(module@) == Some(Some((t.jwt@, t.grant@)))
                && dot_count(t.jwt@) == 2 && claims_of(t.jwt@) == Some(t.grant@),
            Ok(None) => embedded_token(module@) == Some(None::<(Seq<char>, GrantView)>),
            Err(_) => embedded_token(module@) is None,
        },
{
    let token = match wascap::wasm::extract_claims(module)? {
        Some(token) => token,
        None => return Ok(None),
    };
    let c = token.claims;
    let capabilities = c.metadata.and_then(|m| m.caps);
    let grant = Grant {
        subject: c.subject,
        issuer: c.issuer,
        issued_at: c.issued_at,
        expires_at: c.expires,
        not_before: c.not_before,
        capabilities,
    };
    Ok(Some(EmbeddedToken { jwt: token.jwt, grant }))
}

/// Relies on `wascap::jwt::validate_token`: it decodes `jwt` again with
/// `Claims::decode`, reads the issuer key, verifies the signature and
/// compares the timestamps with the system clock. Whether it fails and
/// whether the signature verifies depend on the text alone; an unset date
/// is never expired nor in the future. It indexes the third part, panics in
/// nkeys on a signature that is not 64 bytes or an issuer under 4 decoded
/// bytes, panics in ed25519 on a signature whose last byte has any of its
/// top three bits set, and panics in chrono on a timestamp past its calendar range: the
/// `requires` rules those out.
#[verifier::external_body]
fn check_token(jwt: &str) -> (r: Result<Validation, wascap::Error>)
    requires
        claims_of(jwt@) matches Some(g) && checkable(jwt@, g),
    ensures
        match r {
            Err(_) => signature_verdict(jwt@) is None,
            Ok(v) => {
                &&& signature_verdict(jwt@) == Some(v.signature_valid)
                &&& (claims_of(jwt@) matches Some(g) && g.expires_at is None ==> !v.expired)
                &&& (claims_of(jwt@) matches Some(g) && g.not_before is None ==> !v.cannot_use_yet)
            },
        },
{
    let v = wascap::jwt::validate_token::<wascap::jwt::Actor>(jwt)?;
    Ok(
        Validation {
            signature_valid: v.signature_valid,
            expired: v.expired,
            cannot_use_yet: v.cannot_use_yet,
            not_before_human: v.not_before_human,
        },
    )
}

/// Number of characters after the last `.` of `s`.
fn last_segment_len(s: &str) -> (r: usize)
    ensures
        r == last_segment(s@).len(),
{
    let n = s.unicode_len();
    let mut i: usize = n;
    assert(s@.subrange(0, n as int) =~= s@);
    assert(last_segment(s@) + s@.subrange(n as int, n as int) =~= last_segment(s@));
    while i > 0 && s.get_char(i - 1) != '.'
        invariant
            0 <= i <= n,
            n == s@.len(),
            last_segment(s@) == last_segment(s@.subrange(0, i as int)) + s@.subrange(
                i as int,
                n as int,
            ),
        decreases i,
    {
        let ghost pre = s@.subrange(0, i as int);
        assert(pre.drop_last() =~= s@.subrange(0, i - 1));
        assert(s@.subrange(i - 1, n as int) =~= seq![s@[i - 1]] + s@.subrange(i as int, n as int));
        assert(last_segment(pre) == last_segment(pre.drop_last()).push(pre.last()));
        assert(last_segment(s@.subrange(0, i - 1)).push(s@[i - 1]) + s@.subrange(i as int, n as int)
            =~= last_segment(s@.subrange(0, i - 1)) + s@.subrange(i - 1, n as int));
        i = i - 1;
    }
    assert(last_segment(s@.subrange(0, i as int)) =~= Seq::<char>::empty());
    n - i
}

/// The decision on a checked token: signature first, then expiry, then the
/// not-before time.
pub open spec fn verdict(v: Validation) -> Result<(), AuthError> {
    if !v.signature_valid {
        Err(AuthError::InvalidSignature)
    } else if v.expired {
        Err(AuthError::Expired)
    } else if v.cannot_use_yet {
        Err(AuthError::NotYetValid(v.not_before_human))
    } else {
        Ok(())
    }
}

/// Turns the outcome of a token check into a load decision.
pub fn enforce_validation(v: Validation) -> (r: Result<(), AuthError>)
    ensures
        r == verdict(v),
{
    if !v.signature_valid {
        Err(AuthError::InvalidSignature)
    } else if v.expired {
        Err(AuthError::Expired)
    } else if v.cannot_use_yet {
        Err(AuthError::NotYetValid(v.not_before_human))
    } else {
        Ok(())
    }
}

/// The full admission decision for `token` after the token check `v`, when
/// the policy rule's answer on the token is `accepted`.
pub open spec fn admission(token: EmbeddedToken, v: Validation, accepted: bool) -> Result<
    Grant,
    AuthError,
> {
    match verdict(v) {
        Err(e) => Err(e),
        Ok(()) => if accepted {
            Ok(token.grant)
        } else {
            Err(AuthError::PolicyDenied)
        },
    }
}

/// A token with a valid signature whose expiry has passed is refused as
/// expired, whatever the policy rule says.
pub proof fn lemma_expired_refused(token: EmbeddedToken, v: Validation, accepted: bool)
    requires
        v.signature_valid,
        v.expired,
    ensures
        verdict(v) == Err::<(), AuthError>(AuthError::Expired),
        admission(token, v, accepted) == Err::<Grant, AuthError>(AuthError::Expired),
{
}

/// A token with a valid signature that has not expired but whose not-before
/// time lies ahead is refused as not yet valid.
pub proof fn lemma_early_refused(token: EmbeddedToken, v: Validation, accepted: bool)
    requires
        v.signature_valid,
        !v.expired,
        v.cannot_use_yet,
    ensures
        verdict(v) == Err::<(), AuthError>(AuthError::NotYetValid(v.not_before_human)),
        admission(token, v, accepted) == Err::<Grant, AuthError>(
            AuthError::NotYetValid(v.not_before_human),
        ),
{
}

impl<H: PolicyHook> AuthorizationContext<H> {
    /// Admits the grant of `token` given the outcome `v` of checking the
    /// token: the validity checks in order, then this context's policy rule.
    pub fn decide_admission(&self, token: EmbeddedToken, v: Validation) -> (r: Result<
        Grant,
        AuthError,
    >)
        ensures
            r == admission(token, v, self.policy().accepts(token.jwt@, token.grant@)),
    {
        match enforce_validation(v) {
            Err(e) => Err(e),
            Ok(()) => {
                if self.hook().accept(&token) {
                    Ok(token.grant)
                } else {
                    Err(AuthError::PolicyDenied)
                }
            },
        }
    }

    /// Finds, checks and admits the signed grant embedded in `module`. A
    /// module without a token is refused as such. A module or token that
    /// cannot be parsed, a token the signature check cannot read, and a token
    /// whose signature does not verify are refused as invalid. Otherwise the
    /// outcome is that of `decide_admission` on the grant: an expiry or
    /// not-before refusal needs that date to be set.
    pub fn extract_and_validate(&self, module: &[u8]) -> (r: Result<Grant, AuthError>)
        ensures
            embedded_token(module@) is None ==> r == Err::<Grant, AuthError>(
                AuthError::InvalidSignature,
            ),
            embedded_token(module@) == Some(None::<(Seq<char>, GrantView)>) ==> r == Err::<
                Grant,
                AuthError,
            >(AuthError::MissingToken),
            embedded_token(module@) matches Some(Some((jwt, g))) ==> {
                if !checkable(jwt, g) || signature_verdict(jwt) != Some(true) {
                    r == Err::<Grant, AuthError>(AuthError::InvalidSignature)
                } else {
                    match r {
                        Ok(granted) => granted@ == g && self.policy().accepts(jwt, g),
                        Err(AuthError::PolicyDenied) => !self.policy().accepts(jwt, g),
                        Err(AuthError::Expired) => g.expires_at is Some,
                        Err(AuthError::NotYetValid(_)) => g.not_before is Some,
                        Err(_) => false,
                    }
                }
            },
    {
        let token = match read_embedded_token(module) {
            Err(_) => return Err(AuthError::InvalidSignature),
            Ok(None) => return Err(AuthError::MissingToken),
            Ok(Some(t)) => t,
        };
        let text = token.jwt.as_str();
        let n = text.unicode_len();
        if !renderable(token.grant.expires_at) || !renderable(token.grant.not_before)
            || last_segment_len(text) != SIGNATURE_CHARS || n < 2
            || token.grant.issuer.as_str().unicode_len() < MIN_ISSUER_CHARS {
            return Err(AuthError::InvalidSignature);
        }
        let c = text.get_char(n - 2);
        if !('A' <= c && c <= 'H') {
            return Err(AuthError::InvalidSignature);
        }
        match check_token(token.jwt.as_str()) {
            Err(_) => Err(AuthError::InvalidSignature),
            Ok(v) => self.decide_admission(token, v),
        }
    }
}

} // verus!
