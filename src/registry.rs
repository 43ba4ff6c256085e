use std::collections::HashMap;
use vstd::prelude::*;
use vstd::string::*;
use crate::grant::{Grant, GrantView};
use crate::keyed::{distinct_keys, has_key, keyed, lemma_append, lemma_entry, lemma_replace, KeyedEntry};
use crate::policy::PolicyHook;

verus! {

broadcast use {vstd::std_specs::hash::group_hash_axioms, vstd::string::group_string_axioms};

impl KeyedEntry for Grant {
    type Value = GrantView;

    open spec fn key(&self) -> Seq<char> {
        self.subject@
    }

    open spec fn value(&self) -> GrantView {
        self@
    }
}

/// The subject bound to `handle` in `bindings`, or `actor:` followed by the
/// handle in decimal.
pub open spec fn subject_or_fallback(bindings: Map<u64, Seq<char>>, handle: u64) -> Seq<char> {
    if bindings.contains_key(handle) {
        bindings[handle]
    } else {
        "actor:"@ + decimal_text(handle as nat)
    }
}

/// The ten decimal digits, in order.
pub const DIGITS: &'static str = "0123456789";

/// The decimal digits of `n`, most significant first, with no leading zero.
pub open spec fn decimal_text(n: nat) -> Seq<char>
    decreases n,
{
    if n < 10 {
        DIGITS@.subrange(n as int, n + 1int)
    } else {
        decimal_text(n / 10) + DIGITS@.subrange((n % 10) as int, (n % 10) + 1int)
    }
}

/// Appends the decimal digits of `n` to `s`.
fn append_decimal(s: &mut String, n: u64)
    ensures
        final(s)@ == old(s)@ + decimal_text(n as nat),
    decreases n,
{
    proof {
        reveal_strlit("0123456789");
    }
    if n >= 10 {
        append_decimal(s, n / 10);
    }
    let d = (n % 10) as usize;
    let digit = DIGITS.substring_char(d, d + 1);
    let ghost before = s@;
    s.append(digit);
    proof {
        if n >= 10 {
            assert(before == old(s)@ + decimal_text((n / 10) as nat));
            assert(s@ =~= old(s)@ + decimal_text(n as nat));
        } else {
            assert(s@ =~= old(s)@ + decimal_text(n as nat));
        }
    }
}

/// Why a host call was refused; either way the call fails alone.
#[derive(Clone, Copy, Debug, PartialEq, Eq, Structural)]
pub enum CallError {
    /// No instance is registered under the handle, or it was unloaded.
    UnknownHandle,
    /// The instance's grant does not permit the requested capability.
    AuthorizationDenied,
}

/// Why a subject cannot be bound to a provider.
#[derive(Clone, Copy, Debug, PartialEq, Eq, Structural)]
pub enum BindError {
    /// No grant is registered for the subject.
    UnknownSubject,
    /// The subject's grant does not permit the provider's capability.
    CapabilityNotGranted,
}

/// Once `handle` is registered with `grant`, a call through it may use
/// exactly the capabilities the grant permits, plus the grant's own subject.
pub proof fn lemma_registered_grant_decides<H: PolicyHook>(
    before: AuthorizationContext<H>,
    after: AuthorizationContext<H>,
    handle: u64,
    grant: GrantView,
    cap: Seq<char>,
)
    requires
        after.bindings() == before.bindings().insert(handle, grant.subject),
        after.grants() == before.grants().insert(grant.subject, grant),
    ensures
        after.authorizes(handle, cap) == (cap == grant.subject || grant.permits(cap)),
{
}

/// A handle bound to subject `s` may always use `s` itself as a capability,
/// whatever the grant lists.
pub proof fn lemma_self_capability<H: PolicyHook>(ctx: AuthorizationContext<H>, handle: u64)
    requires
        ctx.bindings().contains_key(handle),
    ensures
        ctx.authorizes(handle, ctx.bindings()[handle]),
{
}

/// After `handle` is unregistered, no call through it is authorized and its
/// subject reads as the `actor:` fallback.
pub proof fn lemma_unregistered_denied<H: PolicyHook>(
    before: AuthorizationContext<H>,
    after: AuthorizationContext<H>,
    handle: u64,
    cap: Seq<char>,
)
    requires
        after.bindings() == before.bindings().remove(handle),
    ensures
        !after.authorizes(handle, cap),
        subject_or_fallback(after.bindings(), handle) == "actor:"@ + decimal_text(handle as nat),
{
}

/// Registering a handle twice leaves one binding for it, to the later
/// grant's subject, and the later grant registered for that subject; other
/// handles keep their bindings.
pub proof fn lemma_register_twice<H: PolicyHook>(
    first: AuthorizationContext<H>,
    second: AuthorizationContext<H>,
    third: AuthorizationContext<H>,
    handle: u64,
    g1: GrantView,
    g2: GrantView,
)
    requires
        second.bindings() == first.bindings().insert(handle, g1.subject),
        second.grants() == first.grants().insert(g1.subject, g1),
        third.bindings() == second.bindings().insert(handle, g2.subject),
        third.grants() == second.grants().insert(g2.subject, g2),
    ensures
        third.bindings() == first.bindings().insert(handle, g2.subject),
        third.bindings().dom() == first.bindings().dom().insert(handle),
        third.grants()[g2.subject] == g2,
{
    assert(third.bindings() =~= first.bindings().insert(handle, g2.subject));
}

/// A handle registered with a grant whose only capability is `cap:a` may
/// use `cap:a` and, unless its subject is `cap:b`, not `cap:b`.
pub proof fn lemma_single_capability<H: PolicyHook>(
    before: AuthorizationContext<H>,
    after: AuthorizationContext<H>,
    handle: u64,
    grant: GrantView,
)
    requires
        after.bindings() == before.bindings().insert(handle, grant.subject),
        after.grants() == before.grants().insert(grant.subject, grant),
        grant.capabilities == Some(seq!["cap:a"@]),
        grant.subject != "cap:b"@,
    ensures
        after.authorizes(handle, "cap:a"@),
        !after.authorizes(handle, "cap:b"@),
{
    reveal_strlit("cap:a");
    reveal_strlit("cap:b");
    assert(seq!["cap:a"@][0] == "cap:a"@);
    assert(seq!["cap:a"@].contains("cap:a"@));
    assert("cap:a"@ != "cap:b"@) by {
        assert("cap:a"@[4] != "cap:b"@[4]);
    }
}

/// The shared state of a host: which subject each live instance handle runs
/// as, the grant registered for each subject, and the policy rule applied
/// when a module is admitted.
pub struct AuthorizationContext<H: PolicyHook> {
    handles: HashMap<u64, String>,
    identities: Vec<Grant>,
    hook: H,
}

impl<H: PolicyHook> AuthorizationContext<H> {
    /// The subject bound to each live handle.
    pub closed spec fn bindings(&self) -> Map<u64, Seq<char>> {
        self.handles@.map_values(|s: String| s@)
    }

    /// The registered grant of each subject.
    pub closed spec fn grants(&self) -> Map<Seq<char>, GrantView> {
        keyed(self.identities@)
    }

    /// The policy rule of this context.
    pub closed spec fn policy(&self) -> H {
        self.hook
    }

    pub closed spec fn wf(&self) -> bool {
        distinct_keys(self.identities@)
    }

    /// Whether a call through `handle` may use capability `cap`: the handle
    /// is bound, and its subject either is `cap` itself or holds a grant that
    /// permits `cap`.
    pub open spec fn authorizes(&self, handle: u64, cap: Seq<char>) -> bool {
        &&& self.bindings().contains_key(handle)
        &&& {
            let s = self.bindings()[handle];
            s == cap || (self.grants().contains_key(s) && self.grants()[s].permits(cap))
        }
    }

    /// An empty context with policy rule `hook`.
    pub fn new(hook: H) -> (r: Self)
        ensures
            r.wf(),
            r.bindings() == Map::<u64, Seq<char>>::empty(),
            r.grants() == Map::<Seq<char>, GrantView>::empty(),
            r.policy() == hook,
    {
        let r = AuthorizationContext { handles: HashMap::new(), identities: Vec::new(), hook };
        assert(r.bindings() =~= Map::<u64, Seq<char>>::empty());
        assert(r.grants() =~= Map::<Seq<char>, GrantView>::empty());
        r
    }

    /// The policy rule of this context.
    pub fn hook(&self) -> (r: &H)
        ensures
            *r == self.policy(),
    {
        &self.hook
    }

    /// Binds `handle` to the grant's subject and records the grant as that
    /// subject's, replacing any earlier binding of the handle and any earlier
    /// grant of the subject.
    pub fn register(&mut self, handle: u64, grant: Grant)
        requires
            old(self).wf(),
        ensures
            final(self).wf(),
            final(self).bindings() == old(self).bindings().insert(handle, grant.subject@),
            final(self).grants() == old(self).grants().insert(grant.subject@, grant@),
            final(self).policy() == old(self).policy(),
    {
        let ghost old_ids = self.identities@;
        let ghost g = grant;
        self.handles.insert(handle, grant.subject.clone());
        match self.position(&grant.subject) {
            Some(i) => {
                self.identities.set(i, grant);
                proof {
                    lemma_replace(old_ids, self.identities@, i as int, g);
                }
            },
            None => {
                self.identities.push(grant);
                proof {
                    lemma_append(old_ids, self.identities@, g);
                }
            },
        }
        assert(self.bindings() =~= old(self).bindings().insert(handle, g.subject@));
    }

    /// Ends the instance behind `handle`: drops its binding and the grant of
    /// the subject it was bound to. Other handles bound to that subject keep
    /// their binding but no longer find a grant.
    pub fn unregister(&mut self, handle: u64)
        requires
            old(self).wf(),
        ensures
            final(self).wf(),
            final(self).bindings() == old(self).bindings().remove(handle),
            final(self).grants() == if old(self).bindings().contains_key(handle) {
                old(self).grants().remove(old(self).bindings()[handle])
            } else {
                old(self).grants()
            },
            final(self).policy() == old(self).policy(),
    {
        let ghost old_ids = self.identities@;
        let removed = self.handles.remove(&handle);
        assert(self.bindings() =~= old(self).bindings().remove(handle));
        if let Some(subject) = removed {
            if let Some(i) = self.position(&subject) {
                self.identities.remove(i);
                proof {
                    let ids = self.identities@;
                    let gone = subject@;
                    assert(ids == old_ids.remove(i as int));
                    assert forall|a: int, b: int|
                        0 <= a < ids.len() && 0 <= b < ids.len() && a != b implies (
                    #[trigger] ids[a]).subject@ != (#[trigger] ids[b]).subject@ by {
                        let oa = if a < i { a } else { a + 1 };
                        let ob = if b < i { b } else { b + 1 };
                        assert(ids[a] == old_ids[oa]);
                        assert(ids[b] == old_ids[ob]);
                    }
                    let m = old(self).grants().remove(gone);
                    assert forall|s: Seq<char>| #[trigger] keyed(ids).contains_key(s)
                        == m.contains_key(s) by {
                        if has_key(ids, s) {
                            let k = choose|k: int| 0 <= k < ids.len() && (#[trigger] ids[k]).subject@ == s;
                            let ok = if k < i { k } else { k + 1 };
                            assert(old_ids[ok].subject@ == s);
                            assert(ok != i);
                        }
                        if has_key(old_ids, s) && s != gone {
                            let k = choose|k: int| 0 <= k < old_ids.len() && (#[trigger] old_ids[k]).subject@ == s;
                            assert(k != i);
                            let nk = if k < i { k } else { k - 1 };
                            assert(ids[nk].subject@ == s);
                        }
                    }
                    assert forall|s: Seq<char>| #[trigger] keyed(ids).contains_key(s)
                        implies keyed(ids)[s] == m[s] by {
                        let k = choose|k: int| 0 <= k < ids.len() && (#[trigger] ids[k]).subject@ == s;
                        let ok = if k < i { k } else { k + 1 };
                        assert(ids[k] == old_ids[ok]);
                        lemma_entry(ids, k);
                        lemma_entry(old_ids, ok);
                    }
                    assert(keyed(ids) =~= m);
                }
            } else {
                assert(old(self).grants().remove(subject@) =~= old(self).grants());
            }
        }
    }

    /// The subject bound to `handle`, or `actor:` followed by the handle in
    /// decimal when the handle is not bound.
    pub fn lookup_subject(&self, handle: u64) -> (r: String)
        ensures
            r@ == subject_or_fallback(self.bindings(), handle),
    {
        match self.handles.get(&handle) {
            Some(s) => s.clone(),
            None => {
                let mut text = String::from_str("actor:");
                proof {
                    reveal_strlit("actor:");
                }
                append_decimal(&mut text, handle);
                text
            },
        }
    }

    /// The grant registered for `subject`, if any.
    pub fn lookup_grant(&self, subject: &str) -> (r: Option<Grant>)
        requires
            self.wf(),
        ensures
            match r {
                Some(g) => self.grants().contains_key(subject@) && g@ == self.grants()[subject@],
                None => !self.grants().contains_key(subject@),
            },
    {
        let key = subject.to_string();
        match self.position(&key) {
            Some(i) => {
                proof {
                    lemma_entry(self.identities@, i as int);
                }
                Some(self.identities[i].duplicate())
            },
            None => None,
        }
    }

    /// Whether a call through `handle` may use capability `cap`.
    pub fn is_authorized(&self, handle: u64, cap: &str) -> (r: bool)
        requires
            self.wf(),
        ensures
            r == self.authorizes(handle, cap@),
    {
        match self.handles.get(&handle) {
            None => {
                assert(!self.bindings().contains_key(handle));
                false
            },
            Some(subject) => {
                assert(self.bindings().contains_key(handle) && self.bindings()[handle] == subject@);
                let wanted = cap.to_string();
                if *subject == wanted {
                    return true;
                }
                match self.position(subject) {
                    None => false,
                    Some(i) => {
                        proof {
                            lemma_entry(self.identities@, i as int);
                        }
                        self.identities[i].has_capability(cap)
                    },
                }
            },
        }
    }

    /// The decision on one host call through `handle` asking for `cap`: an
    /// unbound handle is unknown, a bound one without permission is denied.
    pub fn authorize_call(&self, handle: u64, cap: &str) -> (r: Result<(), CallError>)
        requires
            self.wf(),
        ensures
            !self.bindings().contains_key(handle) ==> r == Err::<(), CallError>(
                CallError::UnknownHandle,
            ),
            self.bindings().contains_key(handle) ==> r == if self.authorizes(handle, cap@) {
                Ok::<(), CallError>(())
            } else {
                Err(CallError::AuthorizationDenied)
            },
    {
        if !self.handles.contains_key(&handle) {
            Err(CallError::UnknownHandle)
        } else if self.is_authorized(handle, cap) {
            Ok(())
        } else {
            Err(CallError::AuthorizationDenied)
        }
    }

    /// A copy of every registered subject with its grant, one pair per subject.
    pub fn snapshot_all(&self) -> (r: Vec<(String, Grant)>)
        requires
            self.wf(),
        ensures
            forall|s: Seq<char>|
                self.grants().contains_key(s) <==> exists|i: int|
                    0 <= i < r.len() && (#[trigger] r@[i]).0@ == s,
            forall|i: int|
                0 <= i < r.len() ==> self.grants()[(#[trigger] r@[i]).0@] == r@[i].1@,
            forall|i: int, j: int|
                0 <= i < r.len() && 0 <= j < r.len() && i != j ==> (#[trigger] r@[i]).0@ != (
                #[trigger] r@[j]).0@,
    {
        let mut r: Vec<(String, Grant)> = Vec::new();
        let mut i: usize = 0;
        while i < self.identities.len()
            invariant
                0 <= i <= self.identities.len(),
                self.wf(),
                r.len() == i,
                forall|k: int|
                    0 <= k < i ==> (#[trigger] r@[k]).0@ == self.identities@[k].subject@
                        && r@[k].1@ == self.identities@[k]@,
            decreases self.identities.len() - i,
        {
            let g = &self.identities[i];
            r.push((g.subject.clone(), g.duplicate()));
            i = i + 1;
        }
        proof {
            let ids = self.identities@;
            assert forall|s: Seq<char>| self.grants().contains_key(s) implies exists|i: int|
                0 <= i < r.len() && (#[trigger] r@[i]).0@ == s by {
                let k = choose|k: int| 0 <= k < ids.len() && (#[trigger] ids[k]).subject@ == s;
                assert(r@[k].0@ == s);
            }
            assert forall|i: int| 0 <= i < r.len() implies self.grants()[(#[trigger] r@[i]).0@]
                == r@[i].1@ by {
                lemma_entry(ids, i);
            }
            assert forall|s: Seq<char>| (exists|i: int|
                0 <= i < r.len() && (#[trigger] r@[i]).0@ == s) implies self.grants().contains_key(s) by {
                let k = choose|k: int| 0 <= k < r.len() && (#[trigger] r@[k]).0@ == s;
                lemma_entry(ids, k);
            }
        }
        r
    }

    /// Whether `subject` may be bound to the provider `cap`: it must hold a
    /// registered grant, and that grant must permit `cap`.
    pub fn check_binding(&self, subject: &str, cap: &str) -> (r: Result<(), BindError>)
        requires
            self.wf(),
        ensures
            !self.grants().contains_key(subject@) ==> r == Err::<(), BindError>(
                BindError::UnknownSubject,
            ),
            self.grants().contains_key(subject@) ==> r == if self.grants()[subject@].permits(cap@) {
                Ok::<(), BindError>(())
            } else {
                Err(BindError::CapabilityNotGranted)
            },
    {
        let key = subject.to_string();
        match self.position(&key) {
            None => Err(BindError::UnknownSubject),
            Some(i) => {
                proof {
                    lemma_entry(self.identities@, i as int);
                }
                if self.identities[i].has_capability(cap) {
                    Ok(())
                } else {
                    Err(BindError::CapabilityNotGranted)
                }
            },
        }
    }

    /// Index of the grant registered for `subject`.
    fn position(&self, subject: &String) -> (r: Option<usize>)
        requires
            self.wf(),
        ensures
            match r {
                Some(i) => i < self.identities.len() && self.identities@[i as int].subject@
                    == subject@,
                None => !has_key(self.identities@, subject@),
            },
    {
        let mut i: usize = 0;
        while i < self.identities.len()
            invariant
                0 <= i <= self.identities.len(),
                forall|j: int| 0 <= j < i ==> (#[trigger] self.identities@[j]).subject@ != subject@,
            decreases self.identities.len() - i,
        {
            if self.identities[i].subject == *subject {
                return Some(i);
            }
            i = i + 1;
        }
        None
    }
}

} // verus!
