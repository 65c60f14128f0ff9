//! Which capabilities the proxy passes on, and how it reads its TLS identity.

use vstd::prelude::*;

verus! {

pub enum ControlFlow {
    Continue,
    Abort,
}

/// An authentication mechanism, as far as the proxy tells them apart.
#[derive(Clone, Debug, Eq, PartialEq)]
pub enum AuthMechanism {
    Plain,
    Login,
    XOAuth2,
    ScramSha1,
    ScramSha1Plus,
    ScramSha256,
    ScramSha256Plus,
    /// Any other mechanism, by its name.
    Other(String),
}

/// A capability, as far as the proxy tells them apart.
#[derive(Clone, Debug, Eq, PartialEq)]
pub enum Capability {
    Imap4Rev1,
    Auth(AuthMechanism),
    SaslIr,
    Quota,
    /// `QUOTA=RES-<resource>`, by the resource's name.
    QuotaRes(String),
    QuotaSet,
    Move,
    LiteralPlus,
    LiteralMinus,
    Unselect,
    Id,
    Idle,
    /// Any other capability, by its text.
    Other(String),
}

/// Mechanisms that survive a proxy in the middle: the plain ones can be proxied, terminated
/// or upgraded, SCRAM without channel binding can be proxied; channel binding ties SCRAM to
/// the session, and of unknown mechanisms nothing is known.
pub open spec fn auth_mechanism_proxyable(mechanism: AuthMechanism) -> bool {
    match mechanism {
        AuthMechanism::Plain | AuthMechanism::Login | AuthMechanism::XOAuth2 => true,
        AuthMechanism::ScramSha1 | AuthMechanism::ScramSha256 => true,
        AuthMechanism::ScramSha1Plus | AuthMechanism::ScramSha256Plus => false,
        AuthMechanism::Other(_) => false,
    }
}

/// Capabilities that the proxy supports and passes on.
pub open spec fn capability_supported(capability: Capability) -> bool {
    match capability {
        Capability::Imap4Rev1 => true,
        Capability::Auth(mechanism) => auth_mechanism_proxyable(mechanism),
        Capability::SaslIr => true,
        Capability::Quota | Capability::QuotaRes(_) | Capability::QuotaSet => true,
        Capability::Move => true,
        Capability::LiteralPlus | Capability::LiteralMinus => true,
        Capability::Unselect => true,
        Capability::Id => true,
        Capability::Idle => true,
        Capability::Other(_) => false,
    }
}

/// The supported capabilities of `capabilities`, in their order; `IMAP4REV1` alone where none
/// is supported, so that the list is never empty.
pub open spec fn filtered_capabilities(capabilities: Seq<Capability>) -> Seq<Capability> {
    let kept = capabilities.filter(|c: Capability| capability_supported(c));
    if kept.len() > 0 {
        kept
    } else {
        seq![Capability::Imap4Rev1]
    }
}

/// The capabilities that the proxy can pass on: IMAP4REV1; AUTH= with PLAIN, LOGIN, XOAUTH2,
/// SCRAM-SHA-1 or SCRAM-SHA-256 (those without channel binding); SASL-IR; QUOTA, QUOTA=RES-*
/// and QUOTASET; MOVE; LITERAL+ and LITERAL-; UNSELECT; ID; IDLE.
pub open spec fn passes_on(capability: Capability) -> bool {
    ||| capability is Imap4Rev1
    ||| capability matches Capability::Auth(m) && (m is Plain || m is Login || m is XOAuth2
        || m is ScramSha1 || m is ScramSha256)
    ||| capability is SaslIr
    ||| capability is Quota
    ||| capability is QuotaRes
    ||| capability is QuotaSet
    ||| capability is Move
    ||| capability is LiteralPlus
    ||| capability is LiteralMinus
    ||| capability is Unselect
    ||| capability is Id
    ||| capability is Idle
}

/// Filtering keeps exactly the capabilities that the proxy can pass on: a capability is in
/// the filtered list exactly when it is in the list and passed on, or it is IMAP4REV1 and the
/// list has nothing that is passed on. So MOVE, for one, is kept wherever it is offered, and
/// channel-bound SCRAM and unknown capabilities never are.
pub proof fn lemma_filter_keeps_passed_on(capabilities: Seq<Capability>, capability: Capability)
    ensures
        filtered_capabilities(capabilities).contains(capability) <==> ((capabilities.contains(
            capability,
        ) && passes_on(capability)) || (capability == Capability::Imap4Rev1 && forall|i: int|
            0 <= i < capabilities.len() ==> !passes_on(#[trigger] capabilities[i]))),
{
    let pred = |c: Capability| capability_supported(c);
    let kept = capabilities.filter(pred);
    assert forall|c: Capability| capability_supported(c) == passes_on(c) by {
        match c {
            Capability::Auth(m) => {
                match m {
                    AuthMechanism::Other(_) => {},
                    _ => {},
                }
            },
            _ => {},
        }
    }
    if capabilities.contains(capability) && passes_on(capability) {
        let i = choose|i: int| 0 <= i < capabilities.len() && capabilities[i] == capability;
        capabilities.lemma_filter_contains(pred, i);
    }
    if kept.contains(capability) {
        capabilities.lemma_filter_contains_rev(pred, capability);
        let j = choose|j: int| 0 <= j < kept.len() && kept[j] == capability;
        capabilities.lemma_filter_pred(pred, j);
        assert(pred(kept[j]));
        assert(capability_supported(capability));
        assert(passes_on(capability));
    }
    if kept.len() > 0 {
        assert(filtered_capabilities(capabilities) == kept);
        if filtered_capabilities(capabilities).contains(capability) {
            assert(kept.contains(capability));
            assert(capabilities.contains(capability));
            assert(passes_on(capability));
        }
        capabilities.lemma_filter_pred(pred, 0);
        assert(pred(kept[0]));
        assert(passes_on(kept[0]));
        capabilities.lemma_filter_contains_rev(pred, kept[0]);
        assert(kept.contains(kept[0]));
        let i = choose|i: int| 0 <= i < capabilities.len() && capabilities[i] == kept[0];
        assert(passes_on(capabilities[i]));
    }
    if exists|i: int| 0 <= i < capabilities.len() && passes_on(#[trigger] capabilities[i]) {
        let i = choose|i: int| 0 <= i < capabilities.len() && passes_on(#[trigger] capabilities[i]);
        capabilities.lemma_filter_contains(pred, i);
        assert(kept.len() > 0);
    }
    if kept.len() == 0 {
        let fallback = seq![Capability::Imap4Rev1];
        assert(filtered_capabilities(capabilities) == fallback);
        if fallback.contains(capability) {
            let j = choose|j: int| 0 <= j < fallback.len() && fallback[j] == capability;
            assert(capability == Capability::Imap4Rev1);
        }
        if capability == Capability::Imap4Rev1 {
            assert(fallback[0] == capability);
        }
        assert(!kept.contains(capability));
        assert forall|i: int| 0 <= i < capabilities.len() implies !passes_on(
            #[trigger] capabilities[i],
        ) by {
            if passes_on(capabilities[i]) {
                assert(capability_supported(capabilities[i]));
                capabilities.lemma_filter_contains(pred, i);
            }
        }
    }
}

pub fn is_auth_mechanism_proxyable(auth_mechanism: &AuthMechanism) -> (res: bool)
    ensures
        res == auth_mechanism_proxyable(*auth_mechanism),
{
    match auth_mechanism {
        // Can be proxied, terminated, or upgraded
        AuthMechanism::Plain | AuthMechanism::Login | AuthMechanism::XOAuth2 => true,
        // Can be proxied
        AuthMechanism::ScramSha1 | AuthMechanism::ScramSha256 => true,
        // Cannot be proxied (due to session binding)
        AuthMechanism::ScramSha1Plus | AuthMechanism::ScramSha256Plus => false,
        // Unknown
        AuthMechanism::Other(_) => false,
    }
}

pub fn is_capability_supported(capability: &Capability) -> (res: bool)
    ensures
        res == capability_supported(*capability),
{
    match capability {
        Capability::Imap4Rev1 => true,
        Capability::Auth(auth_mechanism) => is_auth_mechanism_proxyable(auth_mechanism),
        Capability::SaslIr => true,
        Capability::Quota | Capability::QuotaRes(_) | Capability::QuotaSet => true,
        Capability::Move => true,
        Capability::LiteralPlus | Capability::LiteralMinus => true,
        Capability::Unselect => true,
        Capability::Id => true,
        Capability::Idle => true,
        Capability::Other(_) => false,
    }
}

/// Removes unsupported capabilities from a capability list.
pub fn filter_capabilities(capabilities: Vec<Capability>) -> (res: Vec<Capability>)
    ensures
        res@ == filtered_capabilities(capabilities@),
{
    let ghost input = capabilities@;
    let ghost pred = |c: Capability| capability_supported(c);
    let mut rest = capabilities;
    let mut kept: Vec<Capability> = Vec::new();
    let ghost mut taken: int = 0;
    while rest.len() > 0
        invariant
            pred == (|c: Capability| capability_supported(c)),
            0 <= taken <= input.len(),
            rest@ == input.skip(taken),
            kept@ == input.take(taken).filter(pred),
        decreases rest.len(),
    {
        let capability = rest.remove(0);
        proof {
            reveal(Seq::filter);
            let prefix = input.take(taken + 1);
            assert(prefix.drop_last() =~= input.take(taken));
            assert(prefix.last() == capability);
            assert(prefix.filter(pred) == if pred(capability) {
                input.take(taken).filter(pred).push(capability)
            } else {
                input.take(taken).filter(pred)
            });
            assert(input.skip(taken).remove(0) =~= input.skip(taken + 1));
            taken = taken + 1;
        }
        if is_capability_supported(&capability) {
            kept.push(capability);
        }
    }
    assert(input.take(taken) =~= input);
    if kept.len() > 0 {
        kept
    } else {
        let mut fallback: Vec<Capability> = Vec::new();
        fallback.push(Capability::Imap4Rev1);
        assert(fallback@ =~= seq![Capability::Imap4Rev1]);
        fallback
    }
}

/// A list in which every capability is supported passes the filter unchanged.
proof fn lemma_filter_keeps_supported(s: Seq<Capability>)
    requires
        forall|i: int| 0 <= i < s.len() ==> capability_supported(#[trigger] s[i]),
    ensures
        s.filter(|c: Capability| capability_supported(c)) == s,
    decreases s.len(),
{
    reveal(Seq::filter);
    if s.len() > 0 {
        lemma_filter_keeps_supported(s.drop_last());
        assert(capability_supported(s.last()));
        assert(s.drop_last().push(s.last()) =~= s);
    }
}

/// The filtered list is never empty, holds only supported capabilities, each taken from the
/// input unless it is the `IMAP4REV1` fallback, and keeps every supported capability of the
/// input; filtering it again changes nothing.
pub proof fn lemma_filtered_capabilities(capabilities: Seq<Capability>)
    ensures
        filtered_capabilities(capabilities).len() > 0,
        forall|i: int|
            0 <= i < filtered_capabilities(capabilities).len() ==> capability_supported(
                #[trigger] filtered_capabilities(capabilities)[i],
            ),
        forall|i: int|
            0 <= i < filtered_capabilities(capabilities).len() ==> (capabilities.contains(
                #[trigger] filtered_capabilities(capabilities)[i],
            ) || filtered_capabilities(capabilities)[i] == Capability::Imap4Rev1),
        forall|i: int|
            0 <= i < capabilities.len() && capability_supported(#[trigger] capabilities[i])
                ==> filtered_capabilities(capabilities).contains(capabilities[i]),
        filtered_capabilities(filtered_capabilities(capabilities)) == filtered_capabilities(
            capabilities,
        ),
{
    let pred = |c: Capability| capability_supported(c);
    let kept = capabilities.filter(pred);
    broadcast use Seq::lemma_filter_pred, Seq::lemma_filter_contains, Seq::lemma_filter_contains_rev;

    let res = filtered_capabilities(capabilities);
    assert forall|i: int| 0 <= i < res.len() implies capability_supported(#[trigger] res[i]) by {
        if kept.len() > 0 {
            assert(pred(kept[i]));
        }
    }
    assert forall|i: int| 0 <= i < res.len() implies (capabilities.contains(#[trigger] res[i])
        || res[i] == Capability::Imap4Rev1) by {
        if kept.len() > 0 {
            assert(kept.contains(kept[i]));
        }
    }
    assert forall|i: int| 0 <= i < capabilities.len() && capability_supported(
        #[trigger] capabilities[i],
    ) implies res.contains(capabilities[i]) by {
        assert(pred(capabilities[i]));
        assert(kept.contains(capabilities[i]));
    }
    lemma_filter_keeps_supported(res);
}

/// Takes the one key of the file at `path`; any other number of keys is an error that names
/// the file and the number found.
pub fn single_key<K>(keys: Vec<K>, path: String) -> (res: Result<K, IdentityError>)
    ensures
        keys@.len() == 1 ==> res == Ok::<K, IdentityError>(keys@[0]),
        keys@.len() != 1 ==> res == Err::<K, IdentityError>(
            IdentityError::UnexpectedKeyCount { path, found: keys@.len() as usize },
        ),
{
    let mut keys = keys;
    if keys.len() == 1 {
        Ok(keys.remove(0))
    } else {
        let found = keys.len();
        Err(IdentityError::UnexpectedKeyCount { path, found })
    }
}

/// Loading the TLS identity failed.
#[derive(Debug)]
pub enum IdentityError {
    /// Reading the file at `path` failed.
    Io { source: std::io::Error, path: String },
    /// The file at `path` holds `found` keys, where one is expected.
    UnexpectedKeyCount { path: String, found: usize },
}

} // verus!
