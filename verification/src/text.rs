//! The messages of refusals.

use crate::address::address_text;
use crate::error::ActorError;
use crate::error::wording;
use crate::error::Cause;
use crate::ids;
use crate::ids::SubscriptionId;
use crate::key::Key;
use crate::model::SubId;
use crate::num::big_text;
use crate::num::big_value;
use crate::num::decimal_text;
use crate::num::token_decimal_text;
use crate::num::token_text;
use crate::num::token_value;
use fvm_shared::address::Address;
use fvm_shared::bigint::BigInt;
use fvm_shared::econ::TokenAmount;
use vstd::prelude::*;

verus! {

/// The hexadecimal digit for a number below sixteen.
pub open spec fn hex_digit(v: int) -> char {
    if v == 0 {
        '0'
    } else if v == 1 {
        '1'
    } else if v == 2 {
        '2'
    } else if v == 3 {
        '3'
    } else if v == 4 {
        '4'
    } else if v == 5 {
        '5'
    } else if v == 6 {
        '6'
    } else if v == 7 {
        '7'
    } else if v == 8 {
        '8'
    } else if v == 9 {
        '9'
    } else if v == 10 {
        'a'
    } else if v == 11 {
        'b'
    } else if v == 12 {
        'c'
    } else if v == 13 {
        'd'
    } else if v == 14 {
        'e'
    } else {
        'f'
    }
}

/// Bytes in lower-case hexadecimal, two digits each, the high one first.
pub open spec fn hex_of(bytes: Seq<u8>) -> Seq<char> {
    Seq::new(
        2 * bytes.len(),
        |i: int|
            hex_digit(
                if i % 2 == 0 {
                    bytes[i / 2] as int / 16
                } else {
                    bytes[i / 2] as int % 16
                },
            ),
    )
}

/// The hexadecimal digit for a number below sixteen, as a string.
fn hex_digit_str(v: u8) -> (r: &'static str)
    requires
        v < 16,
    ensures
        r@ == seq![hex_digit(v as int)],
{
    proof {
        reveal_strlit("0");
        reveal_strlit("1");
        reveal_strlit("2");
        reveal_strlit("3");
        reveal_strlit("4");
        reveal_strlit("5");
        reveal_strlit("6");
        reveal_strlit("7");
        reveal_strlit("8");
        reveal_strlit("9");
        reveal_strlit("a");
        reveal_strlit("b");
        reveal_strlit("c");
        reveal_strlit("d");
        reveal_strlit("e");
        reveal_strlit("f");
    }
    let r = if v == 0 {
        "0"
    } else if v == 1 {
        "1"
    } else if v == 2 {
        "2"
    } else if v == 3 {
        "3"
    } else if v == 4 {
        "4"
    } else if v == 5 {
        "5"
    } else if v == 6 {
        "6"
    } else if v == 7 {
        "7"
    } else if v == 8 {
        "8"
    } else if v == 9 {
        "9"
    } else if v == 10 {
        "a"
    } else if v == 11 {
        "b"
    } else if v == 12 {
        "c"
    } else if v == 13 {
        "d"
    } else if v == 14 {
        "e"
    } else {
        "f"
    };
    assert(r@ =~= seq![hex_digit(v as int)]);
    r
}

/// Bytes in lower-case hexadecimal.
pub fn hex_text(bytes: &[u8]) -> (r: String)
    ensures
        r@ == hex_of(bytes@),
{
    let n = bytes.len();
    let mut r = String::from_str("");
    proof {
        reveal_strlit("");
    }
    let mut i: usize = 0;
    while i < n
        invariant
            i <= n,
            n == bytes@.len(),
            r@.len() == 2 * i,
            forall|j: int| 0 <= j < 2 * i ==> r@[j] == hex_of(bytes@)[j],
        decreases n - i,
    {
        let b = bytes[i];
        r.append(hex_digit_str(b / 16));
        r.append(hex_digit_str(b % 16));
        i += 1;
    }
    assert(r@ =~= hex_of(bytes@));
    r
}

impl ids::Hash {
    /// What a hash is written as: its bytes in hexadecimal.
    pub open spec fn spec_text(self) -> Seq<char> {
        hex_of(self.0@)
    }

    /// The hash as text.
    pub fn to_string(&self) -> (r: String)
        ensures
            r@ == self.spec_text(),
    {
        hex_text(self.0.as_slice())
    }
}

/// What the id of a subscription is written as: `default`, or its bytes in
/// hexadecimal.
pub open spec fn id_text(id: SubId) -> Seq<char> {
    match id {
        None => "default"@,
        Some(k) => hex_of(k),
    }
}

impl SubscriptionId {
    /// What an id is written as: `default`, or its bytes in hexadecimal.
    pub open spec fn spec_text(self) -> Seq<char> {
        id_text(self.ident())
    }

    /// The id as text.
    pub fn to_string(&self) -> (r: String)
        ensures
            r@ == self.spec_text(),
    {
        match self {
            SubscriptionId::Default => String::from_str("default"),
            SubscriptionId::Key(k) => hex_text(k.as_slice()),
        }
    }
}

/// What the message of a refusal names besides addresses. A message uses of
/// it what its reason speaks of.
pub struct Named {
    /// The blob.
    pub hash: ids::Hash,
    /// The subscription.
    pub id: SubId,
    /// What was there: the free credit, what an approval has left under its
    /// limit, the free capacity, or the tokens sent.
    pub available: int,
    /// What was asked for: the credit or the capacity, the price in tokens,
    /// or the credit already spent that a new limit must cover.
    pub required: int,
}

/// A blob and a subscription to name, and no amounts.
pub open spec fn naming(hash: ids::Hash, id: SubId) -> Named {
    Named { hash, id, available: 0, required: 0 }
}

/// Two amounts in brackets.
pub open spec fn amounts_words(available: Seq<char>, required: Seq<char>) -> Seq<char> {
    " (available: "@ + available + "; required: "@ + required + ")"@
}

/// An approval, by the texts of the three addresses.
pub open spec fn approval_words(from: Seq<char>, to: Seq<char>, caller: Seq<char>) -> Seq<char> {
    "approval from "@ + from + " to "@ + to + " via caller "@ + caller
}

/// That an account does not exist.
pub open spec fn account_not_found_words(account: Seq<char>) -> Seq<char> {
    "account "@ + account + " not found"@
}

/// That an approval does not exist.
pub open spec fn approval_not_found_words(from: Seq<char>, to: Seq<char>, caller: Seq<char>) -> Seq<
    char,
> {
    approval_words(from, to, caller) + " not found"@
}

/// That an approval has expired.
pub open spec fn approval_expired_words(from: Seq<char>, to: Seq<char>, caller: Seq<char>) -> Seq<
    char,
> {
    approval_words(from, to, caller) + " expired"@
}

/// That an approval has too little left under its limit.
pub open spec fn approval_exhausted_words(
    from: Seq<char>,
    to: Seq<char>,
    caller: Seq<char>,
    available: int,
    required: int,
) -> Seq<char> {
    approval_words(from, to, caller) + " has insufficient credit"@ + amounts_words(
        decimal_text(available),
        decimal_text(required),
    )
}

/// That the subnet has too little capacity left.
pub open spec fn insufficient_capacity_words(available: int, required: int) -> Seq<char> {
    "subnet has insufficient storage capacity"@ + amounts_words(
        decimal_text(available),
        decimal_text(required),
    )
}

/// That tokens came with a call that spends through an approval.
pub open spec fn inline_buy_words(subscriber: Seq<char>) -> Seq<char> {
    "can not buy credits inline for "@ + subscriber
}

/// That an account has too little free credit.
pub open spec fn insufficient_credit_words(subscriber: Seq<char>, available: int, required: int) -> Seq<
    char,
> {
    "account "@ + subscriber + " has insufficient credit"@ + amounts_words(
        decimal_text(available),
        decimal_text(required),
    )
}

/// That too few tokens were sent for the credit that is missing.
pub open spec fn insufficient_tokens_words(subscriber: Seq<char>, received: int, required: int) -> Seq<
    char,
> {
    "account "@ + subscriber + " sent insufficient tokens (received: "@ + token_decimal_text(
        received,
    ) + "; required: "@ + token_decimal_text(required) + ")"@
}

/// That a subscriber holds no subscription on a blob.
pub open spec fn not_subscribed_words(subscriber: Seq<char>, hash: ids::Hash) -> Seq<char> {
    "subscriber "@ + subscriber + " is not subscribed to blob "@ + hash.spec_text()
}

/// That the origin is not the subscriber of a blob.
pub open spec fn not_subscriber_words(origin: Seq<char>, subscriber: Seq<char>, hash: ids::Hash) -> Seq<
    char,
> {
    "origin "@ + origin + " is not subscriber "@ + subscriber + " for blob "@ + hash.spec_text()
}

/// That the origin and the caller are not the delegate that paid, nor the
/// origin the subscriber.
pub open spec fn not_delegate_words(
    origin: Seq<char>,
    delegate_origin: Seq<char>,
    caller: Seq<char>,
    delegate_caller: Seq<char>,
    subscriber: Seq<char>,
    hash: ids::Hash,
) -> Seq<char> {
    "origin "@ + origin + " is not delegate origin "@ + delegate_origin + " or caller "@ + caller
        + " is not delegate caller "@ + delegate_caller + " or subscriber "@ + subscriber
        + " for blob "@ + hash.spec_text()
}

/// That the subscriptions of a subscriber to a blob cover no epoch.
pub open spec fn no_group_expiry_words(subscriber: Seq<char>, hash: ids::Hash) -> Seq<char> {
    "subscriptions of "@ + subscriber + " to blob "@ + hash.spec_text() + " cover no epoch"@
}

/// Whether the message of the refusal is the one that goes with its reason
/// and with what it names. Where a message names an address, the words
/// around the address are fixed and the text of the address is not: that is
/// written for the network of the process.
pub open spec fn says(e: ActorError, n: Named) -> bool {
    let t = e.text@;
    match e.cause {
        Cause::NegativeTokenAmount => wording(e.cause) == Some(t),
        Cause::NoCapacity => wording(e.cause) == Some(t),
        Cause::ApprovalTtlTooShort => wording(e.cause) == Some(t),
        Cause::BlobTtlTooShort => wording(e.cause) == Some(t),
        Cause::LimitBelowUsed => t
            == "limit cannot be less than amount of already spent credits ("@ + decimal_text(
            n.required,
        ) + ")"@,
        Cause::AccountNotFound => exists|a: Seq<char>| t == #[trigger] account_not_found_words(a),
        Cause::ApprovalNotFound => exists|a: Seq<char>, b: Seq<char>, c: Seq<char>|
            t == #[trigger] approval_not_found_words(a, b, c),
        Cause::ApprovalExpired => exists|a: Seq<char>, b: Seq<char>, c: Seq<char>|
            t == #[trigger] approval_expired_words(a, b, c),
        Cause::ApprovalExhausted => exists|a: Seq<char>, b: Seq<char>, c: Seq<char>|
            t == #[trigger] approval_exhausted_words(a, b, c, n.available, n.required),
        Cause::InsufficientCapacity => t == insufficient_capacity_words(n.available, n.required),
        Cause::InlineBuyWithDelegation => exists|a: Seq<char>| t == #[trigger] inline_buy_words(a),
        Cause::InsufficientCredit => exists|a: Seq<char>|
            t == #[trigger] insufficient_credit_words(a, n.available, n.required),
        Cause::InsufficientTokens => exists|a: Seq<char>|
            t == #[trigger] insufficient_tokens_words(a, n.available, n.required),
        Cause::BlobNotFound => t == "blob "@ + n.hash.spec_text() + " not found"@,
        Cause::RenewFailedBlob => t == "cannot renew failed blob "@ + n.hash.spec_text(),
        Cause::NotSubscribed => exists|a: Seq<char>| t == #[trigger] not_subscribed_words(a, n.hash),
        Cause::SubscriptionNotFound => t == "subscription id "@ + id_text(n.id) + " not found"@,
        Cause::FinalizeAsNonFinal => t == "cannot finalize blob "@ + n.hash.spec_text()
            + " as added or pending"@,
        Cause::FinalizeFromAdded => t == "blob "@ + n.hash.spec_text()
            + " cannot be finalized from status added"@,
        Cause::NotSubscriber => exists|a: Seq<char>, b: Seq<char>|
            t == #[trigger] not_subscriber_words(a, b, n.hash),
        Cause::NotDelegate => exists|
            a: Seq<char>,
            b: Seq<char>,
            c: Seq<char>,
            d: Seq<char>,
            f: Seq<char>,
        | t == #[trigger] not_delegate_words(a, b, c, d, f, n.hash),
        Cause::NoGroupExpiry => exists|a: Seq<char>| t == #[trigger] no_group_expiry_words(a, n.hash),
    }
}

/// Whether the message is the one that goes with the reason whatever is
/// named: so it is where the reason has one message.
pub open spec fn says_plainly(e: ActorError) -> bool {
    forall|n: Named| #[trigger] says(e, n)
}

/// Whether the message is the one that goes with the reason and the two
/// amounts, whatever blob and subscription are named.
pub open spec fn says_amounts(e: ActorError, amounts: (int, int)) -> bool {
    forall|n: Named| n.available == amounts.0 && n.required == amounts.1 ==> #[trigger] says(e, n)
}

/// A message that names no amounts goes with whatever amounts.
pub proof fn lemma_names_no_amounts(e: ActorError, given: (int, int), other: (int, int))
    requires
        says_amounts(e, given),
        e.cause != Cause::LimitBelowUsed,
        e.cause != Cause::ApprovalExhausted,
        e.cause != Cause::InsufficientCapacity,
        e.cause != Cause::InsufficientCredit,
        e.cause != Cause::InsufficientTokens,
    ensures
        says_amounts(e, other),
{
    assert forall|n: Named| n.available == other.0 && n.required == other.1 implies #[trigger] says(
        e,
        n,
    ) by {
        let m = Named { available: given.0, required: given.1, ..n };
        assert(says(e, m));
    }
}

/// A refusal whose message is `a`.
fn refuse1(cause: Cause, a: &str) -> (e: ActorError)
    ensures
        e.cause == cause,
        e.text@ == a@,
{
    ActorError::new(cause, String::from_str(a))
}

/// A refusal whose message is `a`, `x`, `b` in a row.
fn refuse3(cause: Cause, a: &str, x: &str, b: &str) -> (e: ActorError)
    ensures
        e.cause == cause,
        e.text@ == a@ + x@ + b@,
{
    let mut t = String::from_str(a);
    t.append(x);
    t.append(b);
    ActorError::new(cause, t)
}

/// A refusal whose message is `a`, `x`, `b`, `y`, `c` in a row.
fn refuse5(cause: Cause, a: &str, x: &str, b: &str, y: &str, c: &str) -> (e: ActorError)
    ensures
        e.cause == cause,
        e.text@ == a@ + x@ + b@ + y@ + c@,
{
    let mut t = String::from_str(a);
    t.append(x);
    t.append(b);
    t.append(y);
    t.append(c);
    ActorError::new(cause, t)
}

/// A refusal whose message is the seven pieces in a row.
fn refuse7(
    cause: Cause,
    a: &str,
    x: &str,
    b: &str,
    y: &str,
    c: &str,
    z: &str,
    d: &str,
) -> (e: ActorError)
    ensures
        e.cause == cause,
        e.text@ == a@ + x@ + b@ + y@ + c@ + z@ + d@,
{
    let mut t = String::from_str(a);
    t.append(x);
    t.append(b);
    t.append(y);
    t.append(c);
    t.append(z);
    t.append(d);
    ActorError::new(cause, t)
}

/// A negative token amount was offered for credit.
pub(crate) fn negative_token_amount() -> (e: ActorError)
    ensures
        e.cause == Cause::NegativeTokenAmount,
        says_plainly(e),
{
    refuse1(Cause::NegativeTokenAmount, "token amount must be positive")
}

/// No storage capacity is left, so no credit is sold.
pub(crate) fn no_capacity() -> (e: ActorError)
    ensures
        e.cause == Cause::NoCapacity,
        says_plainly(e),
{
    refuse1(Cause::NoCapacity, "credits not available (subnet has reached storage capacity)")
}

/// An approval's time-to-live is below the minimum.
pub(crate) fn approval_ttl_too_short() -> (e: ActorError)
    ensures
        e.cause == Cause::ApprovalTtlTooShort,
        says_plainly(e),
{
    refuse1(Cause::ApprovalTtlTooShort, "minimum approval TTL is 3600")
}

/// A blob's time-to-live is below the minimum.
pub(crate) fn blob_ttl_too_short() -> (e: ActorError)
    ensures
        e.cause == Cause::BlobTtlTooShort,
        says_plainly(e),
{
    refuse1(Cause::BlobTtlTooShort, "minimum blob TTL is 3600")
}

/// An approval's new limit is below the credit `used` through it.
pub(crate) fn limit_below_used(used: &BigInt) -> (e: ActorError)
    ensures
        e.cause == Cause::LimitBelowUsed,
        says_amounts(e, (0, big_value(*used))),
{
    refuse3(
        Cause::LimitBelowUsed,
        "limit cannot be less than amount of already spent credits (",
        big_text(used).as_str(),
        ")",
    )
}

/// The account `from` does not exist.
pub(crate) fn account_not_found(from: &Address) -> (e: ActorError)
    ensures
        e.cause == Cause::AccountNotFound,
        says_plainly(e),
{
    let a = address_text(from);
    let e = refuse3(Cause::AccountNotFound, "account ", a.as_str(), " not found");
    proof {
        reveal_strlit("");
    }
    assert(e.text@ == account_not_found_words(a@));
    e
}

/// The words for an approval.
fn approval_phrase(subscriber: &Address, origin: &Address, caller: &Address) -> (r: (
    String,
    Ghost<(Seq<char>, Seq<char>, Seq<char>)>,
))
    ensures
        r.0@ == approval_words(r.1@.0, r.1@.1, r.1@.2),
{
    let a = address_text(subscriber);
    let b = address_text(origin);
    let c = address_text(caller);
    let mut head = String::from_str("approval from ");
    head.append(a.as_str());
    head.append(" to ");
    head.append(b.as_str());
    head.append(" via caller ");
    head.append(c.as_str());
    (head, Ghost((a@, b@, c@)))
}

/// No approval lets `origin` spend the credit of `subscriber` through `caller`.
pub(crate) fn approval_not_found(subscriber: &Address, origin: &Address, caller: &Address) -> (e:
    ActorError)
    ensures
        e.cause == Cause::ApprovalNotFound,
        says_plainly(e),
{
    let (head, Ghost(w)) = approval_phrase(subscriber, origin, caller);
    let e = refuse3(Cause::ApprovalNotFound, head.as_str(), " not found", "");
    proof {
        reveal_strlit("");
    }
    assert(e.text@ =~= approval_not_found_words(w.0, w.1, w.2));
    e
}

/// The approval that lets `origin` spend the credit of `subscriber` through
/// `caller` has expired.
pub(crate) fn approval_expired(subscriber: &Address, origin: &Address, caller: &Address) -> (e:
    ActorError)
    ensures
        e.cause == Cause::ApprovalExpired,
        says_plainly(e),
{
    let (head, Ghost(w)) = approval_phrase(subscriber, origin, caller);
    let e = refuse3(Cause::ApprovalExpired, head.as_str(), " expired", "");
    proof {
        reveal_strlit("");
    }
    assert(e.text@ =~= approval_expired_words(w.0, w.1, w.2));
    e
}

/// The approval that lets `origin` spend the credit of `subscriber` through
/// `caller` has only `available` left under its limit, where `required` is
/// needed.
pub(crate) fn approval_exhausted(
    subscriber: &Address,
    origin: &Address,
    caller: &Address,
    available: &BigInt,
    required: &BigInt,
) -> (e: ActorError)
    ensures
        e.cause == Cause::ApprovalExhausted,
        says_amounts(e, (big_value(*available), big_value(*required))),
{
    let (head, Ghost(w)) = approval_phrase(subscriber, origin, caller);
    let e = refuse7(
        Cause::ApprovalExhausted,
        head.as_str(),
        " has insufficient credit",
        " (available: ",
        big_text(available).as_str(),
        "; required: ",
        big_text(required).as_str(),
        ")",
    );
    proof {
        reveal_strlit("");
    }
    assert(e.text@ =~= approval_exhausted_words(
        w.0,
        w.1,
        w.2,
        big_value(*available),
        big_value(*required),
    ));
    e
}

/// The subnet has only `available` bytes left, where `required` are needed.
pub(crate) fn insufficient_capacity(available: &BigInt, required: &BigInt) -> (e: ActorError)
    ensures
        e.cause == Cause::InsufficientCapacity,
        says_amounts(e, (big_value(*available), big_value(*required))),
{
    let e = refuse7(
        Cause::InsufficientCapacity,
        "subnet has insufficient storage capacity",
        " (available: ",
        big_text(available).as_str(),
        "; required: ",
        big_text(required).as_str(),
        ")",
        "",
    );
    proof {
        reveal_strlit("");
    }
    assert(e.text@ =~= insufficient_capacity_words(big_value(*available), big_value(*required)));
    e
}

/// Tokens were sent along with a call that spends the credit of `subscriber`
/// through an approval.
pub(crate) fn inline_buy_with_delegation(subscriber: &Address) -> (e: ActorError)
    ensures
        e.cause == Cause::InlineBuyWithDelegation,
        says_plainly(e),
{
    let a = address_text(subscriber);
    let e = refuse3(
        Cause::InlineBuyWithDelegation,
        "can not buy credits inline for ",
        a.as_str(),
        "",
    );
    proof {
        reveal_strlit("");
    }
    assert(e.text@ =~= inline_buy_words(a@));
    e
}

/// The account of `subscriber` has only `available` free credit, where
/// `required` is needed.
pub(crate) fn insufficient_credit(subscriber: &Address, available: &BigInt, required: &BigInt) -> (e:
    ActorError)
    ensures
        e.cause == Cause::InsufficientCredit,
        says_amounts(e, (big_value(*available), big_value(*required))),
{
    let a = address_text(subscriber);
    let mut head = String::from_str("account ");
    head.append(a.as_str());
    head.append(" has insufficient credit");
    let e = refuse7(
        Cause::InsufficientCredit,
        head.as_str(),
        " (available: ",
        big_text(available).as_str(),
        "; required: ",
        big_text(required).as_str(),
        ")",
        "",
    );
    proof {
        reveal_strlit("");
    }
    assert(e.text@ =~= insufficient_credit_words(a@, big_value(*available), big_value(*required)));
    e
}

/// `subscriber` sent only `received` tokens, where `required` are needed to
/// buy the credit that is missing.
pub(crate) fn insufficient_tokens(
    subscriber: &Address,
    received: &TokenAmount,
    required: &TokenAmount,
) -> (e: ActorError)
    ensures
        e.cause == Cause::InsufficientTokens,
        says_amounts(e, (token_value(*received), token_value(*required))),
{
    let a = address_text(subscriber);
    let e = refuse7(
        Cause::InsufficientTokens,
        "account ",
        a.as_str(),
        " sent insufficient tokens (received: ",
        token_text(received).as_str(),
        "; required: ",
        token_text(required).as_str(),
        ")",
    );
    proof {
        reveal_strlit("");
    }
    assert(e.text@ =~= insufficient_tokens_words(
        a@,
        token_value(*received),
        token_value(*required),
    ));
    e
}

/// The blob does not exist.
pub(crate) fn blob_not_found(hash: &ids::Hash) -> (e: ActorError)
    ensures
        e.cause == Cause::BlobNotFound,
        forall|n: Named| n.hash == *hash ==> #[trigger] says(e, n),
{
    refuse3(Cause::BlobNotFound, "blob ", hash.to_string().as_str(), " not found")
}

/// The blob has failed, and is not renewed.
pub(crate) fn renew_failed_blob(hash: &ids::Hash) -> (e: ActorError)
    ensures
        e.cause == Cause::RenewFailedBlob,
        forall|n: Named| n.hash == *hash ==> #[trigger] says(e, n),
{
    let e = refuse3(Cause::RenewFailedBlob, "cannot renew failed blob ", hash.to_string().as_str(), "");
    proof {
        reveal_strlit("");
    }
    assert(e.text@ =~= "cannot renew failed blob "@ + hash.spec_text());
    e
}

/// `subscriber` holds no subscription on the blob.
pub(crate) fn not_subscribed(subscriber: &Address, hash: &ids::Hash) -> (e: ActorError)
    ensures
        e.cause == Cause::NotSubscribed,
        forall|n: Named| n.hash == *hash ==> #[trigger] says(e, n),
{
    let a = address_text(subscriber);
    let e = refuse5(
        Cause::NotSubscribed,
        "subscriber ",
        a.as_str(),
        " is not subscribed to blob ",
        hash.to_string().as_str(),
        "",
    );
    proof {
        reveal_strlit("");
    }
    assert(e.text@ =~= not_subscribed_words(a@, *hash));
    e
}

/// The group holds no subscription of that id.
pub(crate) fn subscription_not_found(id: &SubscriptionId) -> (e: ActorError)
    ensures
        e.cause == Cause::SubscriptionNotFound,
        forall|n: Named| n.id == id.ident() ==> #[trigger] says(e, n),
{
    refuse3(Cause::SubscriptionNotFound, "subscription id ", id.to_string().as_str(), " not found")
}

/// The blob was to be finalized as added or pending.
pub(crate) fn finalize_as_non_final(hash: &ids::Hash) -> (e: ActorError)
    ensures
        e.cause == Cause::FinalizeAsNonFinal,
        forall|n: Named| n.hash == *hash ==> #[trigger] says(e, n),
{
    refuse3(
        Cause::FinalizeAsNonFinal,
        "cannot finalize blob ",
        hash.to_string().as_str(),
        " as added or pending",
    )
}

/// The blob was never set pending, and cannot be finalized.
pub(crate) fn finalize_from_added(hash: &ids::Hash) -> (e: ActorError)
    ensures
        e.cause == Cause::FinalizeFromAdded,
        forall|n: Named| n.hash == *hash ==> #[trigger] says(e, n),
{
    refuse3(
        Cause::FinalizeFromAdded,
        "blob ",
        hash.to_string().as_str(),
        " cannot be finalized from status added",
    )
}

/// `origin` is not `subscriber`, who alone may delete the subscription.
pub(crate) fn not_subscriber(origin: &Address, subscriber: &Address, hash: &ids::Hash) -> (e:
    ActorError)
    ensures
        e.cause == Cause::NotSubscriber,
        forall|n: Named| n.hash == *hash ==> #[trigger] says(e, n),
{
    let a = address_text(origin);
    let b = address_text(subscriber);
    let e = refuse7(
        Cause::NotSubscriber,
        "origin ",
        a.as_str(),
        " is not subscriber ",
        b.as_str(),
        " for blob ",
        hash.to_string().as_str(),
        "",
    );
    proof {
        reveal_strlit("");
    }
    assert(e.text@ =~= not_subscriber_words(a@, b@, *hash));
    e
}

/// `origin` through `caller` is neither the delegate that paid for the
/// subscription nor `subscriber`.
pub(crate) fn not_delegate(
    origin: &Address,
    caller: &Address,
    delegate: &(Address, Address),
    subscriber: &Address,
    hash: &ids::Hash,
) -> (e: ActorError)
    ensures
        e.cause == Cause::NotDelegate,
        forall|n: Named| n.hash == *hash ==> #[trigger] says(e, n),
{
    let a = address_text(origin);
    let b = address_text(&delegate.0);
    let c = address_text(caller);
    let d = address_text(&delegate.1);
    let f = address_text(subscriber);
    let mut head = String::from_str("origin ");
    head.append(a.as_str());
    head.append(" is not delegate origin ");
    head.append(b.as_str());
    head.append(" or caller ");
    head.append(c.as_str());
    head.append(" is not delegate caller ");
    head.append(d.as_str());
    let e = refuse5(
        Cause::NotDelegate,
        head.as_str(),
        " or subscriber ",
        f.as_str(),
        " for blob ",
        hash.to_string().as_str(),
    );
    proof {
        reveal_strlit("");
    }
    assert(e.text@ =~= not_delegate_words(a@, b@, c@, d@, f@, *hash));
    e
}

/// The subscriptions that `subscriber` holds on the blob cover no epoch.
pub(crate) fn no_group_expiry(subscriber: &Address, hash: &ids::Hash) -> (e: ActorError)
    ensures
        e.cause == Cause::NoGroupExpiry,
        forall|n: Named| n.hash == *hash ==> #[trigger] says(e, n),
{
    let a = address_text(subscriber);
    let e = refuse5(
        Cause::NoGroupExpiry,
        "subscriptions of ",
        a.as_str(),
        " to blob ",
        hash.to_string().as_str(),
        " cover no epoch",
    );
    proof {
        reveal_strlit("");
    }
    assert(e.text@ =~= no_group_expiry_words(a@, *hash));
    e
}

} // verus!
