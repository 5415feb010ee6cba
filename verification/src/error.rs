//! Why an operation was refused.

use vstd::prelude::*;

verus! {

/// The broad class of a refusal.
#[derive(Clone, Copy, Debug, PartialEq, Eq, Structural)]
pub enum ErrorKind {
    /// An argument is not acceptable whatever the state.
    IllegalArgument,
    /// The caller may not do this now.
    Forbidden,
    /// Something that was named does not exist.
    NotFound,
    /// Credit, tokens or an approval's remaining limit do not cover the request.
    InsufficientFunds,
    /// The state does not allow the transition.
    IllegalState,
}

/// The precise reason of a refusal.
#[derive(Clone, Copy, Debug, PartialEq, Eq, Structural)]
pub enum Cause {
    /// A negative token amount was offered for credit.
    NegativeTokenAmount,
    /// No storage capacity is left, so no credit is sold.
    NoCapacity,
    /// An approval's time-to-live is below the minimum.
    ApprovalTtlTooShort,
    /// An approval's new limit is below what was already used through it.
    LimitBelowUsed,
    /// The account does not exist.
    AccountNotFound,
    /// A blob's time-to-live is below the minimum.
    BlobTtlTooShort,
    /// No approval lets the origin spend the subscriber's credit.
    ApprovalNotFound,
    /// The subnet has too little free capacity for a new blob.
    InsufficientCapacity,
    /// Tokens were sent along with a delegated call.
    InlineBuyWithDelegation,
    /// The account's free credit does not cover the request.
    InsufficientCredit,
    /// The tokens sent do not pay for the credit that is missing.
    InsufficientTokens,
    /// The approval's remaining limit does not cover the request.
    ApprovalExhausted,
    /// The approval has expired.
    ApprovalExpired,
    /// The blob does not exist.
    BlobNotFound,
    /// A failed blob is not renewed.
    RenewFailedBlob,
    /// The subscriber holds no subscription on the blob.
    NotSubscribed,
    /// The subscriber holds no subscription of that id on the blob.
    SubscriptionNotFound,
    /// A blob is finalized only as resolved or failed.
    FinalizeAsNonFinal,
    /// A blob that was added but never set pending cannot be finalized.
    FinalizeFromAdded,
    /// Only the subscriber may delete a subscription that no delegate paid for.
    NotSubscriber,
    /// Only the subscriber or the delegate that paid may delete the subscription.
    NotDelegate,
    /// The subscriptions of a group cover no epoch, which no operation brings about.
    NoGroupExpiry,
}

impl Cause {
    /// The class that a reason belongs to.
    pub open spec fn spec_kind(self) -> ErrorKind {
        match self {
            Cause::NegativeTokenAmount => ErrorKind::IllegalArgument,
            Cause::NoCapacity => ErrorKind::Forbidden,
            Cause::ApprovalTtlTooShort => ErrorKind::IllegalArgument,
            Cause::LimitBelowUsed => ErrorKind::IllegalArgument,
            Cause::AccountNotFound => ErrorKind::NotFound,
            Cause::BlobTtlTooShort => ErrorKind::IllegalArgument,
            Cause::ApprovalNotFound => ErrorKind::Forbidden,
            Cause::InsufficientCapacity => ErrorKind::Forbidden,
            Cause::InlineBuyWithDelegation => ErrorKind::IllegalArgument,
            Cause::InsufficientCredit => ErrorKind::InsufficientFunds,
            Cause::InsufficientTokens => ErrorKind::InsufficientFunds,
            Cause::ApprovalExhausted => ErrorKind::InsufficientFunds,
            Cause::ApprovalExpired => ErrorKind::Forbidden,
            Cause::BlobNotFound => ErrorKind::NotFound,
            Cause::RenewFailedBlob => ErrorKind::Forbidden,
            Cause::NotSubscribed => ErrorKind::Forbidden,
            Cause::SubscriptionNotFound => ErrorKind::NotFound,
            Cause::FinalizeAsNonFinal => ErrorKind::IllegalState,
            Cause::FinalizeFromAdded => ErrorKind::IllegalState,
            Cause::NotSubscriber => ErrorKind::Forbidden,
            Cause::NotDelegate => ErrorKind::Forbidden,
            Cause::NoGroupExpiry => ErrorKind::IllegalState,
        }
    }

    /// The class that a reason belongs to.
    #[verifier::when_used_as_spec(spec_kind)]
    pub fn kind(self) -> (k: ErrorKind)
        ensures
            k == self.spec_kind(),
    {
        match self {
            Cause::NegativeTokenAmount => ErrorKind::IllegalArgument,
            Cause::NoCapacity => ErrorKind::Forbidden,
            Cause::ApprovalTtlTooShort => ErrorKind::IllegalArgument,
            Cause::LimitBelowUsed => ErrorKind::IllegalArgument,
            Cause::AccountNotFound => ErrorKind::NotFound,
            Cause::BlobTtlTooShort => ErrorKind::IllegalArgument,
            Cause::ApprovalNotFound => ErrorKind::Forbidden,
            Cause::InsufficientCapacity => ErrorKind::Forbidden,
            Cause::InlineBuyWithDelegation => ErrorKind::IllegalArgument,
            Cause::InsufficientCredit => ErrorKind::InsufficientFunds,
            Cause::InsufficientTokens => ErrorKind::InsufficientFunds,
            Cause::ApprovalExhausted => ErrorKind::InsufficientFunds,
            Cause::ApprovalExpired => ErrorKind::Forbidden,
            Cause::BlobNotFound => ErrorKind::NotFound,
            Cause::RenewFailedBlob => ErrorKind::Forbidden,
            Cause::NotSubscribed => ErrorKind::Forbidden,
            Cause::SubscriptionNotFound => ErrorKind::NotFound,
            Cause::FinalizeAsNonFinal => ErrorKind::IllegalState,
            Cause::FinalizeFromAdded => ErrorKind::IllegalState,
            Cause::NotSubscriber => ErrorKind::Forbidden,
            Cause::NotDelegate => ErrorKind::Forbidden,
            Cause::NoGroupExpiry => ErrorKind::IllegalState,
        }
    }
}

/// The message of a refusal for the given reason, where that is the same
/// whatever was refused. Other messages name the addresses, blobs and
/// amounts involved.
pub open spec fn wording(cause: Cause) -> Option<Seq<char>> {
    match cause {
        Cause::NegativeTokenAmount => Some("token amount must be positive"@),
        Cause::NoCapacity => Some(
            "credits not available (subnet has reached storage capacity)"@,
        ),
        Cause::ApprovalTtlTooShort => Some("minimum approval TTL is 3600"@),
        Cause::BlobTtlTooShort => Some("minimum blob TTL is 3600"@),
        _ => None,
    }
}

/// A refusal: the reason, and a message for people that names the addresses and
/// amounts involved.
#[derive(Clone, Debug)]
pub struct ActorError {
    /// The reason.
    pub cause: Cause,
    /// The message.
    pub text: String,
}

impl ActorError {
    /// A refusal for the given reason with the given message.
    pub fn new(cause: Cause, text: String) -> (e: Self)
        ensures
            e.cause == cause,
            e.text == text,
    {
        ActorError { cause, text }
    }

    /// The class of the refusal.
    pub fn kind(&self) -> (k: ErrorKind)
        ensures
            k == self.cause.spec_kind(),
    {
        self.cause.kind()
    }

    /// The message.
    pub fn msg(&self) -> (m: &str)
        ensures
            m@ == self.text@,
    {
        self.text.as_str()
    }
}

} // verus!
