//! Declarations of the types of other crates that the library carries, and
//! the few calls into those crates that its logic makes.

use vstd::prelude::*;
use std::time::Duration;
use tokio::time::Instant;

verus! {

/// `bitcoin::BlockHash`: carried opaquely; only compared for equality.
#[verifier::external_type_specification]
#[verifier::external_body]
pub struct ExBlockHash(bitcoin::BlockHash);

/// `tokio::time::Instant`: carried opaquely.
#[verifier::external_type_specification]
#[verifier::external_body]
pub struct ExInstant(tokio::time::Instant);

/// `bitcoin::Network`: which chain the node follows; carried opaquely.
#[verifier::external_type_specification]
#[verifier::external_body]
pub struct ExNetwork(bitcoin::Network);

/// `bitcoin::p2p::address::AddrV2`: a peer's network address; carried opaquely.
#[verifier::external_type_specification]
#[verifier::external_body]
pub struct ExAddrV2(bitcoin::p2p::address::AddrV2);

/// `bitcoin::p2p::ServiceFlags`: the services a peer offers; carried opaquely.
#[verifier::external_type_specification]
#[verifier::external_body]
pub struct ExServiceFlags(bitcoin::p2p::ServiceFlags);

/// `std::path::PathBuf`: where the node keeps its data; carried opaquely.
#[verifier::external_type_specification]
#[verifier::external_body]
pub struct ExPathBuf(std::path::PathBuf);

/// The value of `<bitcoin::p2p::ServiceFlags as From<u64>>::from(bits)`.
pub uninterp spec fn service_flags(bits: u64) -> bitcoin::p2p::ServiceFlags;

/// `<bitcoin::p2p::ServiceFlags as From<u64>>::from`: the flags with these
/// bits (`ServiceFlags(bits)`); `from(0)` is `ServiceFlags::NONE`. The
/// result is named by [`service_flags`].
#[verifier::external_body]
pub(crate) fn service_flags_from_bits(bits: u64) -> (r: bitcoin::p2p::ServiceFlags)
    ensures
        r == service_flags(bits),
{
    bitcoin::p2p::ServiceFlags::from(bits)
}

/// The value of `std::time::Duration::from_secs(secs)`.
pub uninterp spec fn duration_of_secs(secs: u64) -> Duration;

/// `std::time::Duration::from_secs`: a duration of `secs` whole seconds.
/// The result is named by [`duration_of_secs`].
#[verifier::external_body]
pub(crate) fn duration_from_secs(secs: u64) -> (r: Duration)
    ensures
        r == duration_of_secs(secs),
{
    Duration::from_secs(secs)
}

/// `bitcoin::Block`: the payload a block download answers with; carried opaquely.
#[verifier::external_type_specification]
#[verifier::external_body]
pub struct ExBlock(bitcoin::Block);

/// `tokio::sync::oneshot::Sender`: the channel end a download answers on; carried opaquely.
#[verifier::external_type_specification]
#[verifier::external_body]
#[verifier::reject_recursive_types(T)]
pub struct ExOneshotSender<T>(tokio::sync::oneshot::Sender<T>);

/// The channel end on which a finished block download is handed back.
pub type DownloadSender = tokio::sync::oneshot::Sender<bitcoin::Block>;

/// Compares two block hashes with `<bitcoin::BlockHash as PartialEq>::eq`.
/// `BlockHash` derives `PartialEq` over its bytes, so the result is true
/// exactly when the two values are the same.
#[verifier::external_body]
pub(crate) fn block_hash_eq(a: &bitcoin::BlockHash, b: &bitcoin::BlockHash) -> (r: bool)
    ensures
        r == (*a == *b),
{
    a == b
}

/// `<std::time::Duration as Clone>::clone`: `Duration` is `Copy`, so a
/// clone is the same value.
pub assume_specification[ <std::time::Duration as Clone>::clone ](d: &Duration) -> (r: Duration)
    ensures
        r == *d,
;

/// `<bitcoin::p2p::ServiceFlags as Clone>::clone`: derived, and the type is
/// `Copy`, so a clone is the same value.
pub assume_specification[ <bitcoin::p2p::ServiceFlags as Clone>::clone ](
    f: &bitcoin::p2p::ServiceFlags,
) -> (r: bitcoin::p2p::ServiceFlags)
    ensures
        r == *f,
;

/// `<bitcoin::p2p::address::AddrV2 as Clone>::clone`, derived. Nothing is
/// stated of the clone: the `Unknown` variant clones a `Vec` of bytes, and
/// no clone of a `Vec` is claimed to be the same value.
pub assume_specification[ <bitcoin::p2p::address::AddrV2 as Clone>::clone ](
    a: &bitcoin::p2p::address::AddrV2,
) -> bitcoin::p2p::address::AddrV2;

/// `tokio::time::Instant::now`: the current time. Nothing is promised of
/// the value, which depends on the clock.
#[verifier::external_body]
pub(crate) fn instant_now() -> Instant {
    Instant::now()
}

/// The value of `later.duration_since(earlier)` for two `tokio::time::Instant`s.
pub uninterp spec fn duration_between(later: Instant, earlier: Instant) -> Duration;

/// `tokio::time::Instant::duration_since`: the time from `earlier` to
/// `later`, zero when `earlier` is the later one. It depends on the two
/// instants alone; the result is named by [`duration_between`].
#[verifier::external_body]
pub(crate) fn instant_duration_since(later: &Instant, earlier: &Instant) -> (r: Duration)
    ensures
        r == duration_between(*later, *earlier),
{
    later.duration_since(*earlier)
}

/// Whether the duration `a` is longer than `b`, as
/// `<std::time::Duration as PartialOrd>::gt` compares them.
pub uninterp spec fn duration_longer(a: Duration, b: Duration) -> bool;

/// `<std::time::Duration as PartialOrd>::gt`: whether `a` is longer than
/// `b`; a duration is not longer than itself. The result is named by
/// [`duration_longer`].
#[verifier::external_body]
pub(crate) fn duration_exceeds(a: &Duration, b: &Duration) -> (r: bool)
    ensures
        r == duration_longer(*a, *b),
        *a == *b ==> !r,
{
    a > b
}

} // verus!
