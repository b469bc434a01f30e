//! The emission channel: tokio's unbounded channel, which the verifier takes on
//! trust.

use vstd::prelude::*;

verus! {

/// The sending half of tokio's unbounded channel, `tokio::sync::mpsc::UnboundedSender`.
/// Nothing is known of what is inside: the runner only carries it and sends on it.
#[verifier::external_type_specification]
#[verifier::external_body]
#[verifier::reject_recursive_types(T)]
pub struct ExUnboundedSender<T>(tokio::sync::mpsc::UnboundedSender<T>);

/// Hands `item` to `UnboundedSender::send`, which never waits. The result says
/// whether the channel took the item: it does not where the receiving half is
/// closed or gone. That depends on the other end, so nothing is claimed of it.
#[verifier::external_body]
pub(crate) fn send_item(
    emitter: &tokio::sync::mpsc::UnboundedSender<String>,
    item: String,
) -> (taken: bool) {
    emitter.send(item).is_ok()
}

} // verus!
