//! Cancelling an offer: only its maker may, and only while it is active.

use vstd::prelude::*;
use crate::error::ErrorCode;
use crate::state::{Offer, OfferStatus, Pubkey};

verus! {

/// Why `caller` may not cancel `offer`, if so. An offer that is no longer
/// active is refused as such whoever asks.
pub open spec fn cancel_error(offer: Offer, caller: Pubkey) -> Option<ErrorCode> {
    if !offer.active() {
        Some(ErrorCode::OfferNotActive)
    } else if caller != offer.maker {
        Some(ErrorCode::NotAuthorized)
    } else {
        None
    }
}

/// The offer after its maker has withdrawn it.
pub open spec fn cancelled_offer(offer: Offer) -> Offer {
    Offer { status: OfferStatus::Cancelled, ..offer }
}

/// Moves an active offer to `Cancelled` at its maker's request. On failure
/// the offer is as it was.
pub fn handler(offer: &mut Offer, caller: Pubkey) -> (r: Result<(), ErrorCode>)
    ensures
        match r {
            Ok(()) => cancel_error(*old(offer), caller) is None && *final(offer) == cancelled_offer(
                *old(offer),
            ),
            Err(e) => cancel_error(*old(offer), caller) == Some(e) && *final(offer) == *old(offer),
        },
{
    if !offer.is_active() {
        return Err(ErrorCode::OfferNotActive);
    }
    if caller != offer.maker {
        return Err(ErrorCode::NotAuthorized);
    }
    offer.status = OfferStatus::Cancelled;
    Ok(())
}

} // verus!
