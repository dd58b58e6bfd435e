//! Per-client account state.

use vstd::prelude::*;

use crate::types::Amount;
use crate::types::ClientId;
use crate::types::AMOUNT_UNITS_MAX;

verus! {

/// The balances of one client. The held amount is derived:
/// `held = total - available`.
#[derive(Clone, Copy, Debug)]
pub struct ClientAccount {
    pub client_id: ClientId,
    pub available: Amount,
    pub total: Amount,
    pub is_locked: bool,
}

impl ClientAccount {
    /// Balances stay on the non-negative half-line, the available
    /// amount never exceeds the total, and the total stays
    /// representable.
    pub open spec fn wf(self) -> bool {
        0 <= self.available@ <= self.total@ <= AMOUNT_UNITS_MAX
    }

    /// The held amount: the part of the total that is frozen pending
    /// dispute outcomes.
    pub fn held(&self) -> (r: Amount)
        requires
            self.wf(),
        ensures
            r@ == self.total@ - self.available@,
    {
        let mut held = self.total;
        let result = held.try_subtract(self.available);
        proof {
            assert(result == Some::<()>(()));
        }
        held
    }
}

} // verus!
