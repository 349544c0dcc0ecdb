//! Bids: immutable records of an offer on an auction. The `at` timestamp is
//! supplied by the command processor, never by the bidder, and drives all
//! temporal decisions.

use vstd::prelude::*;

use crate::money::Amount;
use crate::money::AmountV;
use crate::users::User;
use crate::users::UserV;
use crate::AuctionId;
use crate::Timestamp;

verus! {

/// Mathematical model of a [`Bid`].
#[verifier::ext_equal]
pub struct BidV {
    pub for_auction: int,
    pub bidder: UserV,
    pub at: int,
    pub bid_amount: AmountV,
}

/// An offer of `bid_amount` on auction `for_auction`, made by `bidder` at
/// time `at`.
#[derive(Debug, PartialEq, Eq)]
pub struct Bid {
    pub for_auction: AuctionId,
    pub bidder: User,
    pub at: Timestamp,
    pub bid_amount: Amount,
}

impl View for Bid {
    type V = BidV;

    open spec fn view(&self) -> BidV {
        BidV {
            for_auction: self.for_auction as int,
            bidder: self.bidder@,
            at: self.at as int,
            bid_amount: self.bid_amount@,
        }
    }
}

impl Clone for Bid {
    fn clone(&self) -> (r: Self)
        ensures
            r@ == self@,
    {
        Bid {
            for_auction: self.for_auction,
            bidder: self.bidder.clone(),
            at: self.at,
            bid_amount: self.bid_amount,
        }
    }
}

/// The models of a sequence of bids, in the same order.
pub open spec fn bid_seq_view(s: Seq<Bid>) -> Seq<BidV> {
    s.map_values(|b: Bid| b@)
}

/// An exact copy of a sequence of bids.
pub fn clone_bids(v: &Vec<Bid>) -> (r: Vec<Bid>)
    ensures
        bid_seq_view(r@) == bid_seq_view(v@),
{
    let mut r: Vec<Bid> = Vec::new();
    let mut i: usize = 0;
    while i < v.len()
        invariant
            0 <= i <= v@.len(),
            bid_seq_view(r@) == bid_seq_view(v@.take(i as int)),
        decreases v@.len() - i,
    {
        let ghost r0 = r@;
        let b = v[i].clone();
        let ghost bv = b@;
        proof {
            assert(bv == v@[i as int]@);
        }
        r.push(b);
        proof {
            assert(r@ == r0.push(b));
            let pre = v@.take(i + 1);
            assert(bid_seq_view(r0).len() == r0.len());
            assert(r0.len() == i);
            assert(r@.len() == i + 1);
            assert(bid_seq_view(r@).len() == i + 1);
            assert(bid_seq_view(pre).len() == i + 1);
            assert forall|k: int| 0 <= k < i + 1 implies bid_seq_view(r@)[k] == bid_seq_view(
                pre,
            )[k] by {
                assert(pre[k] == v@[k]);
                if k < i {
                    assert(r@[k] == r0[k]);
                    assert(bid_seq_view(r0)[k] == bid_seq_view(v@.take(i as int))[k]);
                    assert(v@.take(i as int)[k] == v@[k]);
                } else {
                    assert(r@[k] == b);
                }
            }
            assert(bid_seq_view(r@) =~= bid_seq_view(pre));
        }
        i += 1;
    }
    proof {
        assert(v@.take(v@.len() as int) =~= v@);
    }
    r
}

} // verus!
