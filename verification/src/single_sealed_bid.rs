//! The single-sealed-bid auction state machine. Each bidder may submit at
//! most one hidden bid; at the expiry all bids are disclosed, sorted by
//! descending amount, and the winner pays either their own bid (blind,
//! first price) or the second-highest bid (Vickrey, second price).

use vstd::multiset::Multiset;
use vstd::prelude::*;

use crate::bids::bid_seq_view;
use crate::bids::clone_bids;
use crate::bids::Bid;
use crate::bids::BidV;
use crate::errors::outcome_view;
use crate::errors::ErrorV;
use crate::errors::Errors;
use crate::max_int;
use crate::money::Amount;
use crate::money::AmountV;
use crate::text::text_eq;
use crate::timed_ascending::sorted_desc;
use crate::users::UserId;
use crate::Timestamp;

verus! {

/// The two sealed-bid pricing rules.
#[derive(Debug, Clone, Copy, PartialEq, Eq, Structural)]
pub enum Options {
    /// Sealed first-price auction: all bidders submit one hidden bid each;
    /// the highest bidder pays the price they submitted.
    Blind,
    /// Sealed second-price auction: as blind, except the winning bidder
    /// pays the second-highest bid rather than their own.
    Vickrey,
}

/// The display form of the pricing rule.
pub open spec fn ssb_options_text(o: Options) -> Seq<char> {
    match o {
        Options::Blind => "Blind"@,
        Options::Vickrey => "Vickrey"@,
    }
}

/// The pricing rule a text denotes, if any.
pub open spec fn ssb_options_from_text(s: Seq<char>) -> Option<Options> {
    if s == "Blind"@ {
        Some(Options::Blind)
    } else if s == "Vickrey"@ {
        Some(Options::Vickrey)
    } else {
        None
    }
}

impl Options {
    /// Writes the pricing rule in its display form.
    pub fn to_text(&self) -> (r: String)
        ensures
            r@ == ssb_options_text(*self),
    {
        match self {
            Options::Blind => "Blind".to_owned(),
            Options::Vickrey => "Vickrey".to_owned(),
        }
    }

    /// Reads a pricing rule back from its display form.
    pub fn from_text(s: &str) -> (r: Option<Options>)
        ensures
            r == ssb_options_from_text(s@),
    {
        if text_eq(s, "Blind") {
            Some(Options::Blind)
        } else if text_eq(s, "Vickrey") {
            Some(Options::Vickrey)
        } else {
            None
        }
    }
}

/// Mathematical model of a [`SingleSealedBidState`].
#[verifier::ext_equal]
pub enum SsbStateV {
    AcceptingBids { bids: Seq<BidV>, expiry: int, options: Options },
    DisclosingBids { bids: Seq<BidV>, expiry: int, options: Options },
}

/// The state of a single-sealed-bid auction. While accepting, bids are
/// kept in order of arrival, one per bidder; once disclosing, they are
/// sorted by descending amount.
#[derive(Debug, PartialEq, Eq)]
pub enum SingleSealedBidState {
    /// Before the expiry: sealed bids are collected, one per bidder.
    AcceptingBids { bids: Vec<Bid>, expiry: Timestamp, options: Options },
    /// Past the expiry: bids are disclosed, highest first. Terminal.
    DisclosingBids { bids: Vec<Bid>, expiry: Timestamp, options: Options },
}

impl View for SingleSealedBidState {
    type V = SsbStateV;

    open spec fn view(&self) -> SsbStateV {
        match self {
            SingleSealedBidState::AcceptingBids { bids, expiry, options } => {
                SsbStateV::AcceptingBids {
                    bids: bid_seq_view(bids@),
                    expiry: *expiry as int,
                    options: *options,
                }
            },
            SingleSealedBidState::DisclosingBids { bids, expiry, options } => {
                SsbStateV::DisclosingBids {
                    bids: bid_seq_view(bids@),
                    expiry: *expiry as int,
                    options: *options,
                }
            },
        }
    }
}

impl Clone for SingleSealedBidState {
    fn clone(&self) -> (r: Self)
        ensures
            r@ == self@,
    {
        match self {
            SingleSealedBidState::AcceptingBids { bids, expiry, options } => {
                SingleSealedBidState::AcceptingBids {
                    bids: clone_bids(bids),
                    expiry: *expiry,
                    options: *options,
                }
            },
            SingleSealedBidState::DisclosingBids { bids, expiry, options } => {
                SingleSealedBidState::DisclosingBids {
                    bids: clone_bids(bids),
                    expiry: *expiry,
                    options: *options,
                }
            },
        }
    }
}

// ---------------------------------------------------------------------------
// Sorting bids for disclosure, as spec functions
// ---------------------------------------------------------------------------

/// Inserts a bid into a descending list, scanning from the front and
/// passing every entry it does not strictly exceed; among equal amounts
/// the later-inserted bid therefore lands behind the earlier ones.
pub open spec fn insert_desc(s: Seq<BidV>, b: BidV) -> Seq<BidV>
    decreases s.len(),
{
    if s.len() == 0 {
        seq![b]
    } else if b.bid_amount.value > s[0].bid_amount.value {
        seq![b] + s
    } else {
        seq![s[0]] + insert_desc(s.drop_first(), b)
    }
}

/// Sorts bids by descending amount; bids of equal amount keep their
/// order of insertion (a stable sort).
pub open spec fn sort_bids_desc(s: Seq<BidV>) -> Seq<BidV>
    decreases s.len(),
{
    if s.len() == 0 {
        Seq::empty()
    } else {
        insert_desc(sort_bids_desc(s.drop_last()), s.last())
    }
}

/// Whether some recorded bid carries this bidder id.
pub open spec fn has_bidder(bids: Seq<BidV>, id: Seq<char>) -> bool {
    exists|k: int| 0 <= k < bids.len() && (#[trigger] bids[k]).bidder.user_id() == id
}

/// Each bidder appears at most once.
pub open spec fn unique_bidders(bids: Seq<BidV>) -> bool {
    forall|i: int, j: int|
        0 <= i < j < bids.len() ==> (#[trigger] bids[i]).bidder.user_id()
            != (#[trigger] bids[j]).bidder.user_id()
}

/// Well-formedness: while accepting, the collected bids are keyed by
/// bidder, so bidder ids are unique.
pub open spec fn ssb_wf(s: SsbStateV) -> bool {
    s matches SsbStateV::AcceptingBids { bids, .. } ==> unique_bidders(bids)
}

// ---------------------------------------------------------------------------
// The transition relation, as spec functions
// ---------------------------------------------------------------------------

/// The bids a state records, in its own order.
pub open spec fn ssb_bids_of(s: SsbStateV) -> Seq<BidV> {
    match s {
        SsbStateV::AcceptingBids { bids, .. } => bids,
        SsbStateV::DisclosingBids { bids, .. } => bids,
    }
}

/// Time advance: at or past the expiry, the collected bids are disclosed
/// sorted by descending amount; disclosing is terminal.
pub open spec fn ssb_inc(s: SsbStateV, now: int) -> SsbStateV {
    match s {
        SsbStateV::AcceptingBids { bids, expiry, options } => {
            if now >= expiry {
                SsbStateV::DisclosingBids { bids: sort_bids_desc(bids), expiry, options }
            } else {
                s
            }
        },
        SsbStateV::DisclosingBids { .. } => s,
    }
}

/// Bid placement. Time is first advanced to the bid's own timestamp; a
/// bidder who already placed a bid is rejected (the first bid is kept
/// unchanged), otherwise the bid is recorded.
pub open spec fn ssb_add_bid_spec(s: SsbStateV, b: BidV) -> (SsbStateV, Result<(), ErrorV>) {
    let next = ssb_inc(s, b.at);
    match next {
        SsbStateV::AcceptingBids { bids, expiry, options } => {
            if has_bidder(bids, b.bidder.user_id()) {
                (next, Err(ErrorV::AlreadyPlacedBid))
            } else {
                (SsbStateV::AcceptingBids { bids: bids.push(b), expiry, options }, Ok(()))
            }
        },
        SsbStateV::DisclosingBids { .. } => (next, Err(ErrorV::AuctionHasEnded(b.for_auction))),
    }
}

/// The bids a state reports: the disclosed, sorted bids once the auction
/// has ended; nothing while bids are still sealed.
pub open spec fn ssb_get_bids_spec(s: SsbStateV) -> Seq<BidV> {
    match s {
        SsbStateV::AcceptingBids { .. } => Seq::empty(),
        SsbStateV::DisclosingBids { bids, .. } => bids,
    }
}

/// The winner and the price paid, defined only while disclosing and only
/// when at least one bid exists: the highest bidder wins and pays their
/// own bid (blind) or the second-highest bid if one exists (Vickrey).
pub open spec fn ssb_winner(s: SsbStateV) -> Option<(AmountV, Seq<char>)> {
    match s {
        SsbStateV::AcceptingBids { .. } => None,
        SsbStateV::DisclosingBids { bids, options, .. } => {
            if bids.len() == 0 {
                None
            } else {
                match options {
                    Options::Vickrey => {
                        if bids.len() == 1 {
                            Some((bids[0].bid_amount, bids[0].bidder.user_id()))
                        } else {
                            Some((bids[1].bid_amount, bids[0].bidder.user_id()))
                        }
                    },
                    Options::Blind => Some((bids[0].bid_amount, bids[0].bidder.user_id())),
                }
            }
        },
    }
}

pub open spec fn ssb_has_ended(s: SsbStateV) -> bool {
    s is DisclosingBids
}

// ---------------------------------------------------------------------------
// Executable sorting
// ---------------------------------------------------------------------------

proof fn lemma_insert_desc_at(s: Seq<BidV>, b: BidV, i: int)
    requires
        0 <= i <= s.len(),
        forall|j: int| 0 <= j < i ==> !(b.bid_amount.value > (#[trigger] s[j]).bid_amount.value),
        i == s.len() || b.bid_amount.value > s[i].bid_amount.value,
    ensures
        insert_desc(s, b) == s.take(i) + seq![b] + s.skip(i),
    decreases s.len(),
{
    if i == 0 {
        if s.len() == 0 {
            assert(insert_desc(s, b) =~= s.take(0) + seq![b] + s.skip(0));
        } else {
            assert(insert_desc(s, b) =~= s.take(0) + seq![b] + s.skip(0));
        }
    } else {
        let t = s.drop_first();
        assert(forall|j: int| 0 <= j < t.len() ==> t[j] == #[trigger] s[j + 1]);
        lemma_insert_desc_at(t, b, i - 1);
        assert(seq![s[0]] + (t.take(i - 1) + seq![b] + t.skip(i - 1)) =~= s.take(i) + seq![b]
            + s.skip(i));
    }
}

fn insert_bid_sorted(v: Vec<Bid>, b: Bid) -> (r: Vec<Bid>)
    ensures
        bid_seq_view(r@) == insert_desc(bid_seq_view(v@), b@),
{
    let ghost sv = bid_seq_view(v@);
    let mut i: usize = 0;
    while i < v.len() && b.bid_amount.value() <= v[i].bid_amount.value()
        invariant
            0 <= i <= v@.len(),
            sv == bid_seq_view(v@),
            forall|j: int|
                0 <= j < i ==> !(b@.bid_amount.value > (#[trigger] sv[j]).bid_amount.value),
        decreases v@.len() - i,
    {
        proof {
            assert(sv[i as int] == v@[i as int]@);
        }
        i += 1;
    }
    proof {
        if i < v@.len() {
            assert(sv[i as int] == v@[i as int]@);
        }
        lemma_insert_desc_at(sv, b@, i as int);
    }
    let ghost v0 = v@;
    let mut v = v;
    v.insert(i, b);
    proof {
        assert(v@ == v0.insert(i as int, b));
        let expect = sv.take(i as int) + seq![b@] + sv.skip(i as int);
        assert(bid_seq_view(v@).len() == expect.len());
        assert forall|k: int| 0 <= k < v@.len() implies bid_seq_view(v@)[k] == expect[k] by {
            assert(bid_seq_view(v@)[k] == v@[k]@);
            if k < i {
                assert(v@[k] == v0[k]);
                assert(expect[k] == sv[k]);
                assert(sv[k] == v0[k]@);
            } else if k == i {
                assert(v@[k] == b);
            } else {
                assert(v@[k] == v0[k - 1]);
                assert(expect[k] == sv.skip(i as int)[k - i - 1]);
                assert(sv[k - 1] == v0[k - 1]@);
            }
        }
        assert(bid_seq_view(v@) =~= expect);
    }
    v
}

/// Sorts bids by descending amount, stably, exactly as
/// [`sort_bids_desc`] describes.
fn sort_bids(v: &Vec<Bid>) -> (r: Vec<Bid>)
    ensures
        bid_seq_view(r@) == sort_bids_desc(bid_seq_view(v@)),
{
    let mut r: Vec<Bid> = Vec::new();
    proof {
        assert(bid_seq_view(r@) =~= sort_bids_desc(bid_seq_view(v@.take(0))));
    }
    let mut k: usize = 0;
    while k < v.len()
        invariant
            0 <= k <= v@.len(),
            bid_seq_view(r@) == sort_bids_desc(bid_seq_view(v@.take(k as int))),
        decreases v@.len() - k,
    {
        let ghost pre = bid_seq_view(v@.take(k + 1));
        proof {
            assert(pre.drop_last() =~= bid_seq_view(v@.take(k as int)));
            assert(pre.last() == v@[k as int]@);
        }
        let b = v[k].clone();
        r = insert_bid_sorted(r, b);
        k += 1;
    }
    proof {
        assert(v@.take(v@.len() as int) =~= v@);
    }
    r
}

fn contains_bidder(bids: &Vec<Bid>, id: &UserId) -> (r: bool)
    ensures
        r == has_bidder(bid_seq_view(bids@), id@),
{
    let mut i: usize = 0;
    while i < bids.len()
        invariant
            0 <= i <= bids@.len(),
            forall|j: int|
                0 <= j < i ==> (#[trigger] bid_seq_view(bids@)[j]).bidder.user_id() != id@,
        decreases bids@.len() - i,
    {
        proof {
            assert(bid_seq_view(bids@)[i as int] == bids@[i as int]@);
        }
        if bids[i].bidder.user_id().eq(id) {
            return true;
        }
        i += 1;
    }
    false
}

// ---------------------------------------------------------------------------
// Executable state machine
// ---------------------------------------------------------------------------

/// The initial state of a single-sealed-bid auction: no bids collected.
pub fn empty_state(expiry: Timestamp, options: Options) -> (r: SingleSealedBidState)
    ensures
        r@ == (SsbStateV::AcceptingBids {
            bids: Seq::empty(),
            expiry: expiry as int,
            options,
        }),
{
    let r = SingleSealedBidState::AcceptingBids { bids: Vec::new(), expiry, options };
    proof {
        assert(bid_seq_view(Seq::<Bid>::empty()) =~= Seq::<BidV>::empty());
    }
    r
}

impl SingleSealedBidState {
    /// Advances the state to time `now`, exactly as [`ssb_inc`] describes.
    pub fn inc(&self, now: Timestamp) -> (r: Self)
        ensures
            r@ == ssb_inc(self@, now as int),
    {
        match self {
            SingleSealedBidState::AcceptingBids { bids, expiry, options } => {
                if now >= *expiry {
                    SingleSealedBidState::DisclosingBids {
                        bids: sort_bids(bids),
                        expiry: *expiry,
                        options: *options,
                    }
                } else {
                    SingleSealedBidState::AcceptingBids {
                        bids: clone_bids(bids),
                        expiry: *expiry,
                        options: *options,
                    }
                }
            },
            SingleSealedBidState::DisclosingBids { bids, expiry, options } => {
                SingleSealedBidState::DisclosingBids {
                    bids: clone_bids(bids),
                    expiry: *expiry,
                    options: *options,
                }
            },
        }
    }

    /// Places a sealed bid, exactly as [`ssb_add_bid_spec`] describes: the
    /// state is first advanced to the bid's timestamp; each bidder may
    /// submit at most one bid.
    pub fn add_bid(&self, bid: Bid) -> (r: (SingleSealedBidState, Result<(), Errors>))
        ensures
            (r.0@, outcome_view(r.1)) == ssb_add_bid_spec(self@, bid@),
    {
        let now = bid.at;
        let auction_id = bid.for_auction;
        let next = self.inc(now);
        match next {
            SingleSealedBidState::AcceptingBids { bids, expiry, options } => {
                if contains_bidder(&bids, bid.bidder.user_id()) {
                    (
                        SingleSealedBidState::AcceptingBids { bids, expiry, options },
                        Err(Errors::AlreadyPlacedBid),
                    )
                } else {
                    let ghost bs = bid_seq_view(bids@);
                    let mut new_bids = bids;
                    new_bids.push(bid);
                    proof {
                        assert(bid_seq_view(new_bids@) =~= bs.push(bid@));
                    }
                    (
                        SingleSealedBidState::AcceptingBids { bids: new_bids, expiry, options },
                        Ok(()),
                    )
                }
            },
            SingleSealedBidState::DisclosingBids { bids, expiry, options } => {
                (
                    SingleSealedBidState::DisclosingBids { bids, expiry, options },
                    Err(Errors::AuctionHasEnded(auction_id)),
                )
            },
        }
    }

    /// The disclosed bids, highest first; nothing while bids are sealed.
    pub fn get_bids(&self) -> (r: Vec<Bid>)
        ensures
            bid_seq_view(r@) == ssb_get_bids_spec(self@),
    {
        match self {
            SingleSealedBidState::AcceptingBids { .. } => {
                let r: Vec<Bid> = Vec::new();
                proof {
                    assert(bid_seq_view(r@) =~= Seq::<BidV>::empty());
                }
                r
            },
            SingleSealedBidState::DisclosingBids { bids, .. } => clone_bids(bids),
        }
    }

    /// The winning amount and winner id, exactly as [`ssb_winner`]
    /// describes.
    pub fn try_get_amount_and_winner(&self) -> (r: Option<(Amount, UserId)>)
        ensures
            ssb_winner(self@) matches Some(w) ==> (r matches Some(x) && x.0@ == w.0 && x.1@
                == w.1),
            ssb_winner(self@) is None ==> r is None,
    {
        match self {
            SingleSealedBidState::AcceptingBids { .. } => None,
            SingleSealedBidState::DisclosingBids { bids, options, .. } => {
                if bids.len() == 0 {
                    return None;
                }
                proof {
                    assert(bid_seq_view(bids@)[0] == bids@[0]@);
                }
                match options {
                    Options::Vickrey => {
                        if bids.len() == 1 {
                            let first = &bids[0];
                            Some((first.bid_amount, first.bidder.user_id().clone()))
                        } else {
                            proof {
                                assert(bid_seq_view(bids@)[1] == bids@[1]@);
                            }
                            let winner = bids[0].bidder.user_id().clone();
                            Some((bids[1].bid_amount, winner))
                        }
                    },
                    Options::Blind => {
                        let first = &bids[0];
                        Some((first.bid_amount, first.bidder.user_id().clone()))
                    },
                }
            },
        }
    }

    /// Whether the auction has ended (bids are being disclosed).
    pub fn has_ended(&self) -> (r: bool)
        ensures
            r == ssb_has_ended(self@),
    {
        match self {
            SingleSealedBidState::AcceptingBids { .. } => false,
            SingleSealedBidState::DisclosingBids { .. } => true,
        }
    }
}

// ---------------------------------------------------------------------------
// Laws of the state machine
// ---------------------------------------------------------------------------

/// Law: advancing time twice to the same instant is the same as advancing
/// once.
pub proof fn lemma_ssb_inc_idempotent(s: SsbStateV, t: int)
    ensures
        ssb_inc(ssb_inc(s, t), t) == ssb_inc(s, t),
{
}

/// Law: once a state disclosing its bids it is terminal; no further time
/// advance changes it, so it can never report not-ended again.
pub proof fn lemma_ssb_ended_monotonic(s: SsbStateV, t: int)
    requires
        ssb_has_ended(s),
    ensures
        ssb_inc(s, t) == s,
        ssb_has_ended(ssb_inc(s, t)),
{
}

/// Law (sealed-bid uniqueness): while bids are being accepted, a second
/// bid from a bidder already recorded is rejected with `AlreadyPlacedBid`
/// regardless of its amount, and the recorded bids are unchanged.
pub proof fn lemma_ssb_duplicate_rejected(s: SsbStateV, b: BidV)
    requires
        ssb_inc(s, b.at) is AcceptingBids,
        has_bidder(ssb_bids_of(ssb_inc(s, b.at)), b.bidder.user_id()),
    ensures
        ssb_add_bid_spec(s, b) == (ssb_inc(s, b.at), Err::<(), ErrorV>(ErrorV::AlreadyPlacedBid)),
{
}

/// Law: each bidder is recorded at most once, and both time advance and
/// bid placement preserve that.
pub proof fn lemma_ssb_wf_preserved(s: SsbStateV, b: BidV, t: int)
    requires
        ssb_wf(s),
    ensures
        ssb_wf(ssb_inc(s, t)),
        ssb_wf(ssb_add_bid_spec(s, b).0),
{
    let next = ssb_inc(s, b.at);
    if next is AcceptingBids {
        let bids = ssb_bids_of(next);
        if !has_bidder(bids, b.bidder.user_id()) {
            let new_bids = bids.push(b);
            assert forall|i: int, j: int| 0 <= i < j < new_bids.len() implies
                new_bids[i].bidder.user_id() != new_bids[j].bidder.user_id() by {
                if j == bids.len() {
                    assert(new_bids[i] == bids[i]);
                    assert(!(bids[i].bidder.user_id() == b.bidder.user_id()));
                } else {
                    assert(new_bids[i] == bids[i]);
                    assert(new_bids[j] == bids[j]);
                }
            }
        }
    }
}

proof fn lemma_insert_desc_sorted(s: Seq<BidV>, b: BidV)
    requires
        sorted_desc(s),
    ensures
        sorted_desc(insert_desc(s, b)),
        forall|k: int|
            0 <= k < insert_desc(s, b).len() ==> (#[trigger] insert_desc(s, b)[k]).bid_amount.value
                <= max_int(
                b.bid_amount.value,
                if s.len() == 0 {
                    b.bid_amount.value
                } else {
                    s[0].bid_amount.value
                },
            ),
    decreases s.len(),
{
    if s.len() == 0 {
    } else if b.bid_amount.value > s[0].bid_amount.value {
        let r = seq![b] + s;
        assert forall|i: int, j: int| 0 <= i < j < r.len() implies r[i].bid_amount.value
            >= r[j].bid_amount.value by {
            if i > 0 {
                assert(r[i] == s[i - 1]);
                assert(r[j] == s[j - 1]);
            } else {
                assert(r[j] == s[j - 1]);
                if j > 1 {
                    assert(s[0].bid_amount.value >= s[j - 1].bid_amount.value);
                }
            }
        }
    } else {
        let t = s.drop_first();
        assert(forall|j: int| 0 <= j < t.len() ==> t[j] == #[trigger] s[j + 1]);
        lemma_insert_desc_sorted(t, b);
        let rest = insert_desc(t, b);
        let r = seq![s[0]] + rest;
        assert(insert_desc(s, b) == r);
        assert forall|i: int, j: int| 0 <= i < j < r.len() implies r[i].bid_amount.value
            >= r[j].bid_amount.value by {
            if i > 0 {
                assert(r[i] == rest[i - 1]);
                assert(r[j] == rest[j - 1]);
            } else {
                assert(r[j] == rest[j - 1]);
                assert(rest[j - 1].bid_amount.value <= max_int(
                    b.bid_amount.value,
                    if t.len() == 0 {
                        b.bid_amount.value
                    } else {
                        t[0].bid_amount.value
                    },
                ));
            }
        }
    }
}

/// Law: disclosure sorts the collected bids by descending amount; among
/// equal amounts the earlier-collected bid comes first.
pub proof fn lemma_sort_desc_sorted(s: Seq<BidV>)
    ensures
        sorted_desc(sort_bids_desc(s)),
    decreases s.len(),
{
    if s.len() > 0 {
        lemma_sort_desc_sorted(s.drop_last());
        lemma_insert_desc_sorted(sort_bids_desc(s.drop_last()), s.last());
    }
}

proof fn lemma_insert_desc_multiset(s: Seq<BidV>, b: BidV)
    ensures
        insert_desc(s, b).to_multiset() == s.to_multiset().insert(b),
    decreases s.len(),
{
    broadcast use vstd::seq_lib::group_seq_properties;

    if s.len() == 0 {
        assert(seq![b] =~= Seq::<BidV>::empty().push(b));
        assert(s.to_multiset() =~= Multiset::<BidV>::empty());
    } else if b.bid_amount.value > s[0].bid_amount.value {
        assert(seq![b] + s =~= (seq![b] + s.drop_last()).push(s.last()));
        assert(seq![b] + s.drop_last() =~= (seq![b] + s).drop_last());
        vstd::seq_lib::lemma_multiset_commutative(seq![b], s);
        assert(seq![b] =~= Seq::<BidV>::empty().push(b));
        assert(Seq::<BidV>::empty().push(b).to_multiset() =~= Multiset::<BidV>::empty().insert(
            b,
        ));
        assert((seq![b] + s).to_multiset() =~= s.to_multiset().insert(b));
    } else {
        let t = s.drop_first();
        lemma_insert_desc_multiset(t, b);
        vstd::seq_lib::lemma_multiset_commutative(seq![s[0]], insert_desc(t, b));
        vstd::seq_lib::lemma_multiset_commutative(seq![s[0]], t);
        assert(seq![s[0]] + t =~= s);
        assert(seq![s[0]] =~= Seq::<BidV>::empty().push(s[0]));
        assert((seq![s[0]] + insert_desc(t, b)).to_multiset() =~= s.to_multiset().insert(b));
    }
}

/// Law: disclosure keeps exactly the collected bids, as a multiset.
pub proof fn lemma_sort_desc_multiset(s: Seq<BidV>)
    ensures
        sort_bids_desc(s).to_multiset() == s.to_multiset(),
    decreases s.len(),
{
    broadcast use vstd::seq_lib::group_seq_properties;

    if s.len() > 0 {
        lemma_sort_desc_multiset(s.drop_last());
        lemma_insert_desc_multiset(sort_bids_desc(s.drop_last()), s.last());
        assert(s =~= s.drop_last().push(s.last()));
    }
}

} // verus!
