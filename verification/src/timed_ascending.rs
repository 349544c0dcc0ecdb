//! The timed-ascending ("English") auction state machine. An auction waits
//! for its start, runs while bids raise each other, and ends at its
//! deadline; a bid close to the deadline extends it (the anti-snipe rule).
//! Every transition produces a fresh state value.

use vstd::prelude::*;
use vstd::string::*;

use crate::bids::bid_seq_view;
use crate::bids::clone_bids;
use crate::bids::Bid;
use crate::bids::BidV;
use crate::errors::outcome_view;
use crate::errors::ErrorV;
use crate::errors::Errors;
use crate::max_int;
use crate::money::amount_from_text;
use crate::money::amount_text;
use crate::money::lemma_amount_text_pipe_free;
use crate::money::lemma_amount_text_roundtrip;
use crate::money::Amount;
use crate::money::AmountV;
use crate::money::Currency;
use crate::text::dec_of_int;
use crate::text::i64_to_text;
use crate::text::lemma_dec_of_int_chars;
use crate::text::lemma_dec_roundtrip;
use crate::text::lemma_sep_after_field;
use crate::text::lemma_sep_pos_empty;
use crate::text::lemma_sep_pos_in_range;
use crate::text::pipe_free;
use crate::text::parse_i64;
use crate::text::parse_i64_spec;
use crate::text::sep_pos_seq;
use crate::text::sep_positions;
use crate::text::text_eq;
use crate::users::UserId;
use crate::DurationSecs;
use crate::Timestamp;

verus! {

/// Mathematical model of the ascending-auction [`Options`].
#[verifier::ext_equal]
pub struct TaOptionsV {
    pub reserve_price: AmountV,
    pub min_raise: AmountV,
    pub time_frame: int,
}

/// The static rules of a timed-ascending auction.
#[derive(Debug, Clone, Copy, PartialEq, Eq, Structural)]
pub struct Options {
    /// The minimum sale price set in advance; the top bid must strictly
    /// exceed it or the item remains unsold. Zero means no reserve.
    pub reserve_price: Amount,
    /// The minimum amount by which a new bid must exceed the standing
    /// highest bid. Zero means no minimum raise.
    pub min_raise: Amount,
    /// If no competing bid arrives within this span of the deadline, the
    /// standing bid wins; a bid near the deadline pushes it out.
    pub time_frame: DurationSecs,
}

impl View for Options {
    type V = TaOptionsV;

    open spec fn view(&self) -> TaOptionsV {
        TaOptionsV {
            reserve_price: self.reserve_price@,
            min_raise: self.min_raise@,
            time_frame: self.time_frame as int,
        }
    }
}

/// The display form of the options: `English|reserve|min raise|seconds`.
pub open spec fn ta_options_text(o: TaOptionsV) -> Seq<char> {
    "English"@ + seq!['|'] + amount_text(o.reserve_price) + seq!['|'] + amount_text(o.min_raise)
        + seq!['|'] + dec_of_int(o.time_frame)
}

/// The options a text denotes: four `|`-separated fields, the first the
/// word `English`, then two amounts and a signed number of seconds.
pub open spec fn ta_options_from_text(s: Seq<char>) -> Option<TaOptionsV> {
    let ps = sep_pos_seq(s, '|');
    if ps.len() == 3 && s.take(ps[0]) == "English"@ {
        match amount_from_text(s.subrange(ps[0] + 1, ps[1])) {
            Some(rp) => match amount_from_text(s.subrange(ps[1] + 1, ps[2])) {
                Some(mr) => match parse_i64_spec(s.skip(ps[2] + 1)) {
                    Some(tf) => Some(
                        TaOptionsV { reserve_price: rp, min_raise: mr, time_frame: tf },
                    ),
                    None => None,
                },
                None => None,
            },
            None => None,
        }
    } else {
        None
    }
}

impl Options {
    /// No reserve, no minimum raise, no anti-snipe window, all in the
    /// given currency.
    pub fn default_options(currency: Currency) -> (r: Options)
        ensures
            r@ == (TaOptionsV {
                reserve_price: AmountV { currency, value: 0 },
                min_raise: AmountV { currency, value: 0 },
                time_frame: 0,
            }),
    {
        Options {
            reserve_price: Amount::new(currency, 0),
            min_raise: Amount::new(currency, 0),
            time_frame: 0,
        }
    }

    /// Writes the options in their display form.
    pub fn to_text(&self) -> (r: String)
        ensures
            r@ == ta_options_text(self@),
    {
        let mut out = "English".to_owned();
        out.append("|");
        let rp = self.reserve_price.to_text();
        out.append(rp.as_str());
        out.append("|");
        let mr = self.min_raise.to_text();
        out.append(mr.as_str());
        out.append("|");
        let tf = i64_to_text(self.time_frame);
        out.append(tf.as_str());
        proof {
            reveal_strlit("|");
            assert(out@ =~= ta_options_text(self@));
        }
        out
    }

    /// Reads options back from their display form.
    pub fn from_text(s: &str) -> (r: Option<Options>)
        ensures
            ta_options_from_text(s@) matches Some(ov) ==> (r matches Some(o) && o@ == ov),
            ta_options_from_text(s@) is None ==> r is None,
    {
        let n = s.unicode_len();
        let ps = sep_positions(s, '|');
        proof {
            lemma_sep_pos_in_range(s@, '|');
        }
        if ps.len() != 3 {
            return None;
        }
        let p0 = ps[0];
        let p1 = ps[1];
        let p2 = ps[2];
        proof {
            assert(ps@.map_values(|x: usize| x as int)[0] == p0 as int);
            assert(ps@.map_values(|x: usize| x as int)[1] == p1 as int);
            assert(ps@.map_values(|x: usize| x as int)[2] == p2 as int);
        }
        let head = s.substring_char(0, p0);
        proof {
            assert(head@ =~= s@.take(p0 as int));
        }
        if !text_eq(head, "English") {
            return None;
        }
        let rp = match Amount::from_text(s.substring_char(p0 + 1, p1)) {
            Some(a) => a,
            None => {
                return None;
            },
        };
        let mr = match Amount::from_text(s.substring_char(p1 + 1, p2)) {
            Some(a) => a,
            None => {
                return None;
            },
        };
        let tail = s.substring_char(p2 + 1, n);
        proof {
            assert(tail@ =~= s@.skip(p2 + 1));
        }
        let tf = match parse_i64(tail) {
            Some(v) => v,
            None => {
                return None;
            },
        };
        Some(Options { reserve_price: rp, min_raise: mr, time_frame: tf })
    }
}

/// Law (display/parse round trip): the display form of any representable
/// options parses back to the same options.
pub proof fn lemma_ta_options_text_roundtrip(o: TaOptionsV)
    requires
        i64::MIN <= o.reserve_price.value <= i64::MAX,
        i64::MIN <= o.min_raise.value <= i64::MAX,
        i64::MIN <= o.time_frame <= i64::MAX,
    ensures
        ta_options_from_text(ta_options_text(o)) == Some(o),
{
    let lit = "English"@;
    reveal_strlit("English");
    assert(pipe_free(lit)) by {
        assert forall|i: int| 0 <= i < lit.len() implies lit[i] != '|' by {
            assert(lit.len() == 7);
        }
    }
    let a = amount_text(o.reserve_price);
    let b = amount_text(o.min_raise);
    let c = dec_of_int(o.time_frame);
    lemma_amount_text_pipe_free(o.reserve_price);
    lemma_amount_text_pipe_free(o.min_raise);
    assert(pipe_free(c)) by {
        lemma_dec_of_int_chars(o.time_frame);
    }
    let s = ta_options_text(o);
    let tail2 = b + seq!['|'] + c;
    let tail1 = a + seq!['|'] + tail2;
    assert(s =~= lit + seq!['|'] + tail1);
    lemma_sep_pos_empty(c, '|');
    lemma_sep_after_field(b, c);
    lemma_sep_after_field(a, tail2);
    lemma_sep_after_field(lit, tail1);
    let al = a.len() as int;
    let bl = b.len() as int;
    assert(sep_pos_seq(tail2, '|') =~= seq![bl]);
    assert(sep_pos_seq(tail1, '|') =~= seq![al, al + 1 + bl]);
    let ps = sep_pos_seq(s, '|');
    assert(ps =~= seq![7int, 8 + al, 9 + al + bl]);
    assert(s.take(7) =~= lit);
    assert(s.subrange(8, 8 + al) =~= a);
    assert(s.subrange(9 + al, 9 + al + bl) =~= b);
    assert(s.skip(10 + al + bl) =~= c);
    lemma_amount_text_roundtrip(o.reserve_price);
    lemma_amount_text_roundtrip(o.min_raise);
    lemma_dec_roundtrip(o.time_frame);
    let parsed = ta_options_from_text(s);
    assert(parsed matches Some(p) && p =~= o);
}

/// Mathematical model of a [`TimedAscendingState`].
#[verifier::ext_equal]
pub enum TaStateV {
    AwaitingStart { start: int, starting_expiry: int, options: TaOptionsV },
    OnGoing { bids: Seq<BidV>, next_expiry: int, options: TaOptionsV },
    HasEnded { bids: Seq<BidV>, expiry: int, options: TaOptionsV },
}

/// The state of a timed-ascending auction. Bids are kept newest first; an
/// accepted bid is always the highest so far.
#[derive(Debug, PartialEq, Eq)]
pub enum TimedAscendingState {
    /// Before the start time: no bids can be placed yet.
    AwaitingStart { start: Timestamp, starting_expiry: Timestamp, options: Options },
    /// Between start and the (possibly extended) deadline.
    OnGoing { bids: Vec<Bid>, next_expiry: Timestamp, options: Options },
    /// Past the deadline: terminal.
    HasEnded { bids: Vec<Bid>, expiry: Timestamp, options: Options },
}

impl View for TimedAscendingState {
    type V = TaStateV;

    open spec fn view(&self) -> TaStateV {
        match self {
            TimedAscendingState::AwaitingStart { start, starting_expiry, options } => {
                TaStateV::AwaitingStart {
                    start: *start as int,
                    starting_expiry: *starting_expiry as int,
                    options: options@,
                }
            },
            TimedAscendingState::OnGoing { bids, next_expiry, options } => {
                TaStateV::OnGoing {
                    bids: bid_seq_view(bids@),
                    next_expiry: *next_expiry as int,
                    options: options@,
                }
            },
            TimedAscendingState::HasEnded { bids, expiry, options } => {
                TaStateV::HasEnded {
                    bids: bid_seq_view(bids@),
                    expiry: *expiry as int,
                    options: options@,
                }
            },
        }
    }
}

impl Clone for TimedAscendingState {
    fn clone(&self) -> (r: Self)
        ensures
            r@ == self@,
    {
        match self {
            TimedAscendingState::AwaitingStart { start, starting_expiry, options } => {
                TimedAscendingState::AwaitingStart {
                    start: *start,
                    starting_expiry: *starting_expiry,
                    options: *options,
                }
            },
            TimedAscendingState::OnGoing { bids, next_expiry, options } => {
                TimedAscendingState::OnGoing {
                    bids: clone_bids(bids),
                    next_expiry: *next_expiry,
                    options: *options,
                }
            },
            TimedAscendingState::HasEnded { bids, expiry, options } => {
                TimedAscendingState::HasEnded {
                    bids: clone_bids(bids),
                    expiry: *expiry,
                    options: *options,
                }
            },
        }
    }
}

// ---------------------------------------------------------------------------
// The transition relation, as spec functions
// ---------------------------------------------------------------------------

/// The static options carried by any state.
pub open spec fn ta_options(s: TaStateV) -> TaOptionsV {
    match s {
        TaStateV::AwaitingStart { options, .. } => options,
        TaStateV::OnGoing { options, .. } => options,
        TaStateV::HasEnded { options, .. } => options,
    }
}

/// The deadline carried by any state.
pub open spec fn ta_deadline(s: TaStateV) -> int {
    match s {
        TaStateV::AwaitingStart { starting_expiry, .. } => starting_expiry,
        TaStateV::OnGoing { next_expiry, .. } => next_expiry,
        TaStateV::HasEnded { expiry, .. } => expiry,
    }
}

/// The bids a state reports, newest first.
pub open spec fn ta_get_bids_spec(s: TaStateV) -> Seq<BidV> {
    match s {
        TaStateV::AwaitingStart { .. } => Seq::empty(),
        TaStateV::OnGoing { bids, .. } => bids,
        TaStateV::HasEnded { bids, .. } => bids,
    }
}

/// Time advance. Waiting becomes running once `now` passes the start
/// (or ended at once, when the start window is already over); running
/// becomes ended once `now` reaches the deadline; ended is terminal.
pub open spec fn ta_inc(s: TaStateV, now: int) -> TaStateV {
    match s {
        TaStateV::AwaitingStart { start, starting_expiry, options } => {
            if now > start {
                if now < starting_expiry {
                    TaStateV::OnGoing { bids: Seq::empty(), next_expiry: starting_expiry, options }
                } else {
                    TaStateV::HasEnded { bids: Seq::empty(), expiry: starting_expiry, options }
                }
            } else {
                s
            }
        },
        TaStateV::OnGoing { bids, next_expiry, options } => {
            if now < next_expiry {
                s
            } else {
                TaStateV::HasEnded { bids, expiry: next_expiry, options }
            }
        },
        TaStateV::HasEnded { .. } => s,
    }
}

/// Bid placement. Time is first advanced to the bid's own timestamp; a
/// first bid is accepted unconditionally, a later bid must reach the
/// standing bid plus the minimum raise; an accepted bid is prepended and
/// pushes the deadline to `max(deadline, at + time_frame)`.
pub open spec fn ta_add_bid_spec(s: TaStateV, b: BidV) -> (TaStateV, Result<(), ErrorV>) {
    let next = ta_inc(s, b.at);
    match next {
        TaStateV::AwaitingStart { .. } => (
            next,
            Err(ErrorV::AuctionHasNotStarted(b.for_auction)),
        ),
        TaStateV::OnGoing { bids, next_expiry, options } => {
            let new_expiry = max_int(next_expiry, b.at + options.time_frame);
            if bids.len() == 0 || b.bid_amount.value >= bids[0].bid_amount.value
                + options.min_raise.value {
                (TaStateV::OnGoing { bids: seq![b] + bids, next_expiry: new_expiry, options }, Ok(
                    (),
                ))
            } else {
                (next, Err(ErrorV::MustPlaceBidOverHighestBid(bids[0].bid_amount)))
            }
        },
        TaStateV::HasEnded { .. } => (next, Err(ErrorV::AuctionHasEnded(b.for_auction))),
    }
}

/// The winner and the price paid, defined only once the auction has
/// ended: the top bid wins at its own amount, provided it strictly
/// exceeds the reserve price.
pub open spec fn ta_winner(s: TaStateV) -> Option<(AmountV, Seq<char>)> {
    match s {
        TaStateV::HasEnded { bids, options, .. } => {
            if bids.len() > 0 && options.reserve_price.value < bids[0].bid_amount.value {
                Some((bids[0].bid_amount, bids[0].bidder.user_id()))
            } else {
                None
            }
        },
        _ => None,
    }
}

pub open spec fn ta_has_ended(s: TaStateV) -> bool {
    s is HasEnded
}

// ---------------------------------------------------------------------------
// Executable state machine
// ---------------------------------------------------------------------------

/// The initial state of a timed-ascending auction.
pub fn empty_state(start: Timestamp, starting_expiry: Timestamp, options: Options) -> (r:
    TimedAscendingState)
    ensures
        r@ == (TaStateV::AwaitingStart {
            start: start as int,
            starting_expiry: starting_expiry as int,
            options: options@,
        }),
{
    TimedAscendingState::AwaitingStart { start, starting_expiry, options }
}

impl TimedAscendingState {
    /// Advances the state to time `now`, exactly as [`ta_inc`] describes.
    pub fn inc(&self, now: Timestamp) -> (r: Self)
        ensures
            r@ == ta_inc(self@, now as int),
    {
        match self {
            TimedAscendingState::AwaitingStart { start, starting_expiry, options } => {
                if now > *start {
                    if now < *starting_expiry {
                        let r = TimedAscendingState::OnGoing {
                            bids: Vec::new(),
                            next_expiry: *starting_expiry,
                            options: *options,
                        };
                        proof {
                            assert(bid_seq_view(Seq::<Bid>::empty()) =~= Seq::<BidV>::empty());
                        }
                        r
                    } else {
                        let r = TimedAscendingState::HasEnded {
                            bids: Vec::new(),
                            expiry: *starting_expiry,
                            options: *options,
                        };
                        proof {
                            assert(bid_seq_view(Seq::<Bid>::empty()) =~= Seq::<BidV>::empty());
                        }
                        r
                    }
                } else {
                    TimedAscendingState::AwaitingStart {
                        start: *start,
                        starting_expiry: *starting_expiry,
                        options: *options,
                    }
                }
            },
            TimedAscendingState::OnGoing { bids, next_expiry, options } => {
                if now < *next_expiry {
                    TimedAscendingState::OnGoing {
                        bids: clone_bids(bids),
                        next_expiry: *next_expiry,
                        options: *options,
                    }
                } else {
                    TimedAscendingState::HasEnded {
                        bids: clone_bids(bids),
                        expiry: *next_expiry,
                        options: *options,
                    }
                }
            },
            TimedAscendingState::HasEnded { bids, expiry, options } => {
                TimedAscendingState::HasEnded {
                    bids: clone_bids(bids),
                    expiry: *expiry,
                    options: *options,
                }
            },
        }
    }

    /// Places a bid, exactly as [`ta_add_bid_spec`] describes: the state is
    /// first advanced to the bid's timestamp, then the bid is accepted or
    /// rejected against the standing bid and the raise requirement.
    pub fn add_bid(&self, bid: Bid) -> (r: (TimedAscendingState, Result<(), Errors>))
        requires
            i64::MIN <= bid@.at + ta_options(self@).time_frame <= i64::MAX,
        ensures
            (r.0@, outcome_view(r.1)) == ta_add_bid_spec(self@, bid@),
    {
        let now = bid.at;
        let auction_id = bid.for_auction;
        let next = self.inc(now);
        proof {
            assert(ta_options(ta_inc(self@, now as int)) == ta_options(self@));
        }
        match next {
            TimedAscendingState::AwaitingStart { start, starting_expiry, options } => {
                (
                    TimedAscendingState::AwaitingStart { start, starting_expiry, options },
                    Err(Errors::AuctionHasNotStarted(auction_id)),
                )
            },
            TimedAscendingState::OnGoing { bids, next_expiry, options } => {
                let cand: i128 = now as i128 + options.time_frame as i128;
                let new_expiry: i64 = if cand <= next_expiry as i128 {
                    next_expiry
                } else {
                    cand as i64
                };
                proof {
                    assert(new_expiry as int == max_int(
                        next_expiry as int,
                        now as int + options@.time_frame,
                    ));
                }
                let accept = if bids.len() == 0 {
                    true
                } else {
                    let highest_val = bids[0].bid_amount.value();
                    let min_raise_val = options.min_raise.value();
                    proof {
                        assert(bid_seq_view(bids@)[0] == bids@[0]@);
                    }
                    bid.bid_amount.value() as i128 >= highest_val as i128 + min_raise_val as i128
                };
                if accept {
                    let mut new_bids = bids;
                    new_bids.insert(0, bid);
                    proof {
                        assert(bid_seq_view(new_bids@) =~= seq![bid@] + bid_seq_view(
                            new_bids@.subrange(1, new_bids@.len() as int),
                        ));
                        assert(new_bids@.subrange(1, new_bids@.len() as int)
                            =~= new_bids@.drop_first());
                    }
                    (
                        TimedAscendingState::OnGoing {
                            bids: new_bids,
                            next_expiry: new_expiry,
                            options,
                        },
                        Ok(()),
                    )
                } else {
                    let highest_amount = {
                        proof {
                            assert(bid_seq_view(bids@)[0] == bids@[0]@);
                        }
                        bids[0].bid_amount
                    };
                    (
                        TimedAscendingState::OnGoing { bids, next_expiry, options },
                        Err(Errors::MustPlaceBidOverHighestBid(highest_amount)),
                    )
                }
            },
            TimedAscendingState::HasEnded { bids, expiry, options } => {
                (
                    TimedAscendingState::HasEnded { bids, expiry, options },
                    Err(Errors::AuctionHasEnded(auction_id)),
                )
            },
        }
    }

    /// The bids so far, newest (and highest) first.
    pub fn get_bids(&self) -> (r: Vec<Bid>)
        ensures
            bid_seq_view(r@) == ta_get_bids_spec(self@),
    {
        match self {
            TimedAscendingState::AwaitingStart { .. } => {
                let r: Vec<Bid> = Vec::new();
                proof {
                    assert(bid_seq_view(r@) =~= Seq::<BidV>::empty());
                }
                r
            },
            TimedAscendingState::OnGoing { bids, .. } => clone_bids(bids),
            TimedAscendingState::HasEnded { bids, .. } => clone_bids(bids),
        }
    }

    /// The winning amount and winner id, exactly as [`ta_winner`]
    /// describes: defined only in the ended state, and only when the top
    /// bid strictly exceeds the reserve price.
    pub fn try_get_amount_and_winner(&self) -> (r: Option<(Amount, UserId)>)
        ensures
            ta_winner(self@) matches Some(w) ==> (r matches Some(x) && x.0@ == w.0 && x.1@
                == w.1),
            ta_winner(self@) is None ==> r is None,
    {
        match self {
            TimedAscendingState::HasEnded { bids, options, .. } => {
                if bids.len() > 0 {
                    proof {
                        assert(bid_seq_view(bids@)[0] == bids@[0]@);
                    }
                    let first = &bids[0];
                    if options.reserve_price.value() < first.bid_amount.value() {
                        Some((first.bid_amount, first.bidder.user_id().clone()))
                    } else {
                        None
                    }
                } else {
                    None
                }
            },
            TimedAscendingState::AwaitingStart { .. } => None,
            TimedAscendingState::OnGoing { .. } => None,
        }
    }

    /// Whether the auction has ended.
    pub fn has_ended(&self) -> (r: bool)
        ensures
            r == ta_has_ended(self@),
    {
        match self {
            TimedAscendingState::HasEnded { .. } => true,
            TimedAscendingState::AwaitingStart { .. } => false,
            TimedAscendingState::OnGoing { .. } => false,
        }
    }
}

// ---------------------------------------------------------------------------
// Laws of the state machine
// ---------------------------------------------------------------------------

/// Law: advancing time twice to the same instant is the same as advancing
/// once.
pub proof fn lemma_ta_inc_idempotent(s: TaStateV, t: int)
    ensures
        ta_inc(ta_inc(s, t), t) == ta_inc(s, t),
{
}

/// Law: once a state has ended it is terminal; no further time advance
/// changes it, so it can never report not-ended again.
pub proof fn lemma_ta_ended_monotonic(s: TaStateV, t: int)
    requires
        ta_has_ended(s),
    ensures
        ta_inc(s, t) == s,
        ta_has_ended(ta_inc(s, t)),
{
}

/// Law: on a running auction with a standing bid, a bid strictly below the
/// standing amount plus the minimum raise is rejected naming the standing
/// amount, and a bid reaching that sum (equality included) is accepted.
pub proof fn lemma_ta_raise_enforcement(s: TaStateV, b: BidV)
    requires
        ta_inc(s, b.at) is OnGoing,
        ta_get_bids_spec(ta_inc(s, b.at)).len() > 0,
    ensures
        b.bid_amount.value < ta_get_bids_spec(ta_inc(s, b.at))[0].bid_amount.value + ta_options(
            s,
        ).min_raise.value ==> ta_add_bid_spec(s, b).1 == Err::<(), ErrorV>(
            ErrorV::MustPlaceBidOverHighestBid(ta_get_bids_spec(ta_inc(s, b.at))[0].bid_amount),
        ),
        b.bid_amount.value >= ta_get_bids_spec(ta_inc(s, b.at))[0].bid_amount.value + ta_options(
            s,
        ).min_raise.value ==> ta_add_bid_spec(s, b).1 is Ok,
{
    assert(ta_options(ta_inc(s, b.at)) == ta_options(s));
}

/// Law (anti-snipe extension): a bid accepted at time `t` on a running
/// auction with deadline `d` sets the new deadline to
/// `max(d, t + time_frame)`.
pub proof fn lemma_ta_anti_snipe(s: TaStateV, b: BidV)
    requires
        ta_inc(s, b.at) is OnGoing,
        ta_add_bid_spec(s, b).1 is Ok,
    ensures
        ta_add_bid_spec(s, b).0 is OnGoing,
        ta_deadline(ta_add_bid_spec(s, b).0) == max_int(
            ta_deadline(ta_inc(s, b.at)),
            b.at + ta_options(s).time_frame,
        ),
{
    assert(ta_options(ta_inc(s, b.at)) == ta_options(s));
}

/// The state after a whole sequence of bid placements, in order.
pub open spec fn ta_apply_bids(s: TaStateV, bs: Seq<BidV>) -> TaStateV
    decreases bs.len(),
{
    if bs.len() == 0 {
        s
    } else {
        ta_apply_bids(ta_add_bid_spec(s, bs[0]).0, bs.drop_first())
    }
}

/// Neither time advance nor bid placement changes the static options.
pub proof fn lemma_ta_options_preserved(s: TaStateV, b: BidV, t: int)
    ensures
        ta_options(ta_inc(s, t)) == ta_options(s),
        ta_options(ta_add_bid_spec(s, b).0) == ta_options(s),
{
}

/// Bids sorted by descending amount (newest first; equal amounts allowed).
pub open spec fn sorted_desc(bids: Seq<BidV>) -> bool {
    forall|i: int, j: int|
        0 <= i < j < bids.len() ==> bids[i].bid_amount.value >= bids[j].bid_amount.value
}

/// Law (ascending-auction ordering): with a nonnegative minimum raise,
/// both time advance and bid placement keep the reported bids sorted by
/// descending amount with the most recently accepted bid first; since the
/// initial state reports no bids, every reachable state reports a sorted
/// list.
pub proof fn lemma_ta_order_preserved(s: TaStateV, b: BidV, t: int)
    requires
        sorted_desc(ta_get_bids_spec(s)),
        ta_options(s).min_raise.value >= 0,
    ensures
        sorted_desc(ta_get_bids_spec(ta_inc(s, t))),
        sorted_desc(ta_get_bids_spec(ta_add_bid_spec(s, b).0)),
{
    assert(sorted_desc(Seq::<BidV>::empty()));
    let next = ta_inc(s, b.at);
    assert(ta_get_bids_spec(next) == ta_get_bids_spec(s) || ta_get_bids_spec(next)
        == Seq::<BidV>::empty());
    if next is OnGoing {
        let bids = ta_get_bids_spec(next);
        let new_bids = seq![b] + bids;
        if bids.len() == 0 || b.bid_amount.value >= bids[0].bid_amount.value + ta_options(
            next,
        ).min_raise.value {
            assert(ta_options(next) == ta_options(s));
            assert forall|i: int, j: int| 0 <= i < j < new_bids.len() implies
                new_bids[i].bid_amount.value >= new_bids[j].bid_amount.value by {
                if i > 0 {
                    assert(new_bids[i] == bids[i - 1]);
                    assert(new_bids[j] == bids[j - 1]);
                } else {
                    assert(new_bids[j] == bids[j - 1]);
                    if j > 1 {
                        assert(bids[0].bid_amount.value >= bids[j - 1].bid_amount.value);
                    }
                }
            }
        }
    }
}

/// Law (ascending-auction ordering, over whole runs): with a nonnegative
/// minimum raise, after any sequence of bid placements the reported bids
/// are sorted by descending amount, newest first.
pub proof fn lemma_ta_order_after_any_bids(s: TaStateV, bs: Seq<BidV>)
    requires
        sorted_desc(ta_get_bids_spec(s)),
        ta_options(s).min_raise.value >= 0,
    ensures
        sorted_desc(ta_get_bids_spec(ta_apply_bids(s, bs))),
    decreases bs.len(),
{
    if bs.len() > 0 {
        let s2 = ta_add_bid_spec(s, bs[0]).0;
        lemma_ta_order_preserved(s, bs[0], 0);
        lemma_ta_options_preserved(s, bs[0], 0);
        lemma_ta_order_after_any_bids(s2, bs.drop_first());
    }
}

} // verus!
