//! The command handler and the repository of auctions. `handle` is a pure
//! function from a command and a repository snapshot to a success event and
//! a new snapshot, or a typed error; no command partially applies.

use vstd::prelude::*;

use crate::auctions::add_bid_fits;
use crate::auctions::auction_add_bid_spec;
use crate::auctions::empty_state;
use crate::auctions::empty_state_spec;
use crate::auctions::validate_bid;
use crate::auctions::validate_bid_spec;
use crate::auctions::Auction;
use crate::auctions::AuctionState;
use crate::auctions::AuctionStateV;
use crate::auctions::AuctionV;
use crate::commands::Command;
use crate::commands::CommandSuccess;
use crate::commands::CommandSuccessV;
use crate::commands::CommandV;
use crate::errors::ErrorV;
use crate::errors::Errors;
use crate::AuctionId;

verus! {

/// Mathematical model of one repository entry.
#[verifier::ext_equal]
pub struct RepoEntryV {
    pub auction_id: int,
    pub auction: AuctionV,
    pub state: AuctionStateV,
}

#[derive(Debug, PartialEq, Eq)]
struct RepoEntry {
    id: AuctionId,
    auction: Auction,
    state: AuctionState,
}

impl View for RepoEntry {
    type V = RepoEntryV;

    closed spec fn view(&self) -> RepoEntryV {
        RepoEntryV { auction_id: self.id as int, auction: self.auction@, state: self.state@ }
    }
}

impl Clone for RepoEntry {
    fn clone(&self) -> (r: Self)
        ensures
            r@ == self@,
    {
        RepoEntry { id: self.id, auction: self.auction.clone(), state: self.state.clone() }
    }
}

/// The keyed collection of auctions: each entry pairs an auction with its
/// evolving state. Keys are unique; entries are never removed.
#[derive(Debug, PartialEq, Eq)]
pub struct Repository {
    entries: Vec<RepoEntry>,
}

/// The models of a sequence of entries, in the same order.
spec fn entry_seq_view(s: Seq<RepoEntry>) -> Seq<RepoEntryV> {
    s.map_values(|e: RepoEntry| e@)
}

impl View for Repository {
    type V = Seq<RepoEntryV>;

    closed spec fn view(&self) -> Seq<RepoEntryV> {
        entry_seq_view(self.entries@)
    }
}

impl Clone for Repository {
    fn clone(&self) -> (r: Self)
        ensures
            r@ == self@,
    {
        let mut entries: Vec<RepoEntry> = Vec::new();
        let mut i: usize = 0;
        proof {
            assert(entry_seq_view(entries@) =~= entry_seq_view(self.entries@.take(0)));
        }
        while i < self.entries.len()
            invariant
                0 <= i <= self.entries@.len(),
                entry_seq_view(entries@) == entry_seq_view(self.entries@.take(i as int)),
            decreases self.entries@.len() - i,
        {
            let ghost r0 = entries@;
            let e = self.entries[i].clone();
            let ghost ev = e@;
            proof {
                assert(ev == self.entries@[i as int]@);
            }
            entries.push(e);
            proof {
                assert(entries@ == r0.push(e));
                let pre = self.entries@.take(i + 1);
                assert(entry_seq_view(r0).len() == r0.len());
                assert(self.entries@.take(i as int).len() == i);
                assert(r0.len() == i);
                assert(entries@.len() == i + 1);
                assert(entry_seq_view(entries@).len() == i + 1);
                assert(entry_seq_view(pre).len() == i + 1);
                assert forall|k: int| 0 <= k < i + 1 implies entry_seq_view(entries@)[k]
                    == entry_seq_view(pre)[k] by {
                    assert(pre[k] == self.entries@[k]);
                    if k < i {
                        assert(entries@[k] == r0[k]);
                        assert(entry_seq_view(r0)[k] == entry_seq_view(
                            self.entries@.take(i as int),
                        )[k]);
                        assert(self.entries@.take(i as int)[k] == self.entries@[k]);
                    } else {
                        assert(entries@[k] == e);
                    }
                }
                assert(entry_seq_view(entries@) =~= entry_seq_view(pre));
            }
            i += 1;
        }
        proof {
            assert(self.entries@.take(self.entries@.len() as int) =~= self.entries@);
        }
        Repository { entries }
    }
}

// ---------------------------------------------------------------------------
// Spec views of the repository
// ---------------------------------------------------------------------------

/// Whether some entry carries this auction id.
pub open spec fn repo_has(r: Seq<RepoEntryV>, id: int) -> bool {
    exists|k: int| 0 <= k < r.len() && (#[trigger] r[k]).auction_id == id
}

/// The first entry with this auction id, if any.
pub open spec fn repo_lookup(r: Seq<RepoEntryV>, id: int) -> Option<RepoEntryV>
    decreases r.len(),
{
    if r.len() == 0 {
        None
    } else if r[0].auction_id == id {
        Some(r[0])
    } else {
        repo_lookup(r.drop_first(), id)
    }
}

/// The repository with the state of the first entry of this id replaced.
pub open spec fn repo_set_state(r: Seq<RepoEntryV>, id: int, s: AuctionStateV) -> Seq<RepoEntryV>
    decreases r.len(),
{
    if r.len() == 0 {
        r
    } else if r[0].auction_id == id {
        seq![RepoEntryV { auction_id: r[0].auction_id, auction: r[0].auction, state: s }]
            + r.drop_first()
    } else {
        seq![r[0]] + repo_set_state(r.drop_first(), id, s)
    }
}

/// Auction ids are unique.
pub open spec fn repo_wf(r: Seq<RepoEntryV>) -> bool {
    forall|i: int, j: int|
        0 <= i < j < r.len() ==> (#[trigger] r[i]).auction_id != (#[trigger] r[j]).auction_id
}

/// The auctions of all entries, in insertion order.
pub open spec fn repo_auctions(r: Seq<RepoEntryV>) -> Seq<AuctionV> {
    r.map_values(|e: RepoEntryV| e.auction)
}

/// The models of a sequence of auctions, in the same order.
pub open spec fn auction_seq_view(s: Seq<Auction>) -> Seq<AuctionV> {
    s.map_values(|a: Auction| a@)
}

proof fn lemma_repo_lookup_at(r: Seq<RepoEntryV>, id: int, i: int)
    requires
        0 <= i < r.len(),
        r[i].auction_id == id,
        forall|j: int| 0 <= j < i ==> (#[trigger] r[j]).auction_id != id,
    ensures
        repo_lookup(r, id) == Some(r[i]),
    decreases i,
{
    if i > 0 {
        let t = r.drop_first();
        assert(forall|j: int| 0 <= j < t.len() ==> t[j] == #[trigger] r[j + 1]);
        lemma_repo_lookup_at(t, id, i - 1);
    }
}

proof fn lemma_repo_lookup_none(r: Seq<RepoEntryV>, id: int)
    requires
        forall|j: int| 0 <= j < r.len() ==> (#[trigger] r[j]).auction_id != id,
    ensures
        repo_lookup(r, id) is None,
    decreases r.len(),
{
    if r.len() > 0 {
        let t = r.drop_first();
        assert(forall|j: int| 0 <= j < t.len() ==> t[j] == #[trigger] r[j + 1]);
        lemma_repo_lookup_none(t, id);
    }
}

proof fn lemma_repo_set_state_at(r: Seq<RepoEntryV>, id: int, s: AuctionStateV, i: int)
    requires
        0 <= i < r.len(),
        r[i].auction_id == id,
        forall|j: int| 0 <= j < i ==> (#[trigger] r[j]).auction_id != id,
    ensures
        repo_set_state(r, id, s) == r.update(
            i,
            RepoEntryV { auction_id: r[i].auction_id, auction: r[i].auction, state: s },
        ),
    decreases i,
{
    if i == 0 {
        assert(seq![RepoEntryV { auction_id: r[0].auction_id, auction: r[0].auction, state: s }]
            + r.drop_first() =~= r.update(
            0,
            RepoEntryV { auction_id: r[0].auction_id, auction: r[0].auction, state: s },
        ));
    } else {
        let t = r.drop_first();
        assert(forall|j: int| 0 <= j < t.len() ==> t[j] == #[trigger] r[j + 1]);
        lemma_repo_set_state_at(t, id, s, i - 1);
        assert(seq![r[0]] + t.update(
            i - 1,
            RepoEntryV { auction_id: t[i - 1].auction_id, auction: t[i - 1].auction, state: s },
        ) =~= r.update(
            i,
            RepoEntryV { auction_id: r[i].auction_id, auction: r[i].auction, state: s },
        ));
    }
}

// ---------------------------------------------------------------------------
// Executable repository
// ---------------------------------------------------------------------------

impl Repository {
    /// An empty collection of auctions.
    pub fn new() -> (r: Repository)
        ensures
            r@ == Seq::<RepoEntryV>::empty(),
    {
        let r = Repository { entries: Vec::new() };
        proof {
            assert(r@ =~= Seq::<RepoEntryV>::empty());
        }
        r
    }

    /// The index of the first entry with this id, scanning in insertion
    /// order.
    fn index_of(&self, auction_id: AuctionId) -> (r: Option<usize>)
        ensures
            r matches Some(i) ==> (i as int) < self@.len() && self@[i as int].auction_id
                == auction_id as int && (forall|j: int|
                0 <= j < i ==> (#[trigger] self@[j]).auction_id != auction_id as int),
            r is None ==> forall|j: int|
                0 <= j < self@.len() ==> (#[trigger] self@[j]).auction_id != auction_id as int,
    {
        let mut i: usize = 0;
        while i < self.entries.len()
            invariant
                0 <= i <= self.entries@.len(),
                self@.len() == self.entries@.len(),
                forall|j: int| 0 <= j < i ==> (#[trigger] self@[j]).auction_id != auction_id as int,
            decreases self.entries@.len() - i,
        {
            proof {
                assert(self@[i as int] == self.entries@[i as int]@);
            }
            if self.entries[i].id == auction_id {
                return Some(i);
            }
            i += 1;
        }
        None
    }

    /// Whether an auction with this id has been added.
    pub fn contains_key(&self, auction_id: AuctionId) -> (r: bool)
        ensures
            r == repo_has(self@, auction_id as int),
    {
        match self.index_of(auction_id) {
            Some(i) => {
                proof {
                    assert(self@[i as int].auction_id == auction_id as int);
                }
                true
            },
            None => false,
        }
    }

    /// The auction and state stored under this id, if any.
    pub fn get(&self, auction_id: AuctionId) -> (r: Option<(&Auction, &AuctionState)>)
        ensures
            repo_lookup(self@, auction_id as int) matches Some(e) ==> (r matches Some(p) && p.0@
                == e.auction && p.1@ == e.state),
            repo_lookup(self@, auction_id as int) is None ==> r is None,
    {
        match self.index_of(auction_id) {
            Some(i) => {
                proof {
                    lemma_repo_lookup_at(self@, auction_id as int, i as int);
                    assert(self@[i as int] == self.entries@[i as int]@);
                }
                let entry = &self.entries[i];
                Some((&entry.auction, &entry.state))
            },
            None => {
                proof {
                    lemma_repo_lookup_none(self@, auction_id as int);
                }
                None
            },
        }
    }

    fn push_entry(&mut self, id: AuctionId, auction: Auction, state: AuctionState)
        ensures
            final(self)@ == old(self)@.push(
                RepoEntryV { auction_id: id as int, auction: auction@, state: state@ },
            ),
    {
        let ghost a = auction@;
        let ghost s = state@;
        self.entries.push(RepoEntry { id, auction, state });
        proof {
            assert(final(self)@ =~= old(self)@.push(
                RepoEntryV { auction_id: id as int, auction: a, state: s },
            ));
        }
    }

    fn set_state_at(&mut self, i: usize, state: AuctionState)
        requires
            (i as int) < old(self)@.len(),
        ensures
            final(self)@ == old(self)@.update(
                i as int,
                RepoEntryV {
                    auction_id: old(self)@[i as int].auction_id,
                    auction: old(self)@[i as int].auction,
                    state: state@,
                },
            ),
    {
        let ghost s = state@;
        let e = self.entries.remove(i);
        self.entries.insert(i, RepoEntry { id: e.id, auction: e.auction, state });
        proof {
            assert(old(self)@[i as int] == old(self).entries@[i as int]@);
            assert(final(self)@ =~= old(self)@.update(
                i as int,
                RepoEntryV {
                    auction_id: old(self)@[i as int].auction_id,
                    auction: old(self)@[i as int].auction,
                    state: s,
                },
            ));
        }
    }
}

/// All auctions in the collection, in insertion order.
pub fn auctions(repository: &Repository) -> (r: Vec<Auction>)
    ensures
        auction_seq_view(r@) == repo_auctions(repository@),
{
    let mut r: Vec<Auction> = Vec::new();
    let mut i: usize = 0;
    proof {
        assert(auction_seq_view(r@) =~= repo_auctions(repository@).take(0));
    }
    while i < repository.entries.len()
        invariant
            0 <= i <= repository.entries@.len(),
            repository@.len() == repository.entries@.len(),
            auction_seq_view(r@) == repo_auctions(repository@).take(i as int),
        decreases repository.entries@.len() - i,
    {
        let ghost r0 = r@;
        let a = repository.entries[i].auction.clone();
        let ghost av = a@;
        proof {
            assert(repository@[i as int] == repository.entries@[i as int]@);
            assert(av == repo_auctions(repository@)[i as int]);
        }
        r.push(a);
        proof {
            assert(r@ == r0.push(a));
            let pre = repo_auctions(repository@).take(i + 1);
            assert(auction_seq_view(r0).len() == r0.len());
            assert(repo_auctions(repository@).take(i as int).len() == i);
            assert(r0.len() == i);
            assert(r@.len() == i + 1);
            assert(auction_seq_view(r@).len() == i + 1);
            assert(pre.len() == i + 1);
            assert forall|k: int| 0 <= k < i + 1 implies auction_seq_view(r@)[k] == pre[k] by {
                assert(pre[k] == repo_auctions(repository@)[k]);
                if k < i {
                    assert(r@[k] == r0[k]);
                    assert(auction_seq_view(r0)[k] == repo_auctions(repository@).take(
                        i as int,
                    )[k]);
                } else {
                    assert(r@[k] == a);
                }
            }
            assert(auction_seq_view(r@) =~= pre);
        }
        i += 1;
    }
    proof {
        assert(repo_auctions(repository@).take(repository@.len() as int) =~= repo_auctions(
            repository@,
        ));
    }
    r
}

// ---------------------------------------------------------------------------
// The command handler
// ---------------------------------------------------------------------------

/// Failure of `handle`: a domain error, carried unchanged.
#[derive(Debug, PartialEq, Eq)]
pub enum HandleError {
    AuctionError(Errors),
}

impl View for HandleError {
    type V = ErrorV;

    open spec fn view(&self) -> ErrorV {
        match self {
            HandleError::AuctionError(e) => e@,
        }
    }
}

/// What `handle` computes. Adding an auction requires a fresh id and
/// appends the auction with its initial state; placing a bid requires a
/// known id, the static validation, and the state machine's acceptance,
/// and then replaces that auction's state. Any failure leaves the
/// repository untouched.
pub open spec fn handle_spec(c: CommandV, repo: Seq<RepoEntryV>) -> Result<
    (CommandSuccessV, Seq<RepoEntryV>),
    ErrorV,
> {
    match c {
        CommandV::AddAuction { timestamp, auction } => {
            if repo_has(repo, auction.auction_id) {
                Err(ErrorV::AuctionAlreadyExists(auction.auction_id))
            } else {
                Ok(
                    (
                        CommandSuccessV::AuctionAdded { timestamp, auction },
                        repo.push(
                            RepoEntryV {
                                auction_id: auction.auction_id,
                                auction,
                                state: empty_state_spec(auction),
                            },
                        ),
                    ),
                )
            }
        },
        CommandV::PlaceBid { timestamp, bid } => {
            match repo_lookup(repo, bid.for_auction) {
                None => Err(ErrorV::UnknownAuction(bid.for_auction)),
                Some(e) => match validate_bid_spec(bid, e.auction) {
                    Err(err) => Err(err),
                    Ok(()) => {
                        let (s2, res) = auction_add_bid_spec(e.state, bid);
                        match res {
                            Err(err) => Err(err),
                            Ok(()) => Ok(
                                (
                                    CommandSuccessV::BidAccepted { timestamp, bid },
                                    repo_set_state(repo, bid.for_auction, s2),
                                ),
                            ),
                        }
                    },
                },
            }
        },
    }
}

/// Whether the anti-snipe arithmetic of the addressed auction stays
/// representable for this command; every other command is unconstrained.
pub open spec fn handle_fits(c: CommandV, repo: Seq<RepoEntryV>) -> bool {
    c matches CommandV::PlaceBid { bid, .. } ==> (repo_lookup(repo, bid.for_auction) matches Some(
        e,
    ) ==> add_bid_fits(e.state, bid))
}

/// Applies one command to a repository snapshot, exactly as
/// [`handle_spec`] describes: a success event and the new snapshot, or a
/// typed error with nothing changed.
pub fn handle(command: Command, repository: Repository) -> (r: Result<
    (CommandSuccess, Repository),
    HandleError,
>)
    requires
        handle_fits(command@, repository@),
    ensures
        handle_spec(command@, repository@) matches Ok(p) ==> (r matches Ok(q) && q.0@ == p.0
            && q.1@ == p.1),
        handle_spec(command@, repository@) matches Err(e) ==> (r matches Err(he) && he@ == e),
{
    match command {
        Command::AddAuction { timestamp, auction } => {
            let auction_id = auction.auction_id;
            let mut repo = repository;
            if !repo.contains_key(auction_id) {
                let state = empty_state(&auction);
                let stored = auction.clone();
                repo.push_entry(auction_id, stored, state);
                Ok((CommandSuccess::AuctionAdded { timestamp, auction }, repo))
            } else {
                Err(HandleError::AuctionError(Errors::AuctionAlreadyExists(auction_id)))
            }
        },
        Command::PlaceBid { timestamp, bid } => {
            let auction_id = bid.for_auction;
            let mut repo = repository;
            match repo.index_of(auction_id) {
                None => {
                    proof {
                        lemma_repo_lookup_none(repo@, auction_id as int);
                    }
                    Err(HandleError::AuctionError(Errors::UnknownAuction(auction_id)))
                },
                Some(i) => {
                    proof {
                        lemma_repo_lookup_at(repo@, auction_id as int, i as int);
                    }
                    let entry = &repo.entries[i];
                    proof {
                        assert(repo@[i as int] == repo.entries@[i as int]@);
                    }
                    match validate_bid(&bid, &entry.auction) {
                        Err(e) => Err(HandleError::AuctionError(e)),
                        Ok(()) => {
                            let (next_state, bres) = entry.state.add_bid(bid.clone());
                            match bres {
                                Err(e) => Err(HandleError::AuctionError(e)),
                                Ok(()) => {
                                    let ghost rv = repo@;
                                    proof {
                                        lemma_repo_set_state_at(
                                            rv,
                                            auction_id as int,
                                            next_state@,
                                            i as int,
                                        );
                                    }
                                    repo.set_state_at(i, next_state);
                                    Ok((CommandSuccess::BidAccepted { timestamp, bid }, repo))
                                },
                            }
                        },
                    }
                },
            }
        },
    }
}

// ---------------------------------------------------------------------------
// Laws of the handler
// ---------------------------------------------------------------------------

proof fn lemma_repo_set_state_ids(r: Seq<RepoEntryV>, id: int, s: AuctionStateV)
    ensures
        repo_set_state(r, id, s).len() == r.len(),
        forall|k: int|
            0 <= k < r.len() ==> (#[trigger] repo_set_state(r, id, s)[k]).auction_id
                == r[k].auction_id,
    decreases r.len(),
{
    if r.len() > 0 {
        let t = r.drop_first();
        lemma_repo_set_state_ids(t, id, s);
        assert(forall|j: int| 0 <= j < t.len() ==> t[j] == #[trigger] r[j + 1]);
    }
}

/// Law: auction ids are unique, and every successful command keeps them
/// unique; adding checks freshness and bidding only replaces a state.
pub proof fn lemma_handle_preserves_wf(c: CommandV, repo: Seq<RepoEntryV>)
    requires
        repo_wf(repo),
    ensures
        handle_spec(c, repo) matches Ok(p) ==> repo_wf(p.1),
{
    match c {
        CommandV::AddAuction { timestamp, auction } => {
            if !repo_has(repo, auction.auction_id) {
                let entry = RepoEntryV {
                    auction_id: auction.auction_id,
                    auction,
                    state: empty_state_spec(auction),
                };
                let r2 = repo.push(entry);
                assert forall|i: int, j: int| 0 <= i < j < r2.len() implies r2[i].auction_id
                    != r2[j].auction_id by {
                    if j == repo.len() {
                        assert(r2[i] == repo[i]);
                        assert(!(repo[i].auction_id == auction.auction_id));
                    } else {
                        assert(r2[i] == repo[i]);
                        assert(r2[j] == repo[j]);
                    }
                }
            }
        },
        CommandV::PlaceBid { timestamp, bid } => {
            if handle_spec(c, repo) is Ok {
                let e = repo_lookup(repo, bid.for_auction)->Some_0;
                let (s2, res) = auction_add_bid_spec(e.state, bid);
                lemma_repo_set_state_ids(repo, bid.for_auction, s2);
                let r2 = repo_set_state(repo, bid.for_auction, s2);
                assert forall|i: int, j: int| 0 <= i < j < r2.len() implies r2[i].auction_id
                    != r2[j].auction_id by {
                    assert(r2[i].auction_id == repo[i].auction_id);
                    assert(r2[j].auction_id == repo[j].auction_id);
                }
            }
        },
    }
}

} // verus!
