//! Consensus among peers: the longest valid chain wins, and among equally
//! long ones the one that was answered first.

use crate::block::{blocks_view, Block, BlockView};
use crate::blockchain::{Blockchain, LedgerView};
use crate::chain::chain_valid;
use vstd::prelude::*;

verus! {

/// A peer's answer to the request for its chain.
#[derive(Debug, PartialEq, Eq)]
pub struct ChainResponse {
    pub chain: Vec<Block>,
}

/// Why a peer gave no chain.
#[derive(Clone, Copy, Debug, PartialEq, Eq, Structural)]
pub enum PeerError {
    /// The peer did not answer in time, or could not be reached at all.
    PeerUnreachable,
    /// The peer answered, but not with a chain.
    PeerMalformedResponse,
}

/// What one peer offers: its chain, or nothing where the fetch failed.
pub open spec fn offer(response: Result<ChainResponse, PeerError>) -> Option<Seq<BlockView>> {
    match response {
        Ok(answer) => Some(blocks_view(answer.chain@)),
        Err(_) => None,
    }
}

/// What the peers offer, in the order in which they were asked.
pub open spec fn offers(responses: Seq<Result<ChainResponse, PeerError>>) -> Seq<
    Option<Seq<BlockView>>,
> {
    responses.map_values(|r: Result<ChainResponse, PeerError>| offer(r))
}

/// Whether an offer holds a valid chain of more than `length` blocks.
pub open spec fn beats(offered: Option<Seq<BlockView>>, length: nat) -> bool {
    offered matches Some(chain) && chain.len() > length && chain_valid(chain)
}

/// Whether some offer beats a local chain of `local_length` blocks.
pub open spec fn has_winner(local_length: nat, offered: Seq<Option<Seq<BlockView>>>) -> bool {
    exists|j: int| 0 <= j < offered.len() && beats(#[trigger] offered[j], local_length)
}

/// Whether the offer at position `w` wins against a local chain of
/// `local_length` blocks: it beats the local chain, no offer beats it, and
/// every earlier valid offer is strictly shorter.
pub open spec fn is_winner(
    local_length: nat,
    offered: Seq<Option<Seq<BlockView>>>,
    w: int,
) -> bool {
    &&& 0 <= w < offered.len()
    &&& beats(offered[w], local_length)
    &&& forall|j: int|
        0 <= j < offered.len() ==> !beats(#[trigger] offered[j], offered[w].unwrap().len())
    &&& forall|j: int|
        0 <= j < w ==> !beats(#[trigger] offered[j], (offered[w].unwrap().len() - 1) as nat)
}

/// The position of the winning offer, where there is one.
pub open spec fn winner(local_length: nat, offered: Seq<Option<Seq<BlockView>>>) -> int {
    choose|w: int| is_winner(local_length, offered, w)
}

/// There is at most one winner, and where there is one, some offer beats the
/// local chain.
pub proof fn lemma_winner_unique(
    local_length: nat,
    offered: Seq<Option<Seq<BlockView>>>,
    w: int,
)
    requires
        is_winner(local_length, offered, w),
    ensures
        winner(local_length, offered) == w,
        has_winner(local_length, offered),
{
    let chosen = winner(local_length, offered);
    assert(is_winner(local_length, offered, chosen));
    assert(!beats(offered[w], offered[chosen].unwrap().len()));
    assert(!beats(offered[chosen], offered[w].unwrap().len()));
    if chosen < w {
        assert(!beats(offered[chosen], (offered[w].unwrap().len() - 1) as nat));
    }
    if w < chosen {
        assert(!beats(offered[w], (offered[chosen].unwrap().len() - 1) as nat));
    }
}

/// Whether the offer at position `w` wins among the first `n` offers.
spec fn wins_among(
    local_length: nat,
    offered: Seq<Option<Seq<BlockView>>>,
    n: int,
    w: int,
) -> bool {
    &&& 0 <= w < n
    &&& beats(offered[w], local_length)
    &&& forall|j: int| 0 <= j < n ==> !beats(#[trigger] offered[j], offered[w].unwrap().len())
    &&& forall|j: int|
        0 <= j < w ==> !beats(#[trigger] offered[j], (offered[w].unwrap().len() - 1) as nat)
}

/// Where one of the first `n` offers beats the local chain, one of them wins
/// among them.
proof fn lemma_winner_among(local_length: nat, offered: Seq<Option<Seq<BlockView>>>, n: int)
    requires
        0 <= n <= offered.len(),
        exists|j: int| 0 <= j < n && beats(#[trigger] offered[j], local_length),
    ensures
        exists|w: int| wins_among(local_length, offered, n, w),
    decreases n,
{
    let last = n - 1;
    if exists|j: int| 0 <= j < last && beats(#[trigger] offered[j], local_length) {
        lemma_winner_among(local_length, offered, last);
        let w = choose|w: int| wins_among(local_length, offered, last, w);
        if beats(offered[last], offered[w].unwrap().len()) {
            assert(wins_among(local_length, offered, n, last));
        } else {
            assert(wins_among(local_length, offered, n, w));
        }
    } else {
        assert(beats(offered[last], local_length));
        assert(wins_among(local_length, offered, n, last));
    }
}

/// Where some offer beats the local chain, `winner` is the position of the
/// winning offer.
pub proof fn lemma_winner_exists(local_length: nat, offered: Seq<Option<Seq<BlockView>>>)
    requires
        has_winner(local_length, offered),
    ensures
        is_winner(local_length, offered, winner(local_length, offered)),
{
    lemma_winner_among(local_length, offered, offered.len() as int);
    let w = choose|w: int| wins_among(local_length, offered, offered.len() as int, w);
    assert(is_winner(local_length, offered, w));
}

/// Consensus never adopts a chain that is not valid, however long it is: the
/// resolved ledger keeps the invariant, and its chain is either the local
/// one or a valid offer that is longer than the local chain and as long as
/// any valid offer.
pub proof fn lemma_resolved_chain_valid(ledger: LedgerView, offered: Seq<Option<Seq<BlockView>>>)
    requires
        ledger.wf(),
    ensures
        ledger.resolved(offered).wf(),
        chain_valid(ledger.resolved(offered).chain),
        ledger.resolved(offered).pending == ledger.pending,
        ledger.resolved(offered).nodes == ledger.nodes,
        !has_winner(ledger.chain.len(), offered) ==> ledger.resolved(offered) == ledger,
        has_winner(ledger.chain.len(), offered) ==> {
            &&& ledger.resolved(offered).chain.len() > ledger.chain.len()
            &&& exists|w: int|
                0 <= w < offered.len() && #[trigger] offered[w] == Some(
                    ledger.resolved(offered).chain,
                )
            &&& forall|j: int|
                0 <= j < offered.len() ==> !beats(
                    #[trigger] offered[j],
                    ledger.resolved(offered).chain.len(),
                )
        },
{
    if has_winner(ledger.chain.len(), offered) {
        lemma_winner_exists(ledger.chain.len(), offered);
        let w = winner(ledger.chain.len(), offered);
        assert(offered[w] == Some(ledger.resolved(offered).chain));
    }
}

impl LedgerView {
    /// The ledger after consensus over these offers: the winning chain
    /// replaces the local one, and nothing else changes; without a winner
    /// the ledger stays as it is.
    pub open spec fn resolved(self, offered: Seq<Option<Seq<BlockView>>>) -> LedgerView {
        if has_winner(self.chain.len(), offered) {
            LedgerView { chain: offered[winner(self.chain.len(), offered)].unwrap(), ..self }
        } else {
            self
        }
    }
}

/// Picks the winning answer against a local chain of `local_length` blocks:
/// the first among the longest valid chains that are longer than the local
/// one.
pub fn select_chain(local_length: usize, responses: &Vec<Result<ChainResponse, PeerError>>) -> (best:
    Option<usize>)
    ensures
        match best {
            Some(w) => is_winner(local_length as nat, offers(responses@), w as int),
            None => !has_winner(local_length as nat, offers(responses@)),
        },
{
    let ghost offered = offers(responses@);
    let mut best: Option<usize> = None;
    let mut max_length: usize = local_length;
    let mut i: usize = 0;
    while i < responses.len()
        invariant
            i <= responses.len(),
            offered == offers(responses@),
            local_length <= max_length,
            forall|j: int| 0 <= j < i ==> !beats(#[trigger] offered[j], max_length as nat),
            match best {
                Some(w) => {
                    &&& w < i
                    &&& beats(offered[w as int], local_length as nat)
                    &&& offered[w as int].unwrap().len() == max_length
                    &&& forall|j: int|
                        0 <= j < w ==> !beats(#[trigger] offered[j], (max_length - 1) as nat)
                },
                None => max_length == local_length,
            },
        decreases responses.len() - i,
    {
        match &responses[i] {
            Ok(answer) => {
                if Blockchain::new_consensus(max_length, &answer.chain) {
                    max_length = answer.chain.len();
                    best = Some(i);
                }
            },
            Err(_) => {},
        }
        i += 1;
    }
    best
}

impl Blockchain {
    /// Settles on a chain, given what the peers answered, in the order in
    /// which they were asked. The first among the longest valid chains that
    /// are longer than the local chain replaces it; the pending pool and the
    /// peer list stay. Returns whether the chain was replaced.
    pub fn resolve_conflicts(&mut self, responses: Vec<Result<ChainResponse, PeerError>>) -> (replaced:
        bool)
        requires
            old(self).wf(),
        ensures
            final(self).wf(),
            replaced == has_winner(old(self)@.chain.len(), offers(responses@)),
            final(self)@ == old(self)@.resolved(offers(responses@)),
    {
        let mut responses = responses;
        let ghost offered = offers(responses@);
        match select_chain(self.chain().len(), &responses) {
            Some(w) => {
                proof {
                    lemma_winner_unique(self@.chain.len(), offered, w as int);
                }
                match responses.swap_remove(w) {
                    Ok(answer) => {
                        self.replace_chain(answer.chain);
                        true
                    },
                    Err(_) => false,
                }
            },
            None => false,
        }
    }
}

} // verus!
