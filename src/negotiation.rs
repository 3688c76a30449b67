use crate::types::{PlayerId, TeamId, Tick, WorldError};
use vstd::prelude::*;

verus! {

/// An outstanding offer: a trade of two players between their teams, or a
/// challenge of one team by another.
#[derive(Debug, Clone, Copy, PartialEq, Eq, Structural)]
pub enum Proposal {
    Trade {
        proposer_player_id: PlayerId,
        target_player_id: PlayerId,
        proposer_team_id: TeamId,
        target_team_id: TeamId,
        created: Tick,
    },
    Challenge { proposer_team_id: TeamId, target_team_id: TeamId, created: Tick },
}

/// What identifies a proposal: the two players of a trade, the two teams of
/// a challenge.
#[derive(Debug, Clone, Copy, PartialEq, Eq, Structural)]
pub enum ProposalKey {
    Trade { proposer_player_id: PlayerId, target_player_id: PlayerId },
    Challenge { proposer_team_id: TeamId, target_team_id: TeamId },
}

pub open spec fn proposal_key(p: Proposal) -> ProposalKey {
    match p {
        Proposal::Trade { proposer_player_id, target_player_id, .. } => ProposalKey::Trade {
            proposer_player_id,
            target_player_id,
        },
        Proposal::Challenge { proposer_team_id, target_team_id, .. } => ProposalKey::Challenge {
            proposer_team_id,
            target_team_id,
        },
    }
}

pub open spec fn proposal_target_team(p: Proposal) -> TeamId {
    match p {
        Proposal::Trade { target_team_id, .. } => target_team_id,
        Proposal::Challenge { target_team_id, .. } => target_team_id,
    }
}

pub open spec fn proposal_proposer_team(p: Proposal) -> TeamId {
    match p {
        Proposal::Trade { proposer_team_id, .. } => proposer_team_id,
        Proposal::Challenge { proposer_team_id, .. } => proposer_team_id,
    }
}

/// Whether some proposal of `s` has key `k`.
pub open spec fn has_key(s: Seq<Proposal>, k: ProposalKey) -> bool {
    exists|i: int| 0 <= i < s.len() && #[trigger] proposal_key(s[i]) == k
}

/// `s` without the proposals of key `k`, the others in their order.
pub open spec fn without_key(s: Seq<Proposal>, k: ProposalKey) -> Seq<Proposal>
    decreases s.len(),
{
    if s.len() == 0 {
        s
    } else {
        let rest = without_key(s.drop_last(), k);
        if proposal_key(s.last()) == k {
            rest
        } else {
            rest.push(s.last())
        }
    }
}

/// A list of proposals after `p` is added, or `AlreadyProposed` where one
/// of the same key is there.
pub open spec fn with_proposal(s: Seq<Proposal>, p: Proposal) -> Result<Seq<Proposal>, WorldError> {
    if has_key(s, proposal_key(p)) {
        Err(WorldError::AlreadyProposed)
    } else {
        Ok(s.push(p))
    }
}

/// Every proposal that `sent` addresses to team `target` is among
/// `received`, that team's incoming proposals.
pub open spec fn mirrored(sent: Seq<Proposal>, received: Seq<Proposal>, target: TeamId) -> bool {
    forall|i: int|
        0 <= i < sent.len() && proposal_target_team(#[trigger] sent[i]) == target
            ==> received.contains(sent[i])
}

/// A proposal survives the removal of key `k` exactly where its key is
/// another.
pub proof fn lemma_without_key_contains(s: Seq<Proposal>, k: ProposalKey, p: Proposal)
    ensures
        without_key(s, k).contains(p) <==> (s.contains(p) && proposal_key(p) != k),
    decreases s.len(),
{
    if s.len() > 0 {
        lemma_without_key_contains(s.drop_last(), k, p);
        let rest = without_key(s.drop_last(), k);
        if s.contains(p) && proposal_key(p) != k {
            let i = choose|i: int| 0 <= i < s.len() && s[i] == p;
            if i < s.len() - 1 {
                assert(s.drop_last()[i] == p);
            }
        }
        if rest.contains(p) {
            let j = choose|j: int| 0 <= j < rest.len() && rest[j] == p;
            if proposal_key(s.last()) != k {
                assert(rest.push(s.last())[j] == p);
            }
        }
        if s.drop_last().contains(p) {
            let j = choose|j: int| 0 <= j < s.drop_last().len() && s.drop_last()[j] == p;
            assert(s[j] == p);
        }
        if proposal_key(s.last()) != k {
            assert(rest.push(s.last())[rest.len() as int] == s.last());
            if rest.push(s.last()).contains(p) {
                let j = choose|j: int| 0 <= j < rest.len() + 1 && rest.push(s.last())[j] == p;
                if j < rest.len() {
                    assert(rest[j] == p);
                }
            }
        }
    }
}

/// A networked proposal stays mirrored: sending it on one side and taking
/// it in on the other, or resolving a key on both sides, keeps every
/// proposal sent to the target team among the target's received ones.
pub proof fn lemma_negotiation_stays_mirrored(
    sent: Seq<Proposal>,
    received: Seq<Proposal>,
    target: TeamId,
    p: Proposal,
    k: ProposalKey,
)
    requires
        mirrored(sent, received, target),
        proposal_target_team(p) == target,
    ensures
        with_proposal(sent, p) is Ok && with_proposal(received, p) is Ok ==> mirrored(
            with_proposal(sent, p)->Ok_0,
            with_proposal(received, p)->Ok_0,
            target,
        ),
        mirrored(without_key(sent, k), without_key(received, k), target),
{
    if with_proposal(sent, p) is Ok && with_proposal(received, p) is Ok {
        let s2 = sent.push(p);
        let r2 = received.push(p);
        assert forall|i: int| 0 <= i < s2.len() && proposal_target_team(#[trigger] s2[i]) == target
            implies r2.contains(s2[i]) by {
            if i < sent.len() {
                assert(s2[i] == sent[i]);
                let j = choose|j: int| 0 <= j < received.len() && received[j] == sent[i];
                assert(r2[j] == sent[i]);
            } else {
                assert(r2[received.len() as int] == p);
            }
        }
    }
    let s3 = without_key(sent, k);
    let r3 = without_key(received, k);
    assert forall|i: int| 0 <= i < s3.len() && proposal_target_team(#[trigger] s3[i]) == target
        implies r3.contains(s3[i]) by {
        let q = s3[i];
        assert(s3.contains(q));
        lemma_without_key_contains(sent, k, q);
        let j = choose|j: int| 0 <= j < sent.len() && sent[j] == q;
        assert(received.contains(sent[j]));
        lemma_without_key_contains(received, k, q);
    }
}

impl Proposal {
    pub fn key(&self) -> (k: ProposalKey)
        ensures
            k == proposal_key(*self),
    {
        match *self {
            Proposal::Trade { proposer_player_id, target_player_id, .. } => ProposalKey::Trade {
                proposer_player_id,
                target_player_id,
            },
            Proposal::Challenge { proposer_team_id, target_team_id, .. } => ProposalKey::Challenge {
                proposer_team_id,
                target_team_id,
            },
        }
    }

    pub fn target_team_id(&self) -> (t: TeamId)
        ensures
            t == proposal_target_team(*self),
    {
        match *self {
            Proposal::Trade { target_team_id, .. } => target_team_id,
            Proposal::Challenge { target_team_id, .. } => target_team_id,
        }
    }

    pub fn proposer_team_id(&self) -> (t: TeamId)
        ensures
            t == proposal_proposer_team(*self),
    {
        match *self {
            Proposal::Trade { proposer_team_id, .. } => proposer_team_id,
            Proposal::Challenge { proposer_team_id, .. } => proposer_team_id,
        }
    }
}

fn contains_key(s: &Vec<Proposal>, k: ProposalKey) -> (r: bool)
    ensures
        r == has_key(s@, k),
{
    let mut i: usize = 0;
    while i < s.len()
        invariant
            i <= s.len(),
            forall|j: int| 0 <= j < i ==> #[trigger] proposal_key(s@[j]) != k,
        decreases s.len() - i,
    {
        if s[i].key() == k {
            return true;
        }
        i += 1;
    }
    false
}

fn remove_key(s: &Vec<Proposal>, k: ProposalKey) -> (r: Vec<Proposal>)
    ensures
        r@ == without_key(s@, k),
{
    let mut out: Vec<Proposal> = Vec::new();
    let mut i: usize = 0;
    while i < s.len()
        invariant
            i <= s.len(),
            out@ == without_key(s@.take(i as int), k),
        decreases s.len() - i,
    {
        assert(s@.take(i as int + 1).drop_last() =~= s@.take(i as int));
        let p = s[i];
        if p.key() != k {
            out.push(p);
        }
        i += 1;
    }
    assert(s@.take(s.len() as int) =~= s@);
    out
}

/// One team's outstanding proposals of one kind: those it sent, awaiting
/// the other side, and those it received, awaiting its answer.
pub struct NegotiationRegistry {
    pub sent: Vec<Proposal>,
    pub received: Vec<Proposal>,
}

impl NegotiationRegistry {
    pub fn new() -> (r: NegotiationRegistry)
        ensures
            r.sent@.len() == 0,
            r.received@.len() == 0,
    {
        NegotiationRegistry { sent: Vec::new(), received: Vec::new() }
    }

    pub fn has_sent(&self, k: ProposalKey) -> (r: bool)
        ensures
            r == has_key(self.sent@, k),
    {
        contains_key(&self.sent, k)
    }

    pub fn has_received(&self, k: ProposalKey) -> (r: bool)
        ensures
            r == has_key(self.received@, k),
    {
        contains_key(&self.received, k)
    }

    /// Records a proposal sent; refused with `AlreadyProposed` where one of
    /// the same key is outstanding.
    pub fn add_sent(&mut self, p: Proposal) -> (r: Result<(), WorldError>)
        ensures
            match with_proposal(old(self).sent@, p) {
                Ok(s) => r == Ok::<(), WorldError>(()) && final(self).sent@ == s,
                Err(e) => r == Err::<(), WorldError>(e) && final(self).sent@ == old(self).sent@,
            },
            final(self).received@ == old(self).received@,
    {
        if contains_key(&self.sent, p.key()) {
            return Err(WorldError::AlreadyProposed);
        }
        self.sent.push(p);
        Ok(())
    }

    /// Records a proposal received; refused with `AlreadyProposed` where one
    /// of the same key is outstanding.
    pub fn add_received(&mut self, p: Proposal) -> (r: Result<(), WorldError>)
        ensures
            match with_proposal(old(self).received@, p) {
                Ok(s) => r == Ok::<(), WorldError>(()) && final(self).received@ == s,
                Err(e) => r == Err::<(), WorldError>(e)
                    && final(self).received@ == old(self).received@,
            },
            final(self).sent@ == old(self).sent@,
    {
        if contains_key(&self.received, p.key()) {
            return Err(WorldError::AlreadyProposed);
        }
        self.received.push(p);
        Ok(())
    }

    /// Drops the proposals of key `k` from both lists.
    pub fn remove(&mut self, k: ProposalKey)
        ensures
            final(self).sent@ == without_key(old(self).sent@, k),
            final(self).received@ == without_key(old(self).received@, k),
    {
        self.sent = remove_key(&self.sent, k);
        self.received = remove_key(&self.received, k);
    }
}

} // verus!
