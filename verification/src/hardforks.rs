//! Hard forks: the schedule of protocol versions, the votes of the last
//! blocks, and the state that follows the chain and activates forks.

use vstd::prelude::*;

use crate::error::ConsensusError;
use crate::network::Network;

verus! {

/// The number of blocks whose votes count towards a fork: a week of blocks.
pub const DEFAULT_WINDOW_SIZE: u64 = 10080;

/// An identifier for every hard-fork Monero has had.
#[derive(Debug, PartialEq, Eq, PartialOrd, Ord, Copy, Clone, Structural)]
pub enum HardFork {
    V1,
    V2,
    V3,
    V4,
    V5,
    V6,
    V7,
    V8,
    V9,
    V10,
    V11,
    V12,
    V13,
    V14,
    V15,
    V16,
}

/// What a block header says on hard forks: the version it follows and the
/// version it votes for.
#[derive(Debug, Clone, Copy)]
pub struct BlockHFInfo {
    pub version: HardFork,
    pub vote: HardFork,
}

/// The fork that a vote byte stands for: 0 counts as the first fork, a byte
/// above the known forks as the latest one.
pub open spec fn vote_of(byte: u8) -> HardFork {
    if byte == 0 {
        HardFork::V1
    } else if byte <= 16 {
        HardFork::of_number(byte as int)
    } else {
        HardFork::V16
    }
}

impl BlockHFInfo {
    /// Reads the two version bytes of a block header. The major version must
    /// be a known fork; the minor version is a vote and is never refused.
    pub fn from_major_minor(major_version: u8, minor_version: u8) -> (res: Result<
        BlockHFInfo,
        ConsensusError,
    >)
        ensures
            1 <= major_version <= 16 ==> (res matches Ok(info) && info.version
                == HardFork::of_number(major_version as int) && info.vote == vote_of(
                minor_version,
            )),
            !(1 <= major_version <= 16) ==> (res matches Err(
                ConsensusError::InvalidHardForkVersion(msg),
            ) && msg@ == "Version is not a known hard fork"@),
    {
        match HardFork::from_version(&major_version) {
            Ok(version) => Ok(BlockHFInfo { version, vote: HardFork::from_vote(&minor_version) }),
            Err(e) => Err(e),
        }
    }
}

impl HardFork {
    /// The protocol version number of this fork, from 1 to 16.
    pub open spec fn number(self) -> int {
        match self {
            HardFork::V1 => 1,
            HardFork::V2 => 2,
            HardFork::V3 => 3,
            HardFork::V4 => 4,
            HardFork::V5 => 5,
            HardFork::V6 => 6,
            HardFork::V7 => 7,
            HardFork::V8 => 8,
            HardFork::V9 => 9,
            HardFork::V10 => 10,
            HardFork::V11 => 11,
            HardFork::V12 => 12,
            HardFork::V13 => 13,
            HardFork::V14 => 14,
            HardFork::V15 => 15,
            HardFork::V16 => 16,
        }
    }

    /// The fork with version number `n`; the latest fork where `n` is none.
    pub open spec fn of_number(n: int) -> HardFork {
        if n == 1 {
            HardFork::V1
        } else if n == 2 {
            HardFork::V2
        } else if n == 3 {
            HardFork::V3
        } else if n == 4 {
            HardFork::V4
        } else if n == 5 {
            HardFork::V5
        } else if n == 6 {
            HardFork::V6
        } else if n == 7 {
            HardFork::V7
        } else if n == 8 {
            HardFork::V8
        } else if n == 9 {
            HardFork::V9
        } else if n == 10 {
            HardFork::V10
        } else if n == 11 {
            HardFork::V11
        } else if n == 12 {
            HardFork::V12
        } else if n == 13 {
            HardFork::V13
        } else if n == 14 {
            HardFork::V14
        } else if n == 15 {
            HardFork::V15
        } else {
            HardFork::V16
        }
    }

    /// The fork after this one, if there is one.
    pub open spec fn successor(self) -> Option<HardFork> {
        if self == HardFork::V16 {
            None
        } else {
            Some(HardFork::of_number(self.number() + 1))
        }
    }

    /// The height at which this fork activates on mainnet.
    pub open spec fn mainnet_height(self) -> nat {
        match self {
            HardFork::V1 => 0,
            HardFork::V2 => 1009827,
            HardFork::V3 => 1141317,
            HardFork::V4 => 1220516,
            HardFork::V5 => 1288616,
            HardFork::V6 => 1400000,
            HardFork::V7 => 1546000,
            HardFork::V8 => 1685555,
            HardFork::V9 => 1686275,
            HardFork::V10 => 1788000,
            HardFork::V11 => 1788720,
            HardFork::V12 => 1978433,
            HardFork::V13 => 2210000,
            HardFork::V14 => 2210720,
            HardFork::V15 => 2688888,
            HardFork::V16 => 2689608,
        }
    }

    /// The share of the vote window, in percent, that must vote for this
    /// fork. No Monero fork is decided by votes.
    pub open spec fn threshold(self, network: Network) -> nat {
        0
    }

    /// The votes that this fork needs in a window of `window` blocks: its
    /// threshold share of the window, rounded up.
    pub open spec fn needed_votes(self, network: Network, window: u64) -> nat {
        ((self.threshold(network) * window + 99) / 100) as nat
    }

    /// The version number as a byte.
    pub fn version_byte(&self) -> (n: u8)
        ensures
            n == self.number(),
            1 <= n <= 16,
    {
        match self {
            HardFork::V1 => 1,
            HardFork::V2 => 2,
            HardFork::V3 => 3,
            HardFork::V4 => 4,
            HardFork::V5 => 5,
            HardFork::V6 => 6,
            HardFork::V7 => 7,
            HardFork::V8 => 8,
            HardFork::V9 => 9,
            HardFork::V10 => 10,
            HardFork::V11 => 11,
            HardFork::V12 => 12,
            HardFork::V13 => 13,
            HardFork::V14 => 14,
            HardFork::V15 => 15,
            HardFork::V16 => 16,
        }
    }

    /// Returns the hard-fork for a blocks `major_version` field.
    pub fn from_version(version: &u8) -> (res: Result<HardFork, ConsensusError>)
        ensures
            1 <= *version <= 16 ==> res == Ok::<HardFork, ConsensusError>(
                HardFork::of_number(*version as int),
            ),
            !(1 <= *version <= 16) ==> (res matches Err(
                ConsensusError::InvalidHardForkVersion(msg),
            ) && msg@ == "Version is not a known hard fork"@),
    {
        Ok(
            match *version {
                1 => HardFork::V1,
                2 => HardFork::V2,
                3 => HardFork::V3,
                4 => HardFork::V4,
                5 => HardFork::V5,
                6 => HardFork::V6,
                7 => HardFork::V7,
                8 => HardFork::V8,
                9 => HardFork::V9,
                10 => HardFork::V10,
                11 => HardFork::V11,
                12 => HardFork::V12,
                13 => HardFork::V13,
                14 => HardFork::V14,
                15 => HardFork::V15,
                16 => HardFork::V16,
                _ => {
                    return Err(
                        ConsensusError::InvalidHardForkVersion("Version is not a known hard fork"),
                    )
                },
            },
        )
    }

    /// Returns the hard-fork for a blocks `minor_version` (vote) field.
    pub fn from_vote(vote: &u8) -> (hf: HardFork)
        ensures
            hf == vote_of(*vote),
    {
        if *vote == 0 {
            // A vote of 0 is interpreted as 1 as that's what Monero used to default to.
            return HardFork::V1;
        }
        // This must default to the latest hard-fork!
        match Self::from_version(vote) {
            Ok(hf) => hf,
            Err(_) => HardFork::V16,
        }
    }

    /// Returns the next hard-fork.
    pub fn next_fork(&self) -> (next: Option<HardFork>)
        ensures
            next == self.successor(),
    {
        HardFork::from_version(&(self.version_byte() + 1)).ok()
    }

    /// Returns the threshold of this fork.
    pub fn fork_threshold(&self, network: &Network) -> (pct: u64)
        ensures
            pct == self.threshold(*network),
            pct <= 100,
    {
        // No Monero hard forks actually use voting
        0
    }

    /// Returns the votes needed for this fork.
    pub fn votes_needed(&self, network: &Network, window: u64) -> (votes: u64)
        ensures
            votes == self.needed_votes(*network, window),
    {
        (self.fork_threshold(network) * window + 99) / 100
    }

    /// Returns the minimum height this fork will activate at. Only mainnet
    /// has a schedule.
    pub fn fork_height(&self, network: &Network) -> (height: u64)
        requires
            *network == Network::Mainnet,
        ensures
            height == self.mainnet_height(),
    {
        self.mainnet_fork_height()
    }

    fn mainnet_fork_height(&self) -> (height: u64)
        ensures
            height == self.mainnet_height(),
    {
        match self {
            HardFork::V1 => 0,  // Monero core has this as 1, which is strange
            HardFork::V2 => 1009827,
            HardFork::V3 => 1141317,
            HardFork::V4 => 1220516,
            HardFork::V5 => 1288616,
            HardFork::V6 => 1400000,
            HardFork::V7 => 1546000,
            HardFork::V8 => 1685555,
            HardFork::V9 => 1686275,
            HardFork::V10 => 1788000,
            HardFork::V11 => 1788720,
            HardFork::V12 => 1978433,
            HardFork::V13 => 2210000,
            HardFork::V14 => 2210720,
            HardFork::V15 => 2688888,
            HardFork::V16 => 2689608,
        }
    }

    /// The latest fork that is active at `height`: the greatest one whose
    /// activation height is at most `height`. Only mainnet has a schedule.
    pub fn version_at_or_below(height: u64, network: &Network) -> (hf: HardFork)
        requires
            *network == Network::Mainnet,
        ensures
            hf == scheduled(height as int),
            hf.mainnet_height() <= height,
            forall|other: HardFork|
                other.mainnet_height() <= height ==> other.number() <= hf.number(),
    {
        let mut hf = HardFork::V1;
        loop
            invariant
                *network == Network::Mainnet,
                hf.mainnet_height() <= height,
            ensures
                hf == scheduled(height as int),
            decreases 16 - hf.number(),
        {
            match hf.next_fork() {
                Some(next) => {
                    if next.fork_height(network) <= height {
                        hf = next;
                    } else {
                        break ;
                    }
                },
                None => {
                    break ;
                },
            }
        }
        hf
    }

    /// Returns if the hard-fork is in range:
    ///
    /// start <= hf < end
    pub fn in_range(&self, start: &HardFork, end: &HardFork) -> (within: bool)
        ensures
            within == (start.number() <= self.number() < end.number()),
    {
        let n = self.version_byte();
        start.version_byte() <= n && n < end.version_byte()
    }
}

/// The latest fork whose mainnet height is at most `height`.
pub open spec fn scheduled(height: int) -> HardFork {
    if height >= 2689608 {
        HardFork::V16
    } else if height >= 2688888 {
        HardFork::V15
    } else if height >= 2210720 {
        HardFork::V14
    } else if height >= 2210000 {
        HardFork::V13
    } else if height >= 1978433 {
        HardFork::V12
    } else if height >= 1788720 {
        HardFork::V11
    } else if height >= 1788000 {
        HardFork::V10
    } else if height >= 1686275 {
        HardFork::V9
    } else if height >= 1685555 {
        HardFork::V8
    } else if height >= 1546000 {
        HardFork::V7
    } else if height >= 1400000 {
        HardFork::V6
    } else if height >= 1288616 {
        HardFork::V5
    } else if height >= 1220516 {
        HardFork::V4
    } else if height >= 1141317 {
        HardFork::V3
    } else if height >= 1009827 {
        HardFork::V2
    } else {
        HardFork::V1
    }
}

/// `scheduled(height)` is active at `height`, and no later fork is.
pub proof fn lemma_scheduled(height: int, hf: HardFork)
    requires
        0 <= height,
    ensures
        scheduled(height).mainnet_height() <= height,
        hf.mainnet_height() <= height <==> hf.number() <= scheduled(height).number(),
{
}

/// The later of two forks.
pub open spec fn later(a: HardFork, b: HardFork) -> HardFork {
    if a.number() >= b.number() {
        a
    } else {
        b
    }
}

/// The votes counted from position `from` of `counts` on: the votes for the
/// fork at that position and for every later fork.
pub open spec fn votes_from(counts: Seq<nat>, from: int) -> nat
    decreases counts.len() - from,
{
    if 0 <= from < counts.len() {
        counts[from] + votes_from(counts, from + 1)
    } else {
        0
    }
}

/// All the votes in `counts`.
pub open spec fn total_of(counts: Seq<nat>) -> nat {
    votes_from(counts, 0)
}

/// The votes in `counts` that count for `hf`: a vote for a later fork is a
/// vote for every fork before it.
pub open spec fn votes_for(counts: Seq<nat>, hf: HardFork) -> nat {
    votes_from(counts, hf.number() - 1)
}

/// The counts of an empty window: one zero for each fork.
pub open spec fn no_votes() -> Seq<nat> {
    Seq::new(16, |i: int| 0nat)
}

/// `counts` with `votes` more votes for `hf`.
pub open spec fn with_votes(counts: Seq<nat>, hf: HardFork, votes: nat) -> Seq<nat> {
    counts.update(hf.number() - 1, counts[hf.number() - 1] + votes)
}

/// `counts` with one vote for `hf` less.
pub open spec fn without_vote(counts: Seq<nat>, hf: HardFork) -> Seq<nat> {
    counts.update(hf.number() - 1, (counts[hf.number() - 1] - 1) as nat)
}

/// The counts of the votes in `votes`.
pub open spec fn tally(votes: Seq<HardFork>) -> Seq<nat>
    decreases votes.len(),
{
    if votes.len() == 0 {
        no_votes()
    } else {
        with_votes(tally(votes.drop_last()), votes.last(), 1)
    }
}

/// The votes of the blocks in `infos`, in the same order.
pub open spec fn votes_of(infos: Seq<BlockHFInfo>) -> Seq<HardFork> {
    infos.map_values(|info: BlockHFInfo| info.vote)
}

/// Changing one count changes the sums that reach it by as much.
pub proof fn lemma_votes_from_update(counts: Seq<nat>, at: int, count: nat, from: int)
    requires
        0 <= at < counts.len(),
        0 <= from,
    ensures
        votes_from(counts.update(at, count), from) == votes_from(counts, from) + (if from <= at {
            count - counts[at]
        } else {
            0
        }),
    decreases counts.len() - from,
{
    if from < counts.len() {
        lemma_votes_from_update(counts, at, count, from + 1);
    }
}

/// The votes for a fork fall as the fork rises, and the votes for the first
/// fork are all the votes.
pub proof fn lemma_votes_rollup(counts: Seq<nat>, lower: HardFork, higher: HardFork)
    requires
        lower.number() <= higher.number(),
    ensures
        votes_for(counts, higher) <= votes_for(counts, lower),
        votes_for(counts, HardFork::V1) == total_of(counts),
{
    lemma_votes_from_falls(counts, lower.number() - 1, higher.number() - 1);
}

/// A sum from a later position is no more than one from an earlier
/// position.
pub proof fn lemma_votes_from_falls(counts: Seq<nat>, from: int, later: int)
    requires
        0 <= from <= later,
    ensures
        votes_from(counts, later) <= votes_from(counts, from),
    decreases later - from,
{
    if from < later {
        lemma_votes_from_falls(counts, from + 1, later);
    }
}

/// A tally has a count for each fork, and as many votes as were cast.
pub proof fn lemma_tally(votes: Seq<HardFork>)
    ensures
        tally(votes).len() == 16,
        total_of(tally(votes)) == votes.len(),
    decreases votes.len(),
{
    if votes.len() == 0 {
        reveal_with_fuel(votes_from, 17);
    } else {
        lemma_tally(votes.drop_last());
        let before = tally(votes.drop_last());
        let at = votes.last().number() - 1;
        lemma_votes_from_update(before, at, before[at] + 1, 0);
    }
}

/// Every vote that was cast is counted.
pub proof fn lemma_tally_counts(votes: Seq<HardFork>, i: int)
    requires
        0 <= i < votes.len(),
    ensures
        tally(votes)[votes[i].number() - 1] > 0,
    decreases votes.len(),
{
    lemma_tally(votes.drop_last());
    if i < votes.len() - 1 {
        lemma_tally_counts(votes.drop_last(), i);
    }
}

/// A tally does not depend on the order of the votes: the first vote can be
/// counted last.
pub proof fn lemma_tally_first(votes: Seq<HardFork>)
    requires
        votes.len() > 0,
    ensures
        tally(votes) == with_votes(tally(votes.drop_first()), votes.first(), 1),
    decreases votes.len(),
{
    lemma_tally(votes.drop_first());
    if votes.len() == 1 {
        assert(votes.drop_last() == votes.drop_first());
    } else {
        lemma_tally_first(votes.drop_last());
        lemma_tally(votes.drop_last().drop_first());
        assert(votes.drop_last().drop_first() == votes.drop_first().drop_last());
        assert(votes.drop_last().first() == votes.first());
        assert(votes.drop_first().last() == votes.last());
        let inner = tally(votes.drop_last().drop_first());
        assert(with_votes(with_votes(inner, votes.first(), 1), votes.last(), 1) == with_votes(
            with_votes(inner, votes.last(), 1),
            votes.first(),
            1,
        ));
    }
}

/// A struct holding the current voting state of the blockchain.
#[derive(Debug, Clone)]
pub struct HFVotes {
    votes: [u64; 16],
}

impl View for HFVotes {
    type V = Seq<nat>;

    /// The number of votes for each fork, in the order of the forks.
    closed spec fn view(&self) -> Seq<nat> {
        Seq::new(16, |i: int| self.votes@[i] as nat)
    }
}

impl Default for HFVotes {
    fn default() -> (votes: HFVotes)
        ensures
            votes@ == no_votes(),
            votes.wf(),
    {
        let votes = HFVotes { votes: [0;16] };
        proof {
            assert(votes@ == no_votes());
            reveal_with_fuel(votes_from, 17);
        }
        votes
    }
}

impl HFVotes {
    /// There is a count for each fork, and the counts together fit a `u64`.
    pub open spec fn wf(&self) -> bool {
        &&& self@.len() == 16
        &&& total_of(self@) <= u64::MAX
    }

    /// Add votes for a hard-fork
    pub fn add_votes_for_hf(&mut self, hf: &HardFork, votes: u64)
        requires
            old(self).wf(),
            total_of(old(self)@) + votes <= u64::MAX,
        ensures
            final(self)@ == with_votes(old(self)@, *hf, votes as nat),
            total_of(final(self)@) == total_of(old(self)@) + votes,
            final(self).wf(),
    {
        let i: usize = (hf.version_byte() - 1) as usize;
        proof {
            lemma_votes_from_falls(self@, 0, i as int);
            lemma_votes_from_update(self@, i as int, self@[i as int] + votes as nat, 0);
        }
        let count: u64 = self.votes[i];
        self.votes[i] = count + votes;
        assert(self@ == with_votes(old(self)@, *hf, votes as nat));
    }

    /// Add a vote for a hard-fork.
    pub fn add_vote_for_hf(&mut self, hf: &HardFork)
        requires
            old(self).wf(),
            total_of(old(self)@) < u64::MAX,
        ensures
            final(self)@ == with_votes(old(self)@, *hf, 1),
            total_of(final(self)@) == total_of(old(self)@) + 1,
            final(self).wf(),
    {
        self.add_votes_for_hf(hf, 1)
    }

    /// Remove a vote for a hard-fork, which must have one.
    pub fn remove_vote_for_hf(&mut self, hf: &HardFork)
        requires
            old(self).wf(),
            old(self)@[hf.number() - 1] > 0,
        ensures
            final(self)@ == without_vote(old(self)@, *hf),
            total_of(final(self)@) == total_of(old(self)@) - 1,
            final(self).wf(),
    {
        let i: usize = (hf.version_byte() - 1) as usize;
        proof {
            lemma_votes_from_update(self@, i as int, (self@[i as int] - 1) as nat, 0);
        }
        let count: u64 = self.votes[i];
        self.votes[i] = count - 1;
        assert(self@ == without_vote(old(self)@, *hf));
    }

    /// Returns the total votes for a hard-fork: the votes for it and for
    /// every later fork.
    pub fn votes_for_hf(&self, hf: &HardFork) -> (votes: u64)
        requires
            self.wf(),
        ensures
            votes == votes_for(self@, *hf),
    {
        let start: usize = (hf.version_byte() - 1) as usize;
        let mut i: usize = start;
        let mut sum: u64 = 0;
        proof {
            lemma_votes_from_falls(self@, 0, start as int);
        }
        while i < 16
            invariant
                start <= i <= 16,
                self@.len() == 16,
                sum + votes_from(self@, i as int) == votes_from(self@, start as int),
                votes_from(self@, start as int) <= u64::MAX,
            decreases 16 - i,
        {
            sum = sum + self.votes[i];
            i = i + 1;
        }
        sum
    }

    /// Whether the window holds a vote for `hf` itself.
    pub fn has_vote_for(&self, hf: &HardFork) -> (held: bool)
        ensures
            held == (self@[hf.number() - 1] > 0),
    {
        self.votes[(hf.version_byte() - 1) as usize] > 0
    }

    /// Returns the total amount of votes being tracked
    pub fn total_votes(&self) -> (votes: u64)
        requires
            self.wf(),
        ensures
            votes == total_of(self@),
    {
        self.votes_for_hf(&HardFork::V1)
    }
}

/// Counts the votes of the blocks in `vote_list`.
pub fn get_votes_in_range(vote_list: &Vec<BlockHFInfo>) -> (votes: HFVotes)
    ensures
        votes@ == tally(votes_of(vote_list@)),
        total_of(votes@) == vote_list@.len(),
        votes.wf(),
{
    let mut votes = HFVotes::default();
    let mut i: usize = 0;
    proof {
        assert(votes_of(vote_list@.take(0)) == Seq::<HardFork>::empty());
        lemma_tally(Seq::<HardFork>::empty());
    }
    while i < vote_list.len()
        invariant
            i <= vote_list.len(),
            votes@ == tally(votes_of(vote_list@.take(i as int))),
            total_of(votes@) == i,
            votes.wf(),
        decreases vote_list.len() - i,
    {
        proof {
            assert(votes_of(vote_list@.take(i + 1)).drop_last() == votes_of(
                vote_list@.take(i as int),
            ));
        }
        votes.add_vote_for_hf(&vote_list[i].vote);
        i = i + 1;
    }
    proof {
        assert(vote_list@.take(i as int) == vote_list@);
    }
    votes
}

/// Configuration for hard-forks.
#[derive(Debug, Clone, Copy)]
pub struct HardForkConfig {
    /// The network we are on.
    pub network: Network,
    /// The amount of votes we are taking into account to decide on a fork activation.
    pub window: u64,
}

impl HardForkConfig {
    pub fn main_net() -> (config: HardForkConfig)
        ensures
            config.network == Network::Mainnet,
            config.window == DEFAULT_WINDOW_SIZE,
    {
        Self { network: Network::Mainnet, window: DEFAULT_WINDOW_SIZE }
    }
}

/// What a [`HardForkState`] holds.
pub struct HardForkStatus {
    /// The fork in force.
    pub current_hardfork: HardFork,
    /// The fork that may come next, if there is one.
    pub next_hardfork: Option<HardFork>,
    /// The network whose schedule is followed.
    pub network: Network,
    /// The number of blocks whose votes count.
    pub window: u64,
    /// The votes of the blocks in the window, counted by fork.
    pub votes: Seq<nat>,
    /// The height of the last block accounted for, or -1 before the first.
    pub last_height: int,
}

impl HardForkStatus {
    /// The next fork is due: the chain has reached its height, and the
    /// window holds the votes it needs.
    pub open spec fn fires(self) -> bool {
        self.next_hardfork matches Some(hf) && self.last_height + 1 >= hf.mainnet_height()
            && votes_for(self.votes, hf) >= hf.needed_votes(self.network, self.window)
    }

    /// This state with `hf` in force.
    pub open spec fn set_hf(self, hf: HardFork) -> HardForkStatus {
        HardForkStatus { current_hardfork: hf, next_hardfork: hf.successor(), ..self }
    }

    /// How many forks may still come.
    pub open spec fn forks_left(self) -> nat {
        match self.next_hardfork {
            Some(hf) => (17 - hf.number()) as nat,
            None => 0,
        }
    }

    /// This state after every fork that is due was put in force, one after
    /// the other.
    pub open spec fn activate(self) -> HardForkStatus
        decreases self.forks_left(),
    {
        if self.fires() {
            self.set_hf(self.next_hardfork.unwrap()).activate()
        } else {
            self
        }
    }

    /// The parts of the state agree: the network has a schedule unless no
    /// fork can come, the next fork follows the current one, and the window
    /// holds one vote for each of the last blocks, up to its size.
    pub open spec fn inv(self) -> bool {
        &&& self.network == Network::Mainnet || self.next_hardfork is None
        &&& self.next_hardfork == self.current_hardfork.successor()
        &&& self.votes.len() == 16
        &&& -1 <= self.last_height < u64::MAX
        &&& total_of(self.votes) == vstd::math::min(self.last_height + 1, self.window as int)
    }

    /// The state is sound and settled: no fork is due.
    pub open spec fn wf(self) -> bool {
        self.inv() && !self.fires()
    }

    /// The state of a chain of `chain_height` blocks: `votes` are the votes
    /// of the blocks in the window, `top` is the version of the last block.
    pub open spec fn init(
        config: HardForkConfig,
        chain_height: int,
        votes: Seq<HardFork>,
        top: Option<HardFork>,
    ) -> HardForkStatus {
        let current_hardfork = match top {
            Some(hf) => hf,
            None => HardFork::V1,
        };
        HardForkStatus {
            current_hardfork,
            next_hardfork: current_hardfork.successor(),
            network: config.network,
            window: config.window,
            votes: tally(votes),
            last_height: chain_height - 1,
        }.activate()
    }

    /// The state after one more block that votes `vote`, while the vote
    /// `leaving`, if there is one, leaves the window.
    pub open spec fn new_block(self, vote: HardFork, leaving: Option<HardFork>) -> HardForkStatus {
        let added = with_votes(self.votes, vote, 1);
        HardForkStatus {
            votes: match leaving {
                Some(hf) => without_vote(added, hf),
                None => added,
            },
            last_height: self.last_height + 1,
            ..self
        }.activate()
    }
}

/// Activation changes the two forks of a state and nothing else; where the
/// next fork follows the current one, it stops at the later of the current
/// fork and the scheduled one, and then no fork is due.
pub proof fn lemma_activate(s: HardForkStatus)
    requires
        s.next_hardfork == s.current_hardfork.successor(),
        -1 <= s.last_height,
    ensures
        s.activate() == s.set_hf(later(s.current_hardfork, scheduled(s.last_height + 1))),
        !s.activate().fires(),
    decreases s.forks_left(),
{
    if s.fires() {
        lemma_activate(s.set_hf(s.next_hardfork.unwrap()));
    }
}

/// In a sound and settled state the fork in force is the scheduled one or a
/// later one.
pub proof fn lemma_settled(s: HardForkStatus)
    requires
        s.wf(),
    ensures
        s.activate() == s,
        s.current_hardfork.number() >= scheduled(s.last_height + 1).number(),
{
    lemma_activate(s);
}

/// Activation is a fixed point: once done, doing it again changes nothing.
pub proof fn lemma_activate_twice(s: HardForkStatus)
    ensures
        s.activate().activate() == s.activate(),
    decreases s.forks_left(),
{
    if s.fires() {
        lemma_activate_twice(s.set_hf(s.next_hardfork.unwrap()));
    }
}

/// A struct that keeps track of the current hard-fork and current votes.
#[derive(Debug, Clone)]
pub struct HardForkState {
    current_hardfork: HardFork,
    next_hardfork: Option<HardFork>,
    config: HardForkConfig,
    votes: HFVotes,
    /// The number of blocks accounted for: one more than the last height.
    chain_height: u64,
}

impl View for HardForkState {
    type V = HardForkStatus;

    closed spec fn view(&self) -> HardForkStatus {
        HardForkStatus {
            current_hardfork: self.current_hardfork,
            next_hardfork: self.next_hardfork,
            network: self.config.network,
            window: self.config.window,
            votes: self.votes@,
            last_height: self.chain_height - 1,
        }
    }
}

impl HardForkState {
    /// The state is sound and settled: see [`HardForkStatus::wf`].
    pub open spec fn wf(&self) -> bool {
        self@.wf()
    }

    /// The first height of the vote window of a chain of `chain_height`
    /// blocks. The window ends before `chain_height`.
    pub fn vote_window_start(config: &HardForkConfig, chain_height: u64) -> (start: u64)
        ensures
            start == vstd::math::max(0, chain_height - config.window),
    {
        chain_height.saturating_sub(config.window)
    }

    /// Builds the state of a chain of `chain_height` blocks from the
    /// hard-fork information of the blocks in the vote window, oldest first,
    /// and of the last block, where the chain has one. Only mainnet has a
    /// schedule: on another network the chain must be at the last fork.
    pub fn init_from_chain_height(
        config: HardForkConfig,
        chain_height: u64,
        vote_list: Vec<BlockHFInfo>,
        top_block: Option<BlockHFInfo>,
    ) -> (state: HardForkState)
        requires
            config.network == Network::Mainnet || (top_block matches Some(info) && info.version
                == HardFork::V16),
            vote_list@.len() == vstd::math::min(chain_height as int, config.window as int),
            top_block is Some <==> chain_height > 0,
        ensures
            state@ == HardForkStatus::init(
                config,
                chain_height as int,
                votes_of(vote_list@),
                match top_block {
                    Some(info) => Some(info.version),
                    None => None,
                },
            ),
            state.wf(),
    {
        let votes = get_votes_in_range(&vote_list);
        let current_hardfork = match top_block {
            Some(info) => info.version,
            None => HardFork::V1,
        };
        let next_hardfork = current_hardfork.next_fork();
        let mut hfs = HardForkState {
            config,
            current_hardfork,
            next_hardfork,
            votes,
            chain_height,
        };
        proof {
            lemma_tally(votes_of(vote_list@));
        }
        hfs.check_set_new_hf();
        hfs
    }

    /// Whether a block with this hard-fork information can follow: it must
    /// have the version in force and vote for it or for a later one.
    pub fn check_block_version_vote(&self, block_hf_info: &BlockHFInfo) -> (valid: bool)
        ensures
            valid == (self@.current_hardfork == block_hf_info.version
                && block_hf_info.vote.number() >= self@.current_hardfork.number()),
    {
        self.current_hardfork == block_hf_info.version && block_hf_info.vote.version_byte()
            >= self.current_hardfork.version_byte()
    }

    /// The height of the block whose vote leaves the window when the block
    /// at `height` enters it, if one does.
    pub fn height_leaving_window(&self, height: u64) -> (leaving: Option<u64>)
        requires
            self.wf(),
            height == self@.last_height + 1,
        ensures
            height < self@.window ==> leaving is None,
            height >= self@.window ==> leaving == Some((height - self@.window) as u64),
    {
        if self.votes.total_votes() >= self.config.window {
            Some(height - self.config.window)
        } else {
            None
        }
    }

    /// Accounts for a new block at `height`, which must be the next height,
    /// and for the block in `leaving` that leaves the vote window, at the
    /// height that [`Self::height_leaving_window`] gives.
    pub fn new_block(&mut self, vote: HardFork, height: u64, leaving: Option<BlockHFInfo>)
        requires
            old(self).wf(),
            height == old(self)@.last_height + 1,
            height < u64::MAX,
            leaving is Some <==> height >= old(self)@.window,
            leaving matches Some(info) ==> with_votes(old(self)@.votes, vote, 1)[info.vote.number()
                - 1] > 0,
        ensures
            final(self)@ == old(self)@.new_block(
                vote,
                match leaving {
                    Some(info) => Some(info.vote),
                    None => None,
                },
            ),
            final(self).wf(),
            final(self)@.last_height == height,
    {
        self.chain_height = self.chain_height + 1;
        self.votes.add_vote_for_hf(&vote);
        if let Some(info) = leaving {
            self.votes.remove_vote_for_hf(&info.vote);
        }
        proof {
            lemma_activate(self@);
        }
        self.check_set_new_hf();
    }

    /// Checks if the next hard-fork should be activated and activates it if it should.
    pub fn check_set_new_hf(&mut self)
        requires
            old(self)@.inv(),
        ensures
            final(self)@ == old(self)@.activate(),
            final(self).wf(),
            old(self).wf() ==> final(self)@ == old(self)@,
    {
        loop
            invariant
                self@.inv(),
                self@.activate() == old(self)@.activate(),
            ensures
                self@.wf(),
                self@ == old(self)@.activate(),
            decreases self@.forks_left(),
        {
            match self.next_hardfork {
                Some(new_hf) => {
                    if self.chain_height >= new_hf.fork_height(&self.config.network)
                        && self.votes.votes_for_hf(&new_hf) >= new_hf.votes_needed(
                        &self.config.network,
                        self.config.window,
                    ) {
                        self.set_hf(new_hf);
                    } else {
                        break ;
                    }
                },
                None => {
                    break ;
                },
            }
        }
    }

    /// Sets a new hard-fork.
    fn set_hf(&mut self, new_hf: HardFork)
        ensures
            final(self)@ == old(self)@.set_hf(new_hf),
    {
        self.next_hardfork = new_hf.next_fork();
        self.current_hardfork = new_hf;
    }

    /// The fork in force.
    pub fn current_hardfork(&self) -> (hf: HardFork)
        ensures
            hf == self@.current_hardfork,
    {
        self.current_hardfork
    }

    /// The fork that may come next, if there is one.
    pub fn next_hardfork(&self) -> (hf: Option<HardFork>)
        ensures
            hf == self@.next_hardfork,
    {
        self.next_hardfork
    }

    /// The number of blocks accounted for: the height of the next block.
    pub fn chain_height(&self) -> (height: u64)
        ensures
            height == self@.last_height + 1,
    {
        self.chain_height
    }

    /// The votes of the blocks in the window.
    pub fn votes(&self) -> (votes: &HFVotes)
        ensures
            votes@ == self@.votes,
            self.wf() ==> votes.wf(),
    {
        &self.votes
    }
}

/// The votes of the blocks that are in a vote window of `window` blocks when
/// `chain` has grown to `height` blocks.
pub open spec fn votes_at(chain: Seq<BlockHFInfo>, height: int, window: u64) -> Seq<HardFork> {
    votes_of(chain.subrange(vstd::math::max(0, height - window), height))
}

/// The version of the last of the first `height` blocks of `chain`.
pub open spec fn top_at(chain: Seq<BlockHFInfo>, height: int) -> Option<HardFork> {
    if height > 0 {
        Some(chain[height - 1].version)
    } else {
        None
    }
}

/// The vote that leaves a vote window of `window` blocks when the block at
/// `height` of `chain` enters it.
pub open spec fn leaving_at(chain: Seq<BlockHFInfo>, height: int, window: u64) -> Option<HardFork> {
    if height >= window {
        Some(chain[height - window].vote)
    } else {
        None
    }
}

/// The state after the first `height` blocks of `chain` were accounted for,
/// one by one, from the state of an empty chain.
pub open spec fn replay(
    config: HardForkConfig,
    chain: Seq<BlockHFInfo>,
    height: nat,
) -> HardForkStatus
    decreases height,
{
    if height == 0 {
        HardForkStatus::init(config, 0, Seq::empty(), None)
    } else {
        let h = height - 1;
        replay(config, chain, h as nat).new_block(
            chain[h].vote,
            leaving_at(chain, h, config.window),
        )
    }
}

/// When the votes of a window move on by one block, so does their tally.
pub proof fn lemma_votes_move(chain: Seq<BlockHFInfo>, height: nat, window: u64)
    requires
        height < chain.len(),
    ensures
        tally(votes_at(chain, height as int + 1, window)) == ({
            let added = with_votes(
                tally(votes_at(chain, height as int, window)),
                chain[height as int].vote,
                1,
            );
            match leaving_at(chain, height as int, window) {
                Some(hf) => without_vote(added, hf),
                None => added,
            }
        }),
{
    let before = votes_at(chain, height as int, window);
    let after = votes_at(chain, height as int + 1, window);
    let entered = before.push(chain[height as int].vote);
    assert(entered.drop_last() == before);
    lemma_tally(before);
    if height >= window {
        assert(after == entered.drop_first());
        lemma_tally_first(entered);
        lemma_tally(after);
        assert(entered.first() == chain[height - window].vote);
        assert(tally(after) == without_vote(tally(entered), entered.first()));
    } else {
        assert(after == entered);
    }
}

/// A state that followed the chain block by block is at the scheduled fork,
/// and holds the votes of the blocks in its window.
pub proof fn lemma_replay(config: HardForkConfig, chain: Seq<BlockHFInfo>, height: nat)
    requires
        height <= chain.len(),
    ensures
        replay(config, chain, height) == (HardForkStatus {
            current_hardfork: scheduled(height as int),
            next_hardfork: scheduled(height as int).successor(),
            network: config.network,
            window: config.window,
            votes: tally(votes_at(chain, height as int, config.window)),
            last_height: height - 1,
        }),
        !replay(config, chain, height).fires(),
    decreases height,
{
    if height == 0 {
        let start = HardForkStatus {
            current_hardfork: HardFork::V1,
            next_hardfork: HardFork::V1.successor(),
            network: config.network,
            window: config.window,
            votes: tally(Seq::empty()),
            last_height: -1,
        };
        lemma_activate(start);
        assert(votes_at(chain, 0, config.window) == Seq::<HardFork>::empty());
    } else {
        let h = (height - 1) as nat;
        lemma_replay(config, chain, h);
        lemma_votes_move(chain, h, config.window);
        let before = replay(config, chain, h);
        let added = with_votes(before.votes, chain[h as int].vote, 1);
        let moved = HardForkStatus {
            votes: match leaving_at(chain, h as int, config.window) {
                Some(hf) => without_vote(added, hf),
                None => added,
            },
            last_height: before.last_height + 1,
            ..before
        };
        lemma_activate(moved);
    }
}

/// A state that followed the chain can follow it further: it is sound, and
/// it counts the vote that leaves its window with the next block.
pub proof fn lemma_replay_goes_on(config: HardForkConfig, chain: Seq<BlockHFInfo>, height: nat)
    requires
        height < chain.len(),
        height < u64::MAX,
        config.network == Network::Mainnet,
    ensures
        replay(config, chain, height).wf(),
        leaving_at(chain, height as int, config.window) matches Some(hf) ==> with_votes(
            replay(config, chain, height).votes,
            chain[height as int].vote,
            1,
        )[hf.number() - 1] > 0,
{
    lemma_replay(config, chain, height);
    let votes = votes_at(chain, height as int, config.window);
    lemma_tally(votes);
    if height >= config.window && config.window > 0 {
        lemma_tally_counts(votes, 0);
    }
}

/// Building the state anew at a height gives the state that accounting for
/// every block up to that height, from the state of an empty chain, gives;
/// as long as the last block is not of a fork ahead of the schedule.
pub proof fn lemma_rebuild_equivalence(config: HardForkConfig, chain: Seq<BlockHFInfo>, height: nat)
    requires
        height <= chain.len(),
        height > 0 ==> chain[height - 1].version.number() <= scheduled(height as int).number(),
    ensures
        HardForkStatus::init(
            config,
            height as int,
            votes_at(chain, height as int, config.window),
            top_at(chain, height as int),
        ) == replay(config, chain, height),
{
    lemma_replay(config, chain, height);
    let current_hardfork = match top_at(chain, height as int) {
        Some(hf) => hf,
        None => HardFork::V1,
    };
    let start = HardForkStatus {
        current_hardfork,
        next_hardfork: current_hardfork.successor(),
        network: config.network,
        window: config.window,
        votes: tally(votes_at(chain, height as int, config.window)),
        last_height: height - 1,
    };
    lemma_activate(start);
}

} // verus!
