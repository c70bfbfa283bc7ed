//! Fork-choice rules: deciding which of several candidate chains is best.
//!
//! A chain is a borrowed slice of headers, oldest first. Chains handed to a
//! rule are assumed valid; they need not share a genesis, and only their own
//! content is compared. Each rule is a stateless strategy implementing
//! [`ForkChoice`]: a pairwise verdict `first_chain_is_better`, from which the
//! reduction `best_chain` over any non-empty candidate list is derived.

use vstd::prelude::*;

use crate::hashing::hash_words;
use crate::hashing::words_digest;
use crate::header::Block;
use crate::header::Header;
use crate::header::child_header;
use crate::header::genesis_header;
use crate::header::hash_header;
use crate::header::header_digest;
use crate::header::linked;

verus! {

/// Work threshold of the heaviest-chain rule: a header whose digest is above
/// it contributes no work. Independent of any threshold handed to the
/// difficulty search.
pub const THRESHOLD: u64 = u64::MAX / 100;

/// The contents of each chain in a list of chain references.
pub open spec fn chain_views(chains: Seq<&[Header]>) -> Seq<Seq<Header>> {
    chains.map_values(|c: &[Header]| c@)
}

/// Index of the running winner after a left-to-right reduction by the
/// pairwise verdict `better` has looked at `chains[0 ..= i]`: the winner
/// starts as chain `0`, and each later chain replaces it exactly when
/// `better` prefers the newcomer over the running winner.
pub open spec fn winner_index(
    better: spec_fn(Seq<Header>, Seq<Header>) -> bool,
    chains: Seq<Seq<Header>>,
    i: int,
) -> int
    decreases i,
{
    if i <= 0 {
        0
    } else {
        let prev = winner_index(better, chains, i - 1);
        if better(chains[i], chains[prev]) {
            i
        } else {
            prev
        }
    }
}

/// The running winner is always one of the chains looked at so far.
pub proof fn lemma_winner_index_in_range(
    better: spec_fn(Seq<Header>, Seq<Header>) -> bool,
    chains: Seq<Seq<Header>>,
    i: int,
)
    requires
        0 <= i,
    ensures
        0 <= winner_index(better, chains, i) <= i,
    decreases i,
{
    if i > 0 {
        lemma_winner_index_in_range(better, chains, i - 1);
    }
}

/// Judge which chain is "best" when there are multiple candidates. There are
/// several meaningful notions of "best", which is why this is a trait rather
/// than a single function.
pub trait ForkChoice: Sized {
    /// What "the first chain is at least as good as the second" means under
    /// this rule.
    spec fn better(chain_1: Seq<Header>, chain_2: Seq<Header>) -> bool;

    /// Compare two chains: true iff the first chain is to be preferred over,
    /// or considered as acceptable as, the second.
    ///
    /// The chains are not assumed to start from the same genesis block, or
    /// even a genesis block at all; entirely disjoint histories, or only the
    /// divergent parts of sibling chains, can be compared. The chains are
    /// assumed valid; it is up to the caller to check validity first.
    fn first_chain_is_better(chain_1: &[Header], chain_2: &[Header]) -> (r: bool)
        ensures
            r == Self::better(chain_1@, chain_2@),
    ;

    /// Compare many chains and return the best one: the running winner of a
    /// strict left-to-right reduction by `first_chain_is_better`, where a
    /// later candidate replaces the winner exactly when the rule prefers it.
    ///
    /// The candidate list must be non-empty: there is no meaningful winner
    /// among zero chains.
    fn best_chain<'a>(candidate_chains: &[&'a [Header]]) -> (best: &'a [Header])
        requires
            candidate_chains@.len() >= 1,
        ensures
            ({
                let w = winner_index(
                    |c1: Seq<Header>, c2: Seq<Header>| Self::better(c1, c2),
                    chain_views(candidate_chains@),
                    candidate_chains@.len() - 1,
                );
                0 <= w < candidate_chains@.len() && best == candidate_chains@[w]
            }),
    {
        let ghost verdict = (|c1: Seq<Header>, c2: Seq<Header>| Self::better(c1, c2));
        let ghost views = chain_views(candidate_chains@);
        let mut best: &'a [Header] = candidate_chains[0];
        let mut i: usize = 1;
        while i < candidate_chains.len()
            invariant
                1 <= i <= candidate_chains@.len(),
                verdict == (|c1: Seq<Header>, c2: Seq<Header>| Self::better(c1, c2)),
                views == chain_views(candidate_chains@),
                0 <= winner_index(verdict, views, i - 1) < i,
                best == candidate_chains@[winner_index(verdict, views, i - 1)],
            decreases candidate_chains@.len() - i,
        {
            proof {
                lemma_winner_index_in_range(verdict, views, i as int);
            }
            if Self::first_chain_is_better(candidate_chains[i], best) {
                best = candidate_chains[i];
            }
            i = i + 1;
        }
        best
    }
}

/// The best chain is simply the longest chain; two chains of equal length
/// are each as good as the other.
pub struct LongestChainRule;

impl ForkChoice for LongestChainRule {
    open spec fn better(chain_1: Seq<Header>, chain_2: Seq<Header>) -> bool {
        chain_1.len() >= chain_2.len()
    }

    fn first_chain_is_better(chain_1: &[Header], chain_2: &[Header]) -> (r: bool) {
        chain_1.len() >= chain_2.len()
    }
}

/// Under the longest-chain rule every chain is as good as itself: the rule
/// is reflexive.
pub proof fn lemma_longest_chain_reflexive(chain: Seq<Header>)
    requires
        chain.len() > 0,
    ensures
        LongestChainRule::better(chain, chain),
{
}

/// Under the longest-chain rule a strictly longer chain beats a shorter one,
/// and never the other way around.
pub proof fn lemma_longer_chain_wins(chain_1: Seq<Header>, chain_2: Seq<Header>)
    requires
        chain_1.len() > chain_2.len(),
    ensures
        LongestChainRule::better(chain_1, chain_2),
        !LongestChainRule::better(chain_2, chain_1),
{
}

/// Under the longest-chain rule two chains of equal length are each as good
/// as the other: both directions of the comparison succeed, so in a
/// reduction a later candidate of equal length replaces the running winner.
pub proof fn lemma_equal_length_ties_favor_first(chain_1: Seq<Header>, chain_2: Seq<Header>)
    requires
        chain_1.len() == chain_2.len(),
    ensures
        LongestChainRule::better(chain_1, chain_2),
        LongestChainRule::better(chain_2, chain_1),
{
}

/// Under the heaviest-chain rule a chain never beats a chain of exactly
/// equal work, in either direction: in a reduction a tie retains the running
/// winner, unlike the longest-chain tie behaviour.
pub proof fn lemma_equal_work_keeps_winner(chain_1: Seq<Header>, chain_2: Seq<Header>)
    requires
        chain_work(chain_1) == chain_work(chain_2),
    ensures
        !HeaviestChainRule::better(chain_1, chain_2),
        !HeaviestChainRule::better(chain_2, chain_1),
{
}

/// Where the pairwise verdict is the longest-chain comparison, the winner of
/// the left-to-right reduction over `chains[0 ..= i]` is the *last* chain of
/// maximal length: no chain is longer, and every chain after the winner is
/// strictly shorter. In particular, when all lengths are distinct the winner
/// is the unique longest chain.
///
/// Instantiate `better` with the verdict that `best_chain`'s contract uses;
/// its pointwise meaning is the premise.
pub proof fn lemma_longest_winner_is_last_maximal(
    better: spec_fn(Seq<Header>, Seq<Header>) -> bool,
    chains: Seq<Seq<Header>>,
    i: int,
)
    requires
        0 <= i < chains.len(),
        forall|c1: Seq<Header>, c2: Seq<Header>| #[trigger] better(c1, c2) == (c1.len()
            >= c2.len()),
    ensures
        ({
            let w = winner_index(better, chains, i);
            &&& 0 <= w <= i
            &&& forall|j: int| 0 <= j <= i ==> chains[j].len() <= chains[w].len()
            &&& forall|j: int| w < j <= i ==> chains[j].len() < chains[w].len()
        }),
    decreases i,
{
    if i > 0 {
        lemma_longest_winner_is_last_maximal(better, chains, i - 1);
    }
}

/// Work contributed by one header: the lower its digest, the more work it
/// holds; a digest above [`THRESHOLD`] contributes nothing.
pub open spec fn header_work(h: Header) -> u64 {
    if header_digest(h) > THRESHOLD {
        0
    } else {
        (THRESHOLD - header_digest(h)) as u64
    }
}

/// Total accumulated work of a chain: the exact sum of the per-header
/// contributions, with no truncation.
pub open spec fn chain_work(chain: Seq<Header>) -> nat
    decreases chain.len(),
{
    if chain.len() == 0 {
        0
    } else {
        chain_work(chain.drop_last()) + header_work(chain.last()) as nat
    }
}

/// No chain holds more work than one threshold per header.
pub proof fn lemma_chain_work_bound(chain: Seq<Header>)
    ensures
        chain_work(chain) <= chain.len() * THRESHOLD,
    decreases chain.len(),
{
    if chain.len() > 0 {
        lemma_chain_work_bound(chain.drop_last());
        assert((chain.len() - 1) * THRESHOLD + THRESHOLD == chain.len() * THRESHOLD)
            by (nonlinear_arith);
    }
}

/// Work contributed by one header.
pub fn work_of_header(h: &Header) -> (w: u64)
    ensures
        w == header_work(*h),
{
    let digest = hash_header(h);
    if digest > THRESHOLD {
        0
    } else {
        THRESHOLD - digest
    }
}

/// Total accumulated work of a chain, summed in a widened accumulator so
/// that no contribution is ever lost to overflow.
pub fn work_of_chain(chain: &[Header]) -> (w: u128)
    ensures
        w == chain_work(chain@),
{
    let mut acc: u128 = 0;
    let mut i: usize = 0;
    while i < chain.len()
        invariant
            i <= chain@.len(),
            acc == chain_work(chain@.take(i as int)),
        decreases chain@.len() - i,
    {
        proof {
            lemma_chain_work_bound(chain@.take(i as int));
            assert(chain@.take(i as int).len() == i as int);
            assert((i as int) * (THRESHOLD as int) <= (usize::MAX as int) * (THRESHOLD as int))
                by (nonlinear_arith)
                requires
                    0 <= i as int <= usize::MAX as int,
            ;
            assert((usize::MAX as int) * (THRESHOLD as int) + (THRESHOLD as int) <= u128::MAX
                as int);
            assert(chain@.take(i as int + 1).drop_last() =~= chain@.take(i as int));
        }
        acc = acc + (work_of_header(&chain[i]) as u128);
        i = i + 1;
    }
    proof {
        assert(chain@.take(chain@.len() as int) =~= chain@);
    }
    acc
}

/// The best chain is the one with the most accumulated work; on an exact tie
/// of work, neither chain beats the other.
///
/// In proof-of-work chains each block carries a certain amount of work:
/// roughly, the lower a block's digest, the more work it holds, because
/// finding such a block takes more attempts on average. The formula
/// `work = THRESHOLD - digest` is a conceptual stand-in for that.
pub struct HeaviestChainRule;

impl ForkChoice for HeaviestChainRule {
    open spec fn better(chain_1: Seq<Header>, chain_2: Seq<Header>) -> bool {
        chain_work(chain_1) > chain_work(chain_2)
    }

    fn first_chain_is_better(chain_1: &[Header], chain_2: &[Header]) -> (r: bool) {
        let work_1 = work_of_chain(chain_1);
        let work_2 = work_of_chain(chain_2);
        work_1 > work_2
    }
}

/// How many headers of a chain have an even digest.
pub open spec fn even_hash_count(chain: Seq<Header>) -> nat
    decreases chain.len(),
{
    if chain.len() == 0 {
        0
    } else {
        even_hash_count(chain.drop_last()) + (if header_digest(chain.last()) % 2 == 0 {
            1nat
        } else {
            0nat
        })
    }
}

/// How many headers of a chain have an even digest.
pub fn count_even_hashes(chain: &[Header]) -> (count: usize)
    ensures
        count == even_hash_count(chain@),
{
    let mut count: usize = 0;
    let mut i: usize = 0;
    while i < chain.len()
        invariant
            i <= chain@.len(),
            count == even_hash_count(chain@.take(i as int)),
            count <= i,
        decreases chain@.len() - i,
    {
        proof {
            assert(chain@.take(i as int + 1).drop_last() =~= chain@.take(i as int));
        }
        if hash_header(&chain[i]) % 2 == 0 {
            count = count + 1;
        }
        i = i + 1;
    }
    proof {
        assert(chain@.take(chain@.len() as int) =~= chain@);
    }
    count
}

/// The best chain is the one with the most blocks whose digest is even; on a
/// tie of counts, neither chain beats the other.
///
/// The rule itself is contrived, but it stands for a family of real rules
/// that prefer the chain with the most blocks of a distinguished kind, such
/// as blocks made by a primary author rather than a fallback one.
pub struct MostBlocksWithEvenHash;

impl ForkChoice for MostBlocksWithEvenHash {
    open spec fn better(chain_1: Seq<Header>, chain_2: Seq<Header>) -> bool {
        even_hash_count(chain_1) > even_hash_count(chain_2)
    }

    fn first_chain_is_better(chain_1: &[Header], chain_2: &[Header]) -> (r: bool) {
        let count_1 = count_even_hashes(chain_1);
        let count_2 = count_even_hashes(chain_2);
        count_1 > count_2
    }
}

/// Addition of two words modulo `2^64`.
pub open spec fn add_mod(a: u64, b: u64) -> u64 {
    (((a as u128) + (b as u128)) % 0x1_0000_0000_0000_0000) as u64
}

/// Addition of two words modulo `2^64`.
fn add_mod_words(a: u64, b: u64) -> (r: u64)
    ensures
        r == add_mod(a, b),
{
    let wide: u128 = (a as u128) + (b as u128);
    (wide % 0x1_0000_0000_0000_0000u128) as u64
}

/// `h` with its consensus digest replaced by `d`.
pub open spec fn with_digest(h: Header, d: u64) -> Header {
    Header {
        parent_digest: h.parent_digest,
        height: h.height,
        extrinsics_root: h.extrinsics_root,
        consensus_digest: d,
    }
}

/// True when perturbing `h`'s consensus digest by the counter `k` yields a
/// header whose digest falls below `threshold`.
pub open spec fn mine_hit(h: Header, k: u64, threshold: u64) -> bool {
    header_digest(with_digest(h, add_mod(h.consensus_digest, k))) < threshold
}

/// The difficulty search: starting from `h`'s current consensus digest, try
/// the perturbations `digest + 1`, `digest + 2`, ... (modulo `2^64`) in turn
/// and stop at the first one whose header digest falls below `threshold`.
/// Returns the found header and true, or `h` unchanged and false when no
/// counter at all hits the threshold.
fn mined_header(h: Header, threshold: u64) -> (r: (Header, bool))
    ensures
        r.0.parent_digest == h.parent_digest,
        r.0.height == h.height,
        r.0.extrinsics_root == h.extrinsics_root,
        r.1 ==> header_digest(r.0) < threshold,
        r.1 ==> exists|k: u64|
            1 <= k && #[trigger] mine_hit(h, k, threshold) && r.0 == with_digest(
                h,
                add_mod(h.consensus_digest, k),
            ) && forall|j: u64| 1 <= j < k ==> !mine_hit(h, j, threshold),
        !r.1 ==> r.0 == h && forall|k: u64| 1 <= k ==> !#[trigger] mine_hit(h, k, threshold),
{
    let mut k: u64 = 1;
    loop
        invariant
            1 <= k,
            forall|j: u64| 1 <= j < k ==> !#[trigger] mine_hit(h, j, threshold),
        decreases u64::MAX - k,
    {
        let digest = add_mod_words(h.consensus_digest, k);
        let candidate = Header {
            parent_digest: h.parent_digest,
            height: h.height,
            extrinsics_root: h.extrinsics_root,
            consensus_digest: digest,
        };
        if hash_header(&candidate) < threshold {
            proof {
                assert(mine_hit(h, k, threshold));
            }
            return (candidate, true);
        }
        proof {
            assert(!mine_hit(h, k, threshold));
        }
        if k == u64::MAX {
            return (h, false);
        }
        k = k + 1;
    }
}

/// Mutates a block (through its embedded header) to contain more
/// proof-of-work difficulty: the difficulty search of [`mined_header`] run
/// in place. The expected usage is to create a block with `Block::child` and
/// then pass it here for additional mining.
///
/// The caller must pick a reachable threshold: some perturbation of the
/// consensus digest has to hit it, or the search would never end.
pub fn mine_extra_hard(block: &mut Block, threshold: u64)
    requires
        exists|k: u64| 1 <= k && #[trigger] mine_hit(old(block).header, k, threshold),
    ensures
        header_digest(final(block).header) < threshold,
        final(block).header.parent_digest == old(block).header.parent_digest,
        final(block).header.height == old(block).header.height,
        final(block).header.extrinsics_root == old(block).header.extrinsics_root,
        final(block).body == old(block).body,
        exists|k: u64|
            1 <= k && final(block).header == with_digest(
                old(block).header,
                add_mod(old(block).header.consensus_digest, k),
            ) && forall|j: u64| 1 <= j < k ==> !mine_hit(old(block).header, j, threshold),
{
    let (mined, found) = mined_header(block.header, threshold);
    proof {
        assert(found);
    }
    block.header = mined;
}

/// The first header shared by both forks of the fixture: the child of
/// genesis committing to the extrinsics `[1, 2, 3]`.
pub open spec fn fork_base() -> Header {
    child_header(genesis_header(), words_digest(seq![1u64, 2u64, 3u64]), 0)
}

/// The header the heavier fork of the fixture is mined from.
pub open spec fn fork_heavy_seed() -> Header {
    child_header(fork_base(), words_digest(seq![4u64]), 5)
}

/// Build two different forks on a common prefix: the same genesis child,
/// extended on one side by two plain blocks and on the other side by a
/// single block mined against a threshold a hundred times tighter than
/// [`THRESHOLD`], so that the first fork is longer while the second packs
/// more work into fewer blocks.
///
/// Returns the common prefix, the longer suffix and the heavier suffix, the
/// suffixes not overlapping with the prefix.
pub fn create_fork_one_side_longer_other_side_heavier() -> (r: (
    Vec<Header>,
    Vec<Header>,
    Vec<Header>,
))
    ensures
        r.0@ =~= seq![fork_base()],
        r.1@ =~= seq![
            child_header(fork_base(), words_digest(seq![4u64]), 6),
            child_header(
                child_header(fork_base(), words_digest(seq![4u64]), 6),
                words_digest(seq![5u64]),
                10,
            ),
        ],
        r.2@.len() == 1,
        linked(r.0@ + r.1@),
        linked(r.0@ + r.2@),
        LongestChainRule::better(r.1@, r.2@),
        !LongestChainRule::better(r.2@, r.1@),
        r.2@[0].parent_digest == fork_heavy_seed().parent_digest,
        r.2@[0].height == fork_heavy_seed().height,
        r.2@[0].extrinsics_root == fork_heavy_seed().extrinsics_root,
        (exists|k: u64| 1 <= k && #[trigger] mine_hit(fork_heavy_seed(), k, u64::MAX / 1000))
            ==> header_digest(r.2@[0]) < u64::MAX / 1000,
{
    let g = Header::genesis();
    let extrinsics: Vec<u64> = vec![1, 2, 3];
    let extrinsics_root = hash_words(extrinsics.as_slice());
    proof {
        assert(extrinsics@ =~= seq![1u64, 2u64, 3u64]);
    }
    let b1 = g.child(extrinsics_root, 0);
    let mut common: Vec<Header> = Vec::new();
    common.push(b1);

    let ext_b2: Vec<u64> = vec![4];
    let ext_b3: Vec<u64> = vec![5];
    proof {
        assert(ext_b2@ =~= seq![4u64]);
        assert(ext_b3@ =~= seq![5u64]);
    }
    let b2_extrinsics = hash_words(ext_b2.as_slice());
    let b2 = b1.child(b2_extrinsics, 6);
    let b3_extrinsics = hash_words(ext_b3.as_slice());
    let b3 = b2.child(b3_extrinsics, 10);
    let mut longer: Vec<Header> = Vec::new();
    longer.push(b2);
    longer.push(b3);

    let seed = b1.child(b2_extrinsics, 5);
    let (c2, _found) = mined_header(seed, u64::MAX / 1000);
    let mut more_work: Vec<Header> = Vec::new();
    more_work.push(c2);

    proof {
        let long_fork = common@ + longer@;
        assert(long_fork =~= seq![b1, b2, b3]);
        assert(linked(long_fork)) by {
            assert(long_fork[1] == b2 && long_fork[0] == b1);
            assert(long_fork[2] == b3 && long_fork[1] == b2);
        }
        let heavy_fork = common@ + more_work@;
        assert(heavy_fork =~= seq![b1, c2]);
        assert(linked(heavy_fork)) by {
            assert(heavy_fork[1] == c2 && heavy_fork[0] == b1);
        }
    }
    (common, longer, more_work)
}

} // verus!
