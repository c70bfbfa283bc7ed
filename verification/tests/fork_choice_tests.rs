use blockchain_from_scratch::fork_choice::{
    count_even_hashes, create_fork_one_side_longer_other_side_heavier, mine_extra_hard,
    work_of_chain, ForkChoice, HeaviestChainRule, LongestChainRule, MostBlocksWithEvenHash,
    THRESHOLD,
};
use blockchain_from_scratch::hashing::hash_words;
use blockchain_from_scratch::header::{hash_header, Block, Header};

#[test]
fn bc_5_longest_chain() {
    let g = Header::genesis();

    let h_a1 = g.child(hash_words(&[1]), 1);
    let h_a2 = h_a1.child(hash_words(&[2]), 2);
    let chain_1 = &[g.clone(), h_a1, h_a2];

    let h_b1 = g.child(hash_words(&[3]), 3);
    let chain_2 = &[g, h_b1];

    assert!(LongestChainRule::first_chain_is_better(chain_1, chain_2));

    assert_eq!(LongestChainRule::best_chain(&[chain_1, chain_2]), chain_1);
}

#[test]
fn bc_5_mine_to_custom_difficulty() {
    let g = Block::genesis();
    let mut b1 = g.child(vec![1, 2, 3]);

    // We want the custom threshold to be high enough that we don't take forever mining
    // but low enough that it is unlikely we accidentally meet it with the normal
    // block creation function
    let custom_threshold = u64::max_value() / 1000;
    mine_extra_hard(&mut b1, custom_threshold);

    assert!(hash_header(&b1.header) < custom_threshold);
}

#[test]
fn bc_5_heaviest_chain() {
    let g = Header::genesis();

    let mut i = 0;
    let h_a1 = loop {
        let header = g.child(hash_words(&[i]), i);
        // Extrinsics root hash must be higher than threshold (less work done)
        if hash_header(&header) > THRESHOLD {
            break header;
        }
        i += 1;
    };
    let chain_1 = &[g.clone(), h_a1];

    let h_b1 = loop {
        let header = g.child(hash_words(&[i]), i);
        // Extrinsics root hash must be lower than threshold (more work done)
        if hash_header(&header) < THRESHOLD {
            break header;
        }
        i += 1;
    };
    let chain_2 = &[g, h_b1];

    assert!(HeaviestChainRule::first_chain_is_better(chain_2, chain_1));

    assert_eq!(HeaviestChainRule::best_chain(&[chain_1, chain_2]), chain_2);
}

#[test]
fn bc_5_most_even_blocks() {
    let g = Header::genesis();

    let mut h_a1 = g.child(2, 0);
    for i in 0..u64::max_value() {
        h_a1 = g.child(2, i);
        if hash_header(&h_a1) % 2 == 0 {
            break;
        }
    }
    let mut h_a2 = g.child(2, 0);
    for i in 0..u64::max_value() {
        h_a2 = h_a1.child(2, i);
        if hash_header(&h_a2) % 2 == 0 {
            break;
        }
    }
    let chain_1 = &[g.clone(), h_a1, h_a2];

    let mut h_b1 = g.child(2, 0);
    for i in 0..u64::max_value() {
        h_b1 = g.child(2, i);
        if hash_header(&h_b1) % 2 != 0 {
            break;
        }
    }
    let mut h_b2 = g.child(2, 0);
    for i in 0..u64::max_value() {
        h_b2 = h_b1.child(2, i);
        if hash_header(&h_b2) % 2 != 0 {
            break;
        }
    }
    let chain_2 = &[g, h_b1, h_b2];

    assert!(MostBlocksWithEvenHash::first_chain_is_better(chain_1, chain_2));

    assert_eq!(MostBlocksWithEvenHash::best_chain(&[chain_1, chain_2]), chain_1);
}

#[test]
fn bc_5_longest_vs_heaviest() {
    let (_, longest_chain, pow_chain) = create_fork_one_side_longer_other_side_heavier();

    assert!(LongestChainRule::first_chain_is_better(&longest_chain, &pow_chain));

    assert_eq!(LongestChainRule::best_chain(&[&longest_chain, &pow_chain]), &longest_chain);

    let (_, longest_chain, pow_chain) = create_fork_one_side_longer_other_side_heavier();

    assert!(HeaviestChainRule::first_chain_is_better(&pow_chain, &longest_chain));

    assert_eq!(HeaviestChainRule::best_chain(&[&longest_chain, &pow_chain]), &pow_chain);
}

/// A chain is as good as itself under the longest-chain rule, and two chains
/// of equal length are each as good as the other, in both directions.
#[test]
fn longest_chain_tie_goes_both_ways() {
    let g = Header::genesis();
    let a = g.child(hash_words(&[7]), 7);
    let b = g.child(hash_words(&[8]), 8);
    let chain_1 = &[g.clone(), a];
    let chain_2 = &[g.clone(), b];

    assert!(LongestChainRule::first_chain_is_better(chain_1, chain_1));
    assert!(LongestChainRule::first_chain_is_better(chain_1, chain_2));
    assert!(LongestChainRule::first_chain_is_better(chain_2, chain_1));
}

/// A strictly longer chain wins under the longest-chain rule and the shorter
/// one loses, whatever the work on either side.
#[test]
fn longer_chain_wins_and_shorter_loses() {
    let g = Header::genesis();
    let a1 = g.child(hash_words(&[1]), 1);
    let a2 = a1.child(hash_words(&[2]), 2);
    let longer = &[g.clone(), a1, a2];
    let shorter = &[g];

    assert!(LongestChainRule::first_chain_is_better(longer, shorter));
    assert!(!LongestChainRule::first_chain_is_better(shorter, longer));
}

/// With distinct lengths `best_chain` picks the unique longest candidate;
/// with ties it picks the last candidate of maximal length.
#[test]
fn best_chain_picks_last_of_maximal_length() {
    let g = Header::genesis();
    let a1 = g.child(hash_words(&[1]), 1);
    let b1 = g.child(hash_words(&[2]), 2);
    let c1 = g.child(hash_words(&[3]), 3);
    let one = &[g.clone()][..];
    let two = &[g.clone(), a1][..];
    let two_b = &[g.clone(), b1][..];
    let two_c = &[g.clone(), c1][..];

    // Distinct lengths: the longest wins wherever it stands.
    assert_eq!(LongestChainRule::best_chain(&[one, two]), two);
    assert_eq!(LongestChainRule::best_chain(&[two, one]), two);

    // Ties: the last chain of maximal length replaces earlier ones.
    let best = LongestChainRule::best_chain(&[two, two_b, two_c]);
    assert_eq!(best, two_c);
    let best = LongestChainRule::best_chain(&[two_b, one, two_c]);
    assert_eq!(best, two_c);
}

/// On an exact tie of work neither chain beats the other under the
/// heaviest-chain rule, so a reduction keeps its earlier winner.
#[test]
fn equal_work_keeps_the_earlier_winner() {
    let g = Header::genesis();
    let a = g.child(hash_words(&[1]), 1);
    let chain_1 = &[g.clone(), a.clone()];
    let chain_2 = &[g.clone(), a];

    assert_eq!(work_of_chain(chain_1), work_of_chain(chain_2));
    assert!(!HeaviestChainRule::first_chain_is_better(chain_1, chain_2));
    assert!(!HeaviestChainRule::first_chain_is_better(chain_2, chain_1));
    assert_eq!(HeaviestChainRule::best_chain(&[chain_1, chain_2]), chain_1);
}

/// Mining changes only the consensus digest: parent, height, extrinsics root
/// and the block body stay what they were.
#[test]
fn mining_changes_only_the_consensus_digest() {
    let g = Block::genesis();
    let mut b1 = g.child(vec![4, 5, 6]);
    let before = b1.clone();

    let custom_threshold = u64::max_value() / 500;
    mine_extra_hard(&mut b1, custom_threshold);

    assert!(hash_header(&b1.header) < custom_threshold);
    assert_eq!(b1.header.parent_digest, before.header.parent_digest);
    assert_eq!(b1.header.height, before.header.height);
    assert_eq!(b1.header.extrinsics_root, before.header.extrinsics_root);
    assert_eq!(b1.body, before.body);
}

/// A short chain of all-even digests beats a longer chain of all-odd digests
/// under the most-even-hash rule.
#[test]
fn even_hashes_beat_a_longer_odd_chain() {
    let g = Header::genesis();

    let mut even_1 = g.child(2, 0);
    for i in 0..u64::max_value() {
        even_1 = g.child(2, i);
        if hash_header(&even_1) % 2 == 0 {
            break;
        }
    }
    let mut even_2 = even_1.child(2, 0);
    for i in 0..u64::max_value() {
        even_2 = even_1.child(2, i);
        if hash_header(&even_2) % 2 == 0 {
            break;
        }
    }
    let even_chain = &[even_1, even_2][..];

    let mut odd_1 = g.child(2, 0);
    for i in 0..u64::max_value() {
        odd_1 = g.child(2, i);
        if hash_header(&odd_1) % 2 != 0 {
            break;
        }
    }
    let mut odd_2 = odd_1.child(2, 0);
    for i in 0..u64::max_value() {
        odd_2 = odd_1.child(2, i);
        if hash_header(&odd_2) % 2 != 0 {
            break;
        }
    }
    let mut odd_3 = odd_2.child(2, 0);
    for i in 0..u64::max_value() {
        odd_3 = odd_2.child(2, i);
        if hash_header(&odd_3) % 2 != 0 {
            break;
        }
    }
    let odd_chain = &[odd_1, odd_2, odd_3][..];

    assert_eq!(count_even_hashes(even_chain), 2);
    assert_eq!(count_even_hashes(odd_chain), 0);
    assert!(MostBlocksWithEvenHash::first_chain_is_better(even_chain, odd_chain));
    assert!(LongestChainRule::first_chain_is_better(odd_chain, even_chain));
    assert_eq!(MostBlocksWithEvenHash::best_chain(&[odd_chain, even_chain]), even_chain);
}

/// The two fixture forks extend the same common prefix, each fully linked by
/// parent digests and heights.
#[test]
fn fixture_forks_share_a_common_linked_prefix() {
    let (common, longer, pow_chain) = create_fork_one_side_longer_other_side_heavier();
    assert_eq!(common.len(), 1);
    assert_eq!(longer.len(), 2);
    assert_eq!(pow_chain.len(), 1);
    assert_eq!(longer[0].parent_digest, hash_header(&common[0]));
    assert_eq!(longer[1].parent_digest, hash_header(&longer[0]));
    assert_eq!(pow_chain[0].parent_digest, hash_header(&common[0]));
    assert_eq!(longer[0].height, common[0].height + 1);
    assert_eq!(longer[1].height, longer[0].height + 1);
    assert_eq!(pow_chain[0].height, common[0].height + 1);
}

/// A lone candidate is the best chain under any rule.
#[test]
fn single_candidate_is_best() {
    let g = Header::genesis();
    let chain = &[g][..];
    assert_eq!(LongestChainRule::best_chain(&[chain]), chain);
    assert_eq!(HeaviestChainRule::best_chain(&[chain]), chain);
    assert_eq!(MostBlocksWithEvenHash::best_chain(&[chain]), chain);
}

/// Two empty chains are of equal length, so each is as good as the other
/// under the longest-chain rule, and neither beats the other under the
/// strict rules.
#[test]
fn empty_chains_compare_as_equals() {
    let empty_1: &[Header] = &[];
    let empty_2: &[Header] = &[];
    assert!(LongestChainRule::first_chain_is_better(empty_1, empty_2));
    assert!(LongestChainRule::first_chain_is_better(empty_2, empty_1));
    assert!(!HeaviestChainRule::first_chain_is_better(empty_1, empty_2));
    assert!(!MostBlocksWithEvenHash::first_chain_is_better(empty_1, empty_2));
}
