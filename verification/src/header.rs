//! Block headers and blocks.
//!
//! A header is identified by its digest: the [`header_digest`] of its four
//! fields. A child header stores the digest of its parent, so a valid chain
//! is a sequence of headers in which each header's `parent_digest` equals the
//! digest of the header before it. This module only builds headers; it is up
//! to callers of the fork-choice rules to pass valid chains.

use vstd::prelude::*;

use crate::hashing::hash_words;
use crate::hashing::mix_word;
use crate::hashing::words_digest;

verus! {

/// A block header: the identity of a block.
#[derive(Clone, Copy, PartialEq, Eq, Debug)]
pub struct Header {
    /// Digest of the parent header; zero for genesis.
    pub parent_digest: u64,
    /// Number of ancestors; zero for genesis.
    pub height: u64,
    /// Digest of the block's extrinsics.
    pub extrinsics_root: u64,
    /// Free field perturbed by the difficulty search.
    pub consensus_digest: u64,
}

/// A block: a header together with the extrinsics the header commits to.
#[derive(Clone, PartialEq, Eq, Debug)]
pub struct Block {
    pub header: Header,
    pub body: Vec<u64>,
}

/// The digest identifying a header: the word digest of its four fields.
pub open spec fn header_digest(h: Header) -> u64 {
    words_digest(seq![h.parent_digest, h.height, h.extrinsics_root, h.consensus_digest])
}

/// The genesis header: every field zero.
pub open spec fn genesis_header() -> Header {
    Header { parent_digest: 0, height: 0, extrinsics_root: 0, consensus_digest: 0 }
}

/// The child of `parent` carrying the given extrinsics root and consensus
/// digest: its parent digest is the parent's digest, its height one more.
pub open spec fn child_header(parent: Header, extrinsics_root: u64, consensus_digest: u64) -> Header {
    Header {
        parent_digest: header_digest(parent),
        height: (parent.height + 1) as u64,
        extrinsics_root,
        consensus_digest,
    }
}

/// A well-linked chain: each header after the first holds the digest of the
/// header before it and sits one height above it.
pub open spec fn linked(chain: Seq<Header>) -> bool {
    forall|i: int|
        1 <= i < chain.len() ==> (#[trigger] chain[i]).parent_digest == header_digest(
            chain[i - 1],
        ) && chain[i].height == chain[i - 1].height + 1
}

/// Computes the digest identifying a header.
pub fn hash_header(h: &Header) -> (r: u64)
    ensures
        r == header_digest(*h),
{
    let acc = mix_word(crate::hashing::DIGEST_OFFSET, h.parent_digest);
    let acc = mix_word(acc, h.height);
    let acc = mix_word(acc, h.extrinsics_root);
    let r = mix_word(acc, h.consensus_digest);
    proof {
        reveal_with_fuel(words_digest, 5);
        let ws = seq![h.parent_digest, h.height, h.extrinsics_root, h.consensus_digest];
        assert(ws.drop_last() =~= seq![h.parent_digest, h.height, h.extrinsics_root]);
        assert(ws.drop_last().drop_last() =~= seq![h.parent_digest, h.height]);
        assert(ws.drop_last().drop_last().drop_last() =~= seq![h.parent_digest]);
        assert(ws.drop_last().drop_last().drop_last().drop_last() =~= Seq::<u64>::empty());
    }
    r
}

impl Header {
    /// The fixed genesis header.
    pub fn genesis() -> (g: Header)
        ensures
            g == genesis_header(),
    {
        Header { parent_digest: 0, height: 0, extrinsics_root: 0, consensus_digest: 0 }
    }

    /// A child of this header with the given extrinsics root and consensus
    /// digest.
    pub fn child(&self, extrinsics_root: u64, consensus_digest: u64) -> (c: Header)
        requires
            self.height < u64::MAX,
        ensures
            c == child_header(*self, extrinsics_root, consensus_digest),
    {
        Header {
            parent_digest: hash_header(self),
            height: self.height + 1,
            extrinsics_root,
            consensus_digest,
        }
    }
}

impl Block {
    /// The genesis block: the genesis header and an empty body.
    pub fn genesis() -> (g: Block)
        ensures
            g.header == genesis_header(),
            g.body@ == Seq::<u64>::empty(),
    {
        Block { header: Header::genesis(), body: Vec::new() }
    }

    /// A child block carrying the given extrinsics; the child header commits
    /// to them through their digest, with a zero consensus digest.
    pub fn child(&self, extrinsics: Vec<u64>) -> (c: Block)
        requires
            self.header.height < u64::MAX,
        ensures
            c.header == child_header(self.header, words_digest(extrinsics@), 0),
            c.body@ == extrinsics@,
    {
        let root = hash_words(extrinsics.as_slice());
        Block { header: self.header.child(root, 0), body: extrinsics }
    }
}

} // verus!
