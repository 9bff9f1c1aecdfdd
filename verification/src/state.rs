//! Organization state store: the durable record of qualified wallets and cast
//! votes, its only mutator, and its byte encoding. The encoding is a private
//! concern of the store: a length-prefixed, fixed-width layout whose exact
//! total length is checked on decode, so a truncated or padded record is
//! detected as corruption.

use vstd::prelude::*;
use vstd::arithmetic::div_mod::{lemma_div_denominator, lemma_fundamental_div_mod,
    lemma_div_is_ordered, lemma_small_mod};

use crate::VoteError;

verus! {

/// Width of a participant's public identifier, in bytes.
pub const WALLET_ID_LEN: usize = 32;

/// A participant's fixed-width, opaque public identifier. Supplied by the
/// caller, never generated here.
#[derive(Debug, Clone)]
pub struct WalletId {
    pub bytes: Vec<u8>,
}

impl View for WalletId {
    type V = Seq<u8>;

    open spec fn view(&self) -> Seq<u8> {
        self.bytes@
    }
}

impl WalletId {
    /// A well-formed identifier holds exactly `WALLET_ID_LEN` bytes.
    pub open spec fn wf(&self) -> bool {
        self@.len() == WALLET_ID_LEN
    }

    /// Builds an identifier from raw bytes; rejects any width but
    /// `WALLET_ID_LEN`.
    pub fn from_bytes(bytes: Vec<u8>) -> (r: Option<WalletId>)
        ensures
            r is Some <==> bytes@.len() == WALLET_ID_LEN,
            r is Some ==> r->Some_0@ == bytes@ && r->Some_0.wf(),
    {
        if bytes.len() == WALLET_ID_LEN {
            Some(WalletId { bytes })
        } else {
            None
        }
    }

    /// Byte-wise equality of two identifiers.
    pub fn matches_id(&self, other: &WalletId) -> (r: bool)
        ensures
            r == (self@ == other@),
    {
        if self.bytes.len() != other.bytes.len() {
            return false;
        }
        let mut i: usize = 0;
        while i < self.bytes.len()
            invariant
                i <= self.bytes@.len(),
                self.bytes@.len() == other.bytes@.len(),
                forall|j: int| 0 <= j < i ==> self.bytes@[j] == other.bytes@[j],
            decreases self.bytes@.len() - i,
        {
            if self.bytes[i] != other.bytes[i] {
                return false;
            }
            i += 1;
        }
        proof {
            assert(self@ =~= other@);
        }
        true
    }
}

/// Mathematical model of a cast vote.
#[verifier::ext_equal]
pub ghost struct VoteView {
    pub voter: Seq<u8>,
    pub tokens_voted: u64,
    pub reward: u64,
}

/// An immutable vote record: who voted, the weight committed, and the reward
/// earned. Created once, never mutated.
#[derive(Debug, Clone)]
pub struct Vote {
    pub voter: WalletId,
    pub tokens_voted: u64,
    pub reward: u64,
}

impl View for Vote {
    type V = VoteView;

    open spec fn view(&self) -> VoteView {
        VoteView { voter: self.voter@, tokens_voted: self.tokens_voted, reward: self.reward }
    }
}

/// Mathematical model of the organization state.
#[verifier::ext_equal]
pub ghost struct StateView {
    pub qualified_wallets: Seq<Seq<u8>>,
    pub votes: Seq<VoteView>,
}

/// Every identifier in the state is well formed.
pub open spec fn wf_state(v: StateView) -> bool {
    &&& forall|i: int|
        0 <= i < v.qualified_wallets.len() ==> (#[trigger] v.qualified_wallets[i]).len()
            == WALLET_ID_LEN
    &&& forall|i: int|
        0 <= i < v.votes.len() ==> (#[trigger] v.votes[i]).voter.len() == WALLET_ID_LEN
}

/// The durable aggregate: the membership roll and the ordered, append-only
/// sequence of cast votes.
#[derive(Debug, Clone)]
pub struct DAOState {
    pub qualified_wallets: Vec<WalletId>,
    pub votes: Vec<Vote>,
}

impl View for DAOState {
    type V = StateView;

    open spec fn view(&self) -> StateView {
        StateView {
            qualified_wallets: self.qualified_wallets@.map_values(|w: WalletId| w@),
            votes: self.votes@.map_values(|v: Vote| v@),
        }
    }
}

impl DAOState {
    pub open spec fn wf(&self) -> bool {
        wf_state(self@)
    }

    /// An empty organization: no qualified wallets, no votes.
    pub fn new() -> (r: DAOState)
        ensures
            r@.qualified_wallets == Seq::<Seq<u8>>::empty(),
            r@.votes == Seq::<VoteView>::empty(),
            r.wf(),
    {
        let r = DAOState { qualified_wallets: Vec::new(), votes: Vec::new() };
        proof {
            assert(r@.qualified_wallets =~= Seq::<Seq<u8>>::empty());
            assert(r@.votes =~= Seq::<VoteView>::empty());
        }
        r
    }

    /// The only mutator: appends exactly one vote at the end of `votes` and
    /// leaves the membership roll untouched.
    pub fn add_vote(&mut self, voter: WalletId, tokens_voted: u64, reward: u64)
        ensures
            final(self)@.votes == old(self)@.votes.push(
                VoteView { voter: voter@, tokens_voted, reward },
            ),
            final(self)@.votes.len() == old(self)@.votes.len() + 1,
            final(self)@.qualified_wallets == old(self)@.qualified_wallets,
            old(self).wf() && voter.wf() ==> final(self).wf(),
    {
        self.votes.push(Vote { voter, tokens_voted, reward });
        proof {
            assert(self@.votes =~~= old(self)@.votes.push(
                VoteView { voter: self.votes@[self.votes@.len() - 1].voter@, tokens_voted, reward },
            ));
            assert(self@.qualified_wallets =~~= old(self)@.qualified_wallets);
        }
    }

    /// Whether a wallet stands on the membership roll.
    pub fn is_qualified(&self, wallet: &WalletId) -> (r: bool)
        ensures
            r == self@.qualified_wallets.contains(wallet@),
    {
        let mut i: usize = 0;
        while i < self.qualified_wallets.len()
            invariant
                i <= self.qualified_wallets@.len(),
                forall|j: int| 0 <= j < i ==> self@.qualified_wallets[j] != wallet@,
            decreases self.qualified_wallets@.len() - i,
        {
            if self.qualified_wallets[i].matches_id(wallet) {
                proof {
                    assert(self@.qualified_wallets[i as int] == wallet@);
                }
                return true;
            }
            i += 1;
        }
        proof {
            assert(!self@.qualified_wallets.contains(wallet@));
        }
        false
    }
}

// ---------------------------------------------------------------------------
// Little-endian 64-bit integers.
// ---------------------------------------------------------------------------

/// The value an 8-byte little-endian sequence denotes.
pub open spec fn le64(s: Seq<u8>) -> int
    recommends
        s.len() == 8,
{
    (s[0] as int) + (s[1] as int) * 0x100 + (s[2] as int) * 0x1_0000 + (s[3] as int) * 0x100_0000
        + (s[4] as int) * 0x1_0000_0000 + (s[5] as int) * 0x100_0000_0000 + (s[6] as int)
        * 0x1_0000_0000_0000 + (s[7] as int) * 0x100_0000_0000_0000
}

/// The 8-byte little-endian encoding of a 64-bit value.
pub open spec fn u64_le(x: u64) -> Seq<u8> {
    seq![
        ((x as int) % 0x100) as u8,
        (((x as int) / 0x100) % 0x100) as u8,
        (((x as int) / 0x1_0000) % 0x100) as u8,
        (((x as int) / 0x100_0000) % 0x100) as u8,
        (((x as int) / 0x1_0000_0000) % 0x100) as u8,
        (((x as int) / 0x100_0000_0000) % 0x100) as u8,
        (((x as int) / 0x1_0000_0000_0000) % 0x100) as u8,
        (((x as int) / 0x100_0000_0000_0000) % 0x100) as u8,
    ]
}

/// Decoding inverts encoding: an encoded 64-bit value reads back exactly.
pub proof fn lemma_le64_round_trip(x: u64)
    ensures
        u64_le(x).len() == 8,
        le64(u64_le(x)) == x,
{
    let n = x as int;
    lemma_fundamental_div_mod(n, 0x100);
    lemma_div_denominator(n, 0x100, 0x100);
    lemma_fundamental_div_mod(n / 0x100, 0x100);
    lemma_div_denominator(n, 0x1_0000, 0x100);
    lemma_fundamental_div_mod(n / 0x1_0000, 0x100);
    lemma_div_denominator(n, 0x100_0000, 0x100);
    lemma_fundamental_div_mod(n / 0x100_0000, 0x100);
    lemma_div_denominator(n, 0x1_0000_0000, 0x100);
    lemma_fundamental_div_mod(n / 0x1_0000_0000, 0x100);
    lemma_div_denominator(n, 0x100_0000_0000, 0x100);
    lemma_fundamental_div_mod(n / 0x100_0000_0000, 0x100);
    lemma_div_denominator(n, 0x1_0000_0000_0000, 0x100);
    lemma_fundamental_div_mod(n / 0x1_0000_0000_0000, 0x100);
    lemma_div_is_ordered(n, 0xffff_ffff_ffff_ffff, 0x100_0000_0000_0000);
    lemma_small_mod((n / 0x100_0000_0000_0000) as nat, 0x100);
}

/// Reads the 8-byte little-endian value at `off`.
pub fn read_u64_le(b: &Vec<u8>, off: usize) -> (r: u64)
    requires
        off + 8 <= b@.len(),
    ensures
        r == le64(b@.subrange(off as int, off as int + 8)),
{
    let l = b.len();
    proof {
        assert(off + 8 <= l);
    }
    let r: u64 = (b[off] as u64) + (b[off + 1] as u64) * 0x100 + (b[off + 2] as u64) * 0x1_0000 + (
    b[off + 3] as u64) * 0x100_0000 + (b[off + 4] as u64) * 0x1_0000_0000 + (b[off + 5] as u64)
        * 0x100_0000_0000 + (b[off + 6] as u64) * 0x1_0000_0000_0000 + (b[off + 7] as u64)
        * 0x100_0000_0000_0000;
    proof {
        let s = b@.subrange(off as int, off as int + 8);
        assert(s[0] == b@[off as int]);
        assert(s[1] == b@[off as int + 1]);
        assert(s[2] == b@[off as int + 2]);
        assert(s[3] == b@[off as int + 3]);
        assert(s[4] == b@[off as int + 4]);
        assert(s[5] == b@[off as int + 5]);
        assert(s[6] == b@[off as int + 6]);
        assert(s[7] == b@[off as int + 7]);
    }
    r
}

/// Appends the 8-byte little-endian encoding of `x`.
pub fn push_u64_le(out: &mut Vec<u8>, x: u64)
    ensures
        final(out)@ == old(out)@ + u64_le(x),
{
    out.push((x % 0x100) as u8);
    out.push(((x / 0x100) % 0x100) as u8);
    out.push(((x / 0x1_0000) % 0x100) as u8);
    out.push(((x / 0x100_0000) % 0x100) as u8);
    out.push(((x / 0x1_0000_0000) % 0x100) as u8);
    out.push(((x / 0x100_0000_0000) % 0x100) as u8);
    out.push(((x / 0x1_0000_0000_0000) % 0x100) as u8);
    out.push(((x / 0x100_0000_0000_0000) % 0x100) as u8);
    proof {
        assert(out@ =~= old(out)@ + u64_le(x));
    }
}

/// Appends a copy of `src`.
pub fn push_bytes(out: &mut Vec<u8>, src: &Vec<u8>)
    ensures
        final(out)@ == old(out)@ + src@,
{
    let mut i: usize = 0;
    while i < src.len()
        invariant
            i <= src@.len(),
            out@ == old(out)@ + src@.take(i as int),
        decreases src@.len() - i,
    {
        out.push(src[i]);
        proof {
            assert(old(out)@ + src@.take(i as int + 1) =~= (old(out)@ + src@.take(i as int)).push(
                src@[i as int],
            ));
        }
        i += 1;
    }
    proof {
        assert(old(out)@ + src@.take(src@.len() as int) =~= old(out)@ + src@);
    }
}

/// Copies `n` bytes starting at `off` into a fresh vector.
pub fn read_bytes(b: &Vec<u8>, off: usize, n: usize) -> (r: Vec<u8>)
    requires
        off + n <= b@.len(),
    ensures
        r@ == b@.subrange(off as int, off as int + n),
{
    let l = b.len();
    proof {
        assert(off + n <= l);
    }
    let mut r: Vec<u8> = Vec::new();
    let mut i: usize = 0;
    while i < n
        invariant
            i <= n,
            off + n <= b@.len(),
            b@.len() <= usize::MAX,
            r@ == b@.subrange(off as int, off as int + i),
        decreases n - i,
    {
        r.push(b[off + i]);
        proof {
            assert(b@.subrange(off as int, off as int + i + 1) =~= b@.subrange(
                off as int,
                off as int + i,
            ).push(b@[off as int + i]));
        }
        i += 1;
    }
    r
}

// ---------------------------------------------------------------------------
// The state encoding.
// ---------------------------------------------------------------------------

/// The byte encoding of one vote record: identifier, weight, reward.
pub open spec fn vote_bytes(v: VoteView) -> Seq<u8> {
    v.voter + u64_le(v.tokens_voted) + u64_le(v.reward)
}

/// The concatenation of a sequence of identifiers.
pub open spec fn cat_ids(ws: Seq<Seq<u8>>) -> Seq<u8>
    decreases ws.len(),
{
    if ws.len() == 0 {
        Seq::empty()
    } else {
        ws[0] + cat_ids(ws.drop_first())
    }
}

/// The concatenation of a sequence of encoded vote records.
pub open spec fn cat_votes(vs: Seq<VoteView>) -> Seq<u8>
    decreases vs.len(),
{
    if vs.len() == 0 {
        Seq::empty()
    } else {
        vote_bytes(vs[0]) + cat_votes(vs.drop_first())
    }
}

/// The byte encoding of the whole state: each section is preceded by its
/// 64-bit little-endian element count.
pub open spec fn state_bytes(v: StateView) -> Seq<u8> {
    u64_le(v.qualified_wallets.len() as u64) + cat_ids(v.qualified_wallets) + u64_le(
        v.votes.len() as u64,
    ) + cat_votes(v.votes)
}

pub proof fn lemma_cat_ids_len(ws: Seq<Seq<u8>>)
    requires
        forall|i: int| 0 <= i < ws.len() ==> (#[trigger] ws[i]).len() == WALLET_ID_LEN,
    ensures
        cat_ids(ws).len() == 32 * ws.len(),
    decreases ws.len(),
{
    if ws.len() > 0 {
        assert forall|i: int| 0 <= i < ws.drop_first().len() implies (#[trigger] ws.drop_first()[i]).len()
            == WALLET_ID_LEN by {
            assert(ws.drop_first()[i] == ws[i + 1]);
        }
        lemma_cat_ids_len(ws.drop_first());
    }
}

pub proof fn lemma_cat_votes_len(vs: Seq<VoteView>)
    requires
        forall|i: int| 0 <= i < vs.len() ==> (#[trigger] vs[i]).voter.len() == WALLET_ID_LEN,
    ensures
        cat_votes(vs).len() == 48 * vs.len(),
    decreases vs.len(),
{
    if vs.len() > 0 {
        assert forall|i: int| 0 <= i < vs.drop_first().len() implies (#[trigger] vs.drop_first()[i]).voter.len()
            == WALLET_ID_LEN by {
            assert(vs.drop_first()[i] == vs[i + 1]);
        }
        lemma_cat_votes_len(vs.drop_first());
    }
}

pub proof fn lemma_cat_ids_index(ws: Seq<Seq<u8>>, i: int)
    requires
        forall|j: int| 0 <= j < ws.len() ==> (#[trigger] ws[j]).len() == WALLET_ID_LEN,
        0 <= i < ws.len(),
    ensures
        cat_ids(ws).subrange(32 * i, 32 * i + 32) == ws[i],
    decreases i,
{
    lemma_cat_ids_len(ws);
    if i == 0 {
        assert(cat_ids(ws).subrange(0, 32) =~= ws[0]);
    } else {
        let rest = ws.drop_first();
        assert forall|j: int| 0 <= j < rest.len() implies (#[trigger] rest[j]).len()
            == WALLET_ID_LEN by {
            assert(rest[j] == ws[j + 1]);
        }
        lemma_cat_ids_len(rest);
        lemma_cat_ids_index(rest, i - 1);
        assert(cat_ids(ws).subrange(32 * i, 32 * i + 32) =~= cat_ids(rest).subrange(
            32 * (i - 1),
            32 * (i - 1) + 32,
        ));
        assert(rest[i - 1] == ws[i]);
    }
}

pub proof fn lemma_cat_votes_index(vs: Seq<VoteView>, i: int)
    requires
        forall|j: int| 0 <= j < vs.len() ==> (#[trigger] vs[j]).voter.len() == WALLET_ID_LEN,
        0 <= i < vs.len(),
    ensures
        cat_votes(vs).subrange(48 * i, 48 * i + 48) == vote_bytes(vs[i]),
    decreases i,
{
    lemma_cat_votes_len(vs);
    if i == 0 {
        assert(cat_votes(vs).subrange(0, 48) =~= vote_bytes(vs[0]));
    } else {
        let rest = vs.drop_first();
        assert forall|j: int| 0 <= j < rest.len() implies (#[trigger] rest[j]).voter.len()
            == WALLET_ID_LEN by {
            assert(rest[j] == vs[j + 1]);
        }
        lemma_cat_votes_len(rest);
        lemma_cat_votes_index(rest, i - 1);
        assert(cat_votes(vs).subrange(48 * i, 48 * i + 48) =~= cat_votes(rest).subrange(
            48 * (i - 1),
            48 * (i - 1) + 48,
        ));
        assert(rest[i - 1] == vs[i]);
    }
}

pub proof fn lemma_cat_ids_push(ws: Seq<Seq<u8>>, w: Seq<u8>)
    ensures
        cat_ids(ws.push(w)) == cat_ids(ws) + w,
    decreases ws.len(),
{
    if ws.len() == 0 {
        assert(cat_ids(ws) == Seq::<u8>::empty());
        assert(ws.push(w).drop_first() =~= ws);
        assert(ws.push(w)[0] == w);
        assert(cat_ids(ws.push(w)) == w + Seq::<u8>::empty());
        assert(w + Seq::<u8>::empty() =~= cat_ids(ws) + w);
    } else {
        assert(ws.push(w).drop_first() =~= ws.drop_first().push(w));
        lemma_cat_ids_push(ws.drop_first(), w);
        assert(ws.push(w)[0] == ws[0]);
        assert(cat_ids(ws.push(w)) == ws[0] + (cat_ids(ws.drop_first()) + w));
        assert(ws[0] + (cat_ids(ws.drop_first()) + w) =~= (ws[0] + cat_ids(ws.drop_first())) + w);
    }
}

pub proof fn lemma_cat_votes_push(vs: Seq<VoteView>, v: VoteView)
    ensures
        cat_votes(vs.push(v)) == cat_votes(vs) + vote_bytes(v),
    decreases vs.len(),
{
    if vs.len() == 0 {
        assert(cat_votes(vs) == Seq::<u8>::empty());
        assert(vs.push(v).drop_first() =~= vs);
        assert(vs.push(v)[0] == v);
        assert(cat_votes(vs.push(v)) == vote_bytes(v) + Seq::<u8>::empty());
        assert(vote_bytes(v) + Seq::<u8>::empty() =~= cat_votes(vs) + vote_bytes(v));
    } else {
        assert(vs.push(v).drop_first() =~= vs.drop_first().push(v));
        lemma_cat_votes_push(vs.drop_first(), v);
        assert(vs.push(v)[0] == vs[0]);
        assert(cat_votes(vs.push(v)) == vote_bytes(vs[0]) + (cat_votes(vs.drop_first())
            + vote_bytes(v)));
        assert(vote_bytes(vs[0]) + (cat_votes(vs.drop_first()) + vote_bytes(v)) =~= (vote_bytes(
            vs[0],
        ) + cat_votes(vs.drop_first())) + vote_bytes(v));
    }
}

/// The vote record that starts at `off`.
pub open spec fn parse_vote(b: Seq<u8>, off: int) -> VoteView {
    VoteView {
        voter: b.subrange(off, off + 32),
        tokens_voted: le64(b.subrange(off + 32, off + 40)) as u64,
        reward: le64(b.subrange(off + 40, off + 48)) as u64,
    }
}

/// The state a byte sequence denotes, or `None` where it denotes none: the
/// counts must be readable and the total length must match them exactly.
pub open spec fn parse_state(b: Seq<u8>) -> Option<StateView> {
    if b.len() < 16 {
        None
    } else {
        let n1 = le64(b.subrange(0, 8));
        if b.len() < 16 + 32 * n1 {
            None
        } else {
            let off = 8 + 32 * n1;
            let n2 = le64(b.subrange(off, off + 8));
            if b.len() != off + 8 + 48 * n2 {
                None
            } else {
                Some(
                    StateView {
                        qualified_wallets: Seq::new(
                            n1 as nat,
                            |i: int| b.subrange(8 + 32 * i, 40 + 32 * i),
                        ),
                        votes: Seq::new(n2 as nat, |i: int| parse_vote(b, off + 8 + 48 * i)),
                    },
                )
            }
        }
    }
}

/// Decoding inverts encoding: a state written by `state_bytes` parses back to
/// exactly the same state, with every wallet identity, every amount and the
/// order of the votes kept.
#[verifier::rlimit(100)]
pub proof fn lemma_state_round_trip(v: StateView)
    requires
        wf_state(v),
        v.qualified_wallets.len() < 0x1_0000_0000_0000_0000,
        v.votes.len() < 0x1_0000_0000_0000_0000,
    ensures
        parse_state(state_bytes(v)) == Some(v),
{
    let b = state_bytes(v);
    let n1: u64 = v.qualified_wallets.len() as u64;
    let n2: u64 = v.votes.len() as u64;
    lemma_le64_round_trip(n1);
    lemma_le64_round_trip(n2);
    lemma_cat_ids_len(v.qualified_wallets);
    lemma_cat_votes_len(v.votes);
    assert(b.len() == 16 + 32 * n1 + 48 * n2);
    assert(b.subrange(0, 8) =~= u64_le(n1));
    assert(le64(b.subrange(0, 8)) == n1);
    let off = 8 + 32 * (n1 as int);
    assert(b.subrange(off, off + 8) =~= u64_le(n2));
    assert(le64(b.subrange(off, off + 8)) == n2);
    let ids = Seq::new(n1 as nat, |i: int| b.subrange(8 + 32 * i, 40 + 32 * i));
    assert forall|i: int| 0 <= i < n1 implies ids[i] == v.qualified_wallets[i] by {
        lemma_cat_ids_index(v.qualified_wallets, i);
        assert(b.subrange(8 + 32 * i, 40 + 32 * i) =~= cat_ids(v.qualified_wallets).subrange(
            32 * i,
            32 * i + 32,
        ));
    }
    assert(ids =~~= v.qualified_wallets);
    let votes = Seq::new(n2 as nat, |i: int| parse_vote(b, off + 8 + 48 * i));
    assert forall|i: int| 0 <= i < n2 implies votes[i] == v.votes[i] by {
        lemma_cat_votes_index(v.votes, i);
        let vb = vote_bytes(v.votes[i]);
        let o = off + 8 + 48 * i;
        assert(b.subrange(o, o + 48) =~= cat_votes(v.votes).subrange(48 * i, 48 * i + 48));
        assert(b.subrange(o, o + 32) =~= vb.subrange(0, 32));
        assert(b.subrange(o + 32, o + 40) =~= vb.subrange(32, 40));
        assert(b.subrange(o + 40, o + 48) =~= vb.subrange(40, 48));
        assert(vb.subrange(0, 32) =~= v.votes[i].voter);
        assert(vb.subrange(32, 40) =~= u64_le(v.votes[i].tokens_voted));
        assert(vb.subrange(40, 48) =~= u64_le(v.votes[i].reward));
        lemma_le64_round_trip(v.votes[i].tokens_voted);
        lemma_le64_round_trip(v.votes[i].reward);
        assert(votes[i] =~= v.votes[i]);
    }
    assert(votes =~~= v.votes);
    assert(parse_state(b)->Some_0 =~~= v);
}

impl DAOState {
    /// Encodes the whole state into one buffer, ready to be written back in a
    /// single atomic store.
    pub fn serialize(&self) -> (r: Vec<u8>)
        ensures
            r@ == state_bytes(self@),
    {
        let mut out: Vec<u8> = Vec::new();
        let n1 = self.qualified_wallets.len();
        push_u64_le(&mut out, n1 as u64);
        let mut i: usize = 0;
        while i < self.qualified_wallets.len()
            invariant
                i <= self.qualified_wallets@.len(),
                n1 == self.qualified_wallets@.len(),
                out@ == u64_le(n1 as u64) + cat_ids(self@.qualified_wallets.take(i as int)),
            decreases self.qualified_wallets@.len() - i,
        {
            push_bytes(&mut out, &self.qualified_wallets[i].bytes);
            proof {
                let ids = self@.qualified_wallets;
                assert(ids.take(i + 1) =~= ids.take(i as int).push(ids[i as int]));
                lemma_cat_ids_push(ids.take(i as int), ids[i as int]);
                assert(out@ =~= u64_le(n1 as u64) + cat_ids(ids.take(i + 1)));
            }
            i += 1;
        }
        proof {
            assert(self@.qualified_wallets.take(self@.qualified_wallets.len() as int)
                =~= self@.qualified_wallets);
        }
        let n2 = self.votes.len();
        push_u64_le(&mut out, n2 as u64);
        let ghost header = u64_le(n1 as u64) + cat_ids(self@.qualified_wallets) + u64_le(n2 as u64);
        proof {
            assert(out@ =~= header + cat_votes(self@.votes.take(0)));
        }
        let mut i: usize = 0;
        while i < self.votes.len()
            invariant
                i <= self.votes@.len(),
                header == u64_le(n1 as u64) + cat_ids(self@.qualified_wallets) + u64_le(n2 as u64),
                out@ == header + cat_votes(self@.votes.take(i as int)),
            decreases self.votes@.len() - i,
        {
            push_bytes(&mut out, &self.votes[i].voter.bytes);
            push_u64_le(&mut out, self.votes[i].tokens_voted);
            push_u64_le(&mut out, self.votes[i].reward);
            proof {
                let vs = self@.votes;
                assert(vs.take(i + 1) =~= vs.take(i as int).push(vs[i as int]));
                lemma_cat_votes_push(vs.take(i as int), vs[i as int]);
                assert(out@ =~= header + cat_votes(vs.take(i + 1)));
            }
            i += 1;
        }
        proof {
            assert(self@.votes.take(self@.votes.len() as int) =~= self@.votes);
            assert(out@ =~= state_bytes(self@));
        }
        out
    }

    /// Decodes a state buffer. Returns the encoded state exactly when the
    /// buffer is a valid encoding, and `StateCorrupt` otherwise.
    pub fn deserialize(bytes: &Vec<u8>) -> (r: Result<DAOState, VoteError>)
        ensures
            r is Ok ==> parse_state(bytes@) == Some(r->Ok_0@) && r->Ok_0.wf(),
            r is Err ==> parse_state(bytes@) is None && r->Err_0 == VoteError::StateCorrupt,
    {
        let len = bytes.len();
        if len < 16 {
            return Err(VoteError::StateCorrupt);
        }
        let n1 = read_u64_le(bytes, 0);
        proof {
            lemma_fundamental_div_mod((len - 16) as int, 32);
        }
        if n1 > ((len - 16) / 32) as u64 {
            proof {
                assert(bytes@.len() < 16 + 32 * le64(bytes@.subrange(0, 8)));
            }
            return Err(VoteError::StateCorrupt);
        }
        let n1u = n1 as usize;
        let off = 8 + 32 * n1u;
        let n2 = read_u64_le(bytes, off);
        let rem = len - (off + 8);
        proof {
            lemma_fundamental_div_mod(rem as int, 48);
        }
        if rem % 48 != 0 || n2 != (rem / 48) as u64 {
            proof {
                assert(bytes@.len() != 8 + 32 * le64(bytes@.subrange(0, 8)) + 8 + 48 * le64(
                    bytes@.subrange(off as int, off as int + 8),
                ));
            }
            return Err(VoteError::StateCorrupt);
        }
        let n2u = n2 as usize;
        let mut wallets: Vec<WalletId> = Vec::new();
        let mut i: usize = 0;
        while i < n1u
            invariant
                i <= n1u,
                off == 8 + 32 * n1u,
                off + 8 <= bytes@.len(),
                wallets@.len() == i,
                forall|j: int|
                    0 <= j < i ==> (#[trigger] wallets@[j])@ == bytes@.subrange(
                        8 + 32 * j,
                        40 + 32 * j,
                    ),
            decreases n1u - i,
        {
            let id = read_bytes(bytes, 8 + 32 * i, 32);
            wallets.push(WalletId { bytes: id });
            i += 1;
        }
        let mut votes: Vec<Vote> = Vec::new();
        let mut i: usize = 0;
        while i < n2u
            invariant
                i <= n2u,
                off == 8 + 32 * n1u,
                bytes@.len() == off + 8 + 48 * n2u,
                bytes@.len() <= usize::MAX,
                votes@.len() == i,
                forall|j: int|
                    0 <= j < i ==> (#[trigger] votes@[j])@ == parse_vote(
                        bytes@,
                        off + 8 + 48 * j,
                    ),
            decreases n2u - i,
        {
            let base = off + 8 + 48 * i;
            let voter = read_bytes(bytes, base, 32);
            let tokens_voted = read_u64_le(bytes, base + 32);
            let reward = read_u64_le(bytes, base + 40);
            proof {
                let o = base as int;
                lemma_le64_bounds(bytes@.subrange(o + 32, o + 40));
                lemma_le64_bounds(bytes@.subrange(o + 40, o + 48));
            }
            votes.push(Vote { voter: WalletId { bytes: voter }, tokens_voted, reward });
            i += 1;
        }
        let state = DAOState { qualified_wallets: wallets, votes };
        proof {
            let spec_n1 = le64(bytes@.subrange(0, 8));
            let spec_off = 8 + 32 * spec_n1;
            let spec_n2 = le64(bytes@.subrange(spec_off, spec_off + 8));
            assert(spec_n1 == n1 && spec_off == off && spec_n2 == n2);
            assert(state@.qualified_wallets =~~= Seq::new(
                spec_n1 as nat,
                |i: int| bytes@.subrange(8 + 32 * i, 40 + 32 * i),
            ));
            assert(state@.votes =~~= Seq::new(
                spec_n2 as nat,
                |i: int| parse_vote(bytes@, spec_off + 8 + 48 * i),
            ));
            assert(parse_state(bytes@) == Some(state@));
        }
        Ok(state)
    }
}

/// An 8-byte sequence always denotes a value that fits in 64 bits.
pub proof fn lemma_le64_bounds(s: Seq<u8>)
    requires
        s.len() == 8,
    ensures
        0 <= le64(s) < 0x1_0000_0000_0000_0000,
{
}

} // verus!
