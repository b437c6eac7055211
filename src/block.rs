//! Blocks, their hashes, the genesis block and chain validation.

use byteorder::ByteOrder;
use crypto::digest::Digest;
use vstd::prelude::*;

verus! {

/// A 32-byte SHA-256 digest.
#[derive(Clone, Copy, Debug)]
pub struct Hash32Byte(pub [u8; 32]);

/// The fixed-size opaque payload of a block.
#[derive(Debug)]
pub struct BlockData(pub [u8; 1024]);

/// What a block holds, with its byte arrays seen as sequences.
pub struct BlockView {
    pub block_num: u64,
    pub previous_hash: Seq<u8>,
    pub timestamp: u64,
    pub data: Seq<u8>,
    pub hash: Seq<u8>,
}

/// One element of a chain. Its `hash` covers all the other fields.
#[derive(Debug)]
pub struct Block {
    pub block_num: u64,
    pub previous_hash: Hash32Byte,
    /// Nanoseconds.
    pub timestamp: u64,
    pub data: BlockData,
    pub hash: Hash32Byte,
}

impl View for Hash32Byte {
    type V = Seq<u8>;

    open spec fn view(&self) -> Seq<u8> {
        self.0@
    }
}

impl View for BlockData {
    type V = Seq<u8>;

    open spec fn view(&self) -> Seq<u8> {
        self.0@
    }
}

impl View for Block {
    type V = BlockView;

    open spec fn view(&self) -> BlockView {
        BlockView {
            block_num: self.block_num,
            previous_hash: self.previous_hash@,
            timestamp: self.timestamp,
            data: self.data@,
            hash: self.hash@,
        }
    }
}

/// The SHA-256 digest of a byte string.
pub uninterp spec fn sha256_of(msg: Seq<u8>) -> Seq<u8>;

/// The eight bytes of `n`, most significant first.
pub open spec fn be_bytes(n: u64) -> Seq<u8> {
    seq![
        (n >> 56u64) as u8,
        (n >> 48u64) as u8,
        (n >> 40u64) as u8,
        (n >> 32u64) as u8,
        (n >> 24u64) as u8,
        (n >> 16u64) as u8,
        (n >> 8u64) as u8,
        n as u8,
    ]
}

/// The bytes a block's hash is taken over: big-endian number, previous hash,
/// big-endian timestamp, payload.
pub open spec fn hash_input(block_num: u64, previous_hash: Seq<u8>, timestamp: u64, data: Seq<u8>) -> Seq<u8> {
    be_bytes(block_num) + previous_hash + be_bytes(timestamp) + data
}

/// The hash of a block with these fields.
pub open spec fn block_hash(block_num: u64, previous_hash: Seq<u8>, timestamp: u64, data: Seq<u8>) -> Seq<u8> {
    sha256_of(hash_input(block_num, previous_hash, timestamp, data))
}

/// A sequence of `n` zero bytes.
pub open spec fn zeros(n: nat) -> Seq<u8> {
    Seq::new(n, |i: int| 0u8)
}

/// The genesis block: number 0, zero previous hash, timestamp 0, zero payload.
pub open spec fn genesis_view() -> BlockView {
    BlockView {
        block_num: 0,
        previous_hash: zeros(32),
        timestamp: 0,
        data: zeros(1024),
        hash: block_hash(0, zeros(32), 0, zeros(1024)),
    }
}

/// The block that extends `parent` with `data`, stamped `timestamp`.
pub open spec fn child_view(parent: BlockView, data: Seq<u8>, timestamp: u64) -> BlockView {
    BlockView {
        block_num: (parent.block_num + 1) as u64,
        previous_hash: parent.hash,
        timestamp,
        data,
        hash: block_hash((parent.block_num + 1) as u64, parent.hash, timestamp, data),
    }
}

/// `next` may follow `prev` in a chain.
pub open spec fn links(prev: BlockView, next: BlockView) -> bool {
    &&& next.previous_hash == prev.hash
    &&& next.block_num == prev.block_num + 1
}

/// A chain is valid when it is empty, or starts with the genesis block and
/// every later block links to the one before it.
pub open spec fn valid_chain(chain: Seq<Block>) -> bool {
    chain.len() > 0 ==> {
        &&& chain[0]@ == genesis_view()
        &&& forall|i: int| 1 <= i < chain.len() ==> links(#[trigger] chain[i - 1]@, chain[i]@)
    }
}

/// Relies on rust-crypto's `Sha256` (`new`, `input`, `result`): the SHA-256
/// digest of `msg`, which depends on `msg` alone.
#[verifier::external_body]
fn sha256(msg: &[u8]) -> (r: [u8; 32])
    ensures
        r@ == sha256_of(msg@),
{
    let mut sha = crypto::sha2::Sha256::new();
    sha.input(msg);
    let mut out = [0u8; 32];
    sha.result(&mut out);
    out
}

/// Relies on byteorder's `BigEndian::write_u64`: the eight bytes of `n`,
/// most significant first.
#[verifier::external_body]
pub(crate) fn be_u64_bytes(n: u64) -> (r: [u8; 8])
    ensures
        r@ == be_bytes(n),
{
    let mut buf = [0u8; 8];
    byteorder::BigEndian::write_u64(&mut buf, n);
    buf
}

/// Relies on time's `get_time`: the wall-clock time as seconds since the
/// Unix epoch and nanoseconds within the second. Nothing is known of the
/// seconds; `Timespec::new`, which builds the result, asserts the range of
/// the nanoseconds.
#[verifier::external_body]
fn wall_clock() -> (r: (i64, i32))
    ensures
        0 <= r.1 < 1_000_000_000,
{
    let t = time::get_time();
    (t.sec, t.nsec)
}

/// The nanoseconds since the Unix epoch of a time given as seconds and
/// nanoseconds within the second, held to the range of `u64`.
pub open spec fn timestamp_of(sec: i64, nsec: i32) -> int {
    let t = sec * 1_000_000_000 + nsec;
    if t < 0 {
        0
    } else if t > u64::MAX {
        u64::MAX as int
    } else {
        t
    }
}

/// A time given as seconds since the Unix epoch and nanoseconds within the
/// second, as nanoseconds since the epoch; times before the epoch give 0 and
/// times past the range of `u64` give `u64::MAX`.
pub fn timestamp_from_parts(sec: i64, nsec: i32) -> (r: u64)
    requires
        0 <= nsec < 1_000_000_000,
    ensures
        r == timestamp_of(sec, nsec),
{
    if sec < 0 {
        return 0;
    }
    let s = sec as u64;
    let n = nsec as u64;
    if s > (u64::MAX - n) / 1_000_000_000 {
        assert(s * 1_000_000_000 + n > u64::MAX) by (nonlinear_arith)
            requires s > (u64::MAX - n) / 1_000_000_000, n < 1_000_000_000;
        return u64::MAX;
    }
    assert(s * 1_000_000_000 + n <= u64::MAX) by (nonlinear_arith)
        requires s <= (u64::MAX - n) / 1_000_000_000, n < 1_000_000_000;
    s * 1_000_000_000 + n
}


/// Compares two byte arrays of the same length.
fn bytes_equal(a: &[u8], b: &[u8]) -> (r: bool)
    requires
        a@.len() == b@.len(),
    ensures
        r == (a@ == b@),
{
    let mut i: usize = 0;
    while i < a.len()
        invariant
            a@.len() == b@.len(),
            0 <= i <= a@.len(),
            a@.subrange(0, i as int) == b@.subrange(0, i as int),
        decreases a@.len() - i,
    {
        if a[i] != b[i] {
            assert(a@[i as int] != b@[i as int]);
            return false;
        }
        assert(a@.subrange(0, i + 1) =~= a@.subrange(0, i as int).push(a@[i as int]));
        assert(b@.subrange(0, i + 1) =~= b@.subrange(0, i as int).push(b@[i as int]));
        i = i + 1;
    }
    assert(a@ =~= a@.subrange(0, i as int));
    assert(b@ =~= b@.subrange(0, i as int));
    true
}

impl PartialEq for Hash32Byte {
    fn eq(&self, other: &Hash32Byte) -> (r: bool) {
        bytes_equal(self.0.as_slice(), other.0.as_slice())
    }
}

impl vstd::std_specs::cmp::PartialEqSpecImpl for Hash32Byte {
    open spec fn obeys_eq_spec() -> bool {
        true
    }

    open spec fn eq_spec(&self, other: &Hash32Byte) -> bool {
        self@ == other@
    }
}

impl Eq for Hash32Byte {}

impl PartialEq for BlockData {
    fn eq(&self, other: &BlockData) -> (r: bool) {
        bytes_equal(self.0.as_slice(), other.0.as_slice())
    }
}

impl vstd::std_specs::cmp::PartialEqSpecImpl for BlockData {
    open spec fn obeys_eq_spec() -> bool {
        true
    }

    open spec fn eq_spec(&self, other: &BlockData) -> bool {
        self@ == other@
    }
}

impl Eq for BlockData {}

impl Clone for BlockData {
    fn clone(&self) -> (r: BlockData)
        ensures
            r == *self,
    {
        BlockData(self.0)
    }
}

impl PartialEq for Block {
    fn eq(&self, other: &Block) -> (r: bool) {
        let same = self.block_num == other.block_num && self.timestamp == other.timestamp
            && self.previous_hash == other.previous_hash && self.hash == other.hash
            && self.data == other.data;
        proof {
            if same {
                assert(self@ =~= other@);
            }
        }
        same
    }
}

impl vstd::std_specs::cmp::PartialEqSpecImpl for Block {
    open spec fn obeys_eq_spec() -> bool {
        true
    }

    open spec fn eq_spec(&self, other: &Block) -> bool {
        self@ == other@
    }
}

impl Eq for Block {}

impl Clone for Block {
    fn clone(&self) -> (r: Block)
        ensures
            r == *self,
    {
        Block {
            block_num: self.block_num,
            previous_hash: self.previous_hash,
            timestamp: self.timestamp,
            data: self.data.clone(),
            hash: self.hash,
        }
    }
}

/// Appends `bytes` to `buf`.
fn append_bytes(buf: &mut Vec<u8>, bytes: &[u8])
    ensures
        final(buf)@ == old(buf)@ + bytes@,
{
    let mut i: usize = 0;
    while i < bytes.len()
        invariant
            0 <= i <= bytes@.len(),
            buf@ == old(buf)@ + bytes@.subrange(0, i as int),
        decreases bytes@.len() - i,
    {
        buf.push(bytes[i]);
        assert(bytes@.subrange(0, i + 1) =~= bytes@.subrange(0, i as int).push(bytes@[i as int]));
        i = i + 1;
    }
    assert(bytes@.subrange(0, i as int) =~= bytes@);
}

/// The hash of a block with these fields.
fn make_hash(block_num: u64, previous_hash: Hash32Byte, timestamp: u64, data: &[u8; 1024]) -> (r: Hash32Byte)
    ensures
        r@ == block_hash(block_num, previous_hash@, timestamp, data@),
{
    let mut msg: Vec<u8> = Vec::new();
    append_bytes(&mut msg, be_u64_bytes(block_num).as_slice());
    append_bytes(&mut msg, previous_hash.0.as_slice());
    append_bytes(&mut msg, be_u64_bytes(timestamp).as_slice());
    append_bytes(&mut msg, data.as_slice());
    Hash32Byte(sha256(msg.as_slice()))
}

impl Block {
    /// Mints the block that follows `past_block`, carrying `data` and stamped
    /// with the current wall-clock time in nanoseconds since the Unix epoch.
    pub fn new(past_block: &Block, data: [u8; 1024]) -> (r: Block)
        requires
            past_block.block_num < u64::MAX,
        ensures
            r@ == child_view(past_block@, data@, r.timestamp),
            links(past_block@, r@),
    {
        let (sec, nsec) = wall_clock();
        let ts = timestamp_from_parts(sec, nsec);
        Block::with_timestamp(past_block, data, ts)
    }

    /// The block that follows `past_block`, carrying `data`, stamped `timestamp`.
    pub fn with_timestamp(past_block: &Block, data: [u8; 1024], timestamp: u64) -> (r: Block)
        requires
            past_block.block_num < u64::MAX,
        ensures
            r@ == child_view(past_block@, data@, timestamp),
            links(past_block@, r@),
    {
        let block_num = past_block.block_num + 1;
        Block {
            block_num,
            previous_hash: past_block.hash,
            timestamp,
            data: BlockData(data),
            hash: make_hash(block_num, past_block.hash, timestamp, &data),
        }
    }

    /// The genesis block, the same on every call and every node.
    pub fn genesis() -> (r: Block)
        ensures
            r@ == genesis_view(),
    {
        let zero_hash = Hash32Byte([0u8; 32]);
        let zero_data = [0u8; 1024];
        let r = Block {
            block_num: 0,
            previous_hash: zero_hash,
            timestamp: 0,
            data: BlockData(zero_data),
            hash: make_hash(0, zero_hash, 0, &zero_data),
        };
        assert(r.previous_hash@ =~= zeros(32));
        assert(r.data@ =~= zeros(1024));
        r
    }
}

/// Tells whether `chain` is empty, or starts with the genesis block and has
/// every later block link to the one before it.
pub fn check_chain(chain: &[Block]) -> (r: bool)
    ensures
        r == valid_chain(chain@),
{
    if chain.len() == 0 {
        return true;
    }
    if chain[0] != Block::genesis() {
        return false;
    }
    let mut i: usize = 1;
    while i < chain.len()
        invariant
            1 <= i <= chain@.len(),
            forall|j: int| 1 <= j < i ==> links(#[trigger] chain@[j - 1]@, chain@[j]@),
        decreases chain@.len() - i,
    {
        let prev = &chain[i - 1];
        let next = &chain[i];
        if !(next.previous_hash == prev.hash && prev.block_num < u64::MAX
            && next.block_num == prev.block_num + 1) {
            assert(!links(chain@[i - 1]@, chain@[i as int]@));
            return false;
        }
        i = i + 1;
    }
    true
}


/// Appending a block that links to the tip of a valid, non-empty chain
/// keeps the chain valid.
pub proof fn lemma_extend_valid(chain: Seq<Block>, b: Block)
    requires
        valid_chain(chain),
        chain.len() > 0,
        links(chain.last()@, b@),
    ensures
        valid_chain(chain.push(b)),
{
    let c = chain.push(b);
    assert forall|i: int| 1 <= i < c.len() implies links(#[trigger] c[i - 1]@, c[i]@) by {
        if i < chain.len() {
            assert(c[i - 1] == chain[i - 1] && c[i] == chain[i]);
        } else {
            assert(c[i - 1] == chain.last() && c[i] == b);
        }
    }
}

/// A chain whose first block is not the genesis block is invalid, and so is
/// one with a block that does not link to the block before it.
pub proof fn lemma_invalid_chains(chain: Seq<Block>, i: int)
    ensures
        chain.len() > 0 && chain[0]@ != genesis_view() ==> !valid_chain(chain),
        1 <= i < chain.len() && !links(chain[i - 1]@, chain[i]@) ==> !valid_chain(chain),
{
}

} // verus!
