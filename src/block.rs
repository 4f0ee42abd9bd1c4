//! Block headers and the in-memory canonical chain built from them.
use crate::hash::{dsha256, dsha256_digest, Sha256dHash};
use vstd::prelude::*;

verus! {

/// Little-endian encoding of a 32-bit word.
pub open spec fn le32(x: u32) -> Seq<u8> {
    seq![
        (x % 256) as u8,
        ((x / 256) % 256) as u8,
        ((x / 65536) % 256) as u8,
        ((x / 16777216) % 256) as u8,
    ]
}

/// An 80-byte block header, field by field.
#[derive(Clone, Copy)]
pub struct BlockHeader {
    pub version: u32,
    pub prev_blockhash: Sha256dHash,
    pub merkle_root: Sha256dHash,
    pub time: u32,
    pub bits: u32,
    pub nonce: u32,
}

impl BlockHeader {
    /// Consensus serialization: the six fields in order, words little-endian.
    pub open spec fn spec_serialize(&self) -> Seq<u8> {
        le32(self.version) + self.prev_blockhash@ + self.merkle_root@ + le32(self.time) + le32(
            self.bits,
        ) + le32(self.nonce)
    }

    /// The block hash: double SHA-256 of the serialized header.
    pub open spec fn spec_hash(&self) -> Seq<u8> {
        dsha256(self.spec_serialize())
    }

    fn push_le32(out: &mut Vec<u8>, x: u32)
        ensures
            final(out)@ == old(out)@ + le32(x),
    {
        out.push((x % 256) as u8);
        out.push(((x / 256) % 256) as u8);
        out.push(((x / 65536) % 256) as u8);
        out.push(((x / 16777216) % 256) as u8);
        assert(final(out)@ =~= old(out)@ + le32(x));
    }

    fn push_hash(out: &mut Vec<u8>, h: &Sha256dHash)
        ensures
            final(out)@ == old(out)@ + h@,
    {
        let ghost start = out@;
        let mut i: usize = 0;
        while i < 32
            invariant
                i <= 32,
                h@.len() == 32,
                out@ == start + h@.subrange(0, i as int),
            decreases 32 - i,
        {
            out.push(h.bytes[i]);
            i = i + 1;
            assert(out@ =~= start + h@.subrange(0, i as int));
        }
        assert(h@.subrange(0, 32) =~= h@);
    }

    /// The 80 bytes of the header in consensus encoding.
    pub fn serialize(&self) -> (r: Vec<u8>)
        ensures
            r@ == self.spec_serialize(),
            r@.len() == 80,
    {
        let mut out: Vec<u8> = Vec::new();
        BlockHeader::push_le32(&mut out, self.version);
        BlockHeader::push_hash(&mut out, &self.prev_blockhash);
        BlockHeader::push_hash(&mut out, &self.merkle_root);
        BlockHeader::push_le32(&mut out, self.time);
        BlockHeader::push_le32(&mut out, self.bits);
        BlockHeader::push_le32(&mut out, self.nonce);
        assert(out@ =~= self.spec_serialize());
        out
    }

    /// The hash that identifies the block carrying this header.
    pub fn block_hash(&self) -> (r: Sha256dHash)
        ensures
            r@ == self.spec_hash(),
    {
        let bytes = self.serialize();
        dsha256_digest(bytes.as_slice())
    }
}

/// A header placed in the chain: its height, its hash and the header itself.
#[derive(Clone, Copy)]
pub struct HeaderEntry {
    height: usize,
    hash: Sha256dHash,
    header: BlockHeader,
}

impl HeaderEntry {
    pub closed spec fn spec_height(&self) -> nat {
        self.height as nat
    }

    pub open spec fn spec_hash(&self) -> Seq<u8> {
        self.spec_hash_value()@
    }

    pub closed spec fn spec_hash_value(&self) -> Sha256dHash {
        self.hash
    }

    pub closed spec fn spec_header(&self) -> BlockHeader {
        self.header
    }

    /// The stored hash is the hash of the stored header.
    pub open spec fn hash_ok(&self) -> bool {
        self.spec_hash() == self.spec_header().spec_hash()
    }

    pub fn hash(&self) -> (r: &Sha256dHash)
        ensures
            *r == self.spec_hash_value(),
            r@ == self.spec_hash(),
    {
        &self.hash
    }

    pub fn header(&self) -> (r: &BlockHeader)
        ensures
            *r == self.spec_header(),
    {
        &self.header
    }

    pub fn height(&self) -> (r: usize)
        ensures
            r == self.spec_height(),
    {
        self.height
    }
}

/// Entries whose hashes are correct, whose heights go up by one and whose
/// parent links point at the entry before.
pub open spec fn linked_segment(s: Seq<HeaderEntry>) -> bool {
    &&& forall|i: int| 0 <= i < s.len() ==> (#[trigger] s[i]).hash_ok()
    &&& forall|i: int|
        #![trigger s[i]]
        0 < i < s.len() ==> s[i].spec_height() == s[i - 1].spec_height() + 1
            && s[i].spec_header().prev_blockhash@ == s[i - 1].spec_hash()
}

/// Highest index of an entry with the given hash, or -1 when none has it.
pub open spec fn last_index_of(s: Seq<HeaderEntry>, h: Seq<u8>) -> int
    decreases s.len(),
{
    if s.len() == 0 {
        -1
    } else if s.last().spec_hash() == h {
        s.len() - 1
    } else {
        last_index_of(s.drop_last(), h)
    }
}

/// The index found lies in the sequence and holds the hash; no later one does.
pub proof fn lemma_last_index_of(s: Seq<HeaderEntry>, h: Seq<u8>)
    ensures
        -1 <= last_index_of(s, h) < s.len(),
        last_index_of(s, h) >= 0 ==> s[last_index_of(s, h)].spec_hash() == h,
        forall|j: int| last_index_of(s, h) < j < s.len() ==> (#[trigger] s[j]).spec_hash() != h,
    decreases s.len(),
{
    if s.len() > 0 && s.last().spec_hash() != h {
        lemma_last_index_of(s.drop_last(), h);
        assert forall|j: int| last_index_of(s, h) < j < s.len() implies (#[trigger] s[j]).spec_hash()
            != h by {
            if j < s.len() - 1 {
                assert(s[j] == s.drop_last()[j]);
            }
        }
    }
}

/// A run of new headers may hang off genesis or off a block in the chain.
pub open spec fn parent_known(s: Seq<HeaderEntry>, prev: Seq<u8>) -> bool {
    prev == Sha256dHash::spec_zero() || last_index_of(s, prev) >= 0
}

/// Each header names the one before it as its parent.
pub open spec fn headers_linked(h: Seq<BlockHeader>) -> bool {
    forall|i: int| #![trigger h[i]] 0 < i < h.len() ==> h[i].prev_blockhash@ == h[i - 1].spec_hash()
}

/// `r` is `new` labelled with hashes and with heights that continue `s`.
pub open spec fn labelled(s: Seq<HeaderEntry>, new: Seq<BlockHeader>, r: Seq<HeaderEntry>) -> bool {
    &&& r.len() == new.len()
    &&& linked_segment(r)
    &&& forall|i: int|
        #![trigger r[i]]
        0 <= i < r.len() ==> r[i].spec_header() == new[i] && r[i].spec_height() == start_height(
            s,
            new[0].prev_blockhash@,
        ) + i
}

/// Height given to the first of a run of new headers whose parent is `prev`.
pub open spec fn start_height(s: Seq<HeaderEntry>, prev: Seq<u8>) -> int {
    if prev == Sha256dHash::spec_zero() {
        0
    } else {
        last_index_of(s, prev) + 1
    }
}

/// Hash of the last entry, or the zero hash for an empty chain.
pub open spec fn tip_of(s: Seq<HeaderEntry>) -> Seq<u8> {
    if s.len() == 0 {
        Sha256dHash::spec_zero()
    } else {
        s.last().spec_hash()
    }
}

/// A chain from genesis: linked, and entry `i` has height `i`.
pub open spec fn chain_wf(s: Seq<HeaderEntry>) -> bool {
    &&& linked_segment(s)
    &&& forall|i: int| 0 <= i < s.len() ==> (#[trigger] s[i]).spec_height() == i
    &&& s.len() > 0 ==> s[0].spec_header().prev_blockhash@ == Sha256dHash::spec_zero()
}

/// The canonical chain: entry `i` is the block at height `i`. Lookups by
/// hash search the entries from the tip down, so the height of a hash is
/// always read from the chain itself; keys of 32-byte digests have no
/// hash-table model that contracts could rest on.
pub struct HeaderList {
    headers: Vec<HeaderEntry>,
    tip: Sha256dHash,
}

impl HeaderList {
    pub closed spec fn view(&self) -> Seq<HeaderEntry> {
        self.headers@
    }

    pub closed spec fn spec_tip(&self) -> Seq<u8> {
        self.tip@
    }

    /// The list starts at genesis, is linked throughout, and caches its tip.
    pub open spec fn wf(&self) -> bool {
        &&& chain_wf(self@)
        &&& self.spec_tip() == tip_of(self@)
    }

    pub fn empty() -> (r: HeaderList)
        ensures
            r.wf(),
            r@.len() == 0,
    {
        HeaderList { headers: Vec::new(), tip: Sha256dHash::zero() }
    }
}

impl HeaderList {
    /// The entry with the given hash; of several, the highest.
    pub fn header_by_blockhash(&self, blockhash: &Sha256dHash) -> (r: Option<&HeaderEntry>)
        ensures
            last_index_of(self@, blockhash@) < 0 ==> r is None,
            last_index_of(self@, blockhash@) >= 0 ==> r == Some(
                &self@[last_index_of(self@, blockhash@)],
            ),
    {
        let mut i: usize = self.headers.len();
        assert(self@.subrange(0, i as int) =~= self@);
        while i > 0
            invariant
                i <= self@.len(),
                last_index_of(self@, blockhash@) == last_index_of(
                    self@.subrange(0, i as int),
                    blockhash@,
                ),
            decreases i,
        {
            let ghost pre = self@.subrange(0, i as int);
            assert(pre.drop_last() =~= self@.subrange(0, i - 1));
            if self.headers[i - 1].hash.same_as(blockhash) {
                return Some(&self.headers[i - 1]);
            }
            i = i - 1;
        }
        assert(self@.subrange(0, 0).len() == 0);
        None
    }

    pub fn header_by_height(&self, height: usize) -> (r: Option<&HeaderEntry>)
        requires
            self.wf(),
        ensures
            height < self@.len() ==> r == Some(&self@[height as int]),
            height < self@.len() ==> r->0.spec_height() == height,
            height >= self@.len() ==> r is None,
    {
        self.headers.get(height)
    }

    pub fn len(&self) -> (r: usize)
        ensures
            r == self@.len(),
    {
        self.headers.len()
    }

    pub fn tip(&self) -> (r: &Sha256dHash)
        requires
            self.wf(),
        ensures
            r@ == tip_of(self@),
    {
        &self.tip
    }

    /// Labels a run of headers with their hashes and absolute heights. The
    /// first header's parent is the zero hash (genesis) or a known block.
    pub fn order(&self, new_headers: Vec<BlockHeader>) -> (r: Vec<HeaderEntry>)
        requires
            self.wf(),
            self@.len() + new_headers@.len() <= usize::MAX,
            headers_linked(new_headers@),
            new_headers@.len() > 0 ==> parent_known(self@, new_headers@[0].prev_blockhash@),
        ensures
            labelled(self@, new_headers@, r@),
    {
        let n = new_headers.len();
        if n == 0 {
            return Vec::new();
        }
        let prev = new_headers[0].prev_blockhash;
        let start: usize = if prev.is_zero() {
            0
        } else {
            match self.header_by_blockhash(&prev) {
                Some(e) => {
                    proof {
                        let k = last_index_of(self@, prev@);
                        lemma_last_index_of(self@, prev@);
                        assert(self@[k].spec_height() == k);
                    }
                    e.height + 1
                },
                None => {
                    return Vec::new();
                },
            }
        };
        let mut out: Vec<HeaderEntry> = Vec::new();
        let mut i: usize = 0;
        while i < n
            invariant
                n == new_headers@.len(),
                n > 0,
                i <= n,
                start == start_height(self@, new_headers@[0].prev_blockhash@),
                start + n <= usize::MAX,
                out@.len() == i,
                forall|i: int|
                    #![trigger new_headers@[i]]
                    0 < i < new_headers@.len() ==> new_headers@[i].prev_blockhash@
                        == new_headers@[i - 1].spec_hash(),
                linked_segment(out@),
                forall|j: int|
                    #![trigger out@[j]]
                    0 <= j < i ==> out@[j].spec_header() == new_headers@[j]
                        && out@[j].spec_height() == start + j,
            decreases n - i,
        {
            let header = new_headers[i];
            let hash = header.block_hash();
            out.push(HeaderEntry { height: start + i, hash, header });
            i = i + 1;
            assert(out@[i - 1].hash_ok());
        }
        out
    }
}

/// Whether a segment can replace the chain from its first height on: it is
/// linked, starts no higher than the chain's length, and its first parent is
/// the entry just below it (the zero hash at height 0).
pub open spec fn fits_at(s: Seq<HeaderEntry>, new: Seq<HeaderEntry>) -> bool {
    &&& linked_segment(new)
    &&& new.len() > 0 ==> {
        let k = new[0].spec_height() as int;
        &&& k <= s.len()
        &&& new[0].spec_header().prev_blockhash@ == (if k == 0 {
            Sha256dHash::spec_zero()
        } else {
            s[k - 1].spec_hash()
        })
    }
}

/// The chain after `new` has replaced everything from its first height on.
pub open spec fn applied(s: Seq<HeaderEntry>, new: Seq<HeaderEntry>) -> Seq<HeaderEntry> {
    if new.len() == 0 {
        s
    } else {
        s.subrange(0, new[0].spec_height() as int) + new
    }
}

impl HeaderList {
    /// Truncates the chain at the first new height and appends the new
    /// entries: the reorganisation step.
    pub fn apply(&mut self, new_headers: Vec<HeaderEntry>)
        requires
            old(self).wf(),
            fits_at(old(self)@, new_headers@),
        ensures
            final(self).wf(),
            final(self)@ == applied(old(self)@, new_headers@),
    {
        let n = new_headers.len();
        if n == 0 {
            return;
        }
        let k = new_headers[0].height;
        self.headers.truncate(k);
        let ghost base = self@;
        assert(base =~= old(self)@.subrange(0, k as int));
        let mut i: usize = 0;
        while i < n
            invariant
                n == new_headers@.len(),
                n > 0,
                base == old(self)@.subrange(0, k as int),
                self@ == base + new_headers@.subrange(0, i as int),
                i > 0 ==> self.spec_tip() == new_headers@[i - 1].spec_hash(),
                i <= n,
            decreases n - i,
        {
            let entry = new_headers[i];
            self.tip = entry.hash;
            self.headers.push(entry);
            i = i + 1;
            assert(self@ =~= base + new_headers@.subrange(0, i as int));
        }
        assert(new_headers@.subrange(0, n as int) =~= new_headers@);
        proof {
            lemma_applied_chain(old(self)@, new_headers@);
        }
    }
}

/// Replacing a chain's suffix by a segment that fits keeps it a chain.
pub proof fn lemma_applied_chain(s: Seq<HeaderEntry>, new: Seq<HeaderEntry>)
    requires
        chain_wf(s),
        fits_at(s, new),
        new.len() > 0,
    ensures
        chain_wf(applied(s, new)),
{
    let k = new[0].spec_height() as int;
    let t = applied(s, new);
    assert forall|j: int| 0 <= j < new.len() implies (#[trigger] new[j]).spec_height() == k + j by {
        lemma_segment_heights(new, j);
    }
    assert forall|j: int| 0 <= j < t.len() implies (#[trigger] t[j]).spec_height() == j && t[j].hash_ok() by {
        if j >= k {
            assert(t[j] == new[j - k]);
        } else {
            assert(t[j] == s[j]);
        }
    }
    assert forall|j: int|
        #![trigger t[j]]
        0 < j < t.len() implies t[j].spec_height() == t[j - 1].spec_height() + 1
        && t[j].spec_header().prev_blockhash@ == t[j - 1].spec_hash() by {
        if j > k {
            assert(t[j] == new[j - k]);
            assert(t[j - 1] == new[j - 1 - k]);
        } else if j == k {
            assert(t[j] == new[0]);
            assert(t[j - 1] == s[j - 1]);
        } else {
            assert(t[j] == s[j]);
            assert(t[j - 1] == s[j - 1]);
        }
    }
    if k == 0 {
        assert(t[0] == new[0]);
    } else {
        assert(t[0] == s[0]);
    }
}

/// Heights in a linked segment count up from its first entry.
pub proof fn lemma_segment_heights(s: Seq<HeaderEntry>, j: int)
    requires
        linked_segment(s),
        0 <= j < s.len(),
    ensures
        s[j].spec_height() == s[0].spec_height() + j,
    decreases j,
{
    if j > 0 {
        lemma_segment_heights(s, j - 1);
    }
}

impl BlockHeader {
    /// Field-by-field comparison.
    pub fn same_as(&self, other: &BlockHeader) -> (r: bool)
        ensures
            r == (*self == *other),
    {
        let r = self.version == other.version && self.prev_blockhash.same_as(&other.prev_blockhash)
            && self.merkle_root.same_as(&other.merkle_root) && self.time == other.time
            && self.bits == other.bits && self.nonce == other.nonce;
        proof {
            if self.prev_blockhash@ == other.prev_blockhash@ {
                assert(self.prev_blockhash.bytes =~= other.prev_blockhash.bytes);
            }
            if self.merkle_root@ == other.merkle_root@ {
                assert(self.merkle_root.bytes =~= other.merkle_root.bytes);
            }
        }
        r
    }
}

impl HeaderEntry {
    /// Field-by-field comparison.
    pub fn same_as(&self, other: &HeaderEntry) -> (r: bool)
        ensures
            r == (*self == *other),
    {
        let r = self.height == other.height && self.hash.same_as(&other.hash)
            && self.header.same_as(&other.header);
        proof {
            if self.hash@ == other.hash@ {
                assert(self.hash.bytes =~= other.hash.bytes);
            }
        }
        r
    }
}

/// Whether two chains end in the same entry (both empty counts as equal).
pub open spec fn same_last(a: Seq<HeaderEntry>, b: Seq<HeaderEntry>) -> bool {
    if a.len() == 0 || b.len() == 0 {
        a.len() == 0 && b.len() == 0
    } else {
        a.last() == b.last()
    }
}

impl HeaderList {
    pub fn equals(&self, other: &HeaderList) -> (r: bool)
        ensures
            r == same_last(self@, other@),
    {
        let a = self.headers.len();
        let b = other.headers.len();
        if a == 0 || b == 0 {
            a == 0 && b == 0
        } else {
            self.headers[a - 1].same_as(&other.headers[b - 1])
        }
    }

    /// The entries from genesis to the tip, in order.
    pub fn iter(&self) -> (r: std::slice::Iter<'_, HeaderEntry>)
        ensures
            vstd::std_specs::slice::into_iter_elts(r) == self@,
    {
        broadcast use vstd::std_specs::slice::axiom_spec_slice_iter;
        let r = self.headers.as_slice().iter();
        assert(vstd::std_specs::slice::into_iter_elts(r) =~= self@);
        r
    }
}

impl HeaderList {
    /// `order` with its preconditions tested: `None` when the headers are not
    /// linked one to the next, or when the first one's parent is unknown.
    pub fn checked_order(&self, new_headers: Vec<BlockHeader>) -> (r: Option<Vec<HeaderEntry>>)
        requires
            self.wf(),
            self@.len() + new_headers@.len() <= usize::MAX,
        ensures
            r is Some <==> headers_linked(new_headers@) && (new_headers@.len() > 0 ==> parent_known(
                self@,
                new_headers@[0].prev_blockhash@,
            )),
            r is Some ==> labelled(self@, new_headers@, r->0@),
    {
        let n = new_headers.len();
        let mut i: usize = 1;
        while i < n
            invariant
                n == new_headers@.len(),
                1 <= i,
                forall|j: int|
                    #![trigger new_headers@[j]]
                    0 < j < i && j < n ==> new_headers@[j].prev_blockhash@ == new_headers@[j
                        - 1].spec_hash(),
            decreases n - i,
        {
            let parent = new_headers[i - 1].block_hash();
            if !new_headers[i].prev_blockhash.same_as(&parent) {
                return None;
            }
            i = i + 1;
        }
        if n > 0 {
            let prev = new_headers[0].prev_blockhash;
            if !prev.is_zero() && self.header_by_blockhash(&prev).is_none() {
                return None;
            }
        }
        Some(self.order(new_headers))
    }
}

/// Adjacent entries of a chain are linked by hash and one height apart.
pub proof fn lemma_chain_contiguity(list: HeaderList, i: int)
    requires
        list.wf(),
        0 <= i,
        i + 1 < list@.len(),
    ensures
        list@[i + 1].spec_header().prev_blockhash@ == list@[i].spec_hash(),
        list@[i + 1].spec_height() == list@[i].spec_height() + 1,
{
    assert(list@[i + 1].spec_height() == list@[i + 1 - 1].spec_height() + 1);
}

/// After a segment starting at height `k` is applied, each height from `k` on
/// holds the new entry or nothing, and each height below `k` is untouched.
pub proof fn lemma_reorg_replaces(s: Seq<HeaderEntry>, new: Seq<HeaderEntry>, h: int)
    requires
        chain_wf(s),
        fits_at(s, new),
        new.len() > 0,
        0 <= h,
    ensures
        ({
            let k = new[0].spec_height() as int;
            let t = applied(s, new);
            &&& t.len() == k + new.len()
            &&& k <= h < t.len() ==> t[h] == new[h - k]
            &&& h < k ==> t[h] == s[h]
        }),
{
}

/// Applying again the segment that the chain already ends with changes nothing.
pub proof fn lemma_apply_idempotent(s: Seq<HeaderEntry>, new: Seq<HeaderEntry>)
    requires
        chain_wf(s),
        new.len() > 0,
        new[0].spec_height() <= s.len(),
        new == s.subrange(new[0].spec_height() as int, s.len() as int),
    ensures
        applied(s, new) == s,
{
    let k = new[0].spec_height() as int;
    assert(applied(s, new) =~= s);
}

/// Height, hash and time of a block.
#[derive(Clone, Copy)]
pub struct BlockId {
    pub height: usize,
    pub hash: Sha256dHash,
    pub time: u32,
}

impl<'a> From<&'a HeaderEntry> for BlockId {
    fn from(header: &'a HeaderEntry) -> BlockId {
        BlockId { height: header.height, hash: header.hash, time: header.header.time }
    }
}

impl<'a> vstd::std_specs::convert::FromSpecImpl<&'a HeaderEntry> for BlockId {
    open spec fn obeys_from_spec() -> bool {
        true
    }

    open spec fn from_spec(header: &'a HeaderEntry) -> BlockId {
        BlockId {
            height: header.spec_height() as usize,
            hash: header.spec_hash_value(),
            time: header.spec_header().time,
        }
    }
}

/// Where a block stands with respect to the best chain.
pub struct BlockStatus {
    pub in_best_chain: bool,
    pub height: Option<usize>,
    pub next_best: Option<Sha256dHash>,
}

impl BlockStatus {
    pub fn confirmed(height: usize, next_best: Option<Sha256dHash>) -> (r: BlockStatus)
        ensures
            r.in_best_chain,
            r.height == Some(height),
            r.next_best == next_best,
    {
        BlockStatus { in_best_chain: true, height: Some(height), next_best }
    }

    pub fn orphaned() -> (r: BlockStatus)
        ensures
            !r.in_best_chain,
            r.height is None,
            r.next_best is None,
    {
        BlockStatus { in_best_chain: false, height: None, next_best: None }
    }
}

/// The word whose little-endian encoding is `b[0..4]`.
pub open spec fn from_le32(b: Seq<u8>) -> u32 {
    (b[0] as int + 256 * b[1] as int + 65536 * b[2] as int + 16777216 * b[3] as int) as u32
}

/// `h` is the header whose consensus encoding is the 80 bytes `b`.
pub open spec fn decodes_to(b: Seq<u8>, h: BlockHeader) -> bool {
    &&& b.len() == 80
    &&& h.version == from_le32(b.subrange(0, 4))
    &&& h.prev_blockhash@ == b.subrange(4, 36)
    &&& h.merkle_root@ == b.subrange(36, 68)
    &&& h.time == from_le32(b.subrange(68, 72))
    &&& h.bits == from_le32(b.subrange(72, 76))
    &&& h.nonce == from_le32(b.subrange(76, 80))
}

/// Decoding a word's encoding gives the word back.
pub proof fn lemma_le32_round_trip(x: u32)
    ensures
        from_le32(le32(x)) == x,
{
    let b0 = x % 256;
    let b1 = (x / 256) % 256;
    let b2 = (x / 65536) % 256;
    let b3 = (x / 16777216) % 256;
    assert(b0 + 256 * b1 + 65536 * b2 + 16777216 * b3 == x) by (bit_vector)
        requires
            b0 == x % 256,
            b1 == (x / 256) % 256,
            b2 == (x / 65536) % 256,
            b3 == (x / 16777216) % 256,
    ;
}

fn read_le32(data: &[u8], offset: usize) -> (r: u32)
    requires
        offset + 4 <= data@.len(),
    ensures
        r == from_le32(data@.subrange(offset as int, offset + 4)),
{
    let r = data[offset] as u32 + 256 * (data[offset + 1] as u32) + 65536 * (data[offset + 2] as u32)
        + 16777216 * (data[offset + 3] as u32);
    let ghost w = data@.subrange(offset as int, offset + 4);
    assert(w[0] == data@[offset as int] && w[1] == data@[offset + 1] && w[2] == data@[offset + 2]
        && w[3] == data@[offset + 3]);
    r
}

impl BlockHeader {
    /// Reads a header from its 80-byte consensus encoding; `None` for any
    /// other length.
    pub fn deserialize(data: &[u8]) -> (r: Option<BlockHeader>)
        ensures
            r is Some <==> data@.len() == 80,
            r matches Some(h) ==> decodes_to(data@, h) && h.spec_serialize() == data@,
    {
        if data.len() != 80 {
            return None;
        }
        let h = BlockHeader {
            version: read_le32(data, 0),
            prev_blockhash: Sha256dHash::from_slice_at(data, 4),
            merkle_root: Sha256dHash::from_slice_at(data, 36),
            time: read_le32(data, 68),
            bits: read_le32(data, 72),
            nonce: read_le32(data, 76),
        };
        proof {
            lemma_header_bytes_round_trip(data@, h);
        }
        Some(h)
    }
}

/// Encoding the words decoded from 4 bytes gives the bytes back.
proof fn lemma_le32_bytes_round_trip(w: Seq<u8>)
    requires
        w.len() == 4,
    ensures
        le32(from_le32(w)) == w,
{
    let (a, b, c, d) = (w[0], w[1], w[2], w[3]);
    let x = from_le32(w);
    assert(x == (a as u32) + 256 * (b as u32) + 65536 * (c as u32) + 16777216 * (d as u32));
    assert(x % 256 == a as u32 && (x / 256) % 256 == b as u32 && (x / 65536) % 256 == c as u32
        && (x / 16777216) % 256 == d as u32) by (bit_vector)
        requires
            x == (a as u32) + 256 * (b as u32) + 65536 * (c as u32) + 16777216 * (d as u32),
    ;
    assert(le32(x) =~= w);
}

/// Encoding the header decoded from 80 bytes gives the bytes back.
proof fn lemma_header_bytes_round_trip(b: Seq<u8>, h: BlockHeader)
    requires
        decodes_to(b, h),
    ensures
        h.spec_serialize() == b,
{
    lemma_le32_bytes_round_trip(b.subrange(0, 4));
    lemma_le32_bytes_round_trip(b.subrange(68, 72));
    lemma_le32_bytes_round_trip(b.subrange(72, 76));
    lemma_le32_bytes_round_trip(b.subrange(76, 80));
    assert(h.spec_serialize() =~= b);
}

/// Decoding a header's encoding gives the header back: any header that the
/// 80 bytes decode to is the one they were made from.
pub proof fn lemma_header_round_trip(h: BlockHeader, g: BlockHeader)
    requires
        decodes_to(h.spec_serialize(), g),
    ensures
        g == h,
{
    let b = h.spec_serialize();
    lemma_le32_round_trip(h.version);
    lemma_le32_round_trip(h.time);
    lemma_le32_round_trip(h.bits);
    lemma_le32_round_trip(h.nonce);
    assert(b.subrange(0, 4) =~= le32(h.version));
    assert(b.subrange(4, 36) =~= h.prev_blockhash@);
    assert(b.subrange(36, 68) =~= h.merkle_root@);
    assert(b.subrange(68, 72) =~= le32(h.time));
    assert(b.subrange(72, 76) =~= le32(h.bits));
    assert(b.subrange(76, 80) =~= le32(h.nonce));
    assert(g.prev_blockhash.bytes =~= h.prev_blockhash.bytes);
    assert(g.merkle_root.bytes =~= h.merkle_root.bytes);
}

} // verus!
