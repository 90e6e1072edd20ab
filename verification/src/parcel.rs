//! Ethereum relay header parcels: a header with the MMR root it is relayed
//! under, and the JSON form in which the shadow service hands them out.
use vstd::prelude::*;
use crate::encoding::{
    hash_from_hex, hash_of_text, hex_value, is_canonical_hash_text, is_hash_text,
    lemma_canonical_hash_text_round_trip, lemma_hash_text_round_trip, lemma_hex_char_value,
    pair_value, prefixed_hex, strip_0x, to_hex,
};

verus! {

broadcast use vstd::array::group_array_axioms;

/// An Ethereum block header, as far as the relay reads it: its block
/// number and its hash.
#[derive(Debug, Clone, Copy)]
pub struct EthereumHeader {
    /// Block number
    pub number: u64,
    /// Block hash, where known
    pub hash: Option<[u8; 32]>,
}

/// Ethereum EthereumRelayHeaderParcel
#[derive(Debug, Clone, Copy)]
pub struct EthereumRelayHeaderParcel {
    /// Ethereum header
    pub header: EthereumHeader,
    /// MMR root
    pub mmr_root: [u8; 32],
}

/// JSON form of an Ethereum header: hashes as hex text.
pub struct EthereumHeaderJson {
    /// Block number
    pub number: u64,
    /// Block hash in hex
    pub hash: String,
}

/// Ethereum EthereumRelayHeaderParcel JSON
pub struct EthereumRelayHeaderParcelJson {
    /// Ethereum header
    pub header: EthereumHeaderJson,
    /// MMR root in hex
    pub mmr_root: String,
}

/// Two parcels are the same when their header hashes and MMR roots agree.
pub open spec fn same_parcel(a: EthereumRelayHeaderParcel, b: EthereumRelayHeaderParcel) -> bool {
    a.header.hash == b.header.hash && a.mmr_root@ == b.mmr_root@
}

/// The bytes that a header's hash is written as: the hash, or zeros where
/// there is none.
pub open spec fn hash_bytes(hash: Option<[u8; 32]>) -> Seq<u8> {
    match hash {
        Some(h) => h@,
        None => Seq::new(32, |i: int| 0u8),
    }
}

/// `j` is the JSON form of the header `h`.
pub open spec fn is_json_of_header(j: EthereumHeaderJson, h: EthereumHeader) -> bool {
    j.number == h.number && j.hash@ == prefixed_hex(hash_bytes(h.hash))
}

/// `j` is the JSON form of the parcel `p`.
pub open spec fn is_json_of_parcel(j: EthereumRelayHeaderParcelJson, p: EthereumRelayHeaderParcel) -> bool {
    is_json_of_header(j.header, p.header) && j.mmr_root@ == prefixed_hex(p.mmr_root@)
}

/// The JSON header `j` can be read: its hash is the hex of 32 bytes.
pub open spec fn is_readable_header_json(j: EthereumHeaderJson) -> bool {
    is_hash_text(j.hash@)
}

/// The JSON parcel `j` can be read: its header hash and MMR root are the
/// hex of 32 bytes each.
pub open spec fn is_readable_parcel_json(j: EthereumRelayHeaderParcelJson) -> bool {
    is_readable_header_json(j.header) && is_hash_text(j.mmr_root@)
}

/// `h` is the header read from the JSON header `j`.
pub open spec fn is_header_of_json(h: EthereumHeader, j: EthereumHeaderJson) -> bool {
    &&& h.number == j.number
    &&& h.hash matches Some(a) && a@ == hash_of_text(j.hash@)
}

/// `p` is the parcel read from the JSON parcel `j`.
pub open spec fn is_parcel_of_json(p: EthereumRelayHeaderParcel, j: EthereumRelayHeaderParcelJson) -> bool {
    is_header_of_json(p.header, j.header) && p.mmr_root@ == hash_of_text(j.mmr_root@)
}

/// Whether two 32-byte arrays hold the same bytes.
fn bytes32_eq(a: &[u8; 32], b: &[u8; 32]) -> (r: bool)
    ensures
        r == (a@ == b@),
{
    for i in 0..32usize
        invariant
            forall|j: int| 0 <= j < i ==> a@[j] == b@[j],
    {
        if a[i] != b[i] {
            return false;
        }
    }
    assert(a@ =~= b@);
    true
}

/// Whether two optional 32-byte hashes are equal.
fn hash_eq(a: &Option<[u8; 32]>, b: &Option<[u8; 32]>) -> (r: bool)
    ensures
        r == (*a == *b),
{
    match (a, b) {
        (Some(x), Some(y)) => {
            let r = bytes32_eq(x, y);
            proof {
                if x@ == y@ {
                    assert(*x =~= *y);
                }
            }
            r
        },
        (None, None) => true,
        _ => false,
    }
}

impl EthereumHeader {
    /// Reads a header from its JSON form.
    pub fn from_json(that: EthereumHeaderJson) -> (h: EthereumHeader)
        requires
            is_readable_header_json(that),
        ensures
            is_header_of_json(h, that),
            h.number == that.number,
            h.hash matches Some(a) && a@ == hash_of_text(that.hash@),
    {
        EthereumHeader { number: that.number, hash: Some(hash_from_hex(that.hash.as_str())) }
    }
}

impl EthereumHeaderJson {
    /// The JSON form of a header; a header without a hash is written with
    /// the zero hash.
    pub fn from_header(that: EthereumHeader) -> (j: EthereumHeaderJson)
        ensures
            is_json_of_header(j, that),
            j.number == that.number,
            that.hash matches Some(a) ==> j.hash@ == prefixed_hex(a@),
            that.hash is None ==> j.hash@ == prefixed_hex(Seq::new(32, |i: int| 0u8)),
    {
        let hash: [u8; 32] = match that.hash {
            Some(h) => h,
            None => [0u8; 32],
        };
        assert(hash@ =~= hash_bytes(that.hash));
        EthereumHeaderJson { number: that.number, hash: to_hex(hash.as_slice()) }
    }
}

impl EthereumRelayHeaderParcel {
    /// Is same as another parcel
    pub fn is_same_as(&self, another: &EthereumRelayHeaderParcel) -> (r: bool)
        ensures
            r == same_parcel(*self, *another),
            r == (self.header.hash == another.header.hash && self.mmr_root@ == another.mmr_root@),
    {
        hash_eq(&self.header.hash, &another.header.hash) && bytes32_eq(&self.mmr_root, &another.mmr_root)
    }

    /// Reads a parcel from its JSON form.
    pub fn from_json(that: EthereumRelayHeaderParcelJson) -> (p: EthereumRelayHeaderParcel)
        requires
            is_readable_parcel_json(that),
        ensures
            is_parcel_of_json(p, that),
            p.mmr_root@ == hash_of_text(that.mmr_root@),
            p.header.hash matches Some(a) && a@ == hash_of_text(that.header.hash@),
    {
        let mmr_root = hash_from_hex(that.mmr_root.as_str());
        EthereumRelayHeaderParcel { header: EthereumHeader::from_json(that.header), mmr_root }
    }

    /// The parcel's text: the given text of its header, then the MMR root
    /// in `0x`-prefixed hex, labelled and right-aligned in a field of 19.
    pub fn to_display_string(&self, header_text: &str) -> (s: String)
        ensures
            s@ == header_text@ + "\n         mmr_root: "@ + prefixed_hex(self.mmr_root@),
    {
        let mut s = String::from_str(header_text);
        s.append("\n         mmr_root: ");
        let root = to_hex(self.mmr_root.as_slice());
        s.append(root.as_str());
        s
    }
}

impl EthereumRelayHeaderParcelJson {
    /// The JSON form of a parcel.
    pub fn from_parcel(that: EthereumRelayHeaderParcel) -> (j: EthereumRelayHeaderParcelJson)
        ensures
            is_json_of_parcel(j, that),
            j.mmr_root@ == prefixed_hex(that.mmr_root@),
            that.header.hash matches Some(a) ==> j.header.hash@ == prefixed_hex(a@),
    {
        let mmr_root = to_hex(that.mmr_root.as_slice());
        EthereumRelayHeaderParcelJson { header: EthereumHeaderJson::from_header(that.header), mmr_root }
    }
}

/// Two parcels are the same exactly when their header hashes are equal and
/// their MMR roots hold the same bytes; the block numbers do not matter.
pub proof fn same_parcel_compares_hash_and_root(a: EthereumRelayHeaderParcel, b: EthereumRelayHeaderParcel)
    ensures
        same_parcel(a, b) <==> (a.header.hash == b.header.hash && forall|k: int|
            0 <= k < 32 ==> a.mmr_root@[k] == b.mmr_root@[k]),
        a.header.hash != b.header.hash ==> !same_parcel(a, b),
{
    if forall|k: int| 0 <= k < 32 ==> a.mmr_root@[k] == b.mmr_root@[k] {
        assert(a.mmr_root@ =~= b.mmr_root@);
    }
}

/// `is_same_as` is an equivalence: every parcel is the same as itself.
pub proof fn same_parcel_reflexive(a: EthereumRelayHeaderParcel)
    ensures
        same_parcel(a, a),
{
}

/// `is_same_as` is an equivalence: it does not depend on the order.
pub proof fn same_parcel_symmetric(a: EthereumRelayHeaderParcel, b: EthereumRelayHeaderParcel)
    ensures
        same_parcel(a, b) == same_parcel(b, a),
{
}

/// `is_same_as` is an equivalence: it carries over from one parcel to the next.
pub proof fn same_parcel_transitive(
    a: EthereumRelayHeaderParcel,
    b: EthereumRelayHeaderParcel,
    c: EthereumRelayHeaderParcel,
)
    requires
        same_parcel(a, b),
        same_parcel(b, c),
    ensures
        same_parcel(a, c),
{
}

/// Every JSON form of a parcel can be read back, and reading it gives the
/// parcel again, where the parcel's header has a hash.
pub proof fn parcel_json_round_trip(
    p: EthereumRelayHeaderParcel,
    j: EthereumRelayHeaderParcelJson,
    q: EthereumRelayHeaderParcel,
)
    requires
        p.header.hash is Some,
        is_json_of_parcel(j, p),
        is_parcel_of_json(q, j),
    ensures
        is_readable_parcel_json(j),
        q == p,
{
    lemma_hash_text_round_trip(p.mmr_root@);
    lemma_hash_text_round_trip(hash_bytes(p.header.hash));
    let ph = p.header.hash->0;
    let qh = q.header.hash->0;
    assert(qh =~= ph);
    assert(q.mmr_root =~= p.mmr_root);
}

/// Every JSON form of a parcel holds its hashes in canonical text:
/// `0x` and 64 lowercase hex digits.
pub proof fn parcel_json_is_canonical(p: EthereumRelayHeaderParcel, j: EthereumRelayHeaderParcelJson)
    requires
        is_json_of_parcel(j, p),
    ensures
        is_canonical_hash_text(j.header.hash@),
        is_canonical_hash_text(j.mmr_root@),
{
    lemma_hash_text_round_trip(p.mmr_root@);
    lemma_hash_text_round_trip(hash_bytes(p.header.hash));
}

/// A JSON parcel whose hashes are in canonical text is read and written
/// back unchanged.
pub proof fn parcel_json_canonical_round_trip(
    j: EthereumRelayHeaderParcelJson,
    p: EthereumRelayHeaderParcel,
    k: EthereumRelayHeaderParcelJson,
)
    requires
        is_canonical_hash_text(j.header.hash@),
        is_canonical_hash_text(j.mmr_root@),
        is_parcel_of_json(p, j),
        is_json_of_parcel(k, p),
    ensures
        is_readable_parcel_json(j),
        k.header.number == j.header.number,
        k.header.hash@ == j.header.hash@,
        k.mmr_root@ == j.mmr_root@,
{
    lemma_canonical_hash_text_round_trip(j.header.hash@);
    lemma_canonical_hash_text_round_trip(j.mmr_root@);
}

/// The hex text of a hash holds its bytes in order: `0x`, then for the
/// `k`-th byte two digits, its high nibble then its low one.
pub proof fn hash_text_holds_bytes_in_order(text: Seq<char>, bytes: Seq<u8>)
    requires
        bytes.len() == 32,
        text == prefixed_hex(bytes),
    ensures
        text.len() == 66,
        text[0] == '0',
        text[1] == 'x',
        forall|k: int|
            0 <= k < 32 ==> hex_value(#[trigger] text[2 + 2 * k]) == Some(bytes[k] as int / 16)
                && hex_value(text[3 + 2 * k]) == Some(bytes[k] as int % 16),
{
    assert forall|k: int| 0 <= k < 32 implies hex_value(#[trigger] text[2 + 2 * k]) == Some(
        bytes[k] as int / 16,
    ) && hex_value(text[3 + 2 * k]) == Some(bytes[k] as int % 16) by {
        assert((2 * k) / 2 == k && (2 * k) % 2 == 0);
        assert((2 * k + 1) / 2 == k && (2 * k + 1) % 2 == 1);
        assert(text[2 + 2 * k] == crate::encoding::lower_hex(bytes)[2 * k]);
        assert(text[3 + 2 * k] == crate::encoding::lower_hex(bytes)[2 * k + 1]);
        lemma_hex_char_value(bytes[k] as int / 16);
        lemma_hex_char_value(bytes[k] as int % 16);
    }
}

/// The JSON of a header writes its hash bytes in order: the `k`-th byte is
/// the `k`-th pair of hex digits after `0x`; a header without a hash is
/// written as `0x` and zeros.
pub proof fn header_json_writes_hash_in_order(h: EthereumHeader, j: EthereumHeaderJson)
    requires
        is_json_of_header(j, h),
    ensures
        j.number == h.number,
        j.hash@.len() == 66,
        j.hash@[0] == '0',
        j.hash@[1] == 'x',
        h.hash matches Some(a) ==> forall|k: int|
            0 <= k < 32 ==> hex_value(#[trigger] j.hash@[2 + 2 * k]) == Some(a@[k] as int / 16)
                && hex_value(j.hash@[3 + 2 * k]) == Some(a@[k] as int % 16),
        h.hash is None ==> forall|k: int| 2 <= k < 66 ==> #[trigger] j.hash@[k] == '0',
{
    let bytes = hash_bytes(h.hash);
    hash_text_holds_bytes_in_order(j.hash@, bytes);
    if h.hash is None {
        assert forall|k: int| 2 <= k < 66 implies #[trigger] j.hash@[k] == '0' by {
            let i = k - 2;
            assert(bytes[i / 2] == 0u8);
            assert(j.hash@[k] == crate::encoding::lower_hex(bytes)[i]);
        }
    }
}

/// The JSON of a parcel writes its MMR root bytes in order.
pub proof fn parcel_json_writes_root_in_order(p: EthereumRelayHeaderParcel, j: EthereumRelayHeaderParcelJson)
    requires
        is_json_of_parcel(j, p),
    ensures
        j.mmr_root@.len() == 66,
        j.mmr_root@[0] == '0',
        j.mmr_root@[1] == 'x',
        forall|k: int|
            0 <= k < 32 ==> hex_value(#[trigger] j.mmr_root@[2 + 2 * k]) == Some(
                p.mmr_root@[k] as int / 16,
            ) && hex_value(j.mmr_root@[3 + 2 * k]) == Some(p.mmr_root@[k] as int % 16),
{
    hash_text_holds_bytes_in_order(j.mmr_root@, p.mmr_root@);
}

/// Reading a JSON header takes its hash bytes in order: the `k`-th byte is
/// the `k`-th two-character field after an optional `0x`.
pub proof fn header_json_reads_hash_in_order(h: EthereumHeader, j: EthereumHeaderJson)
    requires
        is_readable_header_json(j),
        is_header_of_json(h, j),
    ensures
        h.number == j.number,
        h.hash matches Some(a) && forall|k: int|
            0 <= k < 32 ==> pair_value(strip_0x(j.hash@)[2 * k], strip_0x(j.hash@)[2 * k + 1])
                == Some(#[trigger] a@[k]),
{
}

/// Reading a JSON parcel takes its MMR root bytes in order.
pub proof fn parcel_json_reads_root_in_order(p: EthereumRelayHeaderParcel, j: EthereumRelayHeaderParcelJson)
    requires
        is_readable_parcel_json(j),
        is_parcel_of_json(p, j),
    ensures
        forall|k: int|
            0 <= k < 32 ==> pair_value(strip_0x(j.mmr_root@)[2 * k], strip_0x(j.mmr_root@)[2 * k + 1])
                == Some(#[trigger] p.mmr_root@[k]),
{
}

} // verus!
