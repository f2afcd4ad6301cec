//! Account identifiers: fixed-length public keys, ordered byte by byte.

use vstd::prelude::*;
use vstd::string::*;

verus! {

/// Number of bytes in an account identifier.
pub const ACCOUNT_ID_LENGTH: usize = 32;

/// Identifier of an account: the 32 bytes of its owner's public key.
#[derive(Clone, Copy, Debug, PartialEq, Eq, Hash)]
pub struct AccountId {
    /// The bytes of the key.
    pub bytes: [u8; 32],
}

/// Digest of a table: the 32 bytes that commit to all of its rows.
#[derive(Clone, Copy, Debug, PartialEq, Eq, Hash)]
pub struct Digest {
    /// The bytes of the digest.
    pub bytes: [u8; 32],
}

impl View for Digest {
    type V = Seq<u8>;

    open spec fn view(&self) -> Seq<u8> {
        self.bytes@
    }
}

impl Digest {
    /// Wraps the bytes of a digest.
    pub fn new(bytes: [u8; 32]) -> (digest: Digest)
        ensures
            digest.bytes == bytes,
    {
        Digest { bytes }
    }

    /// The bytes of the digest.
    pub fn as_bytes(&self) -> (bytes: &[u8; 32])
        ensures
            *bytes == self.bytes,
    {
        &self.bytes
    }
}

/// Where one identifier stands relative to another in the order of the table.
#[derive(Clone, Copy, Debug, PartialEq, Eq, Structural)]
pub enum Rank {
    /// It comes first.
    Before,
    /// The two are the same identifier.
    Same,
    /// It comes second.
    After,
}

/// The value of a hexadecimal digit, in either case, given as its ASCII
/// byte; `None` for any other byte.
pub open spec fn hex_digit_value(c: u8) -> Option<u8> {
    if 0x30 <= c <= 0x39 {
        Some((c - 0x30) as u8)
    } else if 0x41 <= c <= 0x46 {
        Some((c - 0x41 + 10) as u8)
    } else if 0x61 <= c <= 0x66 {
        Some((c - 0x61 + 10) as u8)
    } else {
        None
    }
}

/// Whether `hex` is the hexadecimal form of an account identifier: 64
/// hexadecimal digits.
pub open spec fn is_hex_of_key(hex: Seq<u8>) -> bool {
    hex.len() == 64 && forall|i: int| 0 <= i < 64 ==> hex_digit_value(#[trigger] hex[i]) is Some
}

/// The byte that the digits `2 * i` and `2 * i + 1` of `hex` stand for, the
/// high half first.
pub open spec fn hex_pair_value(hex: Seq<u8>, i: int) -> u8 {
    (16 * hex_digit_value(hex[2 * i]).unwrap() + hex_digit_value(hex[2 * i + 1]).unwrap()) as u8
}

/// The 32 bytes that the 64 digits of `hex` stand for.
pub open spec fn key_of_hex(hex: Seq<u8>) -> Seq<u8> {
    Seq::new(32, |i: int| hex_pair_value(hex, i))
}

/// The value of a hexadecimal digit given as its ASCII byte.
pub fn hex_digit(c: u8) -> (value: Option<u8>)
    ensures
        value == hex_digit_value(c),
        value matches Some(v) ==> v < 16,
{
    if 0x30 <= c && c <= 0x39 {
        Some(c - 0x30)
    } else if 0x41 <= c && c <= 0x46 {
        Some(c - 0x41 + 10)
    } else if 0x61 <= c && c <= 0x66 {
        Some(c - 0x61 + 10)
    } else {
        None
    }
}

/// Lexicographic order on byte sequences of equal length: `a` comes before
/// `b` when, at the first index where they differ, `a` holds the smaller byte.
pub open spec fn bytes_precede(a: Seq<u8>, b: Seq<u8>) -> bool {
    exists|i: int|
        0 <= i < a.len() && i < b.len() && #[trigger] a[i] < b[i] && a.subrange(0, i) == b.subrange(
            0,
            i,
        )
}

impl View for AccountId {
    type V = Seq<u8>;

    open spec fn view(&self) -> Seq<u8> {
        self.bytes@
    }
}

impl AccountId {
    /// The strict order in which a table of accounts is walked.
    pub open spec fn precedes(self, other: AccountId) -> bool {
        bytes_precede(self@, other@)
    }

    /// Wraps the bytes of a public key.
    pub fn new(bytes: [u8; 32]) -> (id: AccountId)
        ensures
            id.bytes == bytes,
            id@ == bytes@,
    {
        AccountId { bytes }
    }

    /// Reads an identifier from a slice, which must hold exactly 32 bytes.
    pub fn from_slice(bytes: &[u8]) -> (id: Option<AccountId>)
        ensures
            id is Some <==> bytes@.len() == ACCOUNT_ID_LENGTH,
            id matches Some(k) ==> k@ == bytes@,
    {
        if bytes.len() != ACCOUNT_ID_LENGTH {
            return None;
        }
        let mut out: [u8; 32] = [0u8; 32];
        let mut i: usize = 0;
        while i < 32
            invariant
                i <= 32,
                bytes@.len() == 32,
                forall|j: int| 0 <= j < i ==> out@[j] == bytes@[j],
            decreases 32 - i,
        {
            out[i] = bytes[i];
            i += 1;
        }
        assert(out@ =~= bytes@);
        Some(AccountId { bytes: out })
    }

    /// Reads the identifier that stands in `raw` from index `at` on.
    pub fn read_at(raw: &[u8], at: usize) -> (id: AccountId)
        requires
            at + 32 <= raw@.len(),
        ensures
            id@ == raw@.subrange(at as int, at + 32),
    {
        let length = raw.len();
        let mut out: [u8; 32] = [0u8; 32];
        let mut i: usize = 0;
        while i < 32
            invariant
                i <= 32,
                at + 32 <= raw@.len(),
                raw@.len() == length,
                forall|j: int| 0 <= j < i ==> out@[j] == raw@[at + j],
            decreases 32 - i,
        {
            out[i] = raw[at + i];
            i += 1;
        }
        assert(out@ =~= raw@.subrange(at as int, at + 32));
        AccountId { bytes: out }
    }

    /// Two identifiers of the same bytes are the same identifier.
    pub proof fn lemma_same_bytes_same_id(self, other: AccountId)
        requires
            self@ == other@,
        ensures
            self == other,
    {
        assert(self.bytes =~= other.bytes);
    }

    /// Reads an identifier from its hexadecimal form: 64 digits, of either
    /// case, two for each byte.
    pub fn from_hex(hex: &str) -> (id: Option<AccountId>)
        ensures
            id is Some <==> is_hex_of_key(hex.spec_bytes()),
            id matches Some(k) ==> k@ == key_of_hex(hex.spec_bytes()),
    {
        let digits = hex.as_bytes();
        if digits.len() != 64 {
            return None;
        }
        let mut out: [u8; 32] = [0u8; 32];
        let mut i: usize = 0;
        while i < 32
            invariant
                i <= 32,
                digits@.len() == 64,
                digits@ == hex.spec_bytes(),
                forall|j: int| 0 <= j < 2 * i ==> hex_digit_value(#[trigger] digits@[j]) is Some,
                forall|j: int| 0 <= j < i ==> #[trigger] out@[j] == hex_pair_value(digits@, j),
            decreases 32 - i,
        {
            let high = match hex_digit(digits[2 * i]) {
                Some(value) => value,
                None => {
                    return None;
                },
            };
            let low = match hex_digit(digits[2 * i + 1]) {
                Some(value) => value,
                None => {
                    return None;
                },
            };
            out[i] = 16 * high + low;
            i += 1;
        }
        assert(out@ =~= key_of_hex(hex.spec_bytes()));
        Some(AccountId { bytes: out })
    }

    /// The bytes of the key.
    pub fn as_bytes(&self) -> (bytes: &[u8; 32])
        ensures
            *bytes == self.bytes,
    {
        &self.bytes
    }

    /// Whether two identifiers name the same account.
    pub fn same(&self, other: &AccountId) -> (r: bool)
        ensures
            r == (*self == *other),
            r == (self@ == other@),
    {
        let mut i: usize = 0;
        while i < 32
            invariant
                i <= 32,
                forall|j: int| 0 <= j < i ==> self.bytes@[j] == other.bytes@[j],
            decreases 32 - i,
        {
            if self.bytes[i] != other.bytes[i] {
                return false;
            }
            i += 1;
        }
        assert(self.bytes@ =~= other.bytes@);
        assert(self.bytes =~= other.bytes);
        true
    }

    /// Where this identifier stands relative to `other`.
    pub fn rank(&self, other: &AccountId) -> (r: Rank)
        ensures
            r == Rank::Before <==> self.precedes(*other),
            r == Rank::Same <==> self@ == other@,
            r == Rank::After <==> other.precedes(*self),
    {
        let mut i: usize = 0;
        while i < 32
            invariant
                i <= 32,
                forall|j: int| 0 <= j < i ==> self.bytes@[j] == other.bytes@[j],
            decreases 32 - i,
        {
            if self.bytes[i] < other.bytes[i] {
                proof {
                    assert(self@.subrange(0, i as int) =~= other@.subrange(0, i as int));
                    lemma_first_difference(other@, self@, i as int);
                }
                return Rank::Before;
            }
            if self.bytes[i] > other.bytes[i] {
                proof {
                    assert(self@.subrange(0, i as int) =~= other@.subrange(0, i as int));
                    lemma_first_difference(self@, other@, i as int);
                }
                return Rank::After;
            }
            i += 1;
        }
        proof {
            assert(self@ =~= other@);
            lemma_precede_irreflexive(self@);
        }
        Rank::Same
    }

    /// Whether this identifier comes strictly before `other`.
    pub fn is_before(&self, other: &AccountId) -> (r: bool)
        ensures
            r == self.precedes(*other),
    {
        let mut i: usize = 0;
        while i < 32
            invariant
                i <= 32,
                forall|j: int| 0 <= j < i ==> self.bytes@[j] == other.bytes@[j],
            decreases 32 - i,
        {
            if self.bytes[i] < other.bytes[i] {
                assert(self@.subrange(0, i as int) =~= other@.subrange(0, i as int));
                return true;
            }
            if self.bytes[i] > other.bytes[i] {
                proof {
                    lemma_first_difference(self@, other@, i as int);
                }
                return false;
            }
            i += 1;
        }
        proof {
            assert(self@ =~= other@);
            lemma_precede_irreflexive(self@);
        }
        false
    }
}

/// Where `a` and `b` agree before index `i` and `a` holds the larger byte at
/// `i`, `a` does not precede `b`.
pub proof fn lemma_first_difference(a: Seq<u8>, b: Seq<u8>, i: int)
    requires
        0 <= i < a.len(),
        i < b.len(),
        a.subrange(0, i) =~= b.subrange(0, i),
        a[i] > b[i],
    ensures
        !bytes_precede(a, b),
{
    if bytes_precede(a, b) {
        let j = choose|j: int|
            0 <= j < a.len() && j < b.len() && #[trigger] a[j] < b[j] && a.subrange(0, j)
                == b.subrange(0, j);
        if j < i {
            assert(a.subrange(0, i)[j] == b.subrange(0, i)[j]);
        } else if j > i {
            assert(a.subrange(0, j)[i] == b.subrange(0, j)[i]);
        }
    }
}

/// The order is transitive.
pub proof fn lemma_precede_transitive(a: Seq<u8>, b: Seq<u8>, c: Seq<u8>)
    requires
        bytes_precede(a, b),
        bytes_precede(b, c),
    ensures
        bytes_precede(a, c),
{
    let i = choose|i: int|
        0 <= i < a.len() && i < b.len() && #[trigger] a[i] < b[i] && a.subrange(0, i)
            == b.subrange(0, i);
    let j = choose|j: int|
        0 <= j < b.len() && j < c.len() && #[trigger] b[j] < c[j] && b.subrange(0, j)
            == c.subrange(0, j);
    let m = if i <= j { i } else { j };
    assert forall|k: int| 0 <= k < m implies a[k] == c[k] by {
        assert(a.subrange(0, i)[k] == b.subrange(0, i)[k]);
        assert(b.subrange(0, j)[k] == c.subrange(0, j)[k]);
    }
    assert(a.subrange(0, m) =~= c.subrange(0, m));
    if i < j {
        assert(b.subrange(0, j)[i] == c.subrange(0, j)[i]);
    } else if j < i {
        assert(a.subrange(0, i)[j] == b.subrange(0, i)[j]);
    }
    assert(a[m] < c[m]);
}

/// No byte sequence precedes itself.
pub proof fn lemma_precede_irreflexive(a: Seq<u8>)
    ensures
        !bytes_precede(a, a),
{
}

/// Whether each key of `keys` precedes all that follow it.
pub open spec fn strictly_growing(keys: Seq<Seq<u8>>) -> bool {
    forall|i: int, j: int|
        0 <= i < j < keys.len() ==> bytes_precede(#[trigger] keys[i], #[trigger] keys[j])
}

/// A set of keys can be listed in strictly growing order in one way only.
pub proof fn lemma_growing_order_is_unique(a: Seq<Seq<u8>>, b: Seq<Seq<u8>>)
    requires
        strictly_growing(a),
        strictly_growing(b),
        forall|key: Seq<u8>| a.contains(key) <==> b.contains(key),
    ensures
        a == b,
    decreases a.len(),
{
    if a.len() == 0 {
        if b.len() > 0 {
            assert(b.contains(b[0]));
        }
        assert(a =~= b);
    } else {
        let a_end = a.len() - 1;
        assert(a.contains(a[a_end]));
        assert(b.contains(a[a_end]));
        let b_end = b.len() - 1;
        assert(b.contains(b[b_end]));
        assert(a.contains(b[b_end]));
        let j = choose|j: int| 0 <= j < b.len() && b[j] == a[a_end];
        let i = choose|i: int| 0 <= i < a.len() && a[i] == b[b_end];
        lemma_precede_irreflexive(a[a_end]);
        if j < b_end {
            assert(bytes_precede(b[j], b[b_end]));
            if i < a_end {
                assert(bytes_precede(a[i], a[a_end]));
                lemma_precede_transitive(a[a_end], a[i], a[a_end]);
            }
        }
        assert(a[a_end] == b[b_end]);
        let a_rest = a.drop_last();
        let b_rest = b.drop_last();
        assert forall|key: Seq<u8>| a_rest.contains(key) <==> b_rest.contains(key) by {
            lemma_precede_irreflexive(key);
            if a_rest.contains(key) {
                let m = choose|m: int| 0 <= m < a_rest.len() && a_rest[m] == key;
                assert(a[m] == key);
                assert(a.contains(key));
                let n = choose|n: int| 0 <= n < b.len() && b[n] == key;
                if n == b_end {
                    assert(bytes_precede(a[m], a[a_end]));
                }
                assert(b_rest[n] == key);
            }
            if b_rest.contains(key) {
                let m = choose|m: int| 0 <= m < b_rest.len() && b_rest[m] == key;
                assert(b[m] == key);
                assert(b.contains(key));
                let n = choose|n: int| 0 <= n < a.len() && a[n] == key;
                if n == a_end {
                    assert(bytes_precede(b[m], b[b_end]));
                }
                assert(a_rest[n] == key);
            }
        }
        assert(strictly_growing(a_rest)) by {
            assert forall|m: int, n: int| 0 <= m < n < a_rest.len() implies bytes_precede(
                #[trigger] a_rest[m],
                #[trigger] a_rest[n],
            ) by {
                assert(bytes_precede(a[m], a[n]));
            }
        }
        assert(strictly_growing(b_rest)) by {
            assert forall|m: int, n: int| 0 <= m < n < b_rest.len() implies bytes_precede(
                #[trigger] b_rest[m],
                #[trigger] b_rest[n],
            ) by {
                assert(bytes_precede(b[m], b[n]));
            }
        }
        lemma_growing_order_is_unique(a_rest, b_rest);
        assert(a =~= a_rest.push(a[a_end]));
        assert(b =~= b_rest.push(b[b_end]));
    }
}

} // verus!
