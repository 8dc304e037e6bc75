//! Stable fingerprints of a node's model inventory.

use vstd::prelude::*;
use vstd::utf8::*;
use sha2::{Digest, Sha256};
use crate::text::{hex_char, hex_digit};
use vstd::relations::*;
use crate::order::{
    lex_le, bytes_le, insert_by, sort_by_insertion, lemma_sort_sorted, lemma_sort_multiset,
    lemma_sort_contains, lemma_sorted_unique, lemma_lex_total, lemma_lex_transitive,
    lemma_lex_antisymmetric, total_preorder,
};

verus! {

/// Model inventory entry used for fingerprinting.
#[derive(Debug, PartialEq, Eq)]
pub struct ModelInventoryEntry {
    pub name: String,
    pub digest: String,
    pub size: u64,
    pub modified_at: String,
}

impl Clone for ModelInventoryEntry {
    fn clone(&self) -> (r: Self)
        ensures
            r == *self,
    {
        ModelInventoryEntry {
            name: self.name.clone(),
            digest: self.digest.clone(),
            size: self.size,
            modified_at: self.modified_at.clone(),
        }
    }
}

/// The SHA-256 digest of a byte string.
pub uninterp spec fn sha256(data: Seq<u8>) -> Seq<u8>;

/// Hash `data` with `sha2::Sha256`.
#[verifier::external_body]
fn sha256_digest(data: &[u8]) -> (r: Vec<u8>)
    ensures
        r@ == sha256(data@),
        r@.len() == 32,
{
    Sha256::digest(data).to_vec()
}

/// Order of inventory entries: by name, in byte order.
pub open spec fn name_order() -> spec_fn(ModelInventoryEntry, ModelInventoryEntry) -> bool {
    |a: ModelInventoryEntry, b: ModelInventoryEntry| lex_le(
        encode_utf8(a.name@),
        encode_utf8(b.name@),
    )
}

/// The ASCII decimal digits of a number.
pub open spec fn decimal(n: nat) -> Seq<u8>
    decreases n,
{
    if n < 10 {
        seq![(48 + n) as u8]
    } else {
        decimal(n / 10).push((48 + n % 10) as u8)
    }
}

/// The bytes an entry contributes to the hashed payload:
/// `name|digest|size|modified_at;`.
pub open spec fn entry_bytes(e: ModelInventoryEntry) -> Seq<u8> {
    encode_utf8(e.name@) + seq![124u8] + encode_utf8(e.digest@) + seq![124u8] + decimal(
        e.size as nat,
    ) + seq![124u8] + encode_utf8(e.modified_at@) + seq![59u8]
}

/// The concatenated payload of a sequence of entries.
pub open spec fn payload(s: Seq<ModelInventoryEntry>) -> Seq<u8>
    decreases s.len(),
{
    if s.len() == 0 {
        Seq::empty()
    } else {
        payload(s.drop_last()) + entry_bytes(s.last())
    }
}

/// Lower-case hexadecimal text of a byte string, two digits per byte.
pub open spec fn hex(s: Seq<u8>) -> Seq<char>
    decreases s.len(),
{
    if s.len() == 0 {
        Seq::empty()
    } else {
        hex(s.drop_last()) + seq![hex_char(s.last() / 16), hex_char(s.last() % 16)]
    }
}

/// The fingerprint of an inventory: the hex SHA-256 of the payload of the
/// entries sorted (stably) by name.
pub open spec fn fingerprint_of(models: Seq<ModelInventoryEntry>) -> Seq<char> {
    hex(sha256(payload(sort_by_insertion(models, name_order()))))
}

/// Append bytes to a buffer.
fn push_bytes(out: &mut Vec<u8>, b: &[u8])
    ensures
        final(out)@ == old(out)@ + b@,
{
    let ghost start = out@;
    let mut i: usize = 0;
    while i < b.len()
        invariant
            0 <= i <= b@.len(),
            out@ == start + b@.take(i as int),
        decreases b@.len() - i,
    {
        out.push(b[i]);
        assert(b@.take(i + 1) =~= b@.take(i as int).push(b@[i as int]));
        i = i + 1;
    }
    assert(b@.take(b@.len() as int) =~= b@);
}

/// Append the decimal digits of `n`.
fn push_decimal(out: &mut Vec<u8>, n: u64)
    ensures
        final(out)@ == old(out)@ + decimal(n as nat),
    decreases n,
{
    if n >= 10 {
        push_decimal(out, n / 10);
    }
    let d: u8 = (n % 10) as u8;
    out.push(48 + d);
    assert(out@ =~= old(out)@ + decimal(n as nat));
}

/// Lower-case hexadecimal text of a byte string.
pub fn to_hex(bytes: &[u8]) -> (r: String)
    ensures
        r@ == hex(bytes@),
{
    let mut out = String::new();
    let mut i: usize = 0;
    while i < bytes.len()
        invariant
            0 <= i <= bytes@.len(),
            out@ == hex(bytes@.take(i as int)),
        decreases bytes@.len() - i,
    {
        let b = bytes[i];
        out.append(hex_digit(b / 16));
        out.append(hex_digit(b % 16));
        proof {
            let t = bytes@.take(i + 1);
            assert(t.drop_last() =~= bytes@.take(i as int));
        }
        i = i + 1;
    }
    assert(bytes@.take(bytes@.len() as int) =~= bytes@);
    out
}

/// Insert an entry behind every entry whose name is not greater.
fn insert_by_name(v: &mut Vec<ModelInventoryEntry>, x: ModelInventoryEntry)
    ensures
        final(v)@ == insert_by(old(v)@, x, name_order()),
{
    let ghost le = name_order();
    let ghost s = v@;
    let mut j: usize = v.len();
    assert(s.take(j as int) =~= s);
    assert(s.skip(j as int) =~= Seq::<ModelInventoryEntry>::empty());
    loop
        invariant
            v@ == s,
            le == name_order(),
            0 <= j <= s.len(),
            insert_by(s, x, le) == insert_by(s.take(j as int), x, le) + s.skip(j as int),
        ensures
            v@ == s,
            0 <= j <= s.len(),
            insert_by(s, x, le) == insert_by(s.take(j as int), x, le) + s.skip(j as int),
            j == 0 || le(s[j - 1], x),
        decreases j,
    {
        if j == 0 {
            break ;
        }
        let prev_le = bytes_le(v[j - 1].name.as_str().as_bytes(), x.name.as_str().as_bytes());
        if prev_le {
            break ;
        }
        proof {
            let t = s.take(j as int);
            assert(t.last() == s[j - 1]);
            assert(t.drop_last() =~= s.take(j - 1));
            assert(s.skip(j - 1) =~= seq![s[j - 1]] + s.skip(j as int));
            assert(insert_by(s.take(j - 1), x, le).push(s[j - 1]) + s.skip(j as int) =~= insert_by(
                s.take(j - 1),
                x,
                le,
            ) + s.skip(j - 1));
        }
        j = j - 1;
    }
    proof {
        let t = s.take(j as int);
        if j > 0 {
            assert(t.last() == s[j - 1]);
        }
    }
    v.insert(j, x);
    assert(v@ =~= insert_by(s.take(j as int), x, le) + s.skip(j as int));
}

/// Stable fingerprint for a node model inventory.
pub fn inventory_fingerprint(models: &[ModelInventoryEntry]) -> (r: String)
    ensures
        r@ == fingerprint_of(models@),
        r@.len() == 64,
{
    let ghost le = name_order();
    let mut sorted: Vec<ModelInventoryEntry> = Vec::new();
    let mut i: usize = 0;
    while i < models.len()
        invariant
            0 <= i <= models@.len(),
            le == name_order(),
            sorted@ == sort_by_insertion(models@.take(i as int), le),
        decreases models@.len() - i,
    {
        let x = models[i].clone();
        proof {
            let t = models@.take(i + 1);
            assert(t.drop_last() =~= models@.take(i as int));
        }
        insert_by_name(&mut sorted, x);
        i = i + 1;
    }
    assert(models@.take(models@.len() as int) =~= models@);
    let mut data: Vec<u8> = Vec::new();
    let mut k: usize = 0;
    while k < sorted.len()
        invariant
            0 <= k <= sorted@.len(),
            data@ == payload(sorted@.take(k as int)),
        decreases sorted@.len() - k,
    {
        let m = &sorted[k];
        let ghost before = data@;
        push_bytes(&mut data, m.name.as_str().as_bytes());
        data.push(124u8);
        push_bytes(&mut data, m.digest.as_str().as_bytes());
        data.push(124u8);
        push_decimal(&mut data, m.size);
        data.push(124u8);
        push_bytes(&mut data, m.modified_at.as_str().as_bytes());
        data.push(59u8);
        proof {
            let t = sorted@.take(k + 1);
            assert(t.drop_last() =~= sorted@.take(k as int));
            assert(data@ =~= before + entry_bytes(*m));
        }
        k = k + 1;
    }
    assert(sorted@.take(sorted@.len() as int) =~= sorted@);
    let digest = sha256_digest(data.as_slice());
    proof {
        lemma_hex_len(digest@);
    }
    to_hex(digest.as_slice())
}

/// Hex text has two characters per byte.
pub proof fn lemma_hex_len(s: Seq<u8>)
    ensures
        hex(s).len() == 2 * s.len(),
    decreases s.len(),
{
    if s.len() > 0 {
        lemma_hex_len(s.drop_last());
    }
}

} // verus!

verus! {

/// The fingerprint does not depend on the order in which a node reports its
/// models, as long as model names are distinct.
pub proof fn lemma_fingerprint_order_independent(
    a: Seq<ModelInventoryEntry>,
    b: Seq<ModelInventoryEntry>,
)
    requires
        a.to_multiset() == b.to_multiset(),
        forall|i: int, j: int| 0 <= i < j < a.len() ==> #[trigger] a[i].name@ != #[trigger] a[j].name@,
    ensures
        fingerprint_of(a) == fingerprint_of(b),
{
    let le = name_order();
    let sa = sort_by_insertion(a, le);
    let sb = sort_by_insertion(b, le);
    assert(total_preorder(le)) by {
        assert forall|x: ModelInventoryEntry, y: ModelInventoryEntry| #[trigger] le(x, y) || le(y, x) by {
            lemma_lex_total(encode_utf8(x.name@), encode_utf8(y.name@));
        }
        assert forall|x: ModelInventoryEntry, y: ModelInventoryEntry, z: ModelInventoryEntry|
            #[trigger] le(x, y) && #[trigger] le(y, z) implies le(x, z) by {
            lemma_lex_transitive(encode_utf8(x.name@), encode_utf8(y.name@), encode_utf8(z.name@));
        }
    }
    lemma_sort_sorted(a, le);
    lemma_sort_sorted(b, le);
    lemma_sort_multiset(a, le);
    lemma_sort_multiset(b, le);
    assert forall|x: ModelInventoryEntry| #[trigger] le(x, x) by {
        lemma_lex_total(encode_utf8(x.name@), encode_utf8(x.name@));
    }
    assert forall|x: ModelInventoryEntry, y: ModelInventoryEntry|
        sa.contains(x) && sa.contains(y) && #[trigger] le(x, y) && le(y, x) implies x == y by {
        lemma_lex_antisymmetric(encode_utf8(x.name@), encode_utf8(y.name@));
        encode_utf8_decode_utf8(x.name@);
        encode_utf8_decode_utf8(y.name@);
        lemma_sort_contains(a, le, x);
        lemma_sort_contains(a, le, y);
        let i = choose|i: int| 0 <= i < a.len() && a[i] == x;
        let j = choose|j: int| 0 <= j < a.len() && a[j] == y;
        if i < j {
            assert(a[i].name@ != a[j].name@);
        } else if j < i {
            assert(a[j].name@ != a[i].name@);
        }
    }
    lemma_sorted_unique(sa, sb, le);
}

/// The payload sees an entry's modification date: two entries that agree on
/// name, digest and size but not on the date contribute different bytes, so
/// a re-pulled model changes the fingerprint's input.
pub proof fn lemma_entry_bytes_sees_modified_at(a: ModelInventoryEntry, b: ModelInventoryEntry)
    requires
        a.name@ == b.name@,
        a.digest@ == b.digest@,
        a.size == b.size,
        a.modified_at@ != b.modified_at@,
    ensures
        entry_bytes(a) != entry_bytes(b),
{
    let p = encode_utf8(a.name@) + seq![124u8] + encode_utf8(a.digest@) + seq![124u8] + decimal(
        a.size as nat,
    ) + seq![124u8];
    let ea = encode_utf8(a.modified_at@);
    let eb = encode_utf8(b.modified_at@);
    let x = entry_bytes(a);
    let y = entry_bytes(b);
    assert(x =~= p + ea + seq![59u8]);
    assert(y =~= p + eb + seq![59u8]);
    if x == y {
        assert(ea.len() == eb.len());
        assert(ea =~= x.subrange(p.len() as int, (p.len() + ea.len()) as int));
        assert(eb =~= y.subrange(p.len() as int, (p.len() + eb.len()) as int));
        encode_utf8_decode_utf8(a.modified_at@);
        encode_utf8_decode_utf8(b.modified_at@);
    }
}

} // verus!
