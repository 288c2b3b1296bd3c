//! Comparing texts and byte strings, and putting byte strings together.
use vstd::prelude::*;
use vstd::string::*;
use vstd::utf8::*;

verus! {

/// How one byte string stands to another in lexicographic order.
#[derive(Clone, Copy, Debug, PartialEq, Eq, Structural)]
pub enum Rank {
    Before,
    Same,
    After,
}

/// Lexicographic order on the bytes from position `from` on, given that the
/// two strings agree before it.
pub open spec fn precedes_from(a: Seq<u8>, b: Seq<u8>, from: int) -> bool
    decreases a.len() - from,
{
    if from >= b.len() {
        false
    } else if from >= a.len() {
        true
    } else if a[from] != b[from] {
        a[from] < b[from]
    } else {
        precedes_from(a, b, from + 1)
    }
}

/// Strict lexicographic order on byte strings.
pub open spec fn precedes(a: Seq<u8>, b: Seq<u8>) -> bool {
    precedes_from(a, b, 0)
}

/// Strict order on texts: that of their UTF-8 bytes.
pub open spec fn text_precedes(a: Seq<char>, b: Seq<char>) -> bool {
    precedes(encode_utf8(a), encode_utf8(b))
}

/// Whether a text begins with `count` characters `'0'`.
pub open spec fn has_zero_prefix(text: Seq<char>, count: nat) -> bool {
    &&& text.len() >= count
    &&& forall|i: int| 0 <= i < count ==> text[i] == '0'
}

pub proof fn lemma_precedes_from_transitive(a: Seq<u8>, b: Seq<u8>, c: Seq<u8>, from: int)
    requires
        0 <= from,
        precedes_from(a, b, from),
        precedes_from(b, c, from),
    ensures
        precedes_from(a, c, from),
    decreases a.len() - from,
{
    if from < a.len() && a[from] == b[from] && b[from] == c[from] {
        lemma_precedes_from_transitive(a, b, c, from + 1);
    }
}

pub proof fn lemma_precedes_from_irreflexive(a: Seq<u8>, from: int)
    requires
        0 <= from,
    ensures
        !precedes_from(a, a, from),
    decreases a.len() - from,
{
    if from < a.len() {
        lemma_precedes_from_irreflexive(a, from + 1);
    }
}

/// Byte strings that agree before `from` are the same, or one precedes the
/// other from there on.
pub proof fn lemma_precedes_total(a: Seq<u8>, b: Seq<u8>, from: int)
    requires
        0 <= from,
        from <= a.len(),
        from <= b.len(),
        forall|k: int| 0 <= k < from ==> a[k] == b[k],
    ensures
        a == b || precedes_from(a, b, from) || precedes_from(b, a, from),
    decreases a.len() - from,
{
    if from < a.len() && from < b.len() {
        if a[from] == b[from] {
            lemma_precedes_total(a, b, from + 1);
        }
    } else if from == a.len() && from == b.len() {
        assert(a =~= b);
    }
}

/// The order on texts is transitive.
pub proof fn lemma_text_precedes_transitive(a: Seq<char>, b: Seq<char>, c: Seq<char>)
    requires
        text_precedes(a, b),
        text_precedes(b, c),
    ensures
        text_precedes(a, c),
{
    lemma_precedes_from_transitive(encode_utf8(a), encode_utf8(b), encode_utf8(c), 0);
}

/// No text precedes itself.
pub proof fn lemma_text_precedes_irreflexive(a: Seq<char>)
    ensures
        !text_precedes(a, a),
{
    lemma_precedes_from_irreflexive(encode_utf8(a), 0);
}

/// Texts with the same UTF-8 bytes are the same text.
pub proof fn lemma_utf8_injective(a: Seq<char>, b: Seq<char>)
    requires
        encode_utf8(a) == encode_utf8(b),
    ensures
        a == b,
{
    encode_utf8_decode_utf8(a);
    encode_utf8_decode_utf8(b);
}

/// `u64::to_string`: the decimal digits of the number.
#[verifier::external_body]
pub(crate) fn decimal(value: u64) -> (out: String)
    ensures
        out@ == crate::json::decimal_text(value as nat),
{
    value.to_string()
}

/// Compares two byte strings lexicographically.
pub fn rank_bytes(a: &[u8], b: &[u8]) -> (rank: Rank)
    ensures
        rank == Rank::Same <==> a@ == b@,
        rank == Rank::Before <==> precedes(a@, b@),
        rank == Rank::After <==> precedes(b@, a@),
{
    let mut i: usize = 0;
    while i < a.len() && i < b.len()
        invariant
            i <= a@.len(),
            i <= b@.len(),
            forall|j: int| 0 <= j < i ==> a@[j] == b@[j],
            precedes(a@, b@) == precedes_from(a@, b@, i as int),
            precedes(b@, a@) == precedes_from(b@, a@, i as int),
        decreases a@.len() - i,
    {
        if a[i] < b[i] {
            return Rank::Before;
        }
        if a[i] > b[i] {
            return Rank::After;
        }
        i += 1;
    }
    if i < b.len() {
        Rank::Before
    } else if i < a.len() {
        Rank::After
    } else {
        assert(a@ =~= b@);
        proof {
            lemma_precedes_from_irreflexive(a@, 0);
        }
        Rank::Same
    }
}

/// Compares two texts by their UTF-8 bytes.
pub fn rank_text(a: &str, b: &str) -> (rank: Rank)
    ensures
        rank == Rank::Same <==> a@ == b@,
        rank == Rank::Before <==> text_precedes(a@, b@),
        rank == Rank::After <==> text_precedes(b@, a@),
{
    let rank = rank_bytes(a.as_bytes(), b.as_bytes());
    proof {
        if rank == Rank::Same {
            lemma_utf8_injective(a@, b@);
        }
    }
    rank
}

/// Whether two texts are the same.
pub fn same_text(a: &str, b: &str) -> (same: bool)
    ensures
        same == (a@ == b@),
{
    match rank_text(a, b) {
        Rank::Same => true,
        _ => false,
    }
}

/// Whether `text` begins with `count` characters `'0'`.
pub fn starts_with_zeros(text: &str, count: usize) -> (found: bool)
    ensures
        found == has_zero_prefix(text@, count as nat),
{
    if text.unicode_len() < count {
        return false;
    }
    let mut i: usize = 0;
    while i < count
        invariant
            i <= count <= text@.len(),
            forall|j: int| 0 <= j < i ==> text@[j] == '0',
        decreases count - i,
    {
        if text.get_char(i) != '0' {
            return false;
        }
        i += 1;
    }
    true
}

/// Appends the bytes of `more` to `out`.
pub fn append_bytes(out: &mut Vec<u8>, more: &[u8])
    ensures
        final(out)@ == old(out)@ + more@,
{
    let mut i: usize = 0;
    while i < more.len()
        invariant
            i <= more@.len(),
            out@ == old(out)@ + more@.take(i as int),
        decreases more@.len() - i,
    {
        out.push(more[i]);
        i += 1;
    }
    assert(more@.take(i as int) == more@);
}

} // verus!
