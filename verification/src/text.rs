//! Texts: what bytes read as, how texts are ordered, and how numbers are
//! written.

use vstd::prelude::*;
use vstd::utf8::{decode_utf8, encode_utf8, valid_utf8};

verus! {

/// What `String::from_utf8_lossy` makes of some bytes: the text that they
/// encode, with U+FFFD in place of what is not UTF-8.
pub uninterp spec fn lossy_utf8(bytes: Seq<u8>) -> Seq<char>;

/// The text that `bytes` read as, by `String::from_utf8_lossy`. The text is
/// a function of the bytes alone, and bytes that are UTF-8 read as the text
/// that they encode. How much of an invalid stretch one U+FFFD stands for is
/// left unsaid.
#[verifier::external_body]
fn lossy_text(bytes: &[u8]) -> (text: String)
    ensures
        text@ == lossy_utf8(bytes@),
        valid_utf8(bytes@) ==> text@ == decode_utf8(bytes@),
{
    String::from_utf8_lossy(bytes).into_owned()
}

/// The text that some bytes read as: the one that they encode, if they are
/// UTF-8.
pub open spec fn read_as_text(bytes: Seq<u8>) -> Seq<char> {
    if valid_utf8(bytes) {
        decode_utf8(bytes)
    } else {
        lossy_utf8(bytes)
    }
}

/// The text that `bytes` read as.
pub fn bytes_to_text(bytes: &[u8]) -> (text: String)
    ensures
        text@ == read_as_text(bytes@),
{
    lossy_text(bytes)
}

/// Bytes that are UTF-8 and the text that they read as stand for each other:
/// the text is written in just these bytes, and what a text is written in
/// reads as that text. Of other bytes the text is the one with replacements.
pub proof fn law_text_reads_back(text: Seq<char>, bytes: Seq<u8>)
    ensures
        read_as_text(encode_utf8(text)) == text,
        valid_utf8(bytes) ==> encode_utf8(read_as_text(bytes)) == bytes,
        !valid_utf8(bytes) ==> read_as_text(bytes) == lossy_utf8(bytes),
{
    vstd::utf8::encode_utf8_valid_utf8(text);
    vstd::utf8::encode_utf8_decode_utf8(text);
    if valid_utf8(bytes) {
        vstd::utf8::decode_utf8_encode_utf8(bytes);
    }
}

/// How two byte strings stand to each other.
#[derive(Clone, Copy, Debug, PartialEq, Eq, Structural)]
pub enum Standing {
    Before,
    Same,
    After,
}

/// Whether `a` comes before `b` when byte strings are ordered as words are:
/// by the first byte in which they differ, a leading part before the whole.
pub open spec fn precedes(a: Seq<u8>, b: Seq<u8>) -> bool
    decreases a.len(),
{
    b.len() > 0 && (a.len() == 0 || a[0] < b[0] || (a[0] == b[0] && precedes(
        a.skip(1),
        b.skip(1),
    )))
}

/// Whether the text `a` comes before the text `b`: texts are ordered by
/// their UTF-8 bytes.
pub open spec fn text_precedes(a: Seq<char>, b: Seq<char>) -> bool {
    precedes(encode_utf8(a), encode_utf8(b))
}

proof fn lemma_precedes_total(a: Seq<u8>, b: Seq<u8>)
    ensures
        precedes(a, b) || a == b || precedes(b, a),
        !(precedes(a, b) && precedes(b, a)),
        a == b ==> !precedes(a, b),
    decreases a.len(),
{
    if a.len() > 0 && b.len() > 0 && a[0] == b[0] {
        lemma_precedes_total(a.skip(1), b.skip(1));
        if a.skip(1) == b.skip(1) {
            assert forall|i: int| 0 <= i < a.len() implies a[i] == b[i] by {
                if i > 0 {
                    assert(a[i] == a.skip(1)[i - 1]);
                    assert(b[i] == b.skip(1)[i - 1]);
                }
            }
            assert(a.len() == b.len());
            assert(a =~= b);
        }
    } else if a.len() == 0 && b.len() == 0 {
        assert(a =~= b);
    }
}

proof fn lemma_precedes_transitive(a: Seq<u8>, b: Seq<u8>, c: Seq<u8>)
    requires
        precedes(a, b),
        precedes(b, c),
    ensures
        precedes(a, c),
    decreases a.len(),
{
    if a.len() > 0 && a[0] == b[0] && b[0] == c[0] {
        lemma_precedes_transitive(a.skip(1), b.skip(1), c.skip(1));
    }
}

/// Different texts are written in different bytes.
pub proof fn lemma_encode_injective(a: Seq<char>, b: Seq<char>)
    requires
        encode_utf8(a) == encode_utf8(b),
    ensures
        a == b,
{
    vstd::utf8::encode_utf8_decode_utf8(a);
    vstd::utf8::encode_utf8_decode_utf8(b);
}

/// Of two texts exactly one of three holds: one comes before the other, they
/// are the same, or the other comes before the one. And the order carries
/// over.
pub proof fn law_text_order(a: Seq<char>, b: Seq<char>, c: Seq<char>)
    ensures
        text_precedes(a, b) || a == b || text_precedes(b, a),
        !(text_precedes(a, b) && text_precedes(b, a)),
        !text_precedes(a, a),
        text_precedes(a, b) && text_precedes(b, c) ==> text_precedes(a, c),
{
    let x = encode_utf8(a);
    let y = encode_utf8(b);
    lemma_precedes_total(x, y);
    lemma_precedes_total(x, x);
    if x == y {
        lemma_encode_injective(a, b);
    }
    if precedes(x, y) && precedes(y, encode_utf8(c)) {
        lemma_precedes_transitive(x, y, encode_utf8(c));
    }
}

/// Byte strings are ordered by the first byte in which they differ: if they
/// agree in the first `n` bytes and differ in the next, the smaller byte comes
/// first, and if one of them ends there, it comes first.
pub proof fn law_first_difference_decides(a: Seq<u8>, b: Seq<u8>, n: int)
    requires
        0 <= n <= a.len(),
        n < b.len(),
        forall|k: int| 0 <= k < n ==> a[k] == b[k],
        n < a.len() ==> a[n] < b[n],
    ensures
        precedes(a, b),
        !precedes(b, a),
        a != b,
    decreases n,
{
    if n > 0 {
        assert(a[0] == b[0]);
        assert forall|k: int| 0 <= k < n - 1 implies a.skip(1)[k] == b.skip(1)[k] by {
            assert(a[k + 1] == b[k + 1]);
        }
        law_first_difference_decides(a.skip(1), b.skip(1), n - 1);
    }
    lemma_precedes_total(a, b);
}

/// Texts are ordered by the first of their UTF-8 bytes in which they differ.
pub proof fn law_texts_are_ordered_by_their_bytes(a: Seq<char>, b: Seq<char>, n: int)
    requires
        0 <= n <= encode_utf8(a).len(),
        n < encode_utf8(b).len(),
        forall|k: int| 0 <= k < n ==> encode_utf8(a)[k] == encode_utf8(b)[k],
        n < encode_utf8(a).len() ==> encode_utf8(a)[n] < encode_utf8(b)[n],
    ensures
        text_precedes(a, b),
        !text_precedes(b, a),
        a != b,
{
    law_first_difference_decides(encode_utf8(a), encode_utf8(b), n);
}

/// How `a` stands to `b` in the order of byte strings.
pub fn compare_bytes(a: &[u8], b: &[u8]) -> (standing: Standing)
    ensures
        standing == Standing::Before <==> precedes(a@, b@),
        standing == Standing::Same <==> a@ == b@,
        standing == Standing::After <==> precedes(b@, a@),
{
    proof {
        lemma_precedes_total(a@, b@);
    }
    let mut i: usize = 0;
    assert(a@.skip(0) =~= a@);
    assert(b@.skip(0) =~= b@);
    while i < a.len() && i < b.len() && a[i] == b[i]
        invariant
            i <= a.len(),
            i <= b.len(),
            forall|k: int| 0 <= k < i ==> a@[k] == b@[k],
            precedes(a@, b@) == precedes(a@.skip(i as int), b@.skip(i as int)),
            precedes(b@, a@) == precedes(b@.skip(i as int), a@.skip(i as int)),
        decreases a.len() - i,
    {
        assert(a@.skip(i as int).skip(1) =~= a@.skip(i + 1));
        assert(b@.skip(i as int).skip(1) =~= b@.skip(i + 1));
        i += 1;
    }
    if i == a.len() {
        if i == b.len() {
            assert(a@ =~= b@);
            Standing::Same
        } else {
            Standing::Before
        }
    } else if i == b.len() || b[i] < a[i] {
        Standing::After
    } else {
        Standing::Before
    }
}

/// How the text `a` stands to the text `b`.
pub fn compare_texts(a: &str, b: &str) -> (standing: Standing)
    ensures
        standing == Standing::Before <==> text_precedes(a@, b@),
        standing == Standing::Same <==> a@ == b@,
        standing == Standing::After <==> text_precedes(b@, a@),
{
    proof {
        if encode_utf8(a@) == encode_utf8(b@) {
            lemma_encode_injective(a@, b@);
        }
    }
    compare_bytes(a.as_bytes(), b.as_bytes())
}

/// The character that writes a number below ten.
pub open spec fn digit(n: nat) -> char {
    ('0' as nat + n) as char
}

/// A number in decimal.
pub open spec fn decimal(n: nat) -> Seq<char>
    decreases n,
{
    if n < 10 {
        seq![digit(n)]
    } else {
        decimal(n / 10).push(digit(n % 10))
    }
}

/// The number that some digits write, the last one counting least.
pub open spec fn number_of(digits: Seq<char>) -> int
    decreases digits.len(),
{
    if digits.len() == 0 {
        0
    } else {
        10 * number_of(digits.drop_last()) + (digits.last() as int - '0' as int)
    }
}

/// A number in decimal is written in digits, the first of which is not zero
/// unless it is the only one, and they write that number.
pub proof fn law_decimal_writes_the_number(n: nat)
    ensures
        decimal(n).len() > 0,
        forall|i: int| 0 <= i < decimal(n).len() ==> '0' <= #[trigger] decimal(n)[i] <= '9',
        decimal(n).len() > 1 ==> decimal(n)[0] != '0',
        number_of(decimal(n)) == n,
    decreases n,
{
    if n >= 10 {
        law_decimal_writes_the_number(n / 10);
        assert(decimal(n).drop_last() =~= decimal(n / 10));
        if decimal(n / 10).len() == 1 {
            assert(number_of(decimal(n / 10).drop_last()) == 0);
        }
    } else {
        assert(decimal(n).drop_last() =~= Seq::empty());
        assert(number_of(Seq::empty()) == 0);
    }
}

/// The text of one digit.
fn digit_text(n: u32) -> (text: &'static str)
    requires
        n < 10,
    ensures
        text@ == seq![digit(n as nat)],
{
    proof {
        reveal_strlit("0");
        reveal_strlit("1");
        reveal_strlit("2");
        reveal_strlit("3");
        reveal_strlit("4");
        reveal_strlit("5");
        reveal_strlit("6");
        reveal_strlit("7");
        reveal_strlit("8");
        reveal_strlit("9");
    }
    let text = match n {
        0 => "0",
        1 => "1",
        2 => "2",
        3 => "3",
        4 => "4",
        5 => "5",
        6 => "6",
        7 => "7",
        8 => "8",
        _ => "9",
    };
    assert(text@ =~= seq![digit(n as nat)]);
    text
}

/// `n` in decimal.
pub fn decimal_text(n: u32) -> (text: String)
    ensures
        text@ == decimal(n as nat),
    decreases n,
{
    if n < 10 {
        digit_text(n).to_owned()
    } else {
        let mut text = decimal_text(n / 10);
        text.append(digit_text(n % 10));
        assert(text@ =~= decimal(n as nat));
        text
    }
}

} // verus!
