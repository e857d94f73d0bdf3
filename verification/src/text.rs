//! Strings: when two are the same, which of two comes first, and numbers
//! written out.

use vstd::prelude::*;
use vstd::relations::{sorted_by, total_ordering};
use vstd::utf8::encode_utf8;

verus! {

broadcast use vstd::string::group_string_axioms;

/// Lexicographic order on byte strings: at the first place where they differ the
/// smaller byte comes first, and a string comes before its own extensions.
pub open spec fn bytes_le(a: Seq<u8>, b: Seq<u8>) -> bool
    decreases a.len(),
{
    if a.len() == 0 {
        true
    } else if b.len() == 0 {
        false
    } else if a[0] != b[0] {
        a[0] < b[0]
    } else {
        bytes_le(a.drop_first(), b.drop_first())
    }
}

/// Strings are ordered by the bytes of their UTF-8 form.
pub open spec fn text_le(a: Seq<char>, b: Seq<char>) -> bool {
    bytes_le(encode_utf8(a), encode_utf8(b))
}

/// [`text_le`] as a value.
pub open spec fn text_order() -> spec_fn(Seq<char>, Seq<char>) -> bool {
    |a: Seq<char>, b: Seq<char>| text_le(a, b)
}

/// The members of a set of strings, smallest first.
pub open spec fn ascending(set: Set<Seq<char>>) -> Seq<Seq<char>> {
    set.to_sorted_seq(text_order())
}

/// What each of some strings holds.
pub open spec fn texts(strings: Seq<String>) -> Seq<Seq<char>> {
    strings.map_values(|s: String| s@)
}

proof fn lemma_utf8_injective(a: Seq<char>, b: Seq<char>)
    requires
        encode_utf8(a) == encode_utf8(b),
    ensures
        a == b,
{
    vstd::utf8::encode_utf8_decode_utf8(a);
    vstd::utf8::encode_utf8_decode_utf8(b);
}

proof fn lemma_bytes_le_reflexive(a: Seq<u8>)
    ensures
        bytes_le(a, a),
    decreases a.len(),
{
    if a.len() > 0 {
        lemma_bytes_le_reflexive(a.drop_first());
    }
}

proof fn lemma_bytes_le_antisymmetric(a: Seq<u8>, b: Seq<u8>)
    requires
        bytes_le(a, b),
        bytes_le(b, a),
    ensures
        a == b,
    decreases a.len(),
{
    if a.len() > 0 && b.len() > 0 {
        lemma_bytes_le_antisymmetric(a.drop_first(), b.drop_first());
        assert(a =~= seq![a[0]] + a.drop_first());
        assert(b =~= seq![b[0]] + b.drop_first());
    } else {
        assert(a =~= b);
    }
}

proof fn lemma_bytes_le_transitive(a: Seq<u8>, b: Seq<u8>, c: Seq<u8>)
    requires
        bytes_le(a, b),
        bytes_le(b, c),
    ensures
        bytes_le(a, c),
    decreases a.len(),
{
    if a.len() > 0 && b.len() > 0 && c.len() > 0 && a[0] == b[0] && b[0] == c[0] {
        lemma_bytes_le_transitive(a.drop_first(), b.drop_first(), c.drop_first());
    }
}

proof fn lemma_bytes_le_total(a: Seq<u8>, b: Seq<u8>)
    ensures
        bytes_le(a, b) || bytes_le(b, a),
    decreases a.len(),
{
    if a.len() > 0 && b.len() > 0 && a[0] == b[0] {
        lemma_bytes_le_total(a.drop_first(), b.drop_first());
    }
}

/// Any two strings can be put in order, and only equal strings tie.
pub proof fn law_text_order_is_total()
    ensures
        total_ordering(text_order()),
{
    let order = text_order();
    assert forall|a: Seq<char>| #[trigger] order(a, a) by {
        lemma_bytes_le_reflexive(encode_utf8(a));
    }
    assert forall|a: Seq<char>, b: Seq<char>| #[trigger] order(a, b) && #[trigger] order(
        b,
        a,
    ) implies a == b by {
        lemma_bytes_le_antisymmetric(encode_utf8(a), encode_utf8(b));
        lemma_utf8_injective(a, b);
    }
    assert forall|a: Seq<char>, b: Seq<char>, c: Seq<char>| #[trigger]
        order(a, b) && #[trigger] order(b, c) implies order(a, c) by {
        lemma_bytes_le_transitive(encode_utf8(a), encode_utf8(b), encode_utf8(c));
    }
    assert forall|a: Seq<char>, b: Seq<char>| #[trigger] order(a, b) || #[trigger] order(b, a) by {
        lemma_bytes_le_total(encode_utf8(a), encode_utf8(b));
    }
}

proof fn lemma_set_to_seq_len<A>(set: Set<A>)
    requires
        set.finite(),
    ensures
        set.to_seq().len() == set.len(),
    decreases set.len(),
{
    if set.len() > 0 {
        lemma_set_to_seq_len(set.remove(set.choose()));
    }
}

/// The ascending list of a finite set of strings is in order, names each member
/// and nothing else, and names none twice.
pub proof fn law_ascending_lists_the_set(set: Set<Seq<char>>)
    requires
        set.finite(),
    ensures
        sorted_by(ascending(set), text_order()),
        ascending(set).no_duplicates(),
        ascending(set).len() == set.len(),
        forall|s: Seq<char>| ascending(set).contains(s) <==> set.contains(s),
{
    broadcast use vstd::seq_lib::group_to_multiset_ensures;
    broadcast use vstd::multiset::group_multiset_axioms;

    law_text_order_is_total();
    let listed = set.to_seq();
    listed.lemma_sort_by_ensures(text_order());
    set.lemma_to_seq_to_set_id();
    lemma_set_to_seq_len(set);
    listed.lemma_no_dup_set_cardinality();
    listed.lemma_multiset_has_no_duplicates();
    ascending(set).lemma_multiset_has_no_duplicates_conv();
    assert(listed.len() == listed.to_multiset().len());
    assert forall|s: Seq<char>| ascending(set).contains(s) <==> set.contains(s) by {
        assert(ascending(set).contains(s) <==> ascending(set).to_multiset().count(s) > 0);
        assert(listed.contains(s) <==> listed.to_multiset().count(s) > 0);
        assert(listed.to_set().contains(s) <==> set.contains(s));
    }
}

/// A list in order that names each member of a set exactly once is its ascending
/// list.
pub(crate) proof fn lemma_ascending_is_unique(list: Seq<Seq<char>>, set: Set<Seq<char>>)
    requires
        set.finite(),
        sorted_by(list, text_order()),
        list.no_duplicates(),
        list.to_set() == set,
    ensures
        list == ascending(set),
{
    broadcast use vstd::seq_lib::group_to_multiset_ensures;
    broadcast use vstd::multiset::group_multiset_axioms;

    law_text_order_is_total();
    law_ascending_lists_the_set(set);
    let other = ascending(set);
    list.lemma_multiset_has_no_duplicates();
    other.lemma_multiset_has_no_duplicates();
    assert forall|s: Seq<char>| list.to_multiset().count(s) == other.to_multiset().count(s) by {
        assert(list.to_set().contains(s) <==> list.contains(s));
        assert(list.contains(s) <==> list.to_multiset().count(s) > 0);
        assert(other.contains(s) <==> other.to_multiset().count(s) > 0);
    }
    assert(list.to_multiset() =~= other.to_multiset());
    vstd::seq_lib::lemma_sorted_unique(list, other, text_order());
}

/// Whether two strings hold the same characters.
pub fn same_text(a: &str, b: &str) -> (res: bool)
    ensures
        res == (a@ == b@),
{
    let x = a.as_bytes();
    let y = b.as_bytes();
    if x.len() != y.len() {
        return false;
    }
    for i in 0..x.len()
        invariant
            x@ == encode_utf8(a@),
            y@ == encode_utf8(b@),
            x@.len() == y@.len(),
            forall|j: int| 0 <= j < i ==> x@[j] == y@[j],
    {
        if x[i] != y[i] {
            return false;
        }
    }
    proof {
        assert(x@ =~= y@);
        lemma_utf8_injective(a@, b@);
    }
    true
}

/// Whether `a` stands no later than `b` in the order of strings.
pub fn not_after(a: &str, b: &str) -> (res: bool)
    ensures
        res == text_le(a@, b@),
{
    let x = a.as_bytes();
    let y = b.as_bytes();
    let mut i: usize = 0;
    proof {
        assert(x@.skip(0) =~= x@);
        assert(y@.skip(0) =~= y@);
    }
    while i < x.len() && i < y.len()
        invariant
            x@ == encode_utf8(a@),
            y@ == encode_utf8(b@),
            i <= x@.len(),
            i <= y@.len(),
            text_le(a@, b@) == bytes_le(x@.skip(i as int), y@.skip(i as int)),
        decreases x@.len() - i,
    {
        proof {
            assert(x@.skip(i as int).drop_first() =~= x@.skip(i + 1));
            assert(y@.skip(i as int).drop_first() =~= y@.skip(i + 1));
        }
        if x[i] != y[i] {
            return x[i] < y[i];
        }
        i += 1;
    }
    i == x.len()
}

/// The same strings, smallest first.
pub fn sort_strings(strings: Vec<String>) -> (res: Vec<String>)
    ensures
        sorted_by(texts(res@), text_order()),
        texts(res@).to_multiset() == texts(strings@).to_multiset(),
{
    let mut res: Vec<String> = Vec::new();
    assert(texts(strings@).take(0) =~= texts(res@));

    for i in 0..strings.len()
        invariant
            sorted_by(texts(res@), text_order()),
            texts(res@).to_multiset() == texts(strings@).take(i as int).to_multiset(),
    {
        let item: String = strings[i].clone();
        let mut place: usize = 0;
        while place < res.len() && not_after(res[place].as_str(), item.as_str())
            invariant
                place <= res@.len(),
                forall|j: int| 0 <= j < place ==> text_le(#[trigger] texts(res@)[j], item@),
            decreases res@.len() - place,
        {
            place += 1;
        }
        let ghost before = texts(res@);
        res.insert(place, item);
        proof {
            broadcast use vstd::seq_lib::group_to_multiset_ensures;

            law_text_order_is_total();
            let order = text_order();
            let after = texts(res@);
            assert(after =~= before.insert(place as int, item@));
            before.insert_ensures(place as int, item@);
            vstd::seq_lib::to_multiset_insert(before, place as int, item@);
            assert(texts(strings@).take(i + 1) =~= texts(strings@).take(i as int).push(item@));
            if place < before.len() {
                assert(order(item@, before[place as int]) || order(before[place as int], item@));
                assert(order(item@, before[place as int]));
            }
            assert forall|m: int, n: int| 0 <= m < n < after.len() implies #[trigger] order(
                after[m],
                after[n],
            ) by {
                let old_m = if m < place { m } else { m - 1 };
                let old_n = if n < place { n } else { n - 1 };
                if m == place {
                    if old_n > place {
                        assert(order(before[place as int], before[old_n]));
                    }
                } else if n == place {
                    assert(text_le(before[m], item@));
                } else {
                    assert(order(before[old_m], before[old_n]));
                }
            }
        }
    }
    assert(texts(strings@).take(strings@.len() as int) =~= texts(strings@));
    res
}

/// The character for a digit from 0 to 15, letters in lower case.
pub open spec fn digit(d: nat) -> char {
    if d < 10 {
        ('0' as u32 + d) as char
    } else {
        ('a' as u32 + (d - 10)) as char
    }
}

/// A number in decimal, without leading zeros.
pub open spec fn decimal(n: nat) -> Seq<char>
    decreases n,
{
    if n < 10 {
        seq![digit(n)]
    } else {
        decimal(n / 10).push(digit(n % 10))
    }
}

/// A byte as two hexadecimal digits.
pub open spec fn hex_byte(b: u8) -> Seq<char> {
    seq![digit((b / 16) as nat), digit((b % 16) as nat)]
}

fn digit_text(d: u8) -> (res: &'static str)
    requires
        d < 16,
    ensures
        res@ == seq![digit(d as nat)],
{
    proof {
        reveal_strlit("0");
        reveal_strlit("1");
        reveal_strlit("2");
        reveal_strlit("3");
        reveal_strlit("4");
        reveal_strlit("5");
        reveal_strlit("6");
        reveal_strlit("7");
        reveal_strlit("8");
        reveal_strlit("9");
        reveal_strlit("a");
        reveal_strlit("b");
        reveal_strlit("c");
        reveal_strlit("d");
        reveal_strlit("e");
        reveal_strlit("f");
    }
    match d {
        0 => "0",
        1 => "1",
        2 => "2",
        3 => "3",
        4 => "4",
        5 => "5",
        6 => "6",
        7 => "7",
        8 => "8",
        9 => "9",
        10 => "a",
        11 => "b",
        12 => "c",
        13 => "d",
        14 => "e",
        _ => "f",
    }
}

/// Writes `n` in decimal.
pub fn decimal_text(n: usize) -> (res: String)
    ensures
        res@ == decimal(n as nat),
    decreases n,
{
    if n < 10 {
        digit_text(n as u8).to_owned()
    } else {
        let mut res: String = decimal_text(n / 10);
        res.append(digit_text((n % 10) as u8));
        assert(res@ =~= decimal((n / 10) as nat).push(digit((n % 10) as nat)));
        res
    }
}

/// Writes `b` as two hexadecimal digits.
pub fn hex_byte_text(b: u8) -> (res: String)
    ensures
        res@ == hex_byte(b),
{
    let mut res: String = digit_text(b / 16).to_owned();
    res.append(digit_text(b % 16));
    assert(res@ =~= hex_byte(b));
    res
}

/// Whether a string has only ASCII characters.
pub open spec fn is_ascii_text(s: Seq<char>) -> bool {
    forall|i: int| 0 <= i < s.len() ==> ((#[trigger] s[i]) as u32) < 128
}

/// A string with the letters from a to z in upper case, and nothing else changed.
pub open spec fn ascii_uppercase(s: Seq<char>) -> Seq<char> {
    s.map_values(
        |c: char|
            if 'a' <= c && c <= 'z' {
                (c as u32 - 32) as char
            } else {
                c
            },
    )
}

/// What `str::to_uppercase` makes of a string: its characters in upper case, as
/// Unicode defines it.
pub uninterp spec fn uppercase(s: Seq<char>) -> Seq<char>;

/// Calls `str::to_uppercase`. Trusted: the result depends on the characters of
/// `s` alone, and an ASCII string has its letters from a to z in upper case and
/// nothing else changed.
#[verifier::external_body]
pub(crate) fn to_uppercase(s: &str) -> (res: String)
    ensures
        res@ == uppercase(s@),
        is_ascii_text(s@) ==> res@ == ascii_uppercase(s@),
{
    s.to_uppercase()
}

} // verus!
