//! Peer ids: the numbers `0..ID_COUNT`, written on the wire as four
//! zero-padded decimal digits (`"0000"` .. `"9999"`).

use rand::seq::SliceRandom;
use std::collections::VecDeque;
use vstd::prelude::*;

verus! {

/// How many peer ids exist: every four-digit decimal string is one.
pub const ID_COUNT: u32 = 10000;

/// The character of a decimal digit `d < 10`.
pub open spec fn digit_char(d: int) -> char {
    (d + 48) as char
}

/// Whether `c` is an ASCII decimal digit.
pub open spec fn is_digit(c: char) -> bool {
    '0' <= c && c <= '9'
}

/// The numeric value of a digit character.
pub open spec fn digit_value(c: char) -> int {
    c as int - 48
}

/// The wire form of peer id `n`: `n` in decimal, left-padded with zeros
/// to four characters.
pub open spec fn spec_peer_id(n: int) -> Seq<char> {
    seq![
        digit_char((n / 1000) % 10),
        digit_char((n / 100) % 10),
        digit_char((n / 10) % 10),
        digit_char(n % 10),
    ]
}

/// The peer id that the text `s` names, if it is four decimal digits.
pub open spec fn spec_parse_peer_id(s: Seq<char>) -> Option<u32> {
    if s.len() == 4 && is_digit(s[0]) && is_digit(s[1]) && is_digit(s[2]) && is_digit(s[3]) {
        Some(
            (digit_value(s[0]) * 1000 + digit_value(s[1]) * 100 + digit_value(s[2]) * 10
                + digit_value(s[3])) as u32,
        )
    } else {
        None
    }
}

fn digit_str(d: u32) -> (s: &'static str)
    requires
        d < 10,
    ensures
        s@ == seq![digit_char(d as int)],
{
    proof {
        reveal_strlit("0");
        reveal_strlit("1");
        reveal_strlit("2");
        reveal_strlit("3");
        reveal_strlit("4");
        reveal_strlit("5");
        reveal_strlit("6");
        reveal_strlit("7");
        reveal_strlit("8");
        reveal_strlit("9");
    }
    match d {
        0 => "0",
        1 => "1",
        2 => "2",
        3 => "3",
        4 => "4",
        5 => "5",
        6 => "6",
        7 => "7",
        8 => "8",
        _ => "9",
    }
}

/// Writes peer id `n` in its four-digit wire form.
pub fn format_peer_id(n: u32) -> (s: String)
    requires
        n < ID_COUNT,
    ensures
        s@ == spec_peer_id(n as int),
{
    let mut s = String::new();
    s.append(digit_str((n / 1000) % 10));
    s.append(digit_str((n / 100) % 10));
    s.append(digit_str((n / 10) % 10));
    s.append(digit_str(n % 10));
    assert(s@ =~= spec_peer_id(n as int));
    s
}

/// Reads a peer id from its wire form; `None` unless `s` is exactly four
/// decimal digits.
pub fn parse_peer_id(s: &str) -> (res: Option<u32>)
    ensures
        res == spec_parse_peer_id(s@),
{
    if s.unicode_len() != 4 {
        return None;
    }
    let mut value: u32 = 0;
    let mut i: usize = 0;
    while i < 4
        invariant
            s@.len() == 4,
            0 <= i <= 4,
            forall|j: int| 0 <= j < i ==> is_digit(#[trigger] s@[j]),
            value == value_of_prefix(s@, i as int),
            value < 10000,
        decreases 4 - i,
    {
        let c = s.get_char(i);
        if !('0' <= c && c <= '9') {
            return None;
        }
        let d = (c as u32) - 48;
        assert(value * 10 + d < 10000) by {
            lemma_prefix_bound(s@, i as int);
        }
        value = value * 10 + d;
        i = i + 1;
    }
    proof {
        reveal_with_fuel(value_of_prefix, 5);
    }
    Some(value)
}

spec fn value_of_prefix(s: Seq<char>, i: int) -> int
    decreases i,
{
    if i <= 0 {
        0
    } else {
        value_of_prefix(s, i - 1) * 10 + digit_value(s[i - 1])
    }
}

proof fn lemma_prefix_bound(s: Seq<char>, i: int)
    requires
        0 <= i < 4,
        forall|j: int| 0 <= j < i ==> is_digit(#[trigger] s[j]),
    ensures
        value_of_prefix(s, i) < 1000,
{
    reveal_with_fuel(value_of_prefix, 5);
}

/// Reading back the wire form of an id gives the id: `parse(format(n)) == n`.
pub proof fn lemma_parse_format(n: u32)
    requires
        n < ID_COUNT,
    ensures
        spec_parse_peer_id(spec_peer_id(n as int)) == Some(n),
{
    let s = spec_peer_id(n as int);
    assert(0 <= (n / 1000) % 10 < 10 && 0 <= (n / 100) % 10 < 10 && 0 <= (n / 10) % 10 < 10
        && 0 <= n % 10 < 10);
    assert(digit_value(s[0]) == (n / 1000) % 10);
    assert(digit_value(s[1]) == (n / 100) % 10);
    assert(digit_value(s[2]) == (n / 10) % 10);
    assert(digit_value(s[3]) == n % 10);
    assert(((n / 1000) % 10) * 1000 + ((n / 100) % 10) * 100 + ((n / 10) % 10) * 10 + n % 10
        == n) by (nonlinear_arith)
        requires
            n < 10000,
    ;
}

/// The wire form of an id is four decimal digit characters that spell
/// the id in decimal, most significant first, with leading zeros.
pub proof fn lemma_peer_id_digits(n: u32)
    requires
        n < ID_COUNT,
    ensures
        spec_peer_id(n as int).len() == 4,
        forall|i: int| 0 <= i < 4 ==> '0' <= #[trigger] spec_peer_id(n as int)[i] <= '9',
        (spec_peer_id(n as int)[0] as int - '0' as int) * 1000 + (spec_peer_id(n as int)[1] as int
            - '0' as int) * 100 + (spec_peer_id(n as int)[2] as int - '0' as int) * 10 + (
        spec_peer_id(n as int)[3] as int - '0' as int) == n,
{
    lemma_parse_format(n);
}

/// Every text that reads as an id is that id's wire form:
/// `format(parse(s)) == s`, and the id is in range.
pub proof fn lemma_format_parse(s: Seq<char>)
    requires
        spec_parse_peer_id(s) is Some,
    ensures
        spec_parse_peer_id(s)->0 < ID_COUNT,
        spec_peer_id(spec_parse_peer_id(s)->0 as int) == s,
{
    let a = digit_value(s[0]);
    let b = digit_value(s[1]);
    let c = digit_value(s[2]);
    let d = digit_value(s[3]);
    let n = a * 1000 + b * 100 + c * 10 + d;
    assert(0 <= n < 10000);
    assert((n / 1000) % 10 == a && (n / 100) % 10 == b && (n / 10) % 10 == c && n % 10 == d)
        by (nonlinear_arith)
        requires
            0 <= a < 10,
            0 <= b < 10,
            0 <= c < 10,
            0 <= d < 10,
            n == a * 1000 + b * 100 + c * 10 + d,
    ;
    assert(spec_peer_id(n) =~= s);
}

/// Distinct ids have distinct wire forms.
pub proof fn lemma_peer_id_injective(a: u32, b: u32)
    requires
        a < ID_COUNT,
        b < ID_COUNT,
        spec_peer_id(a as int) == spec_peer_id(b as int),
    ensures
        a == b,
{
    lemma_parse_format(a);
    lemma_parse_format(b);
}

/// Every peer id, in increasing order.
pub open spec fn all_peer_ids() -> Seq<u32> {
    Seq::new(ID_COUNT as nat, |i: int| i as u32)
}

#[verifier::external_type_specification]
#[verifier::external_body]
pub struct ExThreadRng(rand::rngs::ThreadRng);

/// `rand::thread_rng`: a handle on the thread-local random generator.
/// Nothing is promised of the generator's state.
#[verifier::external_body]
fn thread_rng() -> rand::rngs::ThreadRng {
    rand::thread_rng()
}

/// `SliceRandom::shuffle` of rand: reorders the slice at random in place
/// (a Fisher-Yates pass of swaps). Claimed: the result is a permutation of
/// the input, the same multiset of items. Which order comes out is left
/// open: it rests on the generator.
#[verifier::external_body]
fn shuffle(ids: &mut Vec<u32>, rng: &mut rand::rngs::ThreadRng)
    ensures
        final(ids)@.to_multiset() == old(ids)@.to_multiset(),
{
    ids.as_mut_slice().shuffle(rng);
}

/// The pool of free peer ids: every id `0..ID_COUNT` once, in random order.
pub fn create_peer_ids() -> (ids: VecDeque<u32>)
    ensures
        ids@.to_multiset() == all_peer_ids().to_multiset(),
{
    let mut ordered: Vec<u32> = Vec::new();
    let mut n: u32 = 0;
    while n < ID_COUNT
        invariant
            n <= ID_COUNT,
            ordered@ == all_peer_ids().take(n as int),
        decreases ID_COUNT - n,
    {
        ordered.push(n);
        n = n + 1;
        assert(ordered@ =~= all_peer_ids().take(n as int));
    }
    assert(ordered@ =~= all_peer_ids());
    let mut rng = thread_rng();
    shuffle(&mut ordered, &mut rng);
    let mut ids: VecDeque<u32> = VecDeque::new();
    let mut i: usize = 0;
    while i < ordered.len()
        invariant
            i <= ordered@.len(),
            ids@ == ordered@.take(i as int),
        decreases ordered@.len() - i,
    {
        ids.push_back(ordered[i]);
        i = i + 1;
        assert(ids@ =~= ordered@.take(i as int));
    }
    assert(ids@ =~= ordered@);
    ids
}

/// A pool made by `create_peer_ids` holds each id exactly once and nothing
/// else.
pub proof fn lemma_fresh_pool(ids: Seq<u32>)
    requires
        ids.to_multiset() == all_peer_ids().to_multiset(),
    ensures
        ids.len() == ID_COUNT,
        ids.no_duplicates(),
        forall|n: u32| n < ID_COUNT ==> ids.contains(n),
        forall|i: int| 0 <= i < ids.len() ==> ids[i] < ID_COUNT,
{
    broadcast use vstd::seq_lib::group_to_multiset_ensures;

    let all = all_peer_ids();
    assert(all.no_duplicates());
    all.lemma_multiset_has_no_duplicates();
    ids.lemma_multiset_has_no_duplicates_conv();
    assert(ids.to_multiset().len() == all.to_multiset().len());
    assert forall|n: u32| n < ID_COUNT implies ids.contains(n) by {
        assert(all[n as int] == n);
        assert(all.contains(n));
        assert(all.to_multiset().count(n) > 0);
        assert(ids.to_multiset().count(n) > 0);
    }
    assert forall|i: int| 0 <= i < ids.len() implies ids[i] < ID_COUNT by {
        assert(ids.contains(ids[i]));
        assert(all.to_multiset().count(ids[i]) > 0);
        assert(all.contains(ids[i]));
    }
}

} // verus!
