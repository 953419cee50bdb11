//! Ids counted out in the hyphenated UUID form: the way to an unused id when
//! the one drawn at random is taken.
//!
//! `counter_id(k)` is `00000000-0000-0000-` followed by `k` in sixteen
//! hexadecimal digits (with a hyphen after the fourth). Different counters give
//! different ids, so among the first `n + 1` of them at least one is missing
//! from any `n` ids.

use vstd::prelude::*;
use crate::outside::{is_hyphenated_uuid, is_lower_hex, is_simple_uuid};
use crate::text::push_char;

verus! {

/// The lowercase hexadecimal digit for `d`, below 16.
pub open spec fn hex_digit(d: u64) -> char {
    match d {
        0 => '0',
        1 => '1',
        2 => '2',
        3 => '3',
        4 => '4',
        5 => '5',
        6 => '6',
        7 => '7',
        8 => '8',
        9 => '9',
        10 => 'a',
        11 => 'b',
        12 => 'c',
        13 => 'd',
        14 => 'e',
        _ => 'f',
    }
}

/// Whether position `i` of the hyphenated form holds a hyphen.
pub open spec fn is_hyphen_at(i: int) -> bool {
    i == 8 || i == 13 || i == 18 || i == 23
}

/// Which of the 32 digits position `i` of the hyphenated form holds.
pub open spec fn digit_index(i: int) -> int {
    if i < 8 {
        i
    } else if i < 13 {
        i - 1
    } else if i < 18 {
        i - 2
    } else if i < 23 {
        i - 3
    } else {
        i - 4
    }
}

/// Digit `p` of the 32 for the counter `k`: zeros, then `k` in sixteen digits,
/// most significant first.
pub open spec fn counter_digit(k: u64, p: int) -> u64 {
    if p < 16 {
        0
    } else {
        (k >> ((4 * (31 - p)) as u64)) & 15
    }
}

/// The id counted out for `k`.
pub open spec fn counter_id(k: u64) -> Seq<char> {
    Seq::new(
        36,
        |i: int|
            if is_hyphen_at(i) {
                '-'
            } else {
                hex_digit(counter_digit(k, digit_index(i)))
            },
    )
}

proof fn lemma_digit_below_16(k: u64, s: u64)
    by (bit_vector)
    ensures
        (k >> s) & 15 < 16,
{
}

proof fn lemma_hex_digit_injective(x: u64, y: u64)
    requires
        x < 16,
        y < 16,
        hex_digit(x) == hex_digit(y),
    ensures
        x == y,
{
}

/// A counter is fixed by its sixteen digits.
proof fn lemma_digits_fix_counter(a: u64, b: u64)
    by (bit_vector)
    requires
        (a >> 60u64) & 15 == (b >> 60u64) & 15,
        (a >> 56u64) & 15 == (b >> 56u64) & 15,
        (a >> 52u64) & 15 == (b >> 52u64) & 15,
        (a >> 48u64) & 15 == (b >> 48u64) & 15,
        (a >> 44u64) & 15 == (b >> 44u64) & 15,
        (a >> 40u64) & 15 == (b >> 40u64) & 15,
        (a >> 36u64) & 15 == (b >> 36u64) & 15,
        (a >> 32u64) & 15 == (b >> 32u64) & 15,
        (a >> 28u64) & 15 == (b >> 28u64) & 15,
        (a >> 24u64) & 15 == (b >> 24u64) & 15,
        (a >> 20u64) & 15 == (b >> 20u64) & 15,
        (a >> 16u64) & 15 == (b >> 16u64) & 15,
        (a >> 12u64) & 15 == (b >> 12u64) & 15,
        (a >> 8u64) & 15 == (b >> 8u64) & 15,
        (a >> 4u64) & 15 == (b >> 4u64) & 15,
        (a >> 0u64) & 15 == (b >> 0u64) & 15,
    ensures
        a == b,
{
}

/// Every id counted out has the hyphenated UUID form.
pub proof fn lemma_counter_id_form(k: u64)
    ensures
        is_hyphenated_uuid(counter_id(k)),
{
    assert forall|i: int| 0 <= i < 36 && !is_hyphen_at(i) implies is_lower_hex(#[trigger] counter_id(k)[i]) by {
        let p = digit_index(i);
        if p >= 16 {
            lemma_digit_below_16(k, (4 * (31 - p)) as u64);
        }
    }
}

/// Different counters give different ids.
pub proof fn lemma_counter_id_injective(a: u64, b: u64)
    requires
        counter_id(a) == counter_id(b),
    ensures
        a == b,
{
    assert forall|p: int| 16 <= p < 32 implies #[trigger] counter_digit(a, p) == counter_digit(b, p) by {
        let i = if p < 20 { p + 3 } else { p + 4 };
        assert(digit_index(i) == p);
        assert(!is_hyphen_at(i));
        assert(counter_id(a)[i] == hex_digit(counter_digit(a, p)));
        assert(counter_id(b)[i] == hex_digit(counter_digit(b, p)));
        lemma_digit_below_16(a, (4 * (31 - p)) as u64);
        lemma_digit_below_16(b, (4 * (31 - p)) as u64);
        lemma_hex_digit_injective(counter_digit(a, p), counter_digit(b, p));
    }
    lemma_sixteen_digits_fix_counter(a, b);
}

/// The id counted out for `k` in the simple form: its 32 digits alone.
pub open spec fn counter_simple_id(k: u64) -> Seq<char> {
    Seq::new(32, |p: int| hex_digit(counter_digit(k, p)))
}

/// Every id counted out in the simple form is 32 lowercase hexadecimal digits.
pub proof fn lemma_counter_simple_id_form(k: u64)
    ensures
        is_simple_uuid(counter_simple_id(k)),
{
    assert forall|p: int| 0 <= p < 32 implies is_lower_hex(#[trigger] counter_simple_id(k)[p]) by {
        if p >= 16 {
            lemma_digit_below_16(k, (4 * (31 - p)) as u64);
        }
    }
}

/// Different counters give different ids in the simple form.
pub proof fn lemma_counter_simple_id_injective(a: u64, b: u64)
    requires
        counter_simple_id(a) == counter_simple_id(b),
    ensures
        a == b,
{
    assert forall|p: int| 16 <= p < 32 implies #[trigger] counter_digit(a, p) == counter_digit(b, p) by {
        assert(counter_simple_id(a)[p] == counter_simple_id(b)[p]);
        assert(counter_simple_id(a)[p] == hex_digit(counter_digit(a, p)));
        assert(counter_simple_id(b)[p] == hex_digit(counter_digit(b, p)));
        lemma_digit_below_16(a, (4 * (31 - p)) as u64);
        lemma_digit_below_16(b, (4 * (31 - p)) as u64);
        lemma_hex_digit_injective(counter_digit(a, p), counter_digit(b, p));
    }
    lemma_sixteen_digits_fix_counter(a, b);
}

/// Two counters whose last sixteen digits agree are equal.
proof fn lemma_sixteen_digits_fix_counter(a: u64, b: u64)
    requires
        forall|p: int| 16 <= p < 32 ==> #[trigger] counter_digit(a, p) == counter_digit(b, p),
    ensures
        a == b,
{
    assert(counter_digit(a, 16) == counter_digit(b, 16));
    assert(counter_digit(a, 17) == counter_digit(b, 17));
    assert(counter_digit(a, 18) == counter_digit(b, 18));
    assert(counter_digit(a, 19) == counter_digit(b, 19));
    assert(counter_digit(a, 20) == counter_digit(b, 20));
    assert(counter_digit(a, 21) == counter_digit(b, 21));
    assert(counter_digit(a, 22) == counter_digit(b, 22));
    assert(counter_digit(a, 23) == counter_digit(b, 23));
    assert(counter_digit(a, 24) == counter_digit(b, 24));
    assert(counter_digit(a, 25) == counter_digit(b, 25));
    assert(counter_digit(a, 26) == counter_digit(b, 26));
    assert(counter_digit(a, 27) == counter_digit(b, 27));
    assert(counter_digit(a, 28) == counter_digit(b, 28));
    assert(counter_digit(a, 29) == counter_digit(b, 29));
    assert(counter_digit(a, 30) == counter_digit(b, 30));
    assert(counter_digit(a, 31) == counter_digit(b, 31));
    lemma_digits_fix_counter(a, b);
}

/// Counting out ids with an injective `f`: when a finite set of `n` ids holds
/// those for every counter below `n`, it does not hold the one for `n`.
proof fn lemma_counted_id_missing(keys: Set<Seq<char>>, f: spec_fn(u64) -> Seq<char>)
    requires
        keys.finite(),
        keys.len() <= u64::MAX,
        forall|a: u64, b: u64| #[trigger] f(a) == #[trigger] f(b) ==> a == b,
        forall|j: u64| j < keys.len() ==> keys.contains(#[trigger] f(j)),
    ensures
        !keys.contains(f(keys.len() as u64)),
{
    let n = keys.len();
    if keys.contains(f(n as u64)) {
        let q = Seq::new(n + 1, |j: int| f(j as u64));
        assert(q.no_duplicates()) by {
            assert forall|i: int, j: int| 0 <= i < q.len() && 0 <= j < q.len() && i != j implies q[i]
                != q[j] by {
                assert(f(i as u64) == q[i] && f(j as u64) == q[j]);
            }
        }
        q.unique_seq_to_set();
        assert(q.to_set().subset_of(keys)) by {
            assert forall|s: Seq<char>| q.to_set().contains(s) implies keys.contains(s) by {
                let j = choose|j: int| 0 <= j < q.len() && q[j] == s;
                assert(keys.contains(f(j as u64)));
            }
        }
        vstd::set_lib::lemma_len_subset(q.to_set(), keys);
    }
}

/// Among the ids counted out for `0..=n`, where `n` is the number of ids in
/// `keys`, one is missing from `keys`: if all those below `n` are in `keys`,
/// the one for `n` is not.
pub proof fn lemma_counter_id_missing(keys: Set<Seq<char>>)
    requires
        keys.finite(),
        keys.len() <= u64::MAX,
        forall|j: u64| j < keys.len() ==> keys.contains(#[trigger] counter_id(j)),
    ensures
        !keys.contains(counter_id(keys.len() as u64)),
{
    let f = |k: u64| counter_id(k);
    assert forall|a: u64, b: u64| #[trigger] f(a) == #[trigger] f(b) implies a == b by {
        lemma_counter_id_injective(a, b);
    }
    assert forall|j: u64| j < keys.len() implies keys.contains(#[trigger] f(j)) by {
        assert(keys.contains(counter_id(j)));
    }
    lemma_counted_id_missing(keys, f);
}

/// The same for ids counted out in the simple form.
pub proof fn lemma_counter_simple_id_missing(keys: Set<Seq<char>>)
    requires
        keys.finite(),
        keys.len() <= u64::MAX,
        forall|j: u64| j < keys.len() ==> keys.contains(#[trigger] counter_simple_id(j)),
    ensures
        !keys.contains(counter_simple_id(keys.len() as u64)),
{
    let f = |k: u64| counter_simple_id(k);
    assert forall|a: u64, b: u64| #[trigger] f(a) == #[trigger] f(b) implies a == b by {
        lemma_counter_simple_id_injective(a, b);
    }
    assert forall|j: u64| j < keys.len() implies keys.contains(#[trigger] f(j)) by {
        assert(keys.contains(counter_simple_id(j)));
    }
    lemma_counted_id_missing(keys, f);
}

/// The hexadecimal digit for `d`, below 16.
fn hex_digit_of(d: u64) -> (c: char)
    ensures
        c == hex_digit(d),
{
    match d {
        0 => '0',
        1 => '1',
        2 => '2',
        3 => '3',
        4 => '4',
        5 => '5',
        6 => '6',
        7 => '7',
        8 => '8',
        9 => '9',
        10 => 'a',
        11 => 'b',
        12 => 'c',
        13 => 'd',
        14 => 'e',
        _ => 'f',
    }
}

/// The id counted out for `k` (see `counter_id`).
pub fn counter_id_of(k: u64) -> (s: String)
    ensures
        s@ == counter_id(k),
        is_hyphenated_uuid(s@),
{
    let mut s = String::new();
    let mut i: usize = 0;
    while i < 36
        invariant
            i <= 36,
            s@ == counter_id(k).subrange(0, i as int),
        decreases 36 - i,
    {
        if i == 8 || i == 13 || i == 18 || i == 23 {
            push_char(&mut s, '-');
        } else {
            let p: usize = if i < 8 {
                i
            } else if i < 13 {
                i - 1
            } else if i < 18 {
                i - 2
            } else if i < 23 {
                i - 3
            } else {
                i - 4
            };
            let d: u64 = if p < 16 {
                0
            } else {
                let sh: u64 = (4 * (31 - p)) as u64;
                (k >> sh) & 15
            };
            push_char(&mut s, hex_digit_of(d));
        }
        assert(s@ =~= counter_id(k).subrange(0, i + 1));
        i += 1;
    }
    proof {
        lemma_counter_id_form(k);
    }
    assert(s@ =~= counter_id(k));
    s
}

/// The id counted out for `k` in the simple form (see `counter_simple_id`).
pub fn counter_simple_id_of(k: u64) -> (s: String)
    ensures
        s@ == counter_simple_id(k),
        is_simple_uuid(s@),
{
    let mut s = String::new();
    let mut p: usize = 0;
    while p < 32
        invariant
            p <= 32,
            s@ == counter_simple_id(k).subrange(0, p as int),
        decreases 32 - p,
    {
        let d: u64 = if p < 16 {
            0
        } else {
            let sh: u64 = (4 * (31 - p)) as u64;
            (k >> sh) & 15
        };
        push_char(&mut s, hex_digit_of(d));
        assert(s@ =~= counter_simple_id(k).subrange(0, p + 1));
        p += 1;
    }
    proof {
        lemma_counter_simple_id_form(k);
    }
    assert(s@ =~= counter_simple_id(k));
    s
}

} // verus!
