//! Reading the size of a board from text such as `50x30`.

use vstd::prelude::*;
use vstd::string::StringSliceAdditionalSpecFns;

verus! {

/// The byte `+`.
pub const PLUS: u8 = 43;

/// The byte `0`.
pub const ZERO: u8 = 48;

/// The byte `9`.
pub const NINE: u8 = 57;

/// The byte `x`.
pub const CROSS: u8 = 120;

/// The byte is a decimal digit.
pub open spec fn is_digit(c: u8) -> bool {
    ZERO <= c <= NINE
}

/// Every byte of the text is a decimal digit.
pub open spec fn all_digits(s: Seq<u8>) -> bool {
    forall|i: int| 0 <= i < s.len() ==> is_digit(#[trigger] s[i])
}

/// The number that the digits write in base ten.
pub open spec fn value_of(s: Seq<u8>) -> nat
    decreases s.len(),
{
    if s.len() == 0 {
        0
    } else {
        value_of(s.drop_last()) * 10 + (s.last() - ZERO) as nat
    }
}

/// The text without a `+` in front of it.
pub open spec fn unsigned(s: Seq<u8>) -> Seq<u8> {
    if s.len() > 0 && s[0] == PLUS {
        s.subrange(1, s.len() as int)
    } else {
        s
    }
}

/// The number that the text writes: one decimal digit or more, with or
/// without one `+` in front. Any other text writes none.
pub open spec fn number_of(s: Seq<u8>) -> Option<nat> {
    let d = unsigned(s);
    if d.len() > 0 && all_digits(d) {
        Some(value_of(d))
    } else {
        None
    }
}

/// The text is the number `w`, an `x`, and the number `h`; the `x` is its
/// byte `i`.
pub open spec fn reads_at(s: Seq<u8>, i: int, w: nat, h: nat) -> bool {
    &&& 0 <= i < s.len()
    &&& s[i] == CROSS
    &&& number_of(s.subrange(0, i)) == Some(w)
    &&& number_of(s.subrange(i + 1, s.len() as int)) == Some(h)
}

/// The text is the number `w`, an `x`, and the number `h`.
pub open spec fn reads(s: Seq<u8>, w: nat, h: nat) -> bool {
    exists|i: int| reads_at(s, i, w, h)
}

/// The digits of a longer text write no less than those of its start.
pub proof fn lemma_value_grows(s: Seq<u8>, k: int)
    requires
        0 <= k <= s.len(),
        all_digits(s),
    ensures
        value_of(s.take(k)) <= value_of(s),
    decreases s.len(),
{
    if k == s.len() {
        assert(s.take(k) =~= s);
    } else {
        let t = s.drop_last();
        assert forall|i: int| 0 <= i < t.len() implies is_digit(#[trigger] t[i]) by {
            assert(t[i] == s[i]);
        }
        lemma_value_grows(t, k);
        assert(t.take(k) =~= s.take(k));
        assert(is_digit(s[s.len() - 1]));
    }
}

/// No byte of a text that writes a number is an `x`.
pub proof fn lemma_number_without_cross(s: Seq<u8>, j: int)
    requires
        number_of(s) is Some,
        0 <= j < s.len(),
    ensures
        s[j] != CROSS,
{
    let d = unsigned(s);
    if s[0] == PLUS {
        if j > 0 {
            assert(d[j - 1] == s[j]);
            assert(is_digit(d[j - 1]));
        }
    } else {
        assert(is_digit(d[j]));
    }
}

/// A text reads as one size at most.
pub proof fn law_size_is_unique(s: Seq<u8>, w: nat, h: nat, w2: nat, h2: nat)
    requires
        reads(s, w, h),
        reads(s, w2, h2),
    ensures
        w == w2,
        h == h2,
{
    let i = choose|i: int| reads_at(s, i, w, h);
    let k = choose|k: int| reads_at(s, k, w2, h2);
    lemma_cross_is_unique(s, i, k, w, h, w2, h2);
}

/// The `x` of a text that reads as a size is its only one.
pub proof fn lemma_cross_is_unique(s: Seq<u8>, i: int, k: int, w: nat, h: nat, w2: nat, h2: nat)
    requires
        reads_at(s, i, w, h),
        reads_at(s, k, w2, h2),
    ensures
        i == k,
{
    if i < k {
        let front = s.subrange(0, k);
        lemma_number_without_cross(front, i);
        assert(front[i] == s[i]);
    }
    if k < i {
        let front = s.subrange(0, i);
        lemma_number_without_cross(front, k);
        assert(front[k] == s[k]);
    }
}

/// The number that the bytes `from..to` of `text` write, where it is one
/// that a `usize` holds.
fn parse_number(text: &[u8], from: usize, to: usize) -> (r: Option<usize>)
    requires
        from <= to <= text@.len(),
    ensures
        r matches Some(v) ==> number_of(text@.subrange(from as int, to as int)) == Some(v as nat),
        r is None ==> (number_of(text@.subrange(from as int, to as int)) matches Some(v) ==> v
            > usize::MAX),
{
    let ghost s = text@.subrange(from as int, to as int);
    let mut i = from;
    if i < to && text[i] == PLUS {
        i = i + 1;
    }
    if i == to {
        return None;
    }
    let start = i;
    let ghost d = text@.subrange(start as int, to as int);
    assert(d =~= unsigned(s));
    let mut acc: usize = 0;
    assert(d.take(0) =~= Seq::<u8>::empty());
    while i < to
        invariant
            from <= start <= i <= to,
            to <= text@.len(),
            d == text@.subrange(start as int, to as int),
            d == unsigned(text@.subrange(from as int, to as int)),
            all_digits(d.take(i - start)),
            acc == value_of(d.take(i - start)),
        decreases to - i,
    {
        let c = text[i];
        assert(d[i - start] == c);
        if c < ZERO || c > NINE {
            assert(!all_digits(d));
            return None;
        }
        let ghost longer = d.take(i - start + 1);
        proof {
            assert(longer.drop_last() =~= d.take(i - start));
            assert(longer.last() == c);
            assert forall|j: int| 0 <= j < longer.len() implies is_digit(#[trigger] longer[j]) by {
                if j < i - start {
                    assert(d.take(i - start)[j] == longer[j]);
                }
            }
            if all_digits(d) {
                lemma_value_grows(d, i - start + 1);
            }
        }
        let tens = match acc.checked_mul(10) {
            Some(t) => t,
            None => {
                return None;
            },
        };
        acc = match tens.checked_add((c - ZERO) as usize) {
            Some(t) => t,
            None => {
                return None;
            },
        };
        i = i + 1;
    }
    assert(d.take(to - start) =~= d);
    Some(acc)
}

/// The size `(width, height)` that a text such as `50x30` gives.
///
/// The text is a width, an `x`, and a height; each is one decimal digit or
/// more, with or without one `+` in front, and no more than a `usize`
/// holds. Any other text gives `None`.
pub fn parse_size(size_str: &str) -> (r: Option<(usize, usize)>)
    ensures
        r matches Some(p) ==> reads(size_str.spec_bytes(), p.0 as nat, p.1 as nat),
        r is None ==> forall|w: nat, h: nat|
            reads(size_str.spec_bytes(), w, h) ==> w > usize::MAX || h > usize::MAX,
{
    let text = size_str.as_bytes();
    let ghost s = text@;
    let n = text.len();
    let mut i: usize = 0;
    while i < n && text[i] != CROSS
        invariant
            i <= n,
            n == text@.len(),
            forall|j: int| 0 <= j < i ==> text@[j] != CROSS,
        decreases n - i,
    {
        i = i + 1;
    }
    if i == n {
        assert forall|w: nat, h: nat| !reads(s, w, h) by {
            if reads(s, w, h) {
                let k = choose|k: int| reads_at(s, k, w, h);
                assert(s[k] == CROSS);
            }
        }
        return None;
    }
    let width = parse_number(text, 0, i);
    let height = parse_number(text, i + 1, n);
    proof {
        assert forall|w: nat, h: nat| reads(s, w, h) implies reads_at(s, i as int, w, h) by {
            let k = choose|k: int| reads_at(s, k, w, h);
            if k > i {
                let front = s.subrange(0, k);
                lemma_number_without_cross(front, i as int);
                assert(front[i as int] == s[i as int]);
            }
        }
    }
    match (width, height) {
        (Some(w), Some(h)) => {
            assert(reads_at(s, i as int, w as nat, h as nat));
            Some((w, h))
        },
        _ => None,
    }
}

} // verus!
