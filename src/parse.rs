use vstd::prelude::*;

verus! {

/// Value of `c` as a digit in base `radix` (10 or 16), if it is one.
pub open spec fn digit_value(c: char, radix: nat) -> Option<nat> {
    if '0' <= c && c <= '9' && (c as nat) - ('0' as nat) < radix {
        Some(((c as nat) - ('0' as nat)) as nat)
    } else if radix == 16 && 'a' <= c && c <= 'f' {
        Some(((c as nat) - ('a' as nat) + 10) as nat)
    } else if radix == 16 && 'A' <= c && c <= 'F' {
        Some(((c as nat) - ('A' as nat) + 10) as nat)
    } else {
        None
    }
}

pub open spec fn all_digits(s: Seq<char>, radix: nat) -> bool {
    forall|i: int| 0 <= i < s.len() ==> (#[trigger] digit_value(s[i], radix)).is_some()
}

/// Value of a string of digits, most significant first.
pub open spec fn digits_value(s: Seq<char>, radix: nat) -> nat
    decreases s.len(),
{
    if s.len() == 0 {
        0
    } else {
        digits_value(s.drop_last(), radix) * radix + digit_value(s.last(), radix).unwrap_or(0)
    }
}

/// The digits of an unsigned number: an optional leading `+` is dropped.
pub open spec fn unsigned_digits(s: Seq<char>) -> Seq<char> {
    if s.len() > 0 && s[0] == '+' {
        s.drop_first()
    } else {
        s
    }
}

/// An unsigned machine-size number written in base `radix`: an optional `+`,
/// one digit or more, and a value that fits in `usize`.
pub open spec fn unsigned_value(s: Seq<char>, radix: nat) -> Option<nat> {
    let d = unsigned_digits(s);
    if d.len() > 0 && all_digits(d, radix) && digits_value(d, radix) <= usize::MAX {
        Some(digits_value(d, radix))
    } else {
        None
    }
}

/// A hexadecimal address, with or without a leading `0x` or `0X`.
pub open spec fn address_value(s: Seq<char>) -> Option<nat> {
    if s.len() >= 2 && s[0] == '0' && (s[1] == 'x' || s[1] == 'X') {
        unsigned_value(s.subrange(2, s.len() as int), 16)
    } else {
        unsigned_value(s, 16)
    }
}

fn digit(c: char, radix: u32) -> (r: Option<usize>)
    requires
        radix == 10 || radix == 16,
    ensures
        r matches Some(v) ==> digit_value(c, radix as nat) == Some(v as nat),
        r is None ==> digit_value(c, radix as nat) is None,
{
    if '0' <= c && c <= '9' && (c as u32) - ('0' as u32) < radix {
        Some(((c as u32) - ('0' as u32)) as usize)
    } else if radix == 16 && 'a' <= c && c <= 'f' {
        Some(((c as u32) - ('a' as u32) + 10) as usize)
    } else if radix == 16 && 'A' <= c && c <= 'F' {
        Some(((c as u32) - ('A' as u32) + 10) as usize)
    } else {
        None
    }
}

proof fn lemma_digits_value_grows(s: Seq<char>, radix: nat, k: int)
    requires
        0 <= k <= s.len(),
        radix >= 1,
    ensures
        digits_value(s.subrange(0, k), radix) <= digits_value(s, radix),
    decreases s.len() - k,
{
    if k < s.len() {
        lemma_digits_value_grows(s, radix, k + 1);
        let p = s.subrange(0, k + 1);
        assert(p.drop_last() =~= s.subrange(0, k));
        let a = digits_value(s.subrange(0, k), radix);
        assert(a <= a * radix) by (nonlinear_arith)
            requires radix >= 1;
    } else {
        assert(s.subrange(0, k) =~= s);
    }
}

/// Parses the characters of `s` from position `start` on as an unsigned
/// number in base `radix`, as `usize::from_str_radix` reads it.
pub fn parse_unsigned(s: &str, start: usize, radix: u32) -> (r: Option<usize>)
    requires
        radix == 10 || radix == 16,
        start <= s@.len(),
    ensures
        r matches Some(v) ==> unsigned_value(s@.subrange(start as int, s@.len() as int), radix as nat)
            == Some(v as nat),
        r is None ==> unsigned_value(
            s@.subrange(start as int, s@.len() as int),
            radix as nat,
        ) is None,
{
    let ghost full = s@.subrange(start as int, s@.len() as int);
    let n = s.unicode_len();
    let mut i: usize = start;
    if i < n && s.get_char(i) == '+' {
        i = i + 1;
    }
    let ghost first = i;
    let ghost d = unsigned_digits(full);
    assert(d =~= s@.subrange(first as int, n as int));
    if i == n {
        return None;
    }
    let mut acc: usize = 0;
    while i < n
        invariant
            first <= i <= n,
            n == s@.len(),
            first < n,
            radix == 10 || radix == 16,
            d == s@.subrange(first as int, n as int),
            start <= n,
            full == s@.subrange(start as int, n as int),
            d == unsigned_digits(full),
            all_digits(s@.subrange(first as int, i as int), radix as nat),
            acc as nat == digits_value(s@.subrange(first as int, i as int), radix as nat),
        decreases n - i,
    {
        let c = s.get_char(i);
        let dv = match digit(c, radix) {
            Some(v) => v,
            None => {
                assert(d[i - first] == c);
                assert(digit_value(d[i - first], radix as nat) is None);
                return None;
            },
        };
        let ghost pre = s@.subrange(first as int, i as int);
        let ghost next = s@.subrange(first as int, i + 1);
        assert(next.drop_last() =~= pre);
        assert(next.last() == c);
        assert(all_digits(next, radix as nat)) by {
            assert forall|j: int| 0 <= j < next.len() implies (#[trigger] digit_value(
                next[j],
                radix as nat,
            )).is_some() by {
                if j < pre.len() {
                    assert(next[j] == pre[j]);
                }
            }
        }
        let step = acc.checked_mul(radix as usize);
        let val = match step {
            Some(m) => m.checked_add(dv),
            None => None,
        };
        match val {
            Some(v) => {
                acc = v;
                i = i + 1;
            },
            None => {
                proof {
                    assert(next =~= d.subrange(0, (i + 1 - first) as int));
                    lemma_digits_value_grows(d, radix as nat, (i + 1 - first) as int);
                }
                return None;
            },
        }
    }
    assert(s@.subrange(first as int, i as int) =~= d);
    Some(acc)
}

} // verus!
