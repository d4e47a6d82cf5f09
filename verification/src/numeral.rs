use vstd::prelude::*;

verus! {

/// The whitespace characters stripped from the ends of a line before it is
/// parsed.
pub open spec fn is_space(c: char) -> bool {
    c == ' ' || c == '\t' || c == '\r' || c == '\n'
}

/// `s` with its leading whitespace removed.
pub open spec fn trim_front(s: Seq<char>) -> Seq<char>
    decreases s.len(),
{
    if s.len() > 0 && is_space(s[0]) {
        trim_front(s.skip(1))
    } else {
        s
    }
}

/// `s` with its trailing whitespace removed.
pub open spec fn trim_back(s: Seq<char>) -> Seq<char>
    decreases s.len(),
{
    if s.len() > 0 && is_space(s[s.len() - 1]) {
        trim_back(s.take(s.len() - 1))
    } else {
        s
    }
}

/// `s` with whitespace removed from both ends.
pub open spec fn trimmed(s: Seq<char>) -> Seq<char> {
    trim_back(trim_front(s))
}

pub open spec fn is_digit(c: char) -> bool {
    '0' as int <= c as int && c as int <= '9' as int
}

/// The numeric value of a decimal digit character.
pub open spec fn digit_val(c: char) -> int {
    c as int - '0' as int
}

pub open spec fn all_digits(s: Seq<char>) -> bool {
    forall|i: int| 0 <= i < s.len() ==> is_digit(s[i])
}

/// The number that a sequence of decimal digits denotes.
pub open spec fn digits_val(s: Seq<char>) -> int
    decreases s.len(),
{
    if s.len() == 0 {
        0
    } else {
        digits_val(s.take(s.len() - 1)) * 10 + digit_val(s[s.len() - 1])
    }
}

/// The digits of a numeral: everything after an optional leading plus sign.
pub open spec fn digits_part(t: Seq<char>) -> Seq<char> {
    if t.len() > 0 && t[0] == '+' {
        t.skip(1)
    } else {
        t
    }
}

/// Whether `t` is a numeral that a `u32` can hold: an optional plus sign,
/// then at least one decimal digit, denoting a value of at most `u32::MAX`.
pub open spec fn is_u32_numeral(t: Seq<char>) -> bool {
    &&& digits_part(t).len() > 0
    &&& all_digits(digits_part(t))
    &&& digits_val(digits_part(t)) <= u32::MAX
}

/// The value of the numeral `t`.
pub open spec fn numeral_val(t: Seq<char>) -> int {
    digits_val(digits_part(t))
}

proof fn lemma_trim_front_skip(s: Seq<char>, k: int)
    requires
        0 <= k <= s.len(),
        forall|i: int| 0 <= i < k ==> is_space(s[i]),
        k < s.len() ==> !is_space(s[k]),
    ensures
        trim_front(s) == s.skip(k),
    decreases k,
{
    if k == 0 {
        assert(s.skip(0) =~= s);
    } else {
        assert(is_space(s[0]));
        assert(forall|i: int| 0 <= i < k - 1 ==> is_space(s.skip(1)[i]));
        lemma_trim_front_skip(s.skip(1), k - 1);
        assert(s.skip(1).skip(k - 1) =~= s.skip(k));
    }
}

proof fn lemma_trim_back_take(s: Seq<char>, k: int)
    requires
        0 <= k <= s.len(),
        forall|i: int| k <= i < s.len() ==> is_space(s[i]),
        k > 0 ==> !is_space(s[k - 1]),
    ensures
        trim_back(s) == s.take(k),
    decreases s.len(),
{
    if k == s.len() {
        assert(s.take(k) =~= s);
    } else {
        assert(is_space(s[s.len() - 1]));
        assert(forall|i: int| k <= i < s.len() - 1 ==> is_space(#[trigger] s.take(s.len() - 1)[i]));
        lemma_trim_back_take(s.take(s.len() - 1), k);
        assert(s.take(s.len() - 1).take(k) =~= s.take(k));
    }
}

proof fn lemma_digits_val_nonneg(s: Seq<char>)
    requires
        all_digits(s),
    ensures
        digits_val(s) >= 0,
    decreases s.len(),
{
    if s.len() > 0 {
        assert(all_digits(s.take(s.len() - 1)));
        lemma_digits_val_nonneg(s.take(s.len() - 1));
    }
}

/// A decimal numeral denotes at least as much as any of its prefixes.
proof fn lemma_digits_val_prefix_le(s: Seq<char>, m: int)
    requires
        all_digits(s),
        0 <= m <= s.len(),
    ensures
        digits_val(s.take(m)) <= digits_val(s),
    decreases s.len() - m,
{
    if m == s.len() {
        assert(s.take(m) =~= s);
    } else {
        lemma_digits_val_prefix_le(s, m + 1);
        assert(s.take(m + 1).take(m) =~= s.take(m));
        assert(all_digits(s.take(m)));
        lemma_digits_val_nonneg(s.take(m));
        assert(s.take(m + 1)[m] == s[m]);
        assert(digits_val(s.take(m + 1)) == digits_val(s.take(m)) * 10 + digit_val(s[m]));
    }
}

/// Parses one line of input the way the guessing program does: whitespace is
/// trimmed from both ends, and what remains must be a decimal numeral,
/// optionally preceded by a plus sign, whose value fits in a `u32`. Anything
/// else - an empty line, letters, a minus sign, a value past `u32::MAX` -
/// yields `None`.
pub fn parse_u32(s: &str) -> (r: Option<u32>)
    ensures
        is_u32_numeral(trimmed(s@)) ==> r == Some(numeral_val(trimmed(s@)) as u32),
        !is_u32_numeral(trimmed(s@)) ==> r is None,
{
    let n = s.unicode_len();
    let mut start: usize = 0;
    while start < n && is_space_char(s.get_char(start))
        invariant
            n == s@.len(),
            start <= n,
            forall|i: int| 0 <= i < start ==> is_space(s@[i]),
        decreases n - start,
    {
        start = start + 1;
    }
    let mut end: usize = n;
    while end > start && is_space_char(s.get_char(end - 1))
        invariant
            n == s@.len(),
            start <= end <= n,
            start < s@.len() ==> !is_space(s@[start as int]),
            forall|i: int| end <= i < n ==> is_space(s@[i]),
        decreases end,
    {
        end = end - 1;
    }
    let ghost t = s@.subrange(start as int, end as int);
    proof {
        lemma_trim_front_skip(s@, start as int);
        assert(forall|i: int| end - start <= i < s@.skip(start as int).len()
            ==> is_space(s@.skip(start as int)[i]));
        lemma_trim_back_take(s@.skip(start as int), end - start);
        assert(s@.skip(start as int).take(end - start) =~= t);
        assert(trimmed(s@) == t);
    }
    let mut i = start;
    if i < end && s.get_char(i) == '+' {
        i = i + 1;
    }
    proof {
        assert(digits_part(t) =~= s@.subrange(i as int, end as int));
    }
    if i == end {
        proof {
            assert(digits_part(t).len() == 0);
        }
        return None;
    }
    let mut acc: u64 = 0;
    let mut j = i;
    while j < end
        invariant
            n == s@.len(),
            i <= j <= end <= n,
            i < end,
            t == s@.subrange(start as int, end as int),
            trimmed(s@) == t,
            digits_part(t) == s@.subrange(i as int, end as int),
            forall|k: int| i <= k < j ==> is_digit(s@[k]),
            acc == digits_val(s@.subrange(i as int, j as int)),
            acc <= u32::MAX,
        decreases end - j,
    {
        let c = s.get_char(j);
        let cv = c as u32;
        let ghost d = s@.subrange(i as int, end as int);
        if cv < 48 || cv > 57 {
            proof {
                assert(d[j - i] == s@[j as int]);
                assert(!is_digit(s@[j as int]));
                assert(!all_digits(d));
            }
            return None;
        }
        proof {
            assert(is_digit(s@[j as int]));
            assert(s@.subrange(i as int, j + 1).take(j + 1 - i) =~= s@.subrange(i as int, j + 1));
            assert(s@.subrange(i as int, j + 1).take(j - i) =~= s@.subrange(i as int, j as int));
            assert(s@.subrange(i as int, j + 1)[j - i] == s@[j as int]);
            assert(digits_val(s@.subrange(i as int, j + 1))
                == acc * 10 + digit_val(s@[j as int]));
        }
        if acc > 429496729u64 || (acc == 429496729u64 && cv > 53) {
            proof {
                if all_digits(d) {
                    assert(d.take(j + 1 - i) =~= s@.subrange(i as int, j + 1));
                    lemma_digits_val_prefix_le(d, j + 1 - i);
                    assert(digits_val(d) > u32::MAX);
                }
                assert(!is_u32_numeral(t));
            }
            return None;
        }
        acc = acc * 10 + ((cv - 48) as u64);
        j = j + 1;
    }
    proof {
        let d = s@.subrange(i as int, end as int);
        assert(forall|k: int| 0 <= k < d.len() ==> d[k] == s@[i + k]);
        assert(all_digits(d));
        assert(is_u32_numeral(t));
        assert(numeral_val(trimmed(s@)) == acc);
    }
    Some(acc as u32)
}

/// Whether a character is one the parser trims away.
fn is_space_char(c: char) -> (r: bool)
    ensures
        r == is_space(c),
{
    c == ' ' || c == '\t' || c == '\r' || c == '\n'
}

} // verus!
