use vstd::prelude::*;

verus! {

/// `pat` stands in `s` at position `i`.
pub open spec fn occurs_at(s: Seq<char>, pat: Seq<char>, i: int) -> bool {
    0 <= i && i + pat.len() <= s.len() && s.subrange(i, i + pat.len()) == pat
}

/// `s` holds `pat` at some position.
pub open spec fn contains_text(s: Seq<char>, pat: Seq<char>) -> bool {
    exists|i: int| occurs_at(s, pat, i)
}

/// `i` is the first position of `pat` in `s`.
pub open spec fn first_occurrence(s: Seq<char>, pat: Seq<char>, i: int) -> bool {
    occurs_at(s, pat, i) && forall|b: int| 0 <= b < i ==> !occurs_at(s, pat, b)
}

/// `j` is the position of the last space in `s`.
pub open spec fn last_space(s: Seq<char>, j: int) -> bool {
    &&& 0 <= j < s.len()
    &&& s[j] == ' '
    &&& forall|m: int| j < m < s.len() ==> s[m] != ' '
}

pub open spec fn is_digit(c: char) -> bool {
    '0' <= c && c <= '9'
}

/// `s` is a non-empty run of decimal digits.
pub open spec fn is_decimal(s: Seq<char>) -> bool {
    s.len() > 0 && forall|i: int| 0 <= i < s.len() ==> is_digit(#[trigger] s[i])
}

/// The number that the decimal digits `s` spell.
pub open spec fn decimal_value(s: Seq<char>) -> int
    decreases s.len(),
{
    if s.len() == 0 {
        0
    } else {
        decimal_value(s.drop_last()) * 10 + (s.last() as int - '0' as int)
    }
}

/// `s` without a leading `+`, if it has one.
pub open spec fn unsigned_digits(s: Seq<char>) -> Seq<char> {
    if s.len() > 0 && s[0] == '+' {
        s.drop_first()
    } else {
        s
    }
}

/// The unsigned 64-bit number that `s` spells in decimal, after an optional
/// leading `+`, if it is one.
pub open spec fn u64_text(s: Seq<char>) -> Option<u64> {
    let d = unsigned_digits(s);
    if is_decimal(d) && decimal_value(d) <= u64::MAX {
        Some(decimal_value(d) as u64)
    } else {
        None
    }
}

/// `s` without the slashes that end it, one character always kept.
pub open spec fn trim_trailing_slashes(s: Seq<char>) -> Seq<char>
    decreases s.len(),
{
    if s.len() > 1 && s.last() == '/' {
        trim_trailing_slashes(s.drop_last())
    } else {
        s
    }
}

/// `s` without the slashes that end it (see `trim_trailing_slashes`).
pub fn without_trailing_slashes(s: &str) -> (r: String)
    ensures
        r@ == trim_trailing_slashes(s@),
{
    let mut n: usize = s.unicode_len();
    assert(s@.take(n as int) =~= s@);
    while n > 1 && s.get_char(n - 1) == '/'
        invariant
            n <= s@.len(),
            trim_trailing_slashes(s@) == trim_trailing_slashes(s@.take(n as int)),
        decreases n,
    {
        assert(s@.take(n as int).drop_last() =~= s@.take(n - 1));
        n = n - 1;
    }
    let r = String::from_str(s.substring_char(0, n));
    assert(r@ =~= s@.take(n as int));
    r
}

/// Whether `pat` stands in `s` at position `i`.
pub fn text_at(s: &str, pat: &str, i: usize) -> (r: bool)
    ensures
        r == occurs_at(s@, pat@, i as int),
{
    let n = pat.unicode_len();
    let sl = s.unicode_len();
    if i > sl || n > sl - i {
        return false;
    }
    let mut k: usize = 0;
    while k < n
        invariant
            n == pat@.len(),
            sl == s@.len(),
            i + n <= sl,
            k <= n,
            forall|m: int| 0 <= m < k ==> s@[i + m] == pat@[m],
        decreases n - k,
    {
        if s.get_char(i + k) != pat.get_char(k) {
            assert(s@.subrange(i as int, i + n)[k as int] != pat@[k as int]);
            return false;
        }
        k = k + 1;
    }
    assert(s@.subrange(i as int, i + n) =~= pat@);
    true
}

/// Whether `a` and `b` hold the same characters.
pub fn same_text(a: &str, b: &str) -> (r: bool)
    ensures
        r == (a@ == b@),
{
    if a.unicode_len() != b.unicode_len() {
        return false;
    }
    assert(a@.subrange(0, a@.len() as int) =~= a@);
    text_at(a, b, 0)
}

/// The first position of `pat` in `s`, if it stands there at all.
pub fn find_text(s: &str, pat: &str) -> (r: Option<usize>)
    ensures
        match r {
            Some(i) => first_occurrence(s@, pat@, i as int),
            None => !contains_text(s@, pat@),
        },
{
    let sl = s.unicode_len();
    let pl = pat.unicode_len();
    if pl > sl {
        return None;
    }
    let mut i: usize = 0;
    while i <= sl - pl
        invariant
            sl == s@.len(),
            pl == pat@.len(),
            pl <= sl,
            i <= sl - pl + 1,
            forall|b: int| 0 <= b < i ==> !occurs_at(s@, pat@, b),
        ensures
            forall|b: int| 0 <= b <= sl - pl ==> !occurs_at(s@, pat@, b),
        decreases sl - pl + 1 - i,
    {
        if text_at(s, pat, i) {
            return Some(i);
        }
        if i == sl - pl {
            break;
        }
        i = i + 1;
    }
    None
}

/// Whether `s` holds `pat` anywhere.
pub fn contains_str(s: &str, pat: &str) -> (r: bool)
    ensures
        r == contains_text(s@, pat@),
{
    find_text(s, pat).is_some()
}

/// The position of the last space among the first `end` characters of `s`.
pub fn find_last_space(s: &str, end: usize) -> (r: Option<usize>)
    requires
        end <= s@.len(),
    ensures
        match r {
            Some(j) => last_space(s@.take(end as int), j as int),
            None => forall|m: int| 0 <= m < end ==> s@[m] != ' ',
        },
{
    let mut i: usize = end;
    while i > 0
        invariant
            i <= end <= s@.len(),
            forall|m: int| i <= m < end ==> s@[m] != ' ',
        decreases i,
    {
        if s.get_char(i - 1) == ' ' {
            return Some(i - 1);
        }
        i = i - 1;
    }
    None
}

proof fn lemma_decimal_grows(s: Seq<char>, i: int)
    requires
        0 <= i <= s.len(),
        forall|m: int| 0 <= m < s.len() ==> is_digit(#[trigger] s[m]),
    ensures
        0 <= decimal_value(s.take(i)) <= decimal_value(s),
    decreases s.len() - i,
{
    if i < s.len() {
        assert(s.take(i + 1).drop_last() =~= s.take(i));
        lemma_decimal_grows(s, i + 1);
    } else {
        assert(s.take(i) =~= s);
        lemma_decimal_nonneg(s);
    }
}

proof fn lemma_decimal_nonneg(s: Seq<char>)
    requires
        forall|m: int| 0 <= m < s.len() ==> is_digit(#[trigger] s[m]),
    ensures
        0 <= decimal_value(s),
    decreases s.len(),
{
    if s.len() > 0 {
        assert(forall|m: int| 0 <= m < s.drop_last().len() ==> s.drop_last()[m] == s[m]);
        lemma_decimal_nonneg(s.drop_last());
    }
}

/// Reads an unsigned decimal number: an optional `+`, then only digits, at
/// least one, and a value that fits in 64 bits.
pub fn parse_u64(s: &str) -> (r: Option<u64>)
    ensures
        r == u64_text(s@),
{
    let n = s.unicode_len();
    let start: usize = if n > 0 && s.get_char(0) == '+' {
        1
    } else {
        0
    };
    let ghost d = unsigned_digits(s@);
    assert(d =~= s@.subrange(start as int, n as int));
    if n == start {
        return None;
    }
    let mut v: u64 = 0;
    let mut i: usize = start;
    while i < n
        invariant
            n == s@.len(),
            start <= i <= n,
            d == s@.subrange(start as int, n as int),
            d == unsigned_digits(s@),
            forall|m: int| 0 <= m < i - start ==> is_digit(#[trigger] d[m]),
            v == decimal_value(d.take(i - start)),
        decreases n - i,
    {
        let c = s.get_char(i);
        assert(d[i - start] == c);
        if c < '0' || c > '9' {
            assert(!is_digit(d[i - start]));
            return None;
        }
        let dv = (c as u32 - '0' as u32) as u64;
        assert(d.take(i + 1 - start).drop_last() =~= d.take(i - start));
        match v.checked_mul(10) {
            Some(t) => match t.checked_add(dv) {
                Some(w) => {
                    v = w;
                },
                None => {
                    proof {
                        if is_decimal(d) {
                            lemma_decimal_grows(d, i + 1 - start);
                        }
                    }
                    return None;
                },
            },
            None => {
                proof {
                    if is_decimal(d) {
                        lemma_decimal_grows(d, i + 1 - start);
                        lemma_decimal_nonneg(d.take(i + 1 - start));
                    }
                }
                return None;
            },
        }
        i = i + 1;
    }
    assert(d.take(n - start) =~= d);
    Some(v)
}

} // verus!
