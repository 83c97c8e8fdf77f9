//! Small verified text utilities used by the manifest parser: whitespace
//! trimming, single-character splitting, decimal integer parsing, and string
//! comparison.  All contracts are stated over `Seq<char>` views.

use vstd::prelude::*;

verus! {

/// XML whitespace: space, tab, line feed, carriage return.
pub open spec fn is_space(c: char) -> bool {
    c == ' ' || c == '\t' || c == '\n' || c == '\r'
}

/// `s` with leading whitespace removed.
pub open spec fn trim_front(s: Seq<char>) -> Seq<char>
    decreases s.len(),
{
    if s.len() > 0 && is_space(s[0]) {
        trim_front(s.drop_first())
    } else {
        s
    }
}

/// `s` with trailing whitespace removed.
pub open spec fn trim_back(s: Seq<char>) -> Seq<char>
    decreases s.len(),
{
    if s.len() > 0 && is_space(s.last()) {
        trim_back(s.drop_last())
    } else {
        s
    }
}

/// `s` with leading and trailing whitespace removed.
pub open spec fn spec_trim(s: Seq<char>) -> Seq<char> {
    trim_back(trim_front(s))
}

proof fn lemma_trim_front_skip(s: Seq<char>, i: int)
    requires
        0 <= i <= s.len(),
        forall|j: int| 0 <= j < i ==> is_space(s[j]),
        i == s.len() || !is_space(s[i]),
    ensures
        trim_front(s) == s.subrange(i, s.len() as int),
    decreases i,
{
    if i == 0 {
        if s.len() == 0 || !is_space(s[0]) {
            assert(trim_front(s) == s);
            assert(s.subrange(0, s.len() as int) =~= s);
        }
    } else {
        assert(is_space(s[0]));
        assert(trim_front(s) == trim_front(s.drop_first()));
        let t = s.drop_first();
        assert(t =~= s.subrange(1, s.len() as int));
        lemma_trim_front_skip(t, i - 1);
        assert(t.subrange(i - 1, t.len() as int) =~= s.subrange(i, s.len() as int));
    }
}

proof fn lemma_trim_back_skip(s: Seq<char>, k: int)
    requires
        0 <= k <= s.len(),
        forall|j: int| k <= j < s.len() ==> is_space(s[j]),
        k == 0 || !is_space(s[k - 1]),
    ensures
        trim_back(s) == s.subrange(0, k),
    decreases s.len() - k,
{
    if k == s.len() {
        if k == 0 {
            assert(s.subrange(0, 0) =~= s);
        } else {
            assert(!is_space(s.last()));
            assert(s.subrange(0, k) =~= s);
        }
    } else {
        assert(is_space(s.last()));
        assert(trim_back(s) == trim_back(s.drop_last()));
        let t = s.drop_last();
        assert(t =~= s.subrange(0, s.len() - 1));
        lemma_trim_back_skip(t, k);
        assert(t.subrange(0, k) =~= s.subrange(0, k));
    }
}

/// Copy of `s` with leading and trailing whitespace removed.
pub fn trim_str(s: &str) -> (r: String)
    ensures
        r@ == spec_trim(s@),
{
    let n: usize = s.unicode_len();
    let mut lo: usize = 0;
    while lo < n && is_space_char(s.get_char(lo))
        invariant
            0 <= lo <= n,
            n == s@.len(),
            forall|j: int| 0 <= j < lo ==> is_space(s@[j]),
        decreases n - lo,
    {
        lo = lo + 1;
    }
    let mut hi: usize = n;
    while hi > lo && is_space_char(s.get_char(hi - 1))
        invariant
            lo <= hi <= n,
            n == s@.len(),
            forall|j: int| 0 <= j < lo ==> is_space(s@[j]),
            lo == n || !is_space(s@[lo as int]),
            forall|j: int| hi <= j < n ==> is_space(s@[j]),
        decreases hi,
    {
        hi = hi - 1;
    }
    proof {
        lemma_trim_front_skip(s@, lo as int);
        let t = s@.subrange(lo as int, n as int);
        lemma_trim_back_skip(t, hi - lo);
        assert(t.subrange(0, hi - lo) =~= s@.subrange(lo as int, hi as int));
    }
    let part = s.substring_char(lo, hi);
    String::from_str(part)
}

/// Whether `c` is XML whitespace.
pub fn is_space_char(c: char) -> (r: bool)
    ensures
        r == is_space(c),
{
    c == ' ' || c == '\t' || c == '\n' || c == '\r'
}

/// The pieces of `s` between occurrences of the separator `sep`, in order.
/// There is always at least one piece; a separator at either end or two in a
/// row contribute an empty piece, as `str::split` does.
pub open spec fn spec_split(s: Seq<char>, sep: char) -> Seq<Seq<char>>
    decreases s.len(),
{
    if s.len() == 0 {
        seq![Seq::<char>::empty()]
    } else {
        let front = spec_split(s.drop_last(), sep);
        if s.last() == sep {
            front.push(Seq::<char>::empty())
        } else {
            front.update(front.len() - 1, front.last().push(s.last()))
        }
    }
}

pub proof fn lemma_split_nonempty(s: Seq<char>, sep: char)
    ensures
        spec_split(s, sep).len() >= 1,
    decreases s.len(),
{
    if s.len() > 0 {
        lemma_split_nonempty(s.drop_last(), sep);
    }
}

/// The views of a sequence of strings.
pub open spec fn views_of(ss: Seq<String>) -> Seq<Seq<char>> {
    ss.map_values(|s: String| s@)
}

/// Splits `s` at every occurrence of `sep`, as `str::split` with a
/// single-character pattern does.
pub fn split_str(s: &str, sep: char) -> (r: Vec<String>)
    ensures
        views_of(r@) == spec_split(s@, sep),
{
    let n: usize = s.unicode_len();
    let mut parts: Vec<String> = Vec::new();
    let mut start: usize = 0;
    let mut i: usize = 0;
    proof {
        assert(spec_split(s@.subrange(0, 0), sep) =~~= views_of(parts@).push(s@.subrange(0, 0)));
    }
    while i < n
        invariant
            0 <= start <= i <= n,
            n == s@.len(),
            spec_split(s@.subrange(0, i as int), sep) == views_of(parts@).push(
                s@.subrange(start as int, i as int),
            ),
        decreases n - i,
    {
        let ghost pre = s@.subrange(0, i as int);
        let ghost p = spec_split(pre, sep);
        let c = s.get_char(i);
        proof {
            assert(s@.subrange(0, i + 1).drop_last() =~= pre);
            assert(s@.subrange(0, i + 1).last() == c);
        }
        if c == sep {
            let piece = s.substring_char(start, i);
            parts.push(String::from_str(piece));
            proof {
                assert(views_of(parts@) =~~= p);
                assert(spec_split(s@.subrange(0, i + 1), sep) =~~= views_of(parts@).push(
                    s@.subrange(i + 1, i + 1),
                ));
            }
            start = i + 1;
        } else {
            proof {
                lemma_split_nonempty(pre, sep);
                assert(p.last() == s@.subrange(start as int, i as int));
                assert(s@.subrange(start as int, i as int).push(c) =~= s@.subrange(
                    start as int,
                    i + 1,
                ));
                assert(spec_split(s@.subrange(0, i + 1), sep) =~~= views_of(parts@).push(
                    s@.subrange(start as int, i + 1),
                ));
            }
        }
        i = i + 1;
    }
    let piece = s.substring_char(start, n);
    parts.push(String::from_str(piece));
    proof {
        assert(s@.subrange(0, n as int) =~= s@);
        assert(views_of(parts@) =~~= spec_split(s@, sep));
    }
    parts
}

/// Whether `c` is an ASCII decimal digit.
pub open spec fn is_digit(c: char) -> bool {
    48 <= c as u32 <= 57
}

/// The value of an ASCII decimal digit.
pub open spec fn digit_val(c: char) -> int {
    c as u32 - 48
}

/// Whether every character of `s` is an ASCII decimal digit.
pub open spec fn all_digits(s: Seq<char>) -> bool {
    forall|i: int| 0 <= i < s.len() ==> is_digit(s[i])
}

/// The value of a string of decimal digits, most significant first.
pub open spec fn digits_val(s: Seq<char>) -> int
    decreases s.len(),
{
    if s.len() == 0 {
        0
    } else {
        digits_val(s.drop_last()) * 10 + digit_val(s.last())
    }
}

pub proof fn lemma_digits_val_nonneg(s: Seq<char>)
    requires
        all_digits(s),
    ensures
        digits_val(s) >= 0,
    decreases s.len(),
{
    if s.len() > 0 {
        assert(all_digits(s.drop_last()));
        lemma_digits_val_nonneg(s.drop_last());
    }
}

/// What `str::parse::<i32>` returns on `s`: an optional ASCII sign followed
/// by at least one ASCII digit, rejecting anything else and values outside
/// the `i32` range.
pub open spec fn spec_parse_i32(s: Seq<char>) -> Option<i32> {
    let digits = if s.len() > 0 && (s[0] == '-' || s[0] == '+') {
        s.drop_first()
    } else {
        s
    };
    let negative = s.len() > 0 && s[0] == '-';
    if digits.len() == 0 || !all_digits(digits) {
        None
    } else {
        let v = if negative {
            -digits_val(digits)
        } else {
            digits_val(digits)
        };
        if i32::MIN <= v <= i32::MAX {
            Some(v as i32)
        } else {
            None
        }
    }
}

/// Parses `s` as `str::parse::<i32>` would.
pub fn parse_i32_str(s: &str) -> (r: Option<i32>)
    ensures
        r == spec_parse_i32(s@),
{
    let n: usize = s.unicode_len();
    if n == 0 {
        return None;
    }
    let first = s.get_char(0);
    let negative = first == '-';
    let idx0: usize = if first == '-' || first == '+' {
        1
    } else {
        0
    };
    let ghost digits = if s@[0] == '-' || s@[0] == '+' {
        s@.drop_first()
    } else {
        s@
    };
    proof {
        assert(digits =~= s@.subrange(idx0 as int, n as int));
    }
    if n == idx0 {
        return None;
    }
    // Accumulate exactly until the value is clearly out of range, then only
    // remember that it is.
    let mut acc: u64 = 0;
    let mut over = false;
    let mut i: usize = idx0;
    while i < n
        invariant
            idx0 <= i <= n,
            n == s@.len(),
            digits == s@.subrange(idx0 as int, n as int),
            digits == (if s@.len() > 0 && (s@[0] == '-' || s@[0] == '+') {
                s@.drop_first()
            } else {
                s@
            }),
            all_digits(s@.subrange(idx0 as int, i as int)),
            !over ==> acc == digits_val(s@.subrange(idx0 as int, i as int)) && acc
                < 10_000_000_000,
            over ==> digits_val(s@.subrange(idx0 as int, i as int)) >= 10_000_000_000,
        decreases n - i,
    {
        let c = s.get_char(i);
        let cv = c as u32;
        if cv < 48 || cv > 57 {
            proof {
                assert(!is_digit(digits[i - idx0]));
            }
            return None;
        }
        let ghost pre = s@.subrange(idx0 as int, i as int);
        let ghost ext = s@.subrange(idx0 as int, i + 1);
        proof {
            assert(ext.drop_last() =~= pre);
            assert(ext.last() == c);
            assert(digits_val(ext) == digits_val(pre) * 10 + digit_val(c));
            lemma_digits_val_nonneg(ext);
        }
        if over {
            proof {
                lemma_digits_val_nonneg(pre);
                assert(digits_val(pre) * 10 >= digits_val(pre)) by (nonlinear_arith)
                    requires
                        digits_val(pre) >= 0,
                ;
            }
        } else {
            let d: u64 = (cv - 48) as u64;
            acc = acc * 10 + d;
            if acc >= 10_000_000_000 {
                over = true;
            }
        }
        i = i + 1;
    }
    proof {
        assert(s@.subrange(idx0 as int, n as int) =~= digits);
        if !over {
            lemma_digits_val_nonneg(digits);
        }
    }
    if over {
        return None;
    }
    if negative {
        if acc > 2_147_483_648 {
            None
        } else if acc == 2_147_483_648 {
            Some(i32::MIN)
        } else {
            Some(-(acc as i32))
        }
    } else {
        if acc > 2_147_483_647 {
            None
        } else {
            Some(acc as i32)
        }
    }
}

/// Whether the views of `a` and `b` are equal, character for character.
pub fn str_eq(a: &str, b: &str) -> (r: bool)
    ensures
        r == (a@ == b@),
{
    let na: usize = a.unicode_len();
    let nb: usize = b.unicode_len();
    if na != nb {
        return false;
    }
    let mut i: usize = 0;
    while i < na
        invariant
            0 <= i <= na,
            na == a@.len(),
            na == b@.len(),
            forall|j: int| 0 <= j < i ==> a@[j] == b@[j],
        decreases na - i,
    {
        if a.get_char(i) != b.get_char(i) {
            return false;
        }
        i = i + 1;
    }
    proof {
        assert(a@ =~= b@);
    }
    true
}

/// Whether `s` equals the all-lowercase ASCII string `lower` up to ASCII
/// case.
pub open spec fn spec_eq_ignore_case(s: Seq<char>, lower: Seq<char>) -> bool {
    s.len() == lower.len() && forall|i: int|
        0 <= i < s.len() ==> (s[i] == lower[i] || (97 <= lower[i] as u32 <= 122 && s[i] as u32
            + 32 == lower[i] as u32))
}

/// Compares `s` with the all-lowercase ASCII string `lower`, ignoring ASCII
/// case in `s`.
pub fn eq_ignore_case(s: &str, lower: &str) -> (r: bool)
    ensures
        r == spec_eq_ignore_case(s@, lower@),
{
    let ns: usize = s.unicode_len();
    let nl: usize = lower.unicode_len();
    if ns != nl {
        return false;
    }
    let mut i: usize = 0;
    while i < ns
        invariant
            0 <= i <= ns,
            ns == s@.len(),
            ns == lower@.len(),
            forall|j: int|
                0 <= j < i ==> (s@[j] == lower@[j] || (97 <= lower@[j] as u32 <= 122 && s@[j] as u32
                    + 32 == lower@[j] as u32)),
        decreases ns - i,
    {
        let cs = s.get_char(i) as u32;
        let cl = lower.get_char(i) as u32;
        if !(cs == cl || (97 <= cl && cl <= 122 && cs + 32 == cl)) {
            return false;
        }
        i = i + 1;
    }
    true
}

} // verus!
