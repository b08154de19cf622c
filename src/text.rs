use vstd::prelude::*;
use vstd::string::StringExecFns;

verus! {

/// Relies on `String::push`: the character is appended at the end.
pub assume_specification[ String::push ](s: &mut String, ch: char)
    ensures
        final(s)@ == old(s)@.push(ch),
;

/// `prefix` is the start of `s`.
pub open spec fn has_prefix(s: Seq<char>, prefix: Seq<char>) -> bool {
    prefix.len() <= s.len() && s.subrange(0, prefix.len() as int) == prefix
}

/// `needle` occurs somewhere in `s`.
pub open spec fn occurs_in(s: Seq<char>, needle: Seq<char>) -> bool {
    exists|i: int| 0 <= i && i + needle.len() <= s.len() && #[trigger] s.subrange(i, i + needle.len()) == needle
}

/// What follows the last `sep` of `s`; all of `s` where `sep` does not occur.
pub open spec fn after_last(s: Seq<char>, sep: char) -> Seq<char>
    decreases s.len(),
{
    if s.len() == 0 {
        s
    } else if s.last() == sep {
        Seq::empty()
    } else {
        after_last(s.drop_last(), sep).push(s.last())
    }
}

/// `s` without the run of `c` at its end.
pub open spec fn trim_end_char(s: Seq<char>, c: char) -> Seq<char>
    decreases s.len(),
{
    if s.len() > 0 && s.last() == c {
        trim_end_char(s.drop_last(), c)
    } else {
        s
    }
}

/// `s` with every `\/` replaced by `/`, scanning from the left.
pub open spec fn unescape_slashes(s: Seq<char>) -> Seq<char>
    decreases s.len(),
{
    if s.len() >= 2 && s[0] == '\\' && s[1] == '/' {
        seq!['/'] + unescape_slashes(s.subrange(2, s.len() as int))
    } else if s.len() > 0 {
        seq![s[0]] + unescape_slashes(s.subrange(1, s.len() as int))
    } else {
        s
    }
}

pub open spec fn is_digit(c: char) -> bool {
    '0' <= c && c <= '9'
}

pub open spec fn all_digits(s: Seq<char>) -> bool {
    forall|i: int| 0 <= i < s.len() ==> is_digit(#[trigger] s[i])
}

/// The number that a string of decimal digits writes.
pub open spec fn digits_value(s: Seq<char>) -> int
    decreases s.len(),
{
    if s.len() == 0 {
        0
    } else {
        digits_value(s.drop_last()) * 10 + (s.last() as int - '0' as int)
    }
}

/// The digits after an optional sign, and whether the sign was `-`.
pub open spec fn sign_split(s: Seq<char>) -> (bool, Seq<char>) {
    if s.len() > 0 && s[0] == '-' {
        (true, s.drop_first())
    } else if s.len() > 0 && s[0] == '+' {
        (false, s.drop_first())
    } else {
        (false, s)
    }
}

/// The value of `s` read as a decimal `i32`: an optional sign, then at least
/// one digit, with no other character, in range.
pub open spec fn parse_i32(s: Seq<char>) -> Option<i32> {
    let (neg, ds) = sign_split(s);
    if ds.len() == 0 || !all_digits(ds) {
        None
    } else {
        let v = if neg { -digits_value(ds) } else { digits_value(ds) };
        if i32::MIN <= v <= i32::MAX { Some(v as i32) } else { None }
    }
}

/// The value of `s` read as a decimal `u8`: an optional `+`, then at least one
/// digit, with no other character, in range.
pub open spec fn parse_u8(s: Seq<char>) -> Option<u8> {
    let ds = if s.len() > 0 && s[0] == '+' { s.drop_first() } else { s };
    if ds.len() == 0 || !all_digits(ds) || digits_value(ds) > 255 {
        None
    } else {
        Some(digits_value(ds) as u8)
    }
}

/// The characters that `char::is_whitespace` accepts (Unicode White_Space).
pub open spec fn is_space(c: char) -> bool {
    ('\t' <= c && c <= '\r') || c == ' ' || c == '\u{85}' || c == '\u{a0}' || c == '\u{1680}'
        || ('\u{2000}' <= c && c <= '\u{200a}') || c == '\u{2028}' || c == '\u{2029}'
        || c == '\u{202f}' || c == '\u{205f}' || c == '\u{3000}'
}

/// `s` without leading white space.
pub open spec fn trim_start_space(s: Seq<char>) -> Seq<char>
    decreases s.len(),
{
    if s.len() > 0 && is_space(s[0]) {
        trim_start_space(s.drop_first())
    } else {
        s
    }
}

/// `s` without trailing white space.
pub open spec fn trim_end_space(s: Seq<char>) -> Seq<char>
    decreases s.len(),
{
    if s.len() > 0 && is_space(s.last()) {
        trim_end_space(s.drop_last())
    } else {
        s
    }
}

/// `s` without white space at either end.
pub open spec fn trim_space(s: Seq<char>) -> Seq<char> {
    trim_end_space(trim_start_space(s))
}

pub open spec fn digit_char(d: int) -> char {
    ((d + '0' as int) as u32) as char
}

/// The decimal writing of a natural number, without leading zeros.
pub open spec fn nat_decimal(n: nat) -> Seq<char>
    decreases n,
{
    if n < 10 {
        seq![digit_char(n as int)]
    } else {
        nat_decimal(n / 10).push(digit_char((n % 10) as int))
    }
}

/// The decimal writing of an integer, with `-` before a negative one.
pub open spec fn int_decimal(n: int) -> Seq<char> {
    if n < 0 {
        seq!['-'] + nat_decimal((-n) as nat)
    } else {
        nat_decimal(n as nat)
    }
}

/// The characters of `s`, in order.
pub fn chars_of(s: &str) -> (r: Vec<char>)
    ensures
        r@ == s@,
{
    let mut out: Vec<char> = Vec::new();
    for c in it: s.chars()
        invariant
            it.seq() == s@,
            out@ == it.seq().take(it.index() as int),
    {
        out.push(c);
    }
    out
}

/// A string holding exactly the characters of `cs`.
pub fn string_of(cs: &[char]) -> (r: String)
    ensures
        r@ == cs@,
{
    let mut out = String::new();
    let mut i: usize = 0;
    while i < cs.len()
        invariant
            i <= cs@.len(),
            out@ == cs@.take(i as int),
        decreases cs@.len() - i,
    {
        out.push(cs[i]);
        i = i + 1;
    }
    assert(cs@.take(cs@.len() as int) =~= cs@);
    out
}

/// Whether `s` starts with `prefix`.
pub fn starts_with(s: &str, prefix: &str) -> (r: bool)
    ensures
        r == has_prefix(s@, prefix@),
{
    let a = chars_of(s);
    let b = chars_of(prefix);
    if b.len() > a.len() {
        return false;
    }
    let mut i: usize = 0;
    while i < b.len()
        invariant
            b@.len() <= a@.len(),
            i <= b@.len(),
            a@ == s@,
            b@ == prefix@,
            forall|j: int| 0 <= j < i ==> a@[j] == b@[j],
        decreases b@.len() - i,
    {
        if a[i] != b[i] {
            assert(s@.subrange(0, prefix@.len() as int)[i as int] != prefix@[i as int]);
            return false;
        }
        i = i + 1;
    }
    assert(s@.subrange(0, prefix@.len() as int) =~= prefix@);
    true
}

/// Whether `needle` occurs in `s`.
pub fn contains(s: &str, needle: &str) -> (r: bool)
    ensures
        r == occurs_in(s@, needle@),
{
    let a = chars_of(s);
    let b = chars_of(needle);
    if b.len() > a.len() {
        return false;
    }
    if b.len() == 0 {
        assert(s@.subrange(0, 0 + needle@.len() as int) =~= needle@);
        return true;
    }
    let n: usize = a.len();
    let last: usize = n - b.len();
    let mut i: usize = 0;
    while i <= last
        invariant
            a@ == s@,
            b@ == needle@,
            last == a@.len() - b@.len(),
            0 < b@.len() <= a@.len(),
            i <= last + 1,
            last < a@.len(),
            n == a@.len(),
            forall|k: int| 0 <= k < i ==> #[trigger] s@.subrange(k, k + needle@.len()) != needle@,
        decreases last + 1 - i,
    {
        let mut j: usize = 0;
        let mut same = true;
        while j < b.len()
            invariant
                a@ == s@,
                b@ == needle@,
                i <= last,
                last == a@.len() - b@.len(),
                0 < b@.len() <= a@.len(),
                i + b@.len() <= a@.len(),
                n == a@.len(),
                j <= b@.len(),
                same == (forall|m: int| 0 <= m < j ==> a@[i + m] == b@[m]),
            decreases b@.len() - j,
        {
            if a[i + j] != b[j] {
                same = false;
            }
            j = j + 1;
        }
        if same {
            assert(s@.subrange(i as int, i + needle@.len()) =~= needle@);
            return true;
        }
        assert(s@.subrange(i as int, i + needle@.len())[(choose|m: int| 0 <= m < b@.len() && a@[i + m] != b@[m])] != needle@[(choose|m: int| 0 <= m < b@.len() && a@[i + m] != b@[m])]);
        i = i + 1;
    }
    false
}

proof fn lemma_after_last(s: Seq<char>, sep: char, j: int)
    requires
        0 <= j <= s.len(),
        j == 0 || s[j - 1] == sep,
        forall|k: int| j <= k < s.len() ==> s[k] != sep,
    ensures
        after_last(s, sep) == s.subrange(j, s.len() as int),
    decreases s.len(),
{
    if s.len() == 0 {
        assert(s.subrange(j, 0) =~= s);
    } else if s.last() == sep {
        assert(j == s.len());
        assert(s.subrange(j, s.len() as int) =~= Seq::<char>::empty());
    } else {
        let t = s.drop_last();
        lemma_after_last(t, sep, j);
        assert(s.subrange(j, s.len() as int) =~= t.subrange(j, t.len() as int).push(s.last()));
    }
}

/// What follows the last `sep` of `s` (all of `s` where `sep` does not occur).
pub fn text_after_last(s: &str, sep: char) -> (r: String)
    ensures
        r@ == after_last(s@, sep),
{
    let cs = chars_of(s);
    let mut j: usize = cs.len();
    while j > 0 && cs[j - 1] != sep
        invariant
            cs@ == s@,
            j <= cs@.len(),
            forall|k: int| j <= k < cs@.len() ==> cs@[k] != sep,
        decreases j,
    {
        j = j - 1;
    }
    proof {
        lemma_after_last(s@, sep, j as int);
    }
    let tail = slice_chars(&cs, j, cs.len());
    string_of(&tail)
}

/// The characters of `cs` from `lo` up to, not including, `hi`.
pub fn slice_chars(cs: &Vec<char>, lo: usize, hi: usize) -> (r: Vec<char>)
    requires
        lo <= hi <= cs@.len(),
    ensures
        r@ == cs@.subrange(lo as int, hi as int),
{
    let mut out: Vec<char> = Vec::new();
    let mut i: usize = lo;
    while i < hi
        invariant
            lo <= i <= hi <= cs@.len(),
            out@ == cs@.subrange(lo as int, i as int),
        decreases hi - i,
    {
        out.push(cs[i]);
        i = i + 1;
        assert(out@ =~= cs@.subrange(lo as int, i as int));
    }
    out
}

/// `s` without the run of `c` at its end.
pub fn text_trim_end_char(s: &str, c: char) -> (r: String)
    ensures
        r@ == trim_end_char(s@, c),
{
    let cs = chars_of(s);
    let mut j: usize = cs.len();
    assert(s@.take(cs@.len() as int) =~= s@);
    while j > 0 && cs[j - 1] == c
        invariant
            cs@ == s@,
            j <= cs@.len(),
            trim_end_char(s@, c) == trim_end_char(s@.take(j as int), c),
        decreases j,
    {
        assert(s@.take(j as int).drop_last() =~= s@.take(j - 1));
        j = j - 1;
    }
    let head = slice_chars(&cs, 0, j);
    assert(head@ =~= s@.take(j as int));
    string_of(&head)
}

/// Trims white space at both ends, as `str::trim` does.
pub fn trim_chars(cs: &Vec<char>) -> (r: Vec<char>)
    ensures
        r@ == trim_space(cs@),
{
    let n: usize = cs.len();
    let mut i: usize = 0;
    assert(cs@.subrange(0, n as int) =~= cs@);
    while i < n && is_space_char(cs[i])
        invariant
            n == cs@.len(),
            i <= n,
            trim_start_space(cs@) == trim_start_space(cs@.subrange(i as int, n as int)),
        decreases n - i,
    {
        assert(cs@.subrange(i as int, n as int).drop_first() =~= cs@.subrange(i + 1, n as int));
        i = i + 1;
    }
    let mut j: usize = n;
    let ghost front = cs@.subrange(i as int, n as int);
    assert(front.take(front.len() as int) =~= front);
    while j > i && is_space_char(cs[j - 1])
        invariant
            n == cs@.len(),
            i <= j <= n,
            front == cs@.subrange(i as int, n as int),
            trim_end_space(front) == trim_end_space(front.take(j - i)),
        decreases j,
    {
        assert(front.take(j - i).drop_last() =~= front.take(j - 1 - i));
        j = j - 1;
    }
    let r = slice_chars(cs, i, j);
    assert(r@ =~= front.take(j - i));
    r
}

/// `c` is white space, as `char::is_whitespace` says.
pub fn is_space_char(c: char) -> (r: bool)
    ensures
        r == is_space(c),
{
    ('\t' <= c && c <= '\r') || c == ' ' || c == '\u{85}' || c == '\u{a0}' || c == '\u{1680}'
        || ('\u{2000}' <= c && c <= '\u{200a}') || c == '\u{2028}' || c == '\u{2029}'
        || c == '\u{202f}' || c == '\u{205f}' || c == '\u{3000}'
}

/// Replaces every `\/` of `s` by `/`, as JavaScript string escapes write it.
pub fn unescape_slashes_of(s: &str) -> (r: String)
    ensures
        r@ == unescape_slashes(s@),
{
    let cs = chars_of(s);
    let n: usize = cs.len();
    let mut out: Vec<char> = Vec::new();
    let mut i: usize = 0;
    assert(cs@.subrange(0, n as int) =~= cs@);
    while i < n
        invariant
            n == cs@.len(),
            cs@ == s@,
            i <= n,
            out@ + unescape_slashes(cs@.subrange(i as int, n as int)) == unescape_slashes(s@),
        decreases n - i,
    {
        let ghost rest = cs@.subrange(i as int, n as int);
        if i + 1 < n && cs[i] == '\\' && cs[i + 1] == '/' {
            assert(rest.subrange(2, rest.len() as int) =~= cs@.subrange(i + 2, n as int));
            assert(out@.push('/') + unescape_slashes(cs@.subrange(i + 2, n as int)) =~= out@ + unescape_slashes(rest));
            out.push('/');
            i = i + 2;
        } else {
            assert(rest.subrange(1, rest.len() as int) =~= cs@.subrange(i + 1, n as int));
            assert(out@.push(cs@[i as int]) + unescape_slashes(cs@.subrange(i + 1, n as int)) =~= out@ + unescape_slashes(rest));
            out.push(cs[i]);
            i = i + 1;
        }
    }
    assert(unescape_slashes(cs@.subrange(n as int, n as int)) =~= Seq::<char>::empty());
    assert(out@ + Seq::<char>::empty() =~= out@);
    string_of(&out)
}

/// Bound above every value that a parse cares about.
pub const DIGITS_CAP: u64 = 8589934592;

pub open spec fn capped(v: int) -> int {
    if v < DIGITS_CAP as int { v } else { DIGITS_CAP as int }
}

proof fn lemma_digits_nonneg(s: Seq<char>)
    requires
        all_digits(s),
    ensures
        digits_value(s) >= 0,
    decreases s.len(),
{
    if s.len() > 0 {
        assert(is_digit(s[s.len() - 1]));
        assert(all_digits(s.drop_last())) by {
            assert forall|i: int| 0 <= i < s.drop_last().len() implies is_digit(#[trigger] s.drop_last()[i]) by {
                assert(s.drop_last()[i] == s[i]);
            }
        }
        lemma_digits_nonneg(s.drop_last());
    }
}

/// The value of the digits `cs[lo..hi]`, or `DIGITS_CAP` where it is larger;
/// `None` where a character there is not a digit.
fn digits_capped(cs: &Vec<char>, lo: usize, hi: usize) -> (r: Option<u64>)
    requires
        lo <= hi <= cs@.len(),
    ensures
        r is Some <==> all_digits(cs@.subrange(lo as int, hi as int)),
        r is Some ==> r->0 as int == capped(digits_value(cs@.subrange(lo as int, hi as int))),
{
    let mut acc: u64 = 0;
    let mut i: usize = lo;
    assert(cs@.subrange(lo as int, lo as int) =~= Seq::<char>::empty());
    while i < hi
        invariant
            lo <= i <= hi <= cs@.len(),
            all_digits(cs@.subrange(lo as int, i as int)),
            acc as int == capped(digits_value(cs@.subrange(lo as int, i as int))),
        decreases hi - i,
    {
        let c = cs[i];
        if !('0' <= c && c <= '9') {
            assert(!all_digits(cs@.subrange(lo as int, hi as int))) by {
                assert(cs@.subrange(lo as int, hi as int)[i - lo] == c);
            }
            return None;
        }
        let d: u64 = (c as u32 - '0' as u32) as u64;
        let ghost prev = cs@.subrange(lo as int, i as int);
        let ghost next = cs@.subrange(lo as int, i + 1);
        assert(next.drop_last() =~= prev);
        assert(next.last() == c);
        assert(all_digits(next)) by {
            assert forall|k: int| 0 <= k < next.len() implies is_digit(#[trigger] next[k]) by {
                if k < prev.len() {
                    assert(next[k] == prev[k]);
                }
            }
        }
        proof {
            lemma_digits_nonneg(prev);
        }
        let ghost x = digits_value(prev);
        assert(digits_value(next) == x * 10 + d);
        if acc >= 858993460 {
            assert(x >= 858993460);
            assert(x * 10 + d >= 8589934592) by (nonlinear_arith)
                requires x >= 858993460, d >= 0;
            acc = DIGITS_CAP;
        } else {
            assert(acc == x);
            acc = acc * 10 + d;
            if acc > DIGITS_CAP {
                acc = DIGITS_CAP;
            }
        }
        i = i + 1;
    }
    Some(acc)
}

/// Reads `s` as a decimal `i32`, as `str::parse::<i32>` does; 0 where that fails.
pub fn parse_i32_or_zero(s: &str) -> (r: i32)
    ensures
        r == match parse_i32(s@) {
            Some(v) => v,
            None => 0,
        },
{
    let cs = chars_of(s);
    let n: usize = cs.len();
    let mut neg = false;
    let mut lo: usize = 0;
    if n > 0 && cs[0] == '-' {
        neg = true;
        lo = 1;
    } else if n > 0 && cs[0] == '+' {
        lo = 1;
    }
    let ghost ds = cs@.subrange(lo as int, n as int);
    assert(ds =~= sign_split(s@).1);
    if lo == n {
        return 0;
    }
    match digits_capped(&cs, lo, n) {
        None => 0,
        Some(v) => {
            proof {
                lemma_digits_nonneg(ds);
            }
            if neg {
                if v > 2147483648 {
                    0
                } else {
                    (0 - (v as i64)) as i32
                }
            } else {
                if v > 2147483647 {
                    0
                } else {
                    v as i32
                }
            }
        },
    }
}

/// Reads `s`, trimmed of white space, as a decimal `u8`, as
/// `s.trim().parse::<u8>()` does; 0 where that fails.
pub fn parse_u8_or_zero(s: &str) -> (r: u8)
    ensures
        r == match parse_u8(trim_space(s@)) {
            Some(v) => v,
            None => 0,
        },
{
    let raw = chars_of(s);
    let cs = trim_chars(&raw);
    let n: usize = cs.len();
    let mut lo: usize = 0;
    if n > 0 && cs[0] == '+' {
        lo = 1;
    }
    let ghost ds = cs@.subrange(lo as int, n as int);
    assert(ds =~= (if cs@.len() > 0 && cs@[0] == '+' { cs@.drop_first() } else { cs@ }));
    if lo == n {
        return 0;
    }
    match digits_capped(&cs, lo, n) {
        None => 0,
        Some(v) => {
            if v > 255 {
                0
            } else {
                v as u8
            }
        },
    }
}

/// Appends the decimal digits of `n` to `out`.
fn push_decimal(n: u64, out: &mut Vec<char>)
    ensures
        final(out)@ == old(out)@ + nat_decimal(n as nat),
    decreases n,
{
    if n >= 10 {
        push_decimal(n / 10, out);
    }
    let d: u8 = (n % 10) as u8;
    let ch = (d + 48) as char;
    assert(ch == digit_char((n % 10) as int));
    out.push(ch);
    assert(old(out)@ + nat_decimal(n as nat) =~= final(out)@);
}

/// The decimal writing of `n`, as `i32`'s `to_string` gives it.
pub fn i32_to_decimal(n: i32) -> (r: String)
    ensures
        r@ == int_decimal(n as int),
{
    let mut out: Vec<char> = Vec::new();
    if n < 0 {
        out.push('-');
        let m: u64 = (0 - (n as i64)) as u64;
        push_decimal(m, &mut out);
    } else {
        push_decimal(n as u64, &mut out);
    }
    assert(out@ =~= int_decimal(n as int));
    string_of(&out)
}

/// The pieces of `s` between occurrences of `sep`, as `str::split` gives them.
pub open spec fn split_on(s: Seq<char>, sep: char) -> Seq<Seq<char>>
    decreases s.len(),
{
    if s.len() == 0 {
        seq![Seq::<char>::empty()]
    } else {
        let front = split_on(s.drop_last(), sep);
        if s.last() == sep {
            front.push(Seq::<char>::empty())
        } else {
            front.update(front.len() - 1, front.last().push(s.last()))
        }
    }
}

proof fn lemma_split_nonempty(s: Seq<char>, sep: char)
    ensures
        split_on(s, sep).len() >= 1,
    decreases s.len(),
{
    if s.len() > 0 {
        lemma_split_nonempty(s.drop_last(), sep);
    }
}

/// Splits `s` at each `sep`, keeping empty pieces.
pub fn split_chars(s: &str, sep: char) -> (r: Vec<Vec<char>>)
    ensures
        r@.len() == split_on(s@, sep).len(),
        forall|i: int| 0 <= i < r@.len() ==> #[trigger] r@[i]@ == split_on(s@, sep)[i],
{
    let cs = chars_of(s);
    let n: usize = cs.len();
    let mut done: Vec<Vec<char>> = Vec::new();
    let mut cur: Vec<char> = Vec::new();
    let mut i: usize = 0;
    assert(cs@.take(0) =~= Seq::<char>::empty());
    while i < n
        invariant
            n == cs@.len(),
            cs@ == s@,
            i <= n,
            done@.len() + 1 == split_on(cs@.take(i as int), sep).len(),
            forall|k: int| 0 <= k < done@.len() ==> #[trigger] done@[k]@ == split_on(cs@.take(i as int), sep)[k],
            cur@ == split_on(cs@.take(i as int), sep).last(),
        decreases n - i,
    {
        let ghost before = split_on(cs@.take(i as int), sep);
        proof {
            lemma_split_nonempty(cs@.take(i as int), sep);
        }
        assert(cs@.take(i + 1).drop_last() =~= cs@.take(i as int));
        assert(cs@.take(i + 1).last() == cs@[i as int]);
        if cs[i] == sep {
            done.push(cur);
            cur = Vec::new();
        } else {
            cur.push(cs[i]);
        }
        i = i + 1;
    }
    assert(cs@.take(n as int) =~= s@);
    done.push(cur);
    done
}

/// Whether `c` occurs in `s`.
pub fn has_char(s: &str, c: char) -> (r: bool)
    ensures
        r == s@.contains(c),
{
    let cs = chars_of(s);
    let mut i: usize = 0;
    while i < cs.len()
        invariant
            cs@ == s@,
            i <= cs@.len(),
            forall|k: int| 0 <= k < i ==> cs@[k] != c,
        decreases cs@.len() - i,
    {
        if cs[i] == c {
            return true;
        }
        i = i + 1;
    }
    false
}

/// `a` followed by `b`.
pub fn join(a: &str, b: &str) -> (r: String)
    ensures
        r@ == a@ + b@,
{
    let mut out = String::from_str(a);
    out.append(b);
    out
}

} // verus!
