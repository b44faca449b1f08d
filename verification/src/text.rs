//! Character-level helpers: the string operations that the assembler's
//! parser and printers rely on, each with its meaning stated over `Seq<char>`.
use vstd::prelude::*;

verus! {

broadcast use vstd::string::group_string_axioms;

// ---------------------------------------------------------------------------
// Character classes
// ---------------------------------------------------------------------------

/// Whitespace in the sense of Unicode's `White_Space` property, which is what
/// `char::is_whitespace` (and so `str::trim_end`) tests.
pub open spec fn is_whitespace(c: char) -> bool {
    let u = c as u32;
    ||| 0x09 <= u && u <= 0x0D
    ||| u == 0x20
    ||| u == 0x85
    ||| u == 0xA0
    ||| u == 0x1680
    ||| 0x2000 <= u && u <= 0x200A
    ||| u == 0x2028
    ||| u == 0x2029
    ||| u == 0x202F
    ||| u == 0x205F
    ||| u == 0x3000
}

/// ASCII whitespace as `char::is_ascii_whitespace` defines it: space, tab,
/// line feed, form feed and carriage return.
pub open spec fn is_ascii_whitespace(c: char) -> bool {
    let u = c as u32;
    u == 0x20 || u == 0x09 || u == 0x0A || u == 0x0C || u == 0x0D
}

pub open spec fn is_digit(c: char) -> bool {
    0x30 <= (c as u32) && (c as u32) <= 0x39
}

pub open spec fn digit_value(c: char) -> int {
    (c as u32) - 0x30
}

pub fn char_is_whitespace(c: char) -> (b: bool)
    ensures
        b == is_whitespace(c),
{
    let u = c as u32;
    (0x09 <= u && u <= 0x0D) || u == 0x20 || u == 0x85 || u == 0xA0 || u == 0x1680 || (0x2000
        <= u && u <= 0x200A) || u == 0x2028 || u == 0x2029 || u == 0x202F || u == 0x205F || u
        == 0x3000
}

pub fn char_is_ascii_whitespace(c: char) -> (b: bool)
    ensures
        b == is_ascii_whitespace(c),
{
    let u = c as u32;
    u == 0x20 || u == 0x09 || u == 0x0A || u == 0x0C || u == 0x0D
}

// ---------------------------------------------------------------------------
// Conversions between strings and character vectors
// ---------------------------------------------------------------------------

/// Appends one character to a `String` (`String::push`); the string's
/// characters afterwards are the old ones followed by `c`.
#[verifier::external_body]
pub(crate) fn push_char(s: &mut String, c: char)
    ensures
        final(s)@ == old(s)@.push(c),
{
    s.push(c);
}

/// The characters of a string slice, in order.
pub fn to_chars(s: &str) -> (res: Vec<char>)
    ensures
        res@ == s@,
{
    let mut res: Vec<char> = Vec::new();
    for c in it: s.chars()
        invariant
            res@ == it.seq().take(it.index() as int),
            it.seq() == s@,
    {
        res.push(c);
    }
    res
}

/// Appends the characters `cs` to `out`.
pub fn push_chars(out: &mut String, cs: &[char])
    ensures
        final(out)@ == old(out)@ + cs@,
{
    let ghost start = out@;
    for i in 0..cs.len()
        invariant
            out@ == start + cs@.take(i as int),
    {
        push_char(out, cs[i]);
        assert(cs@.take(i + 1) =~= cs@.take(i as int).push(cs@[i as int]));
    }
    assert(cs@.take(cs.len() as int) =~= cs@);
}

/// A `String` holding exactly the characters `cs`.
pub fn from_chars(cs: &[char]) -> (res: String)
    ensures
        res@ == cs@,
{
    let mut res = String::new();
    push_chars(&mut res, cs);
    assert(Seq::<char>::empty() + cs@ =~= cs@);
    res
}

/// A copy of `s[lo..hi]`.
pub fn copy_range(s: &[char], lo: usize, hi: usize) -> (res: Vec<char>)
    requires
        lo <= hi <= s.len(),
    ensures
        res@ == s@.subrange(lo as int, hi as int),
{
    let mut res: Vec<char> = Vec::new();
    let mut i = lo;
    while i < hi
        invariant
            lo <= i <= hi <= s.len(),
            res@ == s@.subrange(lo as int, i as int),
        decreases hi - i,
    {
        res.push(s[i]);
        assert(s@.subrange(lo as int, i + 1) =~= s@.subrange(lo as int, i as int).push(s@[i as int]));
        i += 1;
    }
    res
}

/// Whether two character slices hold the same characters.
pub fn chars_eq(a: &[char], b: &[char]) -> (r: bool)
    ensures
        r == (a@ == b@),
{
    if a.len() != b.len() {
        return false;
    }
    let mut i: usize = 0;
    while i < a.len()
        invariant
            a.len() == b.len(),
            i <= a.len(),
            forall|k: int| 0 <= k < i ==> a@[k] == b@[k],
        decreases a.len() - i,
    {
        if a[i] != b[i] {
            return false;
        }
        i += 1;
    }
    assert(a@ =~= b@);
    true
}

// ---------------------------------------------------------------------------
// Trimming and matching
// ---------------------------------------------------------------------------

/// `str::trim_end`: the string without its trailing whitespace.
pub open spec fn trim_end(s: Seq<char>) -> Seq<char>
    decreases s.len(),
{
    if s.len() > 0 && is_whitespace(s.last()) {
        trim_end(s.drop_last())
    } else {
        s
    }
}

/// A line is blank when nothing but whitespace is in it.
pub open spec fn is_blank(s: Seq<char>) -> bool {
    trim_end(s).len() == 0
}

pub open spec fn ends_with(s: Seq<char>, p: Seq<char>) -> bool {
    p.len() <= s.len() && s.subrange(s.len() - p.len(), s.len() as int) == p
}

pub open spec fn starts_with(s: Seq<char>, p: Seq<char>) -> bool {
    p.len() <= s.len() && s.take(p.len() as int) == p
}

/// `str::trim_end_matches` with a string pattern: every repetition of `p`
/// at the end is removed.
pub open spec fn trim_end_matches(s: Seq<char>, p: Seq<char>) -> Seq<char>
    decreases s.len(),
{
    if p.len() > 0 && ends_with(s, p) {
        trim_end_matches(s.take(s.len() - p.len()), p)
    } else {
        s
    }
}

/// `str::trim_start_matches` with a string pattern: every repetition of `p`
/// at the start is removed.
pub open spec fn trim_start_matches(s: Seq<char>, p: Seq<char>) -> Seq<char>
    decreases s.len(),
{
    if p.len() > 0 && starts_with(s, p) {
        trim_start_matches(s.skip(p.len() as int), p)
    } else {
        s
    }
}

/// The length of `trim_end(s)`, which is a prefix of `s`.
pub fn trim_end_len(s: &[char]) -> (n: usize)
    ensures
        n <= s.len(),
        trim_end(s@) == s@.take(n as int),
{
    let mut e = s.len();
    assert(s@.take(e as int) =~= s@);
    while e > 0 && char_is_whitespace(s[e - 1])
        invariant
            e <= s.len(),
            trim_end(s@) == trim_end(s@.take(e as int)),
        decreases e,
    {
        assert(s@.take(e as int).drop_last() =~= s@.take(e - 1));
        e -= 1;
    }
    e
}

pub fn starts_with_chars(s: &[char], p: &[char]) -> (r: bool)
    ensures
        r == starts_with(s@, p@),
{
    if p.len() > s.len() {
        return false;
    }
    let mut i: usize = 0;
    while i < p.len()
        invariant
            p.len() <= s.len(),
            i <= p.len(),
            forall|k: int| 0 <= k < i ==> s@[k] == p@[k],
        decreases p.len() - i,
    {
        if s[i] != p[i] {
            assert(s@.take(p.len() as int)[i as int] != p@[i as int]);
            return false;
        }
        i += 1;
    }
    assert(s@.take(p.len() as int) =~= p@);
    true
}

pub fn ends_with_chars(s: &[char], p: &[char]) -> (r: bool)
    ensures
        r == ends_with(s@, p@),
{
    if p.len() > s.len() {
        return false;
    }
    let off = s.len() - p.len();
    let mut i: usize = 0;
    while i < p.len()
        invariant
            p.len() <= s.len(),
            off == s.len() - p.len(),
            i <= p.len(),
            forall|k: int| 0 <= k < i ==> s@[off + k] == p@[k],
        decreases p.len() - i,
    {
        if s[off + i] != p[i] {
            assert(s@.subrange(off as int, s.len() as int)[i as int] != p@[i as int]);
            return false;
        }
        i += 1;
    }
    assert(s@.subrange(off as int, s.len() as int) =~= p@);
    true
}

/// The length of `trim_end_matches(s[..n], p)`, a prefix of `s`.
pub fn trim_end_matches_len(s: &[char], n: usize, p: &[char]) -> (m: usize)
    requires
        n <= s.len(),
    ensures
        m <= n,
        trim_end_matches(s@.take(n as int), p@) == s@.take(m as int),
{
    let mut e = n;
    if p.len() == 0 {
        return e;
    }
    loop
        invariant
            p.len() > 0,
            e <= n <= s.len(),
            trim_end_matches(s@.take(n as int), p@) == trim_end_matches(s@.take(e as int), p@),
        decreases e,
    {
        let prefix = copy_range(s, 0, e);
        assert(prefix@ =~= s@.take(e as int));
        if ends_with_chars(prefix.as_slice(), p) {
            assert(s@.take(e as int).take(e - p.len()) =~= s@.take(e - p.len()));
            e = e - p.len();
        } else {
            return e;
        }
    }
}

/// The start of `trim_start_matches(s, p)`, a suffix of `s`.
pub fn trim_start_matches_start(s: &[char], p: &[char]) -> (b: usize)
    ensures
        b <= s.len(),
        trim_start_matches(s@, p@) == s@.skip(b as int),
{
    let mut b: usize = 0;
    assert(s@.skip(0) =~= s@);
    if p.len() == 0 {
        return b;
    }
    loop
        invariant
            p.len() > 0,
            b <= s.len(),
            trim_start_matches(s@, p@) == trim_start_matches(s@.skip(b as int), p@),
        decreases s.len() - b,
    {
        let rest = copy_range(s, b, s.len());
        assert(rest@ =~= s@.skip(b as int));
        if starts_with_chars(rest.as_slice(), p) {
            assert(s@.skip(b as int).skip(p.len() as int) =~= s@.skip(b + p.len()));
            b = b + p.len();
        } else {
            return b;
        }
    }
}

// ---------------------------------------------------------------------------
// Splitting
// ---------------------------------------------------------------------------

pub open spec fn views(v: Seq<Vec<char>>) -> Seq<Seq<char>> {
    v.map_values(|x: Vec<char>| x@)
}

/// `str::split_ascii_whitespace`: the maximal runs of characters that are
/// not ASCII whitespace, read from left to right.
pub open spec fn split_ascii_whitespace(s: Seq<char>) -> Seq<Seq<char>>
    decreases s.len(),
{
    if s.len() == 0 {
        Seq::empty()
    } else {
        let prev = split_ascii_whitespace(s.drop_last());
        let c = s.last();
        if is_ascii_whitespace(c) {
            prev
        } else if s.len() >= 2 && !is_ascii_whitespace(s[s.len() - 2]) {
            prev.update(prev.len() - 1, prev.last().push(c))
        } else {
            prev.push(seq![c])
        }
    }
}

/// The tokens of `s`, as `str::split_ascii_whitespace` yields them.
pub fn split_ascii_whitespace_chars(s: &[char]) -> (res: Vec<Vec<char>>)
    ensures
        views(res@) == split_ascii_whitespace(s@),
{
    let mut done: Vec<Vec<char>> = Vec::new();
    let mut cur: Vec<char> = Vec::new();
    let mut i: usize = 0;
    while i < s.len()
        invariant
            i <= s.len(),
            cur.len() > 0 <==> (i > 0 && !is_ascii_whitespace(s@[i - 1])),
            split_ascii_whitespace(s@.take(i as int)) == (if cur.len() > 0 {
                views(done@).push(cur@)
            } else {
                views(done@)
            }),
        decreases s.len() - i,
    {
        let c = s[i];
        let ghost t = s@.take(i + 1);
        assert(t.drop_last() =~= s@.take(i as int));
        if char_is_ascii_whitespace(c) {
            if cur.len() > 0 {
                let tok = cur;
                let ghost before = views(done@);
                done.push(tok);
                assert(views(done@) =~= before.push(tok@));
                cur = Vec::new();
            }
        } else {
            let ghost old_cur = cur@;
            let ghost prev = split_ascii_whitespace(s@.take(i as int));
            let had = cur.len() > 0;
            cur.push(c);
            if had {
                assert(t[t.len() - 2] == s@[i - 1]);
                assert(prev == views(done@).push(old_cur));
                assert(split_ascii_whitespace(t) == prev.update(prev.len() - 1, old_cur.push(c)));
                assert(split_ascii_whitespace(t) =~= views(done@).push(cur@));
            } else {
                assert(i > 0 ==> t[t.len() - 2] == s@[i - 1]);
                assert(cur@ =~= seq![c]);
                assert(split_ascii_whitespace(t) =~= views(done@).push(cur@));
            }
        }
        i += 1;
    }
    assert(s@.take(s.len() as int) =~= s@);
    if cur.len() > 0 {
        let ghost before = views(done@);
        done.push(cur);
        assert(views(done@) =~= before.push(cur@));
    }
    done
}

/// The segments of `s` between `'\n'` characters (`str::split('\n')`):
/// there is always one more segment than there are newlines.
pub open spec fn split_newlines(s: Seq<char>) -> Seq<Seq<char>>
    decreases s.len(),
{
    if s.len() == 0 {
        seq![Seq::<char>::empty()]
    } else {
        let prev = split_newlines(s.drop_last());
        if s.last() == '\n' {
            prev.push(Seq::<char>::empty())
        } else {
            prev.update(prev.len() - 1, prev.last().push(s.last()))
        }
    }
}

pub proof fn lemma_split_newlines_nonempty(s: Seq<char>)
    ensures
        split_newlines(s).len() >= 1,
    decreases s.len(),
{
    if s.len() > 0 {
        lemma_split_newlines_nonempty(s.drop_last());
    }
}

/// A line that a `"\n"` ended loses one `'\r'` before it.
pub open spec fn strip_cr(l: Seq<char>) -> Seq<char> {
    if l.len() > 0 && l.last() == '\r' {
        l.drop_last()
    } else {
        l
    }
}

/// `str::lines`: lines end at `"\n"` or `"\r\n"`, the terminator is not part
/// of the line, and an empty text after the last terminator is no line.
pub open spec fn lines(s: Seq<char>) -> Seq<Seq<char>> {
    let parts = split_newlines(s);
    let n = parts.len();
    let ended = parts.take(n - 1).map_values(|l: Seq<char>| strip_cr(l));
    if parts[n - 1].len() == 0 {
        ended
    } else {
        ended.push(parts[n - 1])
    }
}

/// The lines of `s`, as `str::lines` yields them.
pub fn lines_chars(s: &[char]) -> (res: Vec<Vec<char>>)
    ensures
        views(res@) == lines(s@),
{
    let mut done: Vec<Vec<char>> = Vec::new();
    let mut cur: Vec<char> = Vec::new();
    let mut i: usize = 0;
    proof {
        lemma_split_newlines_nonempty(s@.take(0));
        assert(s@.take(0) =~= Seq::<char>::empty());
    }
    while i < s.len()
        invariant
            i <= s.len(),
            split_newlines(s@.take(i as int)).len() == done.len() + 1,
            views(done@) == split_newlines(s@.take(i as int)).take(done.len() as int).map_values(
                |l: Seq<char>| strip_cr(l),
            ),
            cur@ == split_newlines(s@.take(i as int)).last(),
        decreases s.len() - i,
    {
        let c = s[i];
        let ghost t = s@.take(i + 1);
        let ghost prev = split_newlines(s@.take(i as int));
        assert(t.drop_last() =~= s@.take(i as int));
        if c == '\n' {
            let line = if cur.len() > 0 && cur[cur.len() - 1] == '\r' {
                copy_range(cur.as_slice(), 0, cur.len() - 1)
            } else {
                cur
            };
            assert(line@ == strip_cr(prev.last()));
            let ghost before = views(done@);
            done.push(line);
            assert(views(done@) =~= before.push(line@));
            assert(split_newlines(t) == prev.push(Seq::<char>::empty()));
            assert(split_newlines(t).take(done.len() as int) =~= prev);
            assert(views(done@) =~= split_newlines(t).take(done.len() as int).map_values(
                |l: Seq<char>| strip_cr(l),
            ));
            cur = Vec::new();
        } else {
            cur.push(c);
            assert(split_newlines(t).take(done.len() as int) =~= prev.take(done.len() as int));
        }
        i += 1;
    }
    assert(s@.take(s.len() as int) =~= s@);
    if cur.len() > 0 {
        let ghost before = views(done@);
        done.push(cur);
        assert(views(done@) =~= before.push(cur@));
    }
    done
}

// ---------------------------------------------------------------------------
// Decimal numbers
// ---------------------------------------------------------------------------

pub open spec fn all_digits(s: Seq<char>) -> bool {
    forall|i: int| 0 <= i < s.len() ==> is_digit(#[trigger] s[i])
}

/// The value of a string of decimal digits.
pub open spec fn digits_value(s: Seq<char>) -> int
    decreases s.len(),
{
    if s.len() == 0 {
        0
    } else {
        digits_value(s.drop_last()) * 10 + digit_value(s.last())
    }
}

/// The integer that `str::parse` reads from `s` for an integer type wide
/// enough to hold it: an optional `+` or `-`, then one or more ASCII digits.
pub open spec fn parse_decimal(s: Seq<char>) -> Option<int> {
    if s.len() > 0 && (s[0] == '+' || s[0] == '-') {
        let d = s.drop_first();
        if d.len() > 0 && all_digits(d) {
            Some(
                if s[0] == '-' {
                    -digits_value(d)
                } else {
                    digits_value(d)
                },
            )
        } else {
            None
        }
    } else if s.len() > 0 && all_digits(s) {
        Some(digits_value(s))
    } else {
        None
    }
}

/// `s.parse::<i8>()` when it succeeds.
pub open spec fn parse_i8(s: Seq<char>) -> Option<i8> {
    match parse_decimal(s) {
        Some(v) => if i8::MIN <= v <= i8::MAX {
            Some(v as i8)
        } else {
            None
        },
        None => None,
    }
}

/// `s.parse::<i32>()` when it succeeds.
pub open spec fn parse_i32(s: Seq<char>) -> Option<i32> {
    match parse_decimal(s) {
        Some(v) => if i32::MIN <= v <= i32::MAX {
            Some(v as i32)
        } else {
            None
        },
        None => None,
    }
}

proof fn lemma_digits_nonneg(s: Seq<char>)
    requires
        all_digits(s),
    ensures
        digits_value(s) >= 0,
    decreases s.len(),
{
    if s.len() > 0 {
        assert(all_digits(s.drop_last())) by {
            assert forall|i: int| 0 <= i < s.drop_last().len() implies is_digit(
                #[trigger] s.drop_last()[i],
            ) by {
                assert(s.drop_last()[i] == s[i]);
            }
        }
        lemma_digits_nonneg(s.drop_last());
        assert(is_digit(s[s.len() - 1]));
    }
}

/// A string of digits is worth no less than any of its prefixes.
proof fn lemma_digits_prefix_le(s: Seq<char>, k: int)
    requires
        all_digits(s),
        0 <= k <= s.len(),
    ensures
        digits_value(s.take(k)) <= digits_value(s),
    decreases s.len() - k,
{
    if k == s.len() {
        assert(s.take(k) =~= s);
    } else {
        lemma_digits_prefix_le(s, k + 1);
        let t = s.take(k + 1);
        assert(t.drop_last() =~= s.take(k));
        assert(all_digits(s.take(k))) by {
            assert forall|i: int| 0 <= i < s.take(k).len() implies is_digit(
                #[trigger] s.take(k)[i],
            ) by {
                assert(s.take(k)[i] == s[i]);
            }
        }
        lemma_digits_nonneg(s.take(k));
        assert(is_digit(s[k]));
    }
}

/// `s.parse::<i32>()`.
pub fn parse_i32_chars(s: &[char]) -> (r: Option<i32>)
    ensures
        r == parse_i32(s@),
{
    let n = s.len();
    if n == 0 {
        return None;
    }
    let neg = s[0] == '-';
    let start: usize = if s[0] == '+' || s[0] == '-' {
        1
    } else {
        0
    };
    if start == n {
        return None;
    }
    let ghost d = s@.skip(start as int);
    assert(start == 1 ==> d =~= s@.drop_first());
    assert(start == 0 ==> d =~= s@);
    let limit: i64 = 2147483648;
    let mut v: i64 = 0;
    let mut i = start;
    while i < n
        invariant
            start <= i <= n == s.len(),
            start < n,
            start <= 1,
            d == s@.skip(start as int),
            start == 1 ==> (d == s@.drop_first() && (s@[0] == '+' || s@[0] == '-')),
            start == 0 ==> (d == s@ && !(s@[0] == '+' || s@[0] == '-')),
            neg == (s@[0] == '-'),
            0 <= v <= limit,
            limit == 2147483648,
            forall|k: int| start <= k < i ==> is_digit(#[trigger] s@[k]),
            v == digits_value(d.take(i - start)),
        decreases n - i,
    {
        let c = s[i];
        let u = c as u32;
        if u < 0x30 || u > 0x39 {
            assert(d[i - start] == s@[i as int]);
            assert(!is_digit(d[i - start]));
            assert(!all_digits(d));
            assert(parse_decimal(s@) is None);
            return None;
        }
        let nv = v * 10 + (u - 0x30) as i64;
        assert(d.take(i + 1 - start).drop_last() =~= d.take(i - start));
        if nv > limit {
            assert(d[i - start] == s@[i as int]);
            assert(d.take(i + 1 - start).last() == c);
            assert(digits_value(d.take(i + 1 - start)) == nv);
            assert(all_digits(d) ==> digits_value(d) > limit) by {
                if all_digits(d) {
                    lemma_digits_prefix_le(d, i + 1 - start);
                }
            }
            assert(parse_i32(s@) is None);
            return None;
        }
        v = nv;
        i += 1;
    }
    assert(all_digits(d));
    assert(d.take(n - start) =~= d);
    if neg {
        Some((-v) as i32)
    } else if v <= 2147483647 {
        Some(v as i32)
    } else {
        None
    }
}

// ---------------------------------------------------------------------------
// Decimal printing
// ---------------------------------------------------------------------------

pub open spec fn digit_char(d: nat) -> char {
    if d == 0 {
        '0'
    } else if d == 1 {
        '1'
    } else if d == 2 {
        '2'
    } else if d == 3 {
        '3'
    } else if d == 4 {
        '4'
    } else if d == 5 {
        '5'
    } else if d == 6 {
        '6'
    } else if d == 7 {
        '7'
    } else if d == 8 {
        '8'
    } else {
        '9'
    }
}

/// The decimal digits of `n`, most significant first, with no leading zero.
pub open spec fn nat_to_decimal(n: nat) -> Seq<char>
    decreases n,
{
    if n < 10 {
        seq![digit_char(n)]
    } else {
        nat_to_decimal(n / 10).push(digit_char(n % 10))
    }
}

/// An integer written in decimal, with a `-` before a negative one.
pub open spec fn int_to_decimal(v: int) -> Seq<char> {
    if v < 0 {
        seq!['-'] + nat_to_decimal((-v) as nat)
    } else {
        nat_to_decimal(v as nat)
    }
}

fn exec_digit_char(d: u64) -> (c: char)
    requires
        d < 10,
    ensures
        c == digit_char(d as nat),
{
    match d {
        0 => '0',
        1 => '1',
        2 => '2',
        3 => '3',
        4 => '4',
        5 => '5',
        6 => '6',
        7 => '7',
        8 => '8',
        _ => '9',
    }
}

fn push_nat_decimal(out: &mut String, n: u64)
    ensures
        final(out)@ == old(out)@ + nat_to_decimal(n as nat),
    decreases n,
{
    if n >= 10 {
        push_nat_decimal(out, n / 10);
    }
    let c = exec_digit_char(n % 10);
    push_char(out, c);
    assert(out@ =~= old(out)@ + nat_to_decimal(n as nat));
}

/// Appends `v` in decimal to `out`.
pub fn push_decimal(out: &mut String, v: i64)
    ensures
        final(out)@ == old(out)@ + int_to_decimal(v as int),
{
    if v < 0 {
        push_char(out, '-');
        let m: u64 = if v == i64::MIN {
            9223372036854775808u64
        } else {
            (-v) as u64
        };
        push_nat_decimal(out, m);
        assert(out@ =~= old(out)@ + int_to_decimal(v as int));
    } else {
        push_nat_decimal(out, v as u64);
    }
}

/// Appends a string slice to `out`.
pub fn push_str(out: &mut String, s: &str)
    ensures
        final(out)@ == old(out)@ + s@,
{
    out.append(s);
}

} // verus!

verus! {

// ---------------------------------------------------------------------------
// Laws
// ---------------------------------------------------------------------------

/// A line is blank exactly when every character in it is whitespace.
pub proof fn law_blank_iff_all_whitespace(s: Seq<char>)
    ensures
        is_blank(s) <==> (forall|i: int| 0 <= i < s.len() ==> is_whitespace(#[trigger] s[i])),
    decreases s.len(),
{
    if s.len() > 0 {
        law_blank_iff_all_whitespace(s.drop_last());
        if is_whitespace(s.last()) {
            assert forall|i: int| 0 <= i < s.len() - 1 implies s.drop_last()[i] == #[trigger] s[i] by {}
            if (forall|i: int| 0 <= i < s.drop_last().len() ==> is_whitespace(#[trigger] s.drop_last()[i])) {
                assert forall|i: int| 0 <= i < s.len() implies is_whitespace(#[trigger] s[i]) by {
                    if i < s.len() - 1 {
                        assert(s.drop_last()[i] == s[i]);
                    }
                }
            } else {
                let k = choose|k: int| 0 <= k < s.drop_last().len() && !is_whitespace(#[trigger] s.drop_last()[k]);
                assert(s[k] == s.drop_last()[k]);
            }
        } else {
            assert(trim_end(s) == s);
        }
    }
}

proof fn lemma_digit_char(d: nat)
    requires
        d < 10,
    ensures
        is_digit(digit_char(d)),
        digit_value(digit_char(d)) == d,
{
}

proof fn lemma_nat_to_decimal(n: nat)
    ensures
        nat_to_decimal(n).len() > 0,
        all_digits(nat_to_decimal(n)),
        digits_value(nat_to_decimal(n)) == n,
    decreases n,
{
    if n < 10 {
        lemma_digit_char(n);
        let s = nat_to_decimal(n);
        assert(s.drop_last() =~= Seq::<char>::empty());
        assert(digits_value(s) == digits_value(s.drop_last()) * 10 + digit_value(s.last()));
    } else {
        lemma_nat_to_decimal(n / 10);
        lemma_digit_char(n % 10);
        let s = nat_to_decimal(n);
        let p = nat_to_decimal(n / 10);
        assert(s == p.push(digit_char(n % 10)));
        assert(s.drop_last() =~= p);
        assert forall|i: int| 0 <= i < s.len() implies is_digit(#[trigger] s[i]) by {
            if i < p.len() {
                assert(s[i] == p[i]);
            }
        }
        assert((n / 10) * 10 + n % 10 == n) by (nonlinear_arith);
        assert(s.last() == digit_char(n % 10));
        assert(digits_value(s) == digits_value(p) * 10 + digit_value(digit_char(n % 10)));
    }
}

/// What `push_decimal` writes, `str::parse` reads back: the decimal text of
/// an integer parses to that integer.
pub proof fn law_decimal_round_trip(v: int)
    ensures
        parse_decimal(int_to_decimal(v)) == Some(v),
{
    if v < 0 {
        let n = (-v) as nat;
        lemma_nat_to_decimal(n);
        let s = int_to_decimal(v);
        assert(s.drop_first() =~= nat_to_decimal(n));
    } else {
        let n = v as nat;
        lemma_nat_to_decimal(n);
        let s = nat_to_decimal(n);
        assert(is_digit(s[0]));
    }
}

} // verus!

verus! {

/// The decimal text of an integer is not empty, ends in a digit, and starts
/// with a digit or `-`.
pub proof fn lemma_int_to_decimal_shape(v: int)
    ensures
        int_to_decimal(v).len() > 0,
        is_digit(int_to_decimal(v).last()),
        int_to_decimal(v)[0] == '-' || is_digit(int_to_decimal(v)[0]),
{
    if v < 0 {
        let n = (-v) as nat;
        lemma_nat_to_decimal(n);
        let d = nat_to_decimal(n);
        assert(int_to_decimal(v).last() == d.last());
        assert(is_digit(d[d.len() - 1]));
    } else {
        let n = v as nat;
        lemma_nat_to_decimal(n);
        let d = nat_to_decimal(n);
        assert(is_digit(d[d.len() - 1]));
        assert(is_digit(d[0]));
    }
}

} // verus!

verus! {

/// No character of `s` is ASCII whitespace.
pub open spec fn no_ascii_whitespace(s: Seq<char>) -> bool {
    forall|i: int| 0 <= i < s.len() ==> !is_ascii_whitespace(#[trigger] s[i])
}

/// A word with no whitespace in it is a single token.
pub proof fn lemma_split_word(w: Seq<char>)
    requires
        w.len() > 0,
        no_ascii_whitespace(w),
    ensures
        split_ascii_whitespace(w) == seq![w],
    decreases w.len(),
{
    assert(!is_ascii_whitespace(w[w.len() - 1]));
    if w.len() == 1 {
        assert(w.drop_last() =~= Seq::<char>::empty());
        assert(w =~= seq![w[0]]);
        assert(split_ascii_whitespace(Seq::<char>::empty()) == Seq::<Seq<char>>::empty());
        assert(split_ascii_whitespace(w.drop_last()) == Seq::<Seq<char>>::empty());
        assert(split_ascii_whitespace(w) == Seq::<Seq<char>>::empty().push(seq![w.last()]));
        assert(split_ascii_whitespace(w) =~= seq![w]);
    } else {
        let p = w.drop_last();
        assert(no_ascii_whitespace(p)) by {
            assert forall|i: int| 0 <= i < p.len() implies !is_ascii_whitespace(#[trigger] p[i]) by {
                assert(p[i] == w[i]);
            }
        }
        lemma_split_word(p);
        assert(!is_ascii_whitespace(w[w.len() - 2]));
        assert(p.push(w.last()) =~= w);
        assert(split_ascii_whitespace(w) == seq![p].update(0, p.push(w.last())));
        assert(split_ascii_whitespace(w) =~= seq![w]);
    }
}

/// Tokens after a space: `s`, a space and a word read as the tokens of `s`
/// followed by the word.
pub proof fn lemma_split_space_word(s: Seq<char>, t: Seq<char>)
    requires
        t.len() > 0,
        no_ascii_whitespace(t),
    ensures
        split_ascii_whitespace(s + seq![' '] + t) == split_ascii_whitespace(s).push(t),
    decreases t.len(),
{
    let sp = s + seq![' '];
    assert(sp.drop_last() =~= s);
    assert(is_ascii_whitespace(' '));
    assert(split_ascii_whitespace(sp) == split_ascii_whitespace(s));
    let line = sp + t;
    assert(!is_ascii_whitespace(t[t.len() - 1]));
    if t.len() == 1 {
        assert(line.drop_last() =~= sp);
        assert(line[line.len() - 2] == ' ');
        assert(t =~= seq![t[0]]);
    } else {
        let p = t.drop_last();
        assert(no_ascii_whitespace(p)) by {
            assert forall|i: int| 0 <= i < p.len() implies !is_ascii_whitespace(#[trigger] p[i]) by {
                assert(p[i] == t[i]);
            }
        }
        lemma_split_space_word(s, p);
        assert(line.drop_last() =~= sp + p);
        assert(line[line.len() - 2] == t[t.len() - 2]);
        assert(!is_ascii_whitespace(t[t.len() - 2]));
        assert(p.push(t.last()) =~= t);
        assert(split_ascii_whitespace(line) =~= split_ascii_whitespace(s).push(t));
    }
}

/// The decimal text of an integer holds no whitespace.
pub proof fn lemma_decimal_no_whitespace(v: int)
    ensures
        no_ascii_whitespace(int_to_decimal(v)),
        forall|i: int| 0 <= i < int_to_decimal(v).len() ==> !is_whitespace(#[trigger] int_to_decimal(v)[i]),
{
    let d = int_to_decimal(v);
    if v < 0 {
        lemma_nat_to_decimal((-v) as nat);
        let n = nat_to_decimal((-v) as nat);
        assert forall|i: int| 0 <= i < d.len() implies !is_ascii_whitespace(#[trigger] d[i]) && !is_whitespace(d[i]) by {
            if i > 0 {
                assert(d[i] == n[i - 1]);
                assert(is_digit(n[i - 1]));
            }
        }
    } else {
        lemma_nat_to_decimal(v as nat);
        assert forall|i: int| 0 <= i < d.len() implies !is_ascii_whitespace(#[trigger] d[i]) && !is_whitespace(d[i]) by {
            assert(is_digit(d[i]));
        }
    }
}

} // verus!

verus! {

/// Whitespace after a text is all that `trim_end` removes of it.
pub proof fn lemma_trim_end_whitespace_suffix(s: Seq<char>, t: Seq<char>)
    requires
        forall|i: int| 0 <= i < t.len() ==> is_whitespace(#[trigger] t[i]),
    ensures
        trim_end(s + t) == trim_end(s),
    decreases t.len(),
{
    if t.len() == 0 {
        assert(s + t =~= s);
    } else {
        let u = t.drop_last();
        assert((s + t).drop_last() =~= s + u);
        assert((s + t).last() == t[t.len() - 1]);
        lemma_trim_end_whitespace_suffix(s, u);
    }
}

/// A text with no `'\n'` in it is a single segment.
proof fn lemma_split_newlines_no_newline(w: Seq<char>)
    requires
        !w.contains('\n'),
    ensures
        split_newlines(w) == seq![w],
    decreases w.len(),
{
    if w.len() > 0 {
        let p = w.drop_last();
        assert(!p.contains('\n')) by {
            if p.contains('\n') {
                let k = choose|k: int| 0 <= k < p.len() && p[k] == '\n';
                assert(w[k] == '\n');
            }
        }
        lemma_split_newlines_no_newline(p);
        assert(w.last() != '\n') by {
            assert(w[w.len() - 1] == w.last());
        }
        assert(p.push(w.last()) =~= w);
        assert(split_newlines(w) =~= seq![w]);
    } else {
        assert(w =~= Seq::<char>::empty());
    }
}

/// After a text whose last segment is empty (it is empty or ends in
/// `'\n'`), the segments of what follows simply continue.
proof fn lemma_split_newlines_append(x: Seq<char>, y: Seq<char>)
    requires
        split_newlines(x).last() == Seq::<char>::empty(),
    ensures
        split_newlines(x + y) == split_newlines(x).drop_last() + split_newlines(y),
    decreases y.len(),
{
    lemma_split_newlines_nonempty(x);
    let px = split_newlines(x).drop_last();
    if y.len() == 0 {
        assert(x + y =~= x);
        assert(split_newlines(y) == seq![Seq::<char>::empty()]);
        assert(split_newlines(x) =~= px + seq![Seq::<char>::empty()]);
    } else {
        let yp = y.drop_last();
        lemma_split_newlines_append(x, yp);
        lemma_split_newlines_nonempty(yp);
        assert((x + y).drop_last() =~= x + yp);
        assert((x + y).last() == y.last());
        let prev = split_newlines(x + yp);
        let sy = split_newlines(yp);
        if y.last() == '\n' {
            assert(split_newlines(x + y) =~= px + sy.push(Seq::<char>::empty()));
        } else {
            assert(prev.last() == sy.last());
            assert(split_newlines(x + y) =~= px + sy.update(sy.len() - 1, sy.last().push(y.last())));
        }
    }
}

/// Lines of a text that ends with a line terminator (or is empty), then lines
/// of what follows.
pub proof fn lemma_lines_append(x: Seq<char>, y: Seq<char>)
    requires
        x.len() == 0 || x.last() == '\n',
    ensures
        lines(x + y) == lines(x) + lines(y),
{
    lemma_split_newlines_nonempty(x);
    lemma_split_newlines_nonempty(y);
    if x.len() > 0 {
        assert(x.drop_last().push('\n') =~= x);
        assert(split_newlines(x).last() == Seq::<char>::empty());
    } else {
        assert(split_newlines(x).last() == Seq::<char>::empty());
    }
    lemma_split_newlines_append(x, y);
    let px = split_newlines(x).drop_last();
    let sy = split_newlines(y);
    let parts = split_newlines(x + y);
    assert(parts == px + sy);
    let f = |l: Seq<char>| strip_cr(l);
    assert(split_newlines(x).take(split_newlines(x).len() - 1) =~= px);
    assert(lines(x) == px.map_values(f));
    assert(parts.take(parts.len() - 1) =~= px + sy.take(sy.len() - 1));
    assert((px + sy.take(sy.len() - 1)).map_values(f) =~= px.map_values(f) + sy.take(
        sy.len() - 1,
    ).map_values(f));
    assert(parts[parts.len() - 1] == sy[sy.len() - 1]);
    if sy[sy.len() - 1].len() == 0 {
        assert(lines(x + y) =~= lines(x) + lines(y));
    } else {
        assert(lines(x + y) =~= lines(x) + lines(y));
    }
}

/// A text with no `'\n'`, followed by one, is one line.
pub proof fn lemma_lines_single_terminated(w: Seq<char>)
    requires
        !w.contains('\n'),
    ensures
        lines(w + seq!['\n']) == seq![strip_cr(w)],
{
    lemma_split_newlines_no_newline(w);
    let t = w + seq!['\n'];
    assert(t.drop_last() =~= w);
    assert(split_newlines(t) =~= seq![w, Seq::<char>::empty()]);
    assert(lines(t) =~= seq![strip_cr(w)]);
}

/// A text with no `'\n'` and no line terminator is one line, or none if it
/// is empty.
pub proof fn lemma_lines_single_unterminated(w: Seq<char>)
    requires
        !w.contains('\n'),
    ensures
        lines(w) == (if w.len() == 0 {
            Seq::<Seq<char>>::empty()
        } else {
            seq![w]
        }),
{
    lemma_split_newlines_no_newline(w);
    assert(split_newlines(w).take(0) =~= Seq::<Seq<char>>::empty());
    assert(lines(w) =~= (if w.len() == 0 {
        Seq::<Seq<char>>::empty()
    } else {
        seq![w]
    }));
}

/// Dropping the `'\r'` of a blank line leaves it blank.
pub proof fn lemma_strip_cr_blank(w: Seq<char>)
    requires
        is_blank(w),
    ensures
        is_blank(strip_cr(w)),
{
    if w.len() > 0 && w.last() == '\r' {
        assert(is_whitespace('\r'));
    }
}

} // verus!
