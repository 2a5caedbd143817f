//! Character-level text utilities used by shader source processing:
//! whitespace trimming, substring search, line splitting, replacement and
//! decimal formatting, each specified over `Seq<char>`.

use vstd::prelude::*;

verus! {

broadcast use vstd::string::axiom_spec_iter;

/// The characters of `s`, in order.
pub fn chars_of(s: &str) -> (r: Vec<char>)
    ensures
        r@ == s@,
{
    let mut out: Vec<char> = Vec::new();
    for c in it: s.chars()
        invariant
            out@.len() == it.index(),
            forall|i: int| 0 <= i < out@.len() ==> out@[i] == it.seq()[i],
    {
        out.push(c);
    }
    assert(out@ =~= s@);
    out
}

/// Calls `Iterator::collect` into a `String` on the characters of `chars`.
/// std documents that collecting characters concatenates them in order.
#[verifier::external_body]
pub(crate) fn string_from_chars(chars: &[char]) -> (r: String)
    ensures
        r@ == chars@,
{
    chars.iter().collect()
}

/// Unicode `White_Space`, as `char::is_whitespace` classifies it.
pub open spec fn is_ws(c: char) -> bool {
    let v = c as u32;
    (9 <= v <= 13) || v == 32 || v == 0x85 || v == 0xa0 || v == 0x1680 || (0x2000 <= v <= 0x200a)
        || v == 0x2028 || v == 0x2029 || v == 0x202f || v == 0x205f || v == 0x3000
}

/// Whether `c` is whitespace.
pub fn is_whitespace(c: char) -> (r: bool)
    ensures
        r == is_ws(c),
{
    let v = c as u32;
    (9 <= v && v <= 13) || v == 32 || v == 0x85 || v == 0xa0 || v == 0x1680 || (0x2000 <= v && v
        <= 0x200a) || v == 0x2028 || v == 0x2029 || v == 0x202f || v == 0x205f || v == 0x3000
}

/// `s` without its leading whitespace.
pub open spec fn trim_start(s: Seq<char>) -> Seq<char>
    decreases s.len(),
{
    if s.len() > 0 && is_ws(s[0]) {
        trim_start(s.drop_first())
    } else {
        s
    }
}

/// `s` without its trailing whitespace.
pub open spec fn trim_end(s: Seq<char>) -> Seq<char>
    decreases s.len(),
{
    if s.len() > 0 && is_ws(s.last()) {
        trim_end(s.drop_last())
    } else {
        s
    }
}

/// `s` without leading and trailing whitespace, as `str::trim` gives it.
pub open spec fn trim(s: Seq<char>) -> Seq<char> {
    trim_end(trim_start(s))
}

proof fn lemma_trim_start_skip(s: Seq<char>, i: int)
    requires
        0 <= i <= s.len(),
        forall|j: int| 0 <= j < i ==> is_ws(#[trigger] s[j]),
    ensures
        trim_start(s) == trim_start(s.skip(i)),
    decreases i,
{
    if i > 0 {
        assert(s.drop_first().skip(i - 1) =~= s.skip(i));
        lemma_trim_start_skip(s.drop_first(), i - 1);
    } else {
        assert(s.skip(0) =~= s);
    }
}

proof fn lemma_trim_end_take(s: Seq<char>, j: int)
    requires
        0 <= j <= s.len(),
        forall|k: int| j <= k < s.len() ==> is_ws(#[trigger] s[k]),
    ensures
        trim_end(s) == trim_end(s.take(j)),
    decreases s.len() - j,
{
    if j < s.len() {
        assert(s.drop_last().take(j) =~= s.take(j));
        lemma_trim_end_take(s.drop_last(), j);
    } else {
        assert(s.take(j) =~= s);
    }
}

/// The characters of `s[start..end]` without surrounding whitespace.
pub fn trim_slice(s: &[char], start: usize, end: usize) -> (r: Vec<char>)
    requires
        start <= end <= s@.len(),
    ensures
        r@ == trim(s@.subrange(start as int, end as int)),
{
    let ghost t = s@.subrange(start as int, end as int);
    let mut i: usize = start;
    while i < end && is_whitespace(s[i])
        invariant
            start <= i <= end <= s@.len(),
            t == s@.subrange(start as int, end as int),
            forall|k: int| start <= k < i ==> is_ws(#[trigger] s@[k]),
        decreases end - i,
    {
        i += 1;
    }
    proof {
        assert forall|k: int| 0 <= k < i - start implies is_ws(#[trigger] t[k]) by {
            assert(t[k] == s@[start + k]);
        }
        lemma_trim_start_skip(t, i - start);
        assert(t.skip(i - start) =~= s@.subrange(i as int, end as int));
        if i < end {
            assert(!is_ws(s@[i as int]));
        }
    }
    let ghost u = s@.subrange(i as int, end as int);
    assert(trim_start(u) == u) by {
        if u.len() > 0 {
            assert(u[0] == s@[i as int]);
        }
    }
    let mut j: usize = end;
    while j > i && is_whitespace(s[j - 1])
        invariant
            start <= i <= j <= end <= s@.len(),
            u == s@.subrange(i as int, end as int),
            forall|k: int| j <= k < end ==> is_ws(#[trigger] s@[k]),
        decreases j,
    {
        j -= 1;
    }
    proof {
        assert forall|k: int| j - i <= k < u.len() implies is_ws(#[trigger] u[k]) by {
            assert(u[k] == s@[i + k]);
        }
        lemma_trim_end_take(u, j - i);
        let w = u.take(j - i);
        assert(w =~= s@.subrange(i as int, j as int));
        if j > i {
            assert(w.last() == s@[j - 1]);
        }
    }
    let mut out: Vec<char> = Vec::new();
    let mut k: usize = i;
    while k < j
        invariant
            i <= k <= j <= s@.len(),
            out@ =~= s@.subrange(i as int, k as int),
        decreases j - k,
    {
        out.push(s[k]);
        k += 1;
    }
    out
}

/// The first position at or after `k` where `pat` occurs in `s`.
pub open spec fn find_from(s: Seq<char>, pat: Seq<char>, k: int) -> Option<int>
    decreases s.len() + 1 - k,
{
    if k < 0 || k + pat.len() > s.len() {
        None
    } else if s.subrange(k, k + pat.len()) == pat {
        Some(k)
    } else {
        find_from(s, pat, k + 1)
    }
}

/// The first position where `pat` occurs in `s`, as `str::find` gives it.
pub open spec fn find(s: Seq<char>, pat: Seq<char>) -> Option<int> {
    find_from(s, pat, 0)
}

/// Whether `pat` occurs in `s` at position `i`.
fn matches_at(s: &[char], pat: &[char], i: usize) -> (r: bool)
    requires
        i + pat@.len() <= s@.len(),
    ensures
        r == (s@.subrange(i as int, i + pat@.len()) == pat@),
{
    let n: usize = s.len();
    let mut j: usize = 0;
    while j < pat.len()
        invariant
            n == s@.len(),
            i + pat@.len() <= s@.len(),
            0 <= j <= pat@.len(),
            forall|k: int| 0 <= k < j ==> s@[i + k] == pat@[k],
        decreases pat@.len() - j,
    {
        if s[i + j] != pat[j] {
            assert(s@.subrange(i as int, i + pat@.len())[j as int] != pat@[j as int]);
            return false;
        }
        j += 1;
    }
    assert(s@.subrange(i as int, i + pat@.len()) =~= pat@);
    true
}

/// The first position where `pat` occurs in `s`.
pub fn find_in(s: &[char], pat: &[char]) -> (r: Option<usize>)
    ensures
        match r {
            Some(i) => find(s@, pat@) == Some(i as int),
            None => find(s@, pat@) is None,
        },
{
    let mut i: usize = 0;
    while i <= s.len() && pat.len() <= s.len() - i
        invariant
            0 <= i <= s@.len() + 1,
            find(s@, pat@) == find_from(s@, pat@, i as int),
        decreases s@.len() + 1 - i,
    {
        if matches_at(s, pat, i) {
            return Some(i);
        }
        proof {
            if pat@.len() == 0 {
                assert(s@.subrange(i as int, i as int) =~= pat@);
            }
        }
        i += 1;
    }
    None
}

/// Where the first line of `s` ends: the position of the first newline, or
/// the length of `s` when it has none.
pub open spec fn line_end(s: Seq<char>) -> int
    decreases s.len(),
{
    if s.len() == 0 {
        0
    } else if s[0] == '\n' {
        0
    } else {
        1 + line_end(s.drop_first())
    }
}

pub proof fn lemma_line_end(s: Seq<char>)
    ensures
        0 <= line_end(s) <= s.len(),
        line_end(s) < s.len() ==> s[line_end(s)] == '\n',
        forall|k: int| 0 <= k < line_end(s) ==> s[k] != '\n',
    decreases s.len(),
{
    if s.len() > 0 && s[0] != '\n' {
        lemma_line_end(s.drop_first());
        assert forall|k: int| 0 <= k < line_end(s) implies s[k] != '\n' by {
            if k > 0 {
                assert(s[k] == s.drop_first()[k - 1]);
            }
        }
    }
}

/// A line's text without the carriage return of a `\r\n` ending.
pub open spec fn strip_cr(line: Seq<char>) -> Seq<char> {
    if line.len() > 0 && line.last() == '\r' {
        line.drop_last()
    } else {
        line
    }
}

/// The lines of `s` as `str::lines` gives them: split at `\n`, a `\r`
/// before the `\n` dropped, no empty line after a final line ending.
pub open spec fn lines(s: Seq<char>) -> Seq<Seq<char>>
    decreases s.len(),
{
    if s.len() == 0 {
        Seq::empty()
    } else {
        let e = line_end(s);
        if e < s.len() {
            proof {
                lemma_line_end(s);
            }
            seq![strip_cr(s.take(e))] + lines(s.skip(e + 1))
        } else {
            seq![s]
        }
    }
}

/// The characters `s[a..b]`.
pub fn copy_range(s: &[char], a: usize, b: usize) -> (r: Vec<char>)
    requires
        a <= b <= s@.len(),
    ensures
        r@ == s@.subrange(a as int, b as int),
{
    let mut out: Vec<char> = Vec::new();
    let mut k: usize = a;
    while k < b
        invariant
            a <= k <= b <= s@.len(),
            out@ =~= s@.subrange(a as int, k as int),
        decreases b - k,
    {
        out.push(s[k]);
        k += 1;
    }
    out
}

proof fn lemma_line_end_is(t: Seq<char>, m: int)
    requires
        0 <= m <= t.len(),
        forall|k: int| 0 <= k < m ==> t[k] != '\n',
        m == t.len() || t[m] == '\n',
    ensures
        line_end(t) == m,
    decreases m,
{
    if m > 0 {
        lemma_line_end_is(t.drop_first(), m - 1);
    }
}

/// The lines of `s`, as `str::lines` splits them.
pub fn split_lines(s: &[char]) -> (r: Vec<Vec<char>>)
    ensures
        r@.len() == lines(s@).len(),
        forall|i: int| 0 <= i < r@.len() ==> #[trigger] r@[i]@ == lines(s@)[i],
{
    let n: usize = s.len();
    let mut out: Vec<Vec<char>> = Vec::new();
    let ghost mut done: Seq<Seq<char>> = Seq::empty();
    let mut start: usize = 0;
    assert(s@.skip(0) =~= s@);
    while start < n
        invariant
            n == s@.len(),
            0 <= start <= n,
            lines(s@) == done + lines(s@.skip(start as int)),
            out@.len() == done.len(),
            forall|i: int| 0 <= i < out@.len() ==> #[trigger] out@[i]@ == done[i],
        decreases n - start,
    {
        let ghost t = s@.skip(start as int);
        let mut e: usize = start;
        while e < n && s[e] != '\n'
            invariant
                n == s@.len(),
                start <= e <= n,
                forall|k: int| start <= k < e ==> s@[k] != '\n',
            decreases n - e,
        {
            e += 1;
        }
        proof {
            assert forall|k: int| 0 <= k < e - start implies t[k] != '\n' by {
                assert(t[k] == s@[start + k]);
            }
            if e < n {
                assert(t[e - start] == s@[e as int]);
            }
            lemma_line_end_is(t, e - start);
            assert(t.take(e - start) =~= s@.subrange(start as int, e as int));
        }
        if e < n {
            let mut line_end_at: usize = e;
            if e > start && s[e - 1] == '\r' {
                line_end_at = e - 1;
            }
            let line = copy_range(s, start, line_end_at);
            proof {
                let full = s@.subrange(start as int, e as int);
                if e > start {
                    assert(full.last() == s@[e - 1]);
                }
                assert(strip_cr(full) =~= line@);
                assert(t.skip(e - start + 1) =~= s@.skip(e + 1));
                done = done.push(line@);
                assert(lines(s@) =~= done + lines(s@.skip(e + 1)));
            }
            out.push(line);
            start = e + 1;
        } else {
            let line = copy_range(s, start, n);
            proof {
                assert(t =~= line@);
                done = done.push(line@);
                assert(s@.skip(n as int) =~= Seq::<char>::empty());
                assert(lines(s@) =~= done + lines(s@.skip(n as int)));
            }
            out.push(line);
            start = n;
        }
    }
    proof {
        assert(s@.skip(n as int) =~= Seq::<char>::empty());
        assert(lines(s@) =~= done);
    }
    out
}

/// `s` with every occurrence of `pat` replaced by `rep`, scanning from the
/// left without overlaps, as `str::replace` does.
pub open spec fn replace_all(s: Seq<char>, pat: Seq<char>, rep: Seq<char>) -> Seq<char>
    recommends
        pat.len() > 0,
    decreases s.len(),
{
    if s.len() == 0 || pat.len() == 0 {
        s
    } else if pat.len() <= s.len() && s.take(pat.len() as int) == pat {
        rep + replace_all(s.skip(pat.len() as int), pat, rep)
    } else {
        seq![s[0]] + replace_all(s.drop_first(), pat, rep)
    }
}

/// Whether `q` occurs in `s` starting at position `i`.
pub open spec fn occurs_at(s: Seq<char>, q: Seq<char>, i: int) -> bool {
    0 <= i && i + q.len() <= s.len() && s.subrange(i, i + q.len()) == q
}

/// Whether `q` occurs somewhere in `s`.
pub open spec fn occurs_in(s: Seq<char>, q: Seq<char>) -> bool {
    exists|i: int| #[trigger] occurs_at(s, q, i)
}

/// Replacing a pattern by itself leaves the text as it is.
pub proof fn lemma_replace_all_same(s: Seq<char>, pat: Seq<char>)
    ensures
        replace_all(s, pat, pat) == s,
    decreases s.len(),
{
    if s.len() == 0 || pat.len() == 0 {
    } else if pat.len() <= s.len() && s.take(pat.len() as int) == pat {
        lemma_replace_all_same(s.skip(pat.len() as int), pat);
        assert(s =~= s.take(pat.len() as int) + s.skip(pat.len() as int));
    } else {
        lemma_replace_all_same(s.drop_first(), pat);
        assert(s =~= seq![s[0]] + s.drop_first());
    }
}

/// A text in which no prefix `q` of the pattern occurs has nothing to replace.
pub proof fn lemma_replace_all_absent(s: Seq<char>, pat: Seq<char>, rep: Seq<char>, q: Seq<char>)
    requires
        0 < q.len() <= pat.len(),
        pat.take(q.len() as int) == q,
        !occurs_in(s, q),
    ensures
        replace_all(s, pat, rep) == s,
    decreases s.len(),
{
    if s.len() == 0 || pat.len() == 0 {
    } else if pat.len() <= s.len() && s.take(pat.len() as int) == pat {
        assert forall|j: int| 0 <= j < q.len() implies s.subrange(0, q.len() as int)[j] == q[j] by {
            assert(s.take(pat.len() as int)[j] == pat[j]);
            assert(pat.take(q.len() as int)[j] == pat[j]);
        }
        assert(s.subrange(0, q.len() as int) =~= q);
        assert(occurs_at(s, q, 0));
    } else {
        let t = s.drop_first();
        assert forall|i: int| !#[trigger] occurs_at(t, q, i) by {
            if 0 <= i && i + q.len() <= t.len() {
                assert(t.subrange(i, i + q.len()) =~= s.subrange(i + 1, i + 1 + q.len()));
                assert(!occurs_at(s, q, i + 1));
            }
        }
        lemma_replace_all_absent(t, pat, rep, q);
        assert(s =~= seq![s[0]] + t);
    }
}

/// `s` with every occurrence of the non-empty `pat` replaced by `rep`.
pub fn replace_chars(s: &[char], pat: &[char], rep: &[char]) -> (r: Vec<char>)
    requires
        pat@.len() > 0,
    ensures
        r@ == replace_all(s@, pat@, rep@),
{
    let n: usize = s.len();
    let mut out: Vec<char> = Vec::new();
    let mut i: usize = 0;
    assert(s@.skip(0) =~= s@);
    while i < n
        invariant
            n == s@.len(),
            pat@.len() > 0,
            0 <= i <= n,
            replace_all(s@, pat@, rep@) == out@ + replace_all(s@.skip(i as int), pat@, rep@),
        decreases n - i,
    {
        let ghost t = s@.skip(i as int);
        if pat.len() <= n - i && matches_at(s, pat, i) {
            proof {
                assert(t.take(pat@.len() as int) =~= s@.subrange(i as int, i + pat@.len()));
                assert(t.skip(pat@.len() as int) =~= s@.skip(i + pat@.len()));
            }
            let mut k: usize = 0;
            let ghost before = out@;
            while k < rep.len()
                invariant
                    0 <= k <= rep@.len(),
                    out@ =~= before + rep@.take(k as int),
                decreases rep@.len() - k,
            {
                out.push(rep[k]);
                k += 1;
            }
            proof {
                assert(rep@.take(rep@.len() as int) =~= rep@);
                assert(replace_all(s@, pat@, rep@) =~= out@ + replace_all(s@.skip(i + pat@.len()), pat@, rep@));
            }
            i += pat.len();
        } else {
            proof {
                if pat@.len() <= t.len() {
                    assert(t.take(pat@.len() as int) =~= s@.subrange(i as int, i + pat@.len()));
                }
                assert(t.drop_first() =~= s@.skip(i + 1));
                assert(t[0] == s@[i as int]);
            }
            let ghost before = out@;
            out.push(s[i]);
            proof {
                assert(replace_all(s@, pat@, rep@) =~= out@ + replace_all(s@.skip(i + 1), pat@, rep@));
            }
            i += 1;
        }
    }
    proof {
        assert(s@.skip(n as int) =~= Seq::<char>::empty());
        assert(out@ + Seq::<char>::empty() =~= out@);
    }
    out
}

/// The decimal digit character for `d < 10`.
pub open spec fn digit_char(d: int) -> char {
    (48 + d) as char
}

/// The decimal digits of `n`, as `to_string` writes an unsigned integer.
pub open spec fn decimal(n: nat) -> Seq<char>
    decreases n,
{
    if n < 10 {
        seq![digit_char(n as int)]
    } else {
        decimal(n / 10).push(digit_char((n % 10) as int))
    }
}

fn digit(d: u32) -> (c: char)
    requires
        d < 10,
    ensures
        c == digit_char(d as int),
{
    if d == 0 {
        '0'
    } else if d == 1 {
        '1'
    } else if d == 2 {
        '2'
    } else if d == 3 {
        '3'
    } else if d == 4 {
        '4'
    } else if d == 5 {
        '5'
    } else if d == 6 {
        '6'
    } else if d == 7 {
        '7'
    } else if d == 8 {
        '8'
    } else {
        '9'
    }
}

/// The decimal digits of `n`.
pub fn decimal_chars(n: u32) -> (r: Vec<char>)
    ensures
        r@ == decimal(n as nat),
{
    let mut out: Vec<char> = Vec::new();
    let mut m: u32 = n;
    while m >= 10
        invariant
            decimal(n as nat) == decimal(m as nat) + out@,
        decreases m,
    {
        let ghost before = out@;
        out.insert(0, digit(m % 10));
        proof {
            assert(decimal(m as nat) == decimal((m / 10) as nat).push(digit_char((m % 10) as int)));
            assert(decimal(n as nat) =~= decimal((m / 10) as nat) + out@);
        }
        m = m / 10;
    }
    out.insert(0, digit(m));
    assert(decimal(n as nat) =~= out@);
    out
}

/// The decimal digits of `n`.
pub fn decimal_chars_u64(n: u64) -> (r: Vec<char>)
    ensures
        r@ == decimal(n as nat),
{
    let mut out: Vec<char> = Vec::new();
    let mut m: u64 = n;
    while m >= 10
        invariant
            decimal(n as nat) == decimal(m as nat) + out@,
        decreases m,
    {
        let ghost before = out@;
        out.insert(0, digit((m % 10) as u32));
        proof {
            assert(decimal(m as nat) == decimal((m / 10) as nat).push(digit_char((m % 10) as int)));
            assert(decimal(n as nat) =~= decimal((m / 10) as nat) + out@);
        }
        m = m / 10;
    }
    out.insert(0, digit(m as u32));
    assert(decimal(n as nat) =~= out@);
    out
}

/// Whether `a` and `b` hold the same characters.
pub fn chars_eq(a: &[char], b: &[char]) -> (r: bool)
    ensures
        r == (a@ == b@),
{
    if a.len() != b.len() {
        return false;
    }
    let mut i: usize = 0;
    while i < a.len()
        invariant
            a@.len() == b@.len(),
            0 <= i <= a@.len(),
            forall|k: int| 0 <= k < i ==> a@[k] == b@[k],
        decreases a@.len() - i,
    {
        if a[i] != b[i] {
            return false;
        }
        i += 1;
    }
    assert(a@ =~= b@);
    true
}

/// Appends the characters of `s` to `out`.
pub fn push_str_chars(out: &mut Vec<char>, s: &str)
    ensures
        final(out)@ == old(out)@ + s@,
{
    let mut tail = chars_of(s);
    out.append(&mut tail);
}

/// A position `find_from` reports is a match at or after `k`.
pub proof fn lemma_find_from(s: Seq<char>, pat: Seq<char>, k: int)
    ensures
        find_from(s, pat, k) matches Some(i) ==> k <= i && i + pat.len() <= s.len() && s.subrange(
            i,
            i + pat.len(),
        ) == pat,
    decreases s.len() + 1 - k,
{
    if k >= 0 && k + pat.len() <= s.len() && s.subrange(k, k + pat.len()) != pat {
        lemma_find_from(s, pat, k + 1);
    }
}

} // verus!
