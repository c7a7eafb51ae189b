//! Character-level text helpers: substring search, prefix tests, splitting,
//! Unicode whitespace trimming and unsigned integer parsing, each proved
//! against the mathematical meaning that std documents for it.
use vstd::prelude::*;

verus! {

// ---------------------------------------------------------------------------
// Specifications
// ---------------------------------------------------------------------------

/// `needle` occurs somewhere in `hay` as a contiguous run.
pub open spec fn seq_contains(hay: Seq<char>, needle: Seq<char>) -> bool {
    exists|i: int| 0 <= i && i + needle.len() <= hay.len() && #[trigger] hay.subrange(i, i + needle.len()) == needle
}

/// `s` begins with `prefix`.
pub open spec fn starts_with(s: Seq<char>, prefix: Seq<char>) -> bool {
    prefix.len() <= s.len() && s.subrange(0, prefix.len() as int) == prefix
}

/// The Unicode `White_Space` property, which `char::is_whitespace` tests.
pub open spec fn is_whitespace(c: char) -> bool {
    let u = c as u32;
    ||| (0x09 <= u && u <= 0x0d)
    ||| u == 0x20
    ||| u == 0x85
    ||| u == 0xa0
    ||| u == 0x1680
    ||| (0x2000 <= u && u <= 0x200a)
    ||| u == 0x2028
    ||| u == 0x2029
    ||| u == 0x202f
    ||| u == 0x205f
    ||| u == 0x3000
}

/// `s` with its leading whitespace removed.
pub open spec fn trim_start(s: Seq<char>) -> Seq<char>
    decreases s.len(),
{
    if s.len() > 0 && is_whitespace(s[0]) {
        trim_start(s.drop_first())
    } else {
        s
    }
}

/// `s` with its trailing whitespace removed.
pub open spec fn trim_end(s: Seq<char>) -> Seq<char>
    decreases s.len(),
{
    if s.len() > 0 && is_whitespace(s.last()) {
        trim_end(s.drop_last())
    } else {
        s
    }
}

/// `s` with whitespace removed at both ends, as `str::trim` does.
pub open spec fn trim(s: Seq<char>) -> Seq<char> {
    trim_end(trim_start(s))
}

/// The pieces of `s` between occurrences of `sep`, as `str::split(sep)`
/// yields them: there is always one piece more than there are separators.
pub open spec fn split_on(s: Seq<char>, sep: char) -> Seq<Seq<char>>
    decreases s.len(),
{
    if s.len() == 0 {
        seq![Seq::<char>::empty()]
    } else {
        let pieces = split_on(s.drop_last(), sep);
        if s.last() == sep {
            pieces.push(Seq::<char>::empty())
        } else {
            pieces.update(pieces.len() - 1, pieces.last().push(s.last()))
        }
    }
}

pub open spec fn is_digit(c: char) -> bool {
    '0' <= c && c <= '9'
}

pub open spec fn all_digits(s: Seq<char>) -> bool {
    forall|i: int| 0 <= i < s.len() ==> is_digit(#[trigger] s[i])
}

pub open spec fn digit_value(c: char) -> nat {
    ((c as u32) - ('0' as u32)) as nat
}

/// The number that a run of decimal digits denotes.
pub open spec fn digits_value(s: Seq<char>) -> nat
    decreases s.len(),
{
    if s.len() == 0 {
        0
    } else {
        digits_value(s.drop_last()) * 10 + digit_value(s.last())
    }
}

/// The digits that `u64::from_str` reads: one leading `+` is dropped when
/// something follows it.
pub open spec fn unsigned_digits(s: Seq<char>) -> Seq<char> {
    if s.len() > 1 && s[0] == '+' {
        s.drop_first()
    } else {
        s
    }
}

/// What `str::parse::<u64>` gives back, `None` standing for its error.
pub open spec fn parse_u64_spec(s: Seq<char>) -> Option<u64> {
    let d = unsigned_digits(s);
    if d.len() > 0 && all_digits(d) && digits_value(d) <= u64::MAX {
        Some(digits_value(d) as u64)
    } else {
        None
    }
}

// ---------------------------------------------------------------------------
// Lemmas
// ---------------------------------------------------------------------------

/// A longer run of digits never denotes a smaller number than its prefix.
pub proof fn lemma_digits_value_monotone(s: Seq<char>, k: int)
    requires
        all_digits(s),
        0 <= k <= s.len(),
    ensures
        digits_value(s.subrange(0, k)) <= digits_value(s),
    decreases s.len(),
{
    if k < s.len() {
        let t = s.drop_last();
        assert(all_digits(t));
        lemma_digits_value_monotone(t, k);
        assert(t.subrange(0, k) =~= s.subrange(0, k));
    } else {
        assert(s.subrange(0, k) =~= s);
    }
}

proof fn lemma_digits_step(s: Seq<char>, a: int, i: int)
    requires
        0 <= a <= i < s.len(),
    ensures
        digits_value(s.subrange(a, i + 1)) == digits_value(s.subrange(a, i)) * 10 + digit_value(s[i]),
{
    assert(s.subrange(a, i + 1).drop_last() =~= s.subrange(a, i));
}

proof fn lemma_trim_start_step(s: Seq<char>, a: int, b: int)
    requires
        0 <= a < b <= s.len(),
        is_whitespace(s[a]),
    ensures
        trim_start(s.subrange(a, b)) == trim_start(s.subrange(a + 1, b)),
{
    assert(s.subrange(a, b).drop_first() =~= s.subrange(a + 1, b));
}

proof fn lemma_trim_end_step(s: Seq<char>, a: int, b: int)
    requires
        0 <= a < b <= s.len(),
        is_whitespace(s[b - 1]),
    ensures
        trim_end(s.subrange(a, b)) == trim_end(s.subrange(a, b - 1)),
{
    assert(s.subrange(a, b).drop_last() =~= s.subrange(a, b - 1));
}

/// A needle whose first character never occurs in `hay` does not occur in it.
pub proof fn lemma_absent_first_char(hay: Seq<char>, needle: Seq<char>)
    requires
        needle.len() > 0,
        forall|i: int| 0 <= i < hay.len() ==> hay[i] != needle[0],
    ensures
        !seq_contains(hay, needle),
{
    if seq_contains(hay, needle) {
        let i = choose|i: int| 0 <= i && i + needle.len() <= hay.len() && #[trigger] hay.subrange(i, i + needle.len()) == needle;
        assert(hay.subrange(i, i + needle.len())[0] == hay[i]);
    }
}

/// A text that contains `outer` contains every piece of it.
pub proof fn lemma_contains_inner(hay: Seq<char>, outer: Seq<char>, inner: Seq<char>, off: int)
    requires
        seq_contains(hay, outer),
        0 <= off && off + inner.len() <= outer.len(),
        outer.subrange(off, off + inner.len()) == inner,
    ensures
        seq_contains(hay, inner),
{
    let i = choose|i: int| 0 <= i && i + outer.len() <= hay.len() && #[trigger] hay.subrange(i, i + outer.len()) == outer;
    assert(hay.subrange(i + off, i + off + inner.len()) =~= outer.subrange(off, off + inner.len()));
}

/// The decimal digit for `d`, below ten.
pub open spec fn digit_char(d: nat) -> char {
    seq!['0', '1', '2', '3', '4', '5', '6', '7', '8', '9'][d as int]
}

/// The decimal notation of `n`, without leading zeros (what `Display` writes
/// for an unsigned integer).
pub open spec fn decimal(n: nat) -> Seq<char>
    decreases n,
{
    if n < 10 {
        seq![digit_char(n)]
    } else {
        decimal(n / 10).push(digit_char(n % 10))
    }
}

proof fn lemma_digit_char(d: nat)
    requires
        d < 10,
    ensures
        is_digit(digit_char(d)),
        digit_value(digit_char(d)) == d,
{
    let t = seq!['0', '1', '2', '3', '4', '5', '6', '7', '8', '9'];
    if d == 0 { assert(t[0] == '0'); } else if d == 1 { assert(t[1] == '1'); }
    else if d == 2 { assert(t[2] == '2'); } else if d == 3 { assert(t[3] == '3'); }
    else if d == 4 { assert(t[4] == '4'); } else if d == 5 { assert(t[5] == '5'); }
    else if d == 6 { assert(t[6] == '6'); } else if d == 7 { assert(t[7] == '7'); }
    else if d == 8 { assert(t[8] == '8'); } else { assert(t[9] == '9'); }
}

/// The decimal notation of `n` is a non-empty run of digits that denotes `n`.
pub proof fn lemma_decimal(n: nat)
    ensures
        decimal(n).len() > 0,
        all_digits(decimal(n)),
        digits_value(decimal(n)) == n,
    decreases n,
{
    let s = decimal(n);
    if n < 10 {
        lemma_digit_char(n);
        assert(s.drop_last() =~= Seq::<char>::empty());
        assert(digits_value(Seq::<char>::empty()) == 0);
        assert(digits_value(s) == digits_value(s.drop_last()) * 10 + digit_value(s.last()));
    } else {
        lemma_decimal(n / 10);
        lemma_digit_char(n % 10);
        assert(s.drop_last() =~= decimal(n / 10));
        assert(digits_value(s) == digits_value(s.drop_last()) * 10 + digit_value(s.last()));
        assert(n == (n / 10) * 10 + n % 10);
        assert forall|i: int| 0 <= i < s.len() implies is_digit(#[trigger] s[i]) by {
            if i < s.len() - 1 {
                assert(s[i] == decimal(n / 10)[i]);
            }
        }
    }
}

proof fn lemma_split_on_len(s: Seq<char>, sep: char)
    ensures
        split_on(s, sep).len() >= 1,
    decreases s.len(),
{
    if s.len() > 0 {
        lemma_split_on_len(s.drop_last(), sep);
    }
}

/// Appending text without a separator extends the last piece.
proof fn lemma_split_on_extend(p: Seq<char>, y: Seq<char>, sep: char)
    requires
        forall|i: int| 0 <= i < y.len() ==> y[i] != sep,
    ensures
        split_on(p + y, sep) == split_on(p, sep).update(split_on(p, sep).len() - 1, split_on(p, sep).last() + y),
    decreases y.len(),
{
    let q = split_on(p, sep);
    lemma_split_on_len(p, sep);
    if y.len() == 0 {
        assert(p + y =~= p);
        assert(q.last() + y =~= q.last());
        assert(q.update(q.len() - 1, q.last() + y) =~= q);
    } else {
        let y0 = y.drop_last();
        lemma_split_on_extend(p, y0, sep);
        assert((p + y).drop_last() =~= p + y0);
        assert((p + y).last() == y.last());
        let pieces = split_on(p + y0, sep);
        assert(pieces.last() == q.last() + y0);
        assert((q.last() + y0).push(y.last()) =~= q.last() + y);
        assert(split_on(p + y, sep) =~= q.update(q.len() - 1, q.last() + y));
    }
}

/// Text without the separator is one piece.
pub proof fn lemma_split_none(s: Seq<char>, sep: char)
    requires
        forall|i: int| 0 <= i < s.len() ==> s[i] != sep,
    ensures
        split_on(s, sep) == seq![s],
{
    let e = Seq::<char>::empty();
    lemma_split_on_extend(e, s, sep);
    assert(e + s =~= s);
    assert(split_on(e, sep) =~= seq![e]);
    assert(split_on(s, sep) =~= seq![s]);
}

/// Text that neither begins nor ends with whitespace is its own trim.
pub proof fn lemma_trim_plain(s: Seq<char>)
    requires
        s.len() > 0,
        !is_whitespace(s[0]),
        !is_whitespace(s.last()),
    ensures
        trim(s) == s,
{
    assert(trim_start(s) == s);
}

/// The decimal notation of an unsigned integer reads back as it.
pub proof fn lemma_parse_decimal(n: u64)
    ensures
        parse_u64_spec(decimal(n as nat)) == Some(n),
        forall|i: int| 0 <= i < decimal(n as nat).len() ==> is_digit(#[trigger] decimal(n as nat)[i]),
{
    let d = decimal(n as nat);
    lemma_decimal(n as nat);
    assert(is_digit(d[0]));
    assert(unsigned_digits(d) == d);
}

/// Two pieces without the separator, joined by it, split back into the two.
pub proof fn lemma_split_pair(a: Seq<char>, b: Seq<char>, sep: char)
    requires
        forall|i: int| 0 <= i < a.len() ==> a[i] != sep,
        forall|i: int| 0 <= i < b.len() ==> b[i] != sep,
    ensures
        split_on(a + seq![sep] + b, sep) == seq![a, b],
{
    let e = Seq::<char>::empty();
    lemma_split_on_extend(e, a, sep);
    assert(e + a =~= a);
    assert(split_on(e, sep) =~= seq![e]);
    assert(e + a =~= a);
    assert(split_on(a, sep) =~= seq![a]);
    let p = a + seq![sep];
    assert(p.drop_last() =~= a);
    assert(split_on(p, sep) =~= seq![a, e]);
    lemma_split_on_extend(p, b, sep);
    assert(e + b =~= b);
    assert(split_on(p + b, sep) =~= seq![a, b]);
}

// ---------------------------------------------------------------------------
// Executable helpers
// ---------------------------------------------------------------------------

/// The characters of `s`, in order.
pub fn chars_of(s: &str) -> (v: Vec<char>)
    ensures
        v@ == s@,
{
    let mut v: Vec<char> = Vec::new();
    for c in it: s.chars()
        invariant
            v@ == it.seq().take(it.index() as int),
    {
        v.push(c);
    }
    v
}


/// Whether `needle` occurs in `hay[start..end]`.
pub fn contains_in(hay: &Vec<char>, start: usize, end: usize, needle: &Vec<char>) -> (r: bool)
    requires
        start <= end <= hay.len(),
    ensures
        r == seq_contains(hay@.subrange(start as int, end as int), needle@),
{
    let ghost h = hay@.subrange(start as int, end as int);
    let n = needle.len();
    if n > end - start {
        proof {
            if seq_contains(h, needle@) {
                let i = choose|i: int| 0 <= i && i + needle@.len() <= h.len() && #[trigger] h.subrange(i, i + needle@.len()) == needle@;
            }
        }
        return false;
    }
    let last = end - n;
    let mut i = start;
    while i <= last
        invariant
            start <= i <= last + 1,
            last + n == end,
            end <= hay.len(),
            n == needle@.len(),
            h == hay@.subrange(start as int, end as int),
            forall|k: int| 0 <= k < i - start ==> #[trigger] h.subrange(k, k + n) != needle@,
        decreases last + 1 - i,
    {
        let mut j: usize = 0;
        let mut same = true;
        while j < n
            invariant
                j <= n,
                i + n <= end,
                end <= hay.len(),
                n == needle@.len(),
                same == (forall|m: int| 0 <= m < j ==> hay@[i + m] == needle@[m]),
            decreases n - j,
        {
            if hay[i + j] != needle[j] {
                same = false;
            }
            j = j + 1;
        }
        proof {
            let k = i - start;
            assert(h.subrange(k, k + n) =~= hay@.subrange(i as int, i + n));
            if same {
                assert(hay@.subrange(i as int, i + n) =~= needle@);
            } else {
                let m = choose|m: int| 0 <= m < n && hay@[i + m] != needle@[m];
                assert(hay@.subrange(i as int, i + n)[m] == hay@[i + m]);
            }
        }
        if same {
            return true;
        }
        i = i + 1;
    }
    proof {
        if seq_contains(h, needle@) {
            let k = choose|k: int| 0 <= k && k + needle@.len() <= h.len() && #[trigger] h.subrange(k, k + needle@.len()) == needle@;
            assert(h.subrange(k, k + n) != needle@);
        }
    }
    false
}

/// Whether `needle` occurs in `hay`.
pub fn contains(hay: &Vec<char>, needle: &Vec<char>) -> (r: bool)
    ensures
        r == seq_contains(hay@, needle@),
{
    assert(hay@.subrange(0, hay@.len() as int) =~= hay@);
    contains_in(hay, 0, hay.len(), needle)
}

/// Whether `hay[start..end]` begins with `prefix`.
pub fn starts_with_in(hay: &Vec<char>, start: usize, end: usize, prefix: &Vec<char>) -> (r: bool)
    requires
        start <= end <= hay.len(),
    ensures
        r == starts_with(hay@.subrange(start as int, end as int), prefix@),
{
    let n = prefix.len();
    if n > end - start {
        return false;
    }
    let mut j: usize = 0;
    while j < n
        invariant
            j <= n,
            start + n <= end,
            end <= hay.len(),
            n == prefix@.len(),
            forall|m: int| 0 <= m < j ==> hay@[start + m] == prefix@[m],
        decreases n - j,
    {
        if hay[start + j] != prefix[j] {
            proof {
                let h = hay@.subrange(start as int, end as int);
                assert(h.subrange(0, n as int)[j as int] == hay@[start + j]);
            }
            return false;
        }
        j = j + 1;
    }
    assert(hay@.subrange(start as int, end as int).subrange(0, n as int) =~= prefix@);
    true
}

/// Whether `c` is whitespace in the sense of `char::is_whitespace`.
pub fn char_is_whitespace(c: char) -> (r: bool)
    ensures
        r == is_whitespace(c),
{
    let u = c as u32;
    (0x09 <= u && u <= 0x0d) || u == 0x20 || u == 0x85 || u == 0xa0 || u == 0x1680
        || (0x2000 <= u && u <= 0x200a) || u == 0x2028 || u == 0x2029 || u == 0x202f
        || u == 0x205f || u == 0x3000
}

/// The bounds of `hay[start..end]` once trimmed at both ends.
pub fn trim_range(hay: &Vec<char>, start: usize, end: usize) -> (r: (usize, usize))
    requires
        start <= end <= hay.len(),
    ensures
        start <= r.0 <= r.1 <= end,
        hay@.subrange(r.0 as int, r.1 as int) == trim(hay@.subrange(start as int, end as int)),
{
    let mut a = start;
    while a < end && char_is_whitespace(hay[a])
        invariant
            start <= a <= end,
            end <= hay.len(),
            trim_start(hay@.subrange(a as int, end as int)) == trim_start(hay@.subrange(start as int, end as int)),
        decreases end - a,
    {
        proof {
            lemma_trim_start_step(hay@, a as int, end as int);
        }
        a = a + 1;
    }
    proof {
        let t = hay@.subrange(a as int, end as int);
        if t.len() > 0 {
            assert(t[0] == hay@[a as int]);
        }
        assert(trim_start(t) == t);
    }
    let mut b = end;
    while b > a && char_is_whitespace(hay[b - 1])
        invariant
            start <= a <= b <= end,
            end <= hay.len(),
            trim_end(hay@.subrange(a as int, b as int)) == trim_end(hay@.subrange(a as int, end as int)),
        decreases b - a,
    {
        proof {
            lemma_trim_end_step(hay@, a as int, b as int);
        }
        b = b - 1;
    }
    proof {
        let t = hay@.subrange(a as int, b as int);
        if t.len() > 0 {
            assert(t.last() == hay@[b - 1]);
        }
        assert(trim_end(t) == t);
    }
    (a, b)
}

/// `str::parse::<u64>` on `hay[start..end]`, `None` standing for the error.
pub fn parse_u64_in(hay: &Vec<char>, start: usize, end: usize) -> (r: Option<u64>)
    requires
        start <= end <= hay.len(),
    ensures
        r == parse_u64_spec(hay@.subrange(start as int, end as int)),
{
    let ghost s = hay@.subrange(start as int, end as int);
    let mut i = start;
    if end - start > 1 && hay[start] == '+' {
        i = start + 1;
        assert(s.drop_first() =~= hay@.subrange(i as int, end as int));
    } else {
        assert(s =~= hay@.subrange(i as int, end as int));
    }
    let d0 = i;
    let ghost d = hay@.subrange(d0 as int, end as int);
    assert(unsigned_digits(s) == d);
    if d0 == end {
        return None;
    }
    let mut acc: u64 = 0;
    while i < end
        invariant
            d0 <= i <= end,
            end <= hay.len(),
            d == hay@.subrange(d0 as int, end as int),
            s == hay@.subrange(start as int, end as int),
            unsigned_digits(s) == d,
            d0 < end,
            acc == digits_value(hay@.subrange(d0 as int, i as int)),
            all_digits(hay@.subrange(d0 as int, i as int)),
        decreases end - i,
    {
        let c = hay[i];
        if !('0' <= c && c <= '9') {
            assert(d[i - d0] == c);
            return None;
        }
        let dv = ((c as u32) - ('0' as u32)) as u64;
        proof {
            lemma_digits_step(hay@, d0 as int, i as int);
            assert forall|m: int| 0 <= m < i + 1 - d0 implies is_digit(#[trigger] hay@.subrange(d0 as int, i + 1)[m]) by {
                if m < i - d0 {
                    assert(hay@.subrange(d0 as int, i + 1)[m] == hay@.subrange(d0 as int, i as int)[m]);
                }
            }
        }
        let next = match acc.checked_mul(10) {
            Some(m) => m.checked_add(dv),
            None => None,
        };
        match next {
            Some(n) => {
                acc = n;
            },
            None => {
                proof {
                    if all_digits(d) {
                        lemma_digits_value_monotone(d, i + 1 - d0);
                        assert(d.subrange(0, i + 1 - d0) =~= hay@.subrange(d0 as int, i + 1));
                    }
                }
                return None;
            },
        }
        i = i + 1;
    }
    Some(acc)
}

/// The bounds, within `hay[start..end]`, of the pieces that splitting it at
/// every `sep` gives.
pub fn split_ranges(hay: &Vec<char>, start: usize, end: usize, sep: char) -> (r: Vec<(usize, usize)>)
    requires
        start <= end <= hay.len(),
    ensures
        r.len() == split_on(hay@.subrange(start as int, end as int), sep).len(),
        forall|k: int| 0 <= k < r.len() ==> start <= (#[trigger] r[k]).0 <= r[k].1 <= end,
        forall|k: int| 0 <= k < r.len() ==> hay@.subrange((#[trigger] r[k]).0 as int, r[k].1 as int)
            == split_on(hay@.subrange(start as int, end as int), sep)[k],
{
    let mut done: Vec<(usize, usize)> = Vec::new();
    let mut cur = start;
    let mut i = start;
    assert(hay@.subrange(start as int, start as int) =~= Seq::<char>::empty());
    while i < end
        invariant
            start <= cur <= i <= end,
            end <= hay.len(),
            ({
                let p = split_on(hay@.subrange(start as int, i as int), sep);
                &&& p.len() == done.len() + 1
                &&& forall|k: int| 0 <= k < done.len() ==> start <= (#[trigger] done[k]).0 <= done[k].1 <= i
                &&& forall|k: int| 0 <= k < done.len() ==> hay@.subrange((#[trigger] done[k]).0 as int, done[k].1 as int) == p[k]
                &&& hay@.subrange(cur as int, i as int) == p.last()
            }),
        decreases end - i,
    {
        let ghost prev = split_on(hay@.subrange(start as int, i as int), sep);
        proof {
            assert(hay@.subrange(start as int, i + 1).drop_last() =~= hay@.subrange(start as int, i as int));
            assert(hay@.subrange(start as int, i + 1).last() == hay@[i as int]);
        }
        if hay[i] == sep {
            done.push((cur, i));
            cur = i + 1;
            assert(hay@.subrange(cur as int, i + 1) =~= Seq::<char>::empty());
        } else {
            assert(hay@.subrange(cur as int, i + 1) =~= hay@.subrange(cur as int, i as int).push(hay@[i as int]));
        }
        i = i + 1;
    }
    done.push((cur, end));
    done
}

/// Whether two strings hold the same text.
pub fn same_text(a: &str, b: &str) -> (r: bool)
    ensures
        r == (a@ == b@),
{
    let x = chars_of(a);
    let y = chars_of(b);
    if x.len() != y.len() {
        return false;
    }
    let mut i: usize = 0;
    while i < x.len()
        invariant
            i <= x.len(),
            x.len() == y.len(),
            x@ == a@,
            y@ == b@,
            forall|k: int| 0 <= k < i ==> x@[k] == y@[k],
        decreases x.len() - i,
    {
        if x[i] != y[i] {
            return false;
        }
        i = i + 1;
    }
    assert(x@ =~= y@);
    true
}

} // verus!
