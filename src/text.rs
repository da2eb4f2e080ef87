//! Character-level helpers for the script grammar: splitting on a separator,
//! re-joining, prefix and substring tests, and decimal integer fields.
use vstd::prelude::*;
use vstd::string::*;

verus! {

/// The pieces of `s` between occurrences of `sep`, as `str::split` yields them
/// for a one-character pattern: always at least one piece, possibly empty.
pub open spec fn split_on(s: Seq<char>, sep: char) -> Seq<Seq<char>>
    decreases s.len(),
{
    if s.len() == 0 {
        seq![Seq::<char>::empty()]
    } else {
        let front = split_on(s.drop_last(), sep);
        if s.last() == sep {
            front.push(Seq::<char>::empty())
        } else {
            front.update(front.len() - 1, front.last().push(s.last()))
        }
    }
}

/// The pieces of `parts` with one `sep` between each two neighbours.
pub open spec fn join(parts: Seq<Seq<char>>, sep: char) -> Seq<char>
    decreases parts.len(),
{
    if parts.len() == 0 {
        Seq::<char>::empty()
    } else if parts.len() == 1 {
        parts[0]
    } else {
        join(parts.drop_last(), sep).push(sep) + parts.last()
    }
}

/// The characters of `s`, in order.
pub fn chars_of(s: &str) -> (r: Vec<char>)
    ensures
        r@ == s@,
{
    let n = s.unicode_len();
    let mut v: Vec<char> = Vec::new();
    let mut i: usize = 0;
    while i < n
        invariant
            n == s@.len(),
            i <= n,
            v@ == s@.take(i as int),
        decreases n - i,
    {
        v.push(s.get_char(i));
        i += 1;
    }
    assert(v@ =~= s@);
    v
}


pub proof fn lemma_split_nonempty(s: Seq<char>, sep: char)
    ensures
        split_on(s, sep).len() >= 1,
    decreases s.len(),
{
    if s.len() > 0 {
        lemma_split_nonempty(s.drop_last(), sep);
    }
}

/// Without a separator in it, `s` is one piece.
pub proof fn lemma_split_single(s: Seq<char>, sep: char)
    requires
        !s.contains(sep),
    ensures
        split_on(s, sep) == seq![s],
    decreases s.len(),
{
    if s.len() > 0 {
        let f = s.drop_last();
        assert(!f.contains(sep)) by {
            if f.contains(sep) {
                let k = choose|k: int| 0 <= k < f.len() && f[k] == sep;
                assert(s[k] == sep);
            }
        }
        lemma_split_single(f, sep);
        assert(s.last() != sep) by {
            assert(s[s.len() - 1] == s.last());
        }
        assert(f.push(s.last()) =~= s);
        assert(seq![f].update(0, f.push(s.last())) =~= seq![s]);
    } else {
        assert(s =~= Seq::<char>::empty());
    }
}

/// A separator between `a` and `b` ends the pieces of `a` and starts those of `b`.
pub proof fn lemma_split_concat(a: Seq<char>, b: Seq<char>, sep: char)
    ensures
        split_on(a + seq![sep] + b, sep) == split_on(a, sep) + split_on(b, sep),
    decreases b.len(),
{
    let s = a + seq![sep] + b;
    if b.len() == 0 {
        assert(s.drop_last() =~= a);
        assert(s.last() == sep);
        assert(split_on(a, sep).push(Seq::<char>::empty()) =~= split_on(a, sep) + split_on(b, sep));
    } else {
        let b1 = b.drop_last();
        lemma_split_concat(a, b1, sep);
        lemma_split_nonempty(b1, sep);
        assert(s.drop_last() =~= a + seq![sep] + b1);
        assert(s.last() == b.last());
        let fa = split_on(a, sep);
        let fb = split_on(b1, sep);
        if b.last() == sep {
            assert((fa + fb).push(Seq::<char>::empty()) =~= fa + fb.push(Seq::<char>::empty()));
        } else {
            let front = fa + fb;
            assert(front.last() == fb.last());
            assert(front.update(front.len() - 1, front.last().push(b.last())) =~= fa + fb.update(
                fb.len() - 1,
                fb.last().push(b.last()),
            ));
        }
    }
}

/// Re-joining the pieces of `s` with the separator gives `s` back.
pub proof fn lemma_join_split(s: Seq<char>, sep: char)
    ensures
        join(split_on(s, sep), sep) == s,
    decreases s.len(),
{
    if s.len() == 0 {
        assert(s =~= Seq::<char>::empty());
    } else {
        let f = s.drop_last();
        let front = split_on(f, sep);
        lemma_join_split(f, sep);
        lemma_split_nonempty(f, sep);
        assert(f.push(s.last()) =~= s);
        if s.last() == sep {
            let parts = front.push(Seq::<char>::empty());
            assert(parts.drop_last() =~= front);
            assert(join(front, sep).push(sep) + Seq::<char>::empty() =~= s);
        } else {
            let parts = front.update(front.len() - 1, front.last().push(s.last()));
            if front.len() == 1 {
                assert(parts[0] == front[0].push(s.last()));
            } else {
                assert(parts.drop_last() =~= front.drop_last());
                assert(join(front.drop_last(), sep).push(sep) + front.last().push(s.last()) =~= (
                join(front.drop_last(), sep).push(sep) + front.last()).push(s.last()));
            }
        }
    }
}

/// Pieces that hold no separator come back out of their join unchanged.
pub proof fn lemma_split_join(parts: Seq<Seq<char>>, sep: char)
    requires
        parts.len() >= 1,
        forall|i: int| 0 <= i < parts.len() ==> !(#[trigger] parts[i]).contains(sep),
    ensures
        split_on(join(parts, sep), sep) == parts,
    decreases parts.len(),
{
    if parts.len() == 1 {
        lemma_split_single(parts[0], sep);
        assert(seq![parts[0]] =~= parts);
    } else {
        let front = parts.drop_last();
        lemma_split_join(front, sep);
        lemma_split_concat(join(front, sep), parts.last(), sep);
        assert(join(front, sep).push(sep) + parts.last() =~= join(front, sep) + seq![sep]
            + parts.last());
        lemma_split_single(parts.last(), sep);
        assert(front + seq![parts.last()] =~= parts);
    }
}

/// Where each piece of `split_on(chars@.subrange(start, len), sep)` stands in
/// `chars`: one `(begin, end)` pair per piece, in order.
pub fn split_ranges(chars: &Vec<char>, start: usize, sep: char) -> (r: Vec<(usize, usize)>)
    requires
        start <= chars@.len(),
    ensures
        r@.len() == split_on(chars@.subrange(start as int, chars@.len() as int), sep).len(),
        forall|k: int|
            0 <= k < r@.len() ==> {
                &&& start <= (#[trigger] r@[k]).0 <= r@[k].1 <= chars@.len()
                &&& chars@.subrange(r@[k].0 as int, r@[k].1 as int) == split_on(
                    chars@.subrange(start as int, chars@.len() as int),
                    sep,
                )[k]
            },
{
    let n = chars.len();
    let mut ranges: Vec<(usize, usize)> = Vec::new();
    let mut cur: usize = start;
    let mut i: usize = start;
    assert(chars@.subrange(start as int, start as int) =~= Seq::<char>::empty());
    assert(chars@.subrange(cur as int, i as int) =~= Seq::<char>::empty());
    while i < n
        invariant
            n == chars@.len(),
            start <= cur <= i <= n,
            ranges@.len() + 1 == split_on(chars@.subrange(start as int, i as int), sep).len(),
            forall|k: int|
                0 <= k < ranges@.len() ==> {
                    &&& start <= (#[trigger] ranges@[k]).0 <= ranges@[k].1 <= i
                    &&& chars@.subrange(ranges@[k].0 as int, ranges@[k].1 as int) == split_on(
                        chars@.subrange(start as int, i as int),
                        sep,
                    )[k]
                },
            chars@.subrange(cur as int, i as int) == split_on(
                chars@.subrange(start as int, i as int),
                sep,
            ).last(),
        decreases n - i,
    {
        let ghost before = split_on(chars@.subrange(start as int, i as int), sep);
        assert(chars@.subrange(start as int, i + 1).drop_last() =~= chars@.subrange(
            start as int,
            i as int,
        ));
        if chars[i] == sep {
            ranges.push((cur, i));
            cur = i + 1;
            assert(chars@.subrange(cur as int, i + 1) =~= Seq::<char>::empty());
        } else {
            assert(chars@.subrange(cur as int, i + 1) =~= chars@.subrange(
                cur as int,
                i as int,
            ).push(chars@[i as int]));
        }
        i += 1;
    }
    ranges.push((cur, n));
    ranges
}

/// Whether `chars[a..b]` is exactly `word`.
pub fn token_is(chars: &Vec<char>, a: usize, b: usize, word: &str) -> (r: bool)
    requires
        a <= b <= chars@.len(),
    ensures
        r == (chars@.subrange(a as int, b as int) == word@),
{
    let n = word.unicode_len();
    if b - a != n {
        return false;
    }
    let mut j: usize = 0;
    while j < n
        invariant
            n == word@.len(),
            a + n == b <= chars@.len(),
            j <= n,
            forall|k: int| 0 <= k < j ==> chars@[a + k] == word@[k],
        decreases n - j,
    {
        if chars[a + j] != word.get_char(j) {
            assert(chars@.subrange(a as int, b as int)[j as int] != word@[j as int]);
            return false;
        }
        j += 1;
    }
    assert(chars@.subrange(a as int, b as int) =~= word@);
    true
}

/// Whether `p` stands in `s` at position `i`.
pub open spec fn occurs_at(s: Seq<char>, p: Seq<char>, i: int) -> bool {
    0 <= i && i + p.len() <= s.len() && s.subrange(i, i + p.len()) == p
}

/// Whether `p` stands anywhere in `s`.
pub open spec fn occurs_in(s: Seq<char>, p: Seq<char>) -> bool {
    exists|i: int| occurs_at(s, p, i)
}

/// Whether `chars` holds `p` at position `at`.
pub fn chars_occur_at(chars: &Vec<char>, p: &Vec<char>, at: usize) -> (r: bool)
    ensures
        r == occurs_at(chars@, p@, at as int),
{
    let n = chars.len();
    if at > n || p.len() > n - at {
        return false;
    }
    let mut j: usize = 0;
    while j < p.len()
        invariant
            n == chars@.len(),
            at + p@.len() <= chars@.len(),
            j <= p@.len(),
            forall|k: int| 0 <= k < j ==> chars@[at + k] == p@[k],
        decreases p@.len() - j,
    {
        if chars[at + j] != p[j] {
            assert(chars@.subrange(at as int, at + p@.len())[j as int] != p@[j as int]);
            return false;
        }
        j += 1;
    }
    assert(chars@.subrange(at as int, at + p@.len()) =~= p@);
    true
}

/// Whether `p` stands anywhere in `chars` at or after position `from`.
pub fn chars_occur_from(chars: &Vec<char>, p: &Vec<char>, from: usize) -> (r: bool)
    requires
        from <= chars@.len(),
    ensures
        r == occurs_in(chars@.subrange(from as int, chars@.len() as int), p@),
{
    let ghost rest = chars@.subrange(from as int, chars@.len() as int);
    if p.len() == 0 {
        assert(rest.subrange(0, 0) =~= p@);
        assert(occurs_at(rest, p@, 0));
        return true;
    }
    let n = chars.len();
    let mut i: usize = from;
    while i < n
        invariant
            n == chars@.len(),
            from <= i <= n,
            p@.len() > 0,
            rest == chars@.subrange(from as int, chars@.len() as int),
            forall|k: int| 0 <= k < i - from ==> !occurs_at(rest, p@, k),
        decreases n - i,
    {
        if chars_occur_at(chars, p, i) {
            assert(rest.subrange(i - from, i - from + p@.len()) =~= chars@.subrange(
                i as int,
                i + p@.len(),
            ));
            assert(occurs_at(rest, p@, i - from));
            return true;
        }
        proof {
            if occurs_at(rest, p@, i - from) {
                assert(rest.subrange(i - from, i - from + p@.len()) =~= chars@.subrange(
                    i as int,
                    i + p@.len(),
                ));
            }
        }
        i += 1;
    }
    assert forall|k: int| !occurs_at(rest, p@, k) by {
        if 0 <= k && k >= i - from {
            assert(k + p@.len() > rest.len());
        }
    }
    false
}


pub open spec fn is_digit(c: char) -> bool {
    48 <= (c as u32) <= 57
}

pub open spec fn digit_value(c: char) -> int {
    (c as u32) - 48
}

pub open spec fn all_digits(s: Seq<char>) -> bool {
    forall|i: int| 0 <= i < s.len() ==> is_digit(#[trigger] s[i])
}

/// The number that the decimal digits `s` write, most significant first.
pub open spec fn digits_value(s: Seq<char>) -> int
    decreases s.len(),
{
    if s.len() == 0 {
        0
    } else {
        digits_value(s.drop_last()) * 10 + digit_value(s.last())
    }
}

/// `s` without one leading character `c`, if it starts with one.
pub open spec fn strip_sign(s: Seq<char>, c: char) -> Seq<char> {
    if s.len() > 0 && s[0] == c {
        s.drop_first()
    } else {
        s
    }
}

/// An unsigned decimal field: an optional `+`, then one or more digits whose
/// value is at most `max`.
pub open spec fn unsigned_field(s: Seq<char>, max: int) -> Option<int> {
    let d = strip_sign(s, '+');
    if d.len() > 0 && all_digits(d) && digits_value(d) <= max {
        Some(digits_value(d))
    } else {
        None
    }
}

/// A signed decimal field: an optional `+` or `-`, then one or more digits,
/// whose value lies in `min ..= max`.
pub open spec fn signed_field(s: Seq<char>, min: int, max: int) -> Option<int> {
    let negative = s.len() > 0 && s[0] == '-';
    let d = if negative {
        s.drop_first()
    } else {
        strip_sign(s, '+')
    };
    let v = if negative {
        -digits_value(d)
    } else {
        digits_value(d)
    };
    if d.len() > 0 && all_digits(d) && min <= v <= max {
        Some(v)
    } else {
        None
    }
}

pub open spec fn u64_field(s: Seq<char>) -> Option<u64> {
    match unsigned_field(s, u64::MAX as int) {
        Some(v) => Some(v as u64),
        None => None,
    }
}

pub open spec fn u32_field(s: Seq<char>) -> Option<u32> {
    match unsigned_field(s, u32::MAX as int) {
        Some(v) => Some(v as u32),
        None => None,
    }
}

pub open spec fn i32_field(s: Seq<char>) -> Option<i32> {
    match signed_field(s, i32::MIN as int, i32::MAX as int) {
        Some(v) => Some(v as i32),
        None => None,
    }
}

pub proof fn lemma_digits_value_nonneg(s: Seq<char>)
    requires
        all_digits(s),
    ensures
        digits_value(s) >= 0,
    decreases s.len(),
{
    if s.len() > 0 {
        lemma_digits_value_nonneg(s.drop_last());
    }
}

/// Over digits, a longer prefix never writes a smaller number.
pub proof fn lemma_digits_value_prefix(s: Seq<char>, j: int)
    requires
        all_digits(s),
        0 <= j <= s.len(),
    ensures
        digits_value(s.take(j)) <= digits_value(s),
    decreases s.len() - j,
{
    if j < s.len() {
        lemma_digits_value_prefix(s, j + 1);
        let t = s.take(j + 1);
        assert(t.drop_last() =~= s.take(j));
        lemma_digits_value_nonneg(s.take(j));
    } else {
        assert(s.take(j) =~= s);
    }
}

/// The value of the digits `chars[a..b]`, where they are one or more digits
/// whose value fits in a `u64`.
pub fn digits_at(chars: &Vec<char>, a: usize, b: usize) -> (r: Option<u64>)
    requires
        a <= b <= chars@.len(),
    ensures
        ({
            let d = chars@.subrange(a as int, b as int);
            r == if d.len() > 0 && all_digits(d) && digits_value(d) <= u64::MAX {
                Some(digits_value(d) as u64)
            } else {
                None
            }
        }),
        r matches Some(v) ==> v == digits_value(chars@.subrange(a as int, b as int)),
{
    let ghost d = chars@.subrange(a as int, b as int);
    if a == b {
        return None;
    }
    let mut acc: u64 = 0;
    let mut i: usize = a;
    assert(d.take(0) =~= Seq::<char>::empty());
    while i < b
        invariant
            a <= i <= b <= chars@.len(),
            d == chars@.subrange(a as int, b as int),
            all_digits(d.take(i - a)),
            acc == digits_value(d.take(i - a)),
        decreases b - i,
    {
        let c = chars[i];
        let cv = c as u32;
        if cv < 48 || cv > 57 {
            assert(d[i - a] == c);
            return None;
        }
        let dv = (cv - 48) as u64;
        assert(d.take(i - a + 1).drop_last() =~= d.take(i - a));
        assert(d.take(i - a + 1).last() == c);
        if acc > (u64::MAX - dv) / 10 {
            proof {
                if all_digits(d) {
                    lemma_digits_value_prefix(d, i - a + 1);
                }
            }
            return None;
        }
        acc = acc * 10 + dv;
        i += 1;
        assert(all_digits(d.take(i - a))) by {
            assert forall|k: int| 0 <= k < i - a implies is_digit(#[trigger] d.take(i - a)[k]) by {
                if k < i - a - 1 {
                    assert(d.take(i - a)[k] == d.take(i - a - 1)[k]);
                }
            }
        }
    }
    assert(d.take(i - a) =~= d);
    proof {
        lemma_digits_value_nonneg(d);
    }
    Some(acc)
}


/// Where the digits of a field `chars[a..b]` begin, past one leading `sign`.
pub fn skip_sign(chars: &Vec<char>, a: usize, b: usize, sign: char) -> (r: usize)
    requires
        a <= b <= chars@.len(),
    ensures
        a <= r <= b,
        chars@.subrange(r as int, b as int) == strip_sign(chars@.subrange(a as int, b as int), sign),
{
    if a < b && chars[a] == sign {
        assert(chars@.subrange(a + 1, b as int) =~= chars@.subrange(a as int, b as int).drop_first());
        a + 1
    } else {
        a
    }
}

/// Reads `chars[a..b]` as a `u64` field.
pub fn u64_at(chars: &Vec<char>, a: usize, b: usize) -> (r: Option<u64>)
    requires
        a <= b <= chars@.len(),
    ensures
        r == u64_field(chars@.subrange(a as int, b as int)),
{
    let start = skip_sign(chars, a, b, '+');
    digits_at(chars, start, b)
}

/// Reads `chars[a..b]` as a `u32` field.
pub fn u32_at(chars: &Vec<char>, a: usize, b: usize) -> (r: Option<u32>)
    requires
        a <= b <= chars@.len(),
    ensures
        r == u32_field(chars@.subrange(a as int, b as int)),
{
    let start = skip_sign(chars, a, b, '+');
    let ghost d = chars@.subrange(start as int, b as int);
    match digits_at(chars, start, b) {
        Some(v) => {
            assert(v == digits_value(d));
            if v <= u32::MAX as u64 {
                Some(v as u32)
            } else {
                None
            }
        },
        None => None,
    }
}

/// Reads `chars[a..b]` as an `i32` field.
pub fn i32_at(chars: &Vec<char>, a: usize, b: usize) -> (r: Option<i32>)
    requires
        a <= b <= chars@.len(),
    ensures
        r == i32_field(chars@.subrange(a as int, b as int)),
{
    let ghost s = chars@.subrange(a as int, b as int);
    if a < b && chars[a] == '-' {
        assert(chars@.subrange(a + 1, b as int) =~= s.drop_first());
        match digits_at(chars, a + 1, b) {
            Some(v) => {
                assert(v == digits_value(s.drop_first()));
                if v <= 2147483648u64 {
                    assert(-digits_value(s.drop_first()) >= i32::MIN);
                    Some((0i64 - v as i64) as i32)
                } else {
                    None
                }
            },
            None => None,
        }
    } else {
        let start = skip_sign(chars, a, b, '+');
        let ghost d = chars@.subrange(start as int, b as int);
        assert(!(s.len() > 0 && s[0] == '-'));
        match digits_at(chars, start, b) {
            Some(v) => {
                assert(v == digits_value(d));
                if v <= i32::MAX as u64 {
                    Some(v as i32)
                } else {
                    None
                }
            },
            None => None,
        }
    }
}

} // verus!
