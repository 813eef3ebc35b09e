//! Character-level helpers for the configuration text: whitespace, trimming,
//! splitting on a separator, joining and removing repeated parts.

use vstd::prelude::*;

verus! {

/// The characters that `char::is_whitespace` accepts (Unicode `White_Space`).
pub open spec fn is_space(c: char) -> bool {
    let v = c as u32;
    ||| 0x09 <= v <= 0x0d
    ||| v == 0x20
    ||| v == 0x85
    ||| v == 0xa0
    ||| v == 0x1680
    ||| 0x2000 <= v <= 0x200a
    ||| v == 0x2028
    ||| v == 0x2029
    ||| v == 0x202f
    ||| v == 0x205f
    ||| v == 0x3000
}

pub fn is_space_char(c: char) -> (r: bool)
    ensures
        r == is_space(c),
{
    let v = c as u32;
    (0x09 <= v && v <= 0x0d) || v == 0x20 || v == 0x85 || v == 0xa0 || v == 0x1680 || (0x2000
        <= v && v <= 0x200a) || v == 0x2028 || v == 0x2029 || v == 0x202f || v == 0x205f || v
        == 0x3000
}

/// Drops leading whitespace.
pub open spec fn trim_start(s: Seq<char>) -> Seq<char>
    decreases s.len(),
{
    if s.len() > 0 && is_space(s[0]) {
        trim_start(s.drop_first())
    } else {
        s
    }
}

/// Drops trailing whitespace.
pub open spec fn trim_end(s: Seq<char>) -> Seq<char>
    decreases s.len(),
{
    if s.len() > 0 && is_space(s.last()) {
        trim_end(s.drop_last())
    } else {
        s
    }
}

/// What `str::trim` gives back.
pub open spec fn trim(s: Seq<char>) -> Seq<char> {
    trim_end(trim_start(s))
}

/// The pieces that `str::split` with a single separator character yields:
/// always at least one, and an empty piece around each separator at an end.
pub open spec fn split(s: Seq<char>, sep: char) -> Seq<Seq<char>>
    decreases s.len(),
{
    if s.len() == 0 {
        seq![Seq::<char>::empty()]
    } else {
        let r = split(s.drop_last(), sep);
        if s.last() == sep {
            r.push(Seq::<char>::empty())
        } else {
            r.update(r.len() - 1, r.last().push(s.last()))
        }
    }
}

/// The parts concatenated with `sep` between neighbours.
pub open spec fn join(parts: Seq<Seq<char>>, sep: Seq<char>) -> Seq<char>
    decreases parts.len(),
{
    if parts.len() == 0 {
        Seq::<char>::empty()
    } else if parts.len() == 1 {
        parts[0]
    } else {
        join(parts.drop_last(), sep) + sep + parts.last()
    }
}

/// The parts in order of first occurrence, each kept once.
pub open spec fn dedup(parts: Seq<Seq<char>>) -> Seq<Seq<char>>
    decreases parts.len(),
{
    if parts.len() == 0 {
        Seq::<Seq<char>>::empty()
    } else {
        let d = dedup(parts.drop_last());
        if d.contains(parts.last()) {
            d
        } else {
            d.push(parts.last())
        }
    }
}

pub open spec fn all_distinct(parts: Seq<Seq<char>>) -> bool {
    forall|i: int, j: int| 0 <= i < j < parts.len() ==> parts[i] != parts[j]
}

pub proof fn lemma_split_len(s: Seq<char>, sep: char)
    ensures
        split(s, sep).len() >= 1,
    decreases s.len(),
{
    if s.len() > 0 {
        lemma_split_len(s.drop_last(), sep);
    }
}

/// Appending text that holds no separator extends the last piece.
pub proof fn lemma_split_append_plain(a: Seq<char>, b: Seq<char>, sep: char)
    requires
        !b.contains(sep),
    ensures
        split(a + b, sep) == split(a, sep).update(
            split(a, sep).len() - 1,
            split(a, sep).last() + b,
        ),
    decreases b.len(),
{
    lemma_split_len(a, sep);
    if b.len() == 0 {
        assert(a + b =~= a);
        assert(split(a, sep).last() + b =~= split(a, sep).last());
        assert(split(a, sep).update(split(a, sep).len() - 1, split(a, sep).last())
            =~= split(a, sep));
    } else {
        let b0 = b.drop_last();
        assert(!b0.contains(sep)) by {
            assert forall|i: int| 0 <= i < b0.len() implies b0[i] != sep by {
                assert(b0[i] == b[i]);
            }
        }
        lemma_split_append_plain(a, b0, sep);
        assert((a + b).drop_last() =~= a + b0);
        assert((a + b).last() == b.last());
        assert(b.last() != sep) by {
            assert(b[b.len() - 1] == b.last());
        }
        lemma_split_len(a + b0, sep);
        let r = split(a, sep);
        assert((r.last() + b0).push(b.last()) =~= r.last() + b);
        assert(split(a + b, sep) =~= r.update(r.len() - 1, r.last() + b));
    }
}

/// Splitting joined parts gives the parts back when no part holds the separator.
pub proof fn lemma_split_join(parts: Seq<Seq<char>>, sep: char)
    requires
        parts.len() >= 1,
        forall|i: int| 0 <= i < parts.len() ==> !(#[trigger] parts[i]).contains(sep),
    ensures
        split(join(parts, seq![sep]), sep) == parts,
    decreases parts.len(),
{
    if parts.len() == 1 {
        let p = parts[0];
        lemma_split_append_plain(Seq::<char>::empty(), p, sep);
        assert(Seq::<char>::empty() + p =~= p);
        assert(split(Seq::<char>::empty(), sep) =~= seq![Seq::<char>::empty()]);
        assert(Seq::<char>::empty() + p =~= p);
        assert(split(p, sep) =~= parts);
    } else {
        let init = parts.drop_last();
        assert forall|i: int| 0 <= i < init.len() implies !(#[trigger] init[i]).contains(sep) by {
            assert(init[i] == parts[i]);
        }
        lemma_split_join(init, sep);
        let a = join(init, seq![sep]);
        let last = parts.last();
        assert(!last.contains(sep)) by {
            assert(parts[parts.len() - 1] == last);
        }
        let a2 = a + seq![sep];
        assert(a2.drop_last() =~= a);
        assert(split(a2, sep) =~= init.push(Seq::<char>::empty()));
        lemma_split_append_plain(a2, last, sep);
        assert(join(parts, seq![sep]) == a2 + last);
        assert(Seq::<char>::empty() + last =~= last);
        assert(split(a2 + last, sep) =~= parts);
    }
}

/// Parts without surrounding whitespace are left alone by trimming.
pub proof fn lemma_trim_plain(s: Seq<char>)
    requires
        s.len() > 0,
        !is_space(s[0]),
        !is_space(s.last()),
    ensures
        trim(s) == s,
{
}

/// Removing repeated parts keeps a list whose parts already differ.
pub proof fn lemma_dedup_distinct(parts: Seq<Seq<char>>)
    requires
        all_distinct(parts),
    ensures
        dedup(parts) == parts,
    decreases parts.len(),
{
    if parts.len() > 0 {
        let init = parts.drop_last();
        assert(all_distinct(init)) by {
            assert forall|i: int, j: int| 0 <= i < j < init.len() implies init[i] != init[j] by {
                assert(init[i] == parts[i] && init[j] == parts[j]);
            }
        }
        lemma_dedup_distinct(init);
        assert(!init.contains(parts.last())) by {
            if init.contains(parts.last()) {
                let k = choose|k: int| 0 <= k < init.len() && init[k] == parts.last();
                assert(parts[k] == parts[parts.len() - 1]);
            }
        }
        assert(init.push(parts.last()) =~= parts);
    }
}

/// Every part that comes out of `dedup` was in its input, and none comes out twice.
pub proof fn lemma_dedup_props(parts: Seq<Seq<char>>)
    ensures
        all_distinct(dedup(parts)),
        forall|x: Seq<char>| dedup(parts).contains(x) <==> parts.contains(x),
        dedup(parts).len() <= parts.len(),
    decreases parts.len(),
{
    if parts.len() > 0 {
        let init = parts.drop_last();
        lemma_dedup_props(init);
        let d = dedup(init);
        let x = parts.last();
        assert forall|y: Seq<char>| parts.contains(y) <==> init.contains(y) || y == x by {
            if parts.contains(y) {
                let k = choose|k: int| 0 <= k < parts.len() && parts[k] == y;
                if k < parts.len() - 1 {
                    assert(init[k] == y);
                }
            }
            if init.contains(y) {
                let k = choose|k: int| 0 <= k < init.len() && init[k] == y;
                assert(parts[k] == y);
            }
            if y == x {
                assert(parts[parts.len() - 1] == y);
            }
        }
        if !d.contains(x) {
            let d2 = d.push(x);
            assert forall|y: Seq<char>| d2.contains(y) <==> d.contains(y) || y == x by {
                if d2.contains(y) {
                    let k = choose|k: int| 0 <= k < d2.len() && d2[k] == y;
                    if k < d.len() {
                        assert(d[k] == y);
                    }
                }
                if d.contains(y) {
                    let k = choose|k: int| 0 <= k < d.len() && d[k] == y;
                    assert(d2[k] == y);
                }
                if y == x {
                    assert(d2[d.len() as int] == y);
                }
            }
            assert forall|i: int, j: int| 0 <= i < j < d2.len() implies d2[i] != d2[j] by {
                if j == d.len() {
                    assert(d2[i] == d[i]);
                    assert(d.contains(d[i]));
                }
            }
        }
    }
}

/// The characters of `s`, in order.
pub fn chars_of(s: &str) -> (r: Vec<char>)
    ensures
        r@ == s@,
{
    let n = s.unicode_len();
    let mut r: Vec<char> = Vec::new();
    let mut i: usize = 0;
    while i < n
        invariant
            n == s@.len(),
            i <= n,
            r@ == s@.take(i as int),
        decreases n - i,
    {
        let c = s.get_char(i);
        r.push(c);
        i = i + 1;
        assert(r@ =~= s@.take(i as int));
    }
    assert(r@ =~= s@);
    r
}

/// The texts that index ranges pick out of `a`.
pub open spec fn range_views(a: Seq<char>, ranges: Seq<(usize, usize)>) -> Seq<Seq<char>> {
    ranges.map_values(|r: (usize, usize)| a.subrange(r.0 as int, r.1 as int))
}

pub open spec fn ranges_within(ranges: Seq<(usize, usize)>, n: nat) -> bool {
    forall|i: int| 0 <= i < ranges.len() ==> (#[trigger] ranges[i]).0 <= ranges[i].1 <= n
}

/// The bounds of `a[from..to]` without its surrounding whitespace.
pub fn trim_range(a: &Vec<char>, from: usize, to: usize) -> (r: (usize, usize))
    requires
        from <= to <= a@.len(),
    ensures
        from <= r.0 <= r.1 <= to,
        a@.subrange(r.0 as int, r.1 as int) == trim(a@.subrange(from as int, to as int)),
{
    let mut f = from;
    while f < to && is_space_char(a[f])
        invariant
            from <= f <= to <= a@.len(),
            trim_start(a@.subrange(from as int, to as int)) == trim_start(
                a@.subrange(f as int, to as int),
            ),
        decreases to - f,
    {
        assert(a@.subrange(f as int, to as int).drop_first() =~= a@.subrange(
            f + 1,
            to as int,
        ));
        assert(a@.subrange(f as int, to as int)[0] == a@[f as int]);
        f = f + 1;
    }
    assert(trim_start(a@.subrange(f as int, to as int)) == a@.subrange(f as int, to as int)) by {
        if f < to {
            assert(a@.subrange(f as int, to as int)[0] == a@[f as int]);
        }
    }
    let mut t = to;
    while t > f && is_space_char(a[t - 1])
        invariant
            from <= f <= t <= to <= a@.len(),
            trim(a@.subrange(from as int, to as int)) == trim_end(a@.subrange(f as int, t as int)),
        decreases t - f,
    {
        assert(a@.subrange(f as int, t as int).drop_last() =~= a@.subrange(
            f as int,
            t - 1,
        ));
        assert(a@.subrange(f as int, t as int).last() == a@[t - 1]);
        t = t - 1;
    }
    assert(trim_end(a@.subrange(f as int, t as int)) == a@.subrange(f as int, t as int)) by {
        if f < t {
            assert(a@.subrange(f as int, t as int).last() == a@[t - 1]);
        }
    }
    (f, t)
}

/// The ranges of the pieces that `split` cuts `a` into at `sep`.
pub fn split_ranges(a: &Vec<char>, sep: char) -> (r: Vec<(usize, usize)>)
    ensures
        ranges_within(r@, a@.len()),
        range_views(a@, r@) == split(a@, sep),
{
    let n = a.len();
    let mut ranges: Vec<(usize, usize)> = Vec::new();
    let mut start: usize = 0;
    let mut i: usize = 0;
    assert(a@.take(0) =~= Seq::<char>::empty());
    assert(range_views(a@, ranges@).push(a@.subrange(0, 0)) =~= split(a@.take(0), sep));
    while i < n
        invariant
            n == a@.len(),
            start <= i <= n,
            ranges_within(ranges@, a@.len()),
            range_views(a@, ranges@).push(a@.subrange(start as int, i as int)) == split(
                a@.take(i as int),
                sep,
            ),
        decreases n - i,
    {
        let ghost before = split(a@.take(i as int), sep);
        assert(a@.take(i + 1).drop_last() =~= a@.take(i as int));
        assert(a@.take(i + 1).last() == a@[i as int]);
        proof {
            lemma_split_len(a@.take(i as int), sep);
        }
        if a[i] == sep {
            let ghost old_ranges = ranges@;
            ranges.push((start, i));
            assert(range_views(a@, ranges@) =~= range_views(a@, old_ranges).push(
                a@.subrange(start as int, i as int),
            ));
            assert(a@.subrange((i + 1) as int, (i + 1) as int) =~= Seq::<char>::empty());
            start = i + 1;
            assert(range_views(a@, ranges@).push(a@.subrange(start as int, (i + 1) as int))
                =~= before.push(Seq::<char>::empty()));
        } else {
            assert(a@.subrange(start as int, (i + 1) as int) =~= a@.subrange(
                start as int,
                i as int,
            ).push(a@[i as int]));
            assert(range_views(a@, ranges@).push(a@.subrange(start as int, (i + 1) as int))
                =~= before.update(before.len() - 1, before.last().push(a@[i as int])));
        }
        i = i + 1;
    }
    ranges.push((start, n));
    assert(a@.take(n as int) =~= a@);
    assert(range_views(a@, ranges@) =~= split(a@, sep));
    ranges
}

/// Whether two texts are the same.
pub fn str_eq(a: &str, b: &str) -> (r: bool)
    ensures
        r == (a@ == b@),
{
    let chars = chars_of(a);
    let n = chars.len();
    assert(chars@.subrange(0, n as int) =~= a@);
    range_eq_str(&chars, 0, n, b)
}

/// Whether the characters `a[from..to]` spell `s`.
pub fn range_eq_str(a: &Vec<char>, from: usize, to: usize, s: &str) -> (r: bool)
    requires
        from <= to <= a@.len(),
    ensures
        r == (a@.subrange(from as int, to as int) == s@),
{
    let n = s.unicode_len();
    if to - from != n {
        proof {
            if a@.subrange(from as int, to as int) == s@ {
                assert(a@.subrange(from as int, to as int).len() == s@.len());
            }
        }
        return false;
    }
    let mut i: usize = 0;
    while i < n
        invariant
            n == s@.len(),
            to - from == n,
            from <= to <= a@.len(),
            i <= n,
            forall|k: int| 0 <= k < i ==> a@[from + k] == s@[k],
        decreases n - i,
    {
        if a[from + i] != s.get_char(i) {
            proof {
                assert(a@.subrange(from as int, to as int)[i as int] == a@[from + i]);
            }
            return false;
        }
        i = i + 1;
    }
    assert(a@.subrange(from as int, to as int) =~= s@);
    true
}

/// Whether the characters `a[af..at]` and `a[bf..bt]` are the same text.
pub fn ranges_eq(a: &Vec<char>, af: usize, at: usize, bf: usize, bt: usize) -> (r: bool)
    requires
        af <= at <= a@.len(),
        bf <= bt <= a@.len(),
    ensures
        r == (a@.subrange(af as int, at as int) == a@.subrange(bf as int, bt as int)),
{
    if at - af != bt - bf {
        proof {
            if a@.subrange(af as int, at as int) == a@.subrange(bf as int, bt as int) {
                assert(a@.subrange(af as int, at as int).len() == a@.subrange(
                    bf as int,
                    bt as int,
                ).len());
            }
        }
        return false;
    }
    let n = at - af;
    let ghost x = a@.subrange(af as int, at as int);
    let ghost y = a@.subrange(bf as int, bt as int);
    let mut i: usize = 0;
    while i < n
        invariant
            n == at - af,
            n == bt - bf,
            af <= at <= a@.len(),
            bf <= bt <= a@.len(),
            x == a@.subrange(af as int, at as int),
            y == a@.subrange(bf as int, bt as int),
            i <= n,
            forall|k: int| 0 <= k < i ==> #[trigger] x[k] == y[k],
        decreases n - i,
    {
        if a[af + i] != a[bf + i] {
            proof {
                assert(a@.subrange(af as int, at as int)[i as int] == a@[af + i]);
                assert(a@.subrange(bf as int, bt as int)[i as int] == a@[bf + i]);
            }
            return false;
        }
        assert(x[i as int] == a@[af + i]);
        assert(y[i as int] == a@[bf + i]);
        i = i + 1;
    }
    assert(x =~= y);
    true
}

} // verus!
