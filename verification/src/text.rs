//! Character-level text operations.
//!
//! Strings cross the library's boundary as `String` and `&str`; inside, the
//! algorithms work on `Vec<char>`, whose view is the same `Seq<char>`.
//! [`chars_of`] and [`text_of`] go from one to the other.

use vstd::prelude::*;

verus! {

/// Trusted: `String::push`. The contract claims what its documentation says:
/// the character is appended to the end of the string.
pub assume_specification[ String::push ](s: &mut String, ch: char)
    ensures
        final(s)@ == old(s)@.push(ch),
;

/// The characters of a string slice, in order.
pub fn chars_of(s: &str) -> (v: Vec<char>)
    ensures
        v@ == s@,
{
    let mut v: Vec<char> = Vec::new();
    for c in it: s.chars()
        invariant
            it.seq() == s@,
            v@ == s@.take(it.index() as int),
    {
        v.push(c);
        proof {
            assert(s@.take(it.index() + 1) =~= s@.take(it.index() as int).push(c));
        }
    }
    proof {
        assert(s@.take(s@.len() as int) =~= s@);
    }
    v
}

/// The string of the characters of `v`, in order.
pub fn text_of(v: &Vec<char>) -> (s: String)
    ensures
        s@ == v@,
{
    let mut s = String::new();
    let mut i: usize = 0;
    while i < v.len()
        invariant
            i <= v.len(),
            s@ == v@.take(i as int),
        decreases v.len() - i,
    {
        s.push(v[i]);
        proof {
            assert(v@.take(i + 1) =~= v@.take(i as int).push(v@[i as int]));
        }
        i += 1;
    }
    proof {
        assert(v@.take(v.len() as int) =~= v@);
    }
    s
}

/// `pat` occurs in `s` starting at index `at`.
pub open spec fn occurs_at(s: Seq<char>, pat: Seq<char>, at: int) -> bool {
    &&& 0 <= at
    &&& at + pat.len() <= s.len()
    &&& s.subrange(at, at + pat.len()) == pat
}

/// `s` with every occurrence of `pat` replaced by `to`, scanning from the left
/// and never re-reading replaced text. An empty `pat` replaces nothing.
pub open spec fn replace_all(s: Seq<char>, pat: Seq<char>, to: Seq<char>) -> Seq<char>
    decreases s.len(),
{
    if pat.len() == 0 || s.len() < pat.len() {
        s
    } else if occurs_at(s, pat, 0) {
        to + replace_all(s.skip(pat.len() as int), pat, to)
    } else {
        seq![s[0]] + replace_all(s.skip(1), pat, to)
    }
}

/// `s` with every character equal to `from` exchanged for `to`.
pub open spec fn replace_char(s: Seq<char>, from: char, to: char) -> Seq<char> {
    Seq::new(s.len(), |i: int| if s[i] == from { to } else { s[i] })
}

/// The character of a single decimal digit.
pub open spec fn digit_char(d: nat) -> char {
    if d == 0 {
        '0'
    } else if d == 1 {
        '1'
    } else if d == 2 {
        '2'
    } else if d == 3 {
        '3'
    } else if d == 4 {
        '4'
    } else if d == 5 {
        '5'
    } else if d == 6 {
        '6'
    } else if d == 7 {
        '7'
    } else if d == 8 {
        '8'
    } else {
        '9'
    }
}

/// The decimal numeral of `n`, without leading zeros.
pub open spec fn decimal(n: nat) -> Seq<char>
    decreases n,
{
    if n < 10 {
        seq![digit_char(n)]
    } else {
        decimal(n / 10).push(digit_char(n % 10))
    }
}

/// The decimal numeral of `n`, padded on the left with zeros to at least
/// `width` characters.
pub open spec fn zero_padded(n: nat, width: nat) -> Seq<char> {
    let d = decimal(n);
    if d.len() >= width {
        d
    } else {
        Seq::new((width - d.len()) as nat, |i: int| '0') + d
    }
}

/// Whether `s` begins with `prefix`.
pub fn starts_with(s: &Vec<char>, prefix: &Vec<char>) -> (r: bool)
    ensures
        r == prefix@.is_prefix_of(s@),
{
    matches_at(s, prefix, 0)
}

/// Whether `pat` occurs in `s` at index `at`.
pub fn matches_at(s: &Vec<char>, pat: &Vec<char>, at: usize) -> (r: bool)
    ensures
        r == occurs_at(s@, pat@, at as int),
{
    if at > s.len() || pat.len() > s.len() - at {
        return false;
    }
    let mut k: usize = 0;
    while k < pat.len()
        invariant
            k <= pat.len(),
            at + pat.len() <= s.len(),
            forall|j: int| 0 <= j < k ==> s@[at + j] == pat@[j],
        decreases pat.len() - k,
    {
        if s[at + k] != pat[k] {
            proof {
                let sub = s@.subrange(at as int, at + pat.len());
                assert(sub[k as int] == s@[at + k]);
            }
            return false;
        }
        k += 1;
    }
    proof {
        assert(s@.subrange(at as int, at + pat.len()) =~= pat@);
    }
    true
}

/// Replaces every occurrence of `pat` in `s` by `to`.
pub fn replace(s: &Vec<char>, pat: &Vec<char>, to: &Vec<char>) -> (out: Vec<char>)
    ensures
        out@ == replace_all(s@, pat@, to@),
{
    if pat.len() == 0 {
        return s.clone();
    }
    let mut out: Vec<char> = Vec::new();
    let mut i: usize = 0;
    proof {
        assert(s@.skip(0) =~= s@);
        assert(out@ + replace_all(s@, pat@, to@) =~= replace_all(s@, pat@, to@));
    }
    while i < s.len()
        invariant
            i <= s.len(),
            pat.len() > 0,
            out@ + replace_all(s@.skip(i as int), pat@, to@) == replace_all(s@, pat@, to@),
        decreases s.len() - i,
    {
        let ghost rest = s@.skip(i as int);
        let ghost before = out@;
        if matches_at(s, pat, i) {
            proof {
                assert(rest.subrange(0, pat.len() as int) =~= s@.subrange(
                    i as int,
                    i + pat.len(),
                ));
                assert(rest.skip(pat.len() as int) =~= s@.skip(i + pat.len()));
            }
            let mut k: usize = 0;
            while k < to.len()
                invariant
                    k <= to.len(),
                    out@ == before + to@.subrange(0, k as int),
                decreases to.len() - k,
            {
                out.push(to[k]);
                k += 1;
                proof {
                    assert(to@.subrange(0, k as int) =~= to@.subrange(0, k - 1).push(
                        to@[k - 1],
                    ));
                }
            }
            proof {
                assert(to@.subrange(0, to.len() as int) =~= to@);
                assert((before + to@) + replace_all(rest.skip(pat.len() as int), pat@, to@)
                    =~= before + (to@ + replace_all(rest.skip(pat.len() as int), pat@, to@)));
            }
            i += pat.len();
        } else {
            proof {
                assert(rest.len() >= pat.len() ==> rest.subrange(0, pat.len() as int)
                    =~= s@.subrange(i as int, i + pat.len()));
                assert(rest.skip(1) =~= s@.skip(i + 1));
                assert(rest[0] == s@[i as int]);
                if rest.len() < pat.len() {
                    // the tail is copied unchanged, one character at a time
                    lemma_short_tail(rest, pat@, to@);
                    lemma_short_tail(rest.skip(1), pat@, to@);
                    assert(seq![rest[0]] + rest.skip(1) =~= rest);
                }
                assert((before.push(s@[i as int])) + replace_all(rest.skip(1), pat@, to@)
                    =~= before + (seq![rest[0]] + replace_all(rest.skip(1), pat@, to@)));
            }
            out.push(s[i]);
            i += 1;
        }
    }
    proof {
        assert(s@.skip(s.len() as int) =~= Seq::<char>::empty());
        assert(out@ + Seq::<char>::empty() =~= out@);
    }
    out
}

/// Text shorter than the pattern is left as it is.
proof fn lemma_short_tail(s: Seq<char>, pat: Seq<char>, to: Seq<char>)
    requires
        s.len() < pat.len(),
    ensures
        replace_all(s, pat, to) == s,
{
}

/// Exchanges every character equal to `from` for `to`.
pub fn swap_char(s: &Vec<char>, from: char, to: char) -> (out: Vec<char>)
    ensures
        out@ == replace_char(s@, from, to),
{
    let mut out: Vec<char> = Vec::new();
    let mut i: usize = 0;
    while i < s.len()
        invariant
            i <= s.len(),
            out.len() == i,
            forall|j: int| 0 <= j < i ==> out@[j] == (if s@[j] == from { to } else { s@[j] }),
        decreases s.len() - i,
    {
        let c = s[i];
        out.push(if c == from { to } else { c });
        i += 1;
    }
    proof {
        assert(out@ =~= replace_char(s@, from, to));
    }
    out
}

/// The character of the decimal digit `d`.
fn digit(d: u8) -> (c: char)
    requires
        d < 10,
    ensures
        c == digit_char(d as nat),
{
    if d == 0 {
        '0'
    } else if d == 1 {
        '1'
    } else if d == 2 {
        '2'
    } else if d == 3 {
        '3'
    } else if d == 4 {
        '4'
    } else if d == 5 {
        '5'
    } else if d == 6 {
        '6'
    } else if d == 7 {
        '7'
    } else if d == 8 {
        '8'
    } else {
        '9'
    }
}

/// The decimal numeral of `n`.
pub fn decimal_chars(n: u128) -> (out: Vec<char>)
    ensures
        out@ == decimal(n as nat),
{
    let mut out: Vec<char> = Vec::new();
    let mut m: u128 = n;
    out.push(digit((m % 10) as u8));
    m = m / 10;
    proof {
        assert(seq![digit_char((n % 10) as nat)] =~= Seq::<char>::empty().push(
            digit_char((n % 10) as nat),
        ));
    }
    while m > 0
        invariant
            out.len() > 0,
            m == 0 ==> out@ == decimal(n as nat),
            m > 0 ==> decimal(m as nat) + out@ == decimal(n as nat),
        decreases m,
    {
        let ghost before = out@;
        let c = digit((m % 10) as u8);
        out.insert(0, c);
        proof {
            let q = (m / 10) as nat;
            assert(out@ =~= seq![c] + before);
            if m < 10 {
                assert(decimal(m as nat) =~= seq![c]);
            } else {
                assert(decimal(m as nat) == decimal(q).push(c));
                assert(decimal(q).push(c) + before =~= decimal(q) + (seq![c] + before));
            }
        }
        m = m / 10;
    }
    out
}

/// The decimal numeral of `n`, padded on the left with zeros to `width`.
pub fn zero_padded_chars(n: u128, width: usize) -> (out: Vec<char>)
    ensures
        out@ == zero_padded(n as nat, width as nat),
{
    let digits = decimal_chars(n);
    if digits.len() >= width {
        return digits;
    }
    let fill: usize = width - digits.len();
    let mut out: Vec<char> = Vec::new();
    let mut i: usize = 0;
    while i < fill
        invariant
            i <= fill,
            out.len() == i,
            forall|j: int| 0 <= j < i ==> out@[j] == '0',
        decreases fill - i,
    {
        out.push('0');
        i += 1;
    }
    let ghost zeros = out@;
    let mut k: usize = 0;
    while k < digits.len()
        invariant
            k <= digits.len(),
            out@ == zeros + digits@.subrange(0, k as int),
        decreases digits.len() - k,
    {
        out.push(digits[k]);
        k += 1;
        proof {
            assert(digits@.subrange(0, k as int) =~= digits@.subrange(0, k - 1).push(
                digits@[k - 1],
            ));
        }
    }
    proof {
        assert(digits@.subrange(0, digits.len() as int) =~= digits@);
        assert(zeros =~= Seq::new(fill as nat, |i: int| '0'));
    }
    out
}

/// Appends the characters of `tail` to `head`.
pub fn append_chars(head: &mut Vec<char>, tail: &Vec<char>)
    ensures
        final(head)@ == old(head)@ + tail@,
{
    let ghost before = head@;
    let mut k: usize = 0;
    while k < tail.len()
        invariant
            k <= tail.len(),
            head@ == before + tail@.subrange(0, k as int),
        decreases tail.len() - k,
    {
        head.push(tail[k]);
        k += 1;
        proof {
            assert(tail@.subrange(0, k as int) =~= tail@.subrange(0, k - 1).push(tail@[k - 1]));
        }
    }
    proof {
        assert(tail@.subrange(0, tail.len() as int) =~= tail@);
    }
}

/// Whether two pieces of text hold the same characters.
pub fn equals(a: &str, b: &str) -> (r: bool)
    ensures
        r == (a@ == b@),
{
    let x = chars_of(a);
    let y = chars_of(b);
    if x.len() != y.len() {
        return false;
    }
    let mut i: usize = 0;
    while i < x.len()
        invariant
            i <= x.len(),
            x.len() == y.len(),
            x@ == a@,
            y@ == b@,
            forall|j: int| 0 <= j < i ==> x@[j] == y@[j],
        decreases x.len() - i,
    {
        if x[i] != y[i] {
            assert(x@[i as int] != y@[i as int]);
            return false;
        }
        i += 1;
    }
    proof {
        assert(x@ =~= y@);
    }
    true
}

/// Whether `name` is one of `names`.
pub open spec fn names_contain(names: Seq<Seq<char>>, name: Seq<char>) -> bool {
    names.contains(name)
}

/// Whether `name` is one of `names`.
pub fn is_listed(names: &Vec<String>, name: &str) -> (r: bool)
    ensures
        r == names_contain(names.deep_view(), name@),
{
    let mut i: usize = 0;
    while i < names.len()
        invariant
            i <= names.len(),
            forall|j: int| 0 <= j < i ==> #[trigger] names.deep_view()[j] != name@,
        decreases names.len() - i,
    {
        if equals(names[i].as_str(), name) {
            assert(names.deep_view()[i as int] == name@);
            return true;
        }
        i += 1;
    }
    false
}

/// The index of the last `c` in `s`, or -1 where there is none.
pub open spec fn last_index_of(s: Seq<char>, c: char) -> int
    decreases s.len(),
{
    if s.len() == 0 {
        -1
    } else if s.last() == c {
        s.len() - 1
    } else {
        last_index_of(s.drop_last(), c)
    }
}

/// The index of the last `c` in `s`, if there is one.
pub fn find_last(s: &Vec<char>, c: char) -> (found: Option<usize>)
    ensures
        match found {
            Some(at) => at < s.len() && at == last_index_of(s@, c) && s@[at as int] == c,
            None => last_index_of(s@, c) == -1,
        },
{
    let mut end: usize = s.len();
    proof {
        assert(s@.take(end as int) =~= s@);
    }
    while end > 0
        invariant
            end <= s.len(),
            last_index_of(s@, c) == last_index_of(s@.take(end as int), c),
        decreases end,
    {
        proof {
            assert(s@.take(end as int).last() == s@[end - 1]);
            assert(s@.take(end as int).drop_last() =~= s@.take(end - 1));
        }
        if s[end - 1] == c {
            return Some(end - 1);
        }
        end -= 1;
    }
    None
}

/// The first `n` characters of `s`.
pub(crate) fn first_chars(s: &Vec<char>, n: usize) -> (head: Vec<char>)
    requires
        n <= s.len(),
    ensures
        head@ == s@.take(n as int),
{
    let mut head: Vec<char> = Vec::new();
    let mut i: usize = 0;
    while i < n
        invariant
            i <= n <= s.len(),
            head@ == s@.take(i as int),
        decreases n - i,
    {
        head.push(s[i]);
        proof {
            assert(s@.take(i + 1) =~= s@.take(i as int).push(s@[i as int]));
        }
        i += 1;
    }
    head
}

/// The part of `s` from index `from` on.
pub(crate) fn tail_from(s: &Vec<char>, from: usize) -> (tail: Vec<char>)
    requires
        from <= s.len(),
    ensures
        tail@ == s@.skip(from as int),
{
    let mut tail: Vec<char> = Vec::new();
    let mut i: usize = from;
    while i < s.len()
        invariant
            from <= i <= s.len(),
            tail@ == s@.subrange(from as int, i as int),
        decreases s.len() - i,
    {
        tail.push(s[i]);
        i += 1;
        proof {
            assert(s@.subrange(from as int, i as int) =~= s@.subrange(from as int, i - 1).push(
                s@[i - 1],
            ));
        }
    }
    proof {
        assert(s@.subrange(from as int, s.len() as int) =~= s@.skip(from as int));
    }
    tail
}

} // verus!
