//! Character-level string operations used to build metric text.

use vstd::prelude::*;

verus! {

/// `String::push` appends one character.
pub assume_specification[ String::push ](s: &mut String, ch: char)
    ensures
        final(s)@ == old(s)@.push(ch),
;

/// `s` with every `from` replaced by `to`.
pub open spec fn replaced(s: Seq<char>, from: char, to: char) -> Seq<char> {
    s.map_values(|c: char| if c == from { to } else { c })
}

/// Does `s` end with `suffix`?
pub open spec fn ends_with(s: Seq<char>, suffix: Seq<char>) -> bool {
    &&& suffix.len() <= s.len()
    &&& s.subrange(s.len() - suffix.len(), s.len() as int) == suffix
}

/// `s` with every occurrence of `p` removed, scanning left to right and
/// never letting two removed occurrences overlap (what `str::replace(p, "")` does).
pub open spec fn removed(s: Seq<char>, p: Seq<char>) -> Seq<char>
    decreases s.len(),
{
    if s.len() == 0 || p.len() == 0 {
        s
    } else if p.len() <= s.len() && s.take(p.len() as int) == p {
        removed(s.skip(p.len() as int), p)
    } else {
        seq![s[0]] + removed(s.skip(1), p)
    }
}

/// The characters of `s`, in order.
pub fn chars_of(s: &str) -> (v: Vec<char>)
    ensures
        v@ == s@,
{
    let n = s.unicode_len();
    let mut v: Vec<char> = Vec::new();
    let mut i: usize = 0;
    while i < n
        invariant
            n == s@.len(),
            i <= n,
            v@ == s@.take(i as int),
        decreases n - i,
    {
        let c = s.get_char(i);
        v.push(c);
        i = i + 1;
        assert(v@ == s@.take(i as int));
    }
    assert(s@.take(n as int) == s@);
    v
}

/// A `String` holding the characters of `v`.
pub fn string_of(v: &[char]) -> (s: String)
    ensures
        s@ == v@,
{
    let mut s = String::new();
    let mut i: usize = 0;
    while i < v.len()
        invariant
            i <= v@.len(),
            s@ == v@.take(i as int),
        decreases v@.len() - i,
    {
        s.push(v[i]);
        i = i + 1;
        assert(s@ == v@.take(i as int));
    }
    assert(v@.take(v@.len() as int) == v@);
    s
}

/// `s` with every `from` replaced by `to`.
pub fn replace_char(s: &str, from: char, to: char) -> (r: String)
    ensures
        r@ == replaced(s@, from, to),
{
    let n = s.unicode_len();
    let mut r = String::new();
    let mut i: usize = 0;
    while i < n
        invariant
            n == s@.len(),
            i <= n,
            r@ == replaced(s@.take(i as int), from, to),
        decreases n - i,
    {
        let c = s.get_char(i);
        if c == from {
            r.push(to);
        } else {
            r.push(c);
        }
        i = i + 1;
        assert(r@ == replaced(s@.take(i as int), from, to));
    }
    assert(s@.take(n as int) == s@);
    r
}

/// Are the two strings equal, character for character?
pub fn same_text(a: &str, b: &str) -> (r: bool)
    ensures
        r == (a@ == b@),
{
    let x = String::from_str(a);
    let y = String::from_str(b);
    x == y
}

/// Does `v[start..start + p.len()]` equal `p`?
fn matches_at(v: &Vec<char>, start: usize, p: &Vec<char>) -> (r: bool)
    requires
        start + p@.len() <= v@.len(),
    ensures
        r == (v@.subrange(start as int, start + p@.len()) == p@),
{
    let vlen = v.len();
    let mut j: usize = 0;
    while j < p.len()
        invariant
            vlen == v@.len(),
            start + p@.len() <= v@.len(),
            j <= p@.len(),
            forall|k: int| 0 <= k < j ==> v@[start + k] == p@[k],
        decreases p@.len() - j,
    {
        if v[start + j] != p[j] {
            assert(v@.subrange(start as int, start + p@.len())[j as int] != p@[j as int]);
            return false;
        }
        j = j + 1;
    }
    assert(v@.subrange(start as int, start + p@.len()) == p@);
    true
}

/// Does `s` end with `suffix`?
pub fn ends_with_text(s: &str, suffix: &str) -> (r: bool)
    ensures
        r == ends_with(s@, suffix@),
{
    let v = chars_of(s);
    let p = chars_of(suffix);
    if p.len() > v.len() {
        false
    } else {
        matches_at(&v, v.len() - p.len(), &p)
    }
}

proof fn lemma_removed_step(s: Seq<char>, p: Seq<char>, i: int)
    requires
        0 <= i < s.len(),
        p.len() > 0,
    ensures
        i + p.len() <= s.len() && s.subrange(i, i + p.len()) == p ==> removed(s.skip(i), p)
            == removed(s.skip(i + p.len()), p),
        !(i + p.len() <= s.len() && s.subrange(i, i + p.len()) == p) ==> removed(s.skip(i), p)
            == seq![s[i]] + removed(s.skip(i + 1), p),
{
    let t = s.skip(i);
    assert(t.len() > 0);
    if i + p.len() <= s.len() {
        assert(t.take(p.len() as int) == s.subrange(i, i + p.len()));
        assert(t.skip(p.len() as int) == s.skip(i + p.len()));
    }
    assert(t.skip(1) == s.skip(i + 1));
    assert(t[0] == s[i]);
}

/// `s` with every occurrence of the non-empty `p` removed, as `str::replace(p, "")` does.
pub fn remove_text(s: &str, p: &str) -> (r: String)
    requires
        p@.len() > 0,
    ensures
        r@ == removed(s@, p@),
{
    let v = chars_of(s);
    let q = chars_of(p);
    let n = v.len();
    let mut out: Vec<char> = Vec::new();
    let mut i: usize = 0;
    assert(v@.skip(0) == v@);
    while i < n
        invariant
            n == v@.len(),
            v@ == s@,
            q@ == p@,
            q@.len() > 0,
            i <= n,
            out@ + removed(v@.skip(i as int), q@) == removed(v@, q@),
        decreases n - i,
    {
        proof {
            lemma_removed_step(v@, q@, i as int);
        }
        if q.len() <= n - i && matches_at(&v, i, &q) {
            i = i + q.len();
        } else {
            out.push(v[i]);
            i = i + 1;
        }
    }
    assert(v@.skip(n as int).len() == 0);
    assert(out@ + removed(v@.skip(n as int), q@) == out@);
    string_of(out.as_slice())
}

/// The decimal digit `d`.
pub open spec fn digit(d: nat) -> char {
    ((48 + d) as u8) as char
}

/// `n` in decimal, without leading zeros.
pub open spec fn decimal(n: nat) -> Seq<char>
    decreases n,
{
    if n < 10 {
        seq![digit(n)]
    } else {
        decimal(n / 10) + seq![digit(n % 10)]
    }
}

/// `n` in decimal (what `n.to_string()` gives).
pub fn decimal_text(n: u64) -> (r: String)
    ensures
        r@ == decimal(n as nat),
    decreases n,
{
    let d = (n % 10) as u8;
    let c = ((48 + d) as u8) as char;
    if n < 10 {
        let mut r = String::new();
        r.push(c);
        r
    } else {
        let mut r = decimal_text(n / 10);
        r.push(c);
        r
    }
}

} // verus!
