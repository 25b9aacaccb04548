use vstd::prelude::*;
use vstd::string::StrSliceExecFns;

verus! {

/// Relies on String::push: appends the given char to the end of this String.
pub assume_specification[ String::push ](s: &mut String, ch: char)
    ensures
        final(s)@ == old(s)@.push(ch),
;

/// Builds the String whose scalar sequence is exactly `v`.
pub fn chars_to_string(v: &Vec<char>) -> (s: String)
    ensures
        s@ == v@,
{
    let mut s = String::new();
    let mut i: usize = 0;
    while i < v.len()
        invariant
            i <= v@.len(),
            s@ == v@.subrange(0, i as int),
        decreases v@.len() - i,
    {
        s.push(v[i]);
        proof {
            assert(v@.subrange(0, i as int).push(v@[i as int]) =~= v@.subrange(0, i + 1));
        }
        i = i + 1;
    }
    proof {
        assert(v@.subrange(0, v@.len() as int) =~= v@);
    }
    s
}

/// Collects the scalar values of `text` into a vector.
pub fn str_to_chars(text: &str) -> (v: Vec<char>)
    ensures
        v@ == text@,
{
    let n = text.unicode_len();
    let mut v: Vec<char> = Vec::new();
    let mut i: usize = 0;
    while i < n
        invariant
            n == text@.len(),
            i <= n,
            v@ == text@.subrange(0, i as int),
        decreases n - i,
    {
        let c = text.get_char(i);
        v.push(c);
        proof {
            assert(text@.subrange(0, i as int).push(text@[i as int]) =~= text@.subrange(
                0,
                i + 1,
            ));
        }
        i = i + 1;
    }
    proof {
        assert(text@.subrange(0, n as int) =~= text@);
    }
    v
}

/// The character for one decimal digit.
pub open spec fn digit_char(d: int) -> char {
    if d == 0 {
        '0'
    } else if d == 1 {
        '1'
    } else if d == 2 {
        '2'
    } else if d == 3 {
        '3'
    } else if d == 4 {
        '4'
    } else if d == 5 {
        '5'
    } else if d == 6 {
        '6'
    } else if d == 7 {
        '7'
    } else if d == 8 {
        '8'
    } else {
        '9'
    }
}

/// The decimal digits of `n`, most significant first, with no sign and no
/// leading zeros (zero itself is one digit).
pub open spec fn dec_rep(n: int) -> Seq<char>
    decreases n,
{
    if n < 10 {
        seq![digit_char(n)]
    } else {
        dec_rep(n / 10).push(digit_char(n % 10))
    }
}

/// A run of `k` spaces (none for a non-positive `k`).
pub open spec fn space_seq(k: int) -> Seq<char> {
    if k < 0 {
        Seq::empty()
    } else {
        Seq::new(k as nat, |i: int| ' ')
    }
}

/// `s` cut down to its first `k` scalars, if it is longer.
pub open spec fn truncated(s: Seq<char>, k: int) -> Seq<char> {
    if s.len() <= k {
        s
    } else if k < 0 {
        Seq::empty()
    } else {
        s.take(k)
    }
}

/// `s` right-aligned in a field of `w` scalars, padded with spaces on the
/// left; a longer `s` stays as it is.
pub open spec fn pad_left(s: Seq<char>, w: int) -> Seq<char> {
    space_seq(w - s.len()) + s
}

fn digit_exec(d: usize) -> (c: char)
    requires
        d < 10,
    ensures
        c == digit_char(d as int),
{
    match d {
        0 => '0',
        1 => '1',
        2 => '2',
        3 => '3',
        4 => '4',
        5 => '5',
        6 => '6',
        7 => '7',
        8 => '8',
        _ => '9',
    }
}

/// Renders `n` in decimal.
pub fn fmt_usize(n: usize) -> (v: Vec<char>)
    ensures
        v@ == dec_rep(n as int),
    decreases n,
{
    if n < 10 {
        let mut v: Vec<char> = Vec::new();
        v.push(digit_exec(n));
        proof {
            assert(v@ =~= seq![digit_char(n as int)]);
        }
        v
    } else {
        let mut v = fmt_usize(n / 10);
        v.push(digit_exec(n % 10));
        v
    }
}

/// A vector of `k` spaces.
pub fn spaces(k: usize) -> (v: Vec<char>)
    ensures
        v@ == space_seq(k as int),
{
    let mut v: Vec<char> = Vec::new();
    let mut i: usize = 0;
    while i < k
        invariant
            i <= k,
            v@ == space_seq(i as int),
        decreases k - i,
    {
        v.push(' ');
        proof {
            assert(v@ =~= space_seq(i + 1));
        }
        i = i + 1;
    }
    v
}

/// Right-aligns `v` in a field of `w` scalars, padding with spaces.
pub fn pad_left_to(v: Vec<char>, w: usize) -> (r: Vec<char>)
    ensures
        r@ == pad_left(v@, w as int),
{
    if v.len() >= w {
        proof {
            assert(space_seq(w - v@.len()) + v@ =~= v@);
        }
        v
    } else {
        let mut r = spaces(w - v.len());
        let mut tail = v;
        r.append(&mut tail);
        r
    }
}

/// Copies the scalars `[start, end)` of `v`.
pub fn char_range(v: &Vec<char>, start: usize, end: usize) -> (r: Vec<char>)
    requires
        start <= end <= v@.len(),
    ensures
        r@ == v@.subrange(start as int, end as int),
{
    let mut r: Vec<char> = Vec::new();
    let mut i: usize = start;
    while i < end
        invariant
            start <= i <= end <= v@.len(),
            r@ == v@.subrange(start as int, i as int),
        decreases end - i,
    {
        r.push(v[i]);
        proof {
            assert(v@.subrange(start as int, i as int).push(v@[i as int]) =~= v@.subrange(
                start as int,
                i + 1,
            ));
        }
        i = i + 1;
    }
    r
}

} // verus!
