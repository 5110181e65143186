//! Character-level text handling: whitespace, decimal numbers, padding,
//! trimming and splitting, with each result stated over `Seq<char>`.

use vstd::prelude::*;

verus! {

/// `String::push` appends one character.
pub assume_specification[ String::push ](s: &mut String, ch: char)
    ensures
        final(s)@ == old(s)@.push(ch),
;

/// `String::push_str` appends the characters of a string slice.
pub assume_specification[ String::push_str ](s: &mut String, string: &str)
    ensures
        final(s)@ == old(s)@ + string@,
;

/// The character of a decimal digit `d < 10`.
pub open spec fn digit_char(d: nat) -> char {
    if d == 0 { '0' }
    else if d == 1 { '1' }
    else if d == 2 { '2' }
    else if d == 3 { '3' }
    else if d == 4 { '4' }
    else if d == 5 { '5' }
    else if d == 6 { '6' }
    else if d == 7 { '7' }
    else if d == 8 { '8' }
    else { '9' }
}

/// The decimal notation of `n`, without leading zeros (`0` is "0").
pub open spec fn decimal(n: nat) -> Seq<char>
    decreases n,
{
    if n < 10 {
        seq![digit_char(n)]
    } else {
        decimal(n / 10).push(digit_char(n % 10))
    }
}

/// The number a decimal digit character stands for.
pub open spec fn digit_value(c: char) -> int {
    (c as int) - ('0' as int)
}

/// Whether `c` is one of the characters `0` to `9`.
pub open spec fn is_digit(c: char) -> bool {
    '0' <= c && c <= '9'
}

/// The number that a string of decimal digits spells, most significant first.
pub open spec fn spelled_number(s: Seq<char>) -> int
    decreases s.len(),
{
    if s.len() == 0 {
        0
    } else {
        spelled_number(s.drop_last()) * 10 + digit_value(s.last())
    }
}

/// `decimal(n)` is how `n` is written: a non-empty run of digits that spells
/// `n`, with no leading zero unless `n` is zero.
pub proof fn decimal_law(n: nat)
    ensures
        decimal(n).len() > 0,
        forall|k: int| 0 <= k < decimal(n).len() ==> is_digit(#[trigger] decimal(n)[k]),
        spelled_number(decimal(n)) == n,
        decimal(n)[0] == '0' ==> n == 0,
    decreases n,
{
    lemma_digit_char((n % 10) as nat);
    if n >= 10 {
        decimal_law(n / 10);
        let d = decimal(n);
        assert(d.drop_last() =~= decimal(n / 10));
        assert(d[0] == decimal(n / 10)[0]);
        assert(d.last() == digit_char(n % 10));
        assert((n / 10) * 10 + n % 10 == n);
        assert(spelled_number(d) == spelled_number(d.drop_last()) * 10 + digit_value(d.last()));
    } else {
        assert(n % 10 == n);
        let d = decimal(n);
        assert(d.drop_last() =~= Seq::<char>::empty());
        assert(spelled_number(d.drop_last()) == 0);
        assert(spelled_number(d) == spelled_number(d.drop_last()) * 10 + digit_value(d.last()));
    }
}

proof fn lemma_digit_char(d: nat)
    requires
        d < 10,
    ensures
        is_digit(digit_char(d)),
        digit_value(digit_char(d)) == d,
{
    assert(('0' as int) == 48);
    assert(('9' as int) == 57);
    if d == 0 { assert(('0' as int) == 48); }
    else if d == 1 { assert(('1' as int) == 49); }
    else if d == 2 { assert(('2' as int) == 50); }
    else if d == 3 { assert(('3' as int) == 51); }
    else if d == 4 { assert(('4' as int) == 52); }
    else if d == 5 { assert(('5' as int) == 53); }
    else if d == 6 { assert(('6' as int) == 54); }
    else if d == 7 { assert(('7' as int) == 55); }
    else if d == 8 { assert(('8' as int) == 56); }
    else { assert(('9' as int) == 57); }
}

fn digit(d: u64) -> (c: char)
    requires
        d < 10,
    ensures
        c == digit_char(d as nat),
{
    if d == 0 { '0' }
    else if d == 1 { '1' }
    else if d == 2 { '2' }
    else if d == 3 { '3' }
    else if d == 4 { '4' }
    else if d == 5 { '5' }
    else if d == 6 { '6' }
    else if d == 7 { '7' }
    else if d == 8 { '8' }
    else { '9' }
}

/// Appends the decimal notation of `n` to `out`.
pub fn push_decimal(out: &mut String, n: u64)
    ensures
        final(out)@ == old(out)@ + decimal(n as nat),
    decreases n,
{
    if n >= 10 {
        push_decimal(out, n / 10);
    }
    out.push(digit(n % 10));
    assert(out@ =~= old(out)@ + decimal(n as nat));
}


/// Unicode `White_Space`, the property that `char::is_whitespace` reports.
pub open spec fn is_space(c: char) -> bool {
    ||| ('\u{9}' <= c && c <= '\u{d}')
    ||| c == ' '
    ||| c == '\u{85}'
    ||| c == '\u{a0}'
    ||| c == '\u{1680}'
    ||| ('\u{2000}' <= c && c <= '\u{200a}')
    ||| c == '\u{2028}'
    ||| c == '\u{2029}'
    ||| c == '\u{202f}'
    ||| c == '\u{205f}'
    ||| c == '\u{3000}'
}

/// Whether `c` is Unicode white space.
pub fn is_whitespace(c: char) -> (b: bool)
    ensures
        b == is_space(c),
{
    ('\u{9}' <= c && c <= '\u{d}') || c == ' ' || c == '\u{85}' || c == '\u{a0}'
        || c == '\u{1680}' || ('\u{2000}' <= c && c <= '\u{200a}') || c == '\u{2028}'
        || c == '\u{2029}' || c == '\u{202f}' || c == '\u{205f}' || c == '\u{3000}'
}

/// The characters of `s`, in order.
pub fn chars_of(s: &str) -> (v: Vec<char>)
    ensures
        v@ == s@,
{
    let mut v: Vec<char> = Vec::new();
    for c in it: s.chars()
        invariant
            v@ == it.seq().take(it.index() as int),
    {
        v.push(c);
    }
    v
}


/// The string made of `v[from..to]`.
pub fn string_of(v: &Vec<char>, from: usize, to: usize) -> (s: String)
    requires
        from <= to <= v.len(),
    ensures
        s@ == v@.subrange(from as int, to as int),
{
    let mut s = String::new();
    let mut i = from;
    while i < to
        invariant
            from <= i <= to <= v.len(),
            s@ == v@.subrange(from as int, i as int),
        decreases to - i,
    {
        s.push(v[i]);
        assert(s@ =~= v@.subrange(from as int, i + 1));
        i = i + 1;
    }
    s
}

/// The end of the run of non-space characters of `s` that starts at `i`.
pub open spec fn token_end(s: Seq<char>, i: int) -> int
    decreases s.len() - i,
{
    if i < 0 || i >= s.len() || is_space(s[i]) {
        i
    } else {
        token_end(s, i + 1)
    }
}

/// `token_end(s, i) == j` when `s[i..j]` holds no space and `j` ends it.
pub proof fn lemma_token_end_at(s: Seq<char>, i: int, j: int)
    requires
        0 <= i <= j <= s.len(),
        forall|k: int| i <= k < j ==> !is_space(#[trigger] s[k]),
        j == s.len() || is_space(s[j]),
    ensures
        token_end(s, i) == j,
    decreases j - i,
{
    if i < j {
        lemma_token_end_at(s, i + 1, j);
    }
}

/// Whether `s` begins with `prefix`.
pub open spec fn starts_with(s: Seq<char>, prefix: Seq<char>) -> bool {
    prefix.len() <= s.len() && s.subrange(0, prefix.len() as int) == prefix
}

/// Scanning the whitespace-separated words of `s` from index `i` on, the
/// first word that begins with `prefix`, with the prefix taken off.
pub open spec fn word_after_prefix(s: Seq<char>, prefix: Seq<char>, i: int) -> Option<Seq<char>>
    decreases s.len() - i, 1int,
{
    if i < 0 || i >= s.len() {
        None
    } else if is_space(s[i]) {
        word_after_prefix(s, prefix, i + 1)
    } else {
        word_from(s, prefix, i, token_end(s, i))
    }
}

/// The step of `word_after_prefix` at the word `s[i..j]`.
pub open spec fn word_from(s: Seq<char>, prefix: Seq<char>, i: int, j: int) -> Option<Seq<char>>
    decreases s.len() - i, 0int,
{
    let word = s.subrange(i, j);
    if starts_with(word, prefix) {
        Some(word.subrange(prefix.len() as int, word.len() as int))
    } else if 0 <= i < j <= s.len() {
        word_after_prefix(s, prefix, j)
    } else {
        None
    }
}

/// Whether `w[from..]` begins with `prefix`.
fn has_prefix_at(w: &Vec<char>, from: usize, to: usize, prefix: &Vec<char>) -> (b: bool)
    requires
        from <= to <= w.len(),
    ensures
        b == starts_with(w@.subrange(from as int, to as int), prefix@),
{
    if prefix.len() > to - from {
        return false;
    }
    let mut k: usize = 0;
    while k < prefix.len()
        invariant
            prefix.len() <= to - from,
            from <= to <= w.len(),
            k <= prefix.len(),
            forall|m: int| 0 <= m < k ==> w@[from + m] == prefix@[m],
        decreases prefix.len() - k,
    {
        if w[from + k] != prefix[k] {
            assert(w@.subrange(from as int, to as int).subrange(0, prefix.len() as int)[k as int]
                != prefix@[k as int]);
            return false;
        }
        k = k + 1;
    }
    assert(w@.subrange(from as int, to as int).subrange(0, prefix.len() as int) =~= prefix@);
    true
}

/// Among the whitespace-separated words of `s`, the first that begins with
/// `prefix`, with the prefix taken off.
pub fn first_word_after_prefix(s: &str, prefix: &str) -> (r: Option<String>)
    ensures
        match r {
            Some(w) => word_after_prefix(s@, prefix@, 0) == Some(w@),
            None => word_after_prefix(s@, prefix@, 0) is None,
        },
{
    let v = chars_of(s);
    let p = chars_of(prefix);
    let n = v.len();
    let mut i: usize = 0;
    while i < n
        invariant
            n == v@.len(),
            v@ == s@,
            p@ == prefix@,
            i <= n,
            word_after_prefix(s@, prefix@, 0) == word_after_prefix(s@, prefix@, i as int),
        decreases n - i,
    {
        if is_whitespace(v[i]) {
            assert(word_after_prefix(s@, prefix@, i as int) == word_after_prefix(
                s@,
                prefix@,
                i + 1,
            ));
            i = i + 1;
        } else {
            let mut j = i + 1;
            while j < n && !is_whitespace(v[j])
                invariant
                    n == v@.len(),
                    i < j <= n,
                    forall|k: int| i <= k < j ==> !is_space(#[trigger] v@[k]),
                decreases n - j,
            {
                j = j + 1;
            }
            proof {
                lemma_token_end_at(v@, i as int, j as int);
                assert(word_after_prefix(s@, prefix@, i as int) == word_from(
                    s@,
                    prefix@,
                    i as int,
                    j as int,
                ));
            }
            if has_prefix_at(&v, i, j, &p) {
                let word = string_of(&v, i + p.len(), j);
                assert(word@ =~= v@.subrange(i as int, j as int).subrange(
                    p@.len() as int,
                    (j - i) as int,
                ));
                return Some(word);
            }
            assert(word_from(s@, prefix@, i as int, j as int) == word_after_prefix(
                s@,
                prefix@,
                j as int,
            ));
            i = j;
        }
    }
    None
}


/// The first index at or after `i` that holds no space (`s.len()` if none).
pub open spec fn skip_spaces(s: Seq<char>, i: int) -> int
    decreases s.len() - i,
{
    if i < 0 || i >= s.len() || !is_space(s[i]) {
        i
    } else {
        skip_spaces(s, i + 1)
    }
}

/// `j` less the run of spaces that ends just before it.
pub open spec fn drop_trailing_spaces(s: Seq<char>, j: int) -> int
    decreases j,
{
    if j <= 0 || j > s.len() || !is_space(s[j - 1]) {
        j
    } else {
        drop_trailing_spaces(s, j - 1)
    }
}

/// `s` without its leading and trailing white space, as `str::trim` gives it.
pub open spec fn trimmed(s: Seq<char>) -> Seq<char> {
    let a = skip_spaces(s, 0);
    if a >= s.len() {
        Seq::empty()
    } else {
        s.subrange(a, drop_trailing_spaces(s, s.len() as int))
    }
}

/// The first index at or after `i` that holds `c` (`s.len()` if none).
pub open spec fn index_of(s: Seq<char>, c: char, i: int) -> int
    decreases s.len() - i,
{
    if i < 0 || i >= s.len() || s[i] == c {
        i
    } else {
        index_of(s, c, i + 1)
    }
}

/// The copy of `v[from..to]`.
pub fn subvec(v: &Vec<char>, from: usize, to: usize) -> (w: Vec<char>)
    requires
        from <= to <= v.len(),
    ensures
        w@ == v@.subrange(from as int, to as int),
{
    let mut w: Vec<char> = Vec::new();
    let mut i = from;
    while i < to
        invariant
            from <= i <= to <= v.len(),
            w@ == v@.subrange(from as int, i as int),
        decreases to - i,
    {
        w.push(v[i]);
        assert(w@ =~= v@.subrange(from as int, i + 1));
        i = i + 1;
    }
    w
}

/// The characters of `v` without leading and trailing white space.
pub fn trim_chars(v: &Vec<char>) -> (w: Vec<char>)
    ensures
        w@ == trimmed(v@),
{
    let n = v.len();
    let mut a: usize = 0;
    while a < n && is_whitespace(v[a])
        invariant
            n == v@.len(),
            a <= n,
            skip_spaces(v@, 0) == skip_spaces(v@, a as int),
        decreases n - a,
    {
        a = a + 1;
    }
    if a >= n {
        return Vec::new();
    }
    let mut b: usize = n;
    while b > a + 1 && is_whitespace(v[b - 1])
        invariant
            n == v@.len(),
            a < n,
            a + 1 <= b <= n,
            !is_space(v@[a as int]),
            drop_trailing_spaces(v@, n as int) == drop_trailing_spaces(v@, b as int),
        decreases b,
    {
        b = b - 1;
    }
    assert(drop_trailing_spaces(v@, b as int) == b as int);
    subvec(v, a, b)
}

/// The first index at or after `from` where `v` holds `c` (`v.len()` if none).
pub fn find_char(v: &Vec<char>, c: char, from: usize) -> (r: usize)
    requires
        from <= v.len(),
    ensures
        r == index_of(v@, c, from as int),
        from <= r <= v.len(),
{
    let mut i = from;
    while i < v.len() && v[i] != c
        invariant
            from <= i <= v.len(),
            index_of(v@, c, from as int) == index_of(v@, c, i as int),
        decreases v.len() - i,
    {
        i = i + 1;
    }
    i
}

/// Whether `v[from..to]` equals `w`.
pub fn chars_equal(v: &Vec<char>, from: usize, to: usize, w: &Vec<char>) -> (b: bool)
    requires
        from <= to <= v.len(),
    ensures
        b == (v@.subrange(from as int, to as int) == w@),
{
    if to - from != w.len() {
        return false;
    }
    let r = has_prefix_at(v, from, to, w);
    assert(v@.subrange(from as int, to as int).subrange(0, w@.len() as int) =~= v@.subrange(
        from as int,
        to as int,
    ));
    r
}

} // verus!
