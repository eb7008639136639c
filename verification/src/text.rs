//! Text as sequences of characters.
use vstd::prelude::*;

verus! {

/// `String::push`: appends one character.
pub assume_specification[ String::push ](s: &mut String, c: char)
    ensures
        final(s)@ == old(s)@.push(c),
;

/// What a list of strings says.
pub open spec fn texts(v: Seq<String>) -> Seq<Seq<char>> {
    v.map_values(|s: String| s@)
}

/// The text in an optional string.
pub open spec fn opt_text(s: Option<String>) -> Option<Seq<char>> {
    match s {
        Some(t) => Some(t@),
        None => None,
    }
}

/// Are two texts the same?
pub fn same_text(a: &str, b: &str) -> (r: bool)
    ensures
        r == (a@ == b@),
{
    a.to_owned() == b.to_owned()
}

/// Does the optional text say `b`?
pub fn is_text(a: &Option<String>, b: &str) -> (r: bool)
    ensures
        r == (opt_text(*a) == Some(b@)),
{
    match a {
        Some(s) => same_text(s.as_str(), b),
        None => false,
    }
}

/// A copy of an optional text.
pub fn copy_opt(a: &Option<String>) -> (r: Option<String>)
    ensures
        opt_text(r) == opt_text(*a),
{
    match a {
        Some(s) => Some(s.clone()),
        None => None,
    }
}

/// A copy of a list of texts.
pub fn copy_texts(v: &Vec<String>) -> (r: Vec<String>)
    ensures
        texts(r@) == texts(v@),
{
    let mut out: Vec<String> = Vec::new();
    for i in 0..v.len()
        invariant
            texts(out@) =~= texts(v@).take(i as int),
    {
        proof {
            lemma_texts_push(out@, v@[i as int]);
            assert(texts(v@)[i as int] == v@[i as int]@);
        }
        out.push(v[i].clone());
    }
    out
}

/// One more string says one more text.
pub proof fn lemma_texts_push(v: Seq<String>, s: String)
    ensures
        texts(v.push(s)) == texts(v).push(s@),
{
    assert(texts(v.push(s)) =~= texts(v).push(s@));
}

/// Is `s` one of the texts?
pub fn has_text(v: &Vec<String>, s: &str) -> (r: bool)
    ensures
        r == texts(v@).contains(s@),
{
    for i in 0..v.len()
        invariant
            forall|j: int| 0 <= j < i ==> texts(v@)[j] != s@,
    {
        if same_text(v[i].as_str(), s) {
            assert(texts(v@)[i as int] == s@);
            return true;
        }
    }
    false
}

/// The characters of a text.
pub fn chars_of(s: &str) -> (r: Vec<char>)
    ensures
        r@ == s@,
{
    let mut out: Vec<char> = Vec::new();
    for c in it: s.chars()
        invariant
            out@ == it.seq().take(it.index() as int),
            it.seq() == s@,
    {
        out.push(c);
    }
    out
}

/// The text of some characters.
pub fn text_of(v: &[char]) -> (r: String)
    ensures
        r@ == v@,
{
    let mut out: String = String::new();
    for i in 0..v.len()
        invariant
            out@ == v@.take(i as int),
    {
        out.push(v[i]);
    }
    assert(v@.take(v@.len() as int) =~= v@);
    out
}

/// Two texts after one another.
pub fn joined(a: &str, b: &str) -> (r: String)
    ensures
        r@ == a@ + b@,
{
    a.to_owned().concat(b)
}

/// The character of a decimal digit.
pub open spec fn digit(d: int) -> char {
    (('0' as int) + d) as char
}

/// `n` in decimal, without leading zeros.
pub open spec fn decimal_of(n: nat) -> Seq<char>
    decreases n,
{
    if n < 10 {
        seq![digit(n as int)]
    } else {
        decimal_of(n / 10).push(digit((n % 10) as int))
    }
}

/// The character of a decimal digit.
pub fn digit_char(d: u8) -> (r: char)
    requires
        d < 10,
    ensures
        r == digit(d as int),
{
    ('0' as u8 + d) as char
}

/// `n` in decimal, without leading zeros.
pub fn decimal(n: u64) -> (r: String)
    ensures
        r@ == decimal_of(n as nat),
    decreases n,
{
    if n < 10 {
        let mut s: String = String::new();
        s.push(digit_char(n as u8));
        assert(s@ =~= seq![digit(n as int)]);
        s
    } else {
        let mut s: String = decimal(n / 10);
        s.push(digit_char((n % 10) as u8));
        s
    }
}

/// `s` without the suffix `end`, taken off as often as it stands there.
pub open spec fn without_ends(s: Seq<char>, end: Seq<char>) -> Seq<char>
    decreases s.len(),
{
    if 0 < end.len() <= s.len() && s.skip(s.len() - end.len()) == end {
        without_ends(s.take(s.len() - end.len()), end)
    } else {
        s
    }
}

/// `s` without the suffix `end`, taken off as often as it stands there.
pub fn strip_ends(s: &str, end: &str) -> (r: String)
    ensures
        r@ == without_ends(s@, end@),
{
    let v: Vec<char> = chars_of(s);
    let e: Vec<char> = chars_of(end);
    let mut n: usize = v.len();
    assert(v@.take(n as int) =~= v@);
    while 0 < e.len() && e.len() <= n && same_chars(
        vstd::slice::slice_subrange(v.as_slice(), n - e.len(), n),
        e.as_slice(),
    )
        invariant
            n <= v@.len(),
            without_ends(v@, e@) == without_ends(v@.take(n as int), e@),
        decreases n,
    {
        proof {
            let cur = v@.take(n as int);
            assert(cur.skip(cur.len() - e@.len()) =~= v@.subrange(n - e@.len(), n as int));
            assert(cur.take(cur.len() - e@.len()) =~= v@.take(n - e@.len()));
        }
        n = n - e.len();
    }
    proof {
        let cur = v@.take(n as int);
        if 0 < e@.len() <= n {
            assert(cur.skip(cur.len() - e@.len()) =~= v@.subrange(n - e@.len(), n as int));
        }
    }
    let head: &[char] = vstd::slice::slice_subrange(v.as_slice(), 0, n);
    assert(head@ =~= v@.take(n as int));
    text_of(head)
}

/// Are two runs of characters the same?
pub fn same_chars(a: &[char], b: &[char]) -> (r: bool)
    ensures
        r == (a@ == b@),
{
    if a.len() != b.len() {
        return false;
    }
    for i in 0..a.len()
        invariant
            a@.len() == b@.len(),
            forall|j: int| 0 <= j < i ==> a@[j] == b@[j],
    {
        if a[i] != b[i] {
            return false;
        }
    }
    assert(a@ =~= b@);
    true
}

/// `s` with every `from` replaced by `to`.
pub open spec fn with_char(s: Seq<char>, from: char, to: char) -> Seq<char> {
    s.map_values(
        |c: char|
            if c == from {
                to
            } else {
                c
            },
    )
}

/// `s` with every `from` replaced by `to`.
pub fn replace_char(s: &str, from: char, to: char) -> (r: String)
    ensures
        r@ == with_char(s@, from, to),
{
    let v: Vec<char> = chars_of(s);
    let mut out: String = String::new();
    for i in 0..v.len()
        invariant
            out@ =~= with_char(v@, from, to).take(i as int),
    {
        let c: char = v[i];
        if c == from {
            out.push(to);
        } else {
            out.push(c);
        }
    }
    assert(with_char(v@, from, to).take(v@.len() as int) =~= with_char(v@, from, to));
    out
}

/// White space, by the Unicode property of that name.
pub open spec fn is_white(c: char) -> bool {
    ||| '\u{9}' <= c <= '\u{d}'
    ||| c == ' '
    ||| c == '\u{85}'
    ||| c == '\u{a0}'
    ||| c == '\u{1680}'
    ||| '\u{2000}' <= c <= '\u{200a}'
    ||| c == '\u{2028}'
    ||| c == '\u{2029}'
    ||| c == '\u{202f}'
    ||| c == '\u{205f}'
    ||| c == '\u{3000}'
}

/// Is this white space?
pub fn white(c: char) -> (r: bool)
    ensures
        r == is_white(c),
{
    ('\u{9}' <= c && c <= '\u{d}') || c == ' ' || c == '\u{85}' || c == '\u{a0}' || c == '\u{1680}'
        || ('\u{2000}' <= c && c <= '\u{200a}') || c == '\u{2028}' || c == '\u{2029}' || c
        == '\u{202f}' || c == '\u{205f}' || c == '\u{3000}'
}

/// A text without the white space at its start.
pub open spec fn trimmed_start(s: Seq<char>) -> Seq<char>
    decreases s.len(),
{
    if s.len() > 0 && is_white(s[0]) {
        trimmed_start(s.skip(1))
    } else {
        s
    }
}

/// A text without the white space at its end.
pub open spec fn trimmed_end(s: Seq<char>) -> Seq<char>
    decreases s.len(),
{
    if s.len() > 0 && is_white(s.last()) {
        trimmed_end(s.drop_last())
    } else {
        s
    }
}

/// A text without the white space at its two ends.
pub open spec fn trimmed(s: Seq<char>) -> Seq<char> {
    trimmed_end(trimmed_start(s))
}

/// Some characters without the white space at their two ends.
pub fn trim_chars(v: &[char]) -> (r: &[char])
    ensures
        r@ == trimmed(v@),
{
    let mut a: usize = 0;
    assert(v@.skip(0) =~= v@);
    while a < v.len() && white(v[a])
        invariant
            a <= v@.len(),
            trimmed_start(v@) == trimmed_start(v@.skip(a as int)),
        decreases v@.len() - a,
    {
        assert(v@.skip(a as int).skip(1) =~= v@.skip(a + 1));
        a = a + 1;
    }
    let ghost rest = v@.skip(a as int);
    let mut b: usize = v.len();
    assert(v@.subrange(a as int, b as int) =~= rest);
    while b > a && white(v[b - 1])
        invariant
            a <= b <= v@.len(),
            rest == v@.skip(a as int),
            trimmed_end(rest) == trimmed_end(v@.subrange(a as int, b as int)),
        decreases b,
    {
        assert(v@.subrange(a as int, b as int).drop_last() =~= v@.subrange(a as int, b - 1));
        b = b - 1;
    }
    vstd::slice::slice_subrange(v, a, b)
}

/// A text without the white space at its two ends.
pub fn trim(s: &str) -> (r: String)
    ensures
        r@ == trimmed(s@),
{
    let v: Vec<char> = chars_of(s);
    text_of(trim_chars(v.as_slice()))
}

/// A text without the white space at its start.
pub fn trim_start(s: &str) -> (r: String)
    ensures
        r@ == trimmed_start(s@),
{
    let v: Vec<char> = chars_of(s);
    let mut a: usize = 0;
    assert(v@.skip(0) =~= v@);
    while a < v.len() && white(v[a])
        invariant
            a <= v@.len(),
            trimmed_start(v@) == trimmed_start(v@.skip(a as int)),
        decreases v@.len() - a,
    {
        assert(v@.skip(a as int).skip(1) =~= v@.skip(a + 1));
        a = a + 1;
    }
    let rest: &[char] = vstd::slice::slice_subrange(v.as_slice(), a, v.len());
    assert(rest@ =~= v@.skip(a as int));
    text_of(rest)
}

/// Does the text hold this character?
pub fn has_char(s: &str, c: char) -> (r: bool)
    ensures
        r == s@.contains(c),
{
    let v: Vec<char> = chars_of(s);
    for i in 0..v.len()
        invariant
            v@ == s@,
            forall|j: int| 0 <= j < i ==> v@[j] != c,
    {
        if v[i] == c {
            return true;
        }
    }
    false
}

} // verus!
