//! Lines, words and numbers in text.
use vstd::prelude::*;

use crate::text::{self, chars_of, same_chars, text_of, white};

verus! {

/// Where a text is cut.
#[derive(Clone, Copy, Debug, PartialEq, Eq, Structural)]
pub enum Cut {
    /// At each white space character.
    White,
    /// At each occurrence of this character.
    At(char),
}

/// Is the text cut at this character?
pub open spec fn cuts(cut: Cut, c: char) -> bool {
    match cut {
        Cut::White => text::is_white(c),
        Cut::At(d) => c == d,
    }
}

/// The pieces between the cuts, the empty ones among them. A text without a cut is
/// one piece.
pub open spec fn pieces_of(s: Seq<char>, cut: Cut) -> Seq<Seq<char>>
    decreases s.len(),
{
    if s.len() == 0 {
        seq![seq![]]
    } else {
        let before = pieces_of(s.drop_last(), cut);
        if cuts(cut, s.last()) {
            before.push(seq![])
        } else {
            before.drop_last().push(before.last().push(s.last()))
        }
    }
}

/// A text has at least one piece.
pub proof fn lemma_pieces_len(s: Seq<char>, cut: Cut)
    ensures
        pieces_of(s, cut).len() > 0,
    decreases s.len(),
{
    if s.len() > 0 {
        lemma_pieces_len(s.drop_last(), cut);
    }
}

/// The pieces between the cuts.
pub fn pieces(s: &str, cut: Cut) -> (r: Vec<String>)
    ensures
        text::texts(r@) == pieces_of(s@, cut),
        r@.len() > 0,
{
    let v: Vec<char> = chars_of(s);
    let mut done: Vec<String> = Vec::new();
    let mut cur: String = String::new();
    assert(v@.take(0) =~= seq![]);
    assert(text::texts(done@).push(cur@) =~= seq![seq![]]);
    for i in 0..v.len()
        invariant
            text::texts(done@).push(cur@) == pieces_of(v@.take(i as int), cut),
    {
        let c: char = v[i];
        let ghost all = text::texts(done@).push(cur@);
        proof {
            assert(v@.take(i + 1).drop_last() =~= v@.take(i as int));
            assert(v@.take(i + 1).last() == c);
        }
        let at: bool = match cut {
            Cut::White => white(c),
            Cut::At(d) => c == d,
        };
        if at {
            proof {
                text::lemma_texts_push(done@, cur);
            }
            done.push(cur);
            cur = String::new();
            assert(cur@ =~= seq![]);
        } else {
            proof {
                assert(all.drop_last() =~= text::texts(done@));
            }
            cur.push(c);
        }
    }
    proof {
        assert(v@.take(v@.len() as int) =~= v@);
        text::lemma_texts_push(done@, cur);
    }
    done.push(cur);
    done
}

/// A piece that is not empty.
pub open spec fn some_text() -> spec_fn(Seq<char>) -> bool {
    |p: Seq<char>| p.len() > 0
}

/// The words of a text: what stands between its white space.
pub open spec fn words_of(s: Seq<char>) -> Seq<Seq<char>> {
    pieces_of(s, Cut::White).filter(some_text())
}

/// The words of a text.
pub fn words(s: &str) -> (r: Vec<String>)
    ensures
        text::texts(r@) == words_of(s@),
{
    let all: Vec<String> = pieces(s, Cut::White);
    let mut out: Vec<String> = Vec::new();
    let ghost p = text::texts(all@);
    proof {
        reveal(Seq::filter);
        assert(p.take(0) =~= seq![]);
        assert(text::texts(out@) =~= seq![]);
    }
    for i in 0..all.len()
        invariant
            p == text::texts(all@),
            text::texts(out@) == p.take(i as int).filter(some_text()),
    {
        proof {
            reveal(Seq::filter);
            assert(p.take(i + 1).drop_last() =~= p.take(i as int));
            assert(p.take(i + 1).last() == all@[i as int]@);
            text::lemma_texts_push(out@, all@[i as int]);
        }
        if chars_of(all[i].as_str()).len() > 0 {
            out.push(all[i].clone());
            assert(text::texts(out@) =~= p.take(i + 1).filter(some_text()));
        }
    }
    assert(p.take(p.len() as int) =~= p);
    out
}

/// A line without the carriage return before its line feed.
pub open spec fn without_return(s: Seq<char>) -> Seq<char> {
    if s.len() > 0 && s.last() == '\r' {
        s.drop_last()
    } else {
        s
    }
}

/// The lines of a text. A line ends with a line feed or with a carriage return and a
/// line feed; the last one may lack them.
pub open spec fn lines_of(s: Seq<char>) -> Seq<Seq<char>> {
    let p = pieces_of(s, Cut::At('\n'));
    let ended = Seq::new((p.len() - 1) as nat, |i: int| without_return(p[i]));
    if p.last().len() == 0 {
        ended
    } else {
        ended.push(p.last())
    }
}

/// A line without the carriage return before its line feed.
fn strip_return(s: &str) -> (r: String)
    ensures
        r@ == without_return(s@),
{
    let v: Vec<char> = chars_of(s);
    if v.len() > 0 && v[v.len() - 1] == '\r' {
        let head: &[char] = vstd::slice::slice_subrange(v.as_slice(), 0, v.len() - 1);
        assert(head@ =~= v@.drop_last());
        text_of(head)
    } else {
        s.to_owned()
    }
}

/// The lines of a text.
pub fn lines(s: &str) -> (r: Vec<String>)
    ensures
        text::texts(r@) == lines_of(s@),
{
    let p: Vec<String> = pieces(s, Cut::At('\n'));
    let ghost all = pieces_of(s@, Cut::At('\n'));
    let ghost ended = Seq::new((all.len() - 1) as nat, |i: int| without_return(all[i]));
    let n: usize = p.len() - 1;
    let mut out: Vec<String> = Vec::new();
    for i in 0..n
        invariant
            n + 1 == p@.len(),
            all == text::texts(p@),
            ended == Seq::new((all.len() - 1) as nat, |i: int| without_return(all[i])),
            text::texts(out@) =~= ended.take(i as int),
    {
        let l: String = strip_return(p[i].as_str());
        proof {
            assert(all[i as int] == p@[i as int]@);
            text::lemma_texts_push(out@, l);
        }
        out.push(l);
    }
    proof {
        assert(all.last() == p@[n as int]@);
        assert(ended.take(n as int) =~= ended);
    }
    if chars_of(p[n].as_str()).len() > 0 {
        proof {
            text::lemma_texts_push(out@, p@[n as int]);
        }
        let l: String = p[n].clone();
        out.push(l);
        assert(text::texts(out@) =~= ended.push(all.last()));
    }
    out
}

/// Where a character first stands in a text; the text's length where it does not.
pub open spec fn first_of(s: Seq<char>, c: char) -> int
    decreases s.len(),
{
    if s.len() == 0 || s[0] == c {
        0
    } else {
        1 + first_of(s.skip(1), c)
    }
}

/// The two parts of a text around the first occurrence of a character.
pub open spec fn parted(s: Seq<char>, c: char) -> Option<(Seq<char>, Seq<char>)> {
    let i = first_of(s, c);
    if i < s.len() {
        Some((s.take(i), s.skip(i + 1)))
    } else {
        None
    }
}

/// Texts of a pair.
pub open spec fn pair_text(p: Option<(String, String)>) -> Option<(Seq<char>, Seq<char>)> {
    match p {
        Some((a, b)) => Some((a@, b@)),
        None => None,
    }
}

/// The two parts of a text around the first occurrence of a character.
pub fn split_once(s: &str, c: char) -> (r: Option<(String, String)>)
    ensures
        pair_text(r) == parted(s@, c),
{
    let v: Vec<char> = chars_of(s);
    let mut i: usize = 0;
    assert(v@.skip(0) =~= v@);
    while i < v.len() && v[i] != c
        invariant
            i <= v@.len(),
            first_of(v@, c) == i + first_of(v@.skip(i as int), c),
        decreases v@.len() - i,
    {
        assert(v@.skip(i as int).skip(1) =~= v@.skip(i + 1));
        i = i + 1;
    }
    if i < v.len() {
        let a: &[char] = vstd::slice::slice_subrange(v.as_slice(), 0, i);
        let b: &[char] = vstd::slice::slice_subrange(v.as_slice(), i + 1, v.len());
        proof {
            assert(a@ =~= v@.take(i as int));
            assert(b@ =~= v@.skip(i + 1));
        }
        Some((text_of(a), text_of(b)))
    } else {
        None
    }
}

/// A text starts with another one.
pub open spec fn starts(s: Seq<char>, p: Seq<char>) -> bool {
    p.len() <= s.len() && s.take(p.len() as int) == p
}

/// What follows `p` in a text that starts with it.
pub open spec fn after(s: Seq<char>, p: Seq<char>) -> Option<Seq<char>> {
    if starts(s, p) {
        Some(s.skip(p.len() as int))
    } else {
        None
    }
}

/// What follows `p` in a text that starts with it.
pub fn strip_prefix(s: &str, p: &str) -> (r: Option<String>)
    ensures
        text::opt_text(r) == after(s@, p@),
{
    let v: Vec<char> = chars_of(s);
    let w: Vec<char> = chars_of(p);
    if w.len() > v.len() {
        return None;
    }
    let head: &[char] = vstd::slice::slice_subrange(v.as_slice(), 0, w.len());
    assert(head@ =~= v@.take(w@.len() as int));
    if same_chars(head, w.as_slice()) {
        let tail: &[char] = vstd::slice::slice_subrange(v.as_slice(), w.len(), v.len());
        assert(tail@ =~= v@.skip(w@.len() as int));
        Some(text_of(tail))
    } else {
        None
    }
}

/// Does a text start with another one?
pub fn starts_with(s: &str, p: &str) -> (r: bool)
    ensures
        r == starts(s@, p@),
{
    strip_prefix(s, p).is_some()
}

/// `n` stands in `s` at `i`.
pub open spec fn stands_at(s: Seq<char>, n: Seq<char>, i: int) -> bool {
    0 <= i <= s.len() - n.len() && s.subrange(i, i + n.len()) == n
}

/// `n` stands somewhere in `s`.
pub open spec fn occurs(s: Seq<char>, n: Seq<char>) -> bool {
    exists|i: int| #[trigger] stands_at(s, n, i)
}

/// Does `n` stand somewhere in `s`?
pub fn contains(s: &str, n: &str) -> (r: bool)
    ensures
        r == occurs(s@, n@),
{
    let v: Vec<char> = chars_of(s);
    let w: Vec<char> = chars_of(n);
    if w.len() > v.len() {
        return false;
    }
    let last: usize = v.len() - w.len();
    let mut i: usize = 0;
    loop
        invariant
            v@ == s@,
            w@ == n@,
            last == v@.len() - w@.len(),
            last + w@.len() <= usize::MAX,
            i <= last,
            forall|j: int| 0 <= j < i ==> !stands_at(v@, w@, j),
        decreases last - i,
    {
        let part: &[char] = vstd::slice::slice_subrange(v.as_slice(), i, i + w.len());
        if same_chars(part, w.as_slice()) {
            assert(stands_at(v@, w@, i as int));
            return true;
        }
        assert(!stands_at(v@, w@, i as int));
        if i == last {
            return false;
        }
        i = i + 1;
    }
}

/// A character in ASCII lower case.
pub open spec fn lowered(c: char) -> char {
    if 'A' <= c <= 'Z' {
        ((c as int) + 32) as char
    } else {
        c
    }
}

/// A text in ASCII lower case.
pub open spec fn ascii_lower_of(s: Seq<char>) -> Seq<char> {
    s.map_values(|c: char| lowered(c))
}

/// A text in ASCII lower case.
pub fn ascii_lower(s: &str) -> (r: String)
    ensures
        r@ == ascii_lower_of(s@),
{
    let v: Vec<char> = chars_of(s);
    let mut out: String = String::new();
    for i in 0..v.len()
        invariant
            out@ =~= ascii_lower_of(v@).take(i as int),
    {
        let c: char = v[i];
        if 'A' <= c && c <= 'Z' {
            out.push((c as u8 + 32) as char);
        } else {
            out.push(c);
        }
    }
    assert(ascii_lower_of(v@).take(v@.len() as int) =~= ascii_lower_of(v@));
    out
}

/// An ASCII digit.
pub open spec fn is_digit(c: char) -> bool {
    '0' <= c <= '9'
}

/// Only ASCII digits.
pub open spec fn all_digits(s: Seq<char>) -> bool {
    forall|i: int| 0 <= i < s.len() ==> is_digit(#[trigger] s[i])
}

/// The number that some digits write.
pub open spec fn number_of(s: Seq<char>) -> nat
    decreases s.len(),
{
    if s.len() == 0 {
        0
    } else {
        10 * number_of(s.drop_last()) + (s.last() as nat - '0' as nat) as nat
    }
}

/// The number that a text writes: digits, after a sign where it has one. A minus sign
/// stands only before numbers of a type that has negative values; a number outside of
/// the type's bounds is none.
pub open spec fn parsed(s: Seq<char>, lo: int, hi: int) -> Option<int> {
    let minus = s.len() > 1 && s[0] == '-' && lo < 0;
    let plus = s.len() > 1 && s[0] == '+';
    let digits = if minus || plus {
        s.skip(1)
    } else {
        s
    };
    let n = if minus {
        -(number_of(digits) as int)
    } else {
        number_of(digits) as int
    };
    if digits.len() > 0 && all_digits(digits) && lo <= n <= hi {
        Some(n)
    } else {
        None
    }
}

/// The number that some digits write, where it is at most 2^64; `None` where they are
/// no digits or it is larger.
fn read_digits(v: &[char]) -> (r: Option<u128>)
    ensures
        match r {
            Some(n) => v@.len() > 0 && all_digits(v@) && n == number_of(v@) && n
                <= 0x1_0000_0000_0000_0000,
            None => v@.len() == 0 || !all_digits(v@) || number_of(v@) > 0x1_0000_0000_0000_0000,
        },
{
    if v.len() == 0 {
        return None;
    }
    let mut n: u128 = 0;
    let mut big: bool = false;
    for i in 0..v.len()
        invariant
            forall|j: int| 0 <= j < i ==> is_digit(#[trigger] v@[j]),
            !big ==> n == number_of(v@.take(i as int)),
            n <= 0x1_0000_0000_0000_0000,
            big ==> number_of(v@.take(i as int)) > 0x1_0000_0000_0000_0000,
    {
        let c: char = v[i];
        proof {
            assert(v@.take(i + 1).drop_last() =~= v@.take(i as int));
            assert(v@.take(i + 1).last() == c);
        }
        if !('0' <= c && c <= '9') {
            assert(!is_digit(v@[i as int]));
            return None;
        }
        let d: u128 = (c as u32 - '0' as u32) as u128;
        if !big {
            let next: u128 = 10 * n + d;
            if next > 0x1_0000_0000_0000_0000 {
                big = true;
            } else {
                n = next;
            }
        }
    }
    assert(v@.take(v@.len() as int) =~= v@);
    if big {
        None
    } else {
        Some(n)
    }
}

/// The number that a text writes.
pub fn parse(s: &str, lo: i128, hi: i128) -> (r: Option<i128>)
    requires
        -0x1_0000_0000_0000_0000 <= lo,
        hi <= 0x1_0000_0000_0000_0000,
    ensures
        match r {
            Some(n) => parsed(s@, lo as int, hi as int) == Some(n as int),
            None => parsed(s@, lo as int, hi as int) is None,
        },
{
    let v: Vec<char> = chars_of(s);
    let minus: bool = v.len() > 1 && v[0] == '-' && lo < 0;
    let plus: bool = v.len() > 1 && v[0] == '+';
    let start: usize = if minus || plus {
        1
    } else {
        0
    };
    let digits: &[char] = vstd::slice::slice_subrange(v.as_slice(), start, v.len());
    proof {
        if minus || plus {
            assert(digits@ =~= v@.skip(1));
        } else {
            assert(digits@ =~= v@);
        }
    }
    match read_digits(digits) {
        Some(n) => {
            let k: i128 = if minus {
                -(n as i128)
            } else {
                n as i128
            };
            if lo <= k && k <= hi {
                Some(k)
            } else {
                None
            }
        },
        None => None,
    }
}

/// A whole number of 32 bits.
pub fn parse_i32(s: &str) -> (r: Option<i32>)
    ensures
        match r {
            Some(n) => parsed(s@, i32::MIN as int, i32::MAX as int) == Some(n as int),
            None => parsed(s@, i32::MIN as int, i32::MAX as int) is None,
        },
{
    match parse(s, i32::MIN as i128, i32::MAX as i128) {
        Some(n) => Some(n as i32),
        None => None,
    }
}

/// A natural number up to a bound.
pub fn parse_up_to(s: &str, hi: u64) -> (r: Option<u64>)
    ensures
        match r {
            Some(n) => parsed(s@, 0, hi as int) == Some(n as int),
            None => parsed(s@, 0, hi as int) is None,
        },
{
    match parse(s, 0, hi as i128) {
        Some(n) => Some(n as u64),
        None => None,
    }
}

/// What decimal writes is read back.
pub proof fn law_decimal_is_read_back(n: nat, hi: nat)
    requires
        n <= hi,
    ensures
        parsed(text::decimal_of(n), 0, hi as int) == Some(n as int),
{
    lemma_decimal(n);
    let s = text::decimal_of(n);
    assert(is_digit(s[0]));
}

/// A decimal is made of digits and writes its number.
proof fn lemma_decimal(n: nat)
    ensures
        text::decimal_of(n).len() > 0,
        all_digits(text::decimal_of(n)),
        number_of(text::decimal_of(n)) == n,
    decreases n,
{
    let s = text::decimal_of(n);
    if n < 10 {
        assert(s.drop_last() =~= seq![]);
        assert(number_of(s.drop_last()) == 0);
    } else {
        lemma_decimal(n / 10);
        assert(s.drop_last() =~= text::decimal_of(n / 10));
    }
}

} // verus!
