//! Text as a sequence of characters: the few string operations the rest of the
//! library needs, each stated over `Seq<char>`.

use vstd::prelude::*;
use vstd::string::*;

verus! {

/// `String::push` appends one character to the end of the string and changes
/// nothing else.
pub assume_specification[ std::string::String::push ](s: &mut std::string::String, c: char)
    ensures
        final(s)@ == old(s)@.push(c),
;

/// The characters with the Unicode property `White_Space`.
pub open spec fn is_space(c: char) -> bool {
    ||| '\u{9}' <= c <= '\u{d}'
    ||| c == ' '
    ||| c == '\u{85}'
    ||| c == '\u{a0}'
    ||| c == '\u{1680}'
    ||| '\u{2000}' <= c <= '\u{200a}'
    ||| c == '\u{2028}'
    ||| c == '\u{2029}'
    ||| c == '\u{202f}'
    ||| c == '\u{205f}'
    ||| c == '\u{3000}'
}

/// `s` without its leading white space.
pub open spec fn trim_start(s: Seq<char>) -> Seq<char>
    decreases s.len(),
{
    if s.len() > 0 && is_space(s.first()) {
        trim_start(s.drop_first())
    } else {
        s
    }
}

/// `s` without its trailing white space.
pub open spec fn trim_end(s: Seq<char>) -> Seq<char>
    decreases s.len(),
{
    if s.len() > 0 && is_space(s.last()) {
        trim_end(s.drop_last())
    } else {
        s
    }
}

/// `s` without white space at either end.
pub open spec fn trimmed(s: Seq<char>) -> Seq<char> {
    trim_end(trim_start(s))
}

/// `needle` stands in `s` at position `at`.
pub open spec fn occurs_at(s: Seq<char>, needle: Seq<char>, at: int) -> bool {
    0 <= at && at + needle.len() <= s.len() && s.subrange(at, at + needle.len()) == needle
}

/// `needle` stands somewhere in `s`.
pub open spec fn text_has(s: Seq<char>, needle: Seq<char>) -> bool {
    exists|at: int| #[trigger] occurs_at(s, needle, at)
}

/// An upper-case ASCII letter in lower case, any other character unchanged.
pub open spec fn ascii_lower(c: char) -> char {
    if 'A' <= c <= 'Z' {
        (c as u32 + 32) as char
    } else {
        c
    }
}

/// `s` with its ASCII letters in lower case.
pub open spec fn ascii_lowered(s: Seq<char>) -> Seq<char> {
    s.map_values(|c: char| ascii_lower(c))
}

/// How many characters stand before the first `c`; all of them where there is none.
pub open spec fn position(s: Seq<char>, c: char) -> nat
    decreases s.len(),
{
    if s.len() == 0 || s[0] == c {
        0
    } else {
        1 + position(s.drop_first(), c)
    }
}

/// The pieces one after the other with `separator` between them.
pub open spec fn joined(pieces: Seq<Seq<char>>, separator: Seq<char>) -> Seq<char>
    decreases pieces.len(),
{
    if pieces.len() == 0 {
        Seq::empty()
    } else if pieces.len() == 1 {
        pieces[0]
    } else {
        joined(pieces.drop_last(), separator) + separator + pieces.last()
    }
}

/// The characters of a list of strings, string by string.
pub open spec fn views(strings: Seq<String>) -> Seq<Seq<char>> {
    strings.map_values(|s: String| s@)
}

/// The view of an optional string.
pub open spec fn opt_view(s: Option<String>) -> Option<Seq<char>> {
    match s {
        Some(text) => Some(text@),
        None => None,
    }
}

/// The digit character of a number below ten.
pub open spec fn digit(n: nat) -> char {
    (('0' as u32) + n) as char
}

/// `n` in decimal digits, without leading zeros.
pub open spec fn decimal(n: nat) -> Seq<char>
    decreases n,
{
    if n < 10 {
        seq![digit(n)]
    } else {
        decimal(n / 10).push(digit(n % 10))
    }
}

/// `a` comes before `b` in the order of their code points.
pub open spec fn precedes(a: Seq<char>, b: Seq<char>) -> bool
    decreases a.len(),
{
    if b.len() == 0 {
        false
    } else if a.len() == 0 {
        true
    } else if a[0] != b[0] {
        a[0] < b[0]
    } else {
        precedes(a.drop_first(), b.drop_first())
    }
}

/// What `{:?}` writes for a text: the text between double quotes, with the escapes
/// of a Rust string literal.
pub uninterp spec fn debug_quoted(text: Seq<char>) -> Seq<char>;

/// Formats the text with `{:?}`. The result is named `debug_quoted`: it depends on
/// the text alone.
#[verifier::external_body]
pub(crate) fn quoted(text: &str) -> (r: String)
    ensures
        r@ == debug_quoted(text@),
{
    format!("{text:?}")
}

/// Whether `c` is white space.
pub fn space(c: char) -> (b: bool)
    ensures
        b == is_space(c),
{
    ('\u{9}' <= c && c <= '\u{d}') || c == ' ' || c == '\u{85}' || c == '\u{a0}' || c == '\u{1680}'
        || ('\u{2000}' <= c && c <= '\u{200a}') || c == '\u{2028}' || c == '\u{2029}' || c
        == '\u{202f}' || c == '\u{205f}' || c == '\u{3000}'
}

/// The characters of `s`.
pub fn characters(s: &str) -> (v: Vec<char>)
    ensures
        v@ == s@,
{
    let mut v: Vec<char> = Vec::new();
    for c in it: s.chars()
        invariant
            v@ == s@.take(it.index()),
            it.seq() == s@,
    {
        proof {
            assert(s@.take(it.index() + 1) == s@.take(it.index()).push(c));
        }
        v.push(c);
    }
    proof {
        assert(s@.take(s@.len() as int) == s@);
    }
    v
}

/// The string made of the characters `chars[from..to]`.
pub fn text_of(chars: &Vec<char>, from: usize, to: usize) -> (s: String)
    requires
        from <= to <= chars@.len(),
    ensures
        s@ == chars@.subrange(from as int, to as int),
{
    let mut s = String::new();
    let mut i: usize = from;
    while i < to
        invariant
            from <= i <= to <= chars@.len(),
            s@ == chars@.subrange(from as int, i as int),
        decreases to - i,
    {
        s.push(chars[i]);
        i += 1;
        proof {
            assert(chars@.subrange(from as int, i as int) == chars@.subrange(
                from as int,
                i - 1,
            ).push(chars@[i - 1]));
        }
    }
    s
}

/// Whether two strings hold the same characters.
pub fn same_text(a: &str, b: &str) -> (r: bool)
    ensures
        r == (a@ == b@),
{
    let left = characters(a);
    let right = characters(b);
    if left.len() != right.len() {
        return false;
    }
    let mut i: usize = 0;
    while i < left.len()
        invariant
            i <= left@.len(),
            left@.len() == right@.len(),
            left@ == a@,
            right@ == b@,
            forall|j: int| 0 <= j < i ==> left@[j] == right@[j],
        decreases left@.len() - i,
    {
        if left[i] != right[i] {
            return false;
        }
        i += 1;
    }
    proof {
        assert(left@ == right@);
    }
    true
}

proof fn lemma_trim_start_step(s: Seq<char>, i: int)
    requires
        0 <= i < s.len(),
        is_space(s[i]),
    ensures
        trim_start(s.skip(i)) == trim_start(s.skip(i + 1)),
{
    assert(s.skip(i).drop_first() == s.skip(i + 1));
}

/// `s` without white space at either end.
pub fn trim<'a>(s: &'a str) -> (r: &'a str)
    ensures
        r@ == trimmed(s@),
{
    let chars = characters(s);
    let n: usize = chars.len();
    let mut from: usize = 0;
    proof {
        assert(chars@.skip(0) == chars@);
    }
    while from < n && space(chars[from])
        invariant
            from <= n,
            n == chars@.len(),
            trim_start(chars@.skip(from as int)) == trim_start(chars@),
        decreases n - from,
    {
        proof {
            lemma_trim_start_step(chars@, from as int);
        }
        from += 1;
    }
    let mut to: usize = n;
    proof {
        assert(trim_start(chars@) == chars@.skip(from as int));
        assert(chars@.skip(from as int) == chars@.subrange(from as int, to as int));
    }
    while from < to && space(chars[to - 1])
        invariant
            from <= to <= n,
            n == chars@.len(),
            trim_end(chars@.subrange(from as int, to as int)) == trim_end(
                chars@.skip(from as int),
            ),
        decreases to - from,
    {
        proof {
            let whole = chars@.subrange(from as int, to as int);
            assert(whole.drop_last() == chars@.subrange(from as int, to - 1));
            assert(whole.last() == chars@[to - 1]);
        }
        to -= 1;
    }
    s.substring_char(from, to)
}

/// `s` without white space at its end.
pub fn trim_tail<'a>(s: &'a str) -> (r: &'a str)
    ensures
        r@ == trim_end(s@),
{
    let chars = characters(s);
    let n: usize = chars.len();
    let mut to: usize = n;
    proof {
        assert(chars@.take(n as int) == chars@);
    }
    while to > 0 && space(chars[to - 1])
        invariant
            to <= n,
            n == chars@.len(),
            trim_end(chars@.take(to as int)) == trim_end(chars@),
        decreases to,
    {
        proof {
            let whole = chars@.take(to as int);
            assert(whole.drop_last() == chars@.take(to - 1));
            assert(whole.last() == chars@[to - 1]);
        }
        to -= 1;
    }
    let r = s.substring_char(0, to);
    proof {
        assert(r@ =~= chars@.take(to as int));
    }
    r
}

/// Whether `s` ends in `tail`.
pub fn ends_with(s: &str, tail: &str) -> (r: bool)
    ensures
        r == tail@.is_suffix_of(s@),
{
    let chars = characters(s);
    let pattern = characters(tail);
    if pattern.len() > chars.len() {
        return false;
    }
    let at: usize = chars.len() - pattern.len();
    stands_at(&chars, &pattern, at)
}

/// The first `c` stands right behind the characters that are not `c`.
pub proof fn lemma_position(s: Seq<char>, c: char)
    ensures
        position(s, c) <= s.len(),
        forall|i: int| 0 <= i < position(s, c) ==> s[i] != c,
        position(s, c) < s.len() ==> s[position(s, c) as int] == c,
        s.contains(c) <==> position(s, c) < s.len(),
    decreases s.len(),
{
    if s.len() > 0 && s[0] != c {
        let rest = s.drop_first();
        lemma_position(rest, c);
        assert forall|i: int| 0 <= i < position(s, c) implies s[i] != c by {
            if i > 0 {
                assert(rest[i - 1] == s[i]);
            }
        }
        if s.contains(c) {
            let i = choose|i: int| 0 <= i < s.len() && s[i] == c;
            assert(rest[i - 1] == c);
        }
    }
}

/// Where the first `c` stands is told by what stands before it.
pub proof fn lemma_position_unique(s: Seq<char>, c: char, p: int)
    requires
        0 <= p <= s.len(),
        forall|i: int| 0 <= i < p ==> s[i] != c,
        p < s.len() ==> s[p] == c,
    ensures
        position(s, c) == p,
{
    lemma_position(s, c);
}

/// Text without white space at its ends is what trimming leaves.
pub proof fn lemma_trimmed(s: Seq<char>)
    ensures
        trimmed(s).len() > 0 ==> !is_space(trimmed(s).first()) && !is_space(trimmed(s).last()),
        s.len() > 0 && !is_space(s.first()) && !is_space(s.last()) ==> trimmed(s) == s,
{
    lemma_trim_start(s);
    lemma_trim_end(trim_start(s));
}

proof fn lemma_trim_start(s: Seq<char>)
    ensures
        trim_start(s).len() > 0 ==> !is_space(trim_start(s).first()),
    decreases s.len(),
{
    if s.len() > 0 && is_space(s.first()) {
        lemma_trim_start(s.drop_first());
    }
}

proof fn lemma_trim_end(s: Seq<char>)
    ensures
        trim_end(s).len() > 0 ==> !is_space(trim_end(s).last()) && trim_end(s).first() == s.first(),
    decreases s.len(),
{
    if s.len() > 0 && is_space(s.last()) {
        lemma_trim_end(s.drop_last());
    }
}

/// How many characters stand before the first `c`; all of them where there is none.
pub fn position_of(chars: &Vec<char>, c: char) -> (p: usize)
    ensures
        p == position(chars@, c),
{
    let mut i: usize = 0;
    while i < chars.len() && chars[i] != c
        invariant
            i <= chars@.len(),
            forall|j: int| 0 <= j < i ==> chars@[j] != c,
        decreases chars@.len() - i,
    {
        i += 1;
    }
    proof {
        lemma_position_unique(chars@, c, i as int);
    }
    i
}

/// Whether `chars` has `needle` at position `at`.
fn stands_at(chars: &Vec<char>, needle: &Vec<char>, at: usize) -> (r: bool)
    requires
        at + needle@.len() <= chars@.len(),
    ensures
        r == occurs_at(chars@, needle@, at as int),
{
    let n: usize = chars.len();
    let mut i: usize = 0;
    while i < needle.len()
        invariant
            n == chars@.len(),
            at + needle@.len() <= n,
            i <= needle@.len(),
            forall|j: int| 0 <= j < i ==> chars@[at + j] == needle@[j],
        decreases needle@.len() - i,
    {
        if chars[at + i] != needle[i] {
            proof {
                assert(chars@.subrange(at as int, at + needle@.len())[i as int] != needle@[i as int]);
            }
            return false;
        }
        i += 1;
    }
    proof {
        assert(chars@.subrange(at as int, at + needle@.len()) == needle@);
    }
    true
}

/// Whether `needle` stands somewhere in `s`.
pub fn contains(s: &str, needle: &str) -> (r: bool)
    ensures
        r == text_has(s@, needle@),
{
    let chars = characters(s);
    let pattern = characters(needle);
    let n: usize = chars.len();
    let m: usize = pattern.len();
    if m > n {
        return false;
    }
    let mut at: usize = 0;
    while at <= n - m
        invariant
            m <= n,
            at <= n - m + 1,
            n == chars@.len(),
            m == pattern@.len(),
            chars@ == s@,
            pattern@ == needle@,
            forall|i: int| 0 <= i < at ==> !#[trigger] occurs_at(chars@, pattern@, i),
        decreases n - at + 1,
    {
        if stands_at(&chars, &pattern, at) {
            return true;
        }
        if at == n - m {
            proof {
                assert forall|i: int| !#[trigger] occurs_at(s@, needle@, i) by {
                    if 0 <= i <= at {
                        assert(i < at || i == at);
                    }
                }
            }
            return false;
        }
        at += 1;
    }
    false
}

/// `s` with its ASCII letters in lower case.
pub fn to_ascii_lowercase(s: &str) -> (r: String)
    ensures
        r@ == ascii_lowered(s@),
{
    let chars = characters(s);
    let mut r = String::new();
    let mut i: usize = 0;
    while i < chars.len()
        invariant
            i <= chars@.len(),
            chars@ == s@,
            r@ == ascii_lowered(s@.take(i as int)),
        decreases chars@.len() - i,
    {
        let c = chars[i];
        let low = if 'A' <= c && c <= 'Z' {
            ((c as u8) + 32u8) as char
        } else {
            c
        };
        r.push(low);
        i += 1;
        proof {
            assert(low == ascii_lower(c));
            assert(ascii_lowered(s@.take(i as int)) == ascii_lowered(s@.take(i - 1)).push(low));
        }
    }
    proof {
        assert(s@.take(s@.len() as int) == s@);
    }
    r
}

/// `n` in decimal digits.
pub fn decimal_text(n: u64) -> (s: String)
    ensures
        s@ == decimal(n as nat),
    decreases n,
{
    let d: u64 = n % 10;
    let c = (('0' as u8) + (d as u8)) as char;
    if n < 10 {
        let mut s = String::new();
        s.push(c);
        proof {
            assert(s@ == seq![digit(n as nat)]);
        }
        s
    } else {
        let mut s = decimal_text(n / 10);
        s.push(c);
        s
    }
}

/// `n` in decimal digits, with a minus sign in front where it is negative.
pub open spec fn signed_decimal(n: int) -> Seq<char> {
    if n < 0 {
        seq!['-'] + decimal((-n) as nat)
    } else {
        decimal(n as nat)
    }
}

/// `n` in decimal digits, with a minus sign in front where it is negative.
pub fn signed_decimal_text(n: i64) -> (s: String)
    ensures
        s@ == signed_decimal(n as int),
{
    if n < 0 {
        let magnitude: u64 = (-(n as i128)) as u64;
        let mut s = String::new();
        s.push('-');
        s.append(decimal_text(magnitude).as_str());
        proof {
            assert(s@ =~= signed_decimal(n as int));
        }
        s
    } else {
        decimal_text(n as u64)
    }
}

/// The pieces one after the other with `separator` between them.
pub fn join(pieces: &Vec<String>, separator: &str) -> (r: String)
    ensures
        r@ == joined(views(pieces@), separator@),
{
    let mut r = String::new();
    let mut i: usize = 0;
    while i < pieces.len()
        invariant
            i <= pieces@.len(),
            r@ == joined(views(pieces@.take(i as int)), separator@),
        decreases pieces@.len() - i,
    {
        let ghost before = views(pieces@.take(i as int));
        if i > 0 {
            r.append(separator);
        }
        r.append(pieces[i].as_str());
        i += 1;
        proof {
            let after = views(pieces@.take(i as int));
            assert(after.drop_last() == before);
            assert(after.last() == pieces@[i - 1]@);
            if i == 1 {
                assert(r@ == after[0]);
            }
        }
    }
    proof {
        assert(pieces@.take(pieces@.len() as int) == pieces@);
    }
    r
}

/// Whether `a` comes before `b` in the order of their code points.
pub fn comes_before(a: &str, b: &str) -> (r: bool)
    ensures
        r == precedes(a@, b@),
{
    let left = characters(a);
    let right = characters(b);
    let mut i: usize = 0;
    proof {
        assert(left@.skip(0) == left@);
        assert(right@.skip(0) == right@);
    }
    while i < left.len() && i < right.len()
        invariant
            i <= left@.len(),
            i <= right@.len(),
            left@ == a@,
            right@ == b@,
            precedes(a@, b@) == precedes(a@.skip(i as int), b@.skip(i as int)),
        decreases left@.len() - i,
    {
        if left[i] != right[i] {
            return left[i] < right[i];
        }
        proof {
            assert(a@.skip(i as int).drop_first() == a@.skip(i + 1));
            assert(b@.skip(i as int).drop_first() == b@.skip(i + 1));
        }
        i += 1;
    }
    i < right.len()
}

/// The order of text is a strict total order: no text precedes itself, of two
/// different texts exactly one precedes the other, and the relation is transitive.
pub proof fn text_order_is_total(a: Seq<char>, b: Seq<char>, c: Seq<char>)
    ensures
        !precedes(a, a),
        a != b ==> (precedes(a, b) <==> !precedes(b, a)),
        precedes(a, b) && precedes(b, c) ==> precedes(a, c),
    decreases a.len(),
{
    if a.len() > 0 {
        text_order_is_total(a.drop_first(), a.drop_first(), a.drop_first());
    }
    if a.len() > 0 && b.len() > 0 && a[0] == b[0] {
        if a.drop_first() == b.drop_first() {
            assert(a == seq![a[0]] + a.drop_first());
            assert(b == seq![b[0]] + b.drop_first());
        }
        text_order_is_total(a.drop_first(), b.drop_first(), b.drop_first());
        if c.len() > 0 {
            text_order_is_total(a.drop_first(), b.drop_first(), c.drop_first());
        }
    }
    if a.len() == 0 && b.len() == 0 {
        assert(a == b);
    }
}

// ---- What the operations on text are for ----

/// Every character is white space.
pub open spec fn blank(s: Seq<char>) -> bool {
    forall|i: int| 0 <= i < s.len() ==> is_space(#[trigger] s[i])
}

/// The code points of the white space characters, one by one.
pub open spec fn space_code_points() -> Seq<int> {
    seq![
        0x9,
        0xa,
        0xb,
        0xc,
        0xd,
        0x20,
        0x85,
        0xa0,
        0x1680,
        0x2000,
        0x2001,
        0x2002,
        0x2003,
        0x2004,
        0x2005,
        0x2006,
        0x2007,
        0x2008,
        0x2009,
        0x200a,
        0x2028,
        0x2029,
        0x202f,
        0x205f,
        0x3000,
    ]
}

/// White space is the space, the tab, the ends of lines and the other characters of the
/// list, and nothing else.
pub proof fn white_space_is_listed(c: char, b: bool)
    requires
        call_ensures(space, (c,), b),
    ensures
        b <==> space_code_points().contains(c as int),
        is_space(c) <==> space_code_points().contains(c as int),
{
    let all = space_code_points();
    let code = c as int;
    if b {
        if 0x9 <= code <= 0xd {
            assert(all[code - 0x9] == code);
        } else if 0x2000 <= code <= 0x200a {
            assert(all[9 + code - 0x2000] == code);
        } else {
            assert(all[5] == 0x20 && all[6] == 0x85 && all[7] == 0xa0 && all[8] == 0x1680 && all[20]
                == 0x2028 && all[21] == 0x2029 && all[22] == 0x202f && all[23] == 0x205f && all[24]
                == 0x3000);
        }
    }
    if all.contains(code) {
        let i = choose|i: int| 0 <= i < all.len() && all[i] == code;
        assert(is_space(c));
    }
}

proof fn lemma_start_cut(s: Seq<char>) -> (from: int)
    ensures
        0 <= from <= s.len(),
        trim_start(s) == s.skip(from),
        forall|i: int| 0 <= i < from ==> is_space(#[trigger] s[i]),
        from < s.len() ==> !is_space(s[from]),
    decreases s.len(),
{
    if s.len() > 0 && is_space(s.first()) {
        let rest = s.drop_first();
        let from = lemma_start_cut(rest);
        assert(s.skip(from + 1) =~= rest.skip(from));
        assert forall|i: int| 0 <= i < from + 1 implies is_space(#[trigger] s[i]) by {
            if i > 0 {
                assert(rest[i - 1] == s[i]);
            }
        }
        if from < rest.len() {
            assert(s[from + 1] == rest[from]);
        }
        from + 1
    } else {
        assert(s.skip(0) =~= s);
        0
    }
}

proof fn lemma_end_cut(s: Seq<char>) -> (to: int)
    ensures
        0 <= to <= s.len(),
        trim_end(s) == s.take(to),
        forall|i: int| to <= i < s.len() ==> is_space(#[trigger] s[i]),
        to > 0 ==> !is_space(s[to - 1]),
    decreases s.len(),
{
    if s.len() > 0 && is_space(s.last()) {
        let init = s.drop_last();
        let to = lemma_end_cut(init);
        assert(s.take(to) =~= init.take(to));
        assert forall|i: int| to <= i < s.len() implies is_space(#[trigger] s[i]) by {
            if i < init.len() {
                assert(init[i] == s[i]);
            }
        }
        to
    } else {
        assert(s.take(s.len() as int) =~= s);
        s.len() as int
    }
}

/// `r` is what stands between the white space at both ends of `s`.
pub open spec fn stands_between_spaces(r: Seq<char>, s: Seq<char>, from: int, to: int) -> bool {
    &&& 0 <= from <= to <= s.len()
    &&& r == s.subrange(from, to)
    &&& blank(s.take(from))
    &&& blank(s.skip(to))
    &&& from < to ==> !is_space(s[from]) && !is_space(s[to - 1])
}

/// Trimming takes away the white space at both ends, all of it and nothing else: what is
/// left is a part of the text, with white space alone on both sides, that neither begins
/// nor ends with white space. Nothing is left exactly of a blank text.
pub proof fn trimming_takes_white_space_off_the_ends(s: &str, r: &str)
    requires
        call_ensures(trim, (s,), r),
    ensures
        exists|from: int, to: int| #[trigger] stands_between_spaces(r@, s@, from, to),
        r@.len() == 0 <==> blank(s@),
        r@ == trimmed(s@),
{
    lemma_trimmed_cut(s@);
}

/// A text is blank exactly where trimming leaves nothing of it.
pub proof fn only_blank_text_is_trimmed_away(s: Seq<char>)
    ensures
        trimmed(s).len() == 0 <==> blank(s),
{
    lemma_trimmed_cut(s);
}

proof fn lemma_trimmed_cut(s: Seq<char>)
    ensures
        exists|from: int, to: int| #[trigger] stands_between_spaces(trimmed(s), s, from, to),
        trimmed(s).len() == 0 <==> blank(s),
{
    let from = lemma_start_cut(s);
    let rest = s.skip(from);
    let n = lemma_end_cut(rest);
    let to = from + n;
    let r = trimmed(s);
    assert(rest.take(n) =~= s.subrange(from, to));
    assert forall|i: int| 0 <= i < s.skip(to).len() implies is_space(#[trigger] s.skip(to)[i]) by {
        assert(s.skip(to)[i] == rest[n + i]);
    }
    assert forall|i: int| 0 <= i < s.take(from).len() implies is_space(
        #[trigger] s.take(from)[i],
    ) by {
        assert(s.take(from)[i] == s[i]);
    }
    if n > 0 {
        assert(s[from] == rest[0]);
        assert(s[to - 1] == rest[n - 1]);
        assert(!is_space(s[from]));
    }
    assert(stands_between_spaces(r, s, from, to));
    if r.len() == 0 {
        assert forall|i: int| 0 <= i < s.len() implies is_space(#[trigger] s[i]) by {
            if i >= from {
                assert(rest[i - from] == s[i]);
            }
        }
    }
}

/// Trimming the end takes away the white space there, all of it and nothing else.
pub proof fn trimming_the_end_takes_white_space_off_it(s: &str, r: &str)
    requires
        call_ensures(trim_tail, (s,), r),
    ensures
        exists|to: int|
            0 <= to <= s@.len() && r@ == #[trigger] s@.take(to) && blank(s@.skip(to)) && (to > 0
                ==> !is_space(s@[to - 1])),
{
    lemma_trim_end_cut(s@);
}

/// White space behind a text that ends with none is what trimming the end takes away.
pub proof fn trimming_the_end_undoes_white_space(s: Seq<char>, spaces: Seq<char>)
    requires
        blank(spaces),
        s.len() > 0 ==> !is_space(s.last()),
    ensures
        trim_end(s + spaces) == s,
    decreases spaces.len(),
{
    if spaces.len() > 0 {
        let all = s + spaces;
        assert(all.drop_last() =~= s + spaces.drop_last());
        assert(all.last() == spaces[spaces.len() - 1]);
        assert forall|i: int| 0 <= i < spaces.drop_last().len() implies is_space(
            #[trigger] spaces.drop_last()[i],
        ) by {
            assert(spaces.drop_last()[i] == spaces[i]);
        }
        trimming_the_end_undoes_white_space(s, spaces.drop_last());
    } else {
        assert(s + spaces =~= s);
    }
}

proof fn lemma_trim_end_cut(s: Seq<char>)
    ensures
        exists|to: int|
            0 <= to <= s.len() && trim_end(s) == #[trigger] s.take(to) && blank(s.skip(to)) && (to
                > 0 ==> !is_space(s[to - 1])),
{
    let to = lemma_end_cut(s);
    assert forall|i: int| 0 <= i < s.skip(to).len() implies is_space(#[trigger] s.skip(to)[i]) by {
        assert(s.skip(to)[i] == s[to + i]);
    }
    assert(s.take(to).len() == to);
}

/// A text holds a needle exactly if it is something, then the needle, then something.
pub proof fn containing_is_standing_between(
    s: &str,
    needle: &str,
    r: bool,
    before: Seq<char>,
    after: Seq<char>,
)
    requires
        call_ensures(contains, (s, needle), r),
    ensures
        s@ == before + needle@ + after ==> r,
        r ==> exists|at: int|
            0 <= at && at + needle@.len() <= s@.len() && s@ == #[trigger] s@.take(at) + needle@
                + s@.skip(at + needle@.len()),
{
    if s@ == before + needle@ + after {
        let at = before.len() as int;
        assert(s@.subrange(at, at + needle@.len()) =~= needle@);
        assert(occurs_at(s@, needle@, at));
    }
    if r {
        let at = choose|at: int| #[trigger] occurs_at(s@, needle@, at);
        assert(s@ =~= s@.take(at) + needle@ + s@.skip(at + needle@.len()));
    }
}

/// The value of decimal digits, the first counting most.
pub open spec fn decimal_value(digits: Seq<char>) -> int
    decreases digits.len(),
{
    if digits.len() == 0 {
        0
    } else {
        decimal_value(digits.drop_last()) * 10 + (digits.last() as int - '0' as int)
    }
}

/// The decimal text of a number is made of digits, reads back as that number, and has
/// no zero in front, except that zero itself is written `0`.
pub proof fn decimal_text_reads_back(n: nat)
    ensures
        decimal(n).len() > 0,
        forall|i: int| 0 <= i < decimal(n).len() ==> '0' <= #[trigger] decimal(n)[i] <= '9',
        decimal_value(decimal(n)) == n,
        n > 0 ==> decimal(n)[0] != '0',
        n == 0 ==> decimal(n) == seq!['0'],
    decreases n,
{
    reveal_with_fuel(decimal_value, 2);
    if n < 10 {
        assert(decimal(n) =~= seq![digit(n)]);
        assert(decimal(n).drop_last() =~= Seq::<char>::empty());
        assert(decimal(n).last() == digit(n));
    } else {
        decimal_text_reads_back(n / 10);
        let text = decimal(n);
        assert(text.drop_last() =~= decimal(n / 10));
        assert(text.last() == digit(n % 10));
        assert forall|i: int| 0 <= i < text.len() implies '0' <= #[trigger] text[i] <= '9' by {
            if i < text.len() - 1 {
                assert(text[i] == decimal(n / 10)[i]);
            }
        }
        assert(text[0] == decimal(n / 10)[0]);
    }
}

/// The decimal text of a negative number is a minus sign and the digits of its magnitude.
pub proof fn signed_decimal_text_reads_back(n: i64, s: String)
    requires
        call_ensures(signed_decimal_text, (n,), s),
    ensures
        n >= 0 ==> decimal_value(s@) == n && s@[0] != '-',
        n < 0 ==> s@[0] == '-' && decimal_value(s@.drop_first()) == -n,
{
    if n < 0 {
        decimal_text_reads_back((-n) as nat);
        assert(s@.drop_first() =~= decimal((-n) as nat));
    } else {
        decimal_text_reads_back(n as nat);
        assert('0' <= decimal(n as nat)[0]);
    }
}

/// Joining no pieces gives nothing, joining one gives it, and joining two lists gives
/// what joining each gives, with the separator between them.
pub proof fn joining_puts_the_separator_between(
    a: Seq<Seq<char>>,
    b: Seq<Seq<char>>,
    piece: Seq<char>,
    separator: Seq<char>,
)
    ensures
        joined(Seq::empty(), separator) == Seq::<char>::empty(),
        joined(seq![piece], separator) == piece,
        a.len() > 0 && b.len() > 0 ==> joined(a + b, separator) == joined(a, separator) + separator
            + joined(b, separator),
    decreases b.len(),
{
    if a.len() > 0 && b.len() > 0 {
        let all = a + b;
        assert(all.last() == b.last());
        if b.len() == 1 {
            assert(all.drop_last() =~= a);
        } else {
            assert(all.drop_last() =~= a + b.drop_last());
            joining_puts_the_separator_between(a, b.drop_last(), piece, separator);
            assert(joined(all, separator) =~= joined(a, separator) + separator + joined(
                b,
                separator,
            ));
        }
    }
}

/// Two texts are ordered by the first character in which they differ, and a text comes
/// before every longer one that begins with it.
pub proof fn text_is_ordered_by_the_first_difference(
    common: Seq<char>,
    c: char,
    d: char,
    x: Seq<char>,
    y: Seq<char>,
)
    ensures
        c < d ==> precedes(common.push(c) + x, common.push(d) + y),
        precedes(common, common.push(c) + x),
        !precedes(common.push(c) + x, common),
    decreases common.len(),
{
    let a = common.push(c) + x;
    let b = common.push(d) + y;
    if common.len() > 0 {
        let rest = common.drop_first();
        assert(a.drop_first() =~= rest.push(c) + x);
        assert(b.drop_first() =~= rest.push(d) + y);
        text_is_ordered_by_the_first_difference(rest, c, d, x, y);
    }
}

/// Lower case changes the letters from `A` to `Z`, each into the letter at the same
/// place from `a` to `z`, and no other character.
pub proof fn lower_case_changes_capital_letters_only(s: &str, r: String, i: int)
    requires
        call_ensures(to_ascii_lowercase, (s,), r),
        0 <= i < s@.len(),
    ensures
        r@.len() == s@.len(),
        'A' <= s@[i] <= 'Z' ==> 'a' <= r@[i] <= 'z' && r@[i] as int - 'a' as int == s@[i] as int
            - 'A' as int,
        !('A' <= s@[i] <= 'Z') ==> r@[i] == s@[i],
{
}

/// Trimming undoes putting white space around a text that neither begins nor ends with it.
pub proof fn trimming_undoes_white_space(before: Seq<char>, token: Seq<char>, after: Seq<char>)
    requires
        blank(before),
        blank(after),
        token.len() > 0,
        !is_space(token.first()),
        !is_space(token.last()),
    ensures
        trimmed(before + token + after) == token,
    decreases before.len(),
{
    let all = before + token + after;
    if before.len() > 0 {
        let rest = before.drop_first();
        assert forall|i: int| 0 <= i < rest.len() implies is_space(#[trigger] rest[i]) by {
            assert(rest[i] == before[i + 1]);
        }
        assert(all.first() == before[0]);
        assert(all.drop_first() =~= rest + token + after);
        trimming_undoes_white_space(rest, token, after);
    } else {
        assert(all.first() == token.first());
        assert(all =~= token + after);
        trimming_the_end_undoes_white_space(token, after);
        assert(trim_end(token) == token);
    }
}

/// A text ends in each of its tails, and two texts are the same exactly where each
/// character of one is that of the other.
pub proof fn texts_end_in_their_tails(
    s: &str,
    tail: &str,
    r: bool,
    same: bool,
    front: Seq<char>,
)
    requires
        call_ensures(ends_with, (s, tail), r),
        call_ensures(same_text, (s, tail), same),
    ensures
        s@ == front + tail@ ==> r,
        r ==> tail@.len() <= s@.len() && s@.skip(s@.len() - tail@.len()) == tail@,
        same <==> s@.len() == tail@.len() && forall|i: int|
            0 <= i < s@.len() ==> #[trigger] s@[i] == tail@[i],
{
    if s@ == front + tail@ {
        assert(s@.subrange(s@.len() - tail@.len(), s@.len() as int) =~= tail@);
    }
    if r {
        assert(s@.skip(s@.len() - tail@.len()) =~= tail@);
    }
    if s@.len() == tail@.len() && forall|i: int| 0 <= i < s@.len() ==> #[trigger] s@[i] == tail@[i] {
        assert(s@ =~= tail@);
    }
}

/// The place of a character is that of the first one: none stands before it.
pub proof fn the_first_of_a_character_is_found(chars: &Vec<char>, c: char, p: usize, i: int)
    requires
        call_ensures(position_of, (chars, c), p),
    ensures
        0 <= i < p ==> chars@[i] != c,
        p < chars@.len() ==> chars@[p as int] == c,
        p <= chars@.len(),
{
    lemma_position(chars@, c);
}

} // verus!
