//! Finding the JSON objects in a text.

use vstd::prelude::*;
use vstd::string::*;

use crate::text::{
    blank, characters, ends_with, is_space, trim_end, trim_tail, trimming_the_end_undoes_white_space,
};

verus! {

/// What is known of a text after some of its characters: how many braces are open, and
/// whether the next character stands in a string or behind a backslash in one.
pub struct Scan {
    pub depth: int,
    pub in_string: bool,
    pub escape: bool,
}

/// What one more character makes known. Braces count outside strings only.
pub open spec fn step(scan: Scan, c: char) -> Scan {
    if scan.escape {
        Scan { escape: false, ..scan }
    } else if c == '\\' && scan.in_string {
        Scan { escape: true, ..scan }
    } else if c == '"' {
        Scan { in_string: !scan.in_string, ..scan }
    } else if scan.in_string {
        scan
    } else if c == '{' {
        Scan { depth: scan.depth + 1, ..scan }
    } else if c == '}' {
        Scan { depth: scan.depth - 1, ..scan }
    } else {
        scan
    }
}

/// What is known after the characters of `s` from `from` up to `to`.
pub open spec fn scanned(s: Seq<char>, from: int, to: int) -> Scan
    decreases to - from,
{
    if to <= from {
        Scan { depth: 0, in_string: false, escape: false }
    } else {
        step(scanned(s, from, to - 1), s[to - 1])
    }
}

/// The first place from `at` on at which every brace that was opened from `from` on is
/// closed.
pub open spec fn closing(s: Seq<char>, from: int, at: int) -> Option<int>
    decreases s.len() - at,
{
    if at >= s.len() {
        None
    } else if scanned(s, from, at + 1).depth == 0 {
        Some(at)
    } else {
        closing(s, from, at + 1)
    }
}

/// The end of the object that opens at `from`: the place behind its closing brace.
pub open spec fn object_end(s: Seq<char>, from: int) -> Option<int> {
    if 0 <= from < s.len() && s[from] == '{' {
        match closing(s, from, from) {
            Some(at) => Some(at + 1),
            None => None,
        }
    } else {
        None
    }
}

/// The outermost objects of `s` from `from` on: where each begins and ends. A brace
/// that is never closed begins none, and hides none behind it.
pub open spec fn objects(s: Seq<char>, from: int) -> Seq<(int, int)>
    decreases s.len() - from,
{
    if from < 0 || from >= s.len() {
        Seq::empty()
    } else {
        match object_end(s, from) {
            Some(end) => if from < end <= s.len() {
                seq![(from, end)] + objects(s, end)
            } else {
                Seq::empty()
            },
            None => objects(s, from + 1),
        }
    }
}

/// The outermost objects in a text, in the order of the text.
pub open spec fn json_objects(text: Seq<char>) -> Seq<Seq<char>> {
    objects(text, 0).map_values(|range: (int, int)| text.subrange(range.0, range.1))
}

proof fn lemma_closing(s: Seq<char>, from: int, at: int)
    requires
        from <= at,
    ensures
        closing(s, from, at) matches Some(end) ==> at <= end < s.len() && scanned(
            s,
            from,
            end + 1,
        ).depth == 0,
    decreases s.len() - at,
{
    if at < s.len() && scanned(s, from, at + 1).depth != 0 {
        lemma_closing(s, from, at + 1);
    }
}

/// The end of the object that opens at `from`.
fn find_end(chars: &Vec<char>, from: usize) -> (r: Option<usize>)
    requires
        from < chars@.len(),
        chars@[from as int] == '{',
    ensures
        match r {
            Some(end) => object_end(chars@, from as int) == Some(end as int) && from < end
                <= chars@.len(),
            None => object_end(chars@, from as int) is None,
        },
{
    let n: usize = chars.len();
    let ghost s = chars@;
    let mut depth: usize = 0;
    let mut in_string = false;
    let mut escape = false;
    let mut j: usize = from;
    while j < n
        invariant
            s == chars@,
            n == s.len(),
            from < n,
            s[from as int] == '{',
            from <= j <= n,
            depth <= j - from,
            j > from ==> depth > 0,
            scanned(s, from as int, j as int) == (Scan { depth: depth as int, in_string, escape }),
            closing(s, from as int, from as int) == closing(s, from as int, j as int),
        decreases n - j,
    {
        let c = chars[j];
        proof {
            assert(scanned(s, from as int, j + 1) == step(
                scanned(s, from as int, j as int),
                s[j as int],
            ));
        }
        if escape {
            escape = false;
        } else if c == '\\' && in_string {
            escape = true;
        } else if c == '"' {
            in_string = !in_string;
        } else if !in_string {
            if c == '{' {
                depth += 1;
            } else if c == '}' {
                depth -= 1;
                if depth == 0 {
                    return Some(j + 1);
                }
            }
        }
        j += 1;
    }
    None
}

/// The outermost balanced `{...}` substrings of the text, in the order of the text.
/// Objects nested inside one are skipped.
pub fn find_json_objects(text: &str) -> (r: Vec<&str>)
    ensures
        r@.map_values(|t: &str| t@) == json_objects(text@),
{
    let chars = characters(text);
    let n: usize = chars.len();
    let ghost s = text@;
    let ghost cut = |range: (int, int)| s.subrange(range.0, range.1);
    let mut r: Vec<&str> = Vec::new();
    let ghost mut ranges: Seq<(int, int)> = Seq::empty();
    let mut i: usize = 0;
    proof {
        assert(ranges + objects(s, 0) =~= objects(s, 0));
        assert(r@.map_values(|t: &str| t@) =~= ranges.map_values(cut));
    }
    while i < n
        invariant
            s == text@,
            chars@ == s,
            n == s.len(),
            i <= n,
            cut == (|range: (int, int)| s.subrange(range.0, range.1)),
            ranges + objects(s, i as int) == objects(s, 0),
            r@.map_values(|t: &str| t@) == ranges.map_values(cut),
        decreases n - i,
    {
        let mut next: usize = i + 1;
        if chars[i] == '{' {
            match find_end(&chars, i) {
                Some(end) => {
                    let object = text.substring_char(i, end);
                    let ghost before = r@;
                    r.push(object);
                    proof {
                        let range = (i as int, end as int);
                        assert(ranges + (seq![range] + objects(s, end as int)) =~= ranges.push(range)
                            + objects(s, end as int));
                        assert(ranges.push(range).map_values(cut) =~= ranges.map_values(cut).push(
                            object@,
                        ));
                        assert(r@.map_values(|t: &str| t@) =~= before.map_values(
                            |t: &str| t@,
                        ).push(object@));
                        ranges = ranges.push(range);
                    }
                    next = end;
                },
                None => {},
            }
        }
        i = next;
    }
    proof {
        assert(ranges + objects(s, n as int) =~= ranges);
    }
    r
}

/// The object that ends a text, if one does: the last outermost object, where nothing
/// but white space stands behind it.
pub open spec fn terminal_object(text: Seq<char>) -> Option<Seq<char>> {
    let body = trim_end(text);
    let found = json_objects(body);
    if found.len() > 0 && found.last().is_suffix_of(body) {
        Some(found.last())
    } else {
        None
    }
}

/// The outermost balanced JSON object that ends the text, ignoring trailing white
/// space.
pub fn terminal_json_object(text: &str) -> (r: Option<&str>)
    ensures
        match r {
            Some(object) => terminal_object(text@) == Some(object@),
            None => terminal_object(text@) is None,
        },
{
    let body = trim_tail(text);
    let found = find_json_objects(body);
    let n: usize = found.len();
    proof {
        assert(found@.map_values(|t: &str| t@).len() == n);
    }
    if n == 0 {
        return None;
    }
    let last = found[n - 1];
    proof {
        assert(found@.map_values(|t: &str| t@)[n - 1] == last@);
    }
    if ends_with(body, last) {
        Some(last)
    } else {
        None
    }
}

/// The objects that are found are balanced, follow one another, and do not overlap.
pub proof fn found_objects_are_balanced_and_disjoint(s: Seq<char>, from: int)
    requires
        0 <= from,
    ensures
        forall|k: int|
            0 <= k < objects(s, from).len() ==> {
                let (start, end) = #[trigger] objects(s, from)[k];
                &&& from <= start < end <= s.len()
                &&& s[start] == '{'
                &&& scanned(s, start, end).depth == 0
            },
        forall|k: int, l: int|
            0 <= k < l < objects(s, from).len() ==> (#[trigger] objects(s, from)[k]).1 <= (
            #[trigger] objects(s, from)[l]).0,
    decreases s.len() - from,
{
    if from < s.len() {
        match object_end(s, from) {
            Some(end) => {
                lemma_closing(s, from, from);
                found_objects_are_balanced_and_disjoint(s, end);
                let rest = objects(s, end);
                let all = objects(s, from);
                assert forall|k: int| 0 < k < all.len() implies #[trigger] all[k] == rest[k - 1] by {}
                assert(all[0] == (from, end));
                assert forall|k: int| 0 <= k < all.len() implies {
                    let (start, stop) = #[trigger] all[k];
                    &&& from <= start < stop <= s.len()
                    &&& s[start] == '{'
                    &&& scanned(s, start, stop).depth == 0
                } by {
                    if k > 0 {
                        assert(all[k] == rest[k - 1]);
                    }
                }
                assert forall|k: int, l: int| 0 <= k < l < all.len() implies (#[trigger] all[k]).1
                    <= (#[trigger] all[l]).0 by {
                    assert(all[l] == rest[l - 1]);
                    if k > 0 {
                        assert(all[k] == rest[k - 1]);
                    }
                }
            },
            None => {
                found_objects_are_balanced_and_disjoint(s, from + 1);
                assert(objects(s, from) == objects(s, from + 1));
            },
        }
    }
}

/// No object is missed: every brace that opens one is found, or stands inside one that
/// is found. A brace that is never closed suppresses nothing.
pub proof fn every_object_is_found_or_nested(s: Seq<char>, from: int, at: int)
    requires
        0 <= from <= at,
        object_end(s, at) is Some,
    ensures
        exists|k: int|
            0 <= k < objects(s, from).len() && (#[trigger] objects(s, from)[k]).0 <= at < objects(
                s,
                from,
            )[k].1,
    decreases s.len() - from,
{
    let all = objects(s, from);
    match object_end(s, from) {
        Some(end) => {
            lemma_closing(s, from, from);
            let rest = objects(s, end);
            if at < end {
                assert(all[0] == (from, end));
            } else {
                every_object_is_found_or_nested(s, end, at);
                let k = choose|k: int|
                    0 <= k < rest.len() && (#[trigger] rest[k]).0 <= at < rest[k].1;
                assert(all[k + 1] == rest[k]);
            }
        },
        None => {
            every_object_is_found_or_nested(s, from + 1, at);
        },
    }
}

// ---- Objects as they are written ----

/// One character of a JSON string as it is written.
pub enum Quoted {
    /// A character that stands for itself: neither a quote nor a backslash.
    Raw(char),
    /// A backslash and the character behind it, whichever that is.
    Escaped(char),
}

/// One piece of a JSON text as it is written.
pub enum Piece {
    /// A character outside strings that is no brace and opens no string: of a number, a
    /// word, a bracket, a comma, a colon, or white space.
    Bare(char),
    /// A string in quotes.
    Str(Seq<Quoted>),
    /// An object in braces.
    Braced(Seq<Piece>),
}

/// The characters of a string, without the quotes around it.
pub open spec fn quoted_text(chars: Seq<Quoted>) -> Seq<char>
    decreases chars.len(),
{
    if chars.len() == 0 {
        Seq::empty()
    } else {
        quoted_text(chars.drop_last()) + (match chars.last() {
            Quoted::Raw(c) => seq![c],
            Quoted::Escaped(c) => seq!['\\', c],
        })
    }
}

/// A piece as it is written.
pub open spec fn piece_text(piece: Piece) -> Seq<char>
    decreases piece,
{
    match piece {
        Piece::Bare(c) => seq![c],
        Piece::Str(chars) => seq!['"'] + quoted_text(chars) + seq!['"'],
        Piece::Braced(pieces) => seq!['{'] + pieces_text(pieces) + seq!['}'],
    }
}

/// Pieces as they are written one after the other.
pub open spec fn pieces_text(pieces: Seq<Piece>) -> Seq<char>
    decreases pieces,
{
    if pieces.len() == 0 {
        Seq::empty()
    } else {
        pieces_text(pieces.drop_last()) + piece_text(pieces.last())
    }
}

/// No raw character is a quote or a backslash.
pub open spec fn quoted_well(chars: Seq<Quoted>) -> bool {
    forall|i: int|
        0 <= i < chars.len() ==> (#[trigger] chars[i] matches Quoted::Raw(c) ==> c != '"' && c
            != '\\')
}

/// The piece can be written: strings are quoted well, and bare characters neither open
/// a string nor are braces.
pub open spec fn piece_written(piece: Piece) -> bool
    decreases piece,
{
    match piece {
        Piece::Bare(c) => c != '"' && c != '{' && c != '}',
        Piece::Str(chars) => quoted_well(chars),
        Piece::Braced(pieces) => pieces_written(pieces),
    }
}

/// All the pieces can be written.
pub open spec fn pieces_written(pieces: Seq<Piece>) -> bool
    decreases pieces,
{
    pieces.len() > 0 ==> pieces_written(pieces.drop_last()) && piece_written(pieces.last())
}

/// `text` is an object as JSON writes one: members in braces, strings in quotes with a
/// backslash before every quote inside them, objects nested to any depth, and white
/// space anywhere.
pub open spec fn is_written_object(text: Seq<char>, pieces: Seq<Piece>) -> bool {
    pieces_written(pieces) && text == piece_text(Piece::Braced(pieces))
}

/// `part` stands in `s` at `at`.
spec fn stands_at(s: Seq<char>, part: Seq<char>, at: int) -> bool {
    0 <= at && at + part.len() <= s.len() && forall|i: int|
        0 <= i < part.len() ==> s[at + i] == #[trigger] part[i]
}

proof fn lemma_stands_apart(s: Seq<char>, a: Seq<char>, b: Seq<char>, at: int)
    requires
        stands_at(s, a + b, at),
    ensures
        stands_at(s, a, at),
        stands_at(s, b, at + a.len()),
{
    assert forall|i: int| 0 <= i < a.len() implies s[at + i] == #[trigger] a[i] by {
        assert((a + b)[i] == a[i]);
    }
    assert forall|i: int| 0 <= i < b.len() implies s[at + a.len() + i] == #[trigger] b[i] by {
        assert((a + b)[a.len() + i] == b[i]);
    }
}

/// From `at` to `to` at least `depth` braces stay open.
spec fn stays_open(s: Seq<char>, from: int, at: int, to: int, depth: int) -> bool {
    forall|k: int| at < k <= to ==> (#[trigger] scanned(s, from, k)).depth >= depth
}

/// Inside a string nothing counts until the quote that ends it.
proof fn lemma_quoted(s: Seq<char>, chars: Seq<Quoted>, from: int, at: int, depth: int)
    requires
        from <= at,
        quoted_well(chars),
        stands_at(s, quoted_text(chars), at),
        scanned(s, from, at) == (Scan { depth, in_string: true, escape: false }),
    ensures
        scanned(s, from, at + quoted_text(chars).len()) == (Scan {
            depth,
            in_string: true,
            escape: false,
        }),
        stays_open(s, from, at, at + quoted_text(chars).len(), depth),
    decreases chars.len(),
{
    if chars.len() > 0 {
        let init = chars.drop_last();
        let head = quoted_text(init);
        let tail = match chars.last() {
            Quoted::Raw(c) => seq![c],
            Quoted::Escaped(c) => seq!['\\', c],
        };
        assert(quoted_text(chars) == head + tail);
        lemma_stands_apart(s, head, tail, at);
        assert(quoted_well(init)) by {
            assert forall|i: int| 0 <= i < init.len() implies (#[trigger] init[i] matches Quoted::Raw(
                c,
            ) ==> c != '"' && c != '\\') by {
                assert(init[i] == chars[i]);
            }
        }
        lemma_quoted(s, init, from, at, depth);
        let mid = at + head.len();
        assert(chars[chars.len() - 1] == chars.last());
        assert(s[mid + 0] == tail[0]);
        assert(scanned(s, from, mid + 1) == step(scanned(s, from, mid), s[mid]));
        if let Quoted::Escaped(c) = chars.last() {
            assert(s[mid + 1] == tail[1]);
            assert(scanned(s, from, mid + 2) == step(scanned(s, from, mid + 1), s[mid + 1]));
        }
        assert forall|k: int| at < k <= at + quoted_text(chars).len() implies (#[trigger] scanned(
            s,
            from,
            k,
        )).depth >= depth by {
            if k > mid {
                assert(k == mid + 1 || k == mid + 2);
            }
        }
    }
}

/// A piece leaves as many braces open as it found, and never closes one of those.
proof fn lemma_piece(s: Seq<char>, piece: Piece, from: int, at: int, depth: int)
    requires
        from <= at,
        piece_written(piece),
        stands_at(s, piece_text(piece), at),
        scanned(s, from, at) == (Scan { depth, in_string: false, escape: false }),
    ensures
        scanned(s, from, at + piece_text(piece).len()) == (Scan {
            depth,
            in_string: false,
            escape: false,
        }),
        stays_open(s, from, at, at + piece_text(piece).len(), depth),
    decreases piece,
{
    let text = piece_text(piece);
    let end = at + text.len();
    assert(s[at + 0] == text[0]);
    assert(scanned(s, from, at + 1) == step(scanned(s, from, at), s[at]));
    match piece {
        Piece::Bare(c) => {
            assert(stays_open(s, from, at, end, depth));
        },
        Piece::Str(chars) => {
            let inner = quoted_text(chars);
            assert(text =~= seq!['"'] + (inner + seq!['"']));
            lemma_stands_apart(s, seq!['"'], inner + seq!['"'], at);
            lemma_stands_apart(s, inner, seq!['"'], at + 1);
            lemma_quoted(s, chars, from, at + 1, depth);
            assert(s[end - 1 + 0] == seq!['"'][0]);
            assert(scanned(s, from, end) == step(scanned(s, from, end - 1), s[end - 1]));
            assert forall|k: int| at < k <= end implies (#[trigger] scanned(s, from, k)).depth
                >= depth by {
                if k != at + 1 && k != end {
                    assert(at + 1 < k <= end - 1);
                }
            }
        },
        Piece::Braced(pieces) => {
            let inner = pieces_text(pieces);
            assert(text =~= seq!['{'] + (inner + seq!['}']));
            lemma_stands_apart(s, seq!['{'], inner + seq!['}'], at);
            lemma_stands_apart(s, inner, seq!['}'], at + 1);
            lemma_pieces(s, pieces, from, at + 1, depth + 1);
            assert(s[end - 1 + 0] == seq!['}'][0]);
            assert(scanned(s, from, end) == step(scanned(s, from, end - 1), s[end - 1]));
            assert forall|k: int| at < k <= end implies (#[trigger] scanned(s, from, k)).depth
                >= depth by {
                if k != at + 1 && k != end {
                    assert(at + 1 < k <= end - 1);
                }
            }
        },
    }
}

proof fn lemma_pieces(s: Seq<char>, pieces: Seq<Piece>, from: int, at: int, depth: int)
    requires
        from <= at,
        pieces_written(pieces),
        stands_at(s, pieces_text(pieces), at),
        scanned(s, from, at) == (Scan { depth, in_string: false, escape: false }),
    ensures
        scanned(s, from, at + pieces_text(pieces).len()) == (Scan {
            depth,
            in_string: false,
            escape: false,
        }),
        stays_open(s, from, at, at + pieces_text(pieces).len(), depth),
    decreases pieces,
{
    if pieces.len() > 0 {
        let head = pieces_text(pieces.drop_last());
        let tail = piece_text(pieces.last());
        assert(pieces_text(pieces) == head + tail);
        lemma_stands_apart(s, head, tail, at);
        lemma_pieces(s, pieces.drop_last(), from, at, depth);
        lemma_piece(s, pieces.last(), from, at + head.len(), depth);
        assert forall|k: int| at < k <= at + pieces_text(pieces).len() implies (#[trigger] scanned(
            s,
            from,
            k,
        )).depth >= depth by {
            if k > at + head.len() {
                assert(at + head.len() < k <= at + head.len() + tail.len());
            }
        }
    }
}

proof fn lemma_closes_first(s: Seq<char>, from: int, at: int, end: int)
    requires
        from <= at < end <= s.len(),
        forall|k: int| at < k < end ==> (#[trigger] scanned(s, from, k)).depth != 0,
        scanned(s, from, end).depth == 0,
    ensures
        closing(s, from, at) == Some(end - 1),
    decreases end - at,
{
    if at + 1 < end {
        assert(scanned(s, from, at + 1).depth != 0);
        lemma_closes_first(s, from, at + 1, end);
    }
}

proof fn lemma_never_closes(s: Seq<char>, from: int, at: int)
    requires
        from <= at,
        forall|k: int| at < k <= s.len() ==> (#[trigger] scanned(s, from, k)).depth != 0,
    ensures
        closing(s, from, at) is None,
    decreases s.len() - at,
{
    if at < s.len() {
        assert(scanned(s, from, at + 1).depth != 0);
        lemma_never_closes(s, from, at + 1);
    }
}

/// A written object ends at its own closing brace, and not before.
proof fn lemma_written_object_end(s: Seq<char>, text: Seq<char>, pieces: Seq<Piece>, at: int)
    requires
        is_written_object(text, pieces),
        stands_at(s, text, at),
    ensures
        object_end(s, at) == Some(at + text.len()),
{
    let inner = pieces_text(pieces);
    let end = at + text.len();
    assert(text =~= seq!['{'] + (inner + seq!['}']));
    lemma_stands_apart(s, seq!['{'], inner + seq!['}'], at);
    lemma_stands_apart(s, inner, seq!['}'], at + 1);
    assert(s[at + 0] == seq!['{'][0]);
    assert(s[end - 1 + 0] == seq!['}'][0]);
    assert(scanned(s, at, at) == (Scan { depth: 0, in_string: false, escape: false }));
    assert(scanned(s, at, at + 1) == step(scanned(s, at, at), s[at]));
    lemma_pieces(s, pieces, at, at + 1, 1);
    assert(scanned(s, at, end) == step(scanned(s, at, end - 1), s[end - 1]));
    assert forall|k: int| at < k < end implies (#[trigger] scanned(s, at, k)).depth != 0 by {
        if k != at + 1 {
            assert(at + 1 < k <= end - 1);
        }
    }
    lemma_closes_first(s, at, at, end);
}

/// Where no brace opens, nothing is found.
proof fn lemma_passed_over(s: Seq<char>, from: int, to: int)
    requires
        0 <= from <= to <= s.len(),
        forall|i: int| from <= i < to ==> #[trigger] s[i] != '{',
    ensures
        objects(s, from) == objects(s, to),
    decreases to - from,
{
    if from < to {
        assert(s[from] != '{');
        assert(object_end(s, from) is None);
        lemma_passed_over(s, from + 1, to);
    }
}

/// What is found from a place on depends on the characters from there on alone.
proof fn lemma_scan_shifts(s: Seq<char>, t: Seq<char>, by: int, from: int, to: int)
    requires
        0 <= by,
        0 <= from,
        to <= t.len(),
        s.len() == by + t.len(),
        forall|i: int| 0 <= i < t.len() ==> s[by + i] == #[trigger] t[i],
    ensures
        scanned(s, by + from, by + to) == scanned(t, from, to),
    decreases to - from,
{
    if from < to {
        lemma_scan_shifts(s, t, by, from, to - 1);
        assert(s[by + (to - 1)] == t[to - 1]);
    }
}

proof fn lemma_closing_shifts(s: Seq<char>, t: Seq<char>, by: int, from: int, at: int)
    requires
        0 <= by,
        0 <= from <= at,
        s.len() == by + t.len(),
        forall|i: int| 0 <= i < t.len() ==> s[by + i] == #[trigger] t[i],
    ensures
        closing(s, by + from, by + at) == (match closing(t, from, at) {
            Some(end) => Some(by + end),
            None => None,
        }),
    decreases t.len() - at,
{
    if at < t.len() {
        lemma_scan_shifts(s, t, by, from, at + 1);
        lemma_closing_shifts(s, t, by, from, at + 1);
    }
}

proof fn lemma_objects_shift(s: Seq<char>, t: Seq<char>, by: int, from: int)
    requires
        0 <= by,
        0 <= from,
        s.len() == by + t.len(),
        forall|i: int| 0 <= i < t.len() ==> s[by + i] == #[trigger] t[i],
    ensures
        objects(s, by + from).len() == objects(t, from).len(),
        forall|k: int|
            0 <= k < objects(t, from).len() ==> objects(s, by + from)[k] == (
                by + (#[trigger] objects(t, from)[k]).0,
                by + objects(t, from)[k].1,
            ),
    decreases t.len() - from,
{
    if from < t.len() {
        assert(s[by + from] == t[from]);
        lemma_closing_shifts(s, t, by, from, from);
        lemma_closing(t, from, from);
        match object_end(t, from) {
            Some(end) => {
                assert(object_end(s, by + from) == Some(by + end));
                lemma_objects_shift(s, t, by, end);
                let a = objects(s, by + from);
                let b = objects(t, from);
                assert(a == seq![(by + from, by + end)] + objects(s, by + end));
                assert(b == seq![(from, end)] + objects(t, end));
                assert forall|k: int| 0 <= k < b.len() implies a[k] == (
                    by + (#[trigger] b[k]).0,
                    by + b[k].1,
                ) by {
                    if k > 0 {
                        assert(b[k] == objects(t, end)[k - 1]);
                        assert(a[k] == objects(s, by + end)[k - 1]);
                    }
                }
            },
            None => {
                assert(object_end(s, by + from) is None);
                lemma_objects_shift(s, t, by, from + 1);
                assert(by + (from + 1) == by + from + 1);
            },
        }
    }
}

proof fn lemma_found_behind(s: Seq<char>, t: Seq<char>, by: int)
    requires
        0 <= by,
        s.len() == by + t.len(),
        forall|i: int| 0 <= i < t.len() ==> s[by + i] == #[trigger] t[i],
    ensures
        objects(s, by).map_values(|range: (int, int)| s.subrange(range.0, range.1)) == json_objects(
            t,
        ),
{
    lemma_objects_shift(s, t, by, 0);
    found_objects_are_balanced_and_disjoint(t, 0);
    let cut = objects(s, by).map_values(|range: (int, int)| s.subrange(range.0, range.1));
    assert forall|k: int| 0 <= k < objects(t, 0).len() implies cut[k] == #[trigger] json_objects(
        t,
    )[k] by {
        let (start, end) = objects(t, 0)[k];
        assert(objects(s, by)[k] == (by + start, by + end));
        let piece = t.subrange(start, end);
        assert forall|i: int| 0 <= i < piece.len() implies s.subrange(by + start, by + end)[i]
            == #[trigger] piece[i] by {
            assert(s[by + (start + i)] == t[start + i]);
        }
        assert(s.subrange(by + start, by + end) =~= piece);
    }
    assert(cut =~= json_objects(t));
}

/// An object that stands in a text as JSON writes it is found whole, and found once:
/// whatever its strings hold, escaped quotes and braces among it, and whatever stands
/// before it that opens no brace. Behind it the search goes on as in a text of its own.
pub proof fn written_objects_are_found_whole(
    before: Seq<char>,
    object: Seq<char>,
    pieces: Seq<Piece>,
    after: Seq<char>,
)
    requires
        is_written_object(object, pieces),
        !before.contains('{'),
    ensures
        json_objects(before + object + after) == seq![object] + json_objects(after),
{
    let s = before + object + after;
    let at = before.len() as int;
    let end = at + object.len();
    assert(stands_at(s, object, at));
    lemma_written_object_end(s, object, pieces, at);
    assert forall|i: int| 0 <= i < at implies #[trigger] s[i] != '{' by {
        assert(s[i] == before[i]);
        assert(before.contains(before[i]));
    }
    lemma_passed_over(s, 0, at);
    assert(objects(s, at) == seq![(at, end)] + objects(s, end));
    let cut = |range: (int, int)| s.subrange(range.0, range.1);
    assert forall|i: int| 0 <= i < after.len() implies s[end + i] == #[trigger] after[i] by {}
    lemma_found_behind(s, after, end);
    assert(s.subrange(at, end) =~= object);
    assert((seq![(at, end)] + objects(s, end)).map_values(cut) =~= seq![object] + objects(
        s,
        end,
    ).map_values(cut));
}

/// A text that is one object as JSON writes it holds exactly that object, and ends with
/// it, also where white space follows that the search for its end passes over.
pub proof fn a_written_object_is_the_one_object_of_its_text(object: Seq<char>, pieces: Seq<Piece>)
    requires
        is_written_object(object, pieces),
    ensures
        json_objects(object) == seq![object],
        terminal_object(object) == Some(object),
{
    let none = Seq::<char>::empty();
    written_objects_are_found_whole(none, object, pieces, none);
    assert(none + object + none =~= object);
    assert(json_objects(none) =~= Seq::<Seq<char>>::empty());
    assert(seq![object] + json_objects(none) =~= seq![object]);
    assert(object.last() == '}');
    assert(trim_end(object) == object);
    assert(object.is_suffix_of(object)) by {
        assert(object.subrange(0, object.len() as int) =~= object);
    }
}

/// A text in which no brace opens, or none closes, holds no object.
pub proof fn texts_without_braces_hold_no_object(text: Seq<char>)
    requires
        !text.contains('{') || !text.contains('}'),
    ensures
        json_objects(text) == Seq::<Seq<char>>::empty(),
{
    if !text.contains('{') {
        assert forall|i: int| 0 <= i < text.len() implies #[trigger] text[i] != '{' by {
            assert(text.contains(text[i]));
        }
        lemma_passed_over(text, 0, text.len() as int);
    } else {
        lemma_nothing_closes(text, 0);
    }
    assert(json_objects(text) =~= Seq::<Seq<char>>::empty());
}

proof fn lemma_depth_grows(s: Seq<char>, from: int, to: int)
    requires
        0 <= from < to <= s.len(),
        s[from] == '{',
        !s.contains('}'),
    ensures
        scanned(s, from, to).depth >= 1,
    decreases to - from,
{
    if from + 1 < to {
        lemma_depth_grows(s, from, to - 1);
        assert(s.contains(s[to - 1]));
    } else {
        assert(scanned(s, from, from) == (Scan { depth: 0, in_string: false, escape: false }));
    }
}

proof fn lemma_nothing_closes(s: Seq<char>, from: int)
    requires
        0 <= from,
        !s.contains('}'),
    ensures
        objects(s, from) == Seq::<(int, int)>::empty(),
    decreases s.len() - from,
{
    if from < s.len() {
        if s[from] == '{' {
            assert forall|k: int| from < k <= s.len() implies (#[trigger] scanned(
                s,
                from,
                k,
            )).depth != 0 by {
                lemma_depth_grows(s, from, k);
            }
            lemma_never_closes(s, from, from);
        }
        assert(object_end(s, from) is None);
        lemma_nothing_closes(s, from + 1);
    }
}

/// A brace that is never closed hides nothing: what is found behind it is what would be
/// found without it.
pub proof fn an_unclosed_brace_hides_nothing(pieces: Seq<Piece>)
    requires
        pieces_written(pieces),
    ensures
        json_objects(seq!['{'] + pieces_text(pieces)) == json_objects(pieces_text(pieces)),
{
    let inner = pieces_text(pieces);
    let s = seq!['{'] + inner;
    assert(stands_at(s, inner, 1));
    assert(s[0] == '{');
    assert(scanned(s, 0, 0) == (Scan { depth: 0, in_string: false, escape: false }));
    assert(scanned(s, 0, 1) == step(scanned(s, 0, 0), s[0]));
    lemma_pieces(s, pieces, 0, 1, 1);
    assert forall|k: int| 0 < k <= s.len() implies (#[trigger] scanned(s, 0, k)).depth != 0 by {
        if k != 1 {
            assert(1 < k <= 1 + inner.len());
        }
    }
    lemma_never_closes(s, 0, 0);
    assert(object_end(s, 0) is None);
    assert(objects(s, 0) == objects(s, 1));
    assert forall|i: int| 0 <= i < inner.len() implies s[1 + i] == #[trigger] inner[i] by {}
    lemma_found_behind(s, inner, 1);
}

/// Every object that is found is part of the text: it opens with a brace, closes with
/// one, and stands in the text behind the objects that were found before it.
pub proof fn found_objects_are_parts_of_the_text(text: Seq<char>, k: int)
    requires
        0 <= k < json_objects(text).len(),
    ensures
        exists|start: int|
            0 <= start && start + json_objects(text)[k].len() <= text.len()
                && #[trigger] text.subrange(start, start + json_objects(text)[k].len())
                == json_objects(text)[k],
        json_objects(text)[k].len() >= 2,
        json_objects(text)[k][0] == '{',
        json_objects(text)[k].last() == '}',
{
    found_objects_are_balanced_and_disjoint(text, 0);
    let (start, end) = objects(text, 0)[k];
    let found = json_objects(text)[k];
    assert(found == text.subrange(start, end));
    assert(text.subrange(start, start + found.len()) == found);
    lemma_found_ends(text, 0, k);
}

proof fn lemma_found_ends(s: Seq<char>, from: int, k: int)
    requires
        0 <= from,
        0 <= k < objects(s, from).len(),
    ensures
        objects(s, from)[k].0 + 2 <= objects(s, from)[k].1,
        s[objects(s, from)[k].1 - 1] == '}',
    decreases s.len() - from,
{
    match object_end(s, from) {
        Some(end) => {
            lemma_closing(s, from, from);
            if k > 0 {
                assert(objects(s, from)[k] == objects(s, end)[k - 1]);
                lemma_found_ends(s, end, k - 1);
            } else {
                assert(scanned(s, from, from) == (Scan {
                    depth: 0,
                    in_string: false,
                    escape: false,
                }));
                assert(scanned(s, from, from + 1) == step(scanned(s, from, from), s[from]));
                lemma_closed_by_a_brace(s, from, from);
            }
        },
        None => {
            lemma_found_ends(s, from + 1, k);
        },
    }
}

proof fn lemma_closed_by_a_brace(s: Seq<char>, from: int, at: int)
    requires
        0 <= from <= at,
        closing(s, from, at) is Some,
        at > from ==> scanned(s, from, at).depth > 0,
        s[from] == '{',
    ensures
        s[closing(s, from, at)->0] == '}',
        closing(s, from, at)->0 > from,
    decreases s.len() - at,
{
    assert(scanned(s, from, at + 1) == step(scanned(s, from, at), s[at]));
    if scanned(s, from, at + 1).depth != 0 {
        if at == from {
            assert(scanned(s, from, from) == (Scan { depth: 0, in_string: false, escape: false }));
        }
        assert(scanned(s, from, at + 1).depth > 0);
        lemma_closed_by_a_brace(s, from, at + 1);
    }
}

/// A text ends with an object exactly if nothing but white space follows the last object
/// that is found in it: then that object is the one. Behind a written object anything
/// else hides it.
pub proof fn the_object_at_the_end_is_taken(
    before: Seq<char>,
    object: Seq<char>,
    pieces: Seq<Piece>,
    after: Seq<char>,
)
    requires
        is_written_object(object, pieces),
        !before.contains('{'),
        !after.contains('{'),
    ensures
        blank(after) ==> terminal_object(before + object + after) == Some(object),
        !blank(after) && !after.contains('}') ==> terminal_object(before + object + after) is None,
{
    let text = before + object + after;
    let none = Seq::<char>::empty();
    assert(object.last() == '}');
    assert(json_objects(none) =~= Seq::<Seq<char>>::empty());
    if blank(after) {
        let body = before + object;
        assert(body.last() == '}');
        trimming_the_end_undoes_white_space(body, after);
        written_objects_are_found_whole(before, object, pieces, none);
        assert(before + object + none =~= body);
        assert(json_objects(body) =~= seq![object]);
        assert(object.is_suffix_of(body)) by {
            assert(body.subrange(body.len() - object.len(), body.len() as int) =~= object);
        }
    } else if !after.contains('}') {
        let kept = lemma_kept_tail(before + object, after);
        written_objects_are_found_whole(before, object, pieces, kept);
        assert(!kept.contains('{')) by {
            if kept.contains('{') {
                let k = choose|k: int| 0 <= k < kept.len() && kept[k] == '{';
                assert(after[k] == '{');
            }
        }
        texts_without_braces_hold_no_object(kept);
        let body = before + object + kept;
        assert(json_objects(body) =~= seq![object]);
        assert(body.last() == kept.last());
        assert(kept.contains(kept.last()));
        if object.is_suffix_of(body) {
            assert(body.subrange(body.len() - object.len(), body.len() as int).last()
                == body.last());
            assert(kept[kept.len() - 1] == '}');
            assert(after[kept.len() - 1] == '}');
        }
    }
}

/// What trimming the end of a text leaves of its last part, where that is not blank.
proof fn lemma_kept_tail(front: Seq<char>, tail: Seq<char>) -> (kept: Seq<char>)
    requires
        !blank(tail),
    ensures
        trim_end(front + tail) == front + kept,
        0 < kept.len() <= tail.len(),
        forall|i: int| 0 <= i < kept.len() ==> kept[i] == #[trigger] tail[i],
    decreases tail.len(),
{
    let all = front + tail;
    assert(tail.len() > 0);
    if is_space(tail.last()) {
        let init = tail.drop_last();
        assert(!blank(init)) by {
            if blank(init) {
                assert forall|i: int| 0 <= i < tail.len() implies is_space(#[trigger] tail[i]) by {
                    if i < init.len() {
                        assert(init[i] == tail[i]);
                    }
                }
            }
        }
        assert(all.drop_last() =~= front + init);
        assert(all.last() == tail.last());
        let kept = lemma_kept_tail(front, init);
        assert forall|i: int| 0 <= i < kept.len() implies kept[i] == #[trigger] tail[i] by {
            assert(init[i] == tail[i]);
        }
        kept
    } else {
        assert(all.last() == tail.last());
        tail
    }
}

/// What is found in a text is what stands in it, and what is found at its end is the last of
/// that, where nothing but white space follows.
pub proof fn objects_are_found_where_they_stand(
    text: &str,
    found: Vec<&str>,
    last: Option<&str>,
    before: Seq<char>,
    object: Seq<char>,
    pieces: Seq<Piece>,
    after: Seq<char>,
)
    requires
        call_ensures(find_json_objects, (text,), found),
        call_ensures(terminal_json_object, (text,), last),
        is_written_object(object, pieces),
        !before.contains('{'),
        !after.contains('{'),
        text@ == before + object + after,
    ensures
        found@.len() == 1,
        found@[0]@ == object,
        blank(after) ==> (last matches Some(end) && end@ == object),
        !blank(after) && !after.contains('}') ==> last is None,
{
    written_objects_are_found_whole(before, object, pieces, after);
    texts_without_braces_hold_no_object(after);
    the_object_at_the_end_is_taken(before, object, pieces, after);
    let all = json_objects(text@);
    assert(all =~= seq![object]);
    assert(all[0] == object);
}

} // verus!
