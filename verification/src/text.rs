//! Text helpers shared by the rest of the crate: joining, ordering, trimming
//! and splitting, each specified over `Seq<char>`.

use vstd::prelude::*;

verus! {

/// The views of a sequence of string slices.
pub open spec fn views(parts: Seq<&str>) -> Seq<Seq<char>> {
    parts.map_values(|part: &str| part@)
}

/// `parts` written one after another with `sep` between neighbours.
pub open spec fn joined(parts: Seq<Seq<char>>, sep: Seq<char>) -> Seq<char>
    decreases parts.len(),
{
    if parts.len() == 0 {
        Seq::empty()
    } else if parts.len() == 1 {
        parts[0]
    } else {
        joined(parts.drop_last(), sep) + sep + parts.last()
    }
}

/// Joins `parts` with `sep` between neighbours.
pub fn join(parts: &Vec<&str>, sep: &str) -> (text: String)
    ensures
        text@ == joined(views(parts@), sep@),
{
    let mut text = String::new();
    let mut i: usize = 0;
    while i < parts.len()
        invariant
            i <= parts.len(),
            text@ == joined(views(parts@).take(i as int), sep@),
        decreases parts.len() - i,
    {
        proof {
            let all = views(parts@);
            assert(all.take(i + 1).drop_last() == all.take(i as int));
            assert(all.take(i + 1).last() == parts@[i as int]@);
        }
        if i > 0 {
            text.append(sep);
        }
        text.append(parts[i]);
        i += 1;
    }
    proof {
        assert(views(parts@).take(i as int) == views(parts@));
    }
    text
}

/// The characters of `text`, in order.
pub fn chars_of(text: &str) -> (chars: Vec<char>)
    ensures
        chars@ == text@,
{
    let mut chars: Vec<char> = Vec::new();
    for c in it: text.chars()
        invariant
            it.seq() == text@,
            chars@ == text@.take(it.index() as int),
    {
        proof {
            assert(text@.take(it.index() + 1) == text@.take(it.index() as int).push(c));
        }
        chars.push(c);
    }
    proof {
        assert(text@.take(text@.len() as int) == text@);
    }
    chars
}

/// Lexicographic order on text, character by character in code point order;
/// a proper prefix comes before the longer text.
pub open spec fn text_le(a: Seq<char>, b: Seq<char>) -> bool
    decreases a.len(),
{
    if a.len() == 0 {
        true
    } else if b.len() == 0 {
        false
    } else if a[0] != b[0] {
        (a[0] as u32) < (b[0] as u32)
    } else {
        text_le(a.drop_first(), b.drop_first())
    }
}

/// Every text is at most itself.
pub proof fn text_le_reflexive(a: Seq<char>)
    ensures
        text_le(a, a),
    decreases a.len(),
{
    if a.len() > 0 {
        text_le_reflexive(a.drop_first());
    }
}

/// Two texts that are each at most the other are the same text.
pub proof fn text_le_antisymmetric(a: Seq<char>, b: Seq<char>)
    requires
        text_le(a, b),
        text_le(b, a),
    ensures
        a == b,
    decreases a.len(),
{
    if a.len() == 0 || b.len() == 0 {
        assert(a =~= b);
    } else {
        text_le_antisymmetric(a.drop_first(), b.drop_first());
        assert(a =~= seq![a[0]] + a.drop_first());
        assert(b =~= seq![b[0]] + b.drop_first());
    }
}

/// The order passes along a chain.
pub proof fn text_le_transitive(a: Seq<char>, b: Seq<char>, c: Seq<char>)
    requires
        text_le(a, b),
        text_le(b, c),
    ensures
        text_le(a, c),
    decreases a.len(),
{
    if a.len() > 0 && b.len() > 0 && c.len() > 0 && a[0] == b[0] && b[0] == c[0] {
        text_le_transitive(a.drop_first(), b.drop_first(), c.drop_first());
    }
}

/// Any two texts are comparable.
pub proof fn text_le_total(a: Seq<char>, b: Seq<char>)
    ensures
        text_le(a, b) || text_le(b, a),
    decreases a.len(),
{
    if a.len() > 0 && b.len() > 0 {
        if a[0] == b[0] {
            text_le_total(a.drop_first(), b.drop_first());
        } else {
            vstd::utf8::char_u32_cast(a[0], a[0] as u32);
            vstd::utf8::char_u32_cast(b[0], b[0] as u32);
        }
    }
}

/// Whether `a` comes at or before `b` in lexicographic order.
pub fn le(a: &str, b: &str) -> (at_most: bool)
    ensures
        at_most == text_le(a@, b@),
{
    let x = chars_of(a);
    let y = chars_of(b);
    let mut i: usize = 0;
    proof {
        assert(a@.skip(0) == a@);
        assert(b@.skip(0) == b@);
    }
    while i < x.len() && i < y.len()
        invariant
            x@ == a@,
            y@ == b@,
            i <= x.len(),
            i <= y.len(),
            text_le(a@, b@) == text_le(a@.skip(i as int), b@.skip(i as int)),
        decreases x.len() - i,
    {
        proof {
            assert(a@.skip(i as int).drop_first() == a@.skip(i + 1));
            assert(b@.skip(i as int).drop_first() == b@.skip(i + 1));
        }
        if x[i] != y[i] {
            return (x[i] as u32) < (y[i] as u32);
        }
        i += 1;
    }
    i == x.len()
}

/// Whether `c` has the Unicode property White_Space.
pub open spec fn is_space(c: char) -> bool {
    let u = c as u32;
    ||| 0x09 <= u <= 0x0d
    ||| u == 0x20
    ||| u == 0x85
    ||| u == 0xa0
    ||| u == 0x1680
    ||| 0x2000 <= u <= 0x200a
    ||| u == 0x2028
    ||| u == 0x2029
    ||| u == 0x202f
    ||| u == 0x205f
    ||| u == 0x3000
}

/// Tests `c` for the Unicode property White_Space.
pub fn space(c: char) -> (yes: bool)
    ensures
        yes == is_space(c),
{
    let u: u32 = c as u32;
    (0x09 <= u && u <= 0x0d) || u == 0x20 || u == 0x85 || u == 0xa0 || u == 0x1680 || (0x2000 <= u
        && u <= 0x200a) || u == 0x2028 || u == 0x2029 || u == 0x202f || u == 0x205f || u == 0x3000
}

/// `s` without the white space it starts with.
pub open spec fn without_leading_space(s: Seq<char>) -> Seq<char>
    decreases s.len(),
{
    if s.len() > 0 && is_space(s[0]) {
        without_leading_space(s.drop_first())
    } else {
        s
    }
}

/// `s` without the white space it ends with.
pub open spec fn without_trailing_space(s: Seq<char>) -> Seq<char>
    decreases s.len(),
{
    if s.len() > 0 && is_space(s.last()) {
        without_trailing_space(s.drop_last())
    } else {
        s
    }
}

/// `s` without the white space at either end.
pub open spec fn trimmed(s: Seq<char>) -> Seq<char> {
    without_trailing_space(without_leading_space(s))
}

/// Removes the white space at both ends of `text`.
pub fn trim(text: &str) -> (rest: String)
    ensures
        rest@ == trimmed(text@),
{
    let chars = chars_of(text);
    let mut from: usize = 0;
    proof {
        assert(text@.skip(0) == text@);
    }
    while from < chars.len() && space(chars[from])
        invariant
            chars@ == text@,
            from <= chars.len(),
            without_leading_space(text@) == without_leading_space(text@.skip(from as int)),
        decreases chars.len() - from,
    {
        proof {
            assert(text@.skip(from as int).drop_first() == text@.skip(from + 1));
        }
        from += 1;
    }
    let mut to: usize = chars.len();
    proof {
        assert(text@.subrange(from as int, to as int) == text@.skip(from as int));
    }
    while to > from && space(chars[to - 1])
        invariant
            chars@ == text@,
            from <= to <= chars.len(),
            trimmed(text@) == without_trailing_space(text@.subrange(from as int, to as int)),
        decreases to,
    {
        proof {
            assert(text@.subrange(from as int, to as int).drop_last() == text@.subrange(
                from as int,
                to - 1,
            ));
        }
        to -= 1;
    }
    String::from_str(text.substring_char(from, to))
}

/// The index at which `c` first occurs in `s`.
pub open spec fn first_index(s: Seq<char>, c: char) -> Option<int>
    decreases s.len(),
{
    if s.len() == 0 {
        None
    } else if s[0] == c {
        Some(0)
    } else {
        match first_index(s.drop_first(), c) {
            Some(i) => Some(i + 1),
            None => None,
        }
    }
}

/// `first_index` names the first occurrence, and only where there is one.
pub proof fn first_index_is_first(s: Seq<char>, c: char)
    ensures
        match first_index(s, c) {
            Some(i) => 0 <= i < s.len() && s[i] == c && forall|j: int| 0 <= j < i ==> s[j] != c,
            None => forall|j: int| 0 <= j < s.len() ==> s[j] != c,
        },
    decreases s.len(),
{
    if s.len() > 0 && s[0] != c {
        let rest = s.drop_first();
        first_index_is_first(rest, c);
        match first_index(rest, c) {
            Some(i) => {
                assert forall|j: int| 0 <= j < i + 1 implies s[j] != c by {
                    if j > 0 {
                        assert(s[j] == rest[j - 1]);
                    }
                }
            },
            None => {
                assert forall|j: int| 0 <= j < s.len() implies s[j] != c by {
                    if j > 0 {
                        assert(s[j] == rest[j - 1]);
                    }
                }
            },
        }
    }
}

/// An index at which `c` occurs with no occurrence before it is the first.
pub proof fn first_index_found(s: Seq<char>, c: char, i: int)
    requires
        0 <= i < s.len(),
        s[i] == c,
        forall|j: int| 0 <= j < i ==> s[j] != c,
    ensures
        first_index(s, c) == Some(i),
{
    first_index_is_first(s, c);
}

/// A text that holds no `c` has no first occurrence of it.
pub proof fn first_index_absent(s: Seq<char>, c: char)
    requires
        forall|j: int| 0 <= j < s.len() ==> s[j] != c,
    ensures
        first_index(s, c) is None,
{
    first_index_is_first(s, c);
}

/// Finds where `c` first occurs in `chars` at or after `from`.
pub(crate) fn find_from(chars: &Vec<char>, from: usize, c: char) -> (at: Option<usize>)
    requires
        from <= chars.len(),
    ensures
        match at {
            Some(i) => first_index(chars@.skip(from as int), c) == Some(i - from) && from <= i
                < chars.len(),
            None => first_index(chars@.skip(from as int), c) is None,
        },
{
    let mut i: usize = from;
    while i < chars.len()
        invariant
            from <= i <= chars.len(),
            forall|j: int| from <= j < i ==> chars@[j] != c,
        decreases chars.len() - i,
    {
        if chars[i] == c {
            proof {
                first_index_found(chars@.skip(from as int), c, i - from);
            }
            return Some(i);
        }
        i += 1;
    }
    proof {
        first_index_absent(chars@.skip(from as int), c);
    }
    None
}

/// The pieces of `s` between occurrences of `sep`: one more piece than
/// there are occurrences, empty pieces included.
pub open spec fn split_on(s: Seq<char>, sep: char) -> Seq<Seq<char>>
    decreases s.len(),
    via split_on_decreases
{
    match first_index(s, sep) {
        None => seq![s],
        Some(i) => seq![s.take(i)] + split_on(s.skip(i + 1), sep),
    }
}

#[via_fn]
proof fn split_on_decreases(s: Seq<char>, sep: char) {
    first_index_is_first(s, sep);
}

/// Splits `text` at every occurrence of `sep`.
pub fn split(text: &str, sep: char) -> (pieces: Vec<String>)
    ensures
        pieces.deep_view() == split_on(text@, sep),
{
    let chars = chars_of(text);
    let mut pieces: Vec<String> = Vec::new();
    let mut from: usize = 0;
    proof {
        assert(text@.skip(0) == text@);
        assert(pieces.deep_view() == Seq::<Seq<char>>::empty());
    }
    loop
        invariant
            chars@ == text@,
            from <= chars.len(),
            split_on(text@, sep) == pieces.deep_view() + split_on(text@.skip(from as int), sep),
        decreases chars.len() - from,
    {
        let ghost before = pieces.deep_view();
        let ghost rest = text@.skip(from as int);
        match find_from(&chars, from, sep) {
            Some(at) => {
                pieces.push(String::from_str(text.substring_char(from, at)));
                proof {
                    assert(rest.take(at - from) == text@.subrange(from as int, at as int));
                    assert(rest.skip(at - from + 1) == text@.skip(at + 1));
                    assert(pieces.deep_view() == before.push(rest.take(at - from)));
                    assert(before + (seq![rest.take(at - from)] + split_on(
                        text@.skip(at + 1),
                        sep,
                    )) == before.push(rest.take(at - from)) + split_on(text@.skip(at + 1), sep));
                }
                from = at + 1;
            },
            None => {
                pieces.push(String::from_str(text.substring_char(from, chars.len())));
                proof {
                    assert(rest == text@.subrange(from as int, chars.len() as int));
                    assert(pieces.deep_view() == before.push(rest));
                    assert(before + seq![rest] == before.push(rest));
                }
                return pieces;
            },
        }
    }
}

/// Whether two texts are the same text.
pub fn equal(a: &str, b: &str) -> (same: bool)
    ensures
        same == (a@ == b@),
{
    let x = chars_of(a);
    let y = chars_of(b);
    if x.len() != y.len() {
        return false;
    }
    let mut i: usize = 0;
    while i < x.len()
        invariant
            x@ == a@,
            y@ == b@,
            x.len() == y.len(),
            i <= x.len(),
            a@.take(i as int) == b@.take(i as int),
        decreases x.len() - i,
    {
        if x[i] != y[i] {
            return false;
        }
        proof {
            assert(a@.take(i + 1) == a@.take(i as int).push(a@[i as int]));
            assert(b@.take(i + 1) == b@.take(i as int).push(b@[i as int]));
        }
        i += 1;
    }
    proof {
        assert(a@.take(i as int) == a@);
        assert(b@.take(i as int) == b@);
    }
    true
}

/// Whether `line` stays as it is when a text that holds it on a line of
/// its own is trimmed and cut into lines: it is not empty, has no white
/// space at either end and holds no line break.
pub open spec fn is_line(line: Seq<char>) -> bool {
    &&& line.len() > 0
    &&& !is_space(line[0])
    &&& !is_space(line.last())
    &&& forall|i: int| 0 <= i < line.len() ==> line[i] != '\n'
}

/// Whether what stands `before` and `after` a piece of text leaves it on
/// a part of its own when the text is cut at `c`.
pub open spec fn framed(before: Seq<char>, after: Seq<char>, c: char) -> bool {
    &&& before.len() == 0 || before.last() == c
    &&& after.len() == 0 || after[0] == c
}

/// Each of the parts that were joined with line breaks stands on a line
/// of its own in the joined text.
pub proof fn joined_frames(parts: Seq<Seq<char>>, at: int) -> (frame: (Seq<char>, Seq<char>))
    requires
        0 <= at < parts.len(),
    ensures
        joined(parts, "\n"@) == frame.0 + parts[at] + frame.1,
        framed(frame.0, frame.1, '\n'),
    decreases parts.len(),
{
    reveal_strlit("\n");
    let none = Seq::<char>::empty();
    if parts.len() == 1 {
        assert(none + parts[at] + none == parts[at]);
        (none, none)
    } else {
        let front = parts.drop_last();
        if at == parts.len() - 1 {
            let before = joined(front, "\n"@) + "\n"@;
            assert(before + parts[at] + none == joined(parts, "\n"@));
            (before, none)
        } else {
            let inner = joined_frames(front, at);
            let after = inner.1 + "\n"@ + parts.last();
            assert(inner.0 + parts[at] + after == joined(parts, "\n"@));
            (inner.0, after)
        }
    }
}

/// Removing the white space that a text begins with stops at the first
/// character that is none.
pub proof fn leading_space_stops(before: Seq<char>, rest: Seq<char>) -> (kept: Seq<char>)
    requires
        rest.len() > 0,
        !is_space(rest[0]),
    ensures
        without_leading_space(before + rest) == kept + rest,
        kept.len() == 0 || (before.len() > 0 && kept.last() == before.last()),
    decreases before.len(),
{
    let none = Seq::<char>::empty();
    if before.len() == 0 {
        assert(before + rest == rest);
        assert(none + rest == rest);
        none
    } else if is_space(before[0]) {
        assert((before + rest).drop_first() == before.drop_first() + rest);
        leading_space_stops(before.drop_first(), rest)
    } else {
        before
    }
}

/// Removing the white space that a text ends with stops at the last
/// character that is none.
pub proof fn trailing_space_stops(rest: Seq<char>, after: Seq<char>) -> (kept: Seq<char>)
    requires
        rest.len() > 0,
        !is_space(rest.last()),
    ensures
        without_trailing_space(rest + after) == rest + kept,
        kept.len() == 0 || (after.len() > 0 && kept[0] == after[0]),
    decreases after.len(),
{
    let none = Seq::<char>::empty();
    if after.len() == 0 {
        assert(rest + after == rest);
        assert(rest + none == rest);
        none
    } else if is_space(after.last()) {
        assert((rest + after).drop_last() == rest + after.drop_last());
        trailing_space_stops(rest, after.drop_last())
    } else {
        after
    }
}

/// A piece of text without `c` that is framed by `c` is one of the parts
/// that cutting at `c` gives.
pub proof fn split_holds_framed(before: Seq<char>, piece: Seq<char>, after: Seq<char>, c: char)
    requires
        framed(before, after, c),
        forall|i: int| 0 <= i < piece.len() ==> piece[i] != c,
    ensures
        split_on(before + piece + after, c).contains(piece),
    decreases before.len(),
{
    let text = before + piece + after;
    if before.len() == 0 {
        if after.len() == 0 {
            assert(text == piece);
            first_index_absent(text, c);
            assert(split_on(text, c)[0] == piece);
        } else {
            first_index_found(text, c, piece.len() as int);
            assert(text.take(piece.len() as int) == piece);
            assert(split_on(text, c)[0] == piece);
        }
    } else {
        assert(text[before.len() - 1] == c);
        first_index_is_first(text, c);
        let i = first_index(text, c)->0;
        let rest = before.skip(i + 1);
        assert(text.skip(i + 1) == rest + piece + after);
        split_holds_framed(rest, piece, after, c);
        let tail = split_on(text.skip(i + 1), c);
        let at = choose|at: int| 0 <= at < tail.len() && tail[at] == piece;
        assert(split_on(text, c)[at + 1] == piece);
    }
}

/// A line that was joined with others by line breaks is still a line of
/// the joined text after it was trimmed.
pub proof fn line_survives(lines: Seq<Seq<char>>, at: int)
    requires
        0 <= at < lines.len(),
        is_line(lines[at]),
    ensures
        split_on(trimmed(joined(lines, "\n"@)), '\n').contains(lines[at]),
{
    let line = lines[at];
    let frame = joined_frames(lines, at);
    assert(frame.0 + line + frame.1 == frame.0 + (line + frame.1));
    assert((line + frame.1)[0] == line[0]);
    let before = leading_space_stops(frame.0, line + frame.1);
    let after = trailing_space_stops(before + line, frame.1);
    assert(before + (line + frame.1) == (before + line) + frame.1);
    assert((before + line).last() == line.last());
    assert(trimmed(joined(lines, "\n"@)) == before + line + after);
    split_holds_framed(before, line, after, '\n');
}

/// The first of several joined parts stands in front, followed by the
/// separator and the others joined.
pub proof fn joined_front(parts: Seq<Seq<char>>, sep: Seq<char>)
    requires
        parts.len() >= 2,
    ensures
        joined(parts, sep) == parts[0] + sep + joined(parts.drop_first(), sep),
    decreases parts.len(),
{
    let front = parts.drop_last();
    let rest = parts.drop_first();
    if parts.len() == 2 {
        assert(joined(front, sep) == parts[0]);
        assert(joined(rest, sep) == parts.last());
    } else {
        joined_front(front, sep);
        assert(rest.drop_last() == front.drop_first());
        assert(rest.last() == parts.last());
        assert(joined(parts, sep) == parts[0] + sep + (joined(front.drop_first(), sep) + sep
            + parts.last()));
    }
}

/// Whether none of `lines` holds a line break.
pub open spec fn unbroken(lines: Seq<Seq<char>>) -> bool {
    forall|i: int, j: int| 0 <= i < lines.len() && 0 <= j < lines[i].len() ==> lines[i][j] != '\n'
}

/// Lines without line breaks that were joined by line breaks are the
/// lines that cutting at the line breaks gives.
pub proof fn split_of_joined(lines: Seq<Seq<char>>)
    requires
        lines.len() > 0,
        unbroken(lines),
    ensures
        split_on(joined(lines, "\n"@), '\n') == lines,
    decreases lines.len(),
{
    reveal_strlit("\n");
    let text = joined(lines, "\n"@);
    if lines.len() == 1 {
        first_index_absent(text, '\n');
        assert(seq![text] == lines);
    } else {
        let rest = lines.drop_first();
        joined_front(lines, "\n"@);
        first_index_found(text, '\n', lines[0].len() as int);
        assert(text.take(lines[0].len() as int) == lines[0]);
        assert(text.skip(lines[0].len() as int + 1) == joined(rest, "\n"@));
        assert(unbroken(rest)) by {
            assert forall|i: int, j: int|
                0 <= i < rest.len() && 0 <= j < rest[i].len() implies rest[i][j] != '\n' by {
                assert(rest[i] == lines[i + 1]);
            }
        }
        split_of_joined(rest);
        assert(seq![lines[0]] + rest == lines);
    }
}

/// What is left of a text without the white space it ends with is where
/// it begins.
pub proof fn trailing_space_is_at_the_end(s: Seq<char>)
    ensures
        without_trailing_space(s).len() <= s.len(),
        without_trailing_space(s) == s.take(without_trailing_space(s).len() as int),
        s.len() > 0 && !is_space(s[0]) ==> without_trailing_space(s).len() > 0,
    decreases s.len(),
{
    if s.len() > 0 && is_space(s.last()) {
        trailing_space_is_at_the_end(s.drop_last());
        let kept = without_trailing_space(s.drop_last());
        assert(s.drop_last().take(kept.len() as int) == s.take(kept.len() as int));
    } else {
        assert(s.take(s.len() as int) == s);
    }
}

/// The white space that a text ends with is removed from its last part
/// alone, where that part does not begin with white space.
pub proof fn trailing_space_within(before: Seq<char>, last: Seq<char>)
    requires
        last.len() > 0,
        !is_space(last[0]),
    ensures
        without_trailing_space(before + last) == before + without_trailing_space(last),
    decreases last.len(),
{
    if is_space(last.last()) {
        assert((before + last).drop_last() == before + last.drop_last());
        trailing_space_within(before, last.drop_last());
    }
}

/// Whether each of `lines` begins with a character that is no white
/// space.
pub open spec fn begun(lines: Seq<Seq<char>>) -> bool {
    forall|i: int| 0 <= i < lines.len() ==> begins(#[trigger] lines[i])
}

/// Whether `line` begins with a character that is no white space.
pub open spec fn begins(line: Seq<char>) -> bool {
    line.len() > 0 && !is_space(line[0])
}

/// Lines that each begin with something and hold no line break are
/// read as they are, but for the white space that the last ends with.
pub proof fn lines_are_read(lines: Seq<Seq<char>>)
    requires
        lines.len() > 0,
        unbroken(lines),
        begun(lines),
    ensures
        split_on(trimmed(joined(lines, "\n"@)), '\n') == lines.drop_last().push(
            without_trailing_space(lines.last()),
        ),
{
    reveal_strlit("\n");
    let text = joined(lines, "\n"@);
    let front = lines.drop_last();
    let last = lines.last();
    let kept = without_trailing_space(last);
    let read = front.push(kept);
    assert(begins(lines[lines.len() - 1]) && begins(lines[0]));
    trailing_space_is_at_the_end(last);
    let before = if lines.len() == 1 {
        Seq::<char>::empty()
    } else {
        joined(front, "\n"@) + "\n"@
    };
    assert(text == before + last);
    assert(text[0] == lines[0][0]) by {
        if lines.len() >= 2 {
            joined_front(lines, "\n"@);
        }
    }
    assert(without_leading_space(text) == text);
    trailing_space_within(before, last);
    assert(read.drop_last() == front);
    assert(joined(read, "\n"@) == before + kept);
    assert(unbroken(read)) by {
        assert forall|i: int, j: int|
            0 <= i < read.len() && 0 <= j < read[i].len() implies read[i][j] != '\n' by {
            if i < front.len() {
                assert(read[i] == lines[i]);
            } else {
                assert(read[i][j] == last[j]);
            }
        }
    }
    split_of_joined(read);
}

/// Of a key, a space and a value, the white space at the end is that of
/// the value, and the space too where the value is nothing else.
pub proof fn trailing_space_of_line(key: Seq<char>, value: Seq<char>)
    requires
        key.len() > 0,
        !is_space(key.last()),
    ensures
        without_trailing_space(key + " "@ + value) == if without_trailing_space(value).len() == 0 {
            key
        } else {
            key + " "@ + without_trailing_space(value)
        },
    decreases value.len(),
{
    reveal_strlit(" ");
    let line = key + " "@ + value;
    if value.len() == 0 {
        assert(line.last() == ' ');
        assert(is_space(' '));
        assert(line.drop_last() == key);
        assert(without_trailing_space(key) == key);
    } else if is_space(value.last()) {
        assert(line.last() == value.last());
        assert(line.drop_last() == key + " "@ + value.drop_last());
        trailing_space_of_line(key, value.drop_last());
    } else {
        assert(line.last() == value.last());
    }
}

} // verus!
