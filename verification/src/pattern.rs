//! The listing patterns that the in-memory store reads: a sequence of
//! atoms, each a character, `.` for any character or `\w` for a word
//! character, and each repeated where `+` follows it. A key matches a
//! pattern that some part of it matches.

use crate::text::chars_of;
use vstd::prelude::*;

verus! {

/// What one atom of a pattern stands for.
#[derive(Clone, Copy, Debug)]
pub enum Class {
    /// Any character.
    Any,
    /// A letter or digit of ASCII, or an underscore.
    Word,
    /// This character.
    Exactly(char),
}

/// One atom of a pattern: a class of characters, once or at least once.
#[derive(Clone, Copy, Debug)]
pub struct Atom {
    pub class: Class,
    pub repeated: bool,
}

/// Whether `c` is a letter or digit of ASCII, or an underscore.
pub open spec fn is_word(c: char) -> bool {
    ||| 'a' <= c <= 'z'
    ||| 'A' <= c <= 'Z'
    ||| '0' <= c <= '9'
    ||| c == '_'
}

/// Whether `c` belongs to `class`.
pub open spec fn admits(class: Class, c: char) -> bool {
    match class {
        Class::Any => true,
        Class::Word => is_word(c),
        Class::Exactly(wanted) => c == wanted,
    }
}

/// The class that a pattern begins with.
pub open spec fn leading_class(pattern: Seq<char>) -> Class
    recommends
        pattern.len() > 0,
{
    if pattern[0] == '\\' && pattern.len() >= 2 {
        if pattern[1] == 'w' {
            Class::Word
        } else {
            Class::Exactly(pattern[1])
        }
    } else if pattern[0] == '.' {
        Class::Any
    } else {
        Class::Exactly(pattern[0])
    }
}

/// How many characters spell the class that a pattern begins with.
pub open spec fn leading_class_len(pattern: Seq<char>) -> int
    recommends
        pattern.len() > 0,
{
    if pattern[0] == '\\' && pattern.len() >= 2 {
        2
    } else {
        1
    }
}

/// Whether the atom that a pattern begins with is repeated.
pub open spec fn leading_repeated(pattern: Seq<char>) -> bool
    recommends
        pattern.len() > 0,
{
    let used = leading_class_len(pattern);
    pattern.len() > used && pattern[used] == '+'
}

/// How many characters spell the atom that a pattern begins with.
pub open spec fn leading_atom_len(pattern: Seq<char>) -> int
    recommends
        pattern.len() > 0,
{
    if leading_repeated(pattern) {
        leading_class_len(pattern) + 1
    } else {
        leading_class_len(pattern)
    }
}

/// The atoms that a pattern spells.
pub open spec fn atoms_of(pattern: Seq<char>) -> Seq<Atom>
    decreases pattern.len(),
{
    if pattern.len() == 0 {
        Seq::empty()
    } else {
        seq![Atom { class: leading_class(pattern), repeated: leading_repeated(pattern) }]
            + atoms_of(pattern.skip(leading_atom_len(pattern)))
    }
}

/// Whether `text` begins with a match of `atoms`.
pub open spec fn begins_with(atoms: Seq<Atom>, text: Seq<char>) -> bool
    decreases atoms.len(), text.len(),
{
    if atoms.len() == 0 {
        true
    } else if text.len() == 0 || !admits(atoms[0].class, text[0]) {
        false
    } else {
        ||| begins_with(atoms.drop_first(), text.drop_first())
        ||| atoms[0].repeated && begins_with(atoms, text.drop_first())
    }
}

/// Whether some part of `text` matches `atoms`.
pub open spec fn holds_match(atoms: Seq<Atom>, text: Seq<char>) -> bool {
    exists|from: int| 0 <= from <= text.len() && begins_with(atoms, #[trigger] text.skip(from))
}

/// Whether some part of `key` matches `pattern`.
pub open spec fn pattern_matches(pattern: Seq<char>, key: Seq<char>) -> bool {
    holds_match(atoms_of(pattern), key)
}

/// Tests `c` for being a letter or digit of ASCII, or an underscore.
pub fn word(c: char) -> (yes: bool)
    ensures
        yes == is_word(c),
{
    ('a' <= c && c <= 'z') || ('A' <= c && c <= 'Z') || ('0' <= c && c <= '9') || c == '_'
}

/// Tests `c` for belonging to `class`.
pub fn class_admits(class: Class, c: char) -> (yes: bool)
    ensures
        yes == admits(class, c),
{
    match class {
        Class::Any => true,
        Class::Word => word(c),
        Class::Exactly(wanted) => c == wanted,
    }
}

/// Reads the atoms that `pattern` spells.
pub fn parse(pattern: &str) -> (atoms: Vec<Atom>)
    ensures
        atoms@ == atoms_of(pattern@),
{
    let chars = chars_of(pattern);
    let mut atoms: Vec<Atom> = Vec::new();
    let mut i: usize = 0;
    proof {
        assert(chars@.skip(0) == chars@);
    }
    while i < chars.len()
        invariant
            i <= chars.len(),
            chars@ == pattern@,
            atoms_of(pattern@) == atoms@ + atoms_of(chars@.skip(i as int)),
        decreases chars.len() - i,
    {
        let ghost rest = chars@.skip(i as int);
        let ghost before = atoms@;
        let mut used: usize = 1;
        let class = if chars[i] == '\\' && chars.len() - i >= 2 {
            used = 2;
            if chars[i + 1] == 'w' {
                Class::Word
            } else {
                Class::Exactly(chars[i + 1])
            }
        } else if chars[i] == '.' {
            Class::Any
        } else {
            Class::Exactly(chars[i])
        };
        let repeated = chars.len() - i > used && chars[i + used] == '+';
        if repeated {
            used += 1;
        }
        atoms.push(Atom { class, repeated });
        proof {
            assert(rest[0] == chars@[i as int]);
            if rest.len() >= 2 {
                assert(rest[1] == chars@[i + 1]);
            }
            if rest.len() >= 3 {
                assert(rest[2] == chars@[i + 2]);
            }
            assert(used == leading_atom_len(rest));
            assert(rest.skip(used as int) == chars@.skip(i + used));
            assert(before + (seq![Atom { class, repeated }] + atoms_of(chars@.skip(i + used)))
                == atoms@ + atoms_of(chars@.skip(i + used)));
        }
        i += used;
    }
    atoms
}

/// Tests whether `text` from `t` on begins with a match of `atoms` from
/// `a` on.
fn begins_at(atoms: &Vec<Atom>, a: usize, text: &Vec<char>, t: usize) -> (yes: bool)
    requires
        a <= atoms.len(),
        t <= text.len(),
    ensures
        yes == begins_with(atoms@.skip(a as int), text@.skip(t as int)),
    decreases atoms.len() - a, text.len() - t,
{
    proof {
        if a < atoms.len() {
            assert(atoms@.skip(a as int).drop_first() == atoms@.skip(a + 1));
        }
        if t < text.len() {
            assert(text@.skip(t as int).drop_first() == text@.skip(t + 1));
        }
    }
    if a == atoms.len() {
        true
    } else if t == text.len() || !class_admits(atoms[a].class, text[t]) {
        false
    } else if begins_at(atoms, a + 1, text, t + 1) {
        true
    } else {
        atoms[a].repeated && begins_at(atoms, a, text, t + 1)
    }
}

/// Tests whether some part of `key` matches `atoms`.
pub fn is_match(atoms: &Vec<Atom>, key: &str) -> (yes: bool)
    ensures
        yes == holds_match(atoms@, key@),
{
    let text = chars_of(key);
    let mut from: usize = 0;
    proof {
        assert(atoms@.skip(0) == atoms@);
    }
    while from < text.len()
        invariant
            from <= text.len(),
            text@ == key@,
            atoms@.skip(0) == atoms@,
            forall|i: int| 0 <= i < from ==> !begins_with(atoms@, #[trigger] key@.skip(i)),
        decreases text.len() - from,
    {
        if begins_at(atoms, 0, &text, from) {
            return true;
        }
        from += 1;
    }
    begins_at(atoms, 0, &text, from)
}

/// A match goes on by one atom and one character that it admits.
pub proof fn match_goes_on(atom: Atom, c: char, atoms: Seq<Atom>, text: Seq<char>)
    requires
        admits(atom.class, c),
        begins_with(atoms, text),
    ensures
        begins_with(seq![atom] + atoms, seq![c] + text),
{
    assert((seq![atom] + atoms).drop_first() == atoms);
    assert((seq![c] + text).drop_first() == text);
}

/// A repeated atom matches a run of characters that it admits.
pub proof fn match_goes_on_through(
    class: Class,
    run: Seq<char>,
    atoms: Seq<Atom>,
    text: Seq<char>,
)
    requires
        run.len() > 0,
        forall|i: int| 0 <= i < run.len() ==> admits(class, run[i]),
        begins_with(atoms, text),
    ensures
        begins_with(seq![Atom { class, repeated: true }] + atoms, run + text),
    decreases run.len(),
{
    let all = seq![Atom { class, repeated: true }] + atoms;
    assert(all.drop_first() == atoms);
    assert((run + text)[0] == run[0]);
    if run.len() == 1 {
        assert((run + text).drop_first() == text);
    } else {
        let rest = run.drop_first();
        assert forall|i: int| 0 <= i < rest.len() implies admits(class, rest[i]) by {
            assert(rest[i] == run[i + 1]);
        }
        match_goes_on_through(class, rest, atoms, text);
        assert((run + text).drop_first() == rest + text);
    }
}

} // verus!
