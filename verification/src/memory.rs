//! A configuration store held in memory. It reads listing patterns as
//! `pattern` describes them. It fails only to report absence, unless it
//! was made to refuse writes after a number of them.

use crate::error::{ErrorView, PartnersError};
use crate::author::AuthorView;
use crate::git::{
    author_pattern, email_key, is_name, is_nick, name_key, stored_authors, with_author, Config,
    Scope,
};
use crate::pattern::{
    atoms_of, begins_with, is_match, is_word, match_goes_on, match_goes_on_through, parse,
    pattern_matches, Atom, Class,
};
use crate::store::{
    in_section, is_at, is_under, line_of, listing, lookup, position, ConfigStore, Entry,
};
use crate::text::{chars_of, join, split, trim, trimmed, views};
use vstd::prelude::*;

verus! {

/// One value held by a `MemoryStore`.
pub struct Item {
    pub scope: Config,
    pub key: String,
    pub value: String,
}

impl View for Item {
    type V = Entry;

    open spec fn view(&self) -> Entry {
        Entry { scope: self.scope@, key: self.key@, value: self.value@ }
    }
}

impl Clone for Item {
    fn clone(&self) -> (copy: Item)
        ensures
            copy@ == self@,
    {
        Item { scope: self.scope.clone(), key: self.key.clone(), value: self.value.clone() }
    }
}

/// The views of a sequence of items.
pub open spec fn entries_of(items: Seq<Item>) -> Seq<Entry> {
    items.map_values(|item: Item| item@)
}

/// Tests whether `key` belongs to `section`.
pub fn key_in_section(key: &str, section: &str) -> (yes: bool)
    ensures
        yes == in_section(key@, section@),
{
    let k = chars_of(key);
    let s = chars_of(section);
    if k.len() <= s.len() {
        return false;
    }
    let mut i: usize = 0;
    while i < s.len()
        invariant
            i <= s.len() < k.len(),
            k@ == key@,
            s@ == section@,
            key@.take(i as int) == section@.take(i as int),
        decreases s.len() - i,
    {
        if k[i] != s[i] {
            proof {
                assert(key@.take(s.len() as int)[i as int] != section@[i as int]);
            }
            return false;
        }
        proof {
            assert(key@.take(i + 1) == key@.take(i as int).push(key@[i as int]));
            assert(section@.take(i + 1) == section@.take(i as int).push(section@[i as int]));
        }
        i += 1;
    }
    proof {
        assert(section@.take(i as int) == section@);
    }
    if k[i] != '.' {
        return false;
    }
    let mut j: usize = s.len() + 1;
    while j < k.len()
        invariant
            s.len() < j <= k.len(),
            k@ == key@,
            s@ == section@,
            forall|m: int| s.len() < m < j ==> key@[m] != '.',
        decreases k.len() - j,
    {
        if k[j] == '.' {
            return false;
        }
        j += 1;
    }
    true
}

/// The writes that a store accepts after one more was asked of it.
pub open spec fn spent(left: Option<nat>) -> Option<nat> {
    match left {
        Some(left) => if left == 0 {
            Some(0nat)
        } else {
            Some((left - 1) as nat)
        },
        None => None,
    }
}

/// The error with which a store that accepts `left` more writes refuses
/// the write that comes after `later` others, if it refuses it.
pub open spec fn refused(left: Option<nat>, later: nat) -> Option<ErrorView> {
    match left {
        Some(left) => if left <= later {
            Some(ErrorView::BackendError("error: no more writes"@))
        } else {
            None
        },
        None => None,
    }
}

/// A configuration store in memory.
pub struct MemoryStore {
    items: Vec<Item>,
    /// The number of writes that the store still accepts, if it counts.
    budget: Option<usize>,
}

impl MemoryStore {
    /// The number of writes that the store still accepts, if it counts
    /// them.
    pub closed spec fn writes_left(&self) -> Option<nat> {
        match self.budget {
            Some(left) => Some(left as nat),
            None => None,
        }
    }

    /// A store that holds nothing and accepts every write.
    pub fn new() -> (store: MemoryStore)
        ensures
            store.entries() == Seq::<Entry>::empty(),
            store.writes_left() is None,
            store.reliable(),
    {
        let store = MemoryStore { items: Vec::new(), budget: None };
        proof {
            assert(entries_of(store.items@) == Seq::<Entry>::empty());
        }
        store
    }

    /// A store that holds nothing, accepts `writes` writes and fails
    /// every write after them.
    pub fn failing_after(writes: usize) -> (store: MemoryStore)
        ensures
            store.entries() == Seq::<Entry>::empty(),
            store.writes_left() == Some(writes as nat),
            !store.reliable(),
    {
        let store = MemoryStore { items: Vec::new(), budget: Some(writes) };
        proof {
            assert(entries_of(store.items@) == Seq::<Entry>::empty());
        }
        store
    }

    /// Counts one write; fails where the store accepts no more.
    fn spend(&mut self) -> (done: Result<(), PartnersError>)
        ensures
            final(self).entries() == old(self).entries(),
            final(self).reliable() == old(self).reliable(),
            final(self).writes_left() == spent(old(self).writes_left()),
            match refused(old(self).writes_left(), 0) {
                Some(error) => done matches Err(reported) && reported@ == error,
                None => done is Ok,
            },
    {
        match self.budget {
            Some(left) => {
                if left == 0 {
                    Err(PartnersError::BackendError(String::from_str("error: no more writes")))
                } else {
                    self.budget = Some(left - 1);
                    Ok(())
                }
            },
            None => Ok(()),
        }
    }

    /// Finds the first item for `key` in `scope`.
    fn find(&self, scope: &Config, key: &str) -> (at: Option<usize>)
        ensures
            match at {
                Some(i) => position(self.entries(), scope@, key@) == Some(i as int) && i
                    < self.items.len(),
                None => position(self.entries(), scope@, key@) is None,
            },
    {
        let ghost all = entries_of(self.items@);
        let mut i: usize = 0;
        while i < self.items.len()
            invariant
                i <= self.items.len(),
                all == entries_of(self.items@),
                forall|j: int| 0 <= j < i ==> !is_at(all[j], scope@, key@),
            decreases self.items.len() - i,
        {
            if self.items[i].scope.same(scope) && crate::text::equal(
                self.items[i].key.as_str(),
                key,
            ) {
                proof {
                    assert(is_at(all[i as int], scope@, key@));
                    crate::store::position_is_first(all, scope@, key@);
                }
                return Some(i);
            }
            i += 1;
        }
        proof {
            crate::store::position_is_first(all, scope@, key@);
        }
        None
    }
}

impl ConfigStore for MemoryStore {
    closed spec fn entries(&self) -> Seq<Entry> {
        entries_of(self.items@)
    }

    open spec fn faithful(&self) -> bool {
        true
    }

    open spec fn reliable(&self) -> bool {
        self.writes_left() is None
    }

    open spec fn refusal(&self, later: nat, scope: Scope, key: Seq<char>) -> Option<ErrorView> {
        refused(self.writes_left(), later)
    }

    open spec fn matching(pattern: Seq<char>) -> spec_fn(Seq<char>) -> bool {
        |key: Seq<char>| pattern_matches(pattern, key)
    }

    fn get(&self, scope: &Config, key: &str) -> (found: Result<String, PartnersError>) {
        match self.find(scope, key) {
            Some(i) => Ok(trim(self.items[i].value.as_str())),
            None => Err(PartnersError::NotFound),
        }
    }

    fn set(&mut self, scope: &Config, key: &str, value: &str) -> (done: Result<
        (),
        PartnersError,
    >)
        ensures
            final(self).writes_left() == spent(old(self).writes_left()),
    {
        self.spend()?;
        let ghost before = entries_of(self.items@);
        let item = Item {
            scope: scope.clone(),
            key: String::from_str(key),
            value: String::from_str(value),
        };
        match self.find(scope, key) {
            Some(i) => {
                self.items.set(i, item);
                proof {
                    assert(entries_of(self.items@) == before.update(i as int, item@));
                }
            },
            None => {
                self.items.push(item);
                proof {
                    assert(entries_of(self.items@) == before.push(item@));
                }
            },
        }
        Ok(())
    }

    fn list(&self, scope: &Config, pattern: &str) -> (lines: Result<Vec<String>, PartnersError>) {
        let atoms = parse(pattern);
        let ghost all = entries_of(self.items@);
        let ghost accepts = Self::matching(pattern@);
        let mut lines: Vec<String> = Vec::new();
        let mut i: usize = 0;
        proof {
            assert(lines.deep_view() == Seq::<Seq<char>>::empty());
            assert(all.take(0) == Seq::<Entry>::empty());
        }
        while i < self.items.len()
            invariant
                i <= self.items.len(),
                all == entries_of(self.items@),
                accepts == Self::matching(pattern@),
                atoms@ == crate::pattern::atoms_of(pattern@),
                lines.deep_view() == listing(all.take(i as int), scope@, accepts),
            decreases self.items.len() - i,
        {
            let ghost before = lines.deep_view();
            proof {
                assert(all.take(i + 1).drop_last() == all.take(i as int));
                assert(all.take(i + 1).last() == self.items@[i as int]@);
            }
            if self.items[i].scope.same(scope) && is_match(&atoms, self.items[i].key.as_str()) {
                let mut line = self.items[i].key.clone();
                line.append(" ");
                line.append(self.items[i].value.as_str());
                lines.push(line);
                proof {
                    assert(line@ == line_of(self.items@[i as int]@));
                    assert(lines.deep_view() == before + seq![line@]);
                }
            }
            i += 1;
        }
        proof {
            assert(all.take(i as int) == all);
        }
        if lines.len() == 0 {
            proof {
                assert(lines.deep_view().len() == 0);
            }
            return Err(PartnersError::NotFound);
        }
        let mut parts: Vec<&str> = Vec::new();
        let mut j: usize = 0;
        while j < lines.len()
            invariant
                j <= lines.len(),
                views(parts@) == lines.deep_view().take(j as int),
            decreases lines.len() - j,
        {
            let ghost before = parts@;
            parts.push(lines[j].as_str());
            proof {
                let all = lines.deep_view();
                assert(all.take(j + 1) == all.take(j as int).push(all[j as int]));
                assert(views(parts@) == views(before).push(lines@[j as int]@));
            }
            j += 1;
        }
        proof {
            assert(lines.deep_view().take(j as int) == lines.deep_view());
        }
        let output = join(&parts, "\n");
        let read = trim(output.as_str());
        Ok(split(read.as_str(), '\n'))
    }

    fn remove_section(&mut self, scope: &Config, section: &str) -> (done: Result<
        (),
        PartnersError,
    >)
        ensures
            final(self).writes_left() == spent(old(self).writes_left()),
    {
        self.spend()?;
        let ghost all = entries_of(self.items@);
        let ghost kept_if = |entry: Entry| !is_under(entry, scope@, section@);
        let mut kept: Vec<Item> = Vec::new();
        let mut i: usize = 0;
        proof {
            reveal(Seq::filter);
            assert(entries_of(kept@) == Seq::<Entry>::empty());
            assert(all.take(0) == Seq::<Entry>::empty());
        }
        while i < self.items.len()
            invariant
                i <= self.items.len(),
                all == entries_of(self.items@),
                kept_if == |entry: Entry| !is_under(entry, scope@, section@),
                entries_of(kept@) == all.take(i as int).filter(kept_if),
            decreases self.items.len() - i,
        {
            let ghost before = entries_of(kept@);
            proof {
                reveal(Seq::filter);
                assert(all.take(i + 1).drop_last() == all.take(i as int));
                assert(all.take(i + 1).last() == self.items@[i as int]@);
            }
            if !(self.items[i].scope.same(scope) && key_in_section(
                self.items[i].key.as_str(),
                section,
            )) {
                kept.push(self.items[i].clone());
                proof {
                    assert(entries_of(kept@) == before.push(self.items@[i as int]@));
                }
            }
            i += 1;
        }
        proof {
            assert(all.take(i as int) == all);
        }
        self.items = kept;
        Ok(())
    }
}

/// Whether `nick` is one or more letters or digits of ASCII, or
/// underscores.
pub open spec fn is_word_nick(nick: Seq<char>) -> bool {
    nick.len() > 0 && forall|i: int| 0 <= i < nick.len() ==> is_word(nick[i])
}

/// The atoms of the pattern that lists the names of all authors.
pub open spec fn author_atoms() -> Seq<Atom> {
    seq![
        Atom { class: Class::Exactly('a'), repeated: false },
        Atom { class: Class::Exactly('u'), repeated: false },
        Atom { class: Class::Exactly('t'), repeated: false },
        Atom { class: Class::Exactly('h'), repeated: false },
        Atom { class: Class::Exactly('o'), repeated: false },
        Atom { class: Class::Exactly('r'), repeated: false },
        Atom { class: Class::Any, repeated: false },
        Atom { class: Class::Word, repeated: true },
        Atom { class: Class::Any, repeated: false },
        Atom { class: Class::Exactly('n'), repeated: false },
        Atom { class: Class::Exactly('a'), repeated: false },
        Atom { class: Class::Exactly('m'), repeated: false },
        Atom { class: Class::Exactly('e'), repeated: false },
    ]
}

/// The pattern that lists the names of all authors spells `author_atoms`.
pub proof fn author_pattern_is_read()
    ensures
        atoms_of(author_pattern()) == author_atoms(),
{
    reveal_strlit("author.\\w+.name");
    let p = author_pattern();
    assert(p.len() == 15);
    assert(p.skip(15) == Seq::<char>::empty());
    assert(atoms_of(p.skip(15)) == Seq::<Atom>::empty());
    assert(p.skip(14).skip(1) == p.skip(15));
    assert(atoms_of(p.skip(14)) == author_atoms().skip(12));
    assert(p.skip(13).skip(1) == p.skip(14));
    assert(atoms_of(p.skip(13)) == author_atoms().skip(11));
    assert(p.skip(12).skip(1) == p.skip(13));
    assert(atoms_of(p.skip(12)) == author_atoms().skip(10));
    assert(p.skip(11).skip(1) == p.skip(12));
    assert(atoms_of(p.skip(11)) == author_atoms().skip(9));
    assert(p.skip(10).skip(1) == p.skip(11));
    assert(atoms_of(p.skip(10)) == author_atoms().skip(8));
    assert(p.skip(7).skip(3) == p.skip(10));
    assert(atoms_of(p.skip(7)) == author_atoms().skip(7));
    assert(p.skip(6).skip(1) == p.skip(7));
    assert(atoms_of(p.skip(6)) == author_atoms().skip(6));
    assert(p.skip(5).skip(1) == p.skip(6));
    assert(atoms_of(p.skip(5)) == author_atoms().skip(5));
    assert(p.skip(4).skip(1) == p.skip(5));
    assert(atoms_of(p.skip(4)) == author_atoms().skip(4));
    assert(p.skip(3).skip(1) == p.skip(4));
    assert(atoms_of(p.skip(3)) == author_atoms().skip(3));
    assert(p.skip(2).skip(1) == p.skip(3));
    assert(atoms_of(p.skip(2)) == author_atoms().skip(2));
    assert(p.skip(1).skip(1) == p.skip(2));
    assert(atoms_of(p.skip(1)) == author_atoms().skip(1));
    assert(p.skip(0).skip(1) == p.skip(1));
    assert(atoms_of(p.skip(0)) == author_atoms().skip(0));
    assert(p.skip(0) == p);
    assert(author_atoms().skip(0) == author_atoms());
}

/// The in-memory store takes the key of every name for a name, where the
/// nick is a word.
pub proof fn names_are_listed(nick: Seq<char>)
    requires
        is_word_nick(nick),
    ensures
        MemoryStore::matching(author_pattern())(name_key(nick)),
        is_nick(nick),
{
    reveal_strlit("author.");
    reveal_strlit(".name");
    author_pattern_is_read();
    let atoms = author_atoms();
    let key = name_key(nick);
    let none = Seq::<Atom>::empty();
    let end = Seq::<char>::empty();
    match_goes_on(atoms[12], 'e', none, end);
    match_goes_on(atoms[11], 'm', seq![atoms[12]] + none, seq!['e'] + end);
    assert(atoms.skip(11) == seq![atoms[11]] + (seq![atoms[12]] + none));
    assert(key.skip(key.len() - 2) == seq!['m'] + (seq!['e'] + end));
    match_goes_on(atoms[10], 'a', atoms.skip(11), key.skip(key.len() - 2));
    assert(atoms.skip(10) == seq![atoms[10]] + atoms.skip(11));
    assert(key.skip(key.len() - 3) == seq!['a'] + key.skip(key.len() - 2));
    match_goes_on(atoms[9], 'n', atoms.skip(10), key.skip(key.len() - 3));
    assert(atoms.skip(9) == seq![atoms[9]] + atoms.skip(10));
    assert(key.skip(key.len() - 4) == seq!['n'] + key.skip(key.len() - 3));
    match_goes_on(atoms[8], '.', atoms.skip(9), key.skip(key.len() - 4));
    assert(atoms.skip(8) == seq![atoms[8]] + atoms.skip(9));
    assert(key.skip(key.len() - 5) == seq!['.'] + key.skip(key.len() - 4));
    match_goes_on_through(Class::Word, nick, atoms.skip(8), key.skip(key.len() - 5));
    assert(atoms.skip(7) == seq![atoms[7]] + atoms.skip(8));
    assert(key.skip(7) == nick + key.skip(key.len() - 5));
    match_goes_on(atoms[6], '.', atoms.skip(7), key.skip(7));
    assert(atoms.skip(6) == seq![atoms[6]] + atoms.skip(7));
    assert(key.skip(6) == seq!['.'] + key.skip(7));
    match_goes_on(atoms[5], 'r', atoms.skip(6), key.skip(6));
    assert(atoms.skip(5) == seq![atoms[5]] + atoms.skip(6));
    assert(key.skip(5) == seq!['r'] + key.skip(6));
    match_goes_on(atoms[4], 'o', atoms.skip(5), key.skip(5));
    assert(atoms.skip(4) == seq![atoms[4]] + atoms.skip(5));
    assert(key.skip(4) == seq!['o'] + key.skip(5));
    match_goes_on(atoms[3], 'h', atoms.skip(4), key.skip(4));
    assert(atoms.skip(3) == seq![atoms[3]] + atoms.skip(4));
    assert(key.skip(3) == seq!['h'] + key.skip(4));
    match_goes_on(atoms[2], 't', atoms.skip(3), key.skip(3));
    assert(atoms.skip(2) == seq![atoms[2]] + atoms.skip(3));
    assert(key.skip(2) == seq!['t'] + key.skip(3));
    match_goes_on(atoms[1], 'u', atoms.skip(2), key.skip(2));
    assert(atoms.skip(1) == seq![atoms[1]] + atoms.skip(2));
    assert(key.skip(1) == seq!['u'] + key.skip(2));
    match_goes_on(atoms[0], 'a', atoms.skip(1), key.skip(1));
    assert(atoms == seq![atoms[0]] + atoms.skip(1));
    assert(key.skip(0) == seq!['a'] + key.skip(1));
    assert(begins_with(atoms, key.skip(0)));
}

/// An author that was added to the in-memory store is listed by it, with
/// the nick, the name and the email address it was added with. This
/// holds of every author whose nick is a word, whose name is listed as
/// it is, and who brings an email address without white space at its
/// ends or has none stored.
pub proof fn added_author_is_listed_in_memory(entries: Seq<Entry>, scope: Scope, author: AuthorView)
    requires
        is_word_nick(author.nick),
        is_name(author.name),
        match author.email {
            Some(email) => trimmed(email) == email,
            None => lookup(entries, scope, email_key(author.nick)) is None,
        },
    ensures
        stored_authors(
            with_author(entries, scope, author),
            scope,
            MemoryStore::matching(author_pattern()),
        ).contains(author),
{
    names_are_listed(author.nick);
    crate::git::added_author_is_listed(
        entries,
        scope,
        author,
        MemoryStore::matching(author_pattern()),
    );
}

} // verus!
