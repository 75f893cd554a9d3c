//! The configuration store as this crate sees it: scoped keys with text
//! values, in the order in which the store lists them.

use crate::error::{ErrorView, PartnersError};
use crate::git::{Config, Scope};
use crate::text::{joined, split_on, trimmed};
use vstd::prelude::*;

verus! {

/// One stored value.
pub struct Entry {
    pub scope: Scope,
    pub key: Seq<char>,
    pub value: Seq<char>,
}

/// Whether `entry` is the value of `key` in `scope`.
pub open spec fn is_at(entry: Entry, scope: Scope, key: Seq<char>) -> bool {
    entry.scope == scope && entry.key == key
}

/// The index of the first entry for `key` in `scope`.
pub open spec fn position(entries: Seq<Entry>, scope: Scope, key: Seq<char>) -> Option<int>
    decreases entries.len(),
{
    if entries.len() == 0 {
        None
    } else if is_at(entries[0], scope, key) {
        Some(0)
    } else {
        match position(entries.drop_first(), scope, key) {
            Some(i) => Some(i + 1),
            None => None,
        }
    }
}

/// The value stored for `key` in `scope`.
pub open spec fn lookup(entries: Seq<Entry>, scope: Scope, key: Seq<char>) -> Option<Seq<char>> {
    match position(entries, scope, key) {
        Some(i) => Some(entries[i].value),
        None => None,
    }
}

/// The store after `value` was written for `key` in `scope`: in place of
/// the value it had, or behind all entries where it had none.
pub open spec fn with_value(
    entries: Seq<Entry>,
    scope: Scope,
    key: Seq<char>,
    value: Seq<char>,
) -> Seq<Entry> {
    match position(entries, scope, key) {
        Some(i) => entries.update(i, Entry { scope, key, value }),
        None => entries.push(Entry { scope, key, value }),
    }
}

/// The line that lists an entry: key, one space, value.
pub open spec fn line_of(entry: Entry) -> Seq<char> {
    entry.key + " "@ + entry.value
}

/// The lines that list the entries of `scope` whose key `accepts` holds
/// of, in the order of the store.
pub open spec fn listing(
    entries: Seq<Entry>,
    scope: Scope,
    accepts: spec_fn(Seq<char>) -> bool,
) -> Seq<Seq<char>> {
    entries.filter_map(
        |entry: Entry|
            if entry.scope == scope && accepts(entry.key) {
                Some(line_of(entry))
            } else {
                None
            },
    )
}

/// The section a key belongs to: what stands before its last dot.
pub open spec fn in_section(key: Seq<char>, section: Seq<char>) -> bool {
    &&& key.len() > section.len()
    &&& key.take(section.len() as int) == section
    &&& key[section.len() as int] == '.'
    &&& forall|i: int| section.len() < i < key.len() ==> key[i] != '.'
}

/// Whether `entry` is a key of `section` in `scope`.
pub open spec fn is_under(entry: Entry, scope: Scope, section: Seq<char>) -> bool {
    entry.scope == scope && in_section(entry.key, section)
}

/// The store without the keys of `section` in `scope`.
pub open spec fn without_section(entries: Seq<Entry>, scope: Scope, section: Seq<char>) -> Seq<
    Entry,
> {
    entries.filter(|entry: Entry| !is_under(entry, scope, section))
}

/// Whether `scope` holds a key of `section`.
pub open spec fn has_section(entries: Seq<Entry>, scope: Scope, section: Seq<char>) -> bool {
    exists|i: int| 0 <= i < entries.len() && is_under(#[trigger] entries[i], scope, section)
}

/// What is read for `key` in `scope`: the stored value without the
/// white space at either end.
pub open spec fn value_read(entries: Seq<Entry>, scope: Scope, key: Seq<char>) -> Option<
    Seq<char>,
> {
    match lookup(entries, scope, key) {
        Some(value) => Some(trimmed(value)),
        None => None,
    }
}

/// What is read of a listing: the lines, one below the other, without
/// the white space at either end of the whole, cut at the line breaks.
pub open spec fn as_read(lines: Seq<Seq<char>>) -> Seq<Seq<char>> {
    split_on(trimmed(joined(lines, "\n"@)), '\n')
}

/// Whether a store may report `error`: absence, a failure of the backend,
/// a backend that cannot be reached, or output that is not text.
pub open spec fn from_store(error: ErrorView) -> bool {
    error is NotFound || error is BackendError || error is IoError || error is EncodingError
}

/// Whether `found` may be what a store with `entries` answers when it is
/// asked for `key` in `scope`. A faithful store answers with the value
/// as it is read, and with `NotFound` where there is none.
pub open spec fn answers(
    entries: Seq<Entry>,
    faithful: bool,
    reliable: bool,
    scope: Scope,
    key: Seq<char>,
    found: Result<String, PartnersError>,
) -> bool {
    &&& found matches Err(error) ==> from_store(error@) && (reliable ==> error@ is NotFound)
    &&& faithful ==> match value_read(entries, scope, key) {
        Some(value) => found matches Ok(text) && text@ == value,
        None => found matches Err(error) && error@ is NotFound,
    }
}

/// Whether `lines` may be what a store with `entries` answers when it is
/// asked for the keys of `scope` that `accepts` holds of. A faithful
/// store answers with the listing as it is read; where no key matches
/// it may answer with `NotFound` instead.
pub open spec fn lists(
    entries: Seq<Entry>,
    faithful: bool,
    reliable: bool,
    scope: Scope,
    accepts: spec_fn(Seq<char>) -> bool,
    lines: Result<Vec<String>, PartnersError>,
) -> bool {
    &&& lines matches Err(error) ==> from_store(error@) && (reliable ==> error@ is NotFound)
    &&& faithful ==> match lines {
        Ok(lines) => lines.deep_view() == as_read(listing(entries, scope, accepts)),
        Err(error) => error@ is NotFound && listing(entries, scope, accepts).len() == 0,
    }
}

/// Whether `done` and `after` are the outcome of a write that a faithful
/// store was asked for: where the store refuses it, the error it refuses
/// with and the store as it was `before`; else success and the store as
/// `written`.
pub open spec fn writes(
    before: Seq<Entry>,
    after: Seq<Entry>,
    refused: Option<ErrorView>,
    written: Seq<Entry>,
    done: Result<(), PartnersError>,
) -> bool {
    match refused {
        Some(error) => done matches Err(reported) && reported@ == error && after == before,
        None => done is Ok && after == written,
    }
}

/// A scoped key-value store.
///
/// A store may say what it holds: it is then `faithful`. Its answers to
/// reads are what `entries` gives, it fails to read only where there is
/// nothing to read, and `refusal` says which writes it refuses and with
/// which error; a write that it refuses changes nothing. A store that
/// shells out to a tool cannot say so, and is held only to the kinds of
/// error it may report. A store is `reliable` where it fails only to
/// report absence.
pub trait ConfigStore: Sized {
    /// The entries of all scopes, in listing order.
    open spec fn entries(&self) -> Seq<Entry> {
        Seq::empty()
    }

    /// Whether `entries` and `refusal` say what this store holds and
    /// does.
    open spec fn faithful(&self) -> bool {
        false
    }

    /// Whether every failure of this store reports absence.
    open spec fn reliable(&self) -> bool {
        false
    }

    /// The error with which this store refuses to write `key` in `scope`
    /// once `later` other writes have been asked of it, or none where it
    /// carries that write out. The removal of a section is a write of
    /// the section's name.
    open spec fn refusal(&self, later: nat, scope: Scope, key: Seq<char>) -> Option<ErrorView> {
        None
    }

    /// The keys that match a listing pattern, as this store reads
    /// patterns.
    open spec fn matching(pattern: Seq<char>) -> spec_fn(Seq<char>) -> bool {
        |key: Seq<char>| false
    }

    /// The value stored for `key` in `scope`, without the white space at
    /// either end. `NotFound` says that there is none.
    fn get(&self, scope: &Config, key: &str) -> (found: Result<String, PartnersError>)
        ensures
            answers(self.entries(), self.faithful(), self.reliable(), scope@, key@, found),
    ;

    /// Writes `value` for `key` in `scope`. A write that fails changes
    /// nothing.
    fn set(&mut self, scope: &Config, key: &str, value: &str) -> (done: Result<
        (),
        PartnersError,
    >)
        ensures
            final(self).faithful() == old(self).faithful(),
            final(self).reliable() == old(self).reliable(),
            done matches Err(error) ==> from_store(error@) && !old(self).reliable(),
            old(self).faithful() ==> writes(
                old(self).entries(),
                final(self).entries(),
                old(self).refusal(0, scope@, key@),
                with_value(old(self).entries(), scope@, key@, value@),
                done,
            ),
            old(self).faithful() ==> forall|later: nat, scope: Scope, key: Seq<char>| #[trigger]
                final(self).refusal(later, scope, key) == old(self).refusal(
                    later + 1,
                    scope,
                    key,
                ),
    ;

    /// The lines for the keys of `scope` that match `pattern`, as they
    /// are read. Where no key matches, a store may answer with
    /// `NotFound`.
    fn list(&self, scope: &Config, pattern: &str) -> (lines: Result<Vec<String>, PartnersError>)
        ensures
            lists(
                self.entries(),
                self.faithful(),
                self.reliable(),
                scope@,
                Self::matching(pattern@),
                lines,
            ),
    ;

    /// Removes the keys of `section` in `scope`. A removal that fails
    /// changes nothing.
    fn remove_section(&mut self, scope: &Config, section: &str) -> (done: Result<
        (),
        PartnersError,
    >)
        ensures
            final(self).faithful() == old(self).faithful(),
            final(self).reliable() == old(self).reliable(),
            done matches Err(error) ==> from_store(error@) && !old(self).reliable(),
            old(self).faithful() ==> writes(
                old(self).entries(),
                final(self).entries(),
                old(self).refusal(0, scope@, section@),
                without_section(old(self).entries(), scope@, section@),
                done,
            ),
            old(self).faithful() ==> forall|later: nat, scope: Scope, key: Seq<char>| #[trigger]
                final(self).refusal(later, scope, key) == old(self).refusal(
                    later + 1,
                    scope,
                    key,
                ),
    ;
}

/// What comes of an operation on a faithful store: the error it ends
/// with, if any, the entries it leaves, and the number of writes it
/// asked of the store.
pub struct Outcome {
    pub error: Option<ErrorView>,
    pub entries: Seq<Entry>,
    pub writes: nat,
}

/// What a store refuses, as a function of the write.
pub open spec fn refusals<S: ConfigStore>(store: S) -> spec_fn(nat, Scope, Seq<char>) -> Option<
    ErrorView,
> {
    |later: nat, scope: Scope, key: Seq<char>| store.refusal(later, scope, key)
}

/// Whether `done` ends with `error`, or well where there is none.
pub open spec fn ends(done: Result<(), PartnersError>, error: Option<ErrorView>) -> bool {
    match error {
        Some(error) => done matches Err(reported) && reported@ == error,
        None => done is Ok,
    }
}

/// Whether `done` and the store `after` are what `outcome` says comes of
/// an operation on the store `before`.
pub open spec fn came_out<S: ConfigStore>(
    before: S,
    after: S,
    outcome: Outcome,
    done: Result<(), PartnersError>,
) -> bool {
    &&& ends(done, outcome.error)
    &&& after.entries() == outcome.entries
    &&& counted(before, after, outcome.writes)
}

/// Whether `after` is the store `before` with `writes` more writes asked
/// of it: what it refuses then is what `before` refuses that much later.
pub open spec fn counted<S: ConfigStore>(before: S, after: S, writes: nat) -> bool {
    forall|later: nat, scope: Scope, key: Seq<char>| #[trigger]
        after.refusal(later, scope, key) == before.refusal(later + writes, scope, key)
}

/// `position` names the first entry for the key, and only where there
/// is one.
pub proof fn position_is_first(entries: Seq<Entry>, scope: Scope, key: Seq<char>)
    ensures
        match position(entries, scope, key) {
            Some(i) => {
                &&& 0 <= i < entries.len()
                &&& is_at(entries[i], scope, key)
                &&& forall|j: int| 0 <= j < i ==> !is_at(entries[j], scope, key)
            },
            None => forall|j: int| 0 <= j < entries.len() ==> !is_at(entries[j], scope, key),
        },
    decreases entries.len(),
{
    if entries.len() > 0 && !is_at(entries[0], scope, key) {
        let rest = entries.drop_first();
        position_is_first(rest, scope, key);
        match position(rest, scope, key) {
            Some(i) => {
                assert forall|j: int| 0 <= j < i + 1 implies !is_at(entries[j], scope, key) by {
                    if j > 0 {
                        assert(entries[j] == rest[j - 1]);
                    }
                }
            },
            None => {
                assert forall|j: int| 0 <= j < entries.len() implies !is_at(
                    entries[j],
                    scope,
                    key,
                ) by {
                    if j > 0 {
                        assert(entries[j] == rest[j - 1]);
                    }
                }
            },
        }
    }
}

/// A value that was written is the value that is read.
pub proof fn written_value_is_read(
    entries: Seq<Entry>,
    scope: Scope,
    key: Seq<char>,
    value: Seq<char>,
)
    ensures
        lookup(with_value(entries, scope, key, value), scope, key) == Some(value),
        with_value(entries, scope, key, value).len() >= entries.len(),
        exists|i: int|
            0 <= i < with_value(entries, scope, key, value).len() && #[trigger] with_value(
                entries,
                scope,
                key,
                value,
            )[i] == (Entry { scope, key, value }),
{
    let after = with_value(entries, scope, key, value);
    position_is_first(entries, scope, key);
    position_is_first(after, scope, key);
    match position(entries, scope, key) {
        Some(i) => {
            assert(after[i] == Entry { scope, key, value });
            assert forall|j: int| 0 <= j < i implies !is_at(after[j], scope, key) by {
                assert(after[j] == entries[j]);
            }
        },
        None => {
            assert(after[entries.len() as int] == Entry { scope, key, value });
            assert forall|j: int| 0 <= j < entries.len() implies !is_at(after[j], scope, key) by {
                assert(after[j] == entries[j]);
            }
        },
    }
}

/// Writing one key leaves the value of every other key as it was, and
/// moves no entry.
pub proof fn other_values_stay(
    entries: Seq<Entry>,
    scope: Scope,
    key: Seq<char>,
    value: Seq<char>,
    other_scope: Scope,
    other_key: Seq<char>,
)
    requires
        other_scope != scope || other_key != key,
    ensures
        lookup(with_value(entries, scope, key, value), other_scope, other_key) == lookup(
            entries,
            other_scope,
            other_key,
        ),
        forall|i: int|
            0 <= i < entries.len() && is_at(entries[i], other_scope, other_key) ==> with_value(
                entries,
                scope,
                key,
                value,
            )[i] == entries[i],
{
    let after = with_value(entries, scope, key, value);
    position_is_first(entries, scope, key);
    position_is_first(entries, other_scope, other_key);
    position_is_first(after, other_scope, other_key);
    assert forall|j: int| 0 <= j < entries.len() implies (is_at(after[j], other_scope, other_key)
        <==> is_at(entries[j], other_scope, other_key)) && (is_at(
        entries[j],
        other_scope,
        other_key,
    ) ==> after[j] == entries[j]) by {}
    if after.len() > entries.len() {
        assert(!is_at(after[entries.len() as int], other_scope, other_key));
    }
}

/// What a sequence holds and `f` keeps is held by the filtered and
/// mapped sequence.
pub proof fn filter_map_keeps<A, B>(s: Seq<A>, f: spec_fn(A) -> Option<B>, i: int)
    requires
        0 <= i < s.len(),
        f(s[i]) is Some,
    ensures
        s.filter_map(f).contains(f(s[i]).unwrap()),
    decreases s.len(),
{
    let front = s.drop_last().filter_map(f);
    let kept = f(s[i]).unwrap();
    if i == s.len() - 1 {
        let all = front + seq![kept];
        assert(all[front.len() as int] == kept);
    } else {
        filter_map_keeps(s.drop_last(), f, i);
        let at = choose|at: int| 0 <= at < front.len() && front[at] == kept;
        match f(s.last()) {
            Some(last) => {
                assert((front + seq![last])[at] == kept);
            },
            None => {},
        }
    }
}

/// Every entry of `scope` whose key is accepted has its line in the
/// listing.
pub proof fn entry_is_listed(
    entries: Seq<Entry>,
    scope: Scope,
    accepts: spec_fn(Seq<char>) -> bool,
    i: int,
)
    requires
        0 <= i < entries.len(),
        entries[i].scope == scope,
        accepts(entries[i].key),
    ensures
        listing(entries, scope, accepts).contains(line_of(entries[i])),
{
    filter_map_keeps(
        entries,
        |entry: Entry|
            if entry.scope == scope && accepts(entry.key) {
                Some(line_of(entry))
            } else {
                None
            },
        i,
    );
}

/// For each item that filtering and mapping keeps, the index of the item
/// it was made of; the indices ascend.
pub proof fn filter_map_sources<A, B>(s: Seq<A>, f: spec_fn(A) -> Option<B>) -> (from: Seq<int>)
    ensures
        from.len() == s.filter_map(f).len(),
        forall|k: int|
            0 <= k < from.len() ==> 0 <= #[trigger] from[k] < s.len() && f(s[from[k]]) == Some(
                s.filter_map(f)[k],
            ),
        forall|k: int, l: int| 0 <= k < l < from.len() ==> from[k] < from[l],
    decreases s.len(),
{
    if s.len() == 0 {
        Seq::empty()
    } else {
        let front = filter_map_sources(s.drop_last(), f);
        let kept = s.drop_last().filter_map(f);
        match f(s.last()) {
            Some(made) => {
                let from = front.push(s.len() - 1);
                assert forall|k: int| 0 <= k < from.len() implies 0 <= #[trigger] from[k] < s.len()
                    && f(s[from[k]]) == Some(s.filter_map(f)[k]) by {
                    if k < front.len() {
                        assert(s[front[k]] == s.drop_last()[front[k]]);
                        assert((kept + seq![made])[k] == kept[k]);
                    }
                }
                from
            },
            None => {
                assert forall|k: int| 0 <= k < front.len() implies 0 <= #[trigger] front[k]
                    < s.len() && f(s[front[k]]) == Some(s.filter_map(f)[k]) by {
                    assert(s[front[k]] == s.drop_last()[front[k]]);
                }
                front
            },
        }
    }
}

/// Whether no key stands twice in one scope.
pub open spec fn distinct_keys(entries: Seq<Entry>) -> bool {
    forall|i: int, j: int|
        0 <= i < j < entries.len() ==> !((#[trigger] entries[i]).scope == (
        #[trigger] entries[j]).scope && entries[i].key == entries[j].key)
}

/// Writing a value puts no key twice into a scope.
pub proof fn written_keys_stay_distinct(
    entries: Seq<Entry>,
    scope: Scope,
    key: Seq<char>,
    value: Seq<char>,
)
    requires
        distinct_keys(entries),
    ensures
        distinct_keys(with_value(entries, scope, key, value)),
{
    let after = with_value(entries, scope, key, value);
    position_is_first(entries, scope, key);
    assert forall|i: int, j: int| 0 <= i < j < after.len() implies !((#[trigger] after[i]).scope
        == (#[trigger] after[j]).scope && after[i].key == after[j].key) by {
        match position(entries, scope, key) {
            Some(at) => {
                assert(entries[i].scope == after[i].scope && entries[i].key == after[i].key);
                assert(entries[j].scope == after[j].scope && entries[j].key == after[j].key);
            },
            None => {
                if j < entries.len() {
                    assert(entries[i] == after[i] && entries[j] == after[j]);
                } else {
                    assert(after[i] == entries[i]);
                    assert(!is_at(entries[i], scope, key));
                }
            },
        }
    }
}

} // verus!
