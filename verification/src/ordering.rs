//! Sorting authors by nick: what the sorted order is, and a stable sort
//! that produces it.

use crate::author::{author_views, Author, AuthorView};
use crate::text::text_le;
use vstd::prelude::*;

verus! {

/// `sorted` with `author` put behind the last entry whose nick is at most
/// `author`'s, or in front where there is none.
pub open spec fn placed(sorted: Seq<AuthorView>, author: AuthorView) -> Seq<AuthorView>
    decreases sorted.len(),
{
    if sorted.len() == 0 || text_le(sorted.last().nick, author.nick) {
        sorted.push(author)
    } else {
        placed(sorted.drop_last(), author).push(sorted.last())
    }
}

/// `authors` in ascending order of nick; authors with equal nicks keep the
/// order in which they were given.
pub open spec fn sorted_by_nick(authors: Seq<AuthorView>) -> Seq<AuthorView>
    decreases authors.len(),
{
    if authors.len() == 0 {
        authors
    } else {
        placed(sorted_by_nick(authors.drop_last()), authors.last())
    }
}

/// Whether each nick in `authors` is at most every nick after it.
pub open spec fn ascending(authors: Seq<AuthorView>) -> bool {
    forall|i: int, j: int| 0 <= i < j < authors.len() ==> text_le(authors[i].nick, authors[j].nick)
}

/// Sorts `authors` by nick, keeping the given order among equal nicks.
pub fn sort_by_nick(authors: Vec<Author>) -> (sorted: Vec<Author>)
    ensures
        author_views(sorted@) == sorted_by_nick(author_views(authors@)),
{
    let ghost given = author_views(authors@);
    let mut sorted = authors;
    let mut i: usize = 0;
    proof {
        assert(author_views(sorted@).skip(0) == given);
        assert(author_views(sorted@).take(0) == sorted_by_nick(given.take(0)));
    }
    while i < sorted.len()
        invariant
            i <= sorted.len(),
            sorted.len() == given.len(),
            author_views(sorted@).take(i as int) == sorted_by_nick(given.take(i as int)),
            author_views(sorted@).skip(i as int) == given.skip(i as int),
        decreases sorted.len() - i,
    {
        let ghost before = author_views(sorted@);
        let ghost head = before.take(i as int);
        let author = sorted.remove(i);
        proof {
            assert(author@ == before[i as int]);
            assert(before[i as int] == given.skip(i as int)[0]);
            assert(author_views(sorted@) == before.remove(i as int));
            assert(before.remove(i as int).skip(i as int) == given.skip(i + 1)) by {
                assert forall|k: int| 0 <= k < given.len() - i - 1 implies before.remove(
                    i as int,
                ).skip(i as int)[k] == given.skip(i + 1)[k] by {
                    assert(before.skip(i as int)[k + 1] == given.skip(i as int)[k + 1]);
                }
            }
            assert(before.remove(i as int).take(i as int) == head);
            assert(head.take(i as int) == head);
            assert(head.skip(i as int) == Seq::<AuthorView>::empty());
            assert(placed(head, author@) == placed(head.take(i as int), author@) + head.skip(
                i as int,
            ));
        }
        let mut j: usize = i;
        while j > 0 && !sorted[j - 1].precedes(&author)
            invariant
                j <= i,
                i < given.len(),
                sorted.len() + 1 == given.len(),
                author_views(sorted@).take(i as int) == head,
                author_views(sorted@).skip(i as int) == given.skip(i + 1),
                head.len() == i,
                placed(head, author@) == placed(head.take(j as int), author@) + head.skip(j as int),
            decreases j,
        {
            proof {
                let part = head.take(j as int);
                assert(part.last() == sorted@[j - 1]@);
                assert(part.drop_last() == head.take(j - 1));
                assert(placed(head.take(j - 1), author@).push(part.last()) + head.skip(j as int)
                    == placed(head.take(j - 1), author@) + head.skip(j - 1));
            }
            j -= 1;
        }
        proof {
            let part = head.take(j as int);
            if j > 0 {
                assert(part.last() == sorted@[j - 1]@);
            }
            assert(placed(part, author@) == part.push(author@));
            assert(part.push(author@) + head.skip(j as int) == head.insert(j as int, author@));
        }
        let ghost removed = author_views(sorted@);
        sorted.insert(j, author);
        proof {
            let after = author_views(sorted@);
            assert(after == removed.insert(j as int, author@));
            assert(after.take(i + 1) == head.insert(j as int, author@));
            assert(after.skip(i + 1) == removed.skip(i as int));
            assert(given.take(i + 1).drop_last() == given.take(i as int));
            assert(given.take(i + 1).last() == author@);
        }
        i += 1;
    }
    proof {
        assert(author_views(sorted@).take(i as int) == author_views(sorted@));
        assert(given.take(i as int) == given);
    }
    sorted
}

/// Placing an author adds that author and nothing else.
pub proof fn placed_holds_the_same(sorted: Seq<AuthorView>, author: AuthorView)
    ensures
        placed(sorted, author).len() == sorted.len() + 1,
        placed(sorted, author).to_multiset() == sorted.to_multiset().insert(author),
    decreases sorted.len(),
{
    broadcast use vstd::seq_lib::group_to_multiset_ensures;

    if sorted.len() == 0 || text_le(sorted.last().nick, author.nick) {
    } else {
        let front = sorted.drop_last();
        placed_holds_the_same(front, author);
        assert(sorted == front.push(sorted.last()));
        assert(front.to_multiset().insert(author).insert(sorted.last())
            == front.to_multiset().insert(sorted.last()).insert(author));
    }
}

/// Placing an author into an ascending sequence leaves it ascending.
pub proof fn placed_stays_ascending(sorted: Seq<AuthorView>, author: AuthorView)
    requires
        ascending(sorted),
    ensures
        ascending(placed(sorted, author)),
    decreases sorted.len(),
{
    broadcast use vstd::seq_lib::group_to_multiset_ensures;

    let result = placed(sorted, author);
    if sorted.len() == 0 {
    } else if text_le(sorted.last().nick, author.nick) {
        assert forall|i: int, j: int| 0 <= i < j < result.len() implies text_le(
            result[i].nick,
            result[j].nick,
        ) by {
            if j == sorted.len() && i < sorted.len() - 1 {
                crate::text::text_le_transitive(sorted[i].nick, sorted.last().nick, author.nick);
            }
        }
    } else {
        let front = sorted.drop_last();
        let inner = placed(front, author);
        placed_stays_ascending(front, author);
        placed_holds_the_same(front, author);
        crate::text::text_le_total(sorted.last().nick, author.nick);
        assert forall|i: int, j: int| 0 <= i < j < result.len() implies text_le(
            result[i].nick,
            result[j].nick,
        ) by {
            if j == inner.len() {
                assert(inner.contains(inner[i]));
                assert(inner.to_multiset().count(inner[i]) > 0);
                if inner[i] != author {
                    assert(front.to_multiset().count(inner[i]) > 0);
                    assert(front.contains(inner[i]));
                    let k = choose|k: int| 0 <= k < front.len() && front[k] == inner[i];
                    assert(sorted[k] == front[k]);
                }
            } else {
                assert(result[i] == inner[i] && result[j] == inner[j]);
            }
        }
    }
}

/// Sorting yields an ascending sequence of the same authors, each as often
/// as it was given.
pub proof fn sorted_is_an_ascending_permutation(authors: Seq<AuthorView>)
    ensures
        ascending(sorted_by_nick(authors)),
        sorted_by_nick(authors).len() == authors.len(),
        sorted_by_nick(authors).to_multiset() == authors.to_multiset(),
    decreases authors.len(),
{
    broadcast use vstd::seq_lib::group_to_multiset_ensures;

    if authors.len() > 0 {
        let front = authors.drop_last();
        sorted_is_an_ascending_permutation(front);
        placed_stays_ascending(sorted_by_nick(front), authors.last());
        placed_holds_the_same(sorted_by_nick(front), authors.last());
        assert(authors == front.push(authors.last()));
    }
}

/// The authors of `authors` that have the nick `nick`, in order.
pub open spec fn with_nick(authors: Seq<AuthorView>, nick: Seq<char>) -> Seq<AuthorView> {
    authors.filter(|author: AuthorView| author.nick == nick)
}

/// Placing an author puts it behind the authors of the same nick and
/// moves none of them.
pub proof fn placed_behind_equals(sorted: Seq<AuthorView>, author: AuthorView, nick: Seq<char>)
    ensures
        with_nick(placed(sorted, author), nick) == if author.nick == nick {
            with_nick(sorted, nick).push(author)
        } else {
            with_nick(sorted, nick)
        },
    decreases sorted.len(),
{
    reveal(Seq::filter);
    if sorted.len() == 0 || text_le(sorted.last().nick, author.nick) {
        assert(sorted.push(author).drop_last() == sorted);
    } else {
        let front = sorted.drop_last();
        placed_behind_equals(front, author, nick);
        crate::text::text_le_reflexive(author.nick);
        assert(placed(sorted, author).drop_last() == placed(front, author));
    }
}

/// Sorting is stable: the authors of one nick stay in the order in which
/// they were given.
pub proof fn sorting_is_stable(authors: Seq<AuthorView>, nick: Seq<char>)
    ensures
        with_nick(sorted_by_nick(authors), nick) == with_nick(authors, nick),
    decreases authors.len(),
{
    reveal(Seq::filter);
    if authors.len() > 0 {
        sorting_is_stable(authors.drop_last(), nick);
        placed_behind_equals(sorted_by_nick(authors.drop_last()), authors.last(), nick);
    }
}

/// Sorting a single author changes nothing.
pub proof fn sorted_single(authors: Seq<AuthorView>)
    requires
        authors.len() == 1,
    ensures
        sorted_by_nick(authors) == authors,
{
    assert(sorted_by_nick(authors.drop_last()) == Seq::<AuthorView>::empty());
    assert(Seq::<AuthorView>::empty().push(authors.last()) == authors);
}

/// Two sequences that hold the same items equally often still do so
/// after each item has been replaced by what `f` makes of it.
pub proof fn mapped_permutation<A, B>(a: Seq<A>, b: Seq<A>, f: spec_fn(A) -> B)
    requires
        a.to_multiset() == b.to_multiset(),
    ensures
        a.map_values(f).to_multiset() == b.map_values(f).to_multiset(),
    decreases a.len(),
{
    broadcast use vstd::seq_lib::group_to_multiset_ensures;

    if a.len() == 0 {
        assert(a.to_multiset().len() == a.len());
        assert(b.to_multiset().len() == b.len());
        assert(a.map_values(f) == b.map_values(f));
    } else {
        let x = a.last();
        assert(a.contains(x));
        assert(b.to_multiset().count(x) > 0);
        let k = choose|k: int| 0 <= k < b.len() && b[k] == x;
        let front = a.drop_last();
        let rest = b.remove(k);
        assert(front == a.remove(a.len() - 1));
        mapped_permutation(front, rest, f);
        assert(rest.map_values(f) == b.map_values(f).remove(k));
        assert(a.map_values(f) == front.map_values(f).push(f(x)));
        assert(b.map_values(f)[k] == f(x));
        assert(b.map_values(f).contains(f(x)));
        assert(b.map_values(f).to_multiset().remove(f(x)).insert(f(x)) == b.map_values(
            f,
        ).to_multiset());
    }
}

/// The order of texts, as a relation.
pub open spec fn by_text() -> spec_fn(Seq<char>, Seq<char>) -> bool {
    |a: Seq<char>, b: Seq<char>| text_le(a, b)
}

/// The order of pairs of texts: by the first, and by the second where
/// the first are equal.
pub open spec fn by_pair() -> spec_fn((Seq<char>, Seq<char>), (Seq<char>, Seq<char>)) -> bool {
    |a: (Seq<char>, Seq<char>), b: (Seq<char>, Seq<char>)|
        if a.0 == b.0 {
            text_le(a.1, b.1)
        } else {
            text_le(a.0, b.0)
        }
}

/// Texts are totally ordered.
pub proof fn by_text_is_total()
    ensures
        vstd::relations::total_ordering(by_text()),
{
    let r = by_text();
    assert forall|x: Seq<char>| #[trigger] r(x, x) by {
        crate::text::text_le_reflexive(x);
    }
    assert forall|x: Seq<char>, y: Seq<char>| #[trigger] r(x, y) && #[trigger] r(y, x) implies x
        == y by {
        crate::text::text_le_antisymmetric(x, y);
    }
    assert forall|x: Seq<char>, y: Seq<char>, z: Seq<char>| #[trigger]
        r(x, y) && #[trigger] r(y, z) implies r(x, z) by {
        crate::text::text_le_transitive(x, y, z);
    }
    assert forall|x: Seq<char>, y: Seq<char>| #[trigger] r(x, y) || #[trigger] r(y, x) by {
        crate::text::text_le_total(x, y);
    }
}

/// Pairs of texts are totally ordered.
pub proof fn by_pair_is_total()
    ensures
        vstd::relations::total_ordering(by_pair()),
{
    let r = by_pair();
    assert forall|x: (Seq<char>, Seq<char>)| #[trigger] r(x, x) by {
        crate::text::text_le_reflexive(x.1);
    }
    assert forall|x: (Seq<char>, Seq<char>), y: (Seq<char>, Seq<char>)| #[trigger]
        r(x, y) && #[trigger] r(y, x) implies x == y by {
        if x.0 == y.0 {
            crate::text::text_le_antisymmetric(x.1, y.1);
        } else {
            crate::text::text_le_antisymmetric(x.0, y.0);
        }
    }
    assert forall|x: (Seq<char>, Seq<char>), y: (Seq<char>, Seq<char>), z: (Seq<char>, Seq<char>)|
        #[trigger] r(x, y) && #[trigger] r(y, z) implies r(x, z) by {
        if x.0 == y.0 && y.0 == z.0 {
            crate::text::text_le_transitive(x.1, y.1, z.1);
        } else if x.0 == y.0 || y.0 == z.0 {
        } else {
            crate::text::text_le_transitive(x.0, y.0, z.0);
            if x.0 == z.0 {
                crate::text::text_le_antisymmetric(x.0, y.0);
            }
        }
    }
    assert forall|x: (Seq<char>, Seq<char>), y: (Seq<char>, Seq<char>)| #[trigger]
        r(x, y) || #[trigger] r(y, x) by {
        crate::text::text_le_total(x.0, y.0);
        crate::text::text_le_total(x.1, y.1);
    }
}

} // verus!
