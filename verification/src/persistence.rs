//! What the persistence operations decide: what a listing asks of storage,
//! and in which order a deletion goes about its work.

use crate::negotiated::{ResponderError, ResponderStatus};
use crate::pipeline::{Action, Duplicate, Event, Identified, Pipeline};
use crate::text::{characters, fold, folded, occurs, occurs_at};
use vstd::prelude::*;

verus! {

/// What a listing asks of storage: a pattern that the search column must
/// match, if any, and the bounds `(limit, offset)`, if any.
#[derive(Debug, PartialEq, Eq)]
pub struct Selection {
    pub pattern: Option<String>,
    pub window: Option<(i64, i64)>,
}

/// True of the characters that a pattern does not read as themselves: the
/// two wildcards and the escape character.
pub open spec fn special(c: char) -> bool {
    c == '%' || c == '_' || c == '\\'
}

/// `text` as a pattern reads it literally: the escape character before
/// each wildcard and each escape character, every other character as it
/// is.
pub open spec fn escaped(text: Seq<char>) -> Seq<char>
    decreases text.len(),
{
    if text.len() == 0 {
        Seq::empty()
    } else if special(text[0]) {
        seq!['\\', text[0]] + escaped(text.drop_first())
    } else {
        seq![text[0]] + escaped(text.drop_first())
    }
}

/// The pattern of a free-text filter, to be read with `\` as the escape
/// character: none for an empty filter, else the filter, escaped, between
/// two wildcard markers.
pub open spec fn like_pattern(filter: Seq<char>) -> Option<Seq<char>> {
    if filter.len() == 0 {
        None
    } else {
        Some(seq!['%'] + escaped(filter) + seq!['%'])
    }
}

/// What listing with `text_filter` and `limit` asks of storage: the filter
/// only where it is not empty, the bounds only where they are given.
pub fn select_all(text_filter: &str, limit: Option<(i64, i64)>) -> (selection: Selection)
    ensures
        selection.window == limit,
        match like_pattern(text_filter@) {
            Some(pattern) => selection.pattern matches Some(found) && found@ == pattern,
            None => selection.pattern is None,
        },
{
    let filter = characters(text_filter);
    if filter.len() == 0 {
        return Selection { pattern: None, window: limit };
    }
    let mut pattern = String::new();
    pattern.push('%');
    let mut i: usize = 0;
    proof {
        assert(filter@.skip(0) =~= filter@);
        assert(pattern@ =~= seq!['%']);
    }
    while i < filter.len()
        invariant
            i <= filter.len(),
            pattern@ + escaped(filter@.skip(i as int)) == seq!['%'] + escaped(filter@),
        decreases filter.len() - i,
    {
        let ghost before = pattern@;
        let ghost rest = filter@.skip(i as int);
        let c = filter[i];
        proof {
            assert(rest[0] == c);
            assert(rest.drop_first() =~= filter@.skip(i + 1));
        }
        if c == '%' || c == '_' || c == '\\' {
            pattern.push('\\');
            pattern.push(c);
            assert(pattern@ + escaped(filter@.skip(i + 1)) =~= before + escaped(rest));
        } else {
            pattern.push(c);
            assert(pattern@ + escaped(filter@.skip(i + 1)) =~= before + escaped(rest));
        }
        i += 1;
    }
    assert(pattern@ + escaped(filter@.skip(i as int)) =~= pattern@);
    pattern.push('%');
    Selection { pattern: Some(pattern), window: limit }
}

/// True where `value` matches `pattern` as storage reads a pattern with
/// `\` as the escape character: `%` stands for any characters, none
/// included, `_` for any one character, the character after a `\` for
/// itself, and every other character for itself, each case aside.
pub open spec fn like(value: Seq<char>, pattern: Seq<char>) -> bool
    decreases value.len() + pattern.len(),
{
    if pattern.len() == 0 {
        value.len() == 0
    } else if pattern[0] == '\\' {
        pattern.len() >= 2 && value.len() > 0 && folded(pattern[1]) == folded(value[0]) && like(
            value.drop_first(),
            pattern.skip(2),
        )
    } else if pattern[0] == '%' {
        like(value, pattern.drop_first()) || (value.len() > 0 && like(value.drop_first(), pattern))
    } else if value.len() == 0 {
        false
    } else {
        (pattern[0] == '_' || folded(pattern[0]) == folded(value[0])) && like(
            value.drop_first(),
            pattern.drop_first(),
        )
    }
}

/// True where the free-text filter selects a row with `value` in its search
/// column: every row where the filter is empty, else the rows whose value
/// holds the filter somewhere, case aside.
pub open spec fn selects(value: Seq<char>, filter: Seq<char>) -> bool {
    filter.len() == 0 || occurs(value, filter, true)
}

/// An empty filter asks storage for no pattern, and selects every row.
pub proof fn lemma_empty_filter_selects_all(value: Seq<char>)
    ensures
        like_pattern(Seq::empty()) is None,
        selects(value, Seq::empty()),
{
}

/// Every value matches the pattern of the lone wildcard `%`.
proof fn lemma_like_anything(value: Seq<char>)
    ensures
        like(value, seq!['%']),
    decreases value.len(),
{
    let pattern = seq!['%'];
    assert(pattern[0] == '%');
    assert(pattern.drop_first() =~= Seq::<char>::empty());
    if value.len() > 0 {
        lemma_like_anything(value.drop_first());
    } else {
        assert(like(value, Seq::<char>::empty()));
    }
}

/// A value matches an escaped text followed by `%` exactly where it starts
/// with that text, case aside.
proof fn lemma_like_start(value: Seq<char>, text: Seq<char>)
    ensures
        like(value, escaped(text) + seq!['%']) <==> occurs_at(value, text, 0, true),
    decreases text.len(),
{
    let pattern = escaped(text) + seq!['%'];
    if text.len() == 0 {
        assert(pattern =~= seq!['%']);
        lemma_like_anything(value);
    } else {
        let shorter = text.drop_first();
        let tail = escaped(shorter) + seq!['%'];
        if special(text[0]) {
            assert(pattern =~= seq!['\\', text[0]] + tail);
            assert(pattern[0] == '\\');
            assert(pattern[1] == text[0]);
            assert(pattern.skip(2) =~= tail);
        } else {
            assert(pattern =~= seq![text[0]] + tail);
            assert(pattern[0] == text[0]);
            assert(pattern.drop_first() =~= tail);
        }
        if value.len() > 0 {
            let rest = value.drop_first();
            lemma_like_start(rest, shorter);
            assert(like(value, pattern) == (folded(text[0]) == folded(value[0]) && like(rest, tail)));
            if occurs_at(value, text, 0, true) {
                assert(crate::text::alike(value[0int + 0], text[0], true));
                assert forall|k: int| 0 <= k < shorter.len() implies crate::text::alike(
                    #[trigger] rest[0 + k],
                    shorter[k],
                    true,
                ) by {
                    assert(crate::text::alike(value[0 + (k + 1)], text[k + 1], true));
                }
                assert(occurs_at(rest, shorter, 0, true));
            }
            if folded(text[0]) == folded(value[0]) && occurs_at(rest, shorter, 0, true) {
                assert forall|k: int| 0 <= k < text.len() implies crate::text::alike(
                    #[trigger] value[0 + k],
                    text[k],
                    true,
                ) by {
                    if k > 0 {
                        assert(crate::text::alike(rest[0 + (k - 1)], shorter[k - 1], true));
                    }
                }
                assert(occurs_at(value, text, 0, true));
            }
        } else {
            assert(!like(value, pattern));
        }
    }
}

/// A value matches `%` followed by a pattern exactly where, from some
/// position on, it matches the pattern.
proof fn lemma_like_somewhere(value: Seq<char>, pattern: Seq<char>)
    ensures
        like(value, seq!['%'] + pattern) <==> exists|at: int|
            0 <= at <= value.len() && #[trigger] like(value.skip(at), pattern),
    decreases value.len(),
{
    let whole = seq!['%'] + pattern;
    assert(whole[0] == '%');
    assert(whole.drop_first() =~= pattern);
    assert(value.skip(0) =~= value);
    assert(like(value, whole) == (like(value, pattern) || (value.len() > 0 && like(
        value.drop_first(),
        whole,
    ))));
    if value.len() > 0 {
        let rest = value.drop_first();
        lemma_like_somewhere(rest, pattern);
        if like(value, whole) {
            if like(value, pattern) {
                assert(like(value.skip(0), pattern));
            } else {
                let at = choose|at: int|
                    0 <= at <= rest.len() && #[trigger] like(rest.skip(at), pattern);
                assert(value.skip(at + 1) =~= rest.skip(at));
                assert(like(value.skip(at + 1), pattern));
            }
        }
        if exists|at: int| 0 <= at <= value.len() && #[trigger] like(value.skip(at), pattern) {
            let at = choose|at: int|
                0 <= at <= value.len() && #[trigger] like(value.skip(at), pattern);
            if at > 0 {
                assert(rest.skip(at - 1) =~= value.skip(at));
                assert(like(rest.skip(at - 1), pattern));
                assert(like(rest, whole));
            }
        }
    } else {
        if like(value, whole) {
            assert(like(value.skip(0), pattern));
        }
        if exists|at: int| 0 <= at <= value.len() && #[trigger] like(value.skip(at), pattern) {
            let at = choose|at: int|
                0 <= at <= value.len() && #[trigger] like(value.skip(at), pattern);
            assert(at == 0);
        }
    }
}

/// The pattern of a filter means what the filter selects: a value matches
/// the pattern of a filter, whatever characters the filter holds, exactly
/// where it holds the filter somewhere, case aside.
pub proof fn lemma_pattern_selects_by_containment(value: Seq<char>, filter: Seq<char>)
    ensures
        selects(value, filter) <==> occurs(value, filter, true),
        filter.len() > 0 ==> (like(value, like_pattern(filter)->0) <==> selects(value, filter)),
{
    if filter.len() == 0 {
        assert(occurs_at(value, filter, 0, true));
    } else {
        let tail = escaped(filter) + seq!['%'];
        let pattern = like_pattern(filter)->0;
        assert(pattern =~= seq!['%'] + tail);
        lemma_like_somewhere(value, tail);
        if like(value, pattern) {
            let at = choose|at: int| 0 <= at <= value.len() && #[trigger] like(value.skip(at), tail);
            lemma_like_start(value.skip(at), filter);
            assert forall|k: int| 0 <= k < filter.len() implies crate::text::alike(
                #[trigger] value[at + k],
                filter[k],
                true,
            ) by {
                assert(crate::text::alike(value.skip(at)[0 + k], filter[k], true));
            }
            assert(occurs_at(value, filter, at, true));
        }
        if occurs(value, filter, true) {
            let at = choose|at: int| occurs_at(value, filter, at, true);
            lemma_like_start(value.skip(at), filter);
            assert forall|k: int| 0 <= k < filter.len() implies crate::text::alike(
                #[trigger] value.skip(at)[0 + k],
                filter[k],
                true,
            ) by {
                assert(crate::text::alike(value[at + k], filter[k], true));
            }
            assert(occurs_at(value.skip(at), filter, 0, true));
            assert(like(value.skip(at), tail));
        }
    }
}

/// What one cell of the matching table holds: whether the value from `i` on
/// matches the pattern from `j` on.
spec fn cell(value: Seq<char>, pattern: Seq<char>, i: int, j: int) -> bool {
    like(value.skip(i), pattern.skip(j))
}

/// A cell in terms of its neighbours to the right and below.
proof fn lemma_cell(value: Seq<char>, pattern: Seq<char>, i: int, j: int)
    requires
        0 <= i <= value.len(),
        0 <= j <= pattern.len(),
    ensures
        cell(value, pattern, i, j) == (if j == pattern.len() {
            i == value.len()
        } else if pattern[j] == '\\' {
            j + 1 < pattern.len() && i < value.len() && folded(pattern[j + 1]) == folded(value[i])
                && cell(value, pattern, i + 1, j + 2)
        } else if pattern[j] == '%' {
            cell(value, pattern, i, j + 1) || (i < value.len() && cell(value, pattern, i + 1, j))
        } else if i == value.len() {
            false
        } else {
            (pattern[j] == '_' || folded(pattern[j]) == folded(value[i])) && cell(
                value,
                pattern,
                i + 1,
                j + 1,
            )
        }),
{
    let rest = value.skip(i);
    let tail = pattern.skip(j);
    if j < pattern.len() {
        assert(tail[0] == pattern[j]);
        assert(tail.drop_first() =~= pattern.skip(j + 1));
        if j + 1 < pattern.len() {
            assert(tail[1] == pattern[j + 1]);
            assert(tail.skip(2) =~= pattern.skip(j + 2));
        }
    }
    if i < value.len() {
        assert(rest[0] == value[i]);
        assert(rest.drop_first() =~= value.skip(i + 1));
    }
}

/// A row of the matching table, every cell unset.
fn blank_row(width: usize) -> (row: Vec<bool>)
    ensures
        row.len() == width,
{
    let mut row: Vec<bool> = Vec::new();
    while row.len() < width
        invariant
            row.len() <= width,
        decreases width - row.len(),
    {
        row.push(false);
    }
    row
}

/// True where `value` matches `pattern`, read with `\` as the escape
/// character.
pub fn like_matches(value: &Vec<char>, pattern: &Vec<char>) -> (matched: bool)
    ensures
        matched == like(value@, pattern@),
{
    let length = value.len();
    let width = pattern.len();
    proof {
        assert(value@.skip(0) =~= value@);
        assert(pattern@.skip(0) =~= pattern@);
    }
    if width == 0 {
        return length == 0;
    }
    let mut row = blank_row(width);
    let mut j: usize = width;
    while j > 0
        invariant
            j <= width,
            width == pattern.len(),
            length == value.len(),
            row.len() == width,
            forall|k: int| j <= k < width ==> row[k] == cell(value@, pattern@, length as int, k),
        decreases j,
    {
        j -= 1;
        let right = if j + 1 < width {
            row[j + 1]
        } else {
            true
        };
        proof {
            lemma_cell(value@, pattern@, length as int, j as int);
            lemma_cell(value@, pattern@, length as int, j + 1);
        }
        row.set(j, pattern[j] == '%' && right);
    }
    let mut i: usize = length;
    while i > 0
        invariant
            i <= length,
            width == pattern.len(),
            width > 0,
            length == value.len(),
            row.len() == width,
            forall|k: int| 0 <= k < width ==> row[k] == cell(value@, pattern@, i as int, k),
        decreases i,
    {
        i -= 1;
        let mut next = blank_row(width);
        let mut j: usize = width;
        while j > 0
            invariant
                j <= width,
                i < length,
                width == pattern.len(),
                length == value.len(),
                row.len() == width,
                next.len() == width,
                forall|k: int| 0 <= k < width ==> row[k] == cell(value@, pattern@, i + 1, k),
                forall|k: int| j <= k < width ==> next[k] == cell(value@, pattern@, i as int, k),
            decreases j,
        {
            j -= 1;
            let wanted = pattern[j];
            let here = if wanted == '\\' {
                if j + 1 < width {
                    let after = if j + 2 < width {
                        row[j + 2]
                    } else {
                        i + 1 == length
                    };
                    proof {
                        lemma_cell(value@, pattern@, i + 1, j + 2);
                    }
                    fold(pattern[j + 1]) == fold(value[i]) && after
                } else {
                    false
                }
            } else {
                let below = row[j];
                let below_right = if j + 1 < width {
                    row[j + 1]
                } else {
                    i + 1 == length
                };
                let right = if j + 1 < width {
                    next[j + 1]
                } else {
                    false
                };
                proof {
                    lemma_cell(value@, pattern@, i as int, j + 1);
                    lemma_cell(value@, pattern@, i + 1, j + 1);
                }
                if wanted == '%' {
                    right || below
                } else {
                    (wanted == '_' || fold(wanted) == fold(value[i])) && below_right
                }
            };
            proof {
                lemma_cell(value@, pattern@, i as int, j as int);
            }
            next.set(j, here);
        }
        row = next;
    }
    row[0]
}

/// True where a row with `value` in its search column is one that the
/// free-text filter selects. The answer is that of the filter's pattern,
/// read as storage reads it.
pub fn matches_filter(value: &str, filter: &str) -> (selected: bool)
    ensures
        selected == selects(value@, filter@),
{
    let selection = select_all(filter, None);
    proof {
        lemma_pattern_selects_by_containment(value@, filter@);
    }
    match selection.pattern {
        Some(pattern) => like_matches(&characters(value), &characters(pattern.as_str())),
        None => true,
    }
}

/// What a deletion asks for next.
#[derive(Debug, PartialEq, Eq)]
pub enum DeletionAction<T> {
    /// Fetch the row of the identity.
    Fetch(i32),
    /// Delete the rows of the identity.
    Remove(i32),
    /// Return the result; the deletion is over.
    Return(Result<T, ResponderError>),
}

/// What storage answered to a deletion.
#[derive(Debug, PartialEq, Eq)]
pub enum DeletionEvent<T> {
    /// The fetch returned.
    Fetched(Result<T, ResponderError>),
    /// The delete returned, with the number of rows it took.
    Removed(Result<usize, ResponderError>),
}

/// Where a deletion stands.
#[derive(Debug, PartialEq, Eq)]
pub enum Deletion<T> {
    /// The row of the identity is being fetched.
    Fetching(i32),
    /// The row was fetched and is being deleted.
    Removing(T),
    /// The result was returned.
    Finished,
}

impl<T> Deletion<T> {
    /// A deletion starts by fetching the row.
    pub open spec fn begin(id: i32) -> (Self, DeletionAction<T>) {
        (Deletion::Fetching(id), DeletionAction::Fetch(id))
    }

    /// The deletion after `event` and what it asks for then, or nothing
    /// where the event is not the answer it waits on. A fetch that fails is
    /// returned as it is; a row that was fetched is deleted and then
    /// returned, unless the delete itself fails.
    pub open spec fn next(self, event: DeletionEvent<T>) -> Option<(Self, DeletionAction<T>)> {
        match (self, event) {
            (Deletion::Fetching(_), DeletionEvent::Fetched(Err(error))) => Some(
                (Deletion::Finished, DeletionAction::Return(Err(error))),
            ),
            (Deletion::Fetching(id), DeletionEvent::Fetched(Ok(row))) => Some(
                (Deletion::Removing(row), DeletionAction::Remove(id)),
            ),
            (Deletion::Removing(_), DeletionEvent::Removed(Err(error))) => Some(
                (Deletion::Finished, DeletionAction::Return(Err(error))),
            ),
            (Deletion::Removing(row), DeletionEvent::Removed(Ok(_))) => Some(
                (Deletion::Finished, DeletionAction::Return(Ok(row))),
            ),
            _ => None,
        }
    }

    /// What the deletion asks for while it is fed `events`, up to the first
    /// that it does not take.
    pub open spec fn follow(self, events: Seq<DeletionEvent<T>>) -> Seq<DeletionAction<T>>
        decreases events.len(),
    {
        if events.len() == 0 {
            Seq::empty()
        } else {
            match self.next(events[0]) {
                Some((deletion, action)) => seq![action] + deletion.follow(events.drop_first()),
                None => Seq::empty(),
            }
        }
    }

    /// All that the deletion of `id` asks for where storage answers with
    /// `events`.
    pub open spec fn run(id: i32, events: Seq<DeletionEvent<T>>) -> Seq<DeletionAction<T>> {
        seq![DeletionAction::Fetch(id)] + Deletion::<T>::Fetching(id).follow(events)
    }

    /// Starts the deletion of the row of `id`.
    pub fn start(id: i32) -> (started: (Self, DeletionAction<T>))
        ensures
            started == Self::begin(id),
    {
        (Deletion::Fetching(id), DeletionAction::Fetch(id))
    }

    /// Takes storage's answer and hands out what to do next.
    pub fn step(self, event: DeletionEvent<T>) -> (stepped: Option<(Self, DeletionAction<T>)>)
        ensures
            stepped == self.next(event),
    {
        match (self, event) {
            (Deletion::Fetching(_), DeletionEvent::Fetched(Err(error))) => Some(
                (Deletion::Finished, DeletionAction::Return(Err(error))),
            ),
            (Deletion::Fetching(id), DeletionEvent::Fetched(Ok(row))) => Some(
                (Deletion::Removing(row), DeletionAction::Remove(id)),
            ),
            (Deletion::Removing(_), DeletionEvent::Removed(Err(error))) => Some(
                (Deletion::Finished, DeletionAction::Return(Err(error))),
            ),
            (Deletion::Removing(row), DeletionEvent::Removed(Ok(_))) => Some(
                (Deletion::Finished, DeletionAction::Return(Ok(row))),
            ),
            _ => None,
        }
    }
}

/// A deletion whose fetch fails deletes nothing: it returns the fetch's
/// failure as it is, and the handler without a post-hook answers with an
/// error envelope that carries it.
pub proof fn lemma_failed_fetch_deletes_nothing<T: Identified, N: Duplicate>(
    pre: bool,
    id: i32,
    error: ResponderError,
    events: Seq<DeletionEvent<T>>,
)
    requires
        events.len() > 0,
        events[0] == DeletionEvent::<T>::Fetched(Err(error)),
    ensures
        ({
            let actions = Deletion::<T>::run(id, events);
            &&& actions == seq![DeletionAction::<T>::Fetch(id), DeletionAction::Return(Err(error))]
            &&& forall|i: int| 0 <= i < actions.len() ==> !(#[trigger] actions[i] is Remove)
        }),
        forall|pipeline: Pipeline<T, N>|
            pipeline.stage is Persisting && !pipeline.post ==> (#[trigger] pipeline.next(
                Event::Persisted(Err(error)),
            ) matches Some((_, Action::Respond(responder))) && responder.status
                == ResponderStatus::Error && responder.error == Some(error)),
{
    reveal_with_fuel(Deletion::follow, 2);
    let (deletion, second) = Deletion::<T>::Fetching(id).next(events[0])->0;
    assert(deletion.follow(events.drop_first()) =~= Seq::<DeletionAction<T>>::empty());
    assert(Deletion::<T>::run(id, events) =~= seq![DeletionAction::<T>::Fetch(id), second]);
}

/// A deletion returns the row as it was fetched, not as storage may hold
/// it later, and deletes only after the fetch.
pub proof fn lemma_deletion_returns_fetched_row<T>(id: i32, row: T, count: usize)
    ensures
        Deletion::<T>::run(
            id,
            seq![DeletionEvent::Fetched(Ok(row)), DeletionEvent::Removed(Ok(count))],
        ) == seq![
            DeletionAction::<T>::Fetch(id),
            DeletionAction::Remove(id),
            DeletionAction::Return(Ok(row)),
        ],
{
    reveal_with_fuel(Deletion::follow, 3);
    let events = seq![DeletionEvent::<T>::Fetched(Ok(row)), DeletionEvent::Removed(Ok(count))];
    assert(events.drop_first().drop_first() =~= Seq::<DeletionEvent<T>>::empty());
    assert(events.drop_first()[0] == DeletionEvent::<T>::Removed(Ok(count)));
    assert(Deletion::<T>::run(id, events) =~= seq![
        DeletionAction::<T>::Fetch(id),
        DeletionAction::Remove(id),
        DeletionAction::Return(Ok(row)),
    ]);
}

} // verus!
