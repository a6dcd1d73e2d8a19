//! The windows created while listening, including those already handled.
//!
//! Keeping handled windows until their destruction prevents duplicate creation
//! events or later main-window changes from overwriting the user's manual
//! resizing.
use vstd::prelude::*;
use vstd::std_specs::cmp::PartialEqSpec;

verus! {

/// The windows created while listening, each with whether it was handled.
#[derive(Debug)]
pub struct CreatedWindows<T> {
    pub entries: Vec<(T, bool)>,
}

/// An entry stands for the window.
pub open spec fn stands_for<T: PartialEq>(entry: (T, bool), window: T) -> bool {
    entry.0.eq_spec(&window)
}

/// Some entry stands for the window.
pub open spec fn known<T: PartialEq>(entries: Seq<(T, bool)>, window: T) -> bool {
    exists|i: int| 0 <= i < entries.len() && stands_for(#[trigger] entries[i], window)
}

/// The position of the first entry that stands for the window, or the number of
/// entries where none does.
pub open spec fn first_entry<T: PartialEq>(entries: Seq<(T, bool)>, window: T) -> int
    decreases entries.len(),
{
    if entries.len() == 0 || stands_for(entries[0], window) {
        0
    } else {
        1 + first_entry(entries.drop_first(), window)
    }
}

/// The window is known and was not handled yet.
pub open spec fn claimable<T: PartialEq>(entries: Seq<(T, bool)>, window: T) -> bool {
    let i = first_entry(entries, window);
    i < entries.len() && !entries[i].1
}

/// The entries once the window is handled.
pub open spec fn claimed<T: PartialEq>(entries: Seq<(T, bool)>, window: T) -> Seq<(T, bool)> {
    let i = first_entry(entries, window);
    if i < entries.len() {
        entries.update(i, (entries[i].0, true))
    } else {
        entries
    }
}

/// The entries without those that stand for the window.
pub open spec fn forgotten<T: PartialEq>(entries: Seq<(T, bool)>, window: T) -> Seq<(T, bool)>
    decreases entries.len(),
{
    if entries.len() == 0 {
        seq![]
    } else if stands_for(entries[0], window) {
        forgotten(entries.drop_first(), window)
    } else {
        seq![entries[0]] + forgotten(entries.drop_first(), window)
    }
}

/// Where the first entry for a window stands.
pub proof fn lemma_first_entry<T: PartialEq>(entries: Seq<(T, bool)>, window: T)
    ensures
        0 <= first_entry(entries, window) <= entries.len(),
        first_entry(entries, window) < entries.len() ==> stands_for(
            entries[first_entry(entries, window)],
            window,
        ),
        forall|i: int|
            0 <= i < first_entry(entries, window) ==> !stands_for(#[trigger] entries[i], window),
    decreases entries.len(),
{
    if entries.len() > 0 && !stands_for(entries[0], window) {
        let rest = entries.drop_first();
        lemma_first_entry(rest, window);
        assert forall|i: int| 0 <= i < first_entry(entries, window) implies !stands_for(
            #[trigger] entries[i],
            window,
        ) by {
            if i > 0 {
                assert(!stands_for(rest[i - 1], window));
            }
        }
    }
}

/// The first entry for a window stands where no earlier one does.
proof fn lemma_first_entry_is<T: PartialEq>(entries: Seq<(T, bool)>, window: T, at: int)
    requires
        0 <= at <= entries.len(),
        at < entries.len() ==> stands_for(entries[at], window),
        forall|i: int| 0 <= i < at ==> !stands_for(#[trigger] entries[i], window),
    ensures
        first_entry(entries, window) == at,
{
    lemma_first_entry(entries, window);
    let found = first_entry(entries, window);
    if found < at {
        assert(!stands_for(entries[found], window));
    }
    if at < found {
        assert(!stands_for(entries[at], window));
    }
}

impl<T: PartialEq> CreatedWindows<T> {
    fn position(&self, window: &T) -> (r: usize)
        ensures
            T::obeys_eq_spec() ==> r == first_entry(self.entries@, *window),
            r <= self.entries@.len(),
    {
        let mut i: usize = 0;
        while i < self.entries.len()
            invariant
                i <= self.entries@.len(),
                T::obeys_eq_spec() ==> forall|j: int|
                    0 <= j < i ==> !stands_for(#[trigger] self.entries@[j], *window),
            decreases self.entries@.len() - i,
        {
            if self.entries[i].0 == *window {
                proof {
                    if T::obeys_eq_spec() {
                        lemma_first_entry_is(self.entries@, *window, i as int);
                    }
                }
                return i;
            }
            i += 1;
        }
        proof {
            if T::obeys_eq_spec() {
                lemma_first_entry_is(self.entries@, *window, i as int);
            }
        }
        i
    }

    /// Tells whether the window is known.
    pub fn contains(&self, window: &T) -> (r: bool)
        ensures
            T::obeys_eq_spec() ==> r == known(self.entries@, *window),
    {
        let i = self.position(window);
        proof {
            lemma_first_entry(self.entries@, *window);
        }
        i < self.entries.len()
    }

    /// Marks the window as handled. Tells whether that is new: the window is
    /// known and was not handled before.
    pub fn claim(&mut self, window: &T) -> (r: bool)
        ensures
            T::obeys_eq_spec() ==> r == claimable(old(self).entries@, *window),
            T::obeys_eq_spec() ==> final(self).entries@ == claimed(old(self).entries@, *window),
    {
        let i = self.position(window);
        if i < self.entries.len() {
            let handled = self.entries[i].1;
            self.entries[i].1 = true;
            !handled
        } else {
            false
        }
    }

    /// Removes the window.
    pub fn forget(&mut self, window: &T)
        ensures
            T::obeys_eq_spec() ==> final(self).entries@ == forgotten(old(self).entries@, *window),
    {
        let ghost before = self.entries@;
        let mut i: usize = 0;
        assert(self.entries@.take(0) + forgotten(before, *window) =~= forgotten(before, *window));
        assert(before.skip(0) =~= before);
        while i < self.entries.len()
            invariant
                i <= self.entries@.len() <= before.len(),
                T::obeys_eq_spec() ==> forgotten(before, *window) == self.entries@.take(i as int)
                    + forgotten(self.entries@.skip(i as int), *window),
            decreases self.entries@.len() - i,
        {
            let ghost now = self.entries@;
            if self.entries[i].0 != *window {
                i += 1;
                assert(now.skip(i as int) =~= now.skip(i - 1).drop_first());
                assert(now.take(i as int) + forgotten(now.skip(i as int), *window) =~= now.take(
                    i - 1,
                ) + (seq![now[i - 1]] + forgotten(now.skip(i as int), *window)));
            } else {
                let _ = self.entries.remove(i);
                assert(self.entries@.take(i as int) =~= now.take(i as int));
                assert(self.entries@.skip(i as int) =~= now.skip(i as int).drop_first());
            }
        }
        assert(self.entries@.take(i as int) + forgotten(self.entries@.skip(i as int), *window)
            =~= self.entries@);
    }
}

/// The window is known and was handled.
pub open spec fn handled<T: PartialEq>(entries: Seq<(T, bool)>, window: T) -> bool {
    known(entries, window) && !claimable(entries, window)
}

/// No entry stands for both windows.
pub open spec fn unlike<T: PartialEq>(a: T, b: T) -> bool {
    forall|entry: (T, bool)| !(#[trigger] stands_for(entry, a) && stands_for(entry, b))
}

/// The two windows cannot be told apart: each entry stands for both or neither.
pub open spec fn alike<T: PartialEq>(a: T, b: T) -> bool {
    forall|entry: (T, bool)| #[trigger] stands_for(entry, a) == stands_for(entry, b)
}

/// What can happen to the entries.
pub ghost enum Change<T> {
    Create(T),
    Claim(T),
    Forget(T),
}

/// The entries after a change.
pub open spec fn after<T: PartialEq>(entries: Seq<(T, bool)>, change: Change<T>) -> Seq<(T, bool)> {
    match change {
        Change::Create(window) => entries.push((window, false)),
        Change::Claim(window) => claimed(entries, window),
        Change::Forget(window) => forgotten(entries, window),
    }
}

/// The entries after several changes.
pub open spec fn after_all<T: PartialEq>(
    entries: Seq<(T, bool)>,
    changes: Seq<Change<T>>,
) -> Seq<(T, bool)>
    decreases changes.len(),
{
    if changes.len() == 0 {
        entries
    } else {
        after(after_all(entries, changes.drop_last()), changes.last())
    }
}

/// What forgetting keeps.
pub proof fn lemma_forgotten<T: PartialEq>(entries: Seq<(T, bool)>, gone: T)
    ensures
        forgotten(entries, gone).len() <= entries.len(),
        forall|i: int|
            0 <= i < forgotten(entries, gone).len() ==> !stands_for(
                #[trigger] forgotten(entries, gone)[i],
                gone,
            ) && entries.contains(forgotten(entries, gone)[i]),
        forall|i: int|
            0 <= i < entries.len() && !stands_for(#[trigger] entries[i], gone) ==> forgotten(
                entries,
                gone,
            ).contains(entries[i]),
    decreases entries.len(),
{
    if entries.len() > 0 {
        let rest = entries.drop_first();
        let less = forgotten(rest, gone);
        let all = forgotten(entries, gone);
        lemma_forgotten(rest, gone);
        assert forall|i: int| 0 <= i < all.len() implies !stands_for(#[trigger] all[i], gone)
            && entries.contains(all[i]) by {
            if !stands_for(entries[0], gone) {
                if i > 0 {
                    assert(all[i] == less[i - 1]);
                    let k = choose|k: int| 0 <= k < rest.len() && rest[k] == less[i - 1];
                    assert(entries[k + 1] == all[i]);
                } else {
                    assert(all[0] == entries[0]);
                }
            } else {
                let k = choose|k: int| 0 <= k < rest.len() && rest[k] == less[i];
                assert(entries[k + 1] == all[i]);
            }
        }
        assert forall|i: int| 0 <= i < entries.len() && !stands_for(#[trigger] entries[i], gone)
            implies all.contains(entries[i]) by {
            if i == 0 {
                assert(all[0] == entries[0]);
            } else {
                assert(rest[i - 1] == entries[i]);
                let k = choose|k: int| 0 <= k < less.len() && less[k] == rest[i - 1];
                if stands_for(entries[0], gone) {
                    assert(all[k] == entries[i]);
                } else {
                    assert(all[k + 1] == entries[i]);
                }
            }
        }
    }
}

/// Windows that cannot be told apart share their entries.
pub proof fn lemma_alike<T: PartialEq>(entries: Seq<(T, bool)>, a: T, b: T)
    requires
        alike(a, b),
    ensures
        handled(entries, a) == handled(entries, b),
{
    lemma_first_entry(entries, a);
    lemma_first_entry_is(entries, b, first_entry(entries, a));
    if known(entries, a) {
        let i = choose|i: int| 0 <= i < entries.len() && stands_for(#[trigger] entries[i], a);
        assert(stands_for(entries[i], b));
    }
    if known(entries, b) {
        let i = choose|i: int| 0 <= i < entries.len() && stands_for(#[trigger] entries[i], b);
        assert(stands_for(entries[i], a));
    }
}

/// A window is claimed at most once: right after a claim there is nothing left
/// to claim.
pub proof fn law_a_window_is_claimed_once<T: PartialEq>(entries: Seq<(T, bool)>, window: T)
    ensures
        !claimable(claimed(entries, window), window),
{
    lemma_first_entry(entries, window);
    let i = first_entry(entries, window);
    let next = claimed(entries, window);
    assert forall|j: int| 0 <= j < i implies !stands_for(#[trigger] next[j], window) by {
        assert(next[j] == entries[j]);
    }
    lemma_first_entry_is(next, window, i);
}

/// Claiming forgets no window and makes none known.
pub proof fn law_claiming_keeps_the_windows<T: PartialEq>(
    entries: Seq<(T, bool)>,
    window: T,
    other: T,
)
    ensures
        known(claimed(entries, window), other) == known(entries, other),
{
    let next = claimed(entries, window);
    lemma_first_entry(entries, window);
    if known(entries, other) {
        let i = choose|i: int| 0 <= i < entries.len() && stands_for(#[trigger] entries[i], other);
        assert(stands_for(next[i], other));
    }
    if known(next, other) {
        let i = choose|i: int| 0 <= i < next.len() && stands_for(#[trigger] next[i], other);
        assert(stands_for(entries[i], other));
    }
}

proof fn lemma_claimed_first_entry<T: PartialEq>(entries: Seq<(T, bool)>, window: T, other: T)
    ensures
        first_entry(claimed(entries, window), other) == first_entry(entries, other),
{
    let next = claimed(entries, window);
    lemma_first_entry(entries, window);
    lemma_first_entry(entries, other);
    assert forall|i: int| 0 <= i < entries.len() implies stands_for(#[trigger] next[i], other)
        == stands_for(entries[i], other) by {}
    lemma_first_entry_is(next, other, first_entry(entries, other));
}

/// The order of two claims does not matter, and claiming a window does not change
/// whether an unlike one can be claimed.
pub proof fn law_claims_do_not_interfere<T: PartialEq>(entries: Seq<(T, bool)>, a: T, b: T)
    ensures
        claimed(claimed(entries, a), b) == claimed(claimed(entries, b), a),
        unlike(a, b) ==> claimable(claimed(entries, a), b) == claimable(entries, b),
{
    lemma_claimed_first_entry(entries, a, b);
    lemma_claimed_first_entry(entries, b, a);
    lemma_first_entry(entries, a);
    lemma_first_entry(entries, b);
    assert(claimed(claimed(entries, a), b) =~= claimed(claimed(entries, b), a));
    if unlike(a, b) && first_entry(entries, a) < entries.len() {
        assert(stands_for(entries[first_entry(entries, a)], a));
    }
}

/// Forgetting a window twice is forgetting it once, and the order in which two
/// windows are forgotten does not matter.
pub proof fn law_the_order_of_removals_does_not_matter<T: PartialEq>(
    entries: Seq<(T, bool)>,
    a: T,
    b: T,
)
    ensures
        forgotten(forgotten(entries, a), a) == forgotten(entries, a),
        forgotten(forgotten(entries, a), b) == forgotten(forgotten(entries, b), a),
    decreases entries.len(),
{
    if entries.len() > 0 {
        let rest = entries.drop_first();
        law_the_order_of_removals_does_not_matter(rest, a, b);
        assert((seq![entries[0]] + forgotten(rest, a)).drop_first() =~= forgotten(rest, a));
        assert((seq![entries[0]] + forgotten(rest, b)).drop_first() =~= forgotten(rest, b));
    }
}

proof fn lemma_nothing_to_forget<T: PartialEq>(entries: Seq<(T, bool)>, window: T)
    requires
        !known(entries, window),
    ensures
        forgotten(entries, window) == entries,
    decreases entries.len(),
{
    if entries.len() > 0 {
        let rest = entries.drop_first();
        assert(!stands_for(entries[0], window));
        assert forall|i: int| 0 <= i < rest.len() implies !stands_for(#[trigger] rest[i], window) by {
            assert(!stands_for(entries[i + 1], window));
        }
        lemma_nothing_to_forget(rest, window);
        assert(entries =~= seq![entries[0]] + rest);
    }
}

proof fn lemma_forgotten_push<T: PartialEq>(entries: Seq<(T, bool)>, entry: (T, bool), window: T)
    requires
        stands_for(entry, window),
    ensures
        forgotten(entries.push(entry), window) == forgotten(entries, window),
    decreases entries.len(),
{
    if entries.len() > 0 {
        assert(entries.push(entry).drop_first() =~= entries.drop_first().push(entry));
        lemma_forgotten_push(entries.drop_first(), entry, window);
    } else {
        assert(entries.push(entry).drop_first() =~= seq![]);
        reveal_with_fuel(forgotten, 2);
    }
}

/// A window that is created, claimed or not, and then destroyed leaves no trace.
pub proof fn law_a_destroyed_window_leaves_no_trace<T: PartialEq>(
    entries: Seq<(T, bool)>,
    window: T,
    is_handled: bool,
)
    requires
        window.eq_spec(&window),
        !known(entries, window),
    ensures
        forgotten(entries.push((window, is_handled)), window) == entries,
{
    lemma_forgotten_push(entries, (window, is_handled), window);
    lemma_nothing_to_forget(entries, window);
}

/// A forgotten window is not known, and cannot be claimed.
pub proof fn law_a_forgotten_window_is_gone<T: PartialEq>(entries: Seq<(T, bool)>, window: T)
    ensures
        !known(forgotten(entries, window), window),
        !claimable(forgotten(entries, window), window),
{
    lemma_forgotten(entries, window);
    lemma_first_entry(forgotten(entries, window), window);
}

/// Forgetting a window does not affect other windows.
pub proof fn law_forgetting_spares_other_windows<T: PartialEq>(
    entries: Seq<(T, bool)>,
    window: T,
    other: T,
)
    requires
        unlike(other, window),
    ensures
        known(forgotten(entries, window), other) == known(entries, other),
        claimable(forgotten(entries, window), other) == claimable(entries, other),
    decreases entries.len(),
{
    let next = forgotten(entries, window);
    lemma_forgotten(entries, window);
    if entries.len() > 0 {
        let rest = entries.drop_first();
        law_forgetting_spares_other_windows(rest, window, other);
        lemma_first_entry(rest, other);
        lemma_first_entry(forgotten(rest, window), other);
        if !stands_for(entries[0], window) {
            assert(next.drop_first() =~= forgotten(rest, window));
            assert(next[0] == entries[0]);
        }
    }
    if known(entries, other) {
        let i = choose|i: int| 0 <= i < entries.len() && stands_for(#[trigger] entries[i], other);
        assert(!stands_for(entries[i], window));
        let k = choose|k: int| 0 <= k < next.len() && next[k] == entries[i];
        assert(stands_for(next[k], other));
    }
    if known(next, other) {
        let k = choose|k: int| 0 <= k < next.len() && stands_for(#[trigger] next[k], other);
        assert(entries.contains(next[k]));
        let i = choose|i: int| 0 <= i < entries.len() && entries[i] == next[k];
        assert(stands_for(entries[i], other));
    }
}

proof fn lemma_handled_stays<T: PartialEq>(entries: Seq<(T, bool)>, window: T, change: Change<T>)
    requires
        handled(entries, window),
        change matches Change::Forget(other) ==> unlike(window, other),
    ensures
        handled(after(entries, change), window),
{
    lemma_first_entry(entries, window);
    let i = first_entry(entries, window);
    let next = after(entries, change);
    let w = choose|w: int| 0 <= w < entries.len() && stands_for(#[trigger] entries[w], window);
    assert(i < entries.len());
    match change {
        Change::Create(other) => {
            assert(next[i] == entries[i]);
            assert forall|j: int| 0 <= j < i implies !stands_for(#[trigger] next[j], window) by {
                assert(next[j] == entries[j]);
            }
            lemma_first_entry_is(next, window, i);
        },
        Change::Claim(other) => {
            lemma_first_entry(entries, other);
            assert(stands_for(next[i], window));
            assert forall|j: int| 0 <= j < i implies !stands_for(#[trigger] next[j], window) by {
                assert(!stands_for(entries[j], window));
            }
            lemma_first_entry_is(next, window, i);
        },
        Change::Forget(other) => {
            law_forgetting_spares_other_windows(entries, other, window);
        },
    }
}

/// Once handled, a window is never claimed again before it is forgotten,
/// whatever else happens: not when its creation is reported again, and not when
/// it becomes the main window again.
pub proof fn law_a_handled_window_is_left_alone<T: PartialEq>(
    entries: Seq<(T, bool)>,
    window: T,
    changes: Seq<Change<T>>,
)
    requires
        handled(entries, window),
        forall|i: int|
            0 <= i < changes.len() ==> (#[trigger] changes[i] matches Change::Forget(other)
                ==> unlike(window, other)),
    ensures
        handled(after_all(entries, changes), window),
        !claimable(after_all(entries, changes), window),
    decreases changes.len(),
{
    if changes.len() > 0 {
        law_a_handled_window_is_left_alone(entries, window, changes.drop_last());
        assert(changes[changes.len() - 1] == changes.last());
        lemma_handled_stays(
            after_all(entries, changes.drop_last()),
            window,
            changes.last(),
        );
    }
}

/// A window that becomes known was created.
pub proof fn lemma_newly_known<T: PartialEq>(
    before: Seq<(T, bool)>,
    changes: Seq<Change<T>>,
    window: T,
)
    requires
        !known(before, window),
        known(after_all(before, changes), window),
    ensures
        exists|i: int|
            0 <= i < changes.len() && (#[trigger] changes[i] matches Change::Create(created)
                && created.eq_spec(&window)),
    decreases changes.len(),
{
    if changes.len() > 0 {
        let front = changes.drop_last();
        let entries = after_all(before, front);
        let next = after_all(before, changes);
        let last = changes.len() - 1;
        if known(entries, window) {
            lemma_newly_known(before, front, window);
            let i = choose|i: int|
                0 <= i < front.len() && (#[trigger] front[i] matches Change::Create(created)
                    && created.eq_spec(&window));
            assert(changes[i] == front[i]);
        } else {
            let k = choose|k: int| 0 <= k < next.len() && stands_for(#[trigger] next[k], window);
            match changes[last] {
                Change::Create(created) => {
                    if k < entries.len() {
                        assert(stands_for(entries[k], window));
                    }
                },
                Change::Claim(other) => {
                    law_claiming_keeps_the_windows(entries, other, window);
                },
                Change::Forget(other) => {
                    lemma_forgotten(entries, other);
                    assert(entries.contains(next[k]));
                    let i = choose|i: int| 0 <= i < entries.len() && entries[i] == next[k];
                    assert(stands_for(entries[i], window));
                },
            }
        }
    }
}

/// A window created after another with the same identity was forgotten can be
/// claimed.
pub proof fn law_an_identity_can_be_used_again<T: PartialEq>(entries: Seq<(T, bool)>, window: T)
    requires
        window.eq_spec(&window),
    ensures
        claimable(forgotten(entries, window).push((window, false)), window),
{
    let rest = forgotten(entries, window);
    lemma_forgotten(entries, window);
    assert forall|i: int| 0 <= i < rest.len() implies !stands_for(
        #[trigger] rest.push((window, false))[i],
        window,
    ) by {
        assert(rest[i] == rest.push((window, false))[i]);
    }
    lemma_first_entry_is(rest.push((window, false)), window, rest.len() as int);
}

/// A window is known exactly if it equals the window of some entry.
pub proof fn law_known_windows<T: PartialEq>(entries: Seq<(T, bool)>, window: T)
    ensures
        known(entries, window) <==> exists|i: int|
            0 <= i < entries.len() && (#[trigger] entries[i]).0.eq_spec(&window),
{
    if known(entries, window) {
        let i = choose|i: int| 0 <= i < entries.len() && stands_for(#[trigger] entries[i], window);
        assert(entries[i].0.eq_spec(&window));
    }
    if exists|i: int| 0 <= i < entries.len() && (#[trigger] entries[i]).0.eq_spec(&window) {
        let i = choose|i: int|
            0 <= i < entries.len() && (#[trigger] entries[i]).0.eq_spec(&window);
        assert(stands_for(entries[i], window));
    }
}

/// The entry is the first whose window equals this one.
pub open spec fn found_at<T: PartialEq>(entries: Seq<(T, bool)>, window: T, i: int) -> bool {
    &&& 0 <= i < entries.len()
    &&& entries[i].0.eq_spec(&window)
    &&& forall|j: int| 0 <= j < i ==> !(#[trigger] entries[j]).0.eq_spec(&window)
}

/// A window can be claimed exactly if the first entry for it says that it was not
/// handled, whatever the other entries say. Claiming it changes that entry alone,
/// and says there that it was handled.
pub proof fn law_claims<T: PartialEq>(entries: Seq<(T, bool)>, window: T, i: int)
    requires
        found_at(entries, window, i),
    ensures
        claimable(entries, window) == !entries[i].1,
        claimed(entries, window).len() == entries.len(),
        claimed(entries, window)[i] == (entries[i].0, true),
        forall|j: int|
            0 <= j < entries.len() && j != i ==> #[trigger] claimed(entries, window)[j]
                == entries[j],
{
    assert forall|j: int| 0 <= j < i implies !stands_for(#[trigger] entries[j], window) by {
        assert(!entries[j].0.eq_spec(&window));
    }
    lemma_first_entry_is(entries, window, i);
}

/// A window that is not known cannot be claimed, and trying to changes nothing.
pub proof fn law_unknown_windows_cannot_be_claimed<T: PartialEq>(
    entries: Seq<(T, bool)>,
    window: T,
)
    requires
        forall|i: int| 0 <= i < entries.len() ==> !(#[trigger] entries[i]).0.eq_spec(&window),
    ensures
        !claimable(entries, window),
        claimed(entries, window) == entries,
{
    lemma_first_entry(entries, window);
    let i = first_entry(entries, window);
    if i < entries.len() {
        assert(!entries[i].0.eq_spec(&window));
    }
}

/// Forgetting a window keeps the entries for other windows, in their order, and
/// drops the rest.
pub proof fn law_what_is_forgotten<T: PartialEq>(entries: Seq<(T, bool)>, window: T)
    ensures
        forgotten(entries, window) == entries.filter(
            |entry: (T, bool)| !entry.0.eq_spec(&window),
        ),
    decreases entries.len(),
{
    let keep = |entry: (T, bool)| !entry.0.eq_spec(&window);
    if entries.len() == 0 {
        assert(entries.filter(keep) =~= seq![]) by {
            reveal(Seq::filter);
        }
    } else {
        let rest = entries.drop_first();
        law_what_is_forgotten(rest, window);
        assert(entries =~= seq![entries[0]] + rest);
        Seq::filter_distributes_over_add(seq![entries[0]], rest, keep);
        assert(seq![entries[0]].filter(keep) =~= if keep(entries[0]) {
            seq![entries[0]]
        } else {
            seq![]
        }) by {
            reveal(Seq::filter);
            assert(seq![entries[0]].drop_last() =~= seq![]);
            assert(Seq::<(T, bool)>::empty().filter(keep) =~= seq![]);
        }
        if !keep(entries[0]) {
            assert(seq![] + rest.filter(keep) =~= rest.filter(keep));
        }
    }
}

/// A window that is created is known from then on, and can be claimed if it was not
/// known before.
pub proof fn law_a_created_window_can_be_claimed<T: PartialEq>(
    entries: Seq<(T, bool)>,
    window: T,
)
    requires
        window.eq_spec(&window),
        !known(entries, window),
    ensures
        known(entries.push((window, false)), window),
        claimable(entries.push((window, false)), window),
        claimed(entries.push((window, false)), window) == entries.push((window, true)),
{
    let more = entries.push((window, false));
    let last = entries.len() as int;
    assert(stands_for(more[last], window));
    assert forall|j: int| 0 <= j < last implies !stands_for(#[trigger] more[j], window) by {
        assert(!stands_for(entries[j], window));
    }
    lemma_first_entry_is(more, window, last);
    assert(claimed(more, window) =~= entries.push((window, true)));
}

/// Windows that cannot be told apart can be claimed alike.
pub proof fn lemma_alike_claims<T: PartialEq>(entries: Seq<(T, bool)>, a: T, b: T)
    requires
        alike(a, b),
    ensures
        known(entries, a) == known(entries, b),
        claimable(entries, a) == claimable(entries, b),
        claimed(entries, a) == claimed(entries, b),
{
    lemma_alike(entries, a, b);
    lemma_first_entry(entries, a);
    lemma_first_entry_is(entries, b, first_entry(entries, a));
    if known(entries, a) {
        let i = choose|i: int| 0 <= i < entries.len() && stands_for(#[trigger] entries[i], a);
        assert(stands_for(entries[i], b));
    }
    if known(entries, b) {
        let i = choose|i: int| 0 <= i < entries.len() && stands_for(#[trigger] entries[i], b);
        assert(stands_for(entries[i], a));
    }
}

/// What is asked of and done to the windows.
pub proof fn law_functions_on_windows<T: PartialEq>(
    windows: &CreatedWindows<T>,
    window: &T,
    is_known: bool,
)
    requires
        T::obeys_eq_spec(),
        call_ensures(CreatedWindows::<T>::contains, (windows, window), is_known),
    ensures
        is_known <==> exists|i: int|
            0 <= i < windows.entries@.len() && (#[trigger] windows.entries@[i]).0.eq_spec(window),
{
    law_known_windows(windows.entries@, *window);
}

/// A claim tells whether the first entry for the window was not handled, and changes
/// that entry alone.
pub proof fn law_a_claim_is_told<T: PartialEq>(
    windows: &mut CreatedWindows<T>,
    window: &T,
    r: bool,
    i: int,
)
    requires
        T::obeys_eq_spec(),
        call_ensures(CreatedWindows::<T>::claim, (windows, window), r),
        found_at(old(windows).entries@, *window, i),
    ensures
        r == !old(windows).entries@[i].1,
        final(windows).entries@ == old(windows).entries@.update(
            i,
            (old(windows).entries@[i].0, true),
        ),
{
    let entries = old(windows).entries@;
    law_claims(entries, *window, i);
    assert(claimed(entries, *window) =~= entries.update(i, (entries[i].0, true)));
}

/// What is not known cannot be claimed, and what is forgotten is every entry for the
/// window and no other.
pub proof fn law_what_is_left<T: PartialEq>(
    windows: &mut CreatedWindows<T>,
    others: &mut CreatedWindows<T>,
    window: &T,
    r: bool,
)
    requires
        T::obeys_eq_spec(),
        call_ensures(CreatedWindows::<T>::claim, (windows, window), r),
        call_ensures(CreatedWindows::<T>::forget, (others, window), ()),
        !known(old(windows).entries@, *window),
    ensures
        !r,
        final(windows).entries@ == old(windows).entries@,
        final(others).entries@ == old(others).entries@.filter(
            |entry: (T, bool)| !entry.0.eq_spec(window),
        ),
{
    let entries = old(windows).entries@;
    assert forall|i: int| 0 <= i < entries.len() implies !(#[trigger] entries[i]).0.eq_spec(
        window,
    ) by {
        assert(!stands_for(entries[i], *window));
    }
    law_unknown_windows_cannot_be_claimed(entries, *window);
    law_what_is_forgotten(old(others).entries@, *window);
}

} // verus!
