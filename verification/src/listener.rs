//! Listening to the windows of one application.
use vstd::prelude::*;
use vstd::std_specs::cmp::PartialEqSpec;

use crate::attributes::NOTIFICATION_ALREADY_REGISTERED;
use crate::attributes::Readings;
use crate::attributes::SUCCESS;
use crate::config::Rule;
use crate::text::same;
use crate::windows::Change;
use crate::windows::CreatedWindows;
use crate::windows::after_all;
use crate::windows::alike;
use crate::windows::claimable;
use crate::windows::claimed;
use crate::windows::first_entry;
use crate::windows::forgotten;
use crate::windows::found_at;
use crate::windows::handled;
use crate::windows::known;
use crate::windows::law_a_created_window_can_be_claimed;
use crate::windows::law_a_handled_window_is_left_alone;
use crate::windows::law_a_window_is_claimed_once;
use crate::windows::law_claiming_keeps_the_windows;
use crate::windows::law_claims;
use crate::windows::law_claims_do_not_interfere;
use crate::windows::law_forgetting_spares_other_windows;
use crate::windows::law_known_windows;
use crate::windows::law_unknown_windows_cannot_be_claimed;
use crate::windows::law_what_is_forgotten;
use crate::windows::lemma_alike;
use crate::windows::lemma_alike_claims;
use crate::windows::lemma_first_entry;
use crate::windows::lemma_forgotten;
use crate::windows::lemma_newly_known;
use crate::windows::stands_for;
use crate::windows::unlike;

verus! {

/// The notification that a window was created.
pub const WINDOW_CREATED: &'static str = "AXWindowCreated";

/// The notification that another window became the main window.
pub const MAIN_WINDOW_CHANGED: &'static str = "AXMainWindowChanged";

/// The notification that a window was destroyed.
pub const WINDOW_DESTROYED: &'static str = "AXUIElementDestroyed";

/// What has to be done about a window.
#[derive(Clone, Copy, Debug, PartialEq, Eq, Structural)]
pub enum Request {
    Nothing,
    /// Ask to be notified of the window's destruction.
    WatchDestruction,
    /// Read whether the window is the main window.
    ReadMainState,
    /// Tell the user that the window is left out, for this code.
    ReportUnwatched(i32),
    /// Adjust the window.
    Adjust,
}

impl Request {
    /// The notification that the request asks to be sent.
    pub open spec fn asks_for(self) -> Option<Seq<char>> {
        match self {
            Request::WatchDestruction => Some(WINDOW_DESTROYED@),
            _ => None,
        }
    }

    /// Tells which notification the request asks to be sent.
    pub fn notification(self) -> (r: Option<&'static str>)
        ensures
            match r {
                Some(notification) => self.asks_for() == Some(notification@),
                None => self.asks_for() is None,
            },
    {
        match self {
            Request::WatchDestruction => Some(WINDOW_DESTROYED),
            _ => None,
        }
    }
}

/// The windows of one application, and the rule for them.
#[derive(Debug)]
pub struct WindowContext<T> {
    pub rule: Rule,
    pub windows: CreatedWindows<T>,
}

/// The entries after a notification, and what it asks for.
pub open spec fn notified<T: PartialEq>(
    entries: Seq<(T, bool)>,
    window: T,
    notification: Seq<char>,
) -> (Seq<(T, bool)>, Request) {
    if notification == WINDOW_DESTROYED@ {
        (forgotten(entries, window), Request::Nothing)
    } else if notification == WINDOW_CREATED@ {
        (
            entries,
            if known(entries, window) {
                Request::Nothing
            } else {
                Request::WatchDestruction
            },
        )
    } else if notification == MAIN_WINDOW_CHANGED@ {
        (
            entries,
            if known(entries, window) {
                Request::ReadMainState
            } else {
                Request::Nothing
            },
        )
    } else {
        (entries, Request::Nothing)
    }
}

/// The entries after the attempt to watch a window's destruction ended with a
/// code, and what that asks for. A window whose destruction would go unnoticed
/// is left out.
pub open spec fn watched<T: PartialEq>(
    entries: Seq<(T, bool)>,
    window: T,
    code: i32,
) -> (Seq<(T, bool)>, Request) {
    let more = entries.push((window, false));
    if code != SUCCESS && code != NOTIFICATION_ALREADY_REGISTERED {
        (entries, Request::ReportUnwatched(code))
    } else if known(more, window) {
        (more, Request::ReadMainState)
    } else {
        (more, Request::Nothing)
    }
}

/// The entries after the main state of a window was read, and what that asks
/// for.
pub open spec fn main_state<T: PartialEq>(
    entries: Seq<(T, bool)>,
    window: T,
    main: bool,
) -> (Seq<(T, bool)>, Request) {
    if !main {
        (entries, Request::Nothing)
    } else if claimable(entries, window) {
        (claimed(entries, window), Request::Adjust)
    } else {
        (claimed(entries, window), Request::Nothing)
    }
}

impl<T: PartialEq> WindowContext<T> {
    /// Listens to an application whose windows are all left alone so far.
    pub fn new(rule: Rule) -> (r: Self)
        ensures
            r.rule == rule,
            r.windows.entries@ == Seq::<(T, bool)>::empty(),
    {
        WindowContext { rule, windows: CreatedWindows { entries: Vec::new() } }
    }

    /// Takes note of a notification about a window.
    pub fn handle(&mut self, window: &T, notification: &str) -> (r: Request)
        ensures
            T::obeys_eq_spec() ==> (final(self).windows.entries@, r) == notified(
                old(self).windows.entries@,
                *window,
                notification@,
            ),
            final(self).rule == old(self).rule,
    {
        if same(notification, WINDOW_DESTROYED) {
            self.windows.forget(window);
            Request::Nothing
        } else if same(notification, WINDOW_CREATED) {
            if self.windows.contains(window) {
                Request::Nothing
            } else {
                Request::WatchDestruction
            }
        } else if same(notification, MAIN_WINDOW_CHANGED) {
            if self.windows.contains(window) {
                Request::ReadMainState
            } else {
                Request::Nothing
            }
        } else {
            Request::Nothing
        }
    }

    /// Takes note of the code with which the attempt to watch a new window's
    /// destruction ended.
    pub fn destruction_watched(&mut self, window: T, code: i32) -> (r: Request)
        ensures
            T::obeys_eq_spec() ==> (final(self).windows.entries@, r) == watched(
                old(self).windows.entries@,
                window,
                code,
            ),
            final(self).rule == old(self).rule,
    {
        if code != SUCCESS && code != NOTIFICATION_ALREADY_REGISTERED {
            return Request::ReportUnwatched(code);
        }
        self.windows.entries.push((window, false));
        let last: usize = self.windows.entries.len() - 1;
        if self.windows.contains(&self.windows.entries[last].0) {
            Request::ReadMainState
        } else {
            Request::Nothing
        }
    }

    /// Takes note of what was read of a window that may have become the main
    /// window.
    pub fn main_state_read(&mut self, window: &T, readings: &Readings) -> (r: Request)
        ensures
            T::obeys_eq_spec() ==> (final(self).windows.entries@, r) == main_state(
                old(self).windows.entries@,
                *window,
                readings.main_window(),
            ),
            final(self).rule == old(self).rule,
    {
        if !readings.is_main_window() {
            return Request::Nothing;
        }
        if self.windows.claim(window) {
            Request::Adjust
        } else {
            Request::Nothing
        }
    }
}

/// Everything that one notification leads to: the window it is about, the code
/// with which watching its destruction ends, if that is asked for, and whether
/// it then is the main window, if that is asked for.
pub ghost struct Occasion<T> {
    pub window: T,
    pub notification: Seq<char>,
    pub code: i32,
    pub main: bool,
}

/// The entries after an occasion, and whether it adjusts the window.
pub open spec fn followed<T: PartialEq>(
    entries: Seq<(T, bool)>,
    occasion: Occasion<T>,
) -> (Seq<(T, bool)>, bool) {
    let (first, request) = notified(entries, occasion.window, occasion.notification);
    let (second, more) = if request == Request::WatchDestruction {
        watched(first, occasion.window, occasion.code)
    } else {
        (first, request)
    };
    let (third, last) = if more == Request::ReadMainState {
        main_state(second, occasion.window, occasion.main)
    } else {
        (second, more)
    };
    (third, last == Request::Adjust)
}

/// How often a window, or one that cannot be told apart from it, is adjusted on
/// these occasions.
pub open spec fn adjustments<T: PartialEq>(
    entries: Seq<(T, bool)>,
    occasions: Seq<Occasion<T>>,
    window: T,
) -> nat
    decreases occasions.len(),
{
    if occasions.len() == 0 {
        0
    } else {
        let (next, adjusts) = followed(entries, occasions[0]);
        let first: nat = if adjusts && alike(occasions[0].window, window) {
            1
        } else {
            0
        };
        first + adjustments(next, occasions.drop_first(), window)
    }
}

/// The entries after these occasions.
pub open spec fn followed_all<T: PartialEq>(
    entries: Seq<(T, bool)>,
    occasions: Seq<Occasion<T>>,
) -> Seq<(T, bool)>
    decreases occasions.len(),
{
    if occasions.len() == 0 {
        entries
    } else {
        followed_all(followed(entries, occasions[0]).0, occasions.drop_first())
    }
}

/// What an occasion does to the entries is a series of creations, claims and
/// removals of its window.
spec fn changes<T: PartialEq>(entries: Seq<(T, bool)>, occasion: Occasion<T>) -> Seq<Change<T>> {
    let window = occasion.window;
    let more = entries.push((window, false));
    if occasion.notification == WINDOW_DESTROYED@ {
        seq![Change::Forget(window)]
    } else if occasion.notification == WINDOW_CREATED@ {
        if known(entries, window) || watched(entries, window, occasion.code).0 == entries {
            seq![]
        } else if known(more, window) && occasion.main {
            seq![Change::Create(window), Change::Claim(window)]
        } else {
            seq![Change::Create(window)]
        }
    } else if occasion.notification == MAIN_WINDOW_CHANGED@ && known(entries, window)
        && occasion.main {
        seq![Change::Claim(window)]
    } else {
        seq![]
    }
}

proof fn lemma_changes<T: PartialEq>(entries: Seq<(T, bool)>, occasion: Occasion<T>)
    ensures
        followed(entries, occasion).0 == after_all(entries, changes(entries, occasion)),
{
    reveal_with_fuel(after_all, 3);
    let window = occasion.window;
    let more = entries.push((window, false));
    assert(more.len() == entries.len() + 1);
    let list = changes(entries, occasion);
    if list.len() == 1 {
        assert(list.drop_last() =~= seq![]);
    } else if list.len() == 2 {
        assert(list.drop_last() =~= seq![Change::Create(window)]);
        assert(list.drop_last().drop_last() =~= seq![]);
    }
}

/// A handled window stays handled as long as it is not destroyed, and is not
/// adjusted.
proof fn lemma_handled_window<T: PartialEq>(
    entries: Seq<(T, bool)>,
    occasion: Occasion<T>,
    window: T,
)
    requires
        handled(entries, window),
        occasion.notification == WINDOW_DESTROYED@ ==> unlike(window, occasion.window),
    ensures
        handled(followed(entries, occasion).0, window),
        followed(entries, occasion).1 ==> !alike(occasion.window, window),
{
    if alike(occasion.window, window) {
        lemma_alike(entries, occasion.window, window);
    }
    lemma_changes(entries, occasion);
    law_a_handled_window_is_left_alone(entries, window, changes(entries, occasion));
}

proof fn lemma_adjusted_window_is_handled<T: PartialEq>(
    entries: Seq<(T, bool)>,
    occasion: Occasion<T>,
)
    requires
        followed(entries, occasion).1,
    ensures
        handled(followed(entries, occasion).0, occasion.window),
{
    let window = occasion.window;
    let (first, request) = notified(entries, window, occasion.notification);
    let second = if request == Request::WatchDestruction {
        watched(first, window, occasion.code).0
    } else {
        first
    };
    law_a_window_is_claimed_once(second, window);
    law_claiming_keeps_the_windows(second, window, window);
    assert(known(second, window));
}

proof fn lemma_no_adjustments<T: PartialEq>(
    entries: Seq<(T, bool)>,
    occasions: Seq<Occasion<T>>,
    window: T,
)
    requires
        handled(entries, window),
        forall|i: int|
            0 <= i < occasions.len() ==> ((#[trigger] occasions[i]).notification
                == WINDOW_DESTROYED@ ==> unlike(window, occasions[i].window)),
    ensures
        adjustments(entries, occasions, window) == 0,
    decreases occasions.len(),
{
    if occasions.len() > 0 {
        let rest = occasions.drop_first();
        lemma_handled_window(entries, occasions[0], window);
        assert forall|i: int|
            0 <= i < rest.len() && (#[trigger] rest[i]).notification
                == WINDOW_DESTROYED@ implies unlike(window, rest[i].window) by {
            assert(rest[i] == occasions[i + 1]);
        }
        lemma_no_adjustments(followed(entries, occasions[0]).0, rest, window);
    }
}

/// Whatever is reported, a window is adjusted at most once before it is
/// destroyed.
pub proof fn law_a_window_is_adjusted_once<T: PartialEq>(
    entries: Seq<(T, bool)>,
    occasions: Seq<Occasion<T>>,
    window: T,
)
    requires
        forall|i: int|
            0 <= i < occasions.len() ==> ((#[trigger] occasions[i]).notification
                == WINDOW_DESTROYED@ ==> unlike(window, occasions[i].window)),
    ensures
        adjustments(entries, occasions, window) <= 1,
    decreases occasions.len(),
{
    if occasions.len() > 0 {
        let rest = occasions.drop_first();
        let (next, adjusts) = followed(entries, occasions[0]);
        assert forall|i: int|
            0 <= i < rest.len() && (#[trigger] rest[i]).notification
                == WINDOW_DESTROYED@ implies unlike(window, rest[i].window) by {
            assert(rest[i] == occasions[i + 1]);
        }
        if adjusts && alike(occasions[0].window, window) {
            lemma_adjusted_window_is_handled(entries, occasions[0]);
            lemma_alike(next, occasions[0].window, window);
            lemma_no_adjustments(next, rest, window);
        } else {
            law_a_window_is_adjusted_once(next, rest, window);
        }
    }
}

/// Only a main window is adjusted, and only when it is created or becomes the
/// main window.
pub proof fn law_adjusted_windows_are_main<T: PartialEq>(
    entries: Seq<(T, bool)>,
    occasion: Occasion<T>,
)
    requires
        followed(entries, occasion).1,
    ensures
        occasion.main,
        occasion.notification == WINDOW_CREATED@ || occasion.notification == MAIN_WINDOW_CHANGED@,
{
}

/// A window that was open before listening began is never adjusted: a change of
/// the main window adjusts only windows whose creation was reported.
pub proof fn law_windows_open_before_are_left_alone<T: PartialEq>(
    occasions: Seq<Occasion<T>>,
    occasion: Occasion<T>,
)
    requires
        occasion.notification == MAIN_WINDOW_CHANGED@,
        followed(followed_all(seq![], occasions), occasion).1,
    ensures
        exists|i: int|
            0 <= i < occasions.len() && (#[trigger] occasions[i]).notification == WINDOW_CREATED@
                && occasions[i].window.eq_spec(&occasion.window),
{
    reveal_strlit("AXWindowCreated");
    reveal_strlit("AXMainWindowChanged");
    assert(MAIN_WINDOW_CHANGED@.len() != WINDOW_CREATED@.len());
    lemma_known_windows_were_created(seq![], occasions, occasion.window);
}

proof fn lemma_known_windows_were_created<T: PartialEq>(
    entries: Seq<(T, bool)>,
    occasions: Seq<Occasion<T>>,
    window: T,
)
    requires
        known(followed_all(entries, occasions), window),
        !known(entries, window),
    ensures
        exists|i: int|
            0 <= i < occasions.len() && (#[trigger] occasions[i]).notification == WINDOW_CREATED@
                && occasions[i].window.eq_spec(&window),
    decreases occasions.len(),
{
    if occasions.len() > 0 {
        let rest = occasions.drop_first();
        let next = followed(entries, occasions[0]).0;
        if known(next, window) {
            lemma_changes(entries, occasions[0]);
            lemma_newly_known(entries, changes(entries, occasions[0]), window);
            assert(occasions[0].window.eq_spec(&window));
        } else {
            lemma_known_windows_were_created(next, rest, window);
            let i = choose|i: int|
                0 <= i < rest.len() && (#[trigger] rest[i]).notification == WINDOW_CREATED@
                    && rest[i].window.eq_spec(&window);
            assert(occasions[i + 1] == rest[i]);
        }
    }
}

/// No entry stands for the window of a later one.
pub open spec fn no_window_twice<T: PartialEq>(entries: Seq<(T, bool)>) -> bool {
    forall|i: int, j: int|
        #![trigger entries[i], entries[j]]
        0 <= i < j < entries.len() ==> !stands_for(entries[i], entries[j].0)
}

proof fn lemma_forgotten_keeps_apart<T: PartialEq>(entries: Seq<(T, bool)>, gone: T)
    requires
        no_window_twice(entries),
    ensures
        no_window_twice(forgotten(entries, gone)),
    decreases entries.len(),
{
    if entries.len() > 0 {
        let rest = entries.drop_first();
        let less = forgotten(rest, gone);
        let all = forgotten(entries, gone);
        assert forall|i: int, j: int|
            #![trigger rest[i], rest[j]]
            0 <= i < j < rest.len() implies !stands_for(rest[i], rest[j].0) by {
            assert(!stands_for(entries[i + 1], entries[j + 1].0));
        }
        lemma_forgotten_keeps_apart(rest, gone);
        lemma_forgotten(rest, gone);
        if !stands_for(entries[0], gone) {
            assert forall|i: int, j: int|
                #![trigger all[i], all[j]]
                0 <= i < j < all.len() implies !stands_for(all[i], all[j].0) by {
                assert(all[j] == less[j - 1]);
                if i > 0 {
                    assert(all[i] == less[i - 1]);
                } else {
                    assert(rest.contains(less[j - 1]));
                    let k = choose|k: int| 0 <= k < rest.len() && rest[k] == less[j - 1];
                    assert(entries[k + 1] == all[j]);
                    assert(all[0] == entries[0]);
                }
            }
        }
    }
}

/// No window ever gets a second entry.
pub proof fn law_no_window_twice<T: PartialEq>(
    entries: Seq<(T, bool)>,
    occasions: Seq<Occasion<T>>,
)
    requires
        no_window_twice(entries),
    ensures
        no_window_twice(followed_all(entries, occasions)),
    decreases occasions.len(),
{
    if occasions.len() > 0 {
        let occasion = occasions[0];
        let window = occasion.window;
        let next = followed(entries, occasion).0;
        let more = entries.push((window, false));
        lemma_forgotten_keeps_apart(entries, window);
        lemma_claimed_keeps_apart(entries, window);
        if !known(entries, window) {
            assert forall|i: int, j: int|
                #![trigger more[i], more[j]]
                0 <= i < j < more.len() implies !stands_for(more[i], more[j].0) by {
                assert(more[i] == entries[i]);
                if j < entries.len() {
                    assert(more[j] == entries[j]);
                }
            }
            lemma_claimed_keeps_apart(more, window);
        }
        law_no_window_twice(next, occasions.drop_first());
    }
}

proof fn lemma_claimed_keeps_apart<T: PartialEq>(entries: Seq<(T, bool)>, window: T)
    requires
        no_window_twice(entries),
    ensures
        no_window_twice(claimed(entries, window)),
{
    let next = claimed(entries, window);
    lemma_first_entry(entries, window);
    assert forall|i: int, j: int|
        #![trigger next[i], next[j]]
        0 <= i < j < next.len() implies !stands_for(next[i], next[j].0) by {
        assert(!stands_for(entries[i], entries[j].0));
    }
}

proof fn lemma_notifications()
    ensures
        "AXWindowCreated"@ != "AXMainWindowChanged"@,
        "AXWindowCreated"@ != "AXUIElementDestroyed"@,
        "AXMainWindowChanged"@ != "AXUIElementDestroyed"@,
{
    reveal_strlit("AXWindowCreated");
    reveal_strlit("AXMainWindowChanged");
    reveal_strlit("AXUIElementDestroyed");
    assert("AXWindowCreated"@.len() == 15);
    assert("AXMainWindowChanged"@.len() == 19);
    assert("AXUIElementDestroyed"@.len() == 20);
}

/// A window that is reported to be destroyed is forgotten.
pub proof fn law_a_destroyed_window_is_forgotten<T: PartialEq>(
    entries: Seq<(T, bool)>,
    window: T,
)
    ensures
        notified(entries, window, "AXUIElementDestroyed"@) == (
            entries.filter(|entry: (T, bool)| !entry.0.eq_spec(&window)),
            Request::Nothing,
        ),
{
    lemma_notifications();
    law_what_is_forgotten(entries, window);
}

/// The destruction of each new window is watched, and that of a known one not
/// again, whatever other windows there are. The report alone changes nothing.
pub proof fn law_a_new_window_is_watched<T: PartialEq>(entries: Seq<(T, bool)>, window: T)
    ensures
        ({
            let is_known = exists|i: int|
                0 <= i < entries.len() && (#[trigger] entries[i]).0.eq_spec(&window);
            &&& is_known ==> notified(entries, window, "AXWindowCreated"@) == (
                entries,
                Request::Nothing,
            )
            &&& !is_known ==> notified(entries, window, "AXWindowCreated"@) == (
                entries,
                Request::WatchDestruction,
            )
        }),
{
    lemma_notifications();
    law_known_windows(entries, window);
}

/// A window that becomes the main window is looked at exactly if it is known. The
/// report alone changes nothing.
pub proof fn law_a_known_window_is_looked_at<T: PartialEq>(entries: Seq<(T, bool)>, window: T)
    ensures
        ({
            let is_known = exists|i: int|
                0 <= i < entries.len() && (#[trigger] entries[i]).0.eq_spec(&window);
            &&& is_known ==> notified(entries, window, "AXMainWindowChanged"@) == (
                entries,
                Request::ReadMainState,
            )
            &&& !is_known ==> notified(entries, window, "AXMainWindowChanged"@) == (
                entries,
                Request::Nothing,
            )
        }),
{
    lemma_notifications();
    law_known_windows(entries, window);
}

/// Other notifications are ignored.
pub proof fn law_other_notifications_are_ignored<T: PartialEq>(
    entries: Seq<(T, bool)>,
    window: T,
    notification: Seq<char>,
)
    requires
        notification != "AXWindowCreated"@,
        notification != "AXMainWindowChanged"@,
        notification != "AXUIElementDestroyed"@,
    ensures
        notified(entries, window, notification) == (entries, Request::Nothing),
{
}

/// A window whose destruction is watched, from now on or already, is kept as not
/// handled, behind the others, and looked at. One whose destruction cannot be
/// watched is left out, and the user told why.
pub proof fn law_a_watched_window_is_kept<T: PartialEq>(
    entries: Seq<(T, bool)>,
    window: T,
    code: i32,
)
    requires
        window.eq_spec(&window),
    ensures
        code == 0 || code == -25209 ==> watched(entries, window, code) == (
            entries.push((window, false)),
            Request::ReadMainState,
        ),
        code != 0 && code != -25209 ==> watched(entries, window, code) == (
            entries,
            Request::ReportUnwatched(code),
        ),
{
    let more = entries.push((window, false));
    assert(stands_for(more[entries.len() as int], window));
}

/// A window that is kept as not handled and is read to be the main window is
/// adjusted, whatever other windows there are, and kept as handled; that changes no
/// other entry. One that was handled is left alone, and so is one that is not the
/// main window: nothing changes.
pub proof fn law_a_main_window_is_adjusted<T: PartialEq>(
    entries: Seq<(T, bool)>,
    window: T,
    i: int,
)
    requires
        found_at(entries, window, i),
    ensures
        !entries[i].1 ==> main_state(entries, window, true) == (
            entries.update(i, (entries[i].0, true)),
            Request::Adjust,
        ),
        entries[i].1 ==> main_state(entries, window, true) == (entries, Request::Nothing),
        main_state(entries, window, false) == (entries, Request::Nothing),
{
    law_claims(entries, window, i);
    assert(claimed(entries, window) =~= entries.update(i, (entries[i].0, true)));
    if entries[i].1 {
        assert(claimed(entries, window) =~= entries);
    }
}

/// A window that is not known is not adjusted, and stays unknown.
pub proof fn law_an_unknown_window_is_not_adjusted<T: PartialEq>(
    entries: Seq<(T, bool)>,
    window: T,
    main: bool,
)
    requires
        forall|i: int| 0 <= i < entries.len() ==> !(#[trigger] entries[i]).0.eq_spec(&window),
    ensures
        main_state(entries, window, main) == (entries, Request::Nothing),
{
    law_unknown_windows_cannot_be_claimed(entries, window);
}

/// A new window that can be watched is adjusted at once if it is the main window,
/// whatever other windows there are, and kept for later if it is not.
pub proof fn law_a_new_main_window_is_adjusted_at_once<T: PartialEq>(
    entries: Seq<(T, bool)>,
    occasion: Occasion<T>,
)
    requires
        occasion.notification == "AXWindowCreated"@,
        occasion.code == 0 || occasion.code == -25209,
        occasion.window.eq_spec(&occasion.window),
        !known(entries, occasion.window),
    ensures
        followed(entries, occasion) == (
            entries.push((occasion.window, occasion.main)),
            occasion.main,
        ),
{
    lemma_notifications();
    law_a_watched_window_is_kept(entries, occasion.window, occasion.code);
    law_a_created_window_can_be_claimed(entries, occasion.window);
}

/// A window that was kept for later is adjusted once it becomes the main window,
/// whatever other windows there are.
pub proof fn law_a_kept_window_is_adjusted_later<T: PartialEq>(
    entries: Seq<(T, bool)>,
    occasion: Occasion<T>,
)
    requires
        occasion.notification == "AXMainWindowChanged"@,
        occasion.main,
        claimable(entries, occasion.window),
    ensures
        followed(entries, occasion).1,
{
    lemma_notifications();
    lemma_first_entry(entries, occasion.window);
    assert(known(entries, occasion.window));
}

/// A window that is kept for later stays so until it is looked at and is the main
/// window, or is destroyed.
proof fn lemma_kept_window<T: PartialEq>(
    entries: Seq<(T, bool)>,
    occasion: Occasion<T>,
    window: T,
)
    requires
        claimable(entries, window),
        alike(occasion.window, window) || unlike(window, occasion.window),
        alike(occasion.window, window) ==> occasion.notification != "AXUIElementDestroyed"@,
        !(followed(entries, occasion).1 && alike(occasion.window, window)),
    ensures
        claimable(followed(entries, occasion).0, window),
{
    lemma_notifications();
    let other = occasion.window;
    let more = entries.push((other, false));
    lemma_first_entry(entries, window);
    assert(known(entries, window));
    if alike(other, window) {
        lemma_alike_claims(entries, other, window);
    } else {
        law_forgetting_spares_other_windows(entries, other, window);
        law_claims_do_not_interfere(entries, other, window);
        lemma_unlike_is_mutual(window, other);
        law_claims_do_not_interfere(more, other, window);
        lemma_claimable_before(entries, (other, false), window);
    }
}

proof fn lemma_unlike_is_mutual<T: PartialEq>(a: T, b: T)
    requires
        unlike(a, b),
    ensures
        unlike(b, a),
{
    assert forall|entry: (T, bool)| !(#[trigger] stands_for(entry, b) && stands_for(entry, a)) by {
        assert(!(stands_for(entry, a) && stands_for(entry, b)));
    }
}

proof fn lemma_claimable_before<T: PartialEq>(
    entries: Seq<(T, bool)>,
    entry: (T, bool),
    window: T,
)
    requires
        claimable(entries, window),
    ensures
        claimable(entries.push(entry), window),
{
    let more = entries.push(entry);
    lemma_first_entry(entries, window);
    let i = first_entry(entries, window);
    assert forall|j: int| 0 <= j < i implies !(#[trigger] more[j]).0.eq_spec(&window) by {
        assert(!stands_for(entries[j], window));
    }
    assert(stands_for(entries[i], window));
    assert(found_at(more, window, i));
    law_claims(more, window, i);
}

proof fn lemma_kept_window_is_adjusted<T: PartialEq>(
    entries: Seq<(T, bool)>,
    occasions: Seq<Occasion<T>>,
    window: T,
    k: int,
)
    requires
        claimable(entries, window),
        forall|i: int|
            0 <= i < occasions.len() ==> alike((#[trigger] occasions[i]).window, window) || unlike(
                window,
                occasions[i].window,
            ),
        forall|i: int|
            0 <= i < occasions.len() && alike((#[trigger] occasions[i]).window, window)
                ==> occasions[i].notification != "AXUIElementDestroyed"@,
        0 <= k < occasions.len(),
        alike(occasions[k].window, window),
        occasions[k].notification == "AXMainWindowChanged"@,
        occasions[k].main,
    ensures
        adjustments(entries, occasions, window) >= 1,
    decreases occasions.len(),
{
    let first = occasions[0];
    let rest = occasions.drop_first();
    if !(followed(entries, first).1 && alike(first.window, window)) {
        lemma_kept_window(entries, first, window);
        if k == 0 {
            lemma_alike_claims(entries, first.window, window);
            law_a_kept_window_is_adjusted_later(entries, first);
        } else {
            assert forall|i: int| 0 <= i < rest.len() implies alike(
                (#[trigger] rest[i]).window,
                window,
            ) || unlike(window, rest[i].window) by {
                assert(rest[i] == occasions[i + 1]);
            }
            assert forall|i: int|
                0 <= i < rest.len() && alike(
                    (#[trigger] rest[i]).window,
                    window,
                ) implies rest[i].notification != "AXUIElementDestroyed"@ by {
                assert(rest[i] == occasions[i + 1]);
            }
            assert(rest[k - 1] == occasions[k]);
            lemma_kept_window_is_adjusted(followed(entries, first).0, rest, window, k - 1);
        }
    }
}

/// A window that is created while listening, can be watched, and is the main window
/// then or becomes it before it is destroyed, is adjusted exactly once, whatever
/// else happens.
pub proof fn law_a_new_main_window_is_adjusted_exactly_once<T: PartialEq>(
    entries: Seq<(T, bool)>,
    occasions: Seq<Occasion<T>>,
    window: T,
    k: int,
)
    requires
        window.eq_spec(&window),
        !known(entries, window),
        forall|i: int|
            0 <= i < occasions.len() ==> alike((#[trigger] occasions[i]).window, window) || unlike(
                window,
                occasions[i].window,
            ),
        forall|i: int|
            0 <= i < occasions.len() && alike((#[trigger] occasions[i]).window, window)
                ==> occasions[i].notification != "AXUIElementDestroyed"@,
        0 <= k < occasions.len(),
        occasions[0].window == window,
        occasions[0].notification == "AXWindowCreated"@,
        occasions[0].code == 0 || occasions[0].code == -25209,
        alike(occasions[k].window, window),
        k > 0 ==> occasions[k].notification == "AXMainWindowChanged"@,
        occasions[k].main,
    ensures
        adjustments(entries, occasions, window) == 1,
{
    let first = occasions[0];
    let rest = occasions.drop_first();
    assert forall|i: int|
        0 <= i < occasions.len() && (#[trigger] occasions[i]).notification
            == WINDOW_DESTROYED@ implies unlike(window, occasions[i].window) by {
        assert(alike(occasions[i].window, window) || unlike(window, occasions[i].window));
    }
    law_a_window_is_adjusted_once(entries, occasions, window);
    law_a_new_main_window_is_adjusted_at_once(entries, first);
    if !first.main {
        law_a_created_window_can_be_claimed(entries, window);
        assert forall|i: int| 0 <= i < rest.len() implies alike(
            (#[trigger] rest[i]).window,
            window,
        ) || unlike(window, rest[i].window) by {
            assert(rest[i] == occasions[i + 1]);
        }
        assert forall|i: int|
            0 <= i < rest.len() && alike(
                (#[trigger] rest[i]).window,
                window,
            ) implies rest[i].notification != "AXUIElementDestroyed"@ by {
            assert(rest[i] == occasions[i + 1]);
        }
        assert(rest[k - 1] == occasions[k]);
        lemma_kept_window_is_adjusted(followed(entries, first).0, rest, window, k - 1);
    }
}

/// Only the destruction of windows is asked for by a request.
pub proof fn law_what_requests_ask_for(request: Request)
    ensures
        request == Request::WatchDestruction ==> request.asks_for() == Some(
            "AXUIElementDestroyed"@,
        ),
        request != Request::WatchDestruction ==> request.asks_for() is None,
{
}

/// Listening begins with no windows, keeps its rule, and changes its windows as the
/// laws on notifications, watching and the main state say.
pub proof fn law_functions_on_contexts<T: PartialEq>(
    rule: Rule,
    start: WindowContext<T>,
    a: &mut WindowContext<T>,
    b: &mut WindowContext<T>,
    c: &mut WindowContext<T>,
    window: T,
    notification: &str,
    code: i32,
    readings: &Readings,
    first: Request,
    second: Request,
    third: Request,
)
    requires
        T::obeys_eq_spec(),
        call_ensures(WindowContext::<T>::new, (rule,), start),
        call_ensures(WindowContext::<T>::handle, (a, &window, notification), first),
        call_ensures(WindowContext::<T>::destruction_watched, (b, window, code), second),
        call_ensures(WindowContext::<T>::main_state_read, (c, &window, readings), third),
    ensures
        start.rule == rule,
        start.windows.entries@.len() == 0,
        final(a).rule == old(a).rule,
        final(b).rule == old(b).rule,
        final(c).rule == old(c).rule,
        (final(a).windows.entries@, first) == notified(
            old(a).windows.entries@,
            window,
            notification@,
        ),
        (final(b).windows.entries@, second) == watched(old(b).windows.entries@, window, code),
        (final(c).windows.entries@, third) == main_state(
            old(c).windows.entries@,
            window,
            readings.main == Some(true) && readings.subrole is Some && readings.subrole->Some_0@
                == "AXStandardWindow"@,
        ),
{
}

} // verus!
