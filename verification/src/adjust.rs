//! Adjusting one window.
//!
//! An adjustment tells, one after the other, what has to be done with the
//! window, and is told what came of it. It sets the size up to three times,
//! because applications may restore their own size while a window opens, and
//! puts the window where the rule wants it after each time.
use vstd::prelude::*;

use crate::attributes::POSITION;
use crate::attributes::SIZE;
use crate::attributes::SUCCESS;
use crate::config::Rule;
use crate::number::are_equal;
use crate::number::equal;

verus! {

/// How often the size is set.
pub const ATTEMPTS: u8 = 3;

/// How long to wait before each attempt but the first, in milliseconds.
pub const RETRY_DELAY: u64 = 100;

/// A position on the screen; its coordinates are IEEE 754 binary64 bit patterns.
#[derive(Clone, Copy, Debug, PartialEq, Eq, Structural)]
pub struct Point {
    pub x: u64,
    pub y: u64,
}

/// How far an adjustment has come.
#[derive(Clone, Copy, Debug, PartialEq, Eq, Structural)]
pub enum Stage {
    Begin,
    Locate,
    Prepare,
    Attempt,
    Resize,
    Compare,
    Move,
    Done,
}

/// What has to be done next.
#[derive(Clone, Copy, Debug, PartialEq, Eq, Structural)]
pub enum Action {
    /// Wait for so many milliseconds, and read whether the window may be adjusted.
    ReadStatus(u64),
    /// Read the position of the window.
    ReadPosition,
    /// Wrap a width and a height for the accessibility interface.
    PrepareSize(u64, u64),
    /// Set the size of the window to the one prepared.
    SetSize,
    /// Set the position of the window.
    SetPosition(Point),
    /// Nothing more.
    Finish,
}

impl Action {
    /// The attribute that the action reads or sets, where that is one alone.
    pub open spec fn names(self) -> Option<Seq<char>> {
        match self {
            Action::ReadPosition | Action::SetPosition(_) => Some(POSITION@),
            Action::SetSize => Some(SIZE@),
            Action::ReadStatus(_) | Action::PrepareSize(_, _) | Action::Finish => None,
        }
    }

    /// Tells which attribute the action reads or sets, where that is one alone.
    pub fn attribute(self) -> (r: Option<&'static str>)
        ensures
            match r {
                Some(attribute) => self.names() == Some(attribute@),
                None => self.names() is None,
            },
    {
        match self {
            Action::ReadPosition | Action::SetPosition(_) => Some(POSITION),
            Action::SetSize => Some(SIZE),
            Action::ReadStatus(_) | Action::PrepareSize(_, _) | Action::Finish => None,
        }
    }
}

/// What came of an action.
#[derive(Clone, Copy, Debug, PartialEq, Eq, Structural)]
pub enum Event {
    /// Whether the window may be adjusted.
    Status(bool),
    /// The position of the window, if it could be read.
    Position(Option<Point>),
    /// Whether the size could be wrapped.
    SizePrepared(bool),
    /// The code of setting the size.
    SizeSet(i32),
    /// The code of setting the position, if the position could be wrapped.
    PositionSet(Option<i32>),
}

/// What there is to tell the user.
#[derive(Clone, Copy, Debug, PartialEq, Eq, Structural)]
pub enum Report {
    Nothing,
    /// The size could not be set, for this code.
    ResizeFailed(i32),
    /// The size was set.
    Applied,
    /// The position could not be set, for this code, but the size was.
    AppliedUnmoved(i32),
}

/// An adjustment in progress.
#[derive(Clone, Copy, Debug, PartialEq, Eq, Structural)]
pub struct Adjustment {
    pub width: u64,
    pub height: u64,
    pub x: Option<u64>,
    pub y: Option<u64>,
    pub stage: Stage,
    /// The attempts made before the current one.
    pub attempt: u8,
    /// Where the window stood before it was first resized: some applications
    /// move a window during a resize.
    pub origin: Option<Point>,
}

impl Adjustment {
    /// The start of an adjustment by the rule.
    pub open spec fn starts(self, rule: Rule) -> bool {
        &&& self.width == rule.width
        &&& self.height == rule.height
        &&& self.x == rule.x
        &&& self.y == rule.y
        &&& self.stage == Stage::Begin
        &&& self.attempt == 0
        &&& self.origin is None
    }

    /// Every adjustment satisfies this.
    pub open spec fn valid(self) -> bool {
        &&& self.attempt < ATTEMPTS
        &&& self.stage == Stage::Compare || self.stage == Stage::Move ==> self.origin is Some
        &&& self.stage == Stage::Begin || self.stage == Stage::Locate || self.stage
            == Stage::Prepare ==> self.attempt == 0
    }

    /// Where a window that stood at `origin` belongs: at the coordinates of the
    /// rule, as far as it has any.
    pub open spec fn target(self, origin: Point) -> Point {
        Point {
            x: match self.x {
                Some(x) => x,
                None => origin.x,
            },
            y: match self.y {
                Some(y) => y,
                None => origin.y,
            },
        }
    }

    /// The window stands where it belongs.
    pub open spec fn in_place(self, origin: Point, position: Option<Point>) -> bool {
        position matches Some(position) && equal(position.x, self.target(origin).x) && equal(
            position.y,
            self.target(origin).y,
        )
    }

    /// What has to be done next.
    pub open spec fn pending(self) -> Action {
        match self.stage {
            Stage::Begin => Action::ReadStatus(0),
            Stage::Locate => Action::ReadPosition,
            Stage::Prepare => Action::PrepareSize(self.width, self.height),
            Stage::Attempt => Action::ReadStatus(
                if self.attempt > 0 {
                    RETRY_DELAY
                } else {
                    0
                },
            ),
            Stage::Resize => Action::SetSize,
            Stage::Compare => Action::ReadPosition,
            Stage::Move => Action::SetPosition(self.target(self.origin->Some_0)),
            Stage::Done => Action::Finish,
        }
    }

    /// The adjustment at another stage.
    pub open spec fn at(self, stage: Stage) -> Adjustment {
        Adjustment { stage, ..self }
    }

    /// The adjustment after an attempt: another attempt follows, or none.
    pub open spec fn tried(self) -> Adjustment {
        if self.attempt + 1 < ATTEMPTS {
            Adjustment { stage: Stage::Attempt, attempt: (self.attempt + 1) as u8, ..self }
        } else {
            self.at(Stage::Done)
        }
    }

    /// The adjustment after an event, and what there is to report. An event that
    /// does not answer the pending action ends the adjustment.
    pub open spec fn next(self, event: Event) -> (Adjustment, Report) {
        match (self.stage, event) {
            (Stage::Begin, Event::Status(true)) => (self.at(Stage::Locate), Report::Nothing),
            (Stage::Locate, Event::Position(position)) => (
                Adjustment { origin: position, stage: Stage::Prepare, ..self },
                Report::Nothing,
            ),
            (Stage::Prepare, Event::SizePrepared(true)) => (
                self.at(Stage::Attempt),
                Report::Nothing,
            ),
            (Stage::Attempt, Event::Status(true)) => (self.at(Stage::Resize), Report::Nothing),
            (Stage::Resize, Event::SizeSet(code)) => if code != SUCCESS {
                (self.tried(), Report::ResizeFailed(code))
            } else if self.origin is Some {
                (self.at(Stage::Compare), Report::Nothing)
            } else {
                (self.tried(), Report::Applied)
            },
            (Stage::Compare, Event::Position(position)) => if self.in_place(
                self.origin->Some_0,
                position,
            ) {
                (self.tried(), Report::Applied)
            } else {
                (self.at(Stage::Move), Report::Nothing)
            },
            (Stage::Move, Event::PositionSet(outcome)) => (
                self.tried(),
                match outcome {
                    Some(code) => if code != SUCCESS {
                        Report::AppliedUnmoved(code)
                    } else {
                        Report::Applied
                    },
                    None => Report::Applied,
                },
            ),
            _ => (self.at(Stage::Done), Report::Nothing),
        }
    }

    /// Starts an adjustment.
    pub fn new(rule: &Rule) -> (r: Self)
        ensures
            r.starts(*rule),
            r.valid(),
    {
        Adjustment {
            width: rule.width,
            height: rule.height,
            x: rule.x,
            y: rule.y,
            stage: Stage::Begin,
            attempt: 0,
            origin: None,
        }
    }

    fn destination(&self, origin: Point) -> (r: Point)
        ensures
            r == self.target(origin),
    {
        let x = match self.x {
            Some(x) => x,
            None => origin.x,
        };
        let y = match self.y {
            Some(y) => y,
            None => origin.y,
        };
        Point { x, y }
    }

    /// Tells what has to be done next.
    pub fn action(&self) -> (r: Action)
        requires
            self.valid(),
        ensures
            r == self.pending(),
    {
        match self.stage {
            Stage::Begin => Action::ReadStatus(0),
            Stage::Locate => Action::ReadPosition,
            Stage::Prepare => Action::PrepareSize(self.width, self.height),
            Stage::Attempt => if self.attempt > 0 {
                Action::ReadStatus(RETRY_DELAY)
            } else {
                Action::ReadStatus(0)
            },
            Stage::Resize => Action::SetSize,
            Stage::Compare => Action::ReadPosition,
            Stage::Move => match self.origin {
                Some(origin) => Action::SetPosition(self.destination(origin)),
                None => Action::Finish,
            },
            Stage::Done => Action::Finish,
        }
    }

    fn finish_attempt(&mut self)
        requires
            old(self).attempt < ATTEMPTS,
        ensures
            *final(self) == old(self).tried(),
    {
        if self.attempt + 1 < ATTEMPTS {
            self.attempt = self.attempt + 1;
            self.stage = Stage::Attempt;
        } else {
            self.stage = Stage::Done;
        }
    }

    fn is_in_place(&self, origin: Point, position: Option<Point>) -> (r: bool)
        ensures
            r == self.in_place(origin, position),
    {
        let target = self.destination(origin);
        match position {
            Some(position) => are_equal(position.x, target.x) && are_equal(position.y, target.y),
            None => false,
        }
    }

    /// Takes note of what came of the pending action.
    pub fn advance(&mut self, event: Event) -> (r: Report)
        requires
            old(self).valid(),
        ensures
            (*final(self), r) == old(self).next(event),
            final(self).valid(),
    {
        match (self.stage, event) {
            (Stage::Begin, Event::Status(true)) => {
                self.stage = Stage::Locate;
                Report::Nothing
            },
            (Stage::Locate, Event::Position(position)) => {
                self.origin = position;
                self.stage = Stage::Prepare;
                Report::Nothing
            },
            (Stage::Prepare, Event::SizePrepared(true)) => {
                self.stage = Stage::Attempt;
                Report::Nothing
            },
            (Stage::Attempt, Event::Status(true)) => {
                self.stage = Stage::Resize;
                Report::Nothing
            },
            (Stage::Resize, Event::SizeSet(code)) => {
                if code != SUCCESS {
                    self.finish_attempt();
                    Report::ResizeFailed(code)
                } else if self.origin.is_some() {
                    self.stage = Stage::Compare;
                    Report::Nothing
                } else {
                    self.finish_attempt();
                    Report::Applied
                }
            },
            (Stage::Compare, Event::Position(position)) => {
                let in_place = match self.origin {
                    Some(origin) => self.is_in_place(origin, position),
                    None => true,
                };
                if in_place {
                    self.finish_attempt();
                    Report::Applied
                } else {
                    self.stage = Stage::Move;
                    Report::Nothing
                }
            },
            (Stage::Move, Event::PositionSet(outcome)) => {
                self.finish_attempt();
                match outcome {
                    Some(code) => if code != SUCCESS {
                        Report::AppliedUnmoved(code)
                    } else {
                        Report::Applied
                    },
                    None => Report::Applied,
                }
            },
            _ => {
                self.stage = Stage::Done;
                Report::Nothing
            },
        }
    }
}

impl Adjustment {
    /// The adjustment after several events.
    pub open spec fn after(self, events: Seq<Event>) -> Adjustment
        decreases events.len(),
    {
        if events.len() == 0 {
            self
        } else {
            self.next(events[0]).0.after(events.drop_first())
        }
    }

    /// How often the size is set while these events come in.
    pub open spec fn resizes(self, events: Seq<Event>) -> nat
        decreases events.len(),
    {
        if events.len() == 0 {
            0
        } else {
            let first: nat = if self.pending() == Action::SetSize {
                1
            } else {
                0
            };
            first + self.next(events[0]).0.resizes(events.drop_first())
        }
    }

    /// The event answers the pending action, and does not stop the adjustment: the
    /// window may be adjusted, and the size could be wrapped.
    pub open spec fn goes_on(self, event: Event) -> bool {
        match (self.pending(), event) {
            (Action::ReadStatus(_), Event::Status(good)) => good,
            (Action::ReadPosition, Event::Position(_)) => true,
            (Action::PrepareSize(_, _), Event::SizePrepared(prepared)) => prepared,
            (Action::SetSize, Event::SizeSet(_)) => true,
            (Action::SetPosition(_), Event::PositionSet(_)) => true,
            _ => false,
        }
    }

    /// So does each of these events.
    pub open spec fn goes_on_with(self, events: Seq<Event>) -> bool
        decreases events.len(),
    {
        events.len() == 0 || (self.goes_on(events[0]) && self.next(events[0]).0.goes_on_with(
            events.drop_first(),
        ))
    }

    /// The attempts that can still set the size.
    spec fn attempts_left(self) -> int {
        match self.stage {
            Stage::Done => 0,
            Stage::Compare | Stage::Move => ATTEMPTS - self.attempt - 1,
            _ => ATTEMPTS - self.attempt,
        }
    }

    /// A bound on the events to come.
    spec fn events_left(self) -> int {
        let later = 4 * (ATTEMPTS - self.attempt - 1);
        match self.stage {
            Stage::Begin => later + 7,
            Stage::Locate => later + 6,
            Stage::Prepare => later + 5,
            Stage::Attempt => later + 4,
            Stage::Resize => later + 3,
            Stage::Compare => later + 2,
            Stage::Move => later + 1,
            Stage::Done => 0,
        }
    }
}

proof fn lemma_resizes(adjustment: Adjustment, events: Seq<Event>)
    requires
        adjustment.valid(),
    ensures
        adjustment.resizes(events) <= adjustment.attempts_left(),
    decreases events.len(),
{
    if events.len() > 0 {
        lemma_resizes(adjustment.next(events[0]).0, events.drop_first());
    }
}

proof fn lemma_all_resizes(adjustment: Adjustment, events: Seq<Event>)
    requires
        adjustment.valid(),
        adjustment.goes_on_with(events),
        adjustment.after(events).stage == Stage::Done,
    ensures
        adjustment.resizes(events) == adjustment.attempts_left(),
    decreases events.len(),
{
    if events.len() > 0 {
        lemma_all_resizes(adjustment.next(events[0]).0, events.drop_first());
    }
}

proof fn lemma_events_left(adjustment: Adjustment, events: Seq<Event>)
    requires
        adjustment.valid(),
    ensures
        events.len() >= adjustment.events_left() ==> adjustment.after(events).stage == Stage::Done,
    decreases events.len(),
{
    if events.len() > 0 {
        lemma_events_left(adjustment.next(events[0]).0, events.drop_first());
    }
}

/// However the window behaves, its size is set at most three times.
pub proof fn law_at_most_three_resizes(adjustment: Adjustment, events: Seq<Event>)
    requires
        adjustment.valid(),
    ensures
        adjustment.resizes(events) <= ATTEMPTS,
{
    lemma_resizes(adjustment, events);
}

/// As long as the window may be adjusted and its size can be wrapped, the size is
/// set exactly three times, whether that succeeds or not.
pub proof fn law_exactly_three_resizes(adjustment: Adjustment, rule: Rule, events: Seq<Event>)
    requires
        adjustment.starts(rule),
        adjustment.goes_on_with(events),
        adjustment.after(events).pending() == Action::Finish,
    ensures
        adjustment.resizes(events) == ATTEMPTS,
{
    lemma_all_resizes(adjustment, events);
}

/// Every adjustment comes to its end after at most fifteen events.
pub proof fn law_adjustments_end(adjustment: Adjustment, events: Seq<Event>)
    requires
        adjustment.valid(),
        events.len() >= 15,
    ensures
        adjustment.after(events).pending() == Action::Finish,
{
    lemma_events_left(adjustment, events);
}

/// The size is set only right after the window was seen to be a standard main
/// window that is neither in full screen nor minimized.
pub proof fn law_a_resize_follows_a_good_status(adjustment: Adjustment, event: Event)
    requires
        adjustment.valid(),
        adjustment.next(event).0.pending() == Action::SetSize,
    ensures
        adjustment.pending() is ReadStatus,
        event == Event::Status(true),
{
}

/// A window that may not be adjusted ends the adjustment at once.
pub proof fn law_a_bad_status_ends_the_adjustment(adjustment: Adjustment)
    requires
        adjustment.valid(),
        adjustment.pending() is ReadStatus,
    ensures
        adjustment.next(Event::Status(false)).0.pending() == Action::Finish,
{
}

/// A window is moved only after its size was set, only where its position was
/// known before, and only to where it belongs; and not if it stands there.
pub proof fn law_moves(adjustment: Adjustment, event: Event)
    requires
        adjustment.valid(),
        adjustment.next(event).0.pending() is SetPosition,
    ensures
        adjustment.stage == Stage::Compare,
        adjustment.origin is Some,
        event matches Event::Position(position) && !adjustment.in_place(
            adjustment.origin->Some_0,
            position,
        ),
        adjustment.next(event).0.pending() == Action::SetPosition(
            adjustment.target(adjustment.origin->Some_0),
        ),
{
}

/// Positions are compared only after the size was set.
pub proof fn law_a_comparison_follows_a_resize(adjustment: Adjustment, event: Event)
    requires
        adjustment.valid(),
        adjustment.next(event).0.stage == Stage::Compare,
    ensures
        adjustment.pending() == Action::SetSize,
        event == Event::SizeSet(SUCCESS),
{
}

/// A rule without coordinates leaves a window where it was; a coordinate of the
/// rule replaces that of the window.
pub proof fn law_targets(adjustment: Adjustment, origin: Point)
    ensures
        adjustment.x is None && adjustment.y is None ==> adjustment.target(origin) == origin,
        adjustment.x matches Some(x) ==> adjustment.target(origin).x == x,
        adjustment.y matches Some(y) ==> adjustment.target(origin).y == y,
{
}

/// The size that is asked for, and the coordinates, are those of the rule
/// throughout.
pub proof fn law_the_rule_stays(adjustment: Adjustment, events: Seq<Event>)
    ensures
        adjustment.after(events).width == adjustment.width,
        adjustment.after(events).height == adjustment.height,
        adjustment.after(events).x == adjustment.x,
        adjustment.after(events).y == adjustment.y,
    decreases events.len(),
{
    if events.len() > 0 {
        law_the_rule_stays(adjustment.next(events[0]).0, events.drop_first());
    }
}

/// Once it was read where the window stood, that stays what it was, however the
/// window moves.
pub proof fn law_the_origin_stays(adjustment: Adjustment, events: Seq<Event>)
    requires
        adjustment.valid(),
        adjustment.stage != Stage::Begin,
        adjustment.stage != Stage::Locate,
    ensures
        adjustment.after(events).origin == adjustment.origin,
    decreases events.len(),
{
    if events.len() > 0 {
        law_the_origin_stays(adjustment.next(events[0]).0, events.drop_first());
    }
}

/// The position that is read first is the origin, and the size is prepared next.
pub proof fn law_the_origin_is_read_first(adjustment: Adjustment, position: Option<Point>)
    requires
        adjustment.valid(),
        adjustment.stage == Stage::Locate,
    ensures
        adjustment.next(Event::Position(position)).0.origin == position,
        adjustment.next(Event::Position(position)).0.pending() == Action::PrepareSize(
            adjustment.width,
            adjustment.height,
        ),
{
}

/// The adjustment is by this rule of a window that stood at `origin`, and comes to
/// its attempt of this number, the first being zero.
pub open spec fn at_attempt(
    adjustment: Adjustment,
    rule: Rule,
    origin: Option<Point>,
    attempt: int,
) -> bool {
    &&& adjustment.valid()
    &&& adjustment.width == rule.width
    &&& adjustment.height == rule.height
    &&& adjustment.x == rule.x
    &&& adjustment.y == rule.y
    &&& adjustment.stage == Stage::Attempt
    &&& adjustment.origin == origin
    &&& adjustment.attempt == attempt
}

/// An attempt of this number is over: the next one follows, unless it was the
/// third.
pub open spec fn attempt_over(
    adjustment: Adjustment,
    rule: Rule,
    origin: Option<Point>,
    attempt: int,
) -> bool {
    if attempt < 2 {
        at_attempt(adjustment, rule, origin, attempt + 1)
    } else {
        adjustment.pending() == Action::Finish
    }
}

/// An adjustment reads whether the window may be adjusted, where it stands, and
/// then wraps the size of the rule; where one of these says no, it is over.
/// Whatever position was read, attempts follow.
pub proof fn law_an_adjustment_begins(
    adjustment: Adjustment,
    rule: Rule,
    position: Option<Point>,
)
    requires
        adjustment.starts(rule),
    ensures
        adjustment.valid(),
        adjustment.pending() == Action::ReadStatus(0),
        adjustment.next(Event::Status(false)).0.pending() == Action::Finish,
        adjustment.next(Event::Status(false)).1 == Report::Nothing,
        adjustment.next(Event::Status(true)).1 == Report::Nothing,
        ({
            let seen = adjustment.next(Event::Status(true)).0;
            let located = seen.next(Event::Position(position)).0;
            &&& seen.pending() == Action::ReadPosition
            &&& seen.next(Event::Position(position)).1 == Report::Nothing
            &&& located.pending() == Action::PrepareSize(rule.width, rule.height)
            &&& located.next(Event::SizePrepared(false)).0.pending() == Action::Finish
            &&& located.next(Event::SizePrepared(false)).1 == Report::Nothing
            &&& located.next(Event::SizePrepared(true)).1 == Report::Nothing
            &&& at_attempt(located.next(Event::SizePrepared(true)).0, rule, position, 0)
        }),
{
}

/// Each attempt but the first waits for a tenth of a second. It reads whether the
/// window may be adjusted still, and then sets the size; a size that could not be
/// set is reported, and the next attempt follows.
pub proof fn law_an_attempt_sets_the_size(
    adjustment: Adjustment,
    rule: Rule,
    origin: Option<Point>,
    attempt: int,
    code: i32,
)
    requires
        at_attempt(adjustment, rule, origin, attempt),
    ensures
        0 <= attempt < 3,
        adjustment.pending() == Action::ReadStatus(
            if attempt == 0 {
                0
            } else {
                100
            },
        ),
        adjustment.next(Event::Status(false)).0.pending() == Action::Finish,
        adjustment.next(Event::Status(false)).1 == Report::Nothing,
        adjustment.next(Event::Status(true)).0.pending() == Action::SetSize,
        adjustment.next(Event::Status(true)).1 == Report::Nothing,
        ({
            let sized = adjustment.next(Event::Status(true)).0.next(Event::SizeSet(code));
            &&& code != 0 ==> sized.1 == Report::ResizeFailed(code) && attempt_over(
                sized.0,
                rule,
                origin,
                attempt,
            )
            &&& code == 0 && origin is None ==> sized.1 == Report::Applied && attempt_over(
                sized.0,
                rule,
                origin,
                attempt,
            )
            &&& code == 0 && origin is Some ==> sized.1 == Report::Nothing && sized.0.pending()
                == Action::ReadPosition
        }),
{
}

/// Once the size was set, a window that stood somewhere and is not where it belongs
/// is moved there: to the coordinates of the rule, and where the rule has none, to
/// those where it stood. One that is there is not moved.
pub proof fn law_an_attempt_moves_the_window(
    adjustment: Adjustment,
    rule: Rule,
    origin: Point,
    attempt: int,
    position: Option<Point>,
    outcome: Option<i32>,
)
    requires
        at_attempt(adjustment, rule, Some(origin), attempt),
    ensures
        ({
            let x = if rule.x is Some {
                rule.x->Some_0
            } else {
                origin.x
            };
            let y = if rule.y is Some {
                rule.y->Some_0
            } else {
                origin.y
            };
            let sized = adjustment.next(Event::Status(true)).0.next(Event::SizeSet(0)).0;
            let compared = sized.next(Event::Position(position));
            let there = position is Some && equal(position->Some_0.x, x) && equal(
                position->Some_0.y,
                y,
            );
            let moved = compared.0.next(Event::PositionSet(outcome));
            &&& there ==> compared.1 == Report::Applied && attempt_over(
                compared.0,
                rule,
                Some(origin),
                attempt,
            )
            &&& !there ==> compared.1 == Report::Nothing && compared.0.pending()
                == Action::SetPosition(Point { x, y })
            &&& !there ==> attempt_over(moved.0, rule, Some(origin), attempt)
            &&& !there && (outcome is None || outcome == Some(0i32)) ==> moved.1 == Report::Applied
            &&& !there && outcome is Some && outcome->Some_0 != 0 ==> moved.1
                == Report::AppliedUnmoved(outcome->Some_0)
        }),
{
}

/// After its end an adjustment does and reports nothing.
pub proof fn law_an_adjustment_stays_over(adjustment: Adjustment, event: Event)
    requires
        adjustment.valid(),
        adjustment.pending() == Action::Finish,
    ensures
        adjustment.next(event).0.pending() == Action::Finish,
        adjustment.next(event).1 == Report::Nothing,
{
}

/// An event that answers another action than the pending one ends the adjustment.
pub proof fn law_a_stray_event_ends_the_adjustment(adjustment: Adjustment, event: Event)
    requires
        adjustment.valid(),
        event is Status ==> !(adjustment.pending() is ReadStatus),
        event is Position ==> adjustment.pending() != Action::ReadPosition,
        event is SizePrepared ==> !(adjustment.pending() is PrepareSize),
        event is SizeSet ==> adjustment.pending() != Action::SetSize,
        event is PositionSet ==> !(adjustment.pending() is SetPosition),
    ensures
        adjustment.next(event).0.pending() == Action::Finish,
        adjustment.next(event).1 == Report::Nothing,
{
}

/// Sizes are set through the attribute for sizes, and positions read and set
/// through the one for positions.
pub proof fn law_attributes_of_actions(point: Point)
    ensures
        Action::SetSize.names() == Some("AXSize"@),
        Action::SetPosition(point).names() == Some("AXPosition"@),
        Action::ReadPosition.names() == Some("AXPosition"@),
{
}

/// An adjustment is made of the rule's own numbers; what it does next and how it goes
/// on is what the laws say of it.
pub proof fn law_functions_on_adjustments(
    rule: &Rule,
    start: Adjustment,
    adjustment: &mut Adjustment,
    event: Event,
    report: Report,
    action: Action,
    attribute: Option<&'static str>,
)
    requires
        call_ensures(Adjustment::new, (rule,), start),
        call_ensures(Adjustment::action, (&*old(adjustment),), action),
        call_ensures(Adjustment::advance, (adjustment, event), report),
        call_ensures(Action::attribute, (action,), attribute),
    ensures
        start.starts(*rule),
        start.width == rule.width,
        start.height == rule.height,
        start.x == rule.x,
        start.y == rule.y,
        action == old(adjustment).pending(),
        (*final(adjustment), report) == old(adjustment).next(event),
        action == Action::SetSize ==> attribute is Some && attribute->Some_0@ == "AXSize"@,
        action is SetPosition || action == Action::ReadPosition ==> attribute is Some
            && attribute->Some_0@ == "AXPosition"@,
{
}

} // verus!
