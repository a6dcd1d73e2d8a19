use mac_window_resizer::adjust::{Action, Adjustment, Event, Point, Report};
use mac_window_resizer::config::Rule;

fn point(x: f64, y: f64) -> Point {
    Point { x: x.to_bits(), y: y.to_bits() }
}

fn rule(x: Option<f64>, y: Option<f64>) -> Rule {
    Rule {
        bundle_id: "a".to_string(),
        width: 860.0f64.to_bits(),
        height: 660.0f64.to_bits(),
        x: x.map(f64::to_bits),
        y: y.map(f64::to_bits),
    }
}

fn prepared(rule: &Rule, origin: Option<Point>) -> Adjustment {
    let mut adjustment = Adjustment::new(rule);
    assert_eq!(adjustment.action(), Action::ReadStatus(0));
    assert_eq!(adjustment.advance(Event::Status(true)), Report::Nothing);
    assert_eq!(adjustment.action(), Action::ReadPosition);
    assert_eq!(adjustment.advance(Event::Position(origin)), Report::Nothing);
    assert_eq!(
        adjustment.action(),
        Action::PrepareSize(860.0f64.to_bits(), 660.0f64.to_bits())
    );
    assert_eq!(adjustment.advance(Event::SizePrepared(true)), Report::Nothing);
    adjustment
}

#[test]
fn the_size_is_set_three_times() {
    let origin = point(10.0, 20.0);
    let mut adjustment = prepared(&rule(None, Some(41.0)), Some(origin));
    let target = point(10.0, 41.0);
    for delay in [0, 100, 100] {
        assert_eq!(adjustment.action(), Action::ReadStatus(delay));
        assert_eq!(adjustment.advance(Event::Status(true)), Report::Nothing);
        assert_eq!(adjustment.action(), Action::SetSize);
        assert_eq!(adjustment.advance(Event::SizeSet(0)), Report::Nothing);
        assert_eq!(adjustment.action(), Action::ReadPosition);
        assert_eq!(adjustment.advance(Event::Position(Some(origin))), Report::Nothing);
        assert_eq!(adjustment.action(), Action::SetPosition(target));
        assert_eq!(adjustment.advance(Event::PositionSet(Some(0))), Report::Applied);
    }
    assert_eq!(adjustment.action(), Action::Finish);
}

#[test]
fn failures_are_reported_and_tried_again() {
    let mut adjustment = prepared(&rule(Some(1.0), None), Some(point(0.0, 0.0)));
    adjustment.advance(Event::Status(true));
    assert_eq!(adjustment.advance(Event::SizeSet(-25200)), Report::ResizeFailed(-25200));
    assert_eq!(adjustment.action(), Action::ReadStatus(100));
    adjustment.advance(Event::Status(true));
    adjustment.advance(Event::SizeSet(0));
    adjustment.advance(Event::Position(None));
    assert_eq!(adjustment.action(), Action::SetPosition(point(1.0, 0.0)));
    assert_eq!(
        adjustment.advance(Event::PositionSet(Some(-25201))),
        Report::AppliedUnmoved(-25201)
    );
    adjustment.advance(Event::Status(true));
    adjustment.advance(Event::SizeSet(0));
    adjustment.advance(Event::Position(None));
    assert_eq!(adjustment.advance(Event::PositionSet(None)), Report::Applied);
    assert_eq!(adjustment.action(), Action::Finish);
}

#[test]
fn a_window_in_its_place_is_not_moved() {
    let mut adjustment = prepared(&rule(Some(0.0), None), Some(point(5.0, 6.0)));
    adjustment.advance(Event::Status(true));
    adjustment.advance(Event::SizeSet(0));
    // The two zeros are the same coordinate.
    assert_eq!(adjustment.advance(Event::Position(Some(point(-0.0, 6.0)))), Report::Applied);
    assert_eq!(adjustment.action(), Action::ReadStatus(100));
    adjustment.advance(Event::Status(true));
    adjustment.advance(Event::SizeSet(0));
    assert_eq!(
        adjustment.advance(Event::Position(Some(point(f64::NAN, 6.0)))),
        Report::Nothing
    );
    assert_eq!(adjustment.action(), Action::SetPosition(point(0.0, 6.0)));
}

#[test]
fn a_window_without_a_position_is_only_resized() {
    let mut adjustment = prepared(&rule(Some(0.0), Some(0.0)), None);
    adjustment.advance(Event::Status(true));
    assert_eq!(adjustment.advance(Event::SizeSet(0)), Report::Applied);
    assert_eq!(adjustment.action(), Action::ReadStatus(100));
}

#[test]
fn a_window_that_may_not_be_adjusted_ends_the_adjustment() {
    let mut adjustment = Adjustment::new(&rule(None, None));
    adjustment.advance(Event::Status(false));
    assert_eq!(adjustment.action(), Action::Finish);

    let mut adjustment = prepared(&rule(None, None), None);
    adjustment.advance(Event::Status(false));
    assert_eq!(adjustment.action(), Action::Finish);

    let mut adjustment = Adjustment::new(&rule(None, None));
    adjustment.advance(Event::Status(true));
    adjustment.advance(Event::Position(None));
    adjustment.advance(Event::SizePrepared(false));
    assert_eq!(adjustment.action(), Action::Finish);
}

#[test]
fn an_event_that_answers_nothing_ends_the_adjustment() {
    let mut adjustment = Adjustment::new(&rule(None, None));
    assert_eq!(adjustment.advance(Event::SizeSet(0)), Report::Nothing);
    assert_eq!(adjustment.action(), Action::Finish);
    assert_eq!(adjustment.advance(Event::Status(true)), Report::Nothing);
    assert_eq!(adjustment.action(), Action::Finish);
}

#[test]
fn actions_name_the_attributes_they_work_on() {
    assert_eq!(Action::SetSize.attribute(), Some("AXSize"));
    assert_eq!(Action::SetPosition(point(0.0, 0.0)).attribute(), Some("AXPosition"));
    assert_eq!(Action::ReadPosition.attribute(), Some("AXPosition"));
    assert_eq!(Action::ReadStatus(0).attribute(), None);
    assert_eq!(Action::PrepareSize(1, 1).attribute(), None);
    assert_eq!(Action::Finish.attribute(), None);
}

#[test]
fn a_window_goes_back_to_where_it_stood_at_first() {
    let origin = point(10.0, 20.0);
    let mut adjustment = prepared(&rule(None, None), Some(origin));
    for moved in [point(11.0, 20.0), point(500.0, -3.0), point(10.0, 21.0)] {
        adjustment.advance(Event::Status(true));
        adjustment.advance(Event::SizeSet(0));
        assert_eq!(adjustment.advance(Event::Position(Some(moved))), Report::Nothing);
        assert_eq!(adjustment.action(), Action::SetPosition(origin));
        adjustment.advance(Event::PositionSet(Some(0)));
    }
    assert_eq!(adjustment.action(), Action::Finish);
}
