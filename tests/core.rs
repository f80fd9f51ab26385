use server_harness::collect::{Collector, DefaultCollector};
use server_harness::dispatch::{CompletionTracker, Dispatcher};
use server_harness::error::HarnessError;
use server_harness::lifecycle::{step, Action, Event, Phase};
use server_harness::scenario::ScenarioBuilder;
use server_harness::text::{contains, starts_with_after_space, text_eq};

#[test]
fn three_handlers_answer_in_turn_and_the_third_call_completes() {
    let mut d = Dispatcher::new(&vec![3]).unwrap();
    let a = d.dispatch(0);
    let b = d.dispatch(0);
    let c = d.dispatch(0);
    assert_eq!((a.handler, a.fires), (Some(0), false));
    assert_eq!((b.handler, b.fires), (Some(1), false));
    assert_eq!((c.handler, c.fires), (Some(2), true));
    assert!(d.is_complete());
    let fourth = d.dispatch(0);
    assert_eq!(fourth.handler, Some(2));
    assert!(!fourth.counted);
    assert!(!fourth.fires);
}

#[test]
fn batch_of_h_calls_uses_each_handler_once() {
    let mut d = Dispatcher::new(&vec![2, 4]).unwrap();
    let mut seen = Vec::new();
    for route in [1, 0, 1, 1, 0, 1] {
        let out = d.dispatch(route);
        if route == 1 {
            seen.push(out.handler.unwrap());
        }
    }
    seen.sort();
    assert_eq!(seen, vec![0, 1, 2, 3]);
    assert!(d.is_complete());
}

#[test]
fn two_single_handler_routes_complete_in_either_order() {
    for order in [[0usize, 1], [1, 0]] {
        let mut d = Dispatcher::new(&vec![1, 1]).unwrap();
        assert!(!d.dispatch(order[0]).fires);
        assert!(!d.dispatch(order[0]).fires);
        assert!(!d.is_complete());
        assert!(d.dispatch(order[1]).fires);
        assert!(d.is_complete());
    }
}

#[test]
fn route_without_handlers_takes_exactly_one_call() {
    let mut d = Dispatcher::new(&vec![0, 1]).unwrap();
    let first = d.dispatch(0);
    assert_eq!(first.handler, None);
    assert!(first.counted);
    assert!(!first.fires);
    let again = d.dispatch(0);
    assert_eq!(again.handler, None);
    assert!(!again.counted);
    assert!(d.dispatch(1).fires);
}

#[test]
fn no_routes_is_complete_from_the_start() {
    let d = Dispatcher::new(&vec![]).unwrap();
    assert!(d.is_complete());
    assert_eq!(d.route_count(), 0);
}

#[test]
fn slot_total_that_overflows_is_refused() {
    assert!(Dispatcher::new(&vec![usize::MAX, 1]).is_none());
    assert!(Dispatcher::new(&vec![usize::MAX - 1, 0]).is_some());
}

#[test]
fn tracker_fires_once_on_the_last_slot() {
    let mut t = CompletionTracker::new(2);
    assert!(!t.is_complete());
    assert!(!t.notify());
    assert!(t.notify());
    assert!(t.is_complete());
    assert_eq!(t.consumed(), 2);
    assert_eq!(t.total_expected(), 2);
}

#[test]
fn default_collector_keeps_arrival_order() {
    let mut c: DefaultCollector<u32> = DefaultCollector::new();
    c.collect(3);
    c.collect(1);
    assert_eq!(c.len(), 2);
    assert_eq!(c.into_output(), vec![3, 1]);
    let empty: DefaultCollector<u32> = DefaultCollector::new();
    assert!(empty.into_output().is_empty());
}

#[test]
fn lifecycle_runs_through_its_phases() {
    assert_eq!(step(Phase::Binding, Event::Bound), (Phase::Ready, Action::ReportReady));
    assert_eq!(step(Phase::Binding, Event::BindFailed), (Phase::Failed, Action::ReturnError));
    assert_eq!(step(Phase::Ready, Event::ReadyReported), (Phase::Serving, Action::Serve));
    assert_eq!(step(Phase::Serving, Event::Completed), (Phase::ShuttingDown, Action::StopAccepting));
    assert_eq!(step(Phase::ShuttingDown, Event::Drained), (Phase::Stopped, Action::ReturnOutput));
    assert_eq!(step(Phase::Stopped, Event::Completed), (Phase::Stopped, Action::Wait));
    assert_eq!(step(Phase::Ready, Event::Bound), (Phase::Ready, Action::Wait));
}

#[test]
fn builder_needs_server_and_collector() {
    let missing: ScenarioBuilder<(), (), u8> = ScenarioBuilder::new();
    assert!(matches!(missing.build(), Err(HarnessError::ConfigurationError(_))));
    let no_collector = ScenarioBuilder::<(), (), u8>::new().server(1u8);
    assert!(matches!(no_collector.build(), Err(HarnessError::ConfigurationError(_))));
    let full = ScenarioBuilder::<(), (), u8>::new().server(1u8).collector(2u8).route(5).routes(vec![6, 7]);
    let scenario = full.build().unwrap();
    assert_eq!(scenario.server, 1);
    assert_eq!(scenario.collector, 2);
    assert_eq!(scenario.routes, vec![5, 6, 7]);
}

#[test]
fn text_comparisons() {
    assert!(text_eq("GET", "GET"));
    assert!(!text_eq("GET", "GETS"));
    assert!(starts_with_after_space("mutation {", "mutation"));
    assert!(!starts_with_after_space("mut", "mutation"));
    assert!(starts_with_after_space("\t mutation", "mutation"));
    assert!(contains("query { users { id } }", "users"));
    assert!(contains("abc", ""));
    assert!(!contains("query { user }", "users"));
}
