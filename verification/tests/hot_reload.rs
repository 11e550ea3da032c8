use dioxus::prelude::Template;
use dioxus_fullstack::channel::PublishFailure;
use dioxus_fullstack::hot_reload::{BridgeAction, HotReloadEvent, HotReloadState};

fn reload_named(name: &'static str) -> Template<'static> {
    Template {
        name,
        roots: &[],
        node_paths: &[],
        attr_paths: &[],
    }
}

#[test]
fn new_state_is_empty_and_running() {
    let state = HotReloadState::new();
    assert_eq!(state.templates().len(), 0);
    assert_eq!(state.channel().latest(), None);
    assert_eq!(state.channel().version(), 0);
    assert!(state.channel().is_open());
    assert!(!state.is_halted());
}

#[test]
fn default_state_is_the_new_state() {
    let state = HotReloadState::default();
    assert!(state.templates().is_empty());
    assert_eq!(state.channel().latest(), None);
    assert_eq!(state.channel().version(), 0);
    assert!(!state.is_halted());
}

#[test]
fn update_is_cached_then_published() {
    let mut state = HotReloadState::new();
    let action = state.handle(HotReloadEvent::TemplateUpdated(reload_named("a")));
    assert_eq!(action, BridgeAction::WakeSubscribers);
    assert!(state.templates().contains(&reload_named("a")));
    assert_eq!(state.templates().len(), 1);
    assert_eq!(state.channel().latest(), Some(reload_named("a")));
    assert_eq!(state.channel().version(), 1);
}

#[test]
fn same_update_twice_is_cached_once_and_published_twice() {
    let mut state = HotReloadState::new();
    let first = state.handle(HotReloadEvent::TemplateUpdated(reload_named("a")));
    assert_eq!(first, BridgeAction::WakeSubscribers);
    assert_eq!(state.templates().len(), 1);
    assert_eq!(state.channel().version(), 1);
    let second = state.handle(HotReloadEvent::TemplateUpdated(reload_named("a")));
    assert_eq!(second, BridgeAction::WakeSubscribers);
    assert_eq!(state.templates().len(), 1);
    assert_eq!(state.channel().version(), 2);
    assert_eq!(state.channel().latest(), Some(reload_named("a")));
}

#[test]
fn what_a_subscriber_sees_is_in_the_cache() {
    let mut state = HotReloadState::new();
    let mut cursor = state.subscribe();
    assert_eq!(cursor.poll_next(state.channel()), None);
    for name in ["a", "b", "a", "c"] {
        state.handle(HotReloadEvent::TemplateUpdated(reload_named(name)));
        let seen = cursor.poll_next(state.channel());
        assert_eq!(seen, Some(reload_named(name)));
        assert!(state.templates().contains(&seen.unwrap()));
    }
    assert_eq!(state.templates().len(), 3);
}

#[test]
fn subscriber_waits_before_the_first_update_and_a_later_one_peeks() {
    let mut state = HotReloadState::new();
    let mut waiting = state.subscribe();
    assert_eq!(waiting.poll_next(state.channel()), None);
    state.handle(HotReloadEvent::TemplateUpdated(reload_named("a")));
    assert_eq!(waiting.poll_next(state.channel()), Some(reload_named("a")));
    let late = state.subscribe();
    assert_eq!(late.peek(state.channel()), Some(reload_named("a")));
}

#[test]
fn subscriber_that_was_away_gets_the_last_update_only() {
    let mut state = HotReloadState::new();
    let mut cursor = state.subscribe();
    state.handle(HotReloadEvent::TemplateUpdated(reload_named("a")));
    state.handle(HotReloadEvent::TemplateUpdated(reload_named("b")));
    state.handle(HotReloadEvent::TemplateUpdated(reload_named("c")));
    assert_eq!(cursor.poll_next(state.channel()), Some(reload_named("c")));
    assert_eq!(cursor.poll_next(state.channel()), None);
    assert_eq!(state.templates().len(), 3);
}

#[test]
fn shutdown_asks_for_the_exit_and_halts() {
    let mut state = HotReloadState::new();
    let action = state.handle(HotReloadEvent::Shutdown);
    assert_eq!(action, BridgeAction::ExitProcess);
    assert!(state.is_halted());
    assert!(state.templates().is_empty());
    assert_eq!(state.channel().version(), 0);
}

#[test]
fn updates_before_shutdown_are_cached_and_events_after_it_are_not_handled() {
    let mut state = HotReloadState::new();
    state.handle(HotReloadEvent::TemplateUpdated(reload_named("a")));
    state.handle(HotReloadEvent::TemplateUpdated(reload_named("b")));
    assert_eq!(state.handle(HotReloadEvent::Shutdown), BridgeAction::ExitProcess);
    let after = state.handle(HotReloadEvent::TemplateUpdated(reload_named("c")));
    assert_eq!(after, BridgeAction::ExitProcess);
    assert_eq!(state.handle(HotReloadEvent::Shutdown), BridgeAction::ExitProcess);
    assert!(state.is_halted());
    assert!(state.templates().contains(&reload_named("a")));
    assert!(state.templates().contains(&reload_named("b")));
    assert!(!state.templates().contains(&reload_named("c")));
    assert_eq!(state.templates().len(), 2);
    assert_eq!(state.channel().latest(), Some(reload_named("b")));
    assert_eq!(state.channel().version(), 2);
}

#[test]
fn failed_publish_is_reported_and_the_update_is_cached_all_the_same() {
    let mut state = HotReloadState::new();
    state.handle(HotReloadEvent::TemplateUpdated(reload_named("a")));
    state.close_channel();
    let action = state.handle(HotReloadEvent::TemplateUpdated(reload_named("b")));
    assert_eq!(action, BridgeAction::ReportFailure(PublishFailure));
    assert!(state.templates().contains(&reload_named("b")));
    assert_eq!(state.templates().len(), 2);
    assert_eq!(state.channel().latest(), Some(reload_named("a")));
    assert_eq!(state.channel().version(), 1);
    assert!(!state.is_halted());
    let next = state.handle(HotReloadEvent::TemplateUpdated(reload_named("c")));
    assert_eq!(next, BridgeAction::ReportFailure(PublishFailure));
    assert_eq!(state.templates().len(), 3);
}

#[test]
fn shutdown_is_taken_on_a_closed_channel_too() {
    let mut state = HotReloadState::new();
    state.close_channel();
    assert!(!state.channel().is_open());
    assert_eq!(state.handle(HotReloadEvent::Shutdown), BridgeAction::ExitProcess);
    assert!(state.is_halted());
}

#[test]
fn a_long_run_of_events_keeps_cache_and_channel_in_step() {
    let names = ["a", "b", "c", "d", "e"];
    let mut state = HotReloadState::new();
    let mut cursor = state.subscribe();
    let mut seen_names: Vec<&str> = Vec::new();
    let mut seed: u64 = 7;
    for step in 0..500u64 {
        seed = seed
            .wrapping_mul(6364136223846793005)
            .wrapping_add(1442695040888963407);
        let name = names[((seed >> 33) % 5) as usize];
        let action = state.handle(HotReloadEvent::TemplateUpdated(reload_named(name)));
        assert_eq!(action, BridgeAction::WakeSubscribers);
        if !seen_names.contains(&name) {
            seen_names.push(name);
        }
        assert_eq!(state.templates().len(), seen_names.len());
        assert_eq!(state.channel().version(), step + 1);
        assert_eq!(state.channel().latest(), Some(reload_named(name)));
        if step % 7 == 0 {
            let seen = cursor.poll_next(state.channel()).unwrap();
            assert_eq!(seen, reload_named(name));
            assert!(state.templates().contains(&seen));
            assert_eq!(cursor.poll_next(state.channel()), None);
        }
    }
    assert_eq!(state.templates().len(), 5);
}
