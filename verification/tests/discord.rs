use bdengine_desktop::discord::build_discord_activity;
use bdengine_desktop::discord::discord_presence_details;
use bdengine_desktop::discord::DiscordActivity;
use bdengine_desktop::discord::DiscordPresencePayload;
use bdengine_desktop::discord_presence::clear_action;
use bdengine_desktop::discord_presence::send_result;
use bdengine_desktop::discord_presence::ClearAction;
use bdengine_desktop::discord_presence::DiscordPresence;
use bdengine_desktop::discord_presence::PresenceUpdate;
use bdengine_desktop::discord_presence::PresenceWorker;
use bdengine_desktop::discord_presence::Request;
use bdengine_desktop::discord_presence::UpdateAction;
use bdengine_desktop::discord_presence::UpdateEvent;
use bdengine_desktop::discord_presence::WorkerAction;
use bdengine_desktop::discord_presence::WorkerEvent;
use std::sync::mpsc;
use std::time::Duration;
use std::time::Instant;

fn payload(mode: &str, party: Option<&str>, current: Option<i32>, max: Option<i32>) -> DiscordPresencePayload {
    DiscordPresencePayload {
        mode: mode.to_string(),
        party_id: party.map(|id| id.to_string()),
        current_size: current,
        max_size: max,
    }
}

fn built(payload: DiscordPresencePayload) -> DiscordActivity {
    match build_discord_activity(&payload) {
        Ok(activity) => activity,
        Err(error) => panic!("{}", error),
    }
}

fn run_worker(mut worker: PresenceWorker, mut handle: impl FnMut(Request)) {
    loop {
        match worker.advance() {
            WorkerAction::Continue => {}
            WorkerAction::Handle(request) => handle(request),
            WorkerAction::Stop => return,
        }
    }
}

fn start(handle: impl FnMut(Request) + Send + 'static) -> (DiscordPresence, tokio::runtime::Runtime) {
    let runtime = tokio::runtime::Builder::new_multi_thread().build().unwrap();
    let (presence, worker) = DiscordPresence::start();
    runtime.spawn_blocking(move || run_worker(worker, handle));
    (presence, runtime)
}

#[test]
fn modes_have_their_details() {
    assert_eq!(discord_presence_details("editing"), Some("Editing a project"));
    assert_eq!(discord_presence_details("animating"), Some("Animating a model"));
    assert_eq!(discord_presence_details("sound"), Some("Creating sound effects"));
    assert_eq!(discord_presence_details("painting"), Some("Painting textures"));
    assert_eq!(discord_presence_details("share_party"), Some("In a Share Party"));
    assert_eq!(discord_presence_details("Editing"), None);
    assert_eq!(discord_presence_details(""), None);
}

#[test]
fn activity_outside_a_party() {
    let activity = built(payload(" painting ", Some("id"), Some(3), Some(4)));
    assert_eq!(activity.details.as_deref(), Some("Painting textures"));
    assert_eq!(activity.state, None);
    let assets = activity.assets.unwrap();
    assert_eq!(assets.large_image, "bde_logo");
    assert_eq!(assets.large_text, "BDEngine");
    assert_eq!(activity.buttons.len(), 1);
    assert_eq!(activity.buttons[0].label, "Open BDEngine");
    assert_eq!(activity.buttons[0].url, "https://bdengine.app");
    assert!(activity.party.is_none());
}

#[test]
fn activity_in_a_party() {
    let activity = built(payload("share_party", Some(" room "), Some(3), Some(8)));
    assert_eq!(activity.details.as_deref(), Some("In a Share Party"));
    assert_eq!(activity.state.as_deref(), Some("3/8 users connected"));
    let party = activity.party.unwrap();
    assert_eq!(party.id, " room ");
    assert_eq!((party.current_size, party.max_size), (3, 8));
}

#[test]
fn party_sizes_are_ordered() {
    for (current, max, state) in [
        (Some(5), Some(2), "5/5 users connected"),
        (Some(-3), Some(-1), "0/0 users connected"),
        (None, Some(4), "0/4 users connected"),
        (Some(2), None, "2/2 users connected"),
        (None, None, "0/0 users connected"),
        (Some(i32::MAX), Some(0), "2147483647/2147483647 users connected"),
    ] {
        let activity = built(payload("share_party", Some("id"), current, max));
        assert_eq!(activity.state.as_deref(), Some(state));
        let party = activity.party.unwrap();
        assert!(0 <= party.current_size && party.current_size <= party.max_size);
    }
}

#[test]
fn party_without_a_name_is_not_shown() {
    for id in [None, Some(""), Some("  ")] {
        let activity = built(payload("share_party", id, Some(1), Some(2)));
        assert_eq!(activity.state.as_deref(), Some("1/2 users connected"));
        assert!(activity.party.is_none());
    }
}

#[test]
fn unknown_modes_are_refused() {
    assert_eq!(
        build_discord_activity(&payload(" gaming ", None, None, None)).err(),
        Some("Unsupported Discord presence mode:  gaming ".to_string())
    );
}

#[test]
fn stalled_discord_does_not_block_updates_clear_or_shutdown() {
    let (entered_tx, entered_rx) = mpsc::channel();
    let (release_tx, release_rx) = mpsc::channel();
    let (presence, runtime) = start(move |_| {
        let _ = entered_tx.send(());
        let _ = release_rx.recv_timeout(Duration::from_secs(3));
    });
    presence.set(DiscordActivity::new()).unwrap();
    entered_rx.recv_timeout(Duration::from_secs(2)).unwrap();

    // Simulate a handshake still waiting on Discord while the user changes mode or exits.
    let started = Instant::now();
    presence.set(DiscordActivity::new()).unwrap();
    presence.clear().unwrap();
    presence.shutdown();
    drop(presence);
    let elapsed = started.elapsed();
    let _ = release_tx.send(());
    assert!(
        elapsed < Duration::from_millis(250),
        "UI dispatch waited {elapsed:?} for Discord"
    );
    runtime.shutdown_timeout(Duration::from_secs(3));
}

#[test]
fn clear_supersedes_status_updates_queued_during_a_slow_handshake() {
    let (handled_tx, handled_rx) = mpsc::channel();
    let (release_tx, release_rx) = mpsc::channel();
    let mut first = true;
    let (presence, runtime) = start(move |request| {
        let _ = handled_tx.send(matches!(request, Request::Clear));
        if first {
            first = false;
            let _ = release_rx.recv_timeout(Duration::from_secs(3));
        }
    });
    presence.set(DiscordActivity::new()).unwrap();
    assert!(!handled_rx.recv_timeout(Duration::from_secs(2)).unwrap());
    presence.set(DiscordActivity::new()).unwrap();
    presence.set(DiscordActivity::new()).unwrap();
    presence.clear().unwrap();
    release_tx.send(()).unwrap();
    assert!(handled_rx.recv_timeout(Duration::from_secs(2)).unwrap());
    assert!(handled_rx.try_recv().is_err());
    drop(presence);
    runtime.shutdown_timeout(Duration::from_secs(3));
}

#[test]
fn requests_that_waited_are_skipped_for_the_last() {
    let (presence, worker) = DiscordPresence::new();
    for details in ["a", "b", "c"] {
        let mut activity = DiscordActivity::new();
        activity.details = Some(details.to_string());
        presence.set(activity).unwrap();
    }
    let mut worker = worker;
    let mut steps: usize = 0;
    loop {
        steps += 1;
        match worker.advance() {
            WorkerAction::Continue => {}
            WorkerAction::Handle(Request::Update(activity)) => {
                assert_eq!(activity.details.as_deref(), Some("c"));
                break;
            }
            _ => panic!("nothing else was asked for"),
        }
    }
    assert_eq!(steps, 4);
}

#[test]
fn shutdown_stops_the_worker_before_it_handles_anything() {
    let (presence, worker) = DiscordPresence::new();
    presence.clear().unwrap();
    presence.shutdown();
    presence.clear().unwrap();
    let mut handled: usize = 0;
    run_worker(worker, |_| handled += 1);
    assert_eq!(handled, 0);
}

#[test]
fn dropping_the_asking_side_stops_the_worker() {
    let (presence, worker) = DiscordPresence::new();
    presence.clear().unwrap();
    drop(presence);
    let mut handled: usize = 0;
    run_worker(worker, |_| handled += 1);
    assert_eq!(handled, 0);
}

#[test]
fn requests_without_a_worker_are_refused() {
    let (presence, worker) = DiscordPresence::new();
    drop(worker);
    assert_eq!(
        presence.set(DiscordActivity::new()),
        Err("Discord worker is unavailable.".to_string())
    );
    assert_eq!(presence.clear(), Err("Discord worker is unavailable.".to_string()));
    presence.shutdown();
    assert_eq!(send_result(Ok(())), Ok(()));
    assert_eq!(
        send_result(Err(Request::Clear)),
        Err("Discord worker is unavailable.".to_string())
    );
}

#[test]
fn worker_steps() {
    let (_presence, mut worker) = DiscordPresence::new();
    assert!(matches!(
        worker.step(WorkerEvent::Received(Request::Update(DiscordActivity::new()))),
        WorkerAction::Continue
    ));
    assert!(matches!(
        worker.step(WorkerEvent::Received(Request::Clear)),
        WorkerAction::Continue
    ));
    assert!(matches!(
        worker.step(WorkerEvent::Nothing),
        WorkerAction::Handle(Request::Clear)
    ));
    assert!(matches!(worker.step(WorkerEvent::Nothing), WorkerAction::Stop));
    assert!(matches!(
        worker.step(WorkerEvent::Received(Request::Clear)),
        WorkerAction::Stop
    ));
}

#[test]
fn handled_requests_are_received_ones_in_order() {
    let named = |details: &str| {
        let mut activity = DiscordActivity::new();
        activity.details = Some(details.to_string());
        WorkerEvent::Received(Request::Update(activity))
    };
    let (_presence, mut worker) = DiscordPresence::new();
    let mut handled: Vec<String> = Vec::new();
    for event in [
        named("a"),
        WorkerEvent::Nothing,
        named("b"),
        named("c"),
        WorkerEvent::Nothing,
        named("d"),
        WorkerEvent::Received(Request::Shutdown),
        named("e"),
        WorkerEvent::Nothing,
    ] {
        if let WorkerAction::Handle(Request::Update(activity)) = worker.step(event) {
            handled.push(activity.details.unwrap());
        }
    }
    assert_eq!(handled, vec!["a", "c"]);
}

#[test]
fn update_on_a_connection() {
    let (mut update, action) = PresenceUpdate::begin(true);
    assert_eq!(action, UpdateAction::SetActivity);
    assert_eq!(
        update.step(UpdateEvent::Taken),
        UpdateAction::Finish { keep_connection: true }
    );
    assert_eq!(update.step(UpdateEvent::Taken), UpdateAction::Ignore);
}

#[test]
fn clearing_needs_a_connection_and_makes_none() {
    assert_eq!(clear_action(true), ClearAction::ClearAndDrop);
    assert_eq!(clear_action(false), ClearAction::LeaveAlone);
}

#[test]
fn update_is_tried_twice() {
    let (mut update, action) = PresenceUpdate::begin(true);
    assert_eq!(action, UpdateAction::SetActivity);
    assert_eq!(update.step(UpdateEvent::SetFailed), UpdateAction::Connect);
    assert_eq!(update.step(UpdateEvent::Connected), UpdateAction::SetActivity);
    assert_eq!(
        update.step(UpdateEvent::SetFailed),
        UpdateAction::Finish { keep_connection: false }
    );
}

#[test]
fn update_without_discord_is_given_up() {
    let (mut update, action) = PresenceUpdate::begin(false);
    assert_eq!(action, UpdateAction::Connect);
    assert_eq!(
        update.step(UpdateEvent::ConnectFailed),
        UpdateAction::Finish { keep_connection: false }
    );
    let (mut update, _) = PresenceUpdate::begin(false);
    assert_eq!(update.step(UpdateEvent::Connected), UpdateAction::SetActivity);
    assert_eq!(update.step(UpdateEvent::SetFailed), UpdateAction::Connect);
    assert_eq!(
        update.step(UpdateEvent::ConnectFailed),
        UpdateAction::Finish { keep_connection: false }
    );
}
