use audioman::attach::AttachReply::{self, Failed, Sessions, Worked};
use audioman::attach::AttachStep;
use audioman::audio::{
    add_session, process_name, remove_session, restore_all_max, state_changed, AudioManager,
    Reset, Session, State, AUDIO_SESSION_STATE_EXPIRED,
};
use audioman::control::{
    announce_current, application_mode_text, apply_volume, navigate, toggle_mute, Level,
};
use audioman::hotkeys::VolumeChange;
use audioman::utf16::encode_utf16;

fn session(id: u64, name: &str, pid: u32) -> Session {
    Session { id, name: name.to_string(), pid }
}

fn state(list: &[(u64, &str, u32)], selection: Option<u64>) -> State {
    State {
        sessions: list.iter().map(|(id, name, pid)| session(*id, name, *pid)).collect(),
        selection,
    }
}

fn three(selection: Option<u64>) -> State {
    state(&[(1, "System sounds", 0), (2, "firefox", 40), (3, "vlc", 50)], selection)
}

#[test]
fn current_is_found_by_id() {
    assert_eq!(three(None).current_index(), None);
    assert_eq!(three(Some(3)).current_index(), Some(2));
    assert_eq!(three(Some(9)).current_index(), None);
    assert_eq!(three(Some(2)).current(), Some(&session(2, "firefox", 40)));
    assert_eq!(three(Some(9)).current(), None);
}

#[test]
fn a_new_application_is_appended() {
    let mut s = three(Some(2));
    add_session(&mut s, 4, 60, Some("game".to_string()));
    assert_eq!(s.sessions.len(), 4);
    assert_eq!(s.sessions[3], session(4, "game", 60));
    assert_eq!(s.selection, Some(2));
}

#[test]
fn an_unreadable_process_is_named_by_number() {
    let mut s = state(&[], None);
    add_session(&mut s, 4, 4711, None);
    assert_eq!(s.sessions[0].name, "Process 4711");
}

#[test]
fn a_moved_application_replaces_its_session() {
    let mut s = three(Some(2));
    add_session(&mut s, 7, 40, Some("firefox".to_string()));
    let expected = state(&[(1, "System sounds", 0), (3, "vlc", 50), (7, "firefox", 40)], Some(7));
    assert_eq!(s, expected);
    // The old session's late expiry finds nothing.
    state_changed(&mut s, 2, AUDIO_SESSION_STATE_EXPIRED);
    assert_eq!(s, expected);
}

#[test]
fn selection_stays_when_another_application_moves() {
    let mut s = three(Some(3));
    add_session(&mut s, 7, 40, Some("firefox".to_string()));
    assert_eq!(s.current(), Some(&session(3, "vlc", 50)));
}

#[test]
fn system_sounds_keep_one_entry() {
    let mut s = state(&[], None);
    add_session(&mut s, 1, 0, None);
    add_session(&mut s, 2, 0, Some("ignored".to_string()));
    assert_eq!(s, state(&[(1, "System sounds", 0)], None));
}

#[test]
fn a_removed_session_loses_the_selection() {
    let mut s = three(Some(2));
    remove_session(&mut s, 2);
    assert_eq!(s, state(&[(1, "System sounds", 0), (3, "vlc", 50)], None));
    let mut s = three(Some(3));
    remove_session(&mut s, 2);
    assert_eq!(s.selection, Some(3));
    let mut s = three(Some(3));
    remove_session(&mut s, 9);
    assert_eq!(s, three(Some(3)));
}

#[test]
fn only_expiry_removes() {
    for reported in [0, 1, 3, -1] {
        let mut s = three(Some(2));
        state_changed(&mut s, 2, reported);
        assert_eq!(s, three(Some(2)));
    }
    let mut s = three(Some(2));
    state_changed(&mut s, 2, 2);
    assert_eq!(s.sessions.len(), 2);
}

#[test]
fn process_name_from_image_path() {
    let units = encode_utf16("C:\\Windows\\explorer.exe");
    assert_eq!(process_name(Some(&units)).as_deref(), Some("explorer"));
    assert_eq!(process_name(Some(&[])), None);
    assert_eq!(process_name(None), None);
    let units = encode_utf16("C:\\a\\..");
    assert_eq!(process_name(Some(&units)).as_deref(), Some("C:\\a\\.."));
}

#[test]
fn resetting_touches_every_entry() {
    let full = |id| Reset { id, volume: VolumeChange::To(100), mute: false };
    assert_eq!(restore_all_max(&three(None)), vec![full(1), full(2), full(3)]);
    assert_eq!(restore_all_max(&three(Some(2))), vec![full(1), full(2), full(3)]);
    assert_eq!(restore_all_max(&state(&[], None)), vec![]);
}

#[test]
fn ids_start_at_one_and_are_never_reused() {
    let mut m = AudioManager::new();
    assert_eq!(m.reserve_id(), 1);
    assert_eq!(m.reserve_id(), 2);
    m.detach_all();
    assert_eq!(m.reserve_id(), 3);
    m.next_id = u64::MAX;
    assert_eq!(m.reserve_id(), u64::MAX);
    assert_eq!(m.next_id, 0);
}

fn manager(s: State) -> AudioManager {
    AudioManager { state: s, next_id: 10 }
}

#[test]
fn rebuild_finds_the_process_again() {
    let mut m = manager(three(Some(2)));
    let previous = m.remember();
    assert_eq!(previous, Some((40, "firefox".to_string())));
    assert_eq!(m.detach_all(), vec![1, 2, 3]);
    assert_eq!(m.state, state(&[], None));
    m.state = state(&[(10, "vlc", 50), (11, "firefox", 41), (12, "firefox", 40)], None);
    m.rebuild(previous);
    assert_eq!(m.state.selection, Some(12));
}

#[test]
fn rebuild_falls_back_to_the_name() {
    let mut m = manager(three(Some(2)));
    let previous = m.remember();
    m.state = state(&[(10, "vlc", 50), (11, "firefox", 41), (12, "firefox", 42)], None);
    m.rebuild(previous);
    assert_eq!(m.state.selection, Some(11));
}

#[test]
fn rebuild_drops_what_is_gone() {
    let mut m = manager(three(Some(2)));
    let previous = m.remember();
    m.state = state(&[(10, "vlc", 50)], Some(10));
    m.rebuild(previous);
    assert_eq!(m.state.selection, None);

    let mut m = manager(three(None));
    assert_eq!(m.remember(), None);
    m.rebuild(None);
    assert_eq!(m.state.selection, None);
}

#[test]
fn navigation_stops_at_the_ends() {
    let mut s = three(None);
    assert_eq!(navigate(&mut s, 1), None);
    assert_eq!(s.selection, Some(1));
    navigate(&mut s, -1);
    assert_eq!(s.selection, Some(1));
    navigate(&mut s, 1);
    navigate(&mut s, 1);
    assert_eq!(s.selection, Some(3));
    navigate(&mut s, 1);
    assert_eq!(s.selection, Some(3));
    navigate(&mut s, i32::MIN);
    assert_eq!(s.selection, Some(1));
    navigate(&mut s, i32::MAX);
    assert_eq!(s.selection, Some(3));
}

#[test]
fn navigation_there_and_back() {
    let mut s = three(Some(2));
    navigate(&mut s, 1);
    navigate(&mut s, -1);
    assert_eq!(s, three(Some(2)));
}

#[test]
fn navigation_starts_over_from_a_lost_selection() {
    let mut s = three(Some(9));
    navigate(&mut s, 1);
    assert_eq!(s.selection, Some(1));
}

#[test]
fn nothing_to_navigate() {
    let mut s = state(&[], None);
    assert_eq!(navigate(&mut s, 1).as_deref(), Some("No audio applications"));
    assert_eq!(s, state(&[], None));
}

#[test]
fn announcement_of_the_selected_application() {
    let s = three(Some(2));
    assert_eq!(announce_current(&s, 56, false).as_deref(), Some("firefox, 56 percent"));
    assert_eq!(announce_current(&s, 100, true).as_deref(), Some("muted, firefox, 100 percent"));
    assert_eq!(announce_current(&three(None), 56, false), None);
}

fn level(percent: i32) -> Level {
    Level { percent, at_maximum: percent == 100, at_minimum: percent == 0 }
}

#[test]
fn volume_of_the_selected_application() {
    let s = three(Some(2));
    assert_eq!(apply_volume(&s, level(52)), (Some(2), "52 percent".to_string()));
    assert_eq!(apply_volume(&s, level(100)), (Some(2), "100 percent maximum".to_string()));
    assert_eq!(apply_volume(&s, level(0)), (Some(2), "0 percent minimum".to_string()));
    // Rounding to 100 does not make it the maximum.
    let below = Level { percent: 100, at_maximum: false, at_minimum: false };
    assert_eq!(apply_volume(&s, below), (Some(2), "100 percent".to_string()));
    assert_eq!(
        apply_volume(&three(None), level(52)),
        (None, "Select an application first".to_string())
    );
}

#[test]
fn mute_of_the_selected_application() {
    let s = three(Some(3));
    assert_eq!(toggle_mute(&s, false), (Some((3, true)), "muted vlc".to_string()));
    assert_eq!(toggle_mute(&s, true), (Some((3, false)), "unmuted vlc".to_string()));
    assert_eq!(
        toggle_mute(&three(None), true),
        (None, "Select an application first".to_string())
    );
}

#[test]
fn application_mode_names_the_application() {
    assert_eq!(application_mode_text(&three(Some(2))), "Application mode, firefox");
    assert_eq!(application_mode_text(&three(None)), "Application mode");
}

fn attach(endpoints: u32, replies: &[AttachReply]) -> Vec<AttachStep> {
    let mut steps = vec![AttachStep::first(endpoints)];
    for reply in replies {
        let last = steps[steps.len() - 1];
        steps.push(last.next(endpoints, *reply));
    }
    steps
}

#[test]
fn no_endpoint_to_attach() {
    assert_eq!(AttachStep::first(0), AttachStep::Done);
    assert_eq!(AttachStep::Done.next(3, AttachReply::Worked), AttachStep::Done);
}

#[test]
fn endpoints_are_attached_in_order() {
    let steps = attach(2, &[Worked, Worked, Worked, Sessions(2), Worked, Worked, Worked]);
    assert_eq!(
        steps,
        vec![
            AttachStep::Item(0),
            AttachStep::Activate(0),
            AttachStep::Register(0),
            AttachStep::Enumerate(0),
            AttachStep::Add { endpoint: 0, at: 0, count: 2 },
            AttachStep::Add { endpoint: 0, at: 1, count: 2 },
            AttachStep::Keep(0),
            AttachStep::Item(1),
        ]
    );
}

#[test]
fn a_failing_endpoint_is_left_out() {
    assert_eq!(attach(2, &[Failed])[1], AttachStep::Item(1));
    assert_eq!(attach(2, &[Worked, Failed])[2], AttachStep::Item(1));
    assert_eq!(attach(2, &[Worked, Worked, Failed])[3], AttachStep::Item(1));
    assert_eq!(attach(1, &[Failed])[1], AttachStep::Done);
}

#[test]
fn an_endpoint_without_sessions_is_kept() {
    assert_eq!(attach(1, &[Worked, Worked, Worked, Failed])[4], AttachStep::Keep(0));
    assert_eq!(attach(1, &[Worked, Worked, Worked, Sessions(0)])[4], AttachStep::Keep(0));
    assert_eq!(attach(1, &[Worked, Worked, Worked, Sessions(-1)])[4], AttachStep::Keep(0));
    assert_eq!(AttachStep::Keep(0).next(1, Worked), AttachStep::Done);
}

#[test]
fn a_whole_run_keeps_the_endpoints_that_work() {
    // Endpoint 0 cannot be activated, 1 has two sessions, 2 cannot be asked for
    // its sessions, and 3 cannot be registered with.
    let reply = |step: AttachStep| match step {
        AttachStep::Activate(0) | AttachStep::Enumerate(2) | AttachStep::Register(3) => Failed,
        AttachStep::Enumerate(1) => Sessions(2),
        _ => Worked,
    };
    let mut step = AttachStep::first(4);
    let mut kept = Vec::new();
    let mut added = Vec::new();
    while step != AttachStep::Done {
        match step {
            AttachStep::Keep(i) => kept.push(i),
            AttachStep::Add { endpoint, at, .. } => added.push((endpoint, at)),
            _ => {}
        }
        step = step.next(4, reply(step));
    }
    assert_eq!(kept, vec![1, 2]);
    assert_eq!(added, vec![(1, 0), (1, 1)]);
}

#[test]
fn a_session_that_cannot_be_added_is_passed_over() {
    let add = AttachStep::Add { endpoint: 0, at: 0, count: 2 };
    let next = AttachStep::Add { endpoint: 0, at: 1, count: 2 };
    assert_eq!(add.next(1, AttachReply::Failed), next);
    assert_eq!(next.next(1, AttachReply::Failed), AttachStep::Keep(0));
}
