use audioman::audio::{Session, State};
use audioman::devices::{wide, DeviceInfo, Role};
use audioman::dialog::{
    controls, populate, resolve_selection, selected_index, title, Choice, ControlKind,
    DeviceSelection, DialogState, DEFAULT_ITEM_LABEL, ID_CANCEL, ID_INPUT, ID_OK, ID_OUTPUT,
    VK_ESCAPE, VK_RETURN, WM_CLOSE, WM_COMMAND,
};
use audioman::picker::{
    apply_selection, chosen, open_device_dialog, preselect, ApplyStep, Target,
};
use audioman::routing::{
    acquire, app_device_id, assignment, endpoint_path, flow_for, persisted_lookup, set_app_device,
    AcquireStep, Flow, RouteStep,
};

const ID: &str = "{0.0.0.00000000}.{b3f8fa53-0004-438e-9003-51a46e139bfc}";

fn device(id: &str, name: &str) -> DeviceInfo {
    DeviceInfo { id: wide(id), name: name.to_string() }
}

fn devices() -> Vec<DeviceInfo> {
    vec![device("one", "Speakers"), device(ID, "HDMI")]
}

fn on(id: &str, name: &str) -> Choice {
    Choice::Device { id: wide(id), name: name.to_string() }
}

#[test]
fn directions() {
    assert_eq!(flow_for(true), Flow::Capture);
    assert_eq!(flow_for(false), Flow::Render);
}

#[test]
fn device_path_of_an_endpoint() {
    assert_eq!(
        endpoint_path(&wide("id"), false),
        r"\\?\SWD#MMDEVAPI#id#{e6327cad-dcec-4949-ae8a-991e976a79d2}"
    );
    assert_eq!(
        endpoint_path(&wide("id"), true),
        r"\\?\SWD#MMDEVAPI#id#{2eef81be-33fa-4800-9670-1cd474972c3f}"
    );
}

#[test]
fn an_assignment_is_read_back() {
    for input in [false, true] {
        for id in [ID, "a#b"] {
            let path = endpoint_path(&wide(id), input);
            assert_eq!(app_device_id(7, Some(&path)).as_deref(), Some(id));
        }
        let path = endpoint_path(&wide(""), input);
        assert_eq!(app_device_id(7, Some(&path)), None);
    }
}

#[test]
fn paths_of_another_form() {
    assert_eq!(app_device_id(7, None), None);
    assert_eq!(app_device_id(7, Some("")), None);
    assert_eq!(app_device_id(7, Some("id#{x}")), None);
    assert_eq!(app_device_id(7, Some(r"\\?\SWD#MMDEVAPI#")), None);
    assert_eq!(app_device_id(7, Some(r"\\?\SWD#MMDEVAPI#id")), None);
    assert_eq!(app_device_id(7, Some(r"\\?\SWD#MMDEVAPI##{x}")), None);
    assert_eq!(app_device_id(7, Some(r"\\?\swd#mmdevapi#id#{x}")), None);
    assert_eq!(app_device_id(7, Some(r"\\?\SWD#MMDEVAPI#id#{x}")).as_deref(), Some("id"));
}

#[test]
fn process_zero_is_not_routed() {
    let path = endpoint_path(&wide("id"), false);
    assert_eq!(app_device_id(0, Some(&path)), None);
    assert_eq!(persisted_lookup(0, true), None);
    assert_eq!(set_app_device(0, false, Some(&wide("id")), &[]), RouteStep::Done(false));
}

#[test]
fn an_assignment_has_a_direction_and_a_path() {
    let id = wide("id");
    assert_eq!(
        assignment(Some(&id), true),
        (Flow::Capture, Some(endpoint_path(&id, true)))
    );
    assert_eq!(
        assignment(Some(&id), false),
        (Flow::Render, Some(endpoint_path(&id, false)))
    );
    assert_eq!(assignment(None, true), (Flow::Capture, None));
    assert_eq!(assignment(None, false), (Flow::Render, None));
}

#[test]
fn assignments_are_looked_up_for_multimedia() {
    assert_eq!(persisted_lookup(7, true), Some((Flow::Capture, Role::Multimedia)));
    assert_eq!(persisted_lookup(7, false), Some((Flow::Render, Role::Multimedia)));
}

#[test]
fn both_roles_are_assigned() {
    let id = wide("id");
    let step = |outcomes: &[bool]| set_app_device(7, true, Some(&id), outcomes);
    let assign = |role| RouteStep::Assign {
        flow: Flow::Capture,
        role,
        path: Some(endpoint_path(&wide("id"), true)),
    };
    assert_eq!(step(&[]), RouteStep::Acquire);
    assert_eq!(step(&[true]), assign(Role::Console));
    assert_eq!(step(&[true, true]), assign(Role::Multimedia));
    assert_eq!(step(&[true, true, true]), RouteStep::Done(true));
}

#[test]
fn no_endpoint_clears_the_assignment() {
    assert_eq!(
        set_app_device(7, false, None, &[true, true]),
        RouteStep::Assign { flow: Flow::Render, role: Role::Multimedia, path: None }
    );
}

#[test]
fn routing_stops_at_the_first_failure() {
    let step = |outcomes: &[bool]| set_app_device(7, false, None, outcomes);
    assert_eq!(step(&[false]), RouteStep::Done(false));
    assert_eq!(step(&[true, false]), RouteStep::Done(false));
    assert_eq!(step(&[true, true, false]), RouteStep::Done(false));
}

#[test]
fn the_older_interface_is_a_fallback() {
    assert_eq!(acquire(AcquireStep::Current, true), AcquireStep::Acquired);
    assert_eq!(acquire(AcquireStep::Current, false), AcquireStep::Unknown);
    assert_eq!(acquire(AcquireStep::Unknown, true), AcquireStep::Downlevel);
    assert_eq!(acquire(AcquireStep::Unknown, false), AcquireStep::Unavailable);
    assert_eq!(acquire(AcquireStep::Downlevel, true), AcquireStep::Acquired);
    assert_eq!(acquire(AcquireStep::Downlevel, false), AcquireStep::Unavailable);
    assert_eq!(acquire(AcquireStep::Acquired, false), AcquireStep::Acquired);
    assert_eq!(acquire(AcquireStep::Unavailable, true), AcquireStep::Unavailable);
}

#[test]
fn picking_needs_an_application() {
    let sessions = vec![Session { id: 4, name: "vlc".to_string(), pid: 50 }];
    let state = State { sessions, selection: Some(4) };
    assert_eq!(
        open_device_dialog(&state),
        Ok(Target { pid: 50, app_name: "vlc".to_string() })
    );
    let state = State { sessions: vec![], selection: Some(4) };
    assert_eq!(open_device_dialog(&state), Err("Select an application first".to_string()));
}

#[test]
fn the_present_routing_is_preselected() {
    assert_eq!(preselect(&devices(), None), 0);
    assert_eq!(preselect(&devices(), Some("other")), 0);
    assert_eq!(preselect(&devices(), Some("one")), 1);
    assert_eq!(preselect(&devices(), Some("ONE")), 1);
    assert_eq!(preselect(&devices(), Some(&ID.to_uppercase())), 2);
    assert_eq!(preselect(&[], Some("one")), 0);
}

#[test]
fn accepting_at_once_keeps_the_routing() {
    let path = endpoint_path(&wide(ID), false);
    let item = preselect(&devices(), app_device_id(7, Some(&path)).as_deref());
    assert_eq!(item, 2);
    assert_eq!(resolve_selection(item as isize, &devices()), on(ID, "HDMI"));
    let item = preselect(&devices(), None);
    assert_eq!(resolve_selection(item as isize, &devices()), Choice::Default);
}

#[test]
fn each_label_stands_before_its_list() {
    let all = controls();
    let kinds: Vec<ControlKind> = all.iter().map(|c| c.kind).collect();
    assert_eq!(
        kinds,
        vec![
            ControlKind::Label,
            ControlKind::Combo,
            ControlKind::Label,
            ControlKind::Combo,
            ControlKind::Button,
            ControlKind::Button,
        ]
    );
    let texts: Vec<&str> = all.iter().map(|c| c.text.as_str()).collect();
    assert_eq!(texts, vec!["Input device:", "", "Output device:", "", "OK", "Cancel"]);
    let ids: Vec<i32> = all.iter().map(|c| c.id).collect();
    assert_eq!(ids, vec![0, ID_INPUT, 0, ID_OUTPUT, ID_OK, ID_CANCEL]);
}

#[test]
fn controls_are_placed() {
    let places: Vec<(i32, i32, i32, i32)> =
        controls().iter().map(|c| (c.x, c.y, c.width, c.height)).collect();
    assert_eq!(
        places,
        vec![
            (12, 12, 330, 16),
            (12, 30, 330, 220),
            (12, 66, 330, 16),
            (12, 84, 330, 220),
            (178, 150, 80, 26),
            (262, 150, 80, 26),
        ]
    );
}

#[test]
fn title_names_the_application() {
    assert_eq!(title("vlc"), "Audio devices for vlc");
}

#[test]
fn lists_start_with_the_default() {
    let (items, selected) = populate(&devices(), 2);
    assert_eq!(items, vec!["Default", "Speakers", "HDMI"]);
    assert_eq!(items[0], DEFAULT_ITEM_LABEL);
    assert_eq!(selected, 2);
    assert_eq!(populate(&devices(), 3).1, 0);
    assert_eq!(populate(&[], 0), (vec!["Default".to_string()], 0));
}

#[test]
fn an_item_is_its_choice() {
    assert_eq!(selected_index(-1), None);
    assert_eq!(selected_index(0), Some(0));
    assert_eq!(resolve_selection(-1, &devices()), Choice::Default);
    assert_eq!(resolve_selection(0, &devices()), Choice::Default);
    assert_eq!(resolve_selection(1, &devices()), on("one", "Speakers"));
    assert_eq!(resolve_selection(2, &devices()), on(ID, "HDMI"));
    assert_eq!(resolve_selection(3, &devices()), Choice::Default);
    assert_eq!(resolve_selection(isize::MAX, &devices()), Choice::Default);
}

fn over(accepted: bool) -> DialogState {
    DialogState { accepted, done: true }
}

#[test]
fn enter_and_escape_end_the_dialog() {
    let mut d = DialogState::new();
    assert_eq!(d, DialogState { accepted: false, done: false });
    assert!(d.key_down(VK_RETURN, false, false));
    assert_eq!(d, over(true));
    let mut d = DialogState::new();
    assert!(d.key_down(VK_RETURN, false, true));
    assert_eq!(d, over(false));
    let mut d = DialogState::new();
    assert!(d.key_down(VK_ESCAPE, false, false));
    assert_eq!(d, over(false));
}

#[test]
fn an_open_list_has_the_keys() {
    let mut d = DialogState::new();
    assert!(!d.key_down(VK_RETURN, true, false));
    assert!(!d.key_down(VK_ESCAPE, true, false));
    assert!(!d.key_down(0x41, false, false));
    assert_eq!(d, DialogState::new());
}

#[test]
fn window_messages_end_the_dialog() {
    let mut d = DialogState::new();
    assert!(d.window_message(WM_COMMAND, 1));
    assert_eq!(d, over(true));
    let mut d = DialogState::new();
    // The notification stands in the high word.
    assert!(d.window_message(WM_COMMAND, 0x0005_0002));
    assert_eq!(d, over(false));
    let mut d = DialogState::new();
    assert!(d.window_message(WM_CLOSE, 1));
    assert_eq!(d, over(false));
    let mut d = DialogState::new();
    assert!(!d.window_message(WM_COMMAND, 1001));
    assert!(!d.window_message(0x0001, 1));
    assert_eq!(d, DialogState::new());
    d.finish(true);
    assert_eq!(d, over(true));
}

#[test]
fn outcome_of_the_dialog() {
    let list = devices();
    assert_eq!(over(false).outcome(1, &list, 2, &list), None);
    assert_eq!(
        over(true).outcome(0, &list, 2, &list),
        Some(DeviceSelection { input: Choice::Default, output: on(ID, "HDMI") })
    );
}

fn app() -> Target {
    Target { pid: 50, app_name: "vlc".to_string() }
}

fn system() -> Target {
    Target { pid: 0, app_name: "System sounds".to_string() }
}

fn say(text: &str) -> ApplyStep {
    ApplyStep::Say(text.to_string())
}

fn to_hdmi() -> ApplyStep {
    ApplyStep::Route { input: false, id: Some(wide(ID)) }
}

#[test]
fn the_chosen_device_has_its_id() {
    let sel = DeviceSelection { input: Choice::Default, output: on(ID, "HDMI") };
    assert_eq!(chosen(&sel, false), Some(wide(ID)));
    assert_eq!(chosen(&sel, true), None);
    let sel = DeviceSelection { input: on("m", "Mic"), output: Choice::Default };
    assert_eq!(chosen(&sel, false), None);
    assert_eq!(chosen(&sel, true), Some(wide("m")));
}

#[test]
fn an_application_is_routed_both_ways() {
    let sel = DeviceSelection { input: Choice::Default, output: on(ID, "HDMI") };
    assert_eq!(apply_selection(&app(), &sel, &[]), to_hdmi());
    assert_eq!(apply_selection(&app(), &sel, &[false]), ApplyStep::Route { input: true, id: None });
    assert_eq!(
        apply_selection(&app(), &sel, &[true, true]),
        say("vlc: output HDMI, input default")
    );
    assert_eq!(
        apply_selection(&app(), &sel, &[false, true]),
        say("vlc: output failed, input default")
    );
    assert_eq!(
        apply_selection(&app(), &sel, &[true, false]),
        say("vlc: output HDMI, input failed")
    );
}

#[test]
fn system_sounds_change_the_defaults() {
    let sel = DeviceSelection { input: on("m", "Mic"), output: on(ID, "HDMI") };
    assert_eq!(apply_selection(&system(), &sel, &[]), ApplyStep::SetDefault { input: false, id: wide(ID) });
    assert_eq!(apply_selection(&system(), &sel, &[false]), ApplyStep::SetDefault { input: true, id: wide("m") });
    assert_eq!(
        apply_selection(&system(), &sel, &[true, true]),
        say("Set default output HDMI, default input Mic")
    );
    assert_eq!(apply_selection(&system(), &sel, &[true, false]), say("Set default output HDMI"));
    assert_eq!(apply_selection(&system(), &sel, &[false, true]), say("Set default input Mic"));
    assert_eq!(apply_selection(&system(), &sel, &[false, false]), say("No devices changed"));
}

#[test]
fn unchosen_defaults_stay() {
    let sel = DeviceSelection { input: Choice::Default, output: Choice::Default };
    assert_eq!(apply_selection(&system(), &sel, &[]), say("No devices changed"));
    let sel = DeviceSelection { input: on("m", "Mic"), output: Choice::Default };
    assert_eq!(apply_selection(&system(), &sel, &[]), ApplyStep::SetDefault { input: true, id: wide("m") });
    assert_eq!(apply_selection(&system(), &sel, &[true]), say("Set default input Mic"));
    let sel = DeviceSelection { input: Choice::Default, output: on(ID, "HDMI") };
    assert_eq!(apply_selection(&system(), &sel, &[true]), say("Set default output HDMI"));
    assert_eq!(apply_selection(&system(), &sel, &[false]), say("No devices changed"));
}
