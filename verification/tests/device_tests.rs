use audioman::control::{
    apply_device_volume, device_description, device_mode_text, navigate_devices,
    toggle_device_enabled, toggle_device_mute, DeviceNav, DeviceStep, Level,
};
use audioman::devices::{
    all_endpoints, copy_units, enumerate, id_string, pwstr_to_vec, set_default, wide, DeviceInfo, Endpoint,
    RawEndpoint, Role, RoleStep,
};
use audioman::enumeration::{
    default_output_query, device_mode_query, endpoint_states, picker_query, session_query, Query,
};
use audioman::routing::Flow;
use windows::Win32::Media::Audio::{DEVICE_STATE_ACTIVE, DEVICE_STATE_DISABLED};

fn raw(id: &str, name: Option<&str>, state: Option<u32>) -> Option<RawEndpoint> {
    Some(RawEndpoint {
        id: Some(id.encode_utf16().collect()),
        name: name.map(|n| n.to_string()),
        state,
    })
}

fn endpoint(id: &str, name: &str, is_input: bool, enabled: bool) -> Endpoint {
    Endpoint { id: wide(id), name: name.to_string(), is_input, enabled }
}

#[test]
fn device_mode_asks_for_disabled_endpoints_too() {
    assert_eq!(endpoint_states(true), DEVICE_STATE_ACTIVE.0 | DEVICE_STATE_DISABLED.0);
    assert_eq!(endpoint_states(false), DEVICE_STATE_ACTIVE.0);
    assert_eq!(
        device_mode_query(false),
        Query { flow: Flow::Render, states: endpoint_states(true) }
    );
    assert_eq!(
        device_mode_query(true),
        Query { flow: Flow::Capture, states: endpoint_states(true) }
    );
}

#[test]
fn the_picker_and_the_sessions_ask_for_active_endpoints() {
    let active = |flow| Query { flow, states: DEVICE_STATE_ACTIVE.0 };
    assert_eq!(picker_query(false), active(Flow::Render));
    assert_eq!(picker_query(true), active(Flow::Capture));
    assert_eq!(session_query(), active(Flow::Render));
}

#[test]
fn the_default_output_is_that_of_the_console() {
    assert_eq!(default_output_query(), (Flow::Render, Role::Console));
}

#[test]
fn state_bits_are_the_systems() {
    assert_eq!(audioman::devices::DEVICE_STATE_ACTIVE, DEVICE_STATE_ACTIVE.0);
    assert_eq!(audioman::devices::DEVICE_STATE_DISABLED, DEVICE_STATE_DISABLED.0);
}

/// What the system reports about a query.
fn answer(system: &[(&str, bool, u32)], query: Query) -> Vec<Option<RawEndpoint>> {
    system
        .iter()
        .filter(|(_, input, state)| {
            (query.flow == Flow::Capture) == *input && state & query.states != 0
        })
        .map(|(id, _, state)| raw(id, Some(id), Some(*state)))
        .collect()
}

#[test]
fn a_disabled_endpoint_stays_listed() {
    let active = DEVICE_STATE_ACTIVE.0;
    let disabled = DEVICE_STATE_DISABLED.0;
    let list = |system: &[(&str, bool, u32)]| {
        all_endpoints(
            &answer(system, device_mode_query(false)),
            &answer(system, device_mode_query(true)),
        )
    };
    // The last one is unplugged and in no list.
    let mut system = [("m", true, active), ("s", false, active), ("u", false, 8)];
    let before = vec![endpoint("s", "s", false, true), endpoint("m", "m", true, true)];
    assert_eq!(list(&system), before);
    assert_eq!(enumerate(&answer(&system, picker_query(true))).len(), 1);
    system[0].2 = disabled;
    assert_eq!(
        list(&system),
        vec![endpoint("s", "s", false, true), endpoint("m", "m", true, false)]
    );
    assert_eq!(enumerate(&answer(&system, picker_query(true))), vec![]);
    system[0].2 = active;
    assert_eq!(list(&system), before);
}

#[test]
fn wide_ends_in_a_null() {
    assert_eq!(wide("A\u{1F50A}"), vec![0x41, 0xD83D, 0xDD0A, 0]);
    assert_eq!(wide(""), vec![0]);
}

#[test]
fn id_string_drops_one_terminator() {
    assert_eq!(id_string(&[0x41, 0x42, 0]), "AB");
    assert_eq!(id_string(&[0x41, 0x42]), "AB");
    assert_eq!(id_string(&[0x41, 0, 0]), "A\0");
    assert_eq!(id_string(&[0]), "");
    assert_eq!(id_string(&[]), "");
    assert_eq!(id_string(&[0xD800, 0]), "\u{FFFD}");
}

#[test]
fn wide_and_back() {
    for text in ["", "{0.0.0.00000000}.{guid}", "\u{1F50A}"] {
        assert_eq!(id_string(&wide(text)), text);
    }
}

#[test]
fn owned_ids_are_terminated() {
    assert_eq!(pwstr_to_vec(None), vec![0]);
    assert_eq!(pwstr_to_vec(Some(&[])), vec![0]);
    assert_eq!(pwstr_to_vec(Some(&[1, 2])), vec![1, 2, 0]);
    assert_eq!(pwstr_to_vec(Some(&[1, 0, 2])), vec![1, 0]);
}

#[test]
fn enumeration_skips_what_is_not_handed_out() {
    let rows = vec![raw("a", Some("Speakers"), None), None, raw("b", None, Some(1))];
    assert_eq!(
        enumerate(&rows),
        vec![
            DeviceInfo { id: wide("a"), name: "Speakers".to_string() },
            DeviceInfo { id: wide("b"), name: "Unknown device".to_string() },
        ]
    );
    assert_eq!(enumerate(&[]), vec![]);
}

#[test]
fn a_null_id_is_empty() {
    let rows = vec![Some(RawEndpoint { id: None, name: None, state: None })];
    assert_eq!(enumerate(&rows)[0].id, vec![0]);
}

#[test]
fn outputs_are_listed_before_inputs() {
    let outputs = vec![raw("a", Some("Speakers"), Some(1)), raw("b", Some("HDMI"), Some(2))];
    let inputs = vec![None, raw("c", Some("Mic"), Some(0x10000001)), raw("d", None, None)];
    assert_eq!(
        all_endpoints(&outputs, &inputs),
        vec![
            endpoint("a", "Speakers", false, true),
            endpoint("b", "HDMI", false, false),
            endpoint("c", "Mic", true, true),
            endpoint("d", "Unknown device", true, false),
        ]
    );
}

#[test]
fn default_is_set_for_every_role() {
    let id = wide("a");
    let assign = |role| RoleStep::Assign { id: wide("a"), role };
    assert_eq!(set_default(&id, &[]), RoleStep::Acquire);
    assert_eq!(set_default(&id, &[true]), assign(Role::Console));
    assert_eq!(set_default(&id, &[true, false]), assign(Role::Multimedia));
    assert_eq!(set_default(&id, &[true, true, false]), assign(Role::Communications));
    assert_eq!(set_default(&id, &[true, true, true, true]), RoleStep::Done(true));
    assert_eq!(set_default(&id, &[true, false, true, true]), RoleStep::Done(false));
    assert_eq!(set_default(&id, &[true, true, true, false]), RoleStep::Done(false));
}

#[test]
fn no_default_without_the_policy_object() {
    assert_eq!(set_default(&wide("a"), &[false]), RoleStep::Done(false));
}

#[test]
fn ids_are_copied() {
    assert_eq!(copy_units(&[1, 2, 0]), vec![1, 2, 0]);
    assert_eq!(copy_units(&[]), Vec::<u16>::new());
}

#[test]
fn the_selected_device_has_its_id() {
    assert_eq!(nav(Some("c")).selected_id(), Some(wide("c")));
    assert_eq!(nav(Some("x")).selected_id(), None);
    assert_eq!(nav(None).selected_id(), None);
}

fn list() -> Vec<Endpoint> {
    vec![
        endpoint("a", "Speakers", false, true),
        endpoint("b", "HDMI", false, false),
        endpoint("c", "Mic", true, true),
    ]
}

fn nav(selected: Option<&str>) -> DeviceNav {
    DeviceNav { devices: list(), selected: selected.map(wide) }
}

#[test]
fn a_new_navigation_is_empty() {
    let n = DeviceNav::new();
    assert_eq!(n.devices, vec![]);
    assert_eq!(n.selected, None);
    assert_eq!(n.index(), None);
    assert_eq!(n.current(), None);
}

#[test]
fn refreshing_keeps_the_selected_device() {
    let mut n = nav(Some("c"));
    n.refresh(vec![endpoint("c", "Microphone", true, false), endpoint("a", "Speakers", false, true)]);
    assert_eq!(n.index(), Some(0));
    assert_eq!(n.current().map(|e| e.name.as_str()), Some("Microphone"));
}

#[test]
fn refreshing_drops_a_device_that_is_gone() {
    let mut n = nav(Some("c"));
    n.refresh(vec![endpoint("a", "Speakers", false, true)]);
    assert_eq!(n.selected, None);
    assert_eq!(n.devices.len(), 1);
    let mut n = nav(None);
    n.refresh(list());
    assert_eq!(n, nav(None));
}

#[test]
fn device_mode_starts_on_the_default_output() {
    let mut n = nav(None);
    n.select_initial(Some(wide("b")));
    assert_eq!(n, nav(Some("b")));
}

#[test]
fn device_mode_starts_on_the_first_device_otherwise() {
    let mut n = nav(None);
    n.select_initial(Some(wide("x")));
    assert_eq!(n, nav(Some("a")));
    let mut n = nav(None);
    n.select_initial(None);
    assert_eq!(n, nav(Some("a")));
    let mut n = DeviceNav::new();
    n.select_initial(Some(wide("a")));
    assert_eq!(n.selected, None);
}

#[test]
fn device_mode_keeps_a_selection() {
    let mut n = nav(Some("c"));
    n.select_initial(Some(wide("a")));
    assert_eq!(n, nav(Some("c")));
}

#[test]
fn description_of_a_device() {
    let e = endpoint("a", "Speakers", false, true);
    assert_eq!(
        device_description(&e, Some(false), Some(40)),
        "Speakers, output, enabled, 40 percent"
    );
    assert_eq!(
        device_description(&e, Some(true), Some(100)),
        "Speakers, output, enabled, muted, 100 percent"
    );
    assert_eq!(device_description(&e, None, None), "Speakers, output, enabled");
    let e = endpoint("c", "Mic", true, false);
    assert_eq!(device_description(&e, Some(true), Some(40)), "Mic, input, disabled");
}

#[test]
fn devices_are_stepped_through() {
    let mut n = nav(None);
    assert_eq!(navigate_devices(&mut n, list(), -1), Ok(0));
    assert_eq!(navigate_devices(&mut n, list(), 1), Ok(1));
    assert_eq!(n, nav(Some("b")));
    assert_eq!(navigate_devices(&mut n, list(), 1), Ok(2));
    assert_eq!(navigate_devices(&mut n, list(), 1), Ok(2));
    assert_eq!(navigate_devices(&mut n, list(), -1), Ok(1));
    assert_eq!(navigate_devices(&mut n, list(), i32::MIN), Ok(0));
}

#[test]
fn no_devices_to_step_through() {
    let mut n = nav(Some("b"));
    assert_eq!(navigate_devices(&mut n, vec![], 1), Err("No audio devices".to_string()));
    assert_eq!(n, DeviceNav::new());
}

fn say(text: &str) -> DeviceStep {
    DeviceStep::Say(text.to_string())
}

#[test]
fn device_volume_steps() {
    let level = Level { percent: 42, at_maximum: false, at_minimum: false };
    let n = nav(Some("a"));
    assert_eq!(apply_device_volume(&n, Some(level), None), DeviceStep::SetVolume { id: wide("a") });
    assert_eq!(apply_device_volume(&n, Some(level), Some(true)), say("42 percent"));
    assert_eq!(
        apply_device_volume(&n, Some(level), Some(false)),
        say("Device volume unavailable")
    );
    assert_eq!(apply_device_volume(&n, None, None), say("Device volume unavailable"));
    assert_eq!(
        apply_device_volume(&nav(None), Some(level), None),
        say("Select a device first")
    );
}

#[test]
fn device_mute_steps() {
    let n = nav(Some("a"));
    let mute = |mute| DeviceStep::Mute { id: wide("a"), mute };
    assert_eq!(toggle_device_mute(&n, Some(false), None), mute(true));
    assert_eq!(toggle_device_mute(&n, Some(true), None), mute(false));
    assert_eq!(toggle_device_mute(&n, Some(false), Some(true)), say("muted Speakers"));
    assert_eq!(toggle_device_mute(&n, Some(true), Some(true)), say("unmuted Speakers"));
    assert_eq!(toggle_device_mute(&n, Some(true), Some(false)), say("Device unavailable"));
    assert_eq!(toggle_device_mute(&n, None, None), say("Device unavailable"));
    assert_eq!(toggle_device_mute(&nav(None), Some(true), None), say("Select a device first"));
}

#[test]
fn device_enable_steps() {
    let mut n = nav(Some("b"));
    let request = |enable| DeviceStep::Enable { id: wide("b"), enable };
    assert_eq!(toggle_device_enabled(&mut n, None), request(true));
    assert_eq!(n, nav(Some("b")));
    assert_eq!(toggle_device_enabled(&mut n, Some(false)), say("Could not enable HDMI"));
    assert_eq!(n, nav(Some("b")));
    assert_eq!(toggle_device_enabled(&mut n, Some(true)), say("Enabled HDMI"));
    assert!(n.devices[1].enabled);
    assert_eq!(toggle_device_enabled(&mut n, None), request(false));
    assert_eq!(toggle_device_enabled(&mut n, Some(false)), say("Could not disable HDMI"));
    assert_eq!(toggle_device_enabled(&mut n, Some(true)), say("Disabled HDMI"));
    assert_eq!(n, nav(Some("b")));
    let mut n = nav(None);
    assert_eq!(toggle_device_enabled(&mut n, None), say("Select a device first"));
}

#[test]
fn device_mode_announcement() {
    assert_eq!(
        device_mode_text(&nav(Some("c")), Some(true), Some(7)),
        "Device mode, Mic, input, enabled, muted, 7 percent"
    );
    assert_eq!(
        device_mode_text(&DeviceNav::new(), None, None),
        "Device mode, no audio devices"
    );
}
