//! Which endpoints the system is asked for, and what the lists come to.

use vstd::prelude::*;

use crate::devices::{
    listed, listed_endpoints, terminated, DeviceView, EndpointView, RawEndpoint, Role,
    DEVICE_STATE_ACTIVE, DEVICE_STATE_DISABLED,
};
use crate::lists::{filter_holds, filter_skips, filter_update};
use crate::routing::{direction, flow_for, Flow};

verus! {

/// What an enumeration is asked for: the endpoints of a direction that are in one
/// of the states of a mask.
#[derive(Clone, Copy, Debug, PartialEq, Eq, Structural)]
pub struct Query {
    pub flow: Flow,
    pub states: u32,
}

/// The states of active endpoints, or of active and disabled ones.
pub fn endpoint_states(disabled_too: bool) -> (mask: u32)
    ensures
        mask == if disabled_too {
            DEVICE_STATE_ACTIVE | DEVICE_STATE_DISABLED
        } else {
            DEVICE_STATE_ACTIVE
        },
        mask & DEVICE_STATE_ACTIVE != 0,
        (mask & DEVICE_STATE_DISABLED != 0) == disabled_too,
{
    assert((1u32 | 2u32) & 1u32 != 0 && (1u32 | 2u32) & 2u32 != 0 && 1u32 & 1u32 != 0 && 1u32 & 2u32
        == 0) by (bit_vector);
    if disabled_too {
        DEVICE_STATE_ACTIVE | DEVICE_STATE_DISABLED
    } else {
        DEVICE_STATE_ACTIVE
    }
}

/// The picker offers active endpoints.
pub open spec fn picker_asks(input: bool) -> Query {
    Query { flow: direction(input), states: DEVICE_STATE_ACTIVE }
}

/// Device mode lists disabled endpoints too, so that they can be enabled again.
pub open spec fn device_mode_asks(input: bool) -> Query {
    Query { flow: direction(input), states: DEVICE_STATE_ACTIVE | DEVICE_STATE_DISABLED }
}

/// What the picker asks for, as inputs or outputs.
pub fn picker_query(input: bool) -> (query: Query)
    ensures
        query == picker_asks(input),
{
    Query { flow: flow_for(input), states: endpoint_states(false) }
}

/// What device mode asks for, as inputs or outputs.
pub fn device_mode_query(input: bool) -> (query: Query)
    ensures
        query == device_mode_asks(input),
{
    Query { flow: flow_for(input), states: endpoint_states(true) }
}

/// The endpoints whose sessions are tracked: the active outputs.
pub fn session_query() -> (query: Query)
    ensures
        query == (Query { flow: Flow::Render, states: DEVICE_STATE_ACTIVE }),
        query == picker_asks(false),
{
    picker_query(false)
}

/// What the current default output is asked for by: the direction and the role.
pub fn default_output_query() -> (query: (Flow, Role))
    ensures
        query == (Flow::Render, Role::Console),
{
    (flow_for(false), Role::Console)
}

/// An endpoint as the system has it.
#[verifier::ext_equal]
pub struct SystemEndpoint {
    pub id: Seq<u16>,
    pub name: Seq<char>,
    pub is_input: bool,
    pub state: u32,
}

impl SystemEndpoint {
    pub open spec fn device(self) -> DeviceView {
        DeviceView { id: terminated(Some(self.id)), name: self.name }
    }

    pub open spec fn is_active(self) -> bool {
        self.state & DEVICE_STATE_ACTIVE != 0
    }

    pub open spec fn is_disabled(self) -> bool {
        self.state & DEVICE_STATE_DISABLED != 0
    }

    pub open spec fn endpoint(self) -> EndpointView {
        EndpointView {
            id: terminated(Some(self.id)),
            name: self.name,
            is_input: self.is_input,
            enabled: self.is_active(),
        }
    }
}

/// The endpoints that answer a query.
pub open spec fn answers(query: Query) -> spec_fn(SystemEndpoint) -> bool {
    |e: SystemEndpoint| direction(e.is_input) == query.flow && e.state & query.states != 0
}

/// The rows are what the system reports about a query when everything can be
/// read: the endpoints that answer it, in order.
pub open spec fn reported(
    rows: Seq<Option<RawEndpoint>>,
    system: Seq<SystemEndpoint>,
    query: Query,
) -> bool {
    let found = system.filter(answers(query));
    &&& rows.len() == found.len()
    &&& forall|i: int|
        0 <= i < rows.len() ==> (#[trigger] rows[i] matches Some(row) && row.id_units() == Some(
            found[i].id,
        ) && row.display_name() == found[i].name && row.state == Some(found[i].state))
}

/// The devices of endpoints.
pub open spec fn as_devices(found: Seq<SystemEndpoint>) -> Seq<DeviceView> {
    Seq::new(found.len(), |i: int| found[i].device())
}

/// Endpoints as device mode shows them.
pub open spec fn as_endpoints(found: Seq<SystemEndpoint>) -> Seq<EndpointView> {
    Seq::new(found.len(), |i: int| found[i].endpoint())
}

/// The list of device mode: the endpoints that answer its queries, outputs first.
pub open spec fn device_mode_list(system: Seq<SystemEndpoint>) -> Seq<EndpointView> {
    as_endpoints(system.filter(answers(device_mode_asks(false)))) + as_endpoints(
        system.filter(answers(device_mode_asks(true))),
    )
}

proof fn rows_become_devices(rows: Seq<Option<RawEndpoint>>, found: Seq<SystemEndpoint>)
    requires
        rows.len() == found.len(),
        forall|i: int|
            0 <= i < rows.len() ==> (#[trigger] rows[i] matches Some(row) && row.id_units()
                == Some(found[i].id) && row.display_name() == found[i].name),
    ensures
        listed(rows) == as_devices(found),
    decreases rows.len(),
{
    if rows.len() > 0 {
        assert(rows[rows.len() - 1] == rows.last());
        rows_become_devices(rows.drop_last(), found.drop_last());
        assert(as_devices(found) =~= as_devices(found.drop_last()).push(found.last().device()));
    } else {
        assert(as_devices(found) =~= Seq::empty());
    }
}

proof fn rows_become_endpoints(
    rows: Seq<Option<RawEndpoint>>,
    found: Seq<SystemEndpoint>,
    is_input: bool,
)
    requires
        rows.len() == found.len(),
        forall|i: int|
            0 <= i < rows.len() ==> (#[trigger] rows[i] matches Some(row) && row.id_units()
                == Some(found[i].id) && row.display_name() == found[i].name && row.state == Some(
                found[i].state,
            ) && found[i].is_input == is_input),
    ensures
        listed_endpoints(rows, is_input) == as_endpoints(found),
    decreases rows.len(),
{
    if rows.len() > 0 {
        assert(rows[rows.len() - 1] == rows.last());
        rows_become_endpoints(rows.drop_last(), found.drop_last(), is_input);
        assert(as_endpoints(found) =~= as_endpoints(found.drop_last()).push(
            found.last().endpoint(),
        ));
    } else {
        assert(as_endpoints(found) =~= Seq::empty());
    }
}

proof fn found_answers(system: Seq<SystemEndpoint>, query: Query)
    ensures
        forall|i: int|
            0 <= i < system.filter(answers(query)).len() ==> answers(query)(
                #[trigger] system.filter(answers(query))[i],
            ),
{
    let found = system.filter(answers(query));
    assert forall|i: int| 0 <= i < found.len() implies answers(query)(#[trigger] found[i]) by {
        filter_holds(system, answers(query), found[i]);
        assert(found.contains(found[i]));
    }
}

/// The picker lists exactly the active endpoints of a direction, each under its
/// own id and name.
pub proof fn picker_lists_active_endpoints(
    system: Seq<SystemEndpoint>,
    rows: Seq<Option<RawEndpoint>>,
    input: bool,
    e: SystemEndpoint,
)
    requires
        reported(rows, system, picker_asks(input)),
    ensures
        listed(rows) == as_devices(system.filter(answers(picker_asks(input)))),
        system.filter(answers(picker_asks(input))).contains(e) <==> system.contains(e)
            && e.is_input == input && e.is_active(),
{
    rows_become_devices(rows, system.filter(answers(picker_asks(input))));
    filter_holds(system, answers(picker_asks(input)), e);
}

/// What device mode lists, from what the system reports: exactly the active and
/// the disabled endpoints, outputs first, and each as enabled where it is active.
pub proof fn device_mode_lists_usable_endpoints(
    system: Seq<SystemEndpoint>,
    outputs: Seq<Option<RawEndpoint>>,
    inputs: Seq<Option<RawEndpoint>>,
    e: SystemEndpoint,
)
    requires
        reported(outputs, system, device_mode_asks(false)),
        reported(inputs, system, device_mode_asks(true)),
    ensures
        listed_endpoints(outputs, false) + listed_endpoints(inputs, true) == device_mode_list(
            system,
        ),
        system.filter(answers(device_mode_asks(e.is_input))).contains(e) <==> system.contains(e)
            && (e.is_active() || e.is_disabled()),
        system.contains(e) && e.is_active() ==> device_mode_list(system).contains(e.endpoint())
            && e.endpoint().enabled,
        system.contains(e) && e.is_disabled() && !e.is_active() ==> device_mode_list(
            system,
        ).contains(e.endpoint()) && !e.endpoint().enabled,
{
    let found_out = system.filter(answers(device_mode_asks(false)));
    let found_in = system.filter(answers(device_mode_asks(true)));
    found_answers(system, device_mode_asks(false));
    found_answers(system, device_mode_asks(true));
    rows_become_endpoints(outputs, found_out, false);
    rows_become_endpoints(inputs, found_in, true);
    filter_holds(system, answers(device_mode_asks(e.is_input)), e);
    let state = e.state;
    assert((state & (1u32 | 2u32) != 0) == (state & 1u32 != 0 || state & 2u32 != 0))
        by (bit_vector);
    let found = if e.is_input {
        found_in
    } else {
        found_out
    };
    if found.contains(e) {
        let i = choose|i: int| 0 <= i < found.len() && found[i] == e;
        let at = if e.is_input {
            found_out.len() + i
        } else {
            i
        };
        assert(device_mode_list(system)[at] == e.endpoint());
    }
}

/// The endpoint's state is what it is after it was enabled or disabled.
pub open spec fn holds(state: u32, enabled: bool) -> bool {
    if enabled {
        state & DEVICE_STATE_ACTIVE != 0
    } else {
        state & DEVICE_STATE_ACTIVE == 0 && state & DEVICE_STATE_DISABLED != 0
    }
}

/// An endpoint that device mode lists does not disappear when it is disabled and
/// can be enabled again: whatever it was set to, the new list has it in the same
/// place, with the same id, name and direction and the new state, and nothing
/// else in the list changes.
pub proof fn disabled_endpoint_stays_listed(
    system: Seq<SystemEndpoint>,
    k: int,
    state: u32,
    enabled: bool,
) -> (at: int)
    requires
        0 <= k < system.len(),
        system[k].is_active() || system[k].is_disabled(),
        holds(state, enabled),
    ensures
        0 <= at < device_mode_list(system).len(),
        device_mode_list(system)[at] == system[k].endpoint(),
        device_mode_list(system.update(k, SystemEndpoint { state, ..system[k] }))
            == device_mode_list(system).update(
            at,
            EndpointView { enabled, ..device_mode_list(system)[at] },
        ),
{
    let old_state = system[k].state;
    assert((old_state & (1u32 | 2u32) != 0) == (old_state & 1u32 != 0 || old_state & 2u32 != 0))
        by (bit_vector);
    assert((state & (1u32 | 2u32) != 0) == (state & 1u32 != 0 || state & 2u32 != 0))
        by (bit_vector);
    let x = SystemEndpoint { state, ..system[k] };
    let after = system.update(k, x);
    let input = system[k].is_input;
    let mine = answers(device_mode_asks(input));
    let others = answers(device_mode_asks(!input));
    let j = filter_update(system, mine, k, x);
    filter_skips(system, others, k, x);
    assert(x.endpoint() == (EndpointView { enabled, ..system[k].endpoint() }));
    assert(as_endpoints(after.filter(mine)) =~= as_endpoints(system.filter(mine)).update(
        j,
        x.endpoint(),
    ));
    let at = if input {
        system.filter(others).len() + j
    } else {
        j
    };
    assert(device_mode_list(system)[at] == system[k].endpoint());
    assert(device_mode_list(after) =~= device_mode_list(system).update(at, x.endpoint()));
    at
}

/// Listing the endpoints anew after one of them was enabled or disabled, with
/// everything readable both times, lists it again: it is in the same place of the
/// list, with the same id, name and direction, and enabled as it was set.
pub proof fn relisting_shows_the_new_state(
    system: Seq<SystemEndpoint>,
    outputs: Seq<Option<RawEndpoint>>,
    inputs: Seq<Option<RawEndpoint>>,
    k: int,
    state: u32,
    enabled: bool,
    new_outputs: Seq<Option<RawEndpoint>>,
    new_inputs: Seq<Option<RawEndpoint>>,
) -> (at: int)
    requires
        0 <= k < system.len(),
        system[k].is_active() || system[k].is_disabled(),
        holds(state, enabled),
        reported(outputs, system, device_mode_asks(false)),
        reported(inputs, system, device_mode_asks(true)),
        ({
            let after = system.update(k, SystemEndpoint { state, ..system[k] });
            &&& reported(new_outputs, after, device_mode_asks(false))
            &&& reported(new_inputs, after, device_mode_asks(true))
        }),
    ensures
        ({
            let before = listed_endpoints(outputs, false) + listed_endpoints(inputs, true);
            let after = listed_endpoints(new_outputs, false) + listed_endpoints(new_inputs, true);
            &&& 0 <= at < before.len()
            &&& before[at] == system[k].endpoint()
            &&& after == before.update(at, EndpointView { enabled, ..before[at] })
        }),
{
    let changed = SystemEndpoint { state, ..system[k] };
    device_mode_lists_usable_endpoints(system, outputs, inputs, system[k]);
    device_mode_lists_usable_endpoints(system.update(k, changed), new_outputs, new_inputs, changed);
    disabled_endpoint_stays_listed(system, k, state, enabled)
}

/// Inputs are asked for as captured and outputs as rendered, whatever they are
/// asked for.
pub proof fn queries_have_their_direction(input: bool)
    ensures
        picker_asks(input).flow == Flow::Capture <==> input,
        picker_asks(input).flow == Flow::Render <==> !input,
        device_mode_asks(input).flow == picker_asks(input).flow,
{
}

} // verus!
