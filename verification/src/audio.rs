//! The audio sessions of every active render endpoint and the selected one.
//!
//! Sessions are tracked on all active output devices, so per-application routing
//! and default-device switches never lose track of an application.

use vstd::prelude::*;
use vstd::string::*;

use crate::hotkeys::VolumeChange;
use crate::lists::{
    filter_in_order, filter_of_all, filter_push, first_index, first_index_found,
    first_index_missing, in_order,
};
use crate::text::{push_decimal, text_of};
use crate::utf16::decode_utf16_lossy;
use crate::winpath::file_stem;

verus! {

/// The session state that the system reports when a session is over.
pub const AUDIO_SESSION_STATE_EXPIRED: i32 = 2;

/// One entry of the volume mixer.
#[derive(Debug, PartialEq, Eq)]
pub struct Session {
    /// Tells sessions apart over the life of the program.
    pub id: u64,
    /// What the session is announced as.
    pub name: String,
    /// The owning process, 0 for the system sounds.
    pub pid: u32,
}

/// What a [`Session`] holds.
#[verifier::ext_equal]
pub struct SessionView {
    pub id: u64,
    pub name: Seq<char>,
    pub pid: u32,
}

impl View for Session {
    type V = SessionView;

    open spec fn view(&self) -> SessionView {
        SessionView { id: self.id, name: self.name@, pid: self.pid }
    }
}

/// The tracked sessions and the id of the selected one.
#[derive(Debug, PartialEq, Eq)]
pub struct State {
    pub sessions: Vec<Session>,
    pub selection: Option<u64>,
}

/// What a [`State`] holds.
#[verifier::ext_equal]
pub struct StateView {
    pub sessions: Seq<SessionView>,
    pub selection: Option<u64>,
}

pub open spec fn session_views(sessions: Seq<Session>) -> Seq<SessionView> {
    Seq::new(sessions.len(), |i: int| sessions[i]@)
}

impl View for State {
    type V = StateView;

    open spec fn view(&self) -> StateView {
        StateView { sessions: session_views(self.sessions@), selection: self.selection }
    }
}

pub open spec fn with_id(id: u64) -> spec_fn(SessionView) -> bool {
    |s: SessionView| s.id == id
}

pub open spec fn with_pid(pid: u32) -> spec_fn(SessionView) -> bool {
    |s: SessionView| s.pid == pid
}

pub open spec fn with_name(name: Seq<char>) -> spec_fn(SessionView) -> bool {
    |s: SessionView| s.name == name
}

pub open spec fn without_id(id: u64) -> spec_fn(SessionView) -> bool {
    |s: SessionView| s.id != id
}

pub open spec fn without_pid(pid: u32) -> spec_fn(SessionView) -> bool {
    |s: SessionView| s.pid != pid
}

impl StateView {
    /// The place of the selected session in the list.
    pub open spec fn current_index(self) -> Option<int> {
        match self.selection {
            Some(id) => first_index(self.sessions, with_id(id)),
            None => None,
        }
    }

    /// The selected session.
    pub open spec fn current(self) -> Option<SessionView> {
        match self.current_index() {
            Some(i) => Some(self.sessions[i]),
            None => None,
        }
    }

    pub open spec fn has_pid(self, pid: u32) -> bool {
        exists|i: int| 0 <= i < self.sessions.len() && #[trigger] self.sessions[i].pid == pid
    }

    pub open spec fn has_id(self, id: u64) -> bool {
        exists|i: int| 0 <= i < self.sessions.len() && #[trigger] self.sessions[i].id == id
    }

    /// The selection is on a session of process `pid`.
    pub open spec fn selects_pid(self, pid: u32) -> bool {
        exists|i: int|
            0 <= i < self.sessions.len() && (#[trigger] self.sessions[i]).pid == pid && Some(
                self.sessions[i].id,
            ) == self.selection
    }

    /// The ids of the sessions, in the order of the list.
    pub open spec fn ids(self) -> Seq<u64> {
        Seq::new(self.sessions.len(), |i: int| self.sessions[i].id)
    }

    /// Every id in the list is below `bound`.
    pub open spec fn ids_below(self, bound: int) -> bool {
        forall|i: int| 0 <= i < self.sessions.len() ==> (#[trigger] self.sessions[i]).id < bound
    }

    /// Every entry has its own id and its own process, and the selection is on
    /// an entry.
    pub open spec fn well_formed(self) -> bool {
        &&& forall|i: int, j: int|
            0 <= i < j < self.sessions.len() ==> (#[trigger] self.sessions[i]).id != (
            #[trigger] self.sessions[j]).id
        &&& forall|i: int, j: int|
            0 <= i < j < self.sessions.len() ==> (#[trigger] self.sessions[i]).pid != (
            #[trigger] self.sessions[j]).pid
        &&& self.selection matches Some(id) ==> self.has_id(id)
    }

    /// The state after a session appeared. The system sounds keep a single
    /// entry. A new session of an application takes the place of its old one,
    /// and the selection moves along.
    pub open spec fn added(self, id: u64, pid: u32, name: Seq<char>) -> StateView {
        let session = SessionView { id, name, pid };
        if pid == 0 {
            if self.has_pid(0) {
                self
            } else {
                StateView { sessions: self.sessions.push(session), selection: self.selection }
            }
        } else {
            StateView {
                sessions: self.sessions.filter(without_pid(pid)).push(session),
                selection: if self.selects_pid(pid) {
                    Some(id)
                } else {
                    self.selection
                },
            }
        }
    }

    /// The state after the session `id` is gone.
    pub open spec fn removed(self, id: u64) -> StateView {
        StateView {
            sessions: self.sessions.filter(without_id(id)),
            selection: if self.selection == Some(id) {
                None
            } else {
                self.selection
            },
        }
    }

    /// The state after a session reported a new state.
    pub open spec fn reported(self, id: u64, new_state: int) -> StateView {
        if new_state == 2 {
            self.removed(id)
        } else {
            self
        }
    }

    /// The state without any session.
    pub open spec fn detached() -> StateView {
        StateView { sessions: Seq::empty(), selection: None }
    }

    /// What is kept of the selection over a new enumeration: its process and
    /// its name.
    pub open spec fn remembered(self) -> Option<(u32, Seq<char>)> {
        match self.current() {
            Some(session) => Some((session.pid, session.name)),
            None => None,
        }
    }

    /// The id of the first session of process `pid`, or else of the first
    /// session called `name`.
    pub open spec fn matching(self, pid: u32, name: Seq<char>) -> Option<u64> {
        match first_index(self.sessions, with_pid(pid)) {
            Some(i) => Some(self.sessions[i].id),
            None => match first_index(self.sessions, with_name(name)) {
                Some(i) => Some(self.sessions[i].id),
                None => None,
            },
        }
    }

    /// The state with the remembered selection found again.
    pub open spec fn restored(self, previous: Option<(u32, Seq<char>)>) -> StateView {
        StateView {
            sessions: self.sessions,
            selection: match previous {
                Some((pid, name)) => self.matching(pid, name),
                None => None,
            },
        }
    }
}

/// The place of the first session that `wanted` accepts; `p` is what it accepts.
fn find_session<F: Fn(&Session) -> bool>(
    sessions: &Vec<Session>,
    wanted: F,
    Ghost(p): Ghost<spec_fn(SessionView) -> bool>,
) -> (found: Option<usize>)
    requires
        forall|s: &Session| call_requires(wanted, (s,)),
        forall|s: &Session, b: bool| call_ensures(wanted, (s,), b) ==> b == p(s@),
    ensures
        match found {
            Some(i) => first_index(session_views(sessions@), p) == Some(i as int) && i
                < sessions@.len(),
            None => first_index(session_views(sessions@), p) is None,
        },
{
    for i in 0..sessions.len()
        invariant
            forall|s: &Session| call_requires(wanted, (s,)),
            forall|s: &Session, b: bool| call_ensures(wanted, (s,), b) ==> b == p(s@),
            forall|j: int| 0 <= j < i ==> !p(#[trigger] session_views(sessions@)[j]),
    {
        if wanted(&sessions[i]) {
            proof {
                first_index_found(session_views(sessions@), p, i as int);
            }
            return Some(i);
        }
    }
    proof {
        first_index_missing(session_views(sessions@), p);
    }
    None
}

fn find_id(sessions: &Vec<Session>, id: u64) -> (found: Option<usize>)
    ensures
        match found {
            Some(i) => first_index(session_views(sessions@), with_id(id)) == Some(i as int) && i
                < sessions@.len(),
            None => first_index(session_views(sessions@), with_id(id)) is None,
        },
{
    let wanted = |s: &Session| -> (b: bool)
        ensures
            b == (s@.id == id),
        { s.id == id };
    find_session(sessions, wanted, Ghost(with_id(id)))
}

fn find_pid(sessions: &Vec<Session>, pid: u32) -> (found: Option<usize>)
    ensures
        match found {
            Some(i) => first_index(session_views(sessions@), with_pid(pid)) == Some(i as int) && i
                < sessions@.len(),
            None => first_index(session_views(sessions@), with_pid(pid)) is None,
        },
{
    let wanted = |s: &Session| -> (b: bool)
        ensures
            b == (s@.pid == pid),
        { s.pid == pid };
    find_session(sessions, wanted, Ghost(with_pid(pid)))
}

fn find_name(sessions: &Vec<Session>, name: &String) -> (found: Option<usize>)
    ensures
        match found {
            Some(i) => first_index(session_views(sessions@), with_name(name@)) == Some(i as int)
                && i < sessions@.len(),
            None => first_index(session_views(sessions@), with_name(name@)) is None,
        },
{
    let wanted = |s: &Session| -> (b: bool)
        ensures
            b == (s@.name == name@),
        { s.name == *name };
    find_session(sessions, wanted, Ghost(with_name(name@)))
}

/// Keeps the sessions that `keep` accepts, in order; `p` is what it accepts.
fn retain_sessions<F: Fn(&Session) -> bool>(
    sessions: &mut Vec<Session>,
    keep: F,
    Ghost(p): Ghost<spec_fn(SessionView) -> bool>,
)
    requires
        forall|s: &Session| call_requires(keep, (s,)),
        forall|s: &Session, b: bool| call_ensures(keep, (s,), b) ==> b == p(s@),
    ensures
        session_views(final(sessions)@) == session_views(old(sessions)@).filter(p),
{
    let ghost all = session_views(sessions@);
    let ghost mut seen: int = 0;
    let mut i: usize = 0;
    assert(all.take(0).filter(p) == Seq::<SessionView>::empty()) by {
        reveal(Seq::filter);
    }
    assert(all.skip(0) == all);
    while i < sessions.len()
        invariant
            forall|s: &Session| call_requires(keep, (s,)),
            forall|s: &Session, b: bool| call_ensures(keep, (s,), b) ==> b == p(s@),
            0 <= seen <= all.len(),
            i == all.take(seen).filter(p).len(),
            session_views(sessions@) == all.take(seen).filter(p) + all.skip(seen),
        decreases all.len() - seen,
    {
        let ghost before = session_views(sessions@);
        proof {
            assert(before.len() == sessions@.len());
            assert(before[i as int] == all[seen]);
            assert(all.take(seen).push(all[seen]) == all.take(seen + 1));
            filter_push(all.take(seen), p, all[seen]);
        }
        if keep(&sessions[i]) {
            i = i + 1;
        } else {
            sessions.remove(i);
            assert(session_views(sessions@) == before.remove(i as int));
        }
        proof {
            assert(session_views(sessions@) == all.take(seen + 1).filter(p) + all.skip(seen + 1));
            seen = seen + 1;
        }
    }
    assert(session_views(sessions@).len() == sessions@.len());
    assert(all.take(seen) == all);
    assert(session_views(sessions@) == all.filter(p));
}

impl State {
    /// The place of the selected session in the list.
    pub fn current_index(&self) -> (index: Option<usize>)
        ensures
            match index {
                Some(i) => self@.current_index() == Some(i as int) && i < self.sessions@.len(),
                None => self@.current_index() is None,
            },
    {
        match self.selection {
            Some(id) => find_id(&self.sessions, id),
            None => None,
        }
    }

    /// The selected session.
    pub fn current(&self) -> (session: Option<&Session>)
        ensures
            match session {
                Some(session) => self@.current() == Some(session@),
                None => self@.current() is None,
            },
    {
        match self.current_index() {
            Some(i) => Some(&self.sessions[i]),
            None => None,
        }
    }
}

/// The name that a session is announced by: its process, or the number of a
/// process whose name cannot be read.
pub open spec fn session_label(pid: u32, process: Option<Seq<char>>) -> Seq<char> {
    if pid == 0 {
        "System sounds"@
    } else {
        match process {
            Some(name) => name,
            None => "Process "@ + crate::text::decimal(pid as int),
        }
    }
}

fn session_name(pid: u32, process: Option<String>) -> (name: String)
    ensures
        name@ == session_label(pid, text_of(process)),
{
    if pid == 0 {
        return "System sounds".to_string();
    }
    match process {
        Some(name) => name,
        None => {
            let mut name = "Process ".to_string();
            push_decimal(&mut name, pid as i64);
            name
        },
    }
}

/// Takes a session that appeared into the list, under the id reserved for it.
/// `process` is the name of its process, where that could be read.
pub fn add_session(state: &mut State, id: u64, pid: u32, process: Option<String>)
    ensures
        final(state)@ == old(state)@.added(id, pid, session_label(pid, text_of(process))),
{
    let ghost before = state@;
    let name = session_name(pid, process);
    let found = find_pid(&state.sessions, pid);
    proof {
        crate::lists::first_index_is_first(before.sessions, with_pid(pid));
        assert(found is Some <==> before.has_pid(pid));
    }
    if pid == 0 {
        // Every endpoint hosts a system-sounds session; keep a single entry.
        if found.is_some() {
            return ;
        }
    } else {
        // An application that moves to another endpoint creates its new session
        // before the old one expires: replace rather than skip, so that it never
        // vanishes from the list.
        let mut was_selected = false;
        for i in 0..state.sessions.len()
            invariant
                before == state@,
                was_selected == exists|j: int|
                    0 <= j < i && (#[trigger] before.sessions[j]).pid == pid && Some(
                        before.sessions[j].id,
                    ) == before.selection,
        {
            assert(before.sessions[i as int] == state.sessions@[i as int]@);
            if state.sessions[i].pid == pid {
                if let Some(selected) = state.selection {
                    if state.sessions[i].id == selected {
                        was_selected = true;
                    }
                }
            }
        }
        let keep = |s: &Session| -> (b: bool)
            ensures
                b == (s@.pid != pid),
            { s.pid != pid };
        retain_sessions(&mut state.sessions, keep, Ghost(without_pid(pid)));
        if was_selected {
            state.selection = Some(id);
        }
    }
    let ghost kept = session_views(state.sessions@);
    state.sessions.push(Session { id, name, pid });
    assert(session_views(state.sessions@) == kept.push(
        SessionView { id, name: session_label(pid, text_of(process)), pid },
    ));
}

/// Takes a session that is over out of the list.
pub fn remove_session(state: &mut State, id: u64)
    ensures
        final(state)@ == old(state)@.removed(id),
{
    if let Some(selected) = state.selection {
        if selected == id {
            state.selection = None;
        }
    }
    let keep = |s: &Session| -> (b: bool)
        ensures
            b == (s@.id != id),
        { s.id != id };
    retain_sessions(&mut state.sessions, keep, Ghost(without_id(id)));
}

/// The session `id` reported a new state: an expired one is taken out of the
/// list, any other report changes nothing.
pub fn state_changed(state: &mut State, id: u64, new_state: i32)
    ensures
        final(state)@ == if new_state == AUDIO_SESSION_STATE_EXPIRED {
            old(state)@.removed(id)
        } else {
            old(state)@
        },
        final(state)@ == old(state)@.reported(id, new_state as int),
{
    if new_state == AUDIO_SESSION_STATE_EXPIRED {
        remove_session(state, id);
    }
}

/// The name of the process with the given image path: the path's file name
/// without its extension, or all of it where it names no file.
pub open spec fn image_name(path: Seq<char>) -> Seq<char> {
    match crate::winpath::stem(path) {
        Some(stem) => stem,
        None => path,
    }
}

/// The name of a process from the units of its image path; nothing where the
/// path could not be read or is empty.
pub fn process_name(image: Option<&[u16]>) -> (name: Option<String>)
    ensures
        name is Some <==> image is Some && image->0@.len() > 0,
        name matches Some(name) ==> name@ == image_name(crate::utf16::decoded(image->0@)),
{
    match image {
        Some(units) => {
            if units.len() == 0 {
                return None;
            }
            let full = decode_utf16_lossy(units);
            match file_stem(full.as_str()) {
                Some(stem) => Some(stem),
                None => Some(full),
            }
        },
        None => None,
    }
}

/// What a session gets when everything is reset.
#[derive(Clone, Copy, Debug, PartialEq, Eq, Structural)]
pub struct Reset {
    /// The session.
    pub id: u64,
    /// Its new volume.
    pub volume: VolumeChange,
    /// Its new mute.
    pub mute: bool,
}

/// The reset of one session: to full volume, and unmuted.
pub open spec fn reset_of(session: SessionView) -> Reset {
    Reset { id: session.id, volume: VolumeChange::To(100), mute: false }
}

impl StateView {
    /// The resets of all sessions, in the order of the list.
    pub open spec fn resets(self) -> Seq<Reset> {
        Seq::new(self.sessions.len(), |i: int| reset_of(self.sessions[i]))
    }
}

/// What is set when everything is reset: every session in the list, in its
/// order, gets the full volume and is unmuted.
pub fn restore_all_max(state: &State) -> (resets: Vec<Reset>)
    ensures
        resets@ == state@.resets(),
        resets@.len() == state.sessions@.len(),
{
    let mut resets: Vec<Reset> = Vec::new();
    for i in 0..state.sessions.len()
        invariant
            resets@ == state@.resets().take(i as int),
    {
        assert(state@.sessions[i as int] == state.sessions@[i as int]@);
        resets.push(
            Reset { id: state.sessions[i].id, volume: VolumeChange::To(100), mute: false },
        );
        assert(resets@ == state@.resets().take(i + 1));
    }
    assert(state@.resets().take(state@.sessions.len() as int) == state@.resets());
    resets
}

/// A reset reaches every session in the list exactly once, selected or not, and
/// gives it the full volume and takes its mute away.
pub proof fn reset_reaches_every_session(state: StateView, i: int)
    requires
        state.well_formed(),
        0 <= i < state.sessions.len(),
    ensures
        state.resets().len() == state.sessions.len(),
        state.resets()[i].id == state.sessions[i].id,
        state.resets()[i].volume == VolumeChange::To(100),
        !state.resets()[i].mute,
        forall|j: int|
            0 <= j < state.resets().len() && j != i ==> (#[trigger] state.resets()[j]).id
                != state.sessions[i].id,
{
    assert forall|j: int| 0 <= j < state.resets().len() && j != i implies (
    #[trigger] state.resets()[j]).id != state.sessions[i].id by {
        assert(state.resets()[j].id == state.sessions[j].id);
        if j < i {
            assert(state.sessions[j].id != state.sessions[i].id);
        } else {
            assert(state.sessions[i].id != state.sessions[j].id);
        }
    }
}

fn session_ids(state: &State) -> (ids: Vec<u64>)
    ensures
        ids@ == state@.ids(),
{
    let mut ids: Vec<u64> = Vec::new();
    for i in 0..state.sessions.len()
        invariant
            ids@ == state@.ids().take(i as int),
    {
        assert(state@.sessions[i as int] == state.sessions@[i as int]@);
        ids.push(state.sessions[i].id);
        assert(ids@ == state@.ids().take(i + 1));
    }
    assert(state@.ids().take(state@.sessions.len() as int) == state@.ids());
    ids
}

/// The session list with the source of session ids.
pub struct AudioManager {
    pub state: State,
    /// The id that the next session gets.
    pub next_id: u64,
}

impl AudioManager {
    /// Every id in the list was handed out before.
    pub open spec fn well_formed(&self) -> bool {
        &&& self.state@.well_formed()
        &&& self.state@.ids_below(self.next_id as int)
    }

    /// No session yet, and the first one gets id 1.
    pub fn new() -> (manager: AudioManager)
        ensures
            manager.state@ == StateView::detached(),
            manager.next_id == 1,
            manager.well_formed(),
    {
        let manager = AudioManager {
            state: State { sessions: Vec::new(), selection: None },
            next_id: 1,
        };
        assert(session_views(manager.state.sessions@) == Seq::<SessionView>::empty());
        manager
    }

    /// Hands out the next id. The count starts over behind the largest id.
    pub fn reserve_id(&mut self) -> (id: u64)
        ensures
            id == old(self).next_id,
            final(self).state == old(self).state,
            final(self).next_id == if id == u64::MAX {
                0
            } else {
                id + 1
            },
            old(self).well_formed() && id < u64::MAX ==> final(self).well_formed()
                && !final(self).state@.has_id(id),
    {
        let id = self.next_id;
        self.next_id = self.next_id.wrapping_add(1);
        id
    }

    /// What is kept of the selection over a new enumeration.
    pub fn remember(&self) -> (previous: Option<(u32, String)>)
        ensures
            match previous {
                Some((pid, name)) => self.state@.remembered() == Some((pid, name@)),
                None => self.state@.remembered() is None,
            },
    {
        match self.state.current() {
            Some(session) => Some((session.pid, session.name.clone())),
            None => None,
        }
    }

    /// Forgets every session and the selection; hands back the ids of the
    /// sessions, in order, for their notifications to be unregistered.
    pub fn detach_all(&mut self) -> (ids: Vec<u64>)
        ensures
            ids@ == old(self).state@.ids(),
            ids@.len() == old(self).state.sessions@.len(),
            forall|i: int|
                0 <= i < ids@.len() ==> #[trigger] ids@[i] == old(self).state.sessions@[i].id,
            final(self).state@ == StateView::detached(),
            final(self).state.sessions@.len() == 0,
            final(self).state.selection is None,
            final(self).next_id == old(self).next_id,
            final(self).well_formed(),
    {
        let ids = session_ids(&self.state);
        self.state.sessions.clear();
        self.state.selection = None;
        assert(session_views(self.state.sessions@) == Seq::<SessionView>::empty());
        ids
    }

    /// Finds the remembered selection again in a list built anew: by process, or
    /// by name where the process came back under another number.
    pub fn rebuild(&mut self, previous: Option<(u32, String)>)
        ensures
            final(self).state@ == old(self).state@.restored(
                match previous {
                    Some((pid, name)) => Some((pid, name@)),
                    None => None,
                },
            ),
            final(self).next_id == old(self).next_id,
            old(self).well_formed() ==> final(self).well_formed(),
    {
        let ghost listed = self.state@;
        let restored: Option<u64> = match &previous {
            Some((pid, name)) => {
                match find_pid(&self.state.sessions, *pid) {
                    Some(i) => {
                        assert(listed.sessions[i as int] == self.state.sessions@[i as int]@);
                        Some(self.state.sessions[i].id)
                    },
                    None => match find_name(&self.state.sessions, name) {
                        Some(i) => {
                            assert(listed.sessions[i as int] == self.state.sessions@[i as int]@);
                            Some(self.state.sessions[i].id)
                        },
                        None => None,
                    },
                }
            },
            None => None,
        };
        self.state.selection = restored;
        proof {
            if listed.well_formed() {
                restored_keeps_well_formed(
                    listed,
                    match previous {
                        Some((pid, name)) => Some((pid, name@)),
                        None => None,
                    },
                );
            }
        }
    }
}

proof fn filter_keeps_distinct(s: Seq<SessionView>, p: spec_fn(SessionView) -> bool)
    requires
        forall|i: int, j: int|
            0 <= i < j < s.len() ==> (#[trigger] s[i]).id != (#[trigger] s[j]).id,
        forall|i: int, j: int|
            0 <= i < j < s.len() ==> (#[trigger] s[i]).pid != (#[trigger] s[j]).pid,
    ensures
        forall|i: int, j: int|
            0 <= i < j < s.filter(p).len() ==> (#[trigger] s.filter(p)[i]).id != (
            #[trigger] s.filter(p)[j]).id,
        forall|i: int, j: int|
            0 <= i < j < s.filter(p).len() ==> (#[trigger] s.filter(p)[i]).pid != (
            #[trigger] s.filter(p)[j]).pid,
    decreases s.len(),
{
    reveal(Seq::filter);
    if s.len() > 0 {
        let front = s.drop_last();
        filter_keeps_distinct(front, p);
        let kept = front.filter(p);
        assert forall|i: int| 0 <= i < kept.len() implies (#[trigger] kept[i]).id != s.last().id
            && kept[i].pid != s.last().pid by {
            crate::lists::filter_holds(front, p, kept[i]);
            assert(kept.contains(kept[i]));
            let j = choose|j: int| 0 <= j < front.len() && front[j] == kept[i];
            assert(s[j] == kept[i]);
        }
    }
}

proof fn filter_member(s: Seq<SessionView>, p: spec_fn(SessionView) -> bool, i: int) -> (j: int)
    requires
        0 <= i < s.filter(p).len(),
    ensures
        0 <= j < s.len(),
        s[j] == s.filter(p)[i],
        p(s[j]),
{
    crate::lists::filter_holds(s, p, s.filter(p)[i]);
    assert(s.filter(p).contains(s.filter(p)[i]));
    choose|j: int| 0 <= j < s.len() && s[j] == s.filter(p)[i]
}

proof fn filter_keeps(s: Seq<SessionView>, p: spec_fn(SessionView) -> bool, i: int) -> (j: int)
    requires
        0 <= i < s.len(),
        p(s[i]),
    ensures
        0 <= j < s.filter(p).len(),
        s.filter(p)[j] == s[i],
{
    crate::lists::filter_holds(s, p, s[i]);
    assert(s.contains(s[i]));
    choose|j: int| 0 <= j < s.filter(p).len() && s.filter(p)[j] == s[i]
}

/// A new session under an unused id leaves the list with one entry for each
/// process, distinct ids and a live selection.
pub proof fn added_keeps_well_formed(state: StateView, id: u64, pid: u32, name: Seq<char>)
    requires
        state.well_formed(),
        !state.has_id(id),
    ensures
        state.added(id, pid, name).well_formed(),
{
    let after = state.added(id, pid, name);
    let s = state.sessions;
    let p = without_pid(pid);
    if pid == 0 {
        if !state.has_pid(0) {
            if let Some(selected) = state.selection {
                let i = choose|i: int| 0 <= i < s.len() && #[trigger] s[i].id == selected;
                assert(after.sessions[i].id == selected);
            }
        }
    } else {
        let kept = s.filter(p);
        filter_keeps_distinct(s, p);
        assert forall|i: int| 0 <= i < kept.len() implies (#[trigger] kept[i]).id != id
            && kept[i].pid != pid by {
            let j = filter_member(s, p, i);
        }
        assert forall|i: int, j: int| 0 <= i < j < after.sessions.len() implies (
        #[trigger] after.sessions[i]).id != (#[trigger] after.sessions[j]).id
            && after.sessions[i].pid != after.sessions[j].pid by {
            assert(after.sessions[i] == kept[i]);
            if j < kept.len() {
                assert(after.sessions[j] == kept[j]);
            }
        }
        if let Some(selected) = after.selection {
            if state.selects_pid(pid) {
                assert(after.sessions[kept.len() as int].id == selected);
            } else {
                let i = choose|i: int| 0 <= i < s.len() && #[trigger] s[i].id == selected;
                let j = filter_keeps(s, p, i);
                assert(after.sessions[j].id == selected);
            }
        }
    }
}

/// Ids that were handed out stay below the next one to be handed out.
pub proof fn ids_stay_below(state: StateView, id: u64, pid: u32, name: Seq<char>, bound: int)
    requires
        state.ids_below(bound),
        id < bound,
    ensures
        state.added(id, pid, name).ids_below(bound),
        state.removed(id).ids_below(bound),
{
    let added = state.added(id, pid, name);
    let kept = state.sessions.filter(without_pid(pid));
    assert forall|i: int| 0 <= i < added.sessions.len() implies (#[trigger] added.sessions[i]).id
        < bound by {
        if pid != 0 && i < kept.len() {
            assert(added.sessions[i] == kept[i]);
            let j = filter_member(state.sessions, without_pid(pid), i);
        }
    }
    let removed = state.removed(id);
    assert forall|i: int| 0 <= i < removed.sessions.len() implies (
    #[trigger] removed.sessions[i]).id < bound by {
        let j = filter_member(state.sessions, without_id(id), i);
    }
}

/// A session that is gone leaves the list as well formed as it was.
pub proof fn removed_keeps_well_formed(state: StateView, id: u64)
    requires
        state.well_formed(),
    ensures
        state.removed(id).well_formed(),
        !state.removed(id).has_id(id),
{
    let after = state.removed(id);
    let s = state.sessions;
    let p = without_id(id);
    filter_keeps_distinct(s, p);
    if let Some(selected) = after.selection {
        let i = choose|i: int| 0 <= i < s.len() && #[trigger] s[i].id == selected;
        let j = filter_keeps(s, p, i);
        assert(after.sessions[j].id == selected);
    }
    if after.has_id(id) {
        let i = choose|i: int|
            0 <= i < after.sessions.len() && #[trigger] after.sessions[i].id == id;
        let j = filter_member(s, p, i);
    }
}

/// Finding the selection again leaves a well-formed list well formed.
pub proof fn restored_keeps_well_formed(state: StateView, previous: Option<(u32, Seq<char>)>)
    requires
        state.well_formed(),
    ensures
        state.restored(previous).well_formed(),
{
    if let Some((pid, name)) = previous {
        crate::lists::first_index_is_first(state.sessions, with_pid(pid));
        crate::lists::first_index_is_first(state.sessions, with_name(name));
        let after = state.restored(previous);
        if let Some(i) = first_index(state.sessions, with_pid(pid)) {
            assert(after.sessions[i].id == state.sessions[i].id);
        } else if let Some(i) = first_index(state.sessions, with_name(name)) {
            assert(after.sessions[i].id == state.sessions[i].id);
        }
    }
}

/// No application vanishes from the list when a session appears, and the new
/// session's application is in it.
pub proof fn added_loses_no_application(
    state: StateView,
    id: u64,
    pid: u32,
    name: Seq<char>,
    other: u32,
)
    ensures
        state.added(id, pid, name).has_pid(other) <==> state.has_pid(other) || other == pid,
{
    let after = state.added(id, pid, name);
    let s = state.sessions;
    if pid == 0 && state.has_pid(0) {
    } else {
        let p = without_pid(pid);
        let kept = if pid == 0 {
            s
        } else {
            s.filter(p)
        };
        assert(after.sessions == kept.push(SessionView { id, name, pid }));
        assert(after.sessions[kept.len() as int].pid == pid);
        if state.has_pid(other) && other != pid {
            let i = choose|i: int| 0 <= i < s.len() && #[trigger] s[i].pid == other;
            let j = if pid == 0 {
                i
            } else {
                filter_keeps(s, p, i)
            };
            assert(after.sessions[j].pid == other);
        }
        if after.has_pid(other) && other != pid {
            let i = choose|i: int|
                0 <= i < after.sessions.len() && #[trigger] after.sessions[i].pid == other;
            assert(after.sessions[i] == kept[i]);
            let j = if pid == 0 {
                i
            } else {
                filter_member(s, p, i)
            };
            assert(s[j].pid == other);
        }
    }
}

proof fn selected_is_current(state: StateView, i: int)
    requires
        forall|i: int, j: int|
            0 <= i < j < state.sessions.len() ==> (#[trigger] state.sessions[i]).id != (
            #[trigger] state.sessions[j]).id,
        0 <= i < state.sessions.len(),
        state.selection == Some(state.sessions[i].id),
    ensures
        state.current() == Some(state.sessions[i]),
{
    first_index_found(state.sessions, with_id(state.sessions[i].id), i);
}

/// The selection follows an application to its new session, and stays where it
/// is when another application's session appears.
pub proof fn selection_follows_application(
    state: StateView,
    id: u64,
    pid: u32,
    name: Seq<char>,
)
    requires
        state.well_formed(),
        !state.has_id(id),
        state.current() is Some,
    ensures
        state.current()->0.pid == pid && pid != 0 ==> state.added(id, pid, name).current() == Some(
            SessionView { id, name, pid },
        ),
        state.current()->0.pid != pid || pid == 0 ==> state.added(id, pid, name).current()
            == state.current(),
{
    let after = state.added(id, pid, name);
    let s = state.sessions;
    let selected = state.selection->0;
    let at = state.current_index()->0;
    crate::lists::first_index_is_first(s, with_id(selected));
    added_keeps_well_formed(state, id, pid, name);
    assert(s[at].id == selected);
    if pid == 0 {
        if !state.has_pid(0) {
            assert(after.sessions[at] == s[at]);
            selected_is_current(after, at);
        }
    } else {
        let kept = s.filter(without_pid(pid));
        if s[at].pid == pid {
            assert(state.selects_pid(pid));
            selected_is_current(after, kept.len() as int);
        } else {
            assert(!state.selects_pid(pid));
            let j = filter_keeps(s, without_pid(pid), at);
            assert(after.sessions[j] == s[at]);
            selected_is_current(after, j);
        }
    }
}

/// When a session ends, the selection is lost exactly when it was on it.
pub proof fn removal_spares_other_selection(state: StateView, id: u64)
    requires
        state.well_formed(),
        state.current() is Some,
    ensures
        state.current()->0.id == id ==> state.removed(id).current() is None,
        state.current()->0.id != id ==> state.removed(id).current() == state.current(),
{
    let after = state.removed(id);
    let s = state.sessions;
    let at = state.current_index()->0;
    crate::lists::first_index_is_first(s, with_id(state.selection->0));
    if s[at].id != id {
        removed_keeps_well_formed(state, id);
        let j = filter_keeps(s, without_id(id), at);
        selected_is_current(after, j);
    }
}

/// The state after the given sessions appeared one by one.
pub open spec fn attached(state: StateView, arrivals: Seq<SessionView>) -> StateView
    decreases arrivals.len(),
{
    if arrivals.len() == 0 {
        state
    } else {
        let last = arrivals.last();
        attached(state, arrivals.drop_last()).added(last.id, last.pid, last.name)
    }
}

/// Sessions that appear one by one, each under its own id, leave a well-formed
/// list of exactly their applications.
pub proof fn attached_lists_applications(arrivals: Seq<SessionView>, pid: u32)
    requires
        forall|i: int, j: int|
            0 <= i < j < arrivals.len() ==> (#[trigger] arrivals[i]).id != (
            #[trigger] arrivals[j]).id,
    ensures
        attached(StateView::detached(), arrivals).well_formed(),
        attached(StateView::detached(), arrivals).has_pid(pid) <==> exists|i: int|
            0 <= i < arrivals.len() && (#[trigger] arrivals[i]).pid == pid,
        forall|k: int|
            0 <= k < attached(StateView::detached(), arrivals).sessions.len() ==> exists|i: int|
                0 <= i < arrivals.len() && arrivals[i]
                    == #[trigger] attached(StateView::detached(), arrivals).sessions[k],
    decreases arrivals.len(),
{
    if arrivals.len() > 0 {
        let front = arrivals.drop_last();
        let last = arrivals.last();
        let before = attached(StateView::detached(), front);
        let after = attached(StateView::detached(), arrivals);
        assert(forall|i: int| 0 <= i < front.len() ==> front[i] == #[trigger] arrivals[i]);
        attached_lists_applications(front, pid);
        assert(!before.has_id(last.id)) by {
            if before.has_id(last.id) {
                let k = choose|k: int|
                    0 <= k < before.sessions.len() && #[trigger] before.sessions[k].id == last.id;
                let i = choose|i: int|
                    0 <= i < front.len() && front[i] == before.sessions[k];
                assert(arrivals[i].id == last.id);
            }
        }
        added_keeps_well_formed(before, last.id, last.pid, last.name);
        added_loses_no_application(before, last.id, last.pid, last.name, pid);
        if before.has_pid(pid) {
            let i = choose|i: int| 0 <= i < front.len() && (#[trigger] front[i]).pid == pid;
            assert(arrivals[i].pid == pid);
        }
        if last.pid == pid {
            assert(arrivals[arrivals.len() - 1].pid == pid);
        }
        if exists|i: int| 0 <= i < arrivals.len() && (#[trigger] arrivals[i]).pid == pid {
            let i = choose|i: int| 0 <= i < arrivals.len() && (#[trigger] arrivals[i]).pid == pid;
            if i < front.len() {
                assert(front[i].pid == pid);
            }
        }
        assert forall|k: int| 0 <= k < after.sessions.len() implies exists|i: int|
            0 <= i < arrivals.len() && arrivals[i] == #[trigger] after.sessions[k] by {
            let session = after.sessions[k];
            if session == (SessionView { id: last.id, name: last.name, pid: last.pid }) {
                assert(arrivals[arrivals.len() - 1] == session);
            } else {
                let kept = before.sessions.filter(without_pid(last.pid));
                let j = if last.pid == 0 {
                    k
                } else {
                    assert(after.sessions[k] == kept[k]);
                    filter_member(before.sessions, without_pid(last.pid), k)
                };
                assert(before.sessions[j] == session);
                let i = choose|i: int|
                    0 <= i < front.len() && front[i] == before.sessions[j];
                assert(arrivals[i] == session);
            }
        }
    }
}

/// A rebuild keeps the selection: on the same process where that still has a
/// session, or else on a session of the same name, or else nowhere.
pub proof fn rebuild_preserves_selection(before: StateView, arrivals: Seq<SessionView>)
    requires
        before.current() is Some,
        forall|i: int, j: int|
            0 <= i < j < arrivals.len() ==> (#[trigger] arrivals[i]).id != (
            #[trigger] arrivals[j]).id,
    ensures
        ({
            let selected = before.current()->0;
            let listed = attached(StateView::detached(), arrivals);
            let after = listed.restored(before.remembered());
            let same_process = exists|i: int|
                0 <= i < arrivals.len() && (#[trigger] arrivals[i]).pid == selected.pid;
            let same_name = exists|i: int|
                0 <= i < listed.sessions.len() && (#[trigger] listed.sessions[i]).name
                    == selected.name;
            &&& after.sessions == listed.sessions
            &&& same_process ==> after.current() is Some && after.current()->0.pid == selected.pid
            &&& !same_process && same_name ==> after.current() is Some && after.current()->0.name
                == selected.name
            &&& !same_process && !same_name ==> after.selection is None
        }),
{
    let selected = before.current()->0;
    let listed = attached(StateView::detached(), arrivals);
    let after = listed.restored(before.remembered());
    attached_lists_applications(arrivals, selected.pid);
    crate::lists::first_index_is_first(listed.sessions, with_pid(selected.pid));
    crate::lists::first_index_is_first(listed.sessions, with_name(selected.name));
    match first_index(listed.sessions, with_pid(selected.pid)) {
        Some(i) => {
            assert(listed.has_pid(selected.pid));
            selected_is_current(after, i);
        },
        None => {
            assert(!listed.has_pid(selected.pid));
            if let Some(i) = first_index(listed.sessions, with_name(selected.name)) {
                assert(listed.sessions[i].name == selected.name);
                selected_is_current(after, i);
            }
        },
    }
}

/// The selected session is the first in the list with the selected id, and there
/// is none exactly where nothing is selected or no session has that id.
pub proof fn current_has_the_selected_id(state: StateView)
    ensures
        state.current_index() matches Some(i) ==> {
            &&& 0 <= i < state.sessions.len()
            &&& state.selection == Some(state.sessions[i].id)
            &&& state.current() == Some(state.sessions[i])
            &&& forall|j: int| 0 <= j < i ==> (#[trigger] state.sessions[j]).id
                != state.sessions[i].id
        },
        state.current_index() is None ==> state.current() is None,
        state.current_index() is None <==> forall|j: int|
            0 <= j < state.sessions.len() ==> Some((#[trigger] state.sessions[j]).id)
                != state.selection,
{
    if let Some(id) = state.selection {
        crate::lists::first_index_is_first(state.sessions, with_id(id));
    }
}

/// When a session ends, its entry goes and nothing else does: whatever is
/// selected, every other entry stays, in its order, and without an entry for it
/// the list stays as it is. Only a selection of that session is dropped.
pub proof fn removal_takes_nothing_else(state: StateView, id: u64, session: SessionView)
    ensures
        state.removed(id).sessions.contains(session) <==> state.sessions.contains(session)
            && session.id != id,
        in_order(state.removed(id).sessions, state.sessions),
        !state.has_id(id) ==> state.removed(id).sessions == state.sessions,
        state.selection == Some(id) ==> state.removed(id).selection is None,
        state.selection != Some(id) ==> state.removed(id).selection == state.selection,
{
    let p = without_id(id);
    crate::lists::filter_holds(state.sessions, p, session);
    filter_in_order(state.sessions, p);
    if !state.has_id(id) {
        assert forall|i: int| 0 <= i < state.sessions.len() implies p(
            #[trigger] state.sessions[i],
        ) by {
            if state.sessions[i].id == id {
                assert(state.has_id(id));
            }
        }
        filter_of_all(state.sessions, p);
    }
}

/// Removal goes through the list entry by entry.
pub proof fn removal_goes_entry_by_entry(state: StateView, last: SessionView, id: u64)
    ensures
        ({
            let longer = StateView { sessions: state.sessions.push(last), ..state };
            longer.removed(id).sessions == if last.id == id {
                state.removed(id).sessions
            } else {
                state.removed(id).sessions.push(last)
            }
        }),
{
    filter_push(state.sessions, without_id(id), last);
}

/// When an application's session appears, it stands at the end of the list, the
/// entries of other applications stay in their order, and those of the same
/// application go. The selection moves to it exactly where it was on one of
/// those.
pub proof fn arrival_replaces_the_application(
    state: StateView,
    id: u64,
    pid: u32,
    name: Seq<char>,
    session: SessionView,
)
    requires
        pid != 0,
    ensures
        ({
            let after = state.added(id, pid, name);
            let others = after.sessions.drop_last();
            let moved = exists|i: int|
                0 <= i < state.sessions.len() && (#[trigger] state.sessions[i]).pid == pid && Some(
                    state.sessions[i].id,
                ) == state.selection;
            &&& after.sessions.len() > 0
            &&& after.sessions.last() == (SessionView { id, name, pid })
            &&& others.contains(session) <==> state.sessions.contains(session) && session.pid != pid
            &&& in_order(others, state.sessions)
            &&& !state.has_pid(pid) ==> others == state.sessions
            &&& moved ==> after.selection == Some(id)
            &&& !moved ==> after.selection == state.selection
        }),
{
    let p = without_pid(pid);
    let kept = state.sessions.filter(p);
    let after = state.added(id, pid, name);
    assert(after.sessions.drop_last() =~= kept);
    crate::lists::filter_holds(state.sessions, p, session);
    filter_in_order(state.sessions, p);
    if !state.has_pid(pid) {
        assert forall|i: int| 0 <= i < state.sessions.len() implies p(
            #[trigger] state.sessions[i],
        ) by {
            if state.sessions[i].pid == pid {
                assert(state.has_pid(pid));
            }
        }
        filter_of_all(state.sessions, p);
    }
}

/// Arrival goes through the list entry by entry.
pub proof fn arrival_goes_entry_by_entry(
    state: StateView,
    first: SessionView,
    id: u64,
    pid: u32,
    name: Seq<char>,
)
    requires
        pid != 0,
    ensures
        ({
            let longer = StateView { sessions: state.sessions.push(first), ..state };
            let (short, long) = (
                state.added(id, pid, name).sessions,
                longer.added(id, pid, name).sessions,
            );
            long == if first.pid == pid {
                short
            } else {
                short.drop_last().push(first).push(short.last())
            }
        }),
{
    let p = without_pid(pid);
    filter_push(state.sessions, p, first);
    let short = state.added(id, pid, name).sessions;
    assert(short.drop_last() =~= state.sessions.filter(p));
}

/// The system sounds have one entry: the first of their sessions is put at the
/// end of the list, any further one changes nothing, and the selection stays.
pub proof fn system_sounds_have_one_entry(state: StateView, id: u64, name: Seq<char>)
    ensures
        state.has_pid(0) ==> state.added(id, 0, name) == state,
        !state.has_pid(0) ==> state.added(id, 0, name).sessions == state.sessions.push(
            SessionView { id, name, pid: 0 },
        ) && state.added(id, 0, name).selection == state.selection,
{
}

/// A session is announced as the system sounds exactly where no process owns
/// it, else by the name of its process, else by the number of the process.
pub proof fn sessions_have_their_names(pid: u32, process: Option<Seq<char>>)
    ensures
        pid == 0 ==> session_label(pid, process) == "System sounds"@,
        pid != 0 && process is Some ==> session_label(pid, process) == process->0,
        pid != 0 && process is None ==> {
            let label = session_label(pid, process);
            &&& label.len() > 8
            &&& label.take(8) == "Process "@
            &&& crate::text::read_digits(label.skip(8)) == pid
        },
{
    reveal_strlit("Process ");
    crate::text::digits_read_back(pid as nat);
    let label = "Process "@ + crate::text::digits(pid as nat);
    assert(label.take(8) =~= "Process "@);
    assert(label.skip(8) =~= crate::text::digits(pid as nat));
}

/// What is kept of the selection over a rebuild is the process and the name of
/// the selected session, and nothing where none is selected.
pub proof fn selection_is_remembered(state: StateView)
    ensures
        state.current() is None <==> state.remembered() is None,
        state.current() matches Some(session) ==> state.remembered() == Some(
            (session.pid, session.name),
        ),
{
}

/// The remembered selection is found again as the first session of its process;
/// without one, as the first session of its name; and otherwise not at all. The
/// list stays as it is, and nothing is selected where nothing was remembered.
pub proof fn selection_is_found_again(state: StateView, pid: u32, name: Seq<char>, i: int)
    requires
        0 <= i < state.sessions.len(),
    ensures
        state.restored(None).selection is None,
        state.restored(None).sessions == state.sessions,
        state.restored(Some((pid, name))).sessions == state.sessions,
        state.sessions[i].pid == pid && (forall|j: int|
            0 <= j < i ==> (#[trigger] state.sessions[j]).pid != pid) ==> state.restored(
            Some((pid, name)),
        ).selection == Some(state.sessions[i].id),
        !state.has_pid(pid) && state.sessions[i].name == name && (forall|j: int|
            0 <= j < i ==> (#[trigger] state.sessions[j]).name != name) ==> state.restored(
            Some((pid, name)),
        ).selection == Some(state.sessions[i].id),
        !state.has_pid(pid) && (forall|j: int|
            0 <= j < state.sessions.len() ==> (#[trigger] state.sessions[j]).name != name)
            ==> state.restored(Some((pid, name))).selection is None,
{
    crate::lists::first_index_is_first(state.sessions, with_pid(pid));
    crate::lists::first_index_is_first(state.sessions, with_name(name));
    if state.sessions[i].pid == pid && (forall|j: int|
        0 <= j < i ==> (#[trigger] state.sessions[j]).pid != pid) {
        first_index_found(state.sessions, with_pid(pid), i);
    }
    if let Some(k) = first_index(state.sessions, with_pid(pid)) {
        assert(state.has_pid(pid)) by {
            assert(state.sessions[k].pid == pid);
        }
    }
    if state.sessions[i].name == name && (forall|j: int|
        0 <= j < i ==> (#[trigger] state.sessions[j]).name != name) {
        first_index_found(state.sessions, with_name(name), i);
    }
}

/// The name of a process is that of its image file without the extension,
/// wherever on a drive it is, and the whole path where that names no file.
pub proof fn process_is_named_by_its_file(
    dir: Seq<char>,
    base: Seq<char>,
    extension: Seq<char>,
    path: Seq<char>,
)
    requires
        dir.len() >= 2,
        'a' <= dir[0] <= 'z' || 'A' <= dir[0] <= 'Z',
        dir[1] == ':',
        base.len() > 0,
        base != seq!['.'] || extension.len() > 0,
        forall|i: int| 0 <= i < base.len() ==> #[trigger] base[i] != '\\' && base[i] != '/',
        forall|i: int|
            0 <= i < extension.len() ==> #[trigger] extension[i] != '\\' && extension[i] != '/'
                && extension[i] != '.',
    ensures
        image_name(dir + seq!['\\'] + base + seq!['.'] + extension) == base,
        crate::winpath::stem(path) is None ==> image_name(path) == path,
        crate::winpath::stem(path) is Some ==> image_name(path) == crate::winpath::stem(path)->0,
{
    if crate::winpath::is_dot(base) {
        assert(base =~= seq!['.']);
    }
    crate::winpath::stem_of_file_on_drive(dir, base, extension);
}

/// The model of a state has an entry for every session, in order, with its id,
/// its name and its process, and the selection.
pub proof fn state_is_modelled_in_full(state: State, i: int)
    requires
        0 <= i < state.sessions@.len(),
    ensures
        state@.selection == state.selection,
        state@.sessions.len() == state.sessions@.len(),
        state@.sessions[i].id == state.sessions@[i].id,
        state@.sessions[i].name == state.sessions@[i].name@,
        state@.sessions[i].pid == state.sessions@[i].pid,
        state@.ids().len() == state.sessions@.len(),
        state@.ids()[i] == state.sessions@[i].id,
{
}

/// A session leaves the list when it reports that it has expired, which is state
/// 2, and with no other report; the others are in the list exactly as before.
pub proof fn only_expiry_ends_a_session(
    state: StateView,
    id: u64,
    new_state: int,
    session: SessionView,
)
    ensures
        new_state != 2 ==> state.reported(id, new_state) == state,
        new_state == 2 ==> !state.reported(id, new_state).sessions.contains(
            SessionView { id, ..session },
        ),
        session.id != id ==> (state.reported(id, new_state).sessions.contains(session)
            <==> state.sessions.contains(session)),
{
    removal_takes_nothing_else(state, id, session);
    removal_takes_nothing_else(state, id, SessionView { id, ..session });
}

} // verus!
