//! The voice-connection controller: a two-state machine (disconnected or
//! connected to one call) that decides which call operations to perform.
//! Performing them against the voice service is left to the caller, in the
//! order returned.

use crate::message::{id_value, is_id_text, parse_id, ConnectionInfo, GuildIdDef, OperatorMsg, UserIdDef};
use vstd::prelude::*;

verus! {

/// One operation on the voice call, the transport or the playback session.
#[derive(Clone, Debug)]
pub enum Action {
    /// Leave the call currently joined.
    LeaveCall,
    /// Discard the audio still queued in the transport, so that nothing
    /// buffered for an earlier call is played into the next one.
    DrainAudio,
    /// Join the call that the info describes.
    JoinCall(ConnectionInfo),
    /// Attach the transport's consumer end as the call's outgoing audio, at
    /// automatic bitrate.
    AttachSource,
    /// Toggle the streaming session between paused and playing.
    TogglePlayback,
}

pub struct GrooverView {
    pub guild_id: u64,
    pub user_id: u64,
    /// The call joined, if any.
    pub connection: Option<ConnectionInfo>,
    pub source_set: bool,
}

#[derive(Clone)]
pub struct Groover {
    guild_id: GuildIdDef,
    user_id: UserIdDef,
    connection: Option<ConnectionInfo>,
    pub is_source_set: bool,
}

impl View for Groover {
    type V = GrooverView;

    closed spec fn view(&self) -> GrooverView {
        GrooverView {
            guild_id: self.guild_id.0,
            user_id: self.user_id.0,
            connection: self.connection,
            source_set: self.is_source_set,
        }
    }
}

/// The state after `connect(info)`.
pub open spec fn connect_state(s: GrooverView, info: ConnectionInfo) -> GrooverView {
    GrooverView { connection: Some(info), ..s }
}

/// What `connect(info)` performs: leave the current call first, if any, then
/// drain the transport and join the new call. One transport serves every
/// connection, so stale audio is dropped before each join.
pub open spec fn connect_actions(s: GrooverView, info: ConnectionInfo) -> Seq<Action> {
    if s.connection is Some {
        seq![Action::LeaveCall, Action::DrainAudio, Action::JoinCall(info)]
    } else {
        seq![Action::DrainAudio, Action::JoinCall(info)]
    }
}

/// The state after `disconnect()`.
pub open spec fn disconnect_state(s: GrooverView) -> GrooverView {
    GrooverView { connection: None, ..s }
}

/// What `disconnect()` performs: leave the call if one is joined.
pub open spec fn disconnect_actions(s: GrooverView) -> Seq<Action> {
    if s.connection is Some {
        seq![Action::LeaveCall]
    } else {
        Seq::empty()
    }
}

/// The state after handling one message; `None` stands for a message that
/// could not be decoded.
pub open spec fn dispatch_state(s: GrooverView, msg: Option<OperatorMsg>) -> GrooverView {
    match msg {
        Some(OperatorMsg::Join { info }) => connect_state(s, info),
        _ => s,
    }
}

/// What handling one message performs.
pub open spec fn dispatch_actions(s: GrooverView, msg: Option<OperatorMsg>) -> Seq<Action> {
    match msg {
        Some(OperatorMsg::Join { info }) => connect_actions(s, info),
        Some(OperatorMsg::PausePlay) => seq![Action::TogglePlayback],
        None => Seq::empty(),
    }
}

/// The state after handling `msgs` in order.
pub open spec fn run_state(s: GrooverView, msgs: Seq<Option<OperatorMsg>>) -> GrooverView
    decreases msgs.len(),
{
    if msgs.len() == 0 {
        s
    } else {
        run_state(dispatch_state(s, msgs[0]), msgs.skip(1))
    }
}

/// Everything performed while handling `msgs` in order.
pub open spec fn run_actions(s: GrooverView, msgs: Seq<Option<OperatorMsg>>) -> Seq<Action>
    decreases msgs.len(),
{
    if msgs.len() == 0 {
        Seq::empty()
    } else {
        dispatch_actions(s, msgs[0]) + run_actions(dispatch_state(s, msgs[0]), msgs.skip(1))
    }
}

/// How many calls are open after performing `acts`, starting from `start`.
pub open spec fn open_calls(start: int, acts: Seq<Action>) -> int
    decreases acts.len(),
{
    if acts.len() == 0 {
        start
    } else {
        open_calls(start, acts.drop_last()) + match acts.last() {
            Action::JoinCall(_) => 1int,
            Action::LeaveCall => -1int,
            _ => 0int,
        }
    }
}

/// The number of calls open in state `s`.
pub open spec fn calls_in(s: GrooverView) -> int {
    if s.connection is Some {
        1
    } else {
        0
    }
}

/// Connecting while connected tears the old call down before the new one is
/// joined: at no point during `connect` are two calls open, and afterwards
/// exactly one is, the new one.
pub proof fn lemma_reconnect_keeps_one_call(s: GrooverView, info: ConnectionInfo)
    ensures
        forall|k: int|
            0 <= k <= connect_actions(s, info).len() ==> open_calls(calls_in(s), #[trigger] connect_actions(s, info).take(k)) <= 1,
        open_calls(calls_in(s), connect_actions(s, info)) == 1,
        calls_in(connect_state(s, info)) == 1,
        connect_state(s, info).connection == Some(info),
{
    let acts = connect_actions(s, info);
    let start = calls_in(s);
    assert(acts.take(0) =~= Seq::<Action>::empty());
    assert(open_calls(start, acts.take(0)) == start);
    assert forall|k: int| 1 <= k <= acts.len() implies #[trigger] acts.take(k).drop_last() == acts.take(k - 1)
        && acts.take(k).last() == acts[k - 1] by {
        assert(acts.take(k).drop_last() =~= acts.take(k - 1));
    }
    assert(acts.take(acts.len() as int) =~= acts);
    if s.connection is Some {
        assert(open_calls(start, acts.take(1)) == 0);
        assert(open_calls(start, acts.take(2)) == 0);
        assert(open_calls(start, acts.take(3)) == 1);
    } else {
        assert(open_calls(start, acts.take(1)) == 0);
        assert(open_calls(start, acts.take(2)) == 1);
    }
}

/// Disconnecting twice ends where disconnecting once does, and the second
/// time performs nothing.
pub proof fn lemma_disconnect_idempotent(s: GrooverView)
    ensures
        disconnect_state(disconnect_state(s)) == disconnect_state(s),
        disconnect_actions(disconnect_state(s)) == Seq::<Action>::empty(),
{
}

/// An undecodable message between two joins changes nothing: both joins are
/// applied, in order, and the controller ends connected to the second call.
pub proof fn lemma_undecodable_message_is_skipped(s: GrooverView, a: ConnectionInfo, b: ConnectionInfo)
    ensures
        run_state(s, seq![Some(OperatorMsg::Join { info: a }), None, Some(OperatorMsg::Join { info: b })])
            == run_state(s, seq![Some(OperatorMsg::Join { info: a }), Some(OperatorMsg::Join { info: b })]),
        run_actions(s, seq![Some(OperatorMsg::Join { info: a }), None, Some(OperatorMsg::Join { info: b })])
            == run_actions(s, seq![Some(OperatorMsg::Join { info: a }), Some(OperatorMsg::Join { info: b })]),
        run_actions(s, seq![Some(OperatorMsg::Join { info: a }), None, Some(OperatorMsg::Join { info: b })])
            == connect_actions(s, a) + seq![Action::LeaveCall, Action::DrainAudio, Action::JoinCall(b)],
        run_state(s, seq![Some(OperatorMsg::Join { info: a }), None, Some(OperatorMsg::Join { info: b })]).connection
            == Some(b),
{
    let ja = Some(OperatorMsg::Join { info: a });
    let jb = Some(OperatorMsg::Join { info: b });
    let three: Seq<Option<OperatorMsg>> = seq![ja, None, jb];
    let two: Seq<Option<OperatorMsg>> = seq![ja, jb];
    let sa = connect_state(s, a);
    let sb = connect_state(sa, b);
    let last: Seq<Option<OperatorMsg>> = seq![jb];
    assert(three.skip(1) =~= seq![None, jb]);
    assert(three.skip(1).skip(1) =~= last);
    assert(two.skip(1) =~= last);
    assert(last.skip(1) =~= Seq::<Option<OperatorMsg>>::empty());
    assert(run_actions(sb, last.skip(1)) == Seq::<Action>::empty());
    assert(run_actions(sa, last) =~= seq![Action::LeaveCall, Action::DrainAudio, Action::JoinCall(b)]);
    assert(run_actions(sa, seq![None, jb]) =~= run_actions(sa, last));
    assert(run_actions(s, three) =~= connect_actions(s, a) + run_actions(sa, last));
    assert(run_actions(s, two) =~= connect_actions(s, a) + run_actions(sa, last));
    assert(run_state(sb, last.skip(1)) == sb);
    assert(run_state(sa, last) == sb);
    assert(run_state(sa, seq![None, jb]) == sb);
    assert(run_state(s, three) == sb);
    assert(run_state(s, two) == sb);
}

impl Groover {
    /// A disconnected controller for the given server and user, both written
    /// as decimal identifiers.
    pub fn new(guild_id: String, user_id: String) -> (r: Groover)
        requires
            is_id_text(guild_id@),
            is_id_text(user_id@),
        ensures
            r@.guild_id == id_value(guild_id@),
            r@.user_id == id_value(user_id@),
            r@.connection is None,
            !r@.source_set,
    {
        let g = parse_id(guild_id.as_str()).unwrap();
        let u = parse_id(user_id.as_str()).unwrap();
        Groover { guild_id: GuildIdDef(g), user_id: UserIdDef(u), connection: None, is_source_set: false }
    }

    pub fn guild_id(&self) -> (r: u64)
        ensures
            r == self@.guild_id,
    {
        self.guild_id.0
    }

    pub fn user_id(&self) -> (r: u64)
        ensures
            r == self@.user_id,
    {
        self.user_id.0
    }

    pub fn is_connected(&self) -> (r: bool)
        ensures
            r == self@.connection is Some,
    {
        self.connection.is_some()
    }

    /// The call currently joined, if any.
    pub fn connection(&self) -> (r: Option<ConnectionInfo>)
        ensures
            r == self@.connection,
    {
        match &self.connection {
            Some(info) => Some(info.duplicate()),
            None => None,
        }
    }

    /// Joins the call that `info` describes, leaving the current one first.
    pub fn connect(&mut self, info: ConnectionInfo) -> (r: Vec<Action>)
        ensures
            final(self)@ == connect_state(old(self)@, info),
            r@ == connect_actions(old(self)@, info),
    {
        let mut actions: Vec<Action> = self.disconnect();
        actions.push(Action::DrainAudio);
        actions.push(Action::JoinCall(info.duplicate()));
        self.connection = Some(info);
        assert(actions@ =~= connect_actions(old(self)@, info));
        actions
    }

    /// Leaves the current call; does nothing when no call is joined.
    pub fn disconnect(&mut self) -> (r: Vec<Action>)
        ensures
            final(self)@ == disconnect_state(old(self)@),
            r@ == disconnect_actions(old(self)@),
    {
        let mut actions: Vec<Action> = Vec::new();
        if self.connection.is_some() {
            actions.push(Action::LeaveCall);
        }
        self.connection = None;
        assert(actions@ =~= disconnect_actions(old(self)@));
        actions
    }

    /// Handles one control message; `None` stands for a message that could
    /// not be decoded, which is skipped.
    pub fn dispatch(&mut self, msg: Option<OperatorMsg>) -> (r: Vec<Action>)
        ensures
            final(self)@ == dispatch_state(old(self)@, msg),
            r@ == dispatch_actions(old(self)@, msg),
    {
        match msg {
            Some(OperatorMsg::Join { info }) => self.connect(info),
            Some(OperatorMsg::PausePlay) => {
                let r = vec![Action::TogglePlayback];
                assert(r@ =~= seq![Action::TogglePlayback]);
                r
            },
            None => Vec::new(),
        }
    }

    /// Records that joining the call failed: the controller is disconnected,
    /// and there is no call to leave.
    pub fn join_failed(&mut self)
        ensures
            final(self)@ == disconnect_state(old(self)@),
    {
        self.connection = None;
    }

    /// Attaches the transport to the joined call unless it already is:
    /// `AttachSource` when connected without a source, nothing otherwise.
    pub fn attach_if_needed(&mut self) -> (r: Vec<Action>)
        ensures
            old(self)@.connection is Some && !old(self)@.source_set ==> {
                &&& final(self)@ == (GrooverView { source_set: true, ..old(self)@ })
                &&& r@ == seq![Action::AttachSource]
            },
            !(old(self)@.connection is Some && !old(self)@.source_set) ==> {
                &&& final(self)@ == old(self)@
                &&& r@ == Seq::<Action>::empty()
            },
    {
        if self.connection.is_some() && !self.is_source_set {
            self.set_source()
        } else {
            let r: Vec<Action> = Vec::new();
            assert(r@ =~= Seq::<Action>::empty());
            r
        }
    }

    /// Attaches the transport as the joined call's outgoing audio.
    pub fn set_source(&mut self) -> (r: Vec<Action>)
        requires
            old(self)@.connection is Some,
        ensures
            final(self)@ == (GrooverView { source_set: true, ..old(self)@ }),
            r@ == seq![Action::AttachSource],
    {
        self.is_source_set = true;
        let r = vec![Action::AttachSource];
        assert(r@ =~= seq![Action::AttachSource]);
        r
    }
}

} // verus!
