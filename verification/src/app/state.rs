use vstd::prelude::*;

verus! {

/// Connection state of the receiver.
#[derive(Debug, Clone, Copy, PartialEq, Eq, Structural)]
pub enum ConnectionState {
    Idle,
    Waiting,
    Connected,
    Streaming,
    Disconnected,
}

/// Name under which each connection state is reported.
pub open spec fn connection_state_name(s: ConnectionState) -> Seq<char> {
    match s {
        ConnectionState::Idle => "idle"@,
        ConnectionState::Waiting => "waiting"@,
        ConnectionState::Connected => "connected"@,
        ConnectionState::Streaming => "streaming"@,
        ConnectionState::Disconnected => "disconnected"@,
    }
}

impl ConnectionState {
    /// The name under which this state is reported.
    pub fn as_str(&self) -> (r: &'static str)
        ensures
            r@ == connection_state_name(*self),
    {
        match self {
            ConnectionState::Idle => "idle",
            ConnectionState::Waiting => "waiting",
            ConnectionState::Connected => "connected",
            ConnectionState::Streaming => "streaming",
            ConnectionState::Disconnected => "disconnected",
        }
    }
}

/// Distinct states are reported under distinct names.
pub proof fn law_connection_state_names_distinct(a: ConnectionState, b: ConnectionState)
    requires
        a != b,
    ensures
        connection_state_name(a) != connection_state_name(b),
{
    reveal_strlit("idle");
    reveal_strlit("waiting");
    reveal_strlit("connected");
    reveal_strlit("streaming");
    reveal_strlit("disconnected");
    assert(connection_state_name(a).len() != connection_state_name(b).len()
        || connection_state_name(a)[0] != connection_state_name(b)[0]);
}

} // verus!
