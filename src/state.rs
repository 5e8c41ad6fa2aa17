//! The lifecycle state of one connection.
use vstd::prelude::*;

verus! {

/// Who is playing on a connection that finished logging in.
#[derive(Debug)]
pub struct PlayerInfo {
    pub name: String,
    pub uuid: Option<u128>,
}

/// Where a connection in the login state stands.
#[derive(Debug, Clone, Copy, PartialEq, Eq, Structural)]
pub enum LoginState {
    AwaitingLoginStart,
}

/// The state of a connection. It only ever moves forward: from `Handshake`
/// to `Status` or `Login`, and from `Login` to `Play`.
#[derive(Debug)]
pub enum State {
    Handshake,
    Status,
    Login(LoginState),
    Play(PlayerInfo),
}

/// The tag of a connection state, without its payload.
#[derive(Debug, Clone, Copy, PartialEq, Eq, Structural)]
pub enum StateKind {
    Handshake,
    Status,
    Login,
    Play,
}

/// The tag of `s`.
pub open spec fn state_kind(s: State) -> StateKind {
    match s {
        State::Handshake => StateKind::Handshake,
        State::Status => StateKind::Status,
        State::Login(_) => StateKind::Login,
        State::Play(_) => StateKind::Play,
    }
}

impl State {
    /// The tag of this state.
    pub fn kind(&self) -> (k: StateKind)
        ensures
            k == state_kind(*self),
    {
        match self {
            State::Handshake => StateKind::Handshake,
            State::Status => StateKind::Status,
            State::Login(_) => StateKind::Login,
            State::Play(_) => StateKind::Play,
        }
    }

    /// The player's name once the connection is in play.
    pub fn username(&self) -> (r: Option<&str>)
        ensures
            match *self {
                State::Play(info) => r matches Some(s) && s@ == info.name@,
                _ => r is None,
            },
    {
        match self {
            State::Play(info) => Some(info.name.as_str()),
            _ => None,
        }
    }
}

} // verus!
