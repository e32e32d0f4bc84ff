//! Player identities, inputs and the commands that change them.
use vstd::prelude::*;

verus! {

/// A stable per-session identity of a player; also the identity of the client
/// that controls it.
#[derive(Clone, Copy, Debug, PartialEq, Eq, Hash, Structural)]
pub struct PlayerId(pub u8);

impl PlayerId {
    pub fn as_usize(&self) -> (r: usize)
        ensures
            r == self.0 as usize,
    {
        self.0 as usize
    }
}

/// The pending input of one player. `jump` is edge-triggered: a step consumes
/// it and clears it. `left` and `right` are level-triggered: they stay set
/// until a command changes them.
#[derive(Clone, Copy, Debug, PartialEq, Eq, Structural)]
pub struct PlayerInput {
    pub jump: bool,
    pub left: bool,
    pub right: bool,
}

impl Default for PlayerInput {
    fn default() -> (r: PlayerInput)
        ensures
            r == PlayerInput::idle(),
    {
        PlayerInput { jump: false, left: false, right: false }
    }
}

/// The one boolean field of a [`PlayerInput`] that an input command sets.
#[derive(Clone, Copy, Debug, PartialEq, Eq, Structural)]
pub enum PlayerCommand {
    Jump,
    Left,
    Right,
}

impl PlayerInput {
    /// The input of a freshly created player: nothing pressed.
    pub open spec fn idle() -> PlayerInput {
        PlayerInput { jump: false, left: false, right: false }
    }

    /// This input with the field that `axis` names set to `value`.
    pub open spec fn with(self, axis: PlayerCommand, value: bool) -> PlayerInput {
        match axis {
            PlayerCommand::Jump => PlayerInput { jump: value, ..self },
            PlayerCommand::Left => PlayerInput { left: value, ..self },
            PlayerCommand::Right => PlayerInput { right: value, ..self },
        }
    }

    /// Horizontal push of this input: +1 for right alone, -1 for left alone,
    /// 0 for neither or both.
    pub open spec fn push_spec(self) -> int {
        (if self.right { 1int } else { 0int }) - (if self.left { 1int } else { 0int })
    }

    /// Sets exactly the field that `axis` names.
    pub fn set(&mut self, axis: PlayerCommand, value: bool)
        ensures
            *final(self) == old(self).with(axis, value),
    {
        match axis {
            PlayerCommand::Jump => self.jump = value,
            PlayerCommand::Left => self.left = value,
            PlayerCommand::Right => self.right = value,
        }
    }

    /// The signed horizontal direction in which this input pushes.
    pub fn push(&self) -> (r: i8)
        ensures
            r as int == self.push_spec(),
    {
        let r: i8 = if self.right { 1 } else { 0 };
        if self.left { r - 1 } else { r }
    }
}

/// An instruction to the world, checked against the identity that submitted
/// it before it is applied.
#[derive(Clone, Copy, Debug, PartialEq, Eq, Structural)]
pub enum GameCommand {
    /// Give a newly connected client a player. Only the authoritative side
    /// issues this.
    SpawnPlayer { client_handle: u32 },
    /// Set one input field of one player.
    Input(PlayerId, PlayerCommand, bool),
}

impl GameCommand {
    /// A command submitted by `client_id` is valid when it is an input command
    /// for the client's own player.
    pub open spec fn valid_from(self, client_id: usize) -> bool {
        match self {
            GameCommand::SpawnPlayer { .. } => false,
            GameCommand::Input(id, _, _) => id.0 as usize == client_id,
        }
    }

    /// Whether `command`, submitted by client `client_id`, may be applied. A
    /// spawn never may: it comes only through the trusted path. An input
    /// command may only steer the submitting client's own player.
    pub fn command_is_valid(command: &GameCommand, client_id: usize) -> (r: bool)
        ensures
            r == command.valid_from(client_id),
    {
        match command {
            GameCommand::SpawnPlayer { .. } => false,
            GameCommand::Input(player_id, _, _) => player_id.as_usize() == client_id,
        }
    }
}

/// Whatever identity submits it, a spawn command is rejected, and so is an
/// input command for another client's player: a command is accepted only as
/// an input command for the submitting client's own player.
pub proof fn lemma_validation_rejects(command: GameCommand, client_id: usize)
    ensures
        command is SpawnPlayer ==> !command.valid_from(client_id),
        command.valid_from(client_id) ==> command is Input && command->Input_0.0 as usize
            == client_id,
{
}

} // verus!
