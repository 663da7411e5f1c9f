//! The game state: which of the two fixed identities moves next and how many
//! sticks remain in the shared pile, together with the transition rules.

use vstd::prelude::*;

verus! {

/// One of the two fixed identities that alternate turns for the whole game.
#[derive(Clone, Copy, PartialEq, Eq, Structural, Debug)]
pub enum Player {
    Human,
    Computer,
}

impl Player {
    /// Whether this identity is the automated mover.
    pub open spec fn spec_is_computer(self) -> bool {
        self is Computer
    }

    /// The opposing identity.
    pub open spec fn spec_other(self) -> Player {
        if self is Computer {
            Player::Human
        } else {
            Player::Computer
        }
    }

    /// Builds the identity with the requested capability: the automated mover
    /// when `is_computer` holds, the human mover otherwise.
    pub fn new(is_computer: bool) -> (p: Player)
        ensures
            p.spec_is_computer() == is_computer,
    {
        if is_computer {
            Player::Computer
        } else {
            Player::Human
        }
    }

    /// Tells the two identities apart at run time.
    pub fn is_computer(&self) -> (b: bool)
        ensures
            b == self.spec_is_computer(),
    {
        match self {
            Player::Computer => true,
            Player::Human => false,
        }
    }

    /// The display label of this identity.
    pub fn name(&self) -> (s: &'static str)
        ensures
            self is Human ==> s@ == "Human"@,
            self is Computer ==> s@ == "Computer"@,
    {
        match self {
            Player::Human => "Human",
            Player::Computer => "Computer",
        }
    }
}

/// The single recoverable failure: a requested take amount outside the legal
/// range for the current pile.
#[derive(Clone, Copy, PartialEq, Eq, Structural, Debug)]
pub enum MoveError {
    InvalidMove,
}

impl MoveError {
    /// The message shown to the player when a take is rejected.
    pub fn message(&self) -> (s: &'static str)
        ensures
            s@ == "Invalid number of sticks!"@,
    {
        "Invalid number of sticks!"
    }
}

/// The whole state of a game: whose turn it is now and how many sticks are
/// left in the pile. The game is over exactly when the pile is empty; the
/// identity recorded as `current_player` at that point is declared the winner.
#[derive(Clone, Copy, PartialEq, Eq, Structural, Debug)]
pub struct NimGame {
    pub current_player: Player,
    pub total_sticks: u32,
}

/// A take of `num_sticks` is legal exactly when it removes between one and
/// three sticks and no more than the pile holds.
pub open spec fn spec_legal_take(g: NimGame, num_sticks: u32) -> bool {
    1 <= num_sticks <= 3 && num_sticks <= g.total_sticks
}

/// The successor state after a legal take: the pile shrinks by the take
/// amount and the turn passes to the other identity.
pub open spec fn spec_take(g: NimGame, num_sticks: u32) -> NimGame {
    NimGame {
        current_player: g.current_player.spec_other(),
        total_sticks: (g.total_sticks - num_sticks) as u32,
    }
}

/// How many distinct legal take amounts the state offers: three, capped by
/// the pile size.
pub open spec fn spec_num_moves(g: NimGame) -> int {
    if g.total_sticks >= 3 {
        3
    } else {
        g.total_sticks as int
    }
}

impl NimGame {
    /// Starts a game with the given pile size; the first mover is `player1`.
    /// The opponent is always the other of the two fixed identities, so the
    /// second argument only documents who is being played against.
    pub fn new(player1: Player, _player2: Player, total_sticks: u32) -> (g: NimGame)
        ensures
            g.current_player == player1,
            g.total_sticks == total_sticks,
    {
        NimGame { current_player: player1, total_sticks }
    }

    /// The game is over exactly when no sticks remain.
    pub fn is_game_over(&self) -> (b: bool)
        ensures
            b == (self.total_sticks == 0),
    {
        self.total_sticks == 0
    }

    /// Attempts to remove `num_sticks` from the pile. Succeeds exactly on
    /// legal take amounts; on success the pile shrinks by exactly that amount
    /// and the turn passes to the other identity; a rejected take leaves the
    /// state untouched.
    pub fn take_sticks(&mut self, num_sticks: u32) -> (r: Result<(), MoveError>)
        ensures
            r is Ok <==> spec_legal_take(*old(self), num_sticks),
            r is Ok ==> *final(self) == spec_take(*old(self), num_sticks),
            r is Ok ==> final(self).total_sticks == old(self).total_sticks - num_sticks,
            r is Ok ==> final(self).current_player != old(self).current_player,
            r is Err ==> *final(self) == *old(self),
            r is Err ==> r == Err::<(), MoveError>(MoveError::InvalidMove),
    {
        if num_sticks == 0 || num_sticks > 3 || num_sticks > self.total_sticks {
            return Err(MoveError::InvalidMove);
        }
        self.total_sticks = self.total_sticks - num_sticks;
        self.switch_players();
        Ok(())
    }

    /// Passes the turn to the other identity without touching the pile.
    pub fn switch_players(&mut self)
        ensures
            final(self).current_player == old(self).current_player.spec_other(),
            final(self).total_sticks == old(self).total_sticks,
    {
        if self.current_player.is_computer() {
            self.current_player = Player::new(false);
        } else {
            self.current_player = Player::new(true);
        }
    }

    /// All states reachable by one legal take, in ascending order of take
    /// amount: position `i` holds the result of taking `i + 1` sticks.
    pub fn get_successors(&self) -> (succs: Vec<NimGame>)
        ensures
            succs@.len() == spec_num_moves(*self),
            forall|i: int|
                0 <= i < succs@.len() ==> succs@[i] == spec_take(*self, (i + 1) as u32),
    {
        let mut successors: Vec<NimGame> = Vec::new();
        let mut num_sticks: u32 = 1;
        while num_sticks <= 3
            invariant
                1 <= num_sticks <= 4,
                successors@.len() == vstd::math::min(num_sticks - 1, spec_num_moves(*self)),
                forall|i: int|
                    0 <= i < successors@.len() ==> successors@[i] == spec_take(
                        *self,
                        (i + 1) as u32,
                    ),
            decreases 4 - num_sticks,
        {
            if num_sticks <= self.total_sticks {
                let mut new_game = self.clone();
                new_game.take_sticks(num_sticks).unwrap();
                successors.push(new_game);
            }
            num_sticks = num_sticks + 1;
        }
        successors
    }
}

} // verus!
