use vstd::prelude::*;

use crate::auxiliary::Direction;
use crate::board::{spare_nibble_kept, step_result, Board};

verus! {

/// A player of a game: an account name and the stream that pays for play.
pub struct Player {
    pub account_id: String,
    pub roketo_stream: String,
}

/// Lifecycle of a game: `Unactive`, then `Running`, then `Finished`.
#[derive(Clone, Copy, Debug, PartialEq, Eq, Structural)]
pub enum GameStatus {
    Unactive,
    Running,
    Finished,
}

/// Why a game operation was refused; the game is then left as it was.
#[derive(Clone, Copy, Debug, PartialEq, Eq, Structural)]
pub enum GameError {
    AlreadyStarted,
    AlreadyFinished,
    NotRunning,
    Unauthorized,
    InvalidBoard,
}

/// A board played by one authorized account.
pub struct SingleplayerGame {
    pub board: Board,
    pub player: String,
    pub game_status: GameStatus,
}

/// The error `start` gives in each status, or `None` where it succeeds.
pub open spec fn start_error(status: GameStatus) -> Option<GameError> {
    match status {
        GameStatus::Unactive => None,
        GameStatus::Running => Some(GameError::AlreadyStarted),
        GameStatus::Finished => Some(GameError::AlreadyFinished),
    }
}

/// The error a step gives, checked in order: the status (whoever calls), the
/// caller, then the board.
pub open spec fn step_error(game: SingleplayerGame, caller: Seq<char>) -> Option<GameError> {
    if game.game_status == GameStatus::Finished {
        Some(GameError::AlreadyFinished)
    } else if game.game_status == GameStatus::Unactive {
        Some(GameError::NotRunning)
    } else if caller != game.player@ {
        Some(GameError::Unauthorized)
    } else if !game.board.can_move() {
        Some(GameError::InvalidBoard)
    } else {
        None
    }
}

impl SingleplayerGame {
    /// A game not yet started on `board`, for `player`.
    pub fn from(board: Board, player: String) -> (r: SingleplayerGame)
        ensures
            r.board == board,
            r.player == player,
            r.game_status == GameStatus::Unactive,
    {
        SingleplayerGame { board, player, game_status: GameStatus::Unactive }
    }

    /// Moves a game from `Unactive` to `Running`.
    pub fn start(&mut self) -> (r: Result<(), GameError>)
        ensures
            r == match start_error(old(self).game_status) {
                Some(e) => Err::<(), GameError>(e),
                None => Ok(()),
            },
            r is Err ==> *final(self) == *old(self),
            r is Ok ==> final(self).board == old(self).board && final(self).player == old(self).player
                && final(self).game_status == GameStatus::Running,
    {
        match self.game_status {
            GameStatus::Unactive => {
                self.game_status = GameStatus::Running;
                Ok(())
            },
            GameStatus::Running => Err(GameError::AlreadyStarted),
            GameStatus::Finished => Err(GameError::AlreadyFinished),
        }
    }

    /// One turn of `caller`: the board takes one step in `direction`, and the
    /// game finishes when no crate is left off a destination. A step that
    /// moves nothing still counts as a turn.
    pub fn make_step(&mut self, direction: Direction, caller: &String) -> (r: Result<
        (),
        GameError,
    >)
        requires
            old(self).board.wf(),
        ensures
            r == match step_error(*old(self), caller@) {
                Some(e) => Err::<(), GameError>(e),
                None => Ok(()),
            },
            r is Err ==> *final(self) == *old(self),
            r is Ok ==> {
                let res = step_result(
                    old(self).board.cells(),
                    old(self).board.size,
                    old(self).board.sokoban_position->0,
                    direction,
                );
                &&& final(self).player == old(self).player
                &&& final(self).board.wf()
                &&& final(self).board.size == old(self).board.size
                &&& final(self).board.field_len == old(self).board.field_len
                &&& final(self).board.is_valid == old(self).board.is_valid
                &&& final(self).board.cells() == res.0
                &&& spare_nibble_kept(final(self).board.field@, old(self).board.field@, old(self).board.size)
                &&& final(self).board.sokoban_position == Some(res.1)
                &&& final(self).game_status == if final(self).board.solved() {
                    GameStatus::Finished
                } else {
                    GameStatus::Running
                }
            },
    {
        match self.game_status {
            GameStatus::Finished => {
                return Err(GameError::AlreadyFinished);
            },
            GameStatus::Unactive => {
                return Err(GameError::NotRunning);
            },
            GameStatus::Running => {},
        }
        if *caller != self.player {
            return Err(GameError::Unauthorized);
        }
        let new_board = match self.board.make_step(direction) {
            Ok(b) => b,
            Err(_) => {
                return Err(GameError::InvalidBoard);
            },
        };
        let finished = new_board.check_if_finished();
        self.board = new_board;
        if finished {
            self.game_status = GameStatus::Finished;
        }
        Ok(())
    }
}

} // verus!
