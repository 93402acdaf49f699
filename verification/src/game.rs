use vstd::prelude::*;

use crate::board::Board;
use crate::board::BoardPosition;
use crate::board::FieldValue;
use crate::board::spec_off_edge;
use crate::board::spec_sign;

verus! {

/// A game in progress: a board, whose turn it is, and the run length needed
/// to win.
pub struct Game {
    first_player_turn: bool,
    points_target: u32,
    board: Board,
}

/// The mark of the other player; an empty cell has no owner and stays empty.
pub open spec fn spec_flip_mark(mark: FieldValue) -> FieldValue {
    match mark {
        FieldValue::Xmark => FieldValue::Circle,
        FieldValue::Circle => FieldValue::Xmark,
        FieldValue::Nothing => FieldValue::Nothing,
    }
}

/// The mark entitled to move once `moves` marks have been placed: the first
/// player's cross to begin with, the two alternating from then on.
pub open spec fn spec_mark_after_moves(moves: nat) -> FieldValue
    decreases moves,
{
    if moves == 0 {
        FieldValue::Xmark
    } else {
        spec_flip_mark(spec_mark_after_moves((moves - 1) as nat))
    }
}

/// Turn alternation law: after any number of placed marks, the mark entitled
/// to move is the first player's exactly when that number is even.
pub proof fn lemma_mark_alternation(moves: nat)
    ensures
        spec_mark_after_moves(moves) == if moves % 2 == 0 {
            FieldValue::Xmark
        } else {
            FieldValue::Circle
        },
    decreases moves,
{
    if moves > 0 {
        lemma_mark_alternation((moves - 1) as nat);
    }
}

/// How many steps a scan from (x, y) in direction (dx, dy) can still take
/// before it must run off the grid's edge.
pub open spec fn dir_measure(size: int, x: int, y: int, dx: int, dy: int) -> int {
    if dx > 0 {
        size - 1 - x
    } else if dx < 0 {
        x
    } else if dy > 0 {
        size - 1 - y
    } else if dy < 0 {
        y
    } else {
        0
    }
}

/// Number of consecutive cells holding `mark` strictly beyond (x, y) when
/// stepping one cell at a time in direction (dx, dy), stopping at the first
/// other cell or at the grid's edge.
pub open spec fn run_extent(board: Board, x: int, y: int, dx: int, dy: int, mark: FieldValue) -> nat
    decreases dir_measure(board.spec_size(), x, y, dx, dy),
{
    if (dx == 0 && dy == 0) || !board.in_bounds(x, y) || spec_off_edge(
        board.spec_size(),
        x,
        y,
        dx,
        dy,
    ) {
        0
    } else {
        let x2 = x + spec_sign(dx);
        let y2 = y + spec_sign(dy);
        if board.spec_get(x2, y2) == mark {
            1 + run_extent(board, x2, y2, dx, dy, mark)
        } else {
            0
        }
    }
}

/// The points a single direction scores for a mark just placed at (x, y):
/// one for the placed cell plus the same-mark run beyond it.
pub open spec fn direction_points(
    board: Board,
    x: int,
    y: int,
    dx: int,
    dy: int,
    mark: FieldValue,
) -> nat {
    1 + run_extent(board, x, y, dx, dy, mark)
}

/// A directional offset pair: each axis moves by -1, 0 or +1, not both zero.
pub open spec fn valid_direction(dx: int, dy: int) -> bool {
    -1 <= dx <= 1 && -1 <= dy <= 1 && !(dx == 0 && dy == 0)
}

/// A move at (x, y) wins when any one of the eight directions alone scores
/// at least `target` points. Opposite directions are never combined.
pub open spec fn spec_winning_move(
    board: Board,
    x: int,
    y: int,
    mark: FieldValue,
    target: u32,
) -> bool {
    exists|dx: int, dy: int|
        valid_direction(dx, dy) && #[trigger] direction_points(board, x, y, dx, dy, mark)
            >= target
}

impl Game {
    /// The board being played on.
    pub closed spec fn spec_board(&self) -> Board {
        self.board
    }

    /// Whether the first player (crosses) is entitled to the next move.
    pub closed spec fn spec_first_player_turn(&self) -> bool {
        self.first_player_turn
    }

    /// The run length required to win.
    pub closed spec fn spec_points_target(&self) -> u32 {
        self.points_target
    }

    pub open spec fn wf(&self) -> bool {
        &&& self.spec_board().wf()
        &&& 1 <= self.spec_points_target()
    }

    pub open spec fn spec_board_size(&self) -> int {
        self.spec_board().spec_size()
    }

    pub open spec fn in_bounds(&self, x: int, y: int) -> bool {
        self.spec_board().in_bounds(x, y)
    }

    pub open spec fn spec_get(&self, x: int, y: int) -> FieldValue {
        self.spec_board().spec_get(x, y)
    }

    /// The mark of the player entitled to the next move.
    pub open spec fn spec_player_mark(&self) -> FieldValue {
        if self.spec_first_player_turn() {
            FieldValue::Xmark
        } else {
            FieldValue::Circle
        }
    }

    pub fn new(game_board_size: usize, points_target: u32) -> (game: Game)
        requires
            1 <= game_board_size,
            game_board_size * game_board_size <= usize::MAX,
            1 <= points_target,
        ensures
            game.wf(),
            game.spec_board_size() == game_board_size,
            game.spec_points_target() == points_target,
            game.spec_first_player_turn(),
            game.spec_player_mark() == spec_mark_after_moves(0),
            forall|x: int, y: int|
                game.in_bounds(x, y) ==> game.spec_get(x, y) == FieldValue::Nothing,
    {
        Game { first_player_turn: true, points_target, board: Board::new(game_board_size) }
    }

    pub fn get_player_mark(&self) -> (mark: FieldValue)
        ensures
            mark == self.spec_player_mark(),
    {
        if self.first_player_turn {
            return FieldValue::Xmark;
        }
        FieldValue::Circle
    }

    /// Place the current player's mark at `pos` and report whether that move
    /// wins. The turn advances first, so it passes to the other player even
    /// when the position is rejected as out of bounds; an occupied cell is
    /// silently overwritten.
    pub fn conquer_field(&mut self, pos: &BoardPosition) -> (result: Result<bool, ()>)
        requires
            old(self).wf(),
        ensures
            final(self).wf(),
            final(self).spec_points_target() == old(self).spec_points_target(),
            final(self).spec_board_size() == old(self).spec_board_size(),
            final(self).spec_first_player_turn() == !old(self).spec_first_player_turn(),
            final(self).spec_player_mark() == spec_flip_mark(old(self).spec_player_mark()),
            result is Ok <==> old(self).in_bounds(pos.x as int, pos.y as int),
            result is Err ==> final(self).spec_board()@ == old(self).spec_board()@,
            result is Ok ==> final(self).spec_get(pos.x as int, pos.y as int) == old(
                self,
            ).spec_player_mark(),
            result is Ok ==> forall|x2: int, y2: int|
                final(self).in_bounds(x2, y2) && (x2 != pos.x as int || y2 != pos.y as int)
                    ==> final(self).spec_get(x2, y2) == old(self).spec_get(x2, y2),
            result is Ok ==> result->Ok_0 == spec_winning_move(
                final(self).spec_board(),
                pos.x as int,
                pos.y as int,
                old(self).spec_player_mark(),
                old(self).spec_points_target(),
            ),
    {
        let player_mark = self.get_player_mark();
        self.first_player_turn = !self.first_player_turn;

        match self.board.set_field(pos, player_mark) {
            Ok(_) => {},
            Err(_) => {
                return Err(());
            },
        }

        Ok(self.was_winning_move(pos, player_mark))
    }

    fn was_winning_move(&self, pos: &BoardPosition, player_mark: FieldValue) -> (is_winning: bool)
        requires
            self.wf(),
            self.in_bounds(pos.x as int, pos.y as int),
        ensures
            is_winning == spec_winning_move(
                self.spec_board(),
                pos.x as int,
                pos.y as int,
                player_mark,
                self.spec_points_target(),
            ),
    {
        let target: usize = self.points_target as usize;

        let north_west = self.count_direction_points(pos, player_mark, &(-1i8, -1i8));
        let north = self.count_direction_points(pos, player_mark, &(0i8, -1i8));
        let north_east = self.count_direction_points(pos, player_mark, &(1i8, -1i8));
        let east = self.count_direction_points(pos, player_mark, &(1i8, 0i8));
        let south_east = self.count_direction_points(pos, player_mark, &(1i8, 1i8));
        let south = self.count_direction_points(pos, player_mark, &(0i8, 1i8));
        let south_west = self.count_direction_points(pos, player_mark, &(-1i8, 1i8));
        let west = self.count_direction_points(pos, player_mark, &(-1i8, 0i8));

        let is_winning = north_west >= target || north >= target || north_east >= target || east
            >= target || south_east >= target || south >= target || south_west >= target || west
            >= target;

        proof {
            let board = self.spec_board();
            let x = pos.x as int;
            let y = pos.y as int;
            let t = self.spec_points_target();
            if !is_winning {
                assert forall|dx: int, dy: int|
                    valid_direction(dx, dy) implies #[trigger] direction_points(
                    board,
                    x,
                    y,
                    dx,
                    dy,
                    player_mark,
                ) < t by {
                    assert(dx == -1 || dx == 0 || dx == 1);
                    assert(dy == -1 || dy == 0 || dy == 1);
                }
            }
        }

        is_winning
    }

    fn count_direction_points(
        &self,
        pos: &BoardPosition,
        player_mark: FieldValue,
        direction: &(i8, i8),
    ) -> (points: usize)
        requires
            self.wf(),
            self.in_bounds(pos.x as int, pos.y as int),
            !(direction.0 == 0 && direction.1 == 0),
        ensures
            points == direction_points(
                self.spec_board(),
                pos.x as int,
                pos.y as int,
                direction.0 as int,
                direction.1 as int,
                player_mark,
            ),
    {
        let mut current_pos: BoardPosition = *pos;
        let mut points: usize = 1;

        loop
            invariant_except_break
                direction_points(
                    self.spec_board(),
                    pos.x as int,
                    pos.y as int,
                    direction.0 as int,
                    direction.1 as int,
                    player_mark,
                ) == points + run_extent(
                    self.spec_board(),
                    current_pos.x as int,
                    current_pos.y as int,
                    direction.0 as int,
                    direction.1 as int,
                    player_mark,
                ),
            invariant
                self.wf(),
                !(direction.0 == 0 && direction.1 == 0),
                self.in_bounds(current_pos.x as int, current_pos.y as int),
                1 <= points,
                points + dir_measure(
                    self.spec_board_size(),
                    current_pos.x as int,
                    current_pos.y as int,
                    direction.0 as int,
                    direction.1 as int,
                ) <= self.spec_board_size(),
            ensures
                points == direction_points(
                    self.spec_board(),
                    pos.x as int,
                    pos.y as int,
                    direction.0 as int,
                    direction.1 as int,
                    player_mark,
                ),
            decreases dir_measure(
                self.spec_board_size(),
                current_pos.x as int,
                current_pos.y as int,
                direction.0 as int,
                direction.1 as int,
            ),
        {
            match self.board.get_neighbour_field(&current_pos, direction) {
                Ok(neighbour_pos) => {
                    current_pos = neighbour_pos;
                },
                Err(_) => {
                    break;
                },
            }
            let value = self.board.get_field(&current_pos).unwrap();
            if value != player_mark {
                break;
            }

            points = points + 1;
        }

        points
    }

    pub fn get_field(&self, pos: &BoardPosition) -> (result: Result<FieldValue, ()>)
        requires
            self.wf(),
        ensures
            result is Ok <==> self.in_bounds(pos.x as int, pos.y as int),
            result is Ok ==> result->Ok_0 == self.spec_get(pos.x as int, pos.y as int),
    {
        self.board.get_field(pos)
    }

    pub fn get_board_size(&self) -> (size: usize)
        ensures
            size == self.spec_board_size(),
    {
        self.board.get_board_size()
    }
}

} // verus!
