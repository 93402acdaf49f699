use vstd::prelude::*;

verus! {

/// The value occupying one cell of the game board.
#[derive(Clone, Copy, PartialEq, Eq, Structural, Debug)]
pub enum FieldValue {
    Nothing,
    Circle,
    Xmark,
}

/// A zero-indexed (column, row) coordinate pair on the board.
#[derive(Clone, Copy, Debug)]
pub struct BoardPosition {
    pub x: usize,
    pub y: usize,
}

/// A square grid of marks, `board_size` cells on each side, stored row-major.
pub struct Board {
    fields: Vec<FieldValue>,
    pub board_size: usize,
}

/// Index of cell (x, y) in a row-major flat grid of the given side length.
pub open spec fn flat_index(size: int, x: int, y: int) -> int {
    y * size + x
}

/// The mark held at cell (x, y) of a row-major flat grid.
pub open spec fn cell_at(cells: Seq<FieldValue>, size: int, x: int, y: int) -> FieldValue {
    cells[flat_index(size, x, y)]
}

/// The grid of a freshly allocated board: every cell empty.
pub open spec fn blank_grid(size: int) -> Seq<FieldValue> {
    Seq::new((size * size) as nat, |i: int| FieldValue::Nothing)
}

/// The sign of a directional offset: each axis moves by -1, 0 or +1.
pub open spec fn spec_sign(i: int) -> int {
    if i < 0 {
        -1
    } else if i > 0 {
        1
    } else {
        0
    }
}

/// A step from in-bounds cell (x, y) in direction (dx, dy) would leave the grid.
pub open spec fn spec_off_edge(size: int, x: int, y: int, dx: int, dy: int) -> bool {
    ||| x == 0 && dx < 0
    ||| x == size - 1 && dx > 0
    ||| y == 0 && dy < 0
    ||| y == size - 1 && dy > 0
}

/// In-bounds cells map to flat indices inside the grid.
pub proof fn lemma_flat_index_in_range(size: int, x: int, y: int)
    requires
        0 <= x < size,
        0 <= y < size,
    ensures
        0 <= flat_index(size, x, y) < size * size,
{
    assert(0 <= y * size + x < size * size) by (nonlinear_arith)
        requires
            0 <= x < size,
            0 <= y < size,
    ;
}

/// Distinct in-bounds cells map to distinct flat indices.
pub proof fn lemma_flat_index_injective(size: int, x1: int, y1: int, x2: int, y2: int)
    requires
        0 <= x1 < size,
        0 <= y1 < size,
        0 <= x2 < size,
        0 <= y2 < size,
        flat_index(size, x1, y1) == flat_index(size, x2, y2),
    ensures
        x1 == x2,
        y1 == y2,
{
    assert(x1 == x2 && y1 == y2) by (nonlinear_arith)
        requires
            0 <= x1 < size,
            0 <= y1 < size,
            0 <= x2 < size,
            0 <= y2 < size,
            y1 * size + x1 == y2 * size + x2,
    ;
}

/// Every in-bounds cell of a freshly allocated grid reads empty.
pub proof fn lemma_fresh_board_empty(size: int, x: int, y: int)
    requires
        0 <= x < size,
        0 <= y < size,
    ensures
        cell_at(blank_grid(size), size, x, y) == FieldValue::Nothing,
{
    lemma_flat_index_in_range(size, x, y);
}

/// Writing a mark and reading it back at the same in-bounds cell returns that
/// mark, and leaves every other in-bounds cell unchanged.
pub proof fn lemma_set_get_round_trip(
    cells: Seq<FieldValue>,
    size: int,
    x: int,
    y: int,
    value: FieldValue,
)
    requires
        cells.len() == size * size,
        0 <= x < size,
        0 <= y < size,
    ensures
        cell_at(cells.update(flat_index(size, x, y), value), size, x, y) == value,
        forall|x2: int, y2: int|
            0 <= x2 < size && 0 <= y2 < size && (x2 != x || y2 != y) ==> cell_at(
                cells.update(flat_index(size, x, y), value),
                size,
                x2,
                y2,
            ) == cell_at(cells, size, x2, y2),
{
    lemma_flat_index_in_range(size, x, y);
    assert forall|x2: int, y2: int|
        0 <= x2 < size && 0 <= y2 < size && (x2 != x || y2 != y) implies cell_at(
        cells.update(flat_index(size, x, y), value),
        size,
        x2,
        y2,
    ) == cell_at(cells, size, x2, y2) by {
        lemma_flat_index_in_range(size, x2, y2);
        if flat_index(size, x, y) == flat_index(size, x2, y2) {
            lemma_flat_index_injective(size, x, y, x2, y2);
        }
    }
}

impl View for Board {
    type V = Seq<FieldValue>;

    closed spec fn view(&self) -> Seq<FieldValue> {
        self.fields@
    }
}

impl Board {
    /// The side length of the grid.
    pub closed spec fn spec_size(&self) -> int {
        self.board_size as int
    }

    /// The grid is exactly `board_size` by `board_size` cells.
    pub open spec fn wf(&self) -> bool {
        &&& 1 <= self.spec_size() <= usize::MAX
        &&& self@.len() == self.spec_size() * self.spec_size()
    }

    /// Both coordinates lie within [0, board_size).
    pub open spec fn in_bounds(&self, x: int, y: int) -> bool {
        0 <= x < self.spec_size() && 0 <= y < self.spec_size()
    }

    /// The mark at cell (x, y).
    pub open spec fn spec_get(&self, x: int, y: int) -> FieldValue {
        cell_at(self@, self.spec_size(), x, y)
    }

    pub fn new(game_board_size: usize) -> (board: Board)
        requires
            1 <= game_board_size,
            game_board_size * game_board_size <= usize::MAX,
        ensures
            board.wf(),
            board.spec_size() == game_board_size,
            board@ == blank_grid(game_board_size as int),
            forall|x: int, y: int|
                board.in_bounds(x, y) ==> board.spec_get(x, y) == FieldValue::Nothing,
    {
        let total: usize = game_board_size * game_board_size;
        let mut fields: Vec<FieldValue> = Vec::new();
        let mut i: usize = 0;
        while i < total
            invariant
                i <= total,
                fields@.len() == i,
                forall|j: int| 0 <= j < i ==> fields@[j] == FieldValue::Nothing,
            decreases total - i,
        {
            fields.push(FieldValue::Nothing);
            i = i + 1;
        }
        let board = Board { fields, board_size: game_board_size };
        proof {
            assert(board@ =~= blank_grid(game_board_size as int));
            assert forall|x: int, y: int|
                board.in_bounds(x, y) implies board.spec_get(x, y) == FieldValue::Nothing by {
                lemma_fresh_board_empty(game_board_size as int, x, y);
            }
        }
        board
    }

    pub fn set_field(&mut self, pos: &BoardPosition, value: FieldValue) -> (result: Result<
        (),
        (),
    >)
        requires
            old(self).wf(),
        ensures
            final(self).wf(),
            final(self).spec_size() == old(self).spec_size(),
            result is Ok <==> old(self).in_bounds(pos.x as int, pos.y as int),
            result is Err ==> final(self)@ == old(self)@,
            result is Ok ==> final(self)@ == old(self)@.update(
                flat_index(old(self).spec_size(), pos.x as int, pos.y as int),
                value,
            ),
            result is Ok ==> final(self).spec_get(pos.x as int, pos.y as int) == value,
            result is Ok ==> forall|x2: int, y2: int|
                final(self).in_bounds(x2, y2) && (x2 != pos.x as int || y2 != pos.y as int)
                    ==> final(self).spec_get(x2, y2) == old(self).spec_get(x2, y2),
    {
        if self.is_out_of_board(pos) {
            return Err(());
        }
        let _grid_len: usize = self.fields.len();
        proof {
            lemma_flat_index_in_range(self.board_size as int, pos.x as int, pos.y as int);
        }
        let index: usize = pos.y * self.board_size + pos.x;
        self.fields.set(index, value);
        proof {
            lemma_set_get_round_trip(
                old(self)@,
                self.board_size as int,
                pos.x as int,
                pos.y as int,
                value,
            );
        }
        Ok(())
    }

    pub fn get_field(&self, pos: &BoardPosition) -> (result: Result<FieldValue, ()>)
        requires
            self.wf(),
        ensures
            result is Ok <==> self.in_bounds(pos.x as int, pos.y as int),
            result is Ok ==> result->Ok_0 == self.spec_get(pos.x as int, pos.y as int),
    {
        if self.is_out_of_board(pos) {
            return Err(());
        }
        let _grid_len: usize = self.fields.len();
        proof {
            lemma_flat_index_in_range(self.board_size as int, pos.x as int, pos.y as int);
        }
        let index: usize = pos.y * self.board_size + pos.x;
        Ok(self.fields[index])
    }

    pub fn get_board_size(&self) -> (size: usize)
        ensures
            size == self.spec_size(),
    {
        self.board_size
    }

    fn is_out_of_board(&self, pos: &BoardPosition) -> (result: bool)
        ensures
            result == !self.in_bounds(pos.x as int, pos.y as int),
    {
        pos.x >= self.board_size || pos.y >= self.board_size
    }

    pub fn get_neighbour_field(&self, pos: &BoardPosition, direction: &(i8, i8)) -> (result:
        Result<BoardPosition, ()>)
        requires
            self.wf(),
            self.in_bounds(pos.x as int, pos.y as int),
        ensures
            result is Ok <==> !spec_off_edge(
                self.spec_size(),
                pos.x as int,
                pos.y as int,
                direction.0 as int,
                direction.1 as int,
            ),
            result is Ok ==> result->Ok_0.x == pos.x + spec_sign(direction.0 as int),
            result is Ok ==> result->Ok_0.y == pos.y + spec_sign(direction.1 as int),
            result is Ok ==> self.in_bounds(result->Ok_0.x as int, result->Ok_0.y as int),
    {
        if pos.x == 0 && direction.0 < 0 {
            return Err(());
        }
        if pos.x == self.board_size - 1 && direction.0 > 0 {
            return Err(());
        }
        if pos.y == 0 && direction.1 < 0 {
            return Err(());
        }
        if pos.y == self.board_size - 1 && direction.1 > 0 {
            return Err(());
        }

        let neighbour_x: usize = if direction.0 < 0 {
            pos.x - 1
        } else if direction.0 > 0 {
            pos.x + 1
        } else {
            pos.x
        };
        let neighbour_y: usize = if direction.1 < 0 {
            pos.y - 1
        } else if direction.1 > 0 {
            pos.y + 1
        } else {
            pos.y
        };

        Ok(BoardPosition { x: neighbour_x, y: neighbour_y })
    }
}

} // verus!
