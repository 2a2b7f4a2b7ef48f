//! The simulation engine: board geometry, the snake, food, and the rules of a
//! single move.

use std::collections::VecDeque;
use vstd::prelude::*;

verus! {

/// A heading on the grid.
#[derive(Clone, Copy, Debug, PartialEq, Eq, Structural)]
pub enum Direction {
    Up,
    Down,
    Left,
    Right,
}

/// The heading that points the other way.
pub open spec fn opposite_of(d: Direction) -> Direction {
    match d {
        Direction::Up => Direction::Down,
        Direction::Down => Direction::Up,
        Direction::Left => Direction::Right,
        Direction::Right => Direction::Left,
    }
}

/// The heading actually taken when `d` is requested after moving `last`:
/// a direct reversal keeps the previous heading.
pub open spec fn resolved(d: Direction, last: Direction) -> Direction {
    if d == opposite_of(last) {
        last
    } else {
        d
    }
}

/// The heading that an index picks, in the order Up, Down, Right, Left.
pub open spec fn direction_of_index(i: nat) -> Direction {
    if i % 4 == 0 {
        Direction::Up
    } else if i % 4 == 1 {
        Direction::Down
    } else if i % 4 == 2 {
        Direction::Right
    } else {
        Direction::Left
    }
}

impl Direction {
    pub fn opposite(self) -> (r: Direction)
        ensures
            r == opposite_of(self),
    {
        match self {
            Direction::Up => Direction::Down,
            Direction::Down => Direction::Up,
            Direction::Left => Direction::Right,
            Direction::Right => Direction::Left,
        }
    }

    /// The heading taken when `self` is requested right after moving `last`.
    pub fn resolve(self, last: Direction) -> (r: Direction)
        ensures
            r == resolved(self, last),
    {
        if self == last.opposite() {
            last
        } else {
            self
        }
    }

    /// The heading that `index` selects, cycling through Up, Down, Right, Left.
    pub fn from_index(index: usize) -> (r: Direction)
        ensures
            r == direction_of_index(index as nat),
    {
        let k: usize = index % 4;
        if k == 0 {
            Direction::Up
        } else if k == 1 {
            Direction::Down
        } else if k == 2 {
            Direction::Right
        } else {
            Direction::Left
        }
    }

    /// A heading drawn at random, each of the four equally likely.
    pub fn random() -> (r: Direction)
        ensures
            exists|i: nat| i < 4 && r == direction_of_index(i),
    {
        let i = sample_below(4).unwrap();
        Direction::from_index(i)
    }
}

/// Relies on rand::seq::sample_iter, drawing one item from `0..n` with the
/// thread-local generator: it yields `Ok` with one item of the range when the
/// range is not empty, and `Err` when it is.
#[verifier::external_body]
fn sample_below(n: usize) -> (r: Option<usize>)
    ensures
        r.is_some() == (n > 0),
        r matches Some(i) ==> i < n,
{
    match rand::seq::sample_iter(&mut rand::thread_rng(), 0..n, 1) {
        Ok(sample) => Some(sample[0]),
        Err(_) => None,
    }
}

/// A cell of the grid: column `x`, row `y`, row 0 at the top.
#[derive(Clone, Copy, Debug, PartialEq, Eq, Structural)]
pub struct Position {
    pub x: usize,
    pub y: usize,
}

pub open spec fn in_bounds(p: Position, width: int, height: int) -> bool {
    p.x < width && p.y < height
}

/// The cell one move away from `p` heading `d`, wrapping around every edge.
pub open spec fn moved(p: Position, d: Direction, width: usize, height: usize) -> Position {
    match d {
        Direction::Up => Position {
            x: p.x,
            y: if p.y > 0 { (p.y - 1) as usize } else { (height - 1) as usize },
        },
        Direction::Down => Position {
            x: p.x,
            y: if p.y + 1 < height { (p.y + 1) as usize } else { 0 },
        },
        Direction::Left => Position {
            x: if p.x > 0 { (p.x - 1) as usize } else { (width - 1) as usize },
            y: p.y,
        },
        Direction::Right => Position {
            x: if p.x + 1 < width { (p.x + 1) as usize } else { 0 },
            y: p.y,
        },
    }
}


/// What a cell of the grid shows.
#[derive(Clone, Copy, Debug, PartialEq, Eq, Structural)]
pub enum Tile {
    Snake,
    Head,
    Food,
    Empty,
}

/// Where a cell is stored in a row-major grid `width` cells wide.
pub open spec fn cell_index(p: Position, width: usize) -> int {
    p.y * width + p.x
}

/// The cell stored at index `i` of a row-major grid `width` cells wide.
pub open spec fn cell_at(i: int, width: usize) -> Position {
    Position { x: (i % (width as int)) as usize, y: (i / (width as int)) as usize }
}

/// What the cell `p` shows for a snake (head first) and an optional food cell.
/// The head wins over the body, and the body over food.
pub open spec fn tile_for(snake: Seq<Position>, food: Option<Position>, p: Position) -> Tile {
    if snake.len() > 0 && snake[0] == p {
        Tile::Head
    } else if snake.contains(p) {
        Tile::Snake
    } else if food == Some(p) {
        Tile::Food
    } else {
        Tile::Empty
    }
}

/// The tile a cell shows while only the first body segments and food are marked.
spec fn partial_tile(body: Seq<Position>, food: Option<Position>, p: Position) -> Tile {
    if body.contains(p) {
        Tile::Snake
    } else if food == Some(p) {
        Tile::Food
    } else {
        Tile::Empty
    }
}

proof fn lemma_cell_index(p: Position, width: usize, height: usize)
    requires
        in_bounds(p, width as int, height as int),
    ensures
        0 <= cell_index(p, width) < width * height,
        cell_at(cell_index(p, width), width) == p,
{
    let i = cell_index(p, width);
    assert(p.y * width + p.x < width * height) by (nonlinear_arith)
        requires
            p.x < width,
            p.y < height,
    ;
    vstd::arithmetic::div_mod::lemma_fundamental_div_mod_converse_mod(
        i,
        width as int,
        p.y as int,
        p.x as int,
    );
    vstd::arithmetic::div_mod::lemma_fundamental_div_mod_converse_div(
        i,
        width as int,
        p.y as int,
        p.x as int,
    );
}

proof fn lemma_cell_at(i: int, width: usize, height: usize)
    requires
        0 <= i < width * height,
    ensures
        in_bounds(cell_at(i, width), width as int, height as int),
        cell_index(cell_at(i, width), width) == i,
{
    assert(width > 0) by (nonlinear_arith)
        requires
            0 <= i < width * height,
    ;
    let w = width as int;
    vstd::arithmetic::div_mod::lemma_fundamental_div_mod(i, w);
    vstd::arithmetic::div_mod::lemma_mod_bound(i, w);
    vstd::arithmetic::div_mod::lemma_div_pos_is_pos(i, w);
    let q = i / w;
    assert(q < height) by (nonlinear_arith)
        requires
            i == w * q + i % w,
            0 <= i % w,
            i < w * height,
            w > 0,
    ;
    assert(w * q == q * w) by (nonlinear_arith);
}

/// A derived, read-only snapshot of the grid, stored row by row.
#[derive(Clone, Debug, PartialEq)]
pub struct Board {
    pub width: usize,
    pub height: usize,
    pub tiles: Vec<Tile>,
}

impl Board {
    /// The grid holds one tile for each of its cells, and the cells can be counted.
    pub open spec fn wf(&self) -> bool {
        &&& self.tiles@.len() == self.width * self.height
        &&& self.width * self.height <= usize::MAX
    }

    /// The tile that the snapshot holds for cell `p`.
    pub open spec fn tile_at(&self, p: Position) -> Tile {
        self.tiles@[cell_index(p, self.width)]
    }

    /// This snapshot is the one derived from the given geometry, snake and food.
    pub open spec fn derived_from(
        &self,
        width: usize,
        height: usize,
        snake: Seq<Position>,
        food: Option<Position>,
    ) -> bool {
        &&& self.width == width
        &&& self.height == height
        &&& self.wf()
        &&& forall|p: Position|
            in_bounds(p, width as int, height as int) ==> #[trigger] self.tile_at(p) == tile_for(
                snake,
                food,
                p,
            )
    }

    /// Derives the snapshot of a grid from the snake (head first) and the food cell.
    pub fn new(
        width: usize,
        height: usize,
        food: Option<Position>,
        snake: &VecDeque<Position>,
    ) -> (r: Board)
        requires
            width * height <= usize::MAX,
            food matches Some(f) ==> in_bounds(f, width as int, height as int),
            forall|i: int|
                0 <= i < snake@.len() ==> in_bounds(#[trigger] snake@[i], width as int, height as int),
        ensures
            r.derived_from(width, height, snake@, food),
    {
        let n: usize = width * height;
        let mut tiles: Vec<Tile> = Vec::new();
        while tiles.len() < n
            invariant
                tiles@.len() <= n,
                forall|i: int| 0 <= i < tiles@.len() ==> tiles@[i] == Tile::Empty,
            decreases n - tiles@.len(),
        {
            tiles.push(Tile::Empty);
        }
        match food {
            Some(f) => {
                proof {
                    lemma_cell_index(f, width, height);
                }
                tiles.set(f.y * width + f.x, Tile::Food);
            },
            None => {},
        }
        assert forall|i: int| 0 <= i < n implies tiles@[i] == partial_tile(
            snake@.take(0),
            food,
            cell_at(i, width),
        ) by {
            lemma_cell_at(i, width, height);
            if let Some(f) = food {
                lemma_cell_index(f, width, height);
            }
        }
        let mut j: usize = 0;
        while j < snake.len()
            invariant
                tiles@.len() == n,
                n == width * height,
                j <= snake@.len(),
                forall|i: int|
                    0 <= i < snake@.len() ==> in_bounds(
                        #[trigger] snake@[i],
                        width as int,
                        height as int,
                    ),
                forall|i: int|
                    0 <= i < n ==> #[trigger] tiles@[i] == partial_tile(
                        snake@.take(j as int),
                        food,
                        cell_at(i, width),
                    ),
            decreases snake@.len() - j,
        {
            let p = snake[j];
            proof {
                lemma_cell_index(p, width, height);
            }
            let k: usize = p.y * width + p.x;
            let ghost before = tiles@;
            tiles.set(k, Tile::Snake);
            assert forall|i: int| 0 <= i < n implies #[trigger] tiles@[i] == partial_tile(
                snake@.take(j + 1),
                food,
                cell_at(i, width),
            ) by {
                lemma_cell_at(i, width, height);
                let q = cell_at(i, width);
                let body = snake@.take(j as int);
                assert(snake@.take(j + 1) =~= body.push(p));
                assert(body.push(p).contains(q) == (body.contains(q) || q == p)) by {
                    if body.push(p).contains(q) && q != p {
                        let t = choose|t: int| 0 <= t < body.len() + 1 && body.push(p)[t] == q;
                        assert(body[t] == q);
                    }
                    if body.contains(q) {
                        let t = choose|t: int| 0 <= t < body.len() && body[t] == q;
                        assert(body.push(p)[t] == q);
                    }
                    if q == p {
                        assert(body.push(p)[body.len() as int] == q);
                    }
                }
                if i != k {
                    assert(q != p);
                    assert(before[i] == tiles@[i]);
                }
            }
            j = j + 1;
        }
        assert(snake@.take(j as int) == snake@);
        if snake.len() > 0 {
            let h = snake[0];
            proof {
                lemma_cell_index(h, width, height);
            }
            tiles.set(h.y * width + h.x, Tile::Head);
        }
        let r = Board { width, height, tiles };
        assert forall|p: Position| in_bounds(p, width as int, height as int) implies #[trigger] r.tile_at(
            p,
        ) == tile_for(snake@, food, p) by {
            lemma_cell_index(p, width, height);
        }
        r
    }

    /// The tile shown at column `x`, row `y`.
    pub fn tile(&self, x: usize, y: usize) -> (r: Tile)
        requires
            self.wf(),
            x < self.width,
            y < self.height,
        ensures
            r == self.tile_at(Position { x, y }),
    {
        proof {
            lemma_cell_index(Position { x, y }, self.width, self.height);
        }
        self.tiles[y * self.width + x]
    }

    /// The rows of the grid, top to bottom.
    pub fn iter(&self) -> (r: Vec<Vec<Tile>>)
        requires
            self.wf(),
        ensures
            r@.len() == self.height,
            forall|y: int| 0 <= y < self.height ==> (#[trigger] r@[y])@.len() == self.width,
            forall|x: usize, y: usize|
                x < self.width && y < self.height ==> #[trigger] r@[y as int]@[x as int]
                    == self.tile_at(Position { x, y }),
    {
        let mut rows: Vec<Vec<Tile>> = Vec::new();
        let mut y: usize = 0;
        while y < self.height
            invariant
                y <= self.height,
                self.wf(),
                rows@.len() == y,
                forall|j: int| 0 <= j < y ==> (#[trigger] rows@[j])@.len() == self.width,
                forall|a: usize, b: usize|
                    a < self.width && b < y ==> #[trigger] rows@[b as int]@[a as int]
                        == self.tile_at(Position { x: a, y: b }),
            decreases self.height - y,
        {
            let mut row: Vec<Tile> = Vec::new();
            let mut x: usize = 0;
            while x < self.width
                invariant
                    x <= self.width,
                    y < self.height,
                    self.wf(),
                    row@.len() == x,
                    forall|a: usize|
                        a < x ==> #[trigger] row@[a as int] == self.tile_at(Position { x: a, y }),
                decreases self.width - x,
            {
                row.push(self.tile(x, y));
                x = x + 1;
            }
            rows.push(row);
            y = y + 1;
        }
        rows
    }
}


/// The result of one tick.
#[derive(Clone, Debug, PartialEq)]
pub enum GameStep {
    Lose,
    Continue(Board),
}

/// The snake that every game starts with, head first.
pub open spec fn initial_snake() -> Seq<Position> {
    seq![
        Position { x: 7, y: 5 },
        Position { x: 7, y: 6 },
        Position { x: 7, y: 7 },
        Position { x: 6, y: 7 },
        Position { x: 5, y: 7 },
    ]
}

/// What a placement of food may give: a free cell of the grid, or nothing
/// exactly when the snake covers every cell.
pub open spec fn food_placed(
    food: Option<Position>,
    snake: Seq<Position>,
    width: usize,
    height: usize,
) -> bool {
    match food {
        Some(f) => in_bounds(f, width as int, height as int) && !snake.contains(f),
        None => forall|p: Position|
            in_bounds(p, width as int, height as int) ==> #[trigger] snake.contains(p),
    }
}

/// Whether `p` is one of the snake's segments.
fn occupies(snake: &VecDeque<Position>, p: Position) -> (r: bool)
    ensures
        r == snake@.contains(p),
{
    let mut i: usize = 0;
    while i < snake.len()
        invariant
            i <= snake@.len(),
            forall|k: int| 0 <= k < i ==> snake@[k] != p,
        decreases snake@.len() - i,
    {
        if snake[i] == p {
            assert(snake@[i as int] == p);
            return true;
        }
        i = i + 1;
    }
    false
}

/// A whole game: the grid's size, the snake (head first), the food cell and
/// the last heading taken.
#[derive(Clone, Debug, PartialEq)]
pub struct Game {
    pub width: usize,
    pub height: usize,
    pub snake: VecDeque<Position>,
    pub food: Option<Position>,
    pub last_direction: Direction,
}

impl Game {
    /// The state invariant: a non-empty grid whose cells can be counted, a
    /// non-empty snake of distinct cells inside it, food on a free cell.
    pub open spec fn wf(&self) -> bool {
        &&& 0 < self.width
        &&& 0 < self.height
        &&& self.width * self.height <= usize::MAX
        &&& self.snake@.len() > 0
        &&& forall|i: int|
            0 <= i < self.snake@.len() ==> in_bounds(
                #[trigger] self.snake@[i],
                self.width as int,
                self.height as int,
            )
        &&& self.snake@.no_duplicates()
        &&& self.snake@.len() == self.width * self.height ==> self.food is None
        &&& match self.food {
            Some(f) => in_bounds(f, self.width as int, self.height as int) && !self.snake@.contains(f),
            None => true,
        }
    }

    pub open spec fn head_spec(&self) -> Position {
        self.snake@[0]
    }

    /// The cell the head moves to when `direction` is requested.
    pub open spec fn target(&self, direction: Direction) -> Position {
        moved(self.head_spec(), resolved(direction, self.last_direction), self.width, self.height)
    }

    /// What one call of `step` does: `pre` is the game before, `post` after,
    /// `r` the result.
    pub open spec fn stepped(pre: Game, direction: Direction, post: Game, r: GameStep) -> bool {
        let d = resolved(direction, pre.last_direction);
        let next = pre.target(direction);
        let grown = seq![next] + pre.snake@;
        if pre.snake@.contains(next) {
            r == GameStep::Lose && post == pre
        } else {
            &&& post.width == pre.width
            &&& post.height == pre.height
            &&& post.last_direction == d
            &&& if pre.food == Some(next) {
                &&& post.snake@ == grown
                &&& food_placed(post.food, post.snake@, post.width, post.height)
            } else {
                &&& post.snake@ == grown.drop_last()
                &&& post.food == pre.food
            }
            &&& r matches GameStep::Continue(b) && b.derived_from(
                post.width,
                post.height,
                post.snake@,
                post.food,
            )
        }
    }

    /// Starts a game on a `width` by `height` grid, heading Up, with food on a
    /// random free cell.
    pub fn new(width: usize, height: usize) -> (r: Game)
        requires
            8 <= width,
            8 <= height,
            width * height <= usize::MAX,
        ensures
            r.wf(),
            r.width == width,
            r.height == height,
            r.snake@ == initial_snake(),
            r.last_direction == Direction::Up,
            food_placed(r.food, r.snake@, width, height),
    {
        let mut snake: VecDeque<Position> = VecDeque::new();
        snake.push_back(Position { x: 7, y: 5 });
        snake.push_back(Position { x: 7, y: 6 });
        snake.push_back(Position { x: 7, y: 7 });
        snake.push_back(Position { x: 6, y: 7 });
        snake.push_back(Position { x: 5, y: 7 });
        assert(snake@ =~= initial_snake());
        let food = Game::next_food(&snake, width, height);
        assert(width * height >= 64) by (nonlinear_arith)
            requires
                8 <= width,
                8 <= height,
        ;
        Game { width, height, snake, food, last_direction: Direction::Up }
    }

    /// Places food on a cell drawn uniformly from the cells the snake leaves
    /// free, enumerated row by row; nothing when there is none.
    pub fn next_food(snake: &VecDeque<Position>, width: usize, height: usize) -> (r: Option<
        Position,
    >)
        ensures
            food_placed(r, snake@, width, height),
    {
        let mut candidates: Vec<Position> = Vec::new();
        let mut y: usize = 0;
        while y < height
            invariant
                y <= height,
                forall|k: int|
                    0 <= k < candidates@.len() ==> in_bounds(
                        #[trigger] candidates@[k],
                        width as int,
                        height as int,
                    ) && !snake@.contains(candidates@[k]),
                forall|p: Position|
                    in_bounds(p, width as int, y as int) && !#[trigger] snake@.contains(p)
                        ==> candidates@.contains(p),
            decreases height - y,
        {
            let mut x: usize = 0;
            while x < width
                invariant
                    x <= width,
                    y < height,
                    forall|k: int|
                        0 <= k < candidates@.len() ==> in_bounds(
                            #[trigger] candidates@[k],
                            width as int,
                            height as int,
                        ) && !snake@.contains(candidates@[k]),
                    forall|p: Position|
                        (in_bounds(p, width as int, y as int) || (p.y == y && p.x < x))
                            && !#[trigger] snake@.contains(p) ==> candidates@.contains(p),
                decreases width - x,
            {
                let p = Position { x, y };
                if !occupies(snake, p) {
                    let ghost before = candidates@;
                    candidates.push(p);
                    assert forall|q: Position|
                        (in_bounds(q, width as int, y as int) || (q.y == y && q.x < x + 1))
                            && !#[trigger] snake@.contains(q) implies candidates@.contains(q) by {
                        if q == p {
                            assert(candidates@[before.len() as int] == q);
                        } else {
                            let t = choose|t: int| 0 <= t < before.len() && before[t] == q;
                            assert(candidates@[t] == q);
                        }
                    }
                }
                x = x + 1;
            }
            y = y + 1;
        }
        match sample_below(candidates.len()) {
            Some(i) => Some(candidates[i]),
            None => {
                assert forall|p: Position|
                    in_bounds(p, width as int, height as int) implies #[trigger] snake@.contains(
                    p,
                ) by {
                    if !snake@.contains(p) {
                        assert(candidates@.contains(p));
                    }
                }
                None
            },
        }
    }

    /// The snake's head.
    pub fn head(&self) -> (r: Position)
        requires
            self.snake@.len() > 0,
        ensures
            r == self.head_spec(),
    {
        self.snake[0]
    }

    /// The cell the head reaches heading `direction`, wrapping at the edges.
    pub fn next_head(&self, direction: Direction) -> (r: Position)
        requires
            self.wf(),
        ensures
            r == moved(self.head_spec(), direction, self.width, self.height),
            in_bounds(r, self.width as int, self.height as int),
    {
        let head = self.head();
        match direction {
            Direction::Up => Position {
                x: head.x,
                y: if head.y > 0 { head.y - 1 } else { self.height - 1 },
            },
            Direction::Down => Position {
                x: head.x,
                y: if head.y + 1 < self.height { head.y + 1 } else { 0 },
            },
            Direction::Left => Position {
                x: if head.x > 0 { head.x - 1 } else { self.width - 1 },
                y: head.y,
            },
            Direction::Right => Position {
                x: if head.x + 1 < self.width { head.x + 1 } else { 0 },
                y: head.y,
            },
        }
    }

    /// Advances the game by one move requested as `direction`.
    pub fn step(&mut self, direction: Direction) -> (r: GameStep)
        requires
            old(self).wf(),
        ensures
            final(self).wf(),
            Game::stepped(*old(self), direction, *final(self), r),
    {
        let direction = direction.resolve(self.last_direction);
        let head = self.next_head(direction);
        if occupies(&self.snake, head) {
            return GameStep::Lose;
        }
        let ghost pre = self.snake@;
        self.snake.push_front(head);
        let ghost grown = self.snake@;
        assert(grown =~= seq![head] + pre);
        assert forall|i: int, j: int| 0 <= i < j < grown.len() implies grown[i] != grown[j] by {
            if i == 0 {
                assert(pre[j - 1] == grown[j]);
            }
        }
        let eat = match self.food {
            Some(f) => f == head,
            None => false,
        };
        if eat {
            self.food = Game::next_food(&self.snake, self.width, self.height);
            proof {
                lemma_food_off_snake(self.food, self.snake@, self.width, self.height);
            }
        } else {
            self.snake.pop_back();
            proof {
                if let Some(f) = self.food {
                    if self.snake@.contains(f) {
                        let t = choose|t: int| 0 <= t < self.snake@.len() && self.snake@[t] == f;
                        assert(pre[t - 1] == f);
                    }
                }
            }
        }
        self.last_direction = direction;
        GameStep::Continue(self.board())
    }

    /// The snapshot of the grid in this state.
    pub fn board(&self) -> (r: Board)
        requires
            self.wf(),
        ensures
            r.derived_from(self.width, self.height, self.snake@, self.food),
    {
        Board::new(self.width, self.height, self.food, &self.snake)
    }

    /// The snapshot of this state together with the last heading taken.
    pub fn view(&self) -> (r: GameView)
        requires
            self.wf(),
        ensures
            r.0.derived_from(self.width, self.height, self.snake@, self.food),
            r.1 == self.last_direction,
    {
        GameView(self.board(), self.last_direction)
    }
}


/// The character that shows a tile; the head points along `heading`.
pub open spec fn glyph(t: Tile, heading: Direction) -> char {
    match t {
        Tile::Snake => '■',
        Tile::Head => match heading {
            Direction::Up => '▲',
            Direction::Down => '▼',
            Direction::Left => '◀',
            Direction::Right => '▶',
        },
        Tile::Food => '❤',
        Tile::Empty => ' ',
    }
}

/// The character of the wall drawn round the grid.
pub const WALL: char = '□';

fn glyph_of(t: Tile, heading: Direction) -> (r: char)
    ensures
        r == glyph(t, heading),
{
    match t {
        Tile::Snake => '■',
        Tile::Head => match heading {
            Direction::Up => '▲',
            Direction::Down => '▼',
            Direction::Left => '◀',
            Direction::Right => '▶',
        },
        Tile::Food => '❤',
        Tile::Empty => ' ',
    }
}

/// A snapshot together with the heading, for drawing as text.
#[derive(Clone, Debug, PartialEq)]
pub struct GameView(pub Board, pub Direction);

impl GameView {
    /// The picture of the grid as rows of characters, framed by a wall one
    /// cell thick on every side.
    pub fn glyphs(&self) -> (r: Vec<Vec<char>>)
        requires
            self.0.wf(),
            self.0.width + 2 <= usize::MAX,
            self.0.height + 2 <= usize::MAX,
        ensures
            r@.len() == self.0.height + 2,
            forall|y: int| 0 <= y < r@.len() ==> (#[trigger] r@[y])@.len() == self.0.width + 2,
            forall|y: int| 0 <= y < r@.len() ==> (#[trigger] r@[y])@[0] == WALL,
            forall|y: int|
                0 <= y < r@.len() ==> (#[trigger] r@[y])@[self.0.width + 1] == WALL,
            forall|x: int| 0 <= x < self.0.width + 2 ==> #[trigger] r@[0]@[x] == WALL,
            forall|x: int|
                0 <= x < self.0.width + 2 ==> #[trigger] r@[self.0.height + 1]@[x] == WALL,
            forall|x: usize, y: usize|
                x < self.0.width && y < self.0.height ==> #[trigger] r@[y + 1]@[x + 1] == glyph(
                    self.0.tile_at(Position { x, y }),
                    self.1,
                ),
    {
        let board = &self.0;
        let w = board.width;
        let mut wall: Vec<char> = Vec::new();
        let mut i: usize = 0;
        while i < w + 2
            invariant
                i <= w + 2,
                w + 2 <= usize::MAX,
                wall@.len() == i,
                forall|k: int| 0 <= k < i ==> wall@[k] == WALL,
            decreases w + 2 - i,
        {
            wall.push(WALL);
            i = i + 1;
        }
        let mut out: Vec<Vec<char>> = Vec::new();
        out.push(wall.clone());
        let mut y: usize = 0;
        while y < board.height
            invariant
                y <= board.height,
                board == &self.0,
                w == board.width,
                board.wf(),
                w + 2 <= usize::MAX,
                out@.len() == y + 1,
                out@[0]@.len() == w + 2,
                forall|k: int| 0 <= k < w + 2 ==> #[trigger] out@[0]@[k] == WALL,
                forall|j: int| 0 <= j <= y ==> (#[trigger] out@[j])@.len() == w + 2,
                forall|j: int| 0 <= j <= y ==> (#[trigger] out@[j])@[0] == WALL,
                forall|j: int| 0 <= j <= y ==> (#[trigger] out@[j])@[w + 1] == WALL,
                forall|a: usize, b: usize|
                    a < w && b < y ==> #[trigger] out@[b + 1]@[a + 1] == glyph(
                        board.tile_at(Position { x: a, y: b }),
                        self.1,
                    ),
            decreases board.height - y,
        {
            let mut row: Vec<char> = Vec::new();
            row.push(WALL);
            let mut x: usize = 0;
            while x < w
                invariant
                    x <= w,
                    y < board.height,
                    w == board.width,
                    board.wf(),
                    row@.len() == x + 1,
                    row@[0] == WALL,
                    forall|a: usize|
                        a < x ==> #[trigger] row@[a + 1] == glyph(
                            board.tile_at(Position { x: a, y }),
                            self.1,
                        ),
                decreases w - x,
            {
                row.push(glyph_of(board.tile(x, y), self.1));
                x = x + 1;
            }
            row.push(WALL);
            out.push(row);
            y = y + 1;
        }
        out.push(wall);
        out
    }
}

/// A snake of distinct cells inside the grid, as long as the grid has cells,
/// covers every cell.
pub proof fn lemma_full_snake_covers_grid(snake: Seq<Position>, width: usize, height: usize)
    requires
        snake.no_duplicates(),
        snake.len() == width * height,
        forall|i: int|
            0 <= i < snake.len() ==> in_bounds(#[trigger] snake[i], width as int, height as int),
    ensures
        forall|p: Position| in_bounds(p, width as int, height as int) ==> #[trigger] snake.contains(p),
{
    assert forall|p: Position| in_bounds(p, width as int, height as int) implies #[trigger] snake.contains(
        p,
    ) by {
        if !snake.contains(p) {
            lemma_cell_index(p, width, height);
            let n = (width * height) as int;
            let k = cell_index(p, width);
            let idxs = snake.map(|i: int, q: Position| cell_index(q, width));
            assert forall|i: int, j: int| 0 <= i < j < idxs.len() implies idxs[i] != idxs[j] by {
                lemma_cell_index(snake[i], width, height);
                lemma_cell_index(snake[j], width, height);
            }
            idxs.unique_seq_to_set();
            let range = vstd::set_lib::set_int_range(0, n).remove(k);
            vstd::set_lib::lemma_int_range(0, n);
            assert forall|v: int| idxs.to_set().contains(v) implies range.contains(v) by {
                let i = choose|i: int| 0 <= i < idxs.len() && idxs[i] == v;
                lemma_cell_index(snake[i], width, height);
                assert(snake[i] != p);
            }
            vstd::set_lib::lemma_len_subset(idxs.to_set(), range);
        }
    }
}

/// Food placed by `next_food` never lies on the snake, and when the snake
/// fills the grid there is no food at all.
pub proof fn lemma_food_off_snake(
    food: Option<Position>,
    snake: Seq<Position>,
    width: usize,
    height: usize,
)
    requires
        food_placed(food, snake, width, height),
        snake.no_duplicates(),
        forall|i: int|
            0 <= i < snake.len() ==> in_bounds(#[trigger] snake[i], width as int, height as int),
    ensures
        food matches Some(f) ==> in_bounds(f, width as int, height as int) && !snake.contains(f),
        snake.len() == width * height ==> food is None,
{
    if snake.len() == width * height {
        lemma_full_snake_covers_grid(snake, width, height);
    }
}

/// Moving off an edge re-enters at the opposite edge, in x and in y
/// independently; the other coordinate is unchanged.
pub proof fn lemma_moves_wrap(p: Position, width: usize, height: usize)
    requires
        in_bounds(p, width as int, height as int),
    ensures
        p.y == 0 ==> moved(p, Direction::Up, width, height).y == height - 1,
        p.y == height - 1 ==> moved(p, Direction::Down, width, height).y == 0,
        p.x == 0 ==> moved(p, Direction::Left, width, height).x == width - 1,
        p.x == width - 1 ==> moved(p, Direction::Right, width, height).x == 0,
        moved(p, Direction::Up, width, height).x == p.x,
        moved(p, Direction::Down, width, height).x == p.x,
        moved(p, Direction::Left, width, height).y == p.y,
        moved(p, Direction::Right, width, height).y == p.y,
        forall|d: Direction|
            in_bounds(#[trigger] moved(p, d, width, height), width as int, height as int),
{
}

/// A move that eats lengthens the snake by one and keeps the old tail cell;
/// any other successful move keeps the length and frees the old tail cell.
pub proof fn lemma_growth(pre: Game, direction: Direction, post: Game, r: GameStep)
    requires
        pre.wf(),
        Game::stepped(pre, direction, post, r),
        r is Continue,
    ensures
        pre.food == Some(pre.target(direction)) ==> post.snake@.len() == pre.snake@.len() + 1
            && post.snake@.contains(pre.snake@.last()),
        pre.food != Some(pre.target(direction)) ==> post.snake@.len() == pre.snake@.len()
            && !post.snake@.contains(pre.snake@.last()),
{
    let next = pre.target(direction);
    let grown = seq![next] + pre.snake@;
    let last = pre.snake@.last();
    assert(grown[grown.len() - 1] == last);
    if pre.food != Some(next) {
        if post.snake@.contains(last) {
            let t = choose|t: int| 0 <= t < post.snake@.len() && post.snake@[t] == last;
            if t == 0 {
                assert(pre.snake@[pre.snake@.len() - 1] == next);
            } else {
                assert(pre.snake@[t - 1] == pre.snake@[pre.snake@.len() - 1]);
            }
        }
    }
}

/// A move onto any current segment, the tail included, loses and leaves the
/// game as it was; a move onto a free cell never loses.
pub proof fn lemma_collision(pre: Game, direction: Direction, post: Game, r: GameStep)
    requires
        pre.wf(),
        Game::stepped(pre, direction, post, r),
    ensures
        (r is Lose) == pre.snake@.contains(pre.target(direction)),
        r is Lose ==> post == pre,
        pre.snake@.contains(pre.target(direction)) <== pre.target(direction) == pre.snake@.last(),
{
    if pre.target(direction) == pre.snake@.last() {
        assert(pre.snake@[pre.snake@.len() - 1] == pre.target(direction));
    }
}

/// Deriving a snapshot twice from the same state gives the same tiles, and
/// the head cell always shows the head.
pub proof fn lemma_board_deterministic(
    b1: Board,
    b2: Board,
    width: usize,
    height: usize,
    snake: Seq<Position>,
    food: Option<Position>,
)
    requires
        b1.derived_from(width, height, snake, food),
        b2.derived_from(width, height, snake, food),
        forall|i: int| 0 <= i < snake.len() ==> in_bounds(#[trigger] snake[i], width as int, height as int),
    ensures
        b1.width == b2.width,
        b1.height == b2.height,
        b1.tiles@ == b2.tiles@,
        snake.len() > 0 ==> b1.tile_at(snake[0]) == Tile::Head,
{
    assert forall|i: int| 0 <= i < b1.tiles@.len() implies b1.tiles@[i] == b2.tiles@[i] by {
        lemma_cell_at(i, width, height);
        let p = cell_at(i, width);
        assert(b1.tile_at(p) == b2.tile_at(p));
    }
    assert(b1.tiles@ =~= b2.tiles@);
    if snake.len() > 0 {
        assert(in_bounds(snake[0], width as int, height as int));
    }
}

} // verus!
