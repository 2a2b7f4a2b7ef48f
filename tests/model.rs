use snake::model::{Board, Direction, Game, GameStep, GameView, Position, Tile};
use std::collections::VecDeque;

fn pos(x: usize, y: usize) -> Position {
    Position { x, y }
}

fn game_with(width: usize, height: usize, cells: &[(usize, usize)], food: Option<Position>, last: Direction) -> Game {
    let mut snake = VecDeque::new();
    for &(x, y) in cells {
        snake.push_back(pos(x, y));
    }
    Game { width, height, snake, food, last_direction: last }
}

const ALL: [Direction; 4] = [Direction::Up, Direction::Down, Direction::Left, Direction::Right];

#[test]
fn opposite_pairs_headings() {
    assert_eq!(Direction::Up.opposite(), Direction::Down);
    assert_eq!(Direction::Down.opposite(), Direction::Up);
    assert_eq!(Direction::Left.opposite(), Direction::Right);
    assert_eq!(Direction::Right.opposite(), Direction::Left);
    for d in ALL {
        assert_eq!(d.opposite().opposite(), d);
    }
}

#[test]
fn resolve_keeps_last_only_on_reversal() {
    for last in ALL {
        for d in ALL {
            let expected = if d == last.opposite() { last } else { d };
            assert_eq!(d.resolve(last), expected);
        }
    }
    assert_eq!(Direction::Down.resolve(Direction::Up), Direction::Up);
    assert_eq!(Direction::Left.resolve(Direction::Up), Direction::Left);
}

#[test]
fn from_index_cycles() {
    assert_eq!(Direction::from_index(0), Direction::Up);
    assert_eq!(Direction::from_index(1), Direction::Down);
    assert_eq!(Direction::from_index(2), Direction::Right);
    assert_eq!(Direction::from_index(3), Direction::Left);
    assert_eq!(Direction::from_index(6), Direction::Right);
}

#[test]
fn random_direction_is_a_direction() {
    for _ in 0..50 {
        let d = Direction::random();
        assert!(ALL.contains(&d));
    }
}

#[test]
fn next_head_wraps_at_every_edge() {
    let g = game_with(12, 10, &[(0, 0)], None, Direction::Up);
    assert_eq!(g.next_head(Direction::Up), pos(0, 9));
    assert_eq!(g.next_head(Direction::Left), pos(11, 0));
    assert_eq!(g.next_head(Direction::Down), pos(0, 1));
    assert_eq!(g.next_head(Direction::Right), pos(1, 0));
    let g = game_with(12, 10, &[(11, 9)], None, Direction::Up);
    assert_eq!(g.next_head(Direction::Down), pos(11, 0));
    assert_eq!(g.next_head(Direction::Right), pos(0, 9));
    assert_eq!(g.next_head(Direction::Up), pos(11, 8));
    assert_eq!(g.next_head(Direction::Left), pos(10, 9));
}

#[test]
fn step_up_from_top_row_wraps() {
    let mut g = game_with(8, 8, &[(3, 0), (3, 1)], None, Direction::Up);
    assert!(matches!(g.step(Direction::Up), GameStep::Continue(_)));
    assert_eq!(g.head(), pos(3, 7));
    assert_eq!(g.snake.len(), 2);
}

#[test]
fn new_game_starts_with_fixed_snake() {
    let g = Game::new(12, 12);
    let cells: Vec<Position> = g.snake.iter().cloned().collect();
    assert_eq!(cells, vec![pos(7, 5), pos(7, 6), pos(7, 7), pos(6, 7), pos(5, 7)]);
    assert_eq!(g.last_direction, Direction::Up);
    assert_eq!(g.head(), pos(7, 5));
    let f = g.food.expect("a 12x12 grid has free cells");
    assert!(f.x < 12 && f.y < 12);
    assert!(!cells.contains(&f));
}

#[test]
fn eating_grows_and_keeps_tail() {
    let mut g = game_with(8, 8, &[(2, 2), (2, 3), (2, 4)], Some(pos(2, 1)), Direction::Up);
    let r = g.step(Direction::Up);
    assert!(matches!(r, GameStep::Continue(_)));
    assert_eq!(g.snake.len(), 4);
    assert_eq!(g.head(), pos(2, 1));
    assert!(g.snake.contains(&pos(2, 4)));
    let f = g.food.unwrap();
    assert!(!g.snake.contains(&f));
}

#[test]
fn plain_move_keeps_length_and_frees_tail() {
    let mut g = game_with(8, 8, &[(2, 2), (2, 3), (2, 4)], Some(pos(5, 5)), Direction::Up);
    let r = g.step(Direction::Left);
    assert!(matches!(r, GameStep::Continue(_)));
    assert_eq!(g.snake.len(), 3);
    assert_eq!(g.head(), pos(1, 2));
    assert!(!g.snake.contains(&pos(2, 4)));
    assert_eq!(g.food, Some(pos(5, 5)));
    assert_eq!(g.last_direction, Direction::Left);
}

#[test]
fn reversal_is_ignored() {
    let mut g = game_with(8, 8, &[(2, 2), (2, 3), (2, 4)], None, Direction::Up);
    assert!(matches!(g.step(Direction::Down), GameStep::Continue(_)));
    assert_eq!(g.head(), pos(2, 1));
    assert_eq!(g.last_direction, Direction::Up);
}

#[test]
fn moving_onto_tail_loses_and_changes_nothing() {
    // a square loop: the head's left neighbour is the tail
    let mut g = game_with(8, 8, &[(3, 3), (3, 4), (2, 4), (2, 3)], Some(pos(6, 6)), Direction::Up);
    let before = g.clone();
    assert_eq!(g.step(Direction::Left), GameStep::Lose);
    assert_eq!(g, before);
}

#[test]
fn moving_onto_body_loses() {
    let mut g = game_with(8, 8, &[(4, 4), (4, 5), (5, 5), (5, 4), (5, 3)], None, Direction::Up);
    let before = g.clone();
    assert_eq!(g.step(Direction::Right), GameStep::Lose);
    assert_eq!(g, before);
}

#[test]
fn food_is_absent_when_grid_is_full() {
    let mut snake = VecDeque::new();
    for y in 0..8 {
        for x in 0..8 {
            snake.push_back(pos(x, y));
        }
    }
    assert_eq!(Game::next_food(&snake, 8, 8), None);
}

#[test]
fn food_takes_the_only_free_cell() {
    let mut snake = VecDeque::new();
    for y in 0..8 {
        for x in 0..8 {
            if (x, y) != (6, 3) {
                snake.push_back(pos(x, y));
            }
        }
    }
    for _ in 0..10 {
        assert_eq!(Game::next_food(&snake, 8, 8), Some(pos(6, 3)));
    }
}

#[test]
fn food_never_on_snake() {
    let snake: VecDeque<Position> = [pos(0, 0), pos(1, 0), pos(2, 0)].into_iter().collect();
    for _ in 0..200 {
        let f = Game::next_food(&snake, 3, 2).unwrap();
        assert!(f.x < 3 && f.y < 2);
        assert!(!snake.contains(&f));
    }
}

#[test]
fn eating_the_last_free_cell_leaves_no_food() {
    let mut cells = Vec::new();
    for y in 0..8 {
        for x in 0..8 {
            if (x, y) != (0, 0) {
                cells.push((x, y));
            }
        }
    }
    // head at (0,1) moving up onto the last free cell (0,0)
    cells.retain(|&c| c != (0, 1));
    cells.insert(0, (0, 1));
    let mut g = game_with(8, 8, &cells, Some(pos(0, 0)), Direction::Up);
    assert!(matches!(g.step(Direction::Up), GameStep::Continue(_)));
    assert_eq!(g.snake.len(), 64);
    assert_eq!(g.food, None);
}

#[test]
fn board_marks_head_body_and_food() {
    let snake: VecDeque<Position> = [pos(1, 1), pos(1, 2), pos(2, 2)].into_iter().collect();
    let b = Board::new(4, 3, Some(pos(3, 0)), &snake);
    assert_eq!(b.width, 4);
    assert_eq!(b.height, 3);
    assert_eq!(b.tile(1, 1), Tile::Head);
    assert_eq!(b.tile(1, 2), Tile::Snake);
    assert_eq!(b.tile(2, 2), Tile::Snake);
    assert_eq!(b.tile(3, 0), Tile::Food);
    assert_eq!(b.tile(0, 0), Tile::Empty);
    let e = Tile::Empty;
    assert_eq!(
        b.tiles,
        vec![e, e, e, Tile::Food, e, Tile::Head, e, e, e, Tile::Snake, Tile::Snake, e]
    );
}

#[test]
fn board_without_food() {
    let snake: VecDeque<Position> = [pos(0, 0)].into_iter().collect();
    let b = Board::new(2, 2, None, &snake);
    assert_eq!(b.tiles, vec![Tile::Head, Tile::Empty, Tile::Empty, Tile::Empty]);
}

#[test]
fn board_derivation_is_repeatable() {
    let g = Game::new(10, 9);
    let b1 = g.board();
    let b2 = g.board();
    assert_eq!(b1, b2);
    assert_eq!(b1.tile(7, 5), Tile::Head);
    assert_eq!(b1.tile(7, 6), Tile::Snake);
}

#[test]
fn board_rows() {
    let snake: VecDeque<Position> = [pos(1, 0), pos(0, 0)].into_iter().collect();
    let b = Board::new(3, 2, Some(pos(2, 1)), &snake);
    let rows = b.iter();
    assert_eq!(
        rows,
        vec![
            vec![Tile::Snake, Tile::Head, Tile::Empty],
            vec![Tile::Empty, Tile::Empty, Tile::Food]
        ]
    );
}

#[test]
fn view_draws_framed_glyphs() {
    let snake: VecDeque<Position> = [pos(1, 0), pos(0, 0)].into_iter().collect();
    let b = Board::new(2, 2, Some(pos(1, 1)), &snake);
    let lines: Vec<String> = GameView(b, Direction::Right)
        .glyphs()
        .iter()
        .map(|r| r.iter().collect())
        .collect();
    assert_eq!(lines, vec!["□□□□", "□■▶□", "□ ❤□", "□□□□"]);
}

#[test]
fn game_view_carries_heading() {
    let g = Game::new(8, 8);
    let v = g.view();
    assert_eq!(v.1, Direction::Up);
    assert_eq!(v.0, g.board());
    let lines = v.glyphs();
    assert_eq!(lines[6][8], '▲');
}

#[test]
fn five_steps_up_on_twelve_by_twelve() {
    let mut g = Game::new(12, 12);
    for _ in 0..5 {
        assert!(matches!(g.step(Direction::Up), GameStep::Continue(_)));
    }
    assert_eq!(g.head(), pos(7, 0));
    assert!(matches!(g.step(Direction::Up), GameStep::Continue(_)));
    assert_eq!(g.head(), pos(7, 11));
}

#[test]
fn turning_back_into_body_loses() {
    let mut g = Game::new(8, 8);
    assert!(matches!(g.step(Direction::Left), GameStep::Continue(_)));
    assert!(matches!(g.step(Direction::Down), GameStep::Continue(_)));
    let before = g.clone();
    assert_eq!(g.step(Direction::Right), GameStep::Lose);
    assert_eq!(g, before);
}
