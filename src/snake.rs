//! The snake: its body, its moves, collisions, steering and painting.
use vstd::prelude::*;

use rand::Rng;

use crate::screen_buffer::{Coordinate, GameContent, ScreenBuffer};

verus! {

#[derive(Clone, Copy, Debug, PartialEq, Eq, Structural)]
pub enum Direction {
    UP,
    DOWN,
    LEFT,
    RIGHT,
}

/// The direction that points the other way.
pub open spec fn opposite(d: Direction) -> Direction {
    match d {
        Direction::UP => Direction::DOWN,
        Direction::DOWN => Direction::UP,
        Direction::LEFT => Direction::RIGHT,
        Direction::RIGHT => Direction::LEFT,
    }
}

/// The change of row that one step in direction `d` makes.
pub open spec fn row_delta(d: Direction) -> int {
    match d {
        Direction::UP => -1,
        Direction::DOWN => 1,
        _ => 0,
    }
}

/// The change of column that one step in direction `d` makes.
pub open spec fn col_delta(d: Direction) -> int {
    match d {
        Direction::LEFT => -1,
        Direction::RIGHT => 1,
        _ => 0,
    }
}

/// One step from `c` in direction `d` stays within the range of coordinates.
pub open spec fn can_step(c: Coordinate, d: Direction) -> bool {
    0 <= c.row + row_delta(d) <= usize::MAX && 0 <= c.col + col_delta(d) <= usize::MAX
}

/// The coordinate one step from `c` in direction `d`.
pub open spec fn stepped(c: Coordinate, d: Direction) -> Coordinate {
    Coordinate { row: (c.row + row_delta(d)) as usize, col: (c.col + col_delta(d)) as usize }
}

/// Moves the snake one step in `snake_direction`: a new head goes in front,
/// one step from the old head, and the tail is removed and returned.
pub fn move_snake(snake: &mut Vec<Coordinate>, snake_direction: Direction) -> (r: Coordinate)
    requires
        old(snake)@.len() >= 1,
        can_step(old(snake)@[0], snake_direction),
    ensures
        r == old(snake)@.last(),
        final(snake)@.len() == old(snake)@.len(),
        final(snake)@[0].row == old(snake)@[0].row + row_delta(snake_direction),
        final(snake)@[0].col == old(snake)@[0].col + col_delta(snake_direction),
        final(snake)@ == seq![stepped(old(snake)@[0], snake_direction)] + old(snake)@.drop_last(),
{
    let head = snake[0];
    let new_head = match snake_direction {
        Direction::UP => Coordinate { row: head.row - 1, col: head.col },
        Direction::RIGHT => Coordinate { row: head.row, col: head.col + 1 },
        Direction::DOWN => Coordinate { row: head.row + 1, col: head.col },
        Direction::LEFT => Coordinate { row: head.row, col: head.col - 1 },
    };
    snake.insert(0, new_head);
    let tail = snake.pop();
    assert(snake@ =~= seq![stepped(old(snake)@[0], snake_direction)] + old(snake)@.drop_last());
    tail.unwrap()
}

/// Whether `item` is one of the coordinates of `snake`.
pub fn snake_item_collision(snake: &[Coordinate], item: &Coordinate) -> (r: bool)
    ensures
        r == snake@.contains(*item),
{
    let mut i: usize = 0;
    while i < snake.len()
        invariant
            i <= snake@.len(),
            forall|k: int| 0 <= k < i ==> snake@[k] != *item,
        decreases snake@.len() - i,
    {
        if snake[i] == *item {
            assert(snake@[i as int] == *item);
            return true;
        }
        i = i + 1;
    }
    false
}

/// The head touches the outermost ring of a `screen_width` x `screen_height`
/// grid, or lies on another segment of the body.
pub open spec fn collides(body: Seq<Coordinate>, screen_width: int, screen_height: int) -> bool {
    let head = body[0];
    ||| head.row == 0
    ||| head.row == screen_height - 1
    ||| head.col == 0
    ||| head.col == screen_width - 1
    ||| body.subrange(1, body.len() as int).contains(head)
}

/// Whether the head of `snake_body` hits the border of the grid or the body itself.
pub fn check_border_and_ego_collision(
    snake_body: &[Coordinate],
    screen_width: usize,
    screen_height: usize,
) -> (r: bool)
    requires
        snake_body@.len() >= 1,
        screen_width >= 1,
        screen_height >= 1,
    ensures
        r == collides(snake_body@, screen_width as int, screen_height as int),
{
    let head = snake_body[0];
    if head.row == 0 || head.row == screen_height - 1 || head.col == 0 || head.col == screen_width
        - 1 {
        return true;
    }
    let ghost rest = snake_body@.subrange(1, snake_body@.len() as int);
    let mut i: usize = 1;
    while i < snake_body.len()
        invariant
            1 <= i <= snake_body@.len(),
            head == snake_body@[0],
            rest == snake_body@.subrange(1, snake_body@.len() as int),
            forall|k: int| 0 <= k < i - 1 ==> rest[k] != head,
        decreases snake_body@.len() - i,
    {
        if snake_body[i] == head {
            assert(rest[i - 1] == head);
            return true;
        }
        i = i + 1;
    }
    false
}

/// The items of `look_in` that `look_for` holds, in the order of `look_in`:
/// the last of them is the latest relevant key press.
pub open spec fn all_matches(look_in: Seq<KeyEvent>, look_for: Seq<KeyEvent>) -> Seq<KeyEvent>
    decreases look_in.len(),
{
    if look_in.len() == 0 {
        seq![]
    } else {
        let rest = all_matches(look_in.drop_last(), look_for);
        if look_for.contains(look_in.last()) {
            rest.push(look_in.last())
        } else {
            rest
        }
    }
}

/// The last match is the latest key press of `look_in` that `look_for`
/// holds: no later press matches.
pub proof fn lemma_last_match_is_latest(look_in: Seq<KeyEvent>, look_for: Seq<KeyEvent>)
    requires
        all_matches(look_in, look_for).len() > 0,
    ensures
        exists|j: int|
            0 <= j < look_in.len() && look_for.contains(look_in[j]) && #[trigger] look_in[j]
                == all_matches(look_in, look_for).last() && forall|k: int|
                j < k < look_in.len() ==> !look_for.contains(#[trigger] look_in[k]),
    decreases look_in.len(),
{
    let n = look_in.len() - 1;
    let init = look_in.drop_last();
    if look_for.contains(look_in.last()) {
        assert(look_in[n] == all_matches(look_in, look_for).last());
    } else {
        lemma_last_match_is_latest(init, look_for);
        let j = choose|j: int|
            0 <= j < init.len() && look_for.contains(init[j]) && #[trigger] init[j]
                == all_matches(init, look_for).last() && forall|k: int|
                j < k < init.len() ==> !look_for.contains(#[trigger] init[k]);
        assert(look_in[j] == init[j]);
        assert forall|k: int| j < k < look_in.len() implies !look_for.contains(
            #[trigger] look_in[k],
        ) by {
            if k < n {
                assert(look_in[k] == init[k]);
            }
        }
    }
}

/// Collects the items of `look_in` that equal some item of `look_for`, in
/// the order of `look_in`, so that the latest match comes last.
pub fn find_matches(look_in: &[KeyEvent], look_for: &[KeyEvent]) -> (found: Vec<KeyEvent>)
    ensures
        found@ == all_matches(look_in@, look_for@),
{
    let mut found: Vec<KeyEvent> = Vec::new();
    let mut j: usize = 0;
    while j < look_in.len()
        invariant
            j <= look_in@.len(),
            found@ == all_matches(look_in@.subrange(0, j as int), look_for@),
        decreases look_in@.len() - j,
    {
        let b = look_in[j];
        let mut hit = false;
        let mut i: usize = 0;
        while i < look_for.len()
            invariant
                i <= look_for@.len(),
                hit ==> look_for@.contains(b),
                !hit ==> forall|k: int| 0 <= k < i ==> look_for@[k] != b,
            decreases look_for@.len() - i,
        {
            if look_for[i] == b {
                assert(look_for@[i as int] == b);
                hit = true;
            }
            i = i + 1;
        }
        proof {
            let next = look_in@.subrange(0, j + 1);
            assert(next.drop_last() == look_in@.subrange(0, j as int));
            assert(next.last() == b);
        }
        if hit {
            found.push(b);
        }
        j = j + 1;
    }
    assert(look_in@.subrange(0, look_in@.len() as int) == look_in@);
    found
}

/// A key of the keyboard, as far as the game tells keys apart.
#[derive(Clone, Copy, Debug, PartialEq, Eq, Structural)]
pub enum KeyCode {
    Left,
    Right,
    Up,
    Down,
    Esc,
    Char(char),
    Other,
}

/// A key press: the key and the modifier keys held with it, as bits
/// (shift 1, control 2, alt 4).
#[derive(Clone, Copy, Debug, PartialEq, Eq, Structural)]
pub struct KeyEvent {
    pub code: KeyCode,
    pub modifiers: u8,
}

impl KeyEvent {
    /// The press of `code` with no modifier key.
    pub fn plain(code: KeyCode) -> (r: KeyEvent)
        ensures
            r == (KeyEvent { code, modifiers: 0 }),
    {
        KeyEvent { code, modifiers: 0 }
    }
}

/// A snake: its body, head first and tail last, and its heading.
#[derive(Clone, Debug, PartialEq)]
pub struct Snake {
    pub body_pos: Vec<Coordinate>,
    pub direction: Direction,
}

/// Relies on rand's `Rng::gen_range` on the thread-local generator: a value
/// in `[low, high)`; it panics when `low >= high`.
#[verifier::external_body]
fn random_in(low: usize, high: usize) -> (r: usize)
    requires
        low < high,
    ensures
        low <= r < high,
{
    rand::thread_rng().gen_range(low, high)
}

impl Snake {
    /// The snake of a new player: three segments down from (18, 10), heading up.
    pub fn new() -> (r: Snake)
        ensures
            r.body_pos@ == seq![
                Coordinate { row: 18, col: 10 },
                Coordinate { row: 19, col: 10 },
                Coordinate { row: 20, col: 10 },
            ],
            r.direction == Direction::UP,
    {
        Snake::upward_at(18, 10)
    }

    /// A snake of three segments from (`row`, `col`) down, heading up.
    pub fn upward_at(row: usize, col: usize) -> (r: Snake)
        requires
            row + 2 <= usize::MAX,
        ensures
            r.body_pos@ == seq![
                Coordinate { row, col },
                Coordinate { row: (row + 1) as usize, col },
                Coordinate { row: (row + 2) as usize, col },
            ],
            r.direction == Direction::UP,
    {
        let mut body_pos: Vec<Coordinate> = Vec::new();
        body_pos.push(Coordinate { row, col });
        body_pos.push(Coordinate { row: row + 1, col });
        body_pos.push(Coordinate { row: row + 2, col });
        Snake { body_pos, direction: Direction::UP }
    }

    /// A snake of three segments down from a random head, heading up: the
    /// head row is in `[1, height - 4)`, the head column in `[1, width - 1)`.
    pub fn new_random(height: usize, width: usize) -> (r: Snake)
        requires
            height >= 6,
            width >= 3,
        ensures
            r.body_pos@.len() == 3,
            1 <= r.body_pos@[0].row < height - 4,
            1 <= r.body_pos@[0].col < width - 1,
            r.body_pos@ == seq![
                r.body_pos@[0],
                Coordinate { row: (r.body_pos@[0].row + 1) as usize, col: r.body_pos@[0].col },
                Coordinate { row: (r.body_pos@[0].row + 2) as usize, col: r.body_pos@[0].col },
            ],
            r.direction == Direction::UP,
    {
        let row = random_in(1, height - 4);
        let col = random_in(1, width - 1);
        Snake::upward_at(row, col)
    }
}

/// The heading after the key `key` under four-key steering: each arrow key
/// turns the snake its way, unless the snake already moves along that axis.
pub open spec fn four_key_turn(
    left_key: KeyEvent,
    right_key: KeyEvent,
    up_key: KeyEvent,
    down_key: KeyEvent,
    current: Direction,
    key: KeyEvent,
) -> Direction {
    let vertical = current == Direction::UP || current == Direction::DOWN;
    let horizontal = current == Direction::LEFT || current == Direction::RIGHT;
    if key == up_key && !vertical {
        Direction::UP
    } else if key == down_key && !vertical {
        Direction::DOWN
    } else if key == left_key && !horizontal {
        Direction::LEFT
    } else if key == right_key && !horizontal {
        Direction::RIGHT
    } else {
        current
    }
}

/// The next heading clockwise in the cycle up, right, down, left.
pub open spec fn clockwise(d: Direction) -> Direction {
    match d {
        Direction::UP => Direction::RIGHT,
        Direction::RIGHT => Direction::DOWN,
        Direction::DOWN => Direction::LEFT,
        Direction::LEFT => Direction::UP,
    }
}

/// The next heading counterclockwise in the cycle up, right, down, left.
pub open spec fn counterclockwise(d: Direction) -> Direction {
    match d {
        Direction::UP => Direction::LEFT,
        Direction::LEFT => Direction::DOWN,
        Direction::DOWN => Direction::RIGHT,
        Direction::RIGHT => Direction::UP,
    }
}

/// The heading after the key `key` under two-key steering: the left key
/// turns counterclockwise, the right key clockwise, other keys do nothing.
pub open spec fn two_key_turn(
    left_key: KeyEvent,
    right_key: KeyEvent,
    current: Direction,
    key: KeyEvent,
) -> Direction {
    if key == left_key {
        counterclockwise(current)
    } else if key == right_key {
        clockwise(current)
    } else {
        current
    }
}

/// Four-key steering never turns the snake straight back.
pub proof fn lemma_four_key_never_reverses(
    left_key: KeyEvent,
    right_key: KeyEvent,
    up_key: KeyEvent,
    down_key: KeyEvent,
    current: Direction,
    key: KeyEvent,
)
    ensures
        four_key_turn(left_key, right_key, up_key, down_key, current, key) != opposite(current),
{
}

/// A player: four key bindings and the snake they steer.
#[derive(Clone, Debug, PartialEq)]
pub struct Player {
    pub left_key: KeyEvent,
    pub right_key: KeyEvent,
    pub up_key: KeyEvent,
    pub down_key: KeyEvent,
    pub snake: Snake,
}

impl Player {
    /// A player with the given key bindings and the snake of `Snake::new`.
    pub fn new(left_key: KeyEvent, right_key: KeyEvent, up_key: KeyEvent, down_key: KeyEvent) -> (r:
        Player)
        ensures
            r.left_key == left_key,
            r.right_key == right_key,
            r.up_key == up_key,
            r.down_key == down_key,
            r.snake.body_pos@ == seq![
                Coordinate { row: 18, col: 10 },
                Coordinate { row: 19, col: 10 },
                Coordinate { row: 20, col: 10 },
            ],
            r.snake.direction == Direction::UP,
    {
        Player { snake: Snake::new(), left_key, right_key, up_key, down_key }
    }

    /// The heading that `key_event` gives the snake under the chosen steering.
    pub open spec fn turned(&self, key_event: KeyEvent, is_four_key_steering: bool) -> Direction {
        if is_four_key_steering {
            four_key_turn(
                self.left_key,
                self.right_key,
                self.up_key,
                self.down_key,
                self.snake.direction,
                key_event,
            )
        } else {
            two_key_turn(self.left_key, self.right_key, self.snake.direction, key_event)
        }
    }

    /// Steers the snake by `key_event`, with four-key or two-key steering;
    /// only the heading changes.
    pub fn update_snake_direction(&mut self, key_event: KeyEvent, is_four_key_steering: bool)
        ensures
            final(self).snake.direction == old(self).turned(key_event, is_four_key_steering),
            final(self).snake.body_pos@ == old(self).snake.body_pos@,
            final(self).left_key == old(self).left_key,
            final(self).right_key == old(self).right_key,
            final(self).up_key == old(self).up_key,
            final(self).down_key == old(self).down_key,
    {
        if is_four_key_steering {
            self._update_direction_four_keys(key_event);
        } else {
            self._update_direction_two_keys(key_event);
        }
    }

    fn _update_direction_four_keys(&mut self, key_event: KeyEvent)
        ensures
            final(self).snake.direction == four_key_turn(
                old(self).left_key,
                old(self).right_key,
                old(self).up_key,
                old(self).down_key,
                old(self).snake.direction,
                key_event,
            ),
            final(self).snake.body_pos@ == old(self).snake.body_pos@,
            final(self).left_key == old(self).left_key,
            final(self).right_key == old(self).right_key,
            final(self).up_key == old(self).up_key,
            final(self).down_key == old(self).down_key,
    {
        let d = self.snake.direction;
        let vertical = d == Direction::UP || d == Direction::DOWN;
        let horizontal = d == Direction::LEFT || d == Direction::RIGHT;
        if key_event == self.up_key && !vertical {
            self.snake.direction = Direction::UP;
        } else if key_event == self.down_key && !vertical {
            self.snake.direction = Direction::DOWN;
        } else if key_event == self.left_key && !horizontal {
            self.snake.direction = Direction::LEFT;
        } else if key_event == self.right_key && !horizontal {
            self.snake.direction = Direction::RIGHT;
        }
    }

    fn _update_direction_two_keys(&mut self, key_event: KeyEvent)
        ensures
            final(self).snake.direction == two_key_turn(
                old(self).left_key,
                old(self).right_key,
                old(self).snake.direction,
                key_event,
            ),
            final(self).snake.body_pos@ == old(self).snake.body_pos@,
            final(self).left_key == old(self).left_key,
            final(self).right_key == old(self).right_key,
            final(self).up_key == old(self).up_key,
            final(self).down_key == old(self).down_key,
    {
        let directions_ordered = [Direction::UP, Direction::RIGHT, Direction::DOWN, Direction::LEFT];
        let current_dir_index: usize = match self.snake.direction {
            Direction::UP => 0,
            Direction::RIGHT => 1,
            Direction::DOWN => 2,
            Direction::LEFT => 3,
        };
        let next_index: usize = if key_event == self.left_key {
            (current_dir_index + 3) % 4
        } else if key_event == self.right_key {
            (current_dir_index + 1) % 4
        } else {
            current_dir_index
        };
        self.snake.direction = directions_ordered[next_index];
    }
}

/// Every coordinate of `body` lies on a grid `width` x `height`.
pub open spec fn on_grid(body: Seq<Coordinate>, width: int, height: int) -> bool {
    forall|k: int| 0 <= k < body.len() ==> (#[trigger] body[k]).row < height && body[k].col < width
}

/// `body` is a snake that can take its next step on a `width` x `height`
/// grid: it lies on the grid and its head is off the outermost ring.
pub open spec fn fits_grid(body: Seq<Coordinate>, width: int, height: int) -> bool {
    &&& body.len() >= 1
    &&& on_grid(body, width, height)
    &&& 1 <= body[0].row <= height - 2
    &&& 1 <= body[0].col <= width - 2
}

/// The cell at (`r`, `c`) once `snake` is painted over `cell`: a body
/// segment wins over the head where the two share a cell.
pub open spec fn painted_cell(cell: GameContent, snake: Seq<Coordinate>, r: int, c: int) -> GameContent {
    if exists|k: int| 1 <= k < snake.len() && snake[k].row == r && snake[k].col == c {
        GameContent::SnakeBody
    } else if snake[0].row == r && snake[0].col == c {
        GameContent::SnakeHead
    } else {
        cell
    }
}

/// Paints `snake` into the grid: its head as `SnakeHead`, then every other
/// segment as `SnakeBody`.
pub fn add_snake_to_buffer(screen_buffer: &mut ScreenBuffer, snake: &[Coordinate])
    requires
        old(screen_buffer).wf(),
        snake@.len() >= 1,
        on_grid(snake@, old(screen_buffer).spec_width(), old(screen_buffer).spec_height()),
    ensures
        final(screen_buffer).wf(),
        final(screen_buffer).spec_width() == old(screen_buffer).spec_width(),
        final(screen_buffer).spec_height() == old(screen_buffer).spec_height(),
        forall|r: int, c: int|
            final(screen_buffer).in_bounds(r, c) ==> #[trigger] final(screen_buffer).at(r, c)
                == painted_cell(old(screen_buffer).at(r, c), snake@, r, c),
{
    assert(snake@[0].row < screen_buffer.spec_height() && snake@[0].col < screen_buffer.spec_width());
    screen_buffer.set_at(snake[0].row, snake[0].col, GameContent::SnakeHead);
    let mut i: usize = 1;
    while i < snake.len()
        invariant
            1 <= i <= snake@.len(),
            screen_buffer.wf(),
            screen_buffer.spec_width() == old(screen_buffer).spec_width(),
            screen_buffer.spec_height() == old(screen_buffer).spec_height(),
            on_grid(snake@, old(screen_buffer).spec_width(), old(screen_buffer).spec_height()),
            forall|r: int, c: int|
                screen_buffer.in_bounds(r, c) ==> #[trigger] screen_buffer.at(r, c)
                    == painted_cell(old(screen_buffer).at(r, c), snake@.take(i as int), r, c),
        decreases snake@.len() - i,
    {
        let coord = snake[i];
        assert(snake@[i as int].row < screen_buffer.spec_height() && snake@[i as int].col < screen_buffer.spec_width());
        let ghost before = *screen_buffer;
        screen_buffer.set_at(coord.row, coord.col, GameContent::SnakeBody);
        assert forall|r: int, c: int| screen_buffer.in_bounds(r, c) implies #[trigger] screen_buffer.at(r, c)
            == painted_cell(old(screen_buffer).at(r, c), snake@.take(i + 1), r, c) by {
            let prev = snake@.take(i as int);
            let next = snake@.take(i + 1);
            assert(before.at(r, c) == painted_cell(old(screen_buffer).at(r, c), prev, r, c));
            assert(next[i as int] == coord);
            if exists|k: int| 1 <= k < prev.len() && prev[k].row == r && prev[k].col == c {
                let k = choose|k: int| 1 <= k < prev.len() && prev[k].row == r && prev[k].col == c;
                assert(next[k] == prev[k]);
            }
            if exists|k: int| 1 <= k < next.len() && next[k].row == r && next[k].col == c {
                let k = choose|k: int| 1 <= k < next.len() && next[k].row == r && next[k].col == c;
                if k < i {
                    assert(next[k] == prev[k]);
                }
            }
            assert(next[0] == prev[0]);
        }
        i = i + 1;
    }
    assert(snake@.take(snake@.len() as int) == snake@);
}

} // verus!
