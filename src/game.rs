//! A game session: the grid, the score, the intro, and the decisions of one
//! tick of play. Timing, input and drawing to a terminal stay with the caller.
use vstd::prelude::*;

use crate::screen_buffer::{
    block_top, centered_cell, text_block_cell, text_fits, Coordinate, GameContent, ScreenBuffer,
};
use crate::text_layout::wrap_text;
use crate::snake::{
    add_snake_to_buffer, all_matches, check_border_and_ego_collision, collides, find_matches,
    fits_grid, move_snake, on_grid, painted_cell, stepped, KeyCode, KeyEvent, Player,
    Snake,
};
use crate::text_layout::chars_of;

verus! {

/// The text that the food hides and the game reveals.
pub const FLAVOR_TEXT: &'static str =
    "Hello, my dear Hlib. I hope you are well. Today is your birthday, and I wish you all the best.

I wish good health to you and your family. I hope they will be untouchable by the war as Enchantress from Dota 2.

I wish you to write solid code without weird bugs that consume your time for debugging them. I hope creepers from Minecraft will not hide in the code to explode at a crucial moment.

I wish you to launch the mainnet soon and without any trouble. I hope it will work perfectly and you will be happy with your code's quality and contribution.

I wish you to fully enjoin life.
";

/// The cells left free of the flavor text on each side of the grid.
pub const PADDING: usize = 4;

/// The glyph of the decimal digit `d`.
pub open spec fn digit_char(d: nat) -> char {
    if d == 0 { '0' }
    else if d == 1 { '1' }
    else if d == 2 { '2' }
    else if d == 3 { '3' }
    else if d == 4 { '4' }
    else if d == 5 { '5' }
    else if d == 6 { '6' }
    else if d == 7 { '7' }
    else if d == 8 { '8' }
    else { '9' }
}

/// The decimal digits of `n`, most significant first, without leading zeros.
pub open spec fn decimal(n: nat) -> Seq<char>
    decreases n,
{
    if n < 10 {
        seq![digit_char(n)]
    } else {
        decimal(n / 10).push(digit_char(n % 10))
    }
}

fn digit(d: usize) -> (r: char)
    requires
        d < 10,
    ensures
        r == digit_char(d as nat),
{
    if d == 0 { '0' }
    else if d == 1 { '1' }
    else if d == 2 { '2' }
    else if d == 3 { '3' }
    else if d == 4 { '4' }
    else if d == 5 { '5' }
    else if d == 6 { '6' }
    else if d == 7 { '7' }
    else if d == 8 { '8' }
    else { '9' }
}

/// The decimal digits of `n`.
pub fn decimal_chars(n: usize) -> (r: Vec<char>)
    ensures
        r@ == decimal(n as nat),
    decreases n,
{
    if n < 10 {
        let mut r: Vec<char> = Vec::new();
        r.push(digit(n));
        r
    } else {
        let mut r = decimal_chars(n / 10);
        r.push(digit(n % 10));
        r
    }
}

/// `prefix` followed by the decimal digits of `n`.
fn labelled_number(prefix: &str, n: usize) -> (r: Vec<char>)
    ensures
        r@ == prefix@ + decimal(n as nat),
{
    let mut r = chars_of(prefix);
    let digits = decimal_chars(n);
    let mut i: usize = 0;
    while i < digits.len()
        invariant
            i <= digits@.len(),
            r@ == prefix@ + digits@.subrange(0, i as int),
        decreases digits@.len() - i,
    {
        r.push(digits[i]);
        i = i + 1;
    }
    assert(digits@.subrange(0, digits@.len() as int) == digits@);
    r
}

/// The key presses that end the game: escape and `q`.
pub open spec fn quit_keys() -> Seq<KeyEvent> {
    seq![
        KeyEvent { code: KeyCode::Esc, modifiers: 0 },
        KeyEvent { code: KeyCode::Char('q'), modifiers: 0 },
    ]
}

/// Some key press among `events` ends the game.
pub open spec fn quit_requested(events: Seq<KeyEvent>) -> bool {
    events.contains(quit_keys()[0]) || events.contains(quit_keys()[1])
}

proof fn lemma_matches_nonempty(s: Seq<KeyEvent>, keys: Seq<KeyEvent>)
    ensures
        all_matches(s, keys).len() > 0 <==> exists|i: int| 0 <= i < s.len() && keys.contains(
            #[trigger] s[i],
        ),
    decreases s.len(),
{
    if s.len() > 0 {
        let init = s.drop_last();
        lemma_matches_nonempty(init, keys);
        if exists|i: int| 0 <= i < init.len() && keys.contains(#[trigger] init[i]) {
            let i = choose|i: int| 0 <= i < init.len() && keys.contains(#[trigger] init[i]);
            assert(s[i] == init[i]);
        }
        if exists|i: int| 0 <= i < s.len() && keys.contains(#[trigger] s[i]) {
            let i = choose|i: int| 0 <= i < s.len() && keys.contains(#[trigger] s[i]);
            if i < s.len() - 1 {
                assert(init[i] == s[i]);
            }
        }
    }
}

proof fn lemma_quit_matches(events: Seq<KeyEvent>)
    ensures
        all_matches(events, quit_keys()).len() > 0 <==> quit_requested(events),
{
    let keys = quit_keys();
    lemma_matches_nonempty(events, keys);
    assert forall|x: KeyEvent| keys.contains(x) <==> (x == keys[0] || x == keys[1]) by {
        if x == keys[0] {
            assert(keys[0] == x);
        }
        if x == keys[1] {
            assert(keys[1] == x);
        }
    }
    if quit_requested(events) {
        if events.contains(keys[0]) {
            let i = choose|i: int| 0 <= i < events.len() && events[i] == keys[0];
            assert(keys.contains(events[i]));
        } else {
            let i = choose|i: int| 0 <= i < events.len() && events[i] == keys[1];
            assert(keys.contains(events[i]));
        }
    }
    if exists|i: int| 0 <= i < events.len() && keys.contains(#[trigger] events[i]) {
        let i = choose|i: int| 0 <= i < events.len() && keys.contains(#[trigger] events[i]);
        assert(events[i] == keys[0] || events[i] == keys[1]);
    }
}

/// The heading of `player`'s snake after the key presses `events`: the
/// latest press that matches one of the player's four keys steers, with four-key
/// steering; without such a press the heading stays.
pub open spec fn steered(player: Player, events: Seq<KeyEvent>) -> crate::snake::Direction {
    let found = all_matches(
        events,
        seq![player.left_key, player.right_key, player.up_key, player.down_key],
    );
    if found.len() > 0 {
        player.turned(found.last(), true)
    } else {
        player.snake.direction
    }
}

/// The body after one step in direction `d`: a new head one step from the
/// old one, the last segment dropped.
pub open spec fn moved_body(body: Seq<Coordinate>, d: crate::snake::Direction) -> Seq<Coordinate> {
    seq![stepped(body[0], d)] + body.drop_last()
}

/// A snake that eats on a step is one segment longer than before it, and
/// stays so through the next step: the tick's growth copies the last segment
/// and the following move drops one segment while adding a head.
pub proof fn lemma_eating_grows(
    body: Seq<Coordinate>,
    d: crate::snake::Direction,
    next: crate::snake::Direction,
)
    requires
        body.len() >= 1,
    ensures
        ({
            let moved = moved_body(body, d);
            let grown = moved.push(moved.last());
            &&& grown.len() == body.len() + 1
            &&& moved_body(grown, next).len() == body.len() + 1
        }),
{
}

/// The score header: "Score: " and the score in decimal.
pub open spec fn score_label(score: int) -> Seq<char> {
    "Score: "@ + decimal(score as nat)
}

/// The cell at (`r`, `c`) of a `width` x `height` grid once a tick has drawn
/// over `cell`: the snake `body` painted, the outermost ring set to border,
/// the score header centered on the top row where it fits, and the flavor
/// text laid over the board where it fits.
pub open spec fn overlaid_cell(
    cell: GameContent,
    body: Seq<Coordinate>,
    width: int,
    height: int,
    score: int,
    r: int,
    c: int,
) -> GameContent {
    let painted = painted_cell(cell, body, r, c);
    let bordered = if r == 0 || r == height - 1 || c == 0 || c == width - 1 {
        GameContent::Border
    } else {
        painted
    };
    let label = score_label(score);
    let scored = if label.len() <= width {
        centered_cell(bordered, 0, label, width, r, c)
    } else {
        bordered
    };
    let lines = wrap_text(FLAVOR_TEXT@, width - 2 * PADDING);
    if text_fits(FLAVOR_TEXT@, width, height, PADDING as int) {
        text_block_cell(
            scored,
            block_top(height, PADDING as int, lines.len() as int),
            lines,
            width,
            r,
            c,
        )
    } else {
        scored
    }
}

/// `body` is a snake as a respawn makes it on a `width` x `height` grid:
/// three segments straight down from a head in rows `[1, height - 4)` and
/// columns `[1, width - 1)`.
pub open spec fn is_respawned(body: Seq<Coordinate>, width: int, height: int) -> bool {
    &&& body.len() == 3
    &&& 1 <= body[0].row < height - 4
    &&& 1 <= body[0].col < width - 1
    &&& body[1] == Coordinate { row: (body[0].row + 1) as usize, col: body[0].col }
    &&& body[2] == Coordinate { row: (body[0].row + 2) as usize, col: body[0].col }
}

/// The cell at (`r`, `c`) after a step that left `tail` behind, and, where
/// the snake `body` then collided, emptied the cells it covered.
pub open spec fn cleared_cell(
    cell: GameContent,
    tail: Coordinate,
    body: Seq<Coordinate>,
    collided: bool,
    r: int,
    c: int,
) -> GameContent {
    if collided && body.contains(Coordinate { row: r as usize, col: c as usize }) {
        GameContent::Empty
    } else if r == tail.row && c == tail.col {
        GameContent::Empty
    } else {
        cell
    }
}

/// A game session: whether the text is revealed without play, whether the
/// intro has yet to run, the score, and the grid.
pub struct SnakeGame {
    reveal: bool,
    is_new: bool,
    score: usize,
    screen_buffer: ScreenBuffer,
}

impl SnakeGame {
    pub closed spec fn spec_reveal(&self) -> bool {
        self.reveal
    }

    pub closed spec fn spec_is_new(&self) -> bool {
        self.is_new
    }

    pub closed spec fn spec_score(&self) -> int {
        self.score as int
    }

    pub closed spec fn grid(&self) -> ScreenBuffer {
        self.screen_buffer
    }

    /// A session whose intro has yet to run, with score 0, on `screen_buffer`.
    pub fn new(reveal: bool, screen_buffer: ScreenBuffer) -> (r: SnakeGame)
        ensures
            r.spec_reveal() == reveal,
            r.spec_is_new(),
            r.spec_score() == 0,
            r.grid() == screen_buffer,
    {
        SnakeGame { reveal, is_new: true, score: 0, screen_buffer }
    }

    /// A session made of the given parts, as a stored session holds them.
    pub fn from_parts(reveal: bool, is_new: bool, score: usize, screen_buffer: ScreenBuffer) -> (r:
        SnakeGame)
        ensures
            r.spec_reveal() == reveal,
            r.spec_is_new() == is_new,
            r.spec_score() == score,
            r.grid() == screen_buffer,
    {
        SnakeGame { reveal, is_new, score, screen_buffer }
    }

    pub fn reveals(&self) -> (r: bool)
        ensures
            r == self.spec_reveal(),
    {
        self.reveal
    }

    pub fn is_new(&self) -> (r: bool)
        ensures
            r == self.spec_is_new(),
    {
        self.is_new
    }

    pub fn score(&self) -> (r: usize)
        ensures
            r == self.spec_score(),
    {
        self.score
    }

    pub fn screen_buffer(&self) -> (r: &ScreenBuffer)
        ensures
            *r == self.grid(),
    {
        &self.screen_buffer
    }

    /// Clears the grid and writes the title, the way to stop and the
    /// controls, each centered on its row.
    pub fn show_intro(&mut self)
        requires
            old(self).grid().wf(),
            old(self).grid().spec_height() >= 12,
            old(self).grid().spec_width() >= 25,
        ensures
            final(self).grid().wf(),
            final(self).grid().spec_width() == old(self).grid().spec_width(),
            final(self).grid().spec_height() == old(self).grid().spec_height(),
            final(self).spec_reveal() == old(self).spec_reveal(),
            final(self).spec_is_new() == old(self).spec_is_new(),
            final(self).spec_score() == old(self).spec_score(),
            forall|r: int, c: int|
                final(self).grid().in_bounds(r, c) ==> #[trigger] final(self).grid().at(r, c)
                    == ({
                    let w = old(self).grid().spec_width();
                    let h = old(self).grid().spec_height();
                    centered_cell(
                        centered_cell(
                            centered_cell(GameContent::Empty, h / 2 - 6, "SNAKE"@, w, r, c),
                            h / 2 - 4,
                            "ESC to stop"@,
                            w,
                            r,
                            c,
                        ),
                        h / 2 + 2,
                        "~ CONTROLS IT by ARROWS ~"@,
                        w,
                        r,
                        c,
                    )
                }),
    {
        proof {
            reveal_strlit("SNAKE");
            reveal_strlit("ESC to stop");
            reveal_strlit("~ CONTROLS IT by ARROWS ~");
        }
        let h = self.screen_buffer.height();
        self.screen_buffer.set_all(GameContent::Empty);
        self.screen_buffer.set_centered_text_at_row(h / 2 - 6, "SNAKE");
        self.screen_buffer.set_centered_text_at_row(h / 2 - 4, "ESC to stop");
        self.screen_buffer.set_centered_text_at_row(h / 2 + 2, "~ CONTROLS IT by ARROWS ~");
    }

    /// Writes "Starting in `n`" centered on the second row from the bottom.
    pub fn show_countdown(&mut self, n: usize)
        requires
            old(self).grid().wf(),
            old(self).grid().spec_height() >= 2,
            old(self).grid().spec_width() >= 13,
            n < 10,
        ensures
            final(self).grid().wf(),
            final(self).grid().spec_width() == old(self).grid().spec_width(),
            final(self).grid().spec_height() == old(self).grid().spec_height(),
            final(self).spec_reveal() == old(self).spec_reveal(),
            final(self).spec_is_new() == old(self).spec_is_new(),
            final(self).spec_score() == old(self).spec_score(),
            forall|r: int, c: int|
                final(self).grid().in_bounds(r, c) ==> #[trigger] final(self).grid().at(r, c)
                    == centered_cell(
                    old(self).grid().at(r, c),
                    old(self).grid().spec_height() - 2,
                    "Starting in "@ + decimal(n as nat),
                    old(self).grid().spec_width(),
                    r,
                    c,
                ),
    {
        proof {
            reveal_strlit("Starting in ");
        }
        let text = labelled_number("Starting in ", n);
        let h = self.screen_buffer.height();
        self.screen_buffer.set_centered_chars_at_row(h - 2, &text);
    }

    /// Ends the intro: the board is all food, or all empty where the text is
    /// revealed without play, and the intro never runs again.
    pub fn finish_intro(&mut self)
        requires
            old(self).grid().wf(),
        ensures
            final(self).grid().wf(),
            final(self).grid().spec_width() == old(self).grid().spec_width(),
            final(self).grid().spec_height() == old(self).grid().spec_height(),
            final(self).spec_reveal() == old(self).spec_reveal(),
            !final(self).spec_is_new(),
            final(self).spec_score() == old(self).spec_score(),
            forall|r: int, c: int|
                final(self).grid().in_bounds(r, c) ==> #[trigger] final(self).grid().at(r, c) == (
                if old(self).spec_reveal() {
                    GameContent::Empty
                } else {
                    GameContent::Food
                }),
    {
        if self.reveal {
            self.screen_buffer.set_all(GameContent::Empty);
        } else {
            self.screen_buffer.set_all(GameContent::Food);
        }
        self.is_new = false;
    }

    /// Empties every cell that `body` covers; no other cell changes.
    pub fn clear_snake(&mut self, body: &[Coordinate])
        requires
            old(self).grid().wf(),
            on_grid(body@, old(self).grid().spec_width(), old(self).grid().spec_height()),
        ensures
            final(self).grid().wf(),
            final(self).grid().spec_width() == old(self).grid().spec_width(),
            final(self).grid().spec_height() == old(self).grid().spec_height(),
            final(self).spec_reveal() == old(self).spec_reveal(),
            final(self).spec_is_new() == old(self).spec_is_new(),
            final(self).spec_score() == old(self).spec_score(),
            forall|r: int, c: int|
                final(self).grid().in_bounds(r, c) ==> #[trigger] final(self).grid().at(r, c) == (
                if body@.contains(Coordinate { row: r as usize, col: c as usize }) {
                    GameContent::Empty
                } else {
                    old(self).grid().at(r, c)
                }),
    {
        let mut i: usize = 0;
        while i < body.len()
            invariant
                i <= body@.len(),
                self.screen_buffer.wf(),
                self.screen_buffer.spec_width() == old(self).grid().spec_width(),
                self.screen_buffer.spec_height() == old(self).grid().spec_height(),
                self.reveal == old(self).spec_reveal(),
                self.is_new == old(self).spec_is_new(),
                self.score == old(self).spec_score(),
                on_grid(body@, old(self).grid().spec_width(), old(self).grid().spec_height()),
                forall|r: int, c: int|
                    self.screen_buffer.in_bounds(r, c) ==> #[trigger] self.screen_buffer.at(r, c)
                        == (if body@.take(i as int).contains(
                        Coordinate { row: r as usize, col: c as usize },
                    ) {
                        GameContent::Empty
                    } else {
                        old(self).grid().at(r, c)
                    }),
            decreases body@.len() - i,
        {
            let coord = body[i];
            assert(body@[i as int].row < old(self).grid().spec_height());
            let ghost before = self.screen_buffer;
            self.screen_buffer.set_at(coord.row, coord.col, GameContent::Empty);
            assert forall|r: int, c: int| self.screen_buffer.in_bounds(r, c) implies #[trigger]
                self.screen_buffer.at(r, c) == (if body@.take(i + 1).contains(
                Coordinate { row: r as usize, col: c as usize },
            ) {
                GameContent::Empty
            } else {
                old(self).grid().at(r, c)
            }) by {
                let here = Coordinate { row: r as usize, col: c as usize };
                before.lemma_dims_fit();
                assert(here.row as int == r && here.col as int == c);
                let prev = body@.take(i as int);
                let next = body@.take(i + 1);
                assert(before.at(r, c) == (if prev.contains(here) {
                    GameContent::Empty
                } else {
                    old(self).grid().at(r, c)
                }));
                assert(next == prev.push(coord));
                if r == coord.row && c == coord.col {
                    assert(next[i as int] == here);
                } else {
                    if next.contains(here) {
                        let k = choose|k: int| 0 <= k < next.len() && next[k] == here;
                        assert(next[i as int] == coord);
                        assert(k != i);
                        assert(prev[k] == here);
                    }
                    if prev.contains(here) {
                        let k = choose|k: int| 0 <= k < prev.len() && prev[k] == here;
                        assert(next[k] == here);
                    }
                }
            }
            i = i + 1;
        }
        assert(body@.take(body@.len() as int) == body@);
    }

    /// Moves `body` one step in direction `d`, empties the old tail cell, and
    /// where the new head lands on food adds one to the score and a copy of
    /// the last segment to the body. Returns whether it ate.
    fn step_snake(&mut self, body: &mut Vec<Coordinate>, d: crate::snake::Direction) -> (ate: bool)
        requires
            old(self).grid().wf(),
            old(self).spec_score() < usize::MAX,
            fits_grid(old(body)@, old(self).grid().spec_width(), old(self).grid().spec_height()),
        ensures
            final(self).grid().wf(),
            final(self).grid().spec_width() == old(self).grid().spec_width(),
            final(self).grid().spec_height() == old(self).grid().spec_height(),
            final(self).spec_reveal() == old(self).spec_reveal(),
            final(self).spec_is_new() == old(self).spec_is_new(),
            final(body)@.len() >= 1,
            on_grid(final(body)@, old(self).grid().spec_width(), old(self).grid().spec_height()),
            forall|r: int, c: int|
                final(self).grid().in_bounds(r, c) ==> #[trigger] final(self).grid().at(r, c) == (
                if r == old(body)@.last().row && c == old(body)@.last().col {
                    GameContent::Empty
                } else {
                    old(self).grid().at(r, c)
                }),
            ({
                let moved = moved_body(old(body)@, d);
                let head = moved[0];
                &&& ate == (head != old(body)@.last() && old(self).grid().at(
                    head.row as int,
                    head.col as int,
                ) == GameContent::Food)
                &&& final(body)@ == if ate {
                    moved.push(moved.last())
                } else {
                    moved
                }
                &&& final(self).spec_score() == old(self).spec_score() + if ate {
                    1int
                } else {
                    0int
                }
            }),
    {
        let w = self.screen_buffer.width();
        let h = self.screen_buffer.height();
        let ghost old_body = body@;
        assert(on_grid(old_body, w as int, h as int));
        let removed_tail = move_snake(body, d);
        let ghost moved = body@;
        assert(on_grid(moved, w as int, h as int)) by {
            assert forall|k: int| 0 <= k < moved.len() implies #[trigger] moved[k].row < h
                && moved[k].col < w by {
                if k > 0 {
                    let prev = k - 1;
                    assert(0 <= prev < old_body.len());
                    assert(moved[k] == old_body[prev]);
                    assert(old_body[prev].row < h && old_body[prev].col < w);
                } else {
                    assert(moved[0] == stepped(old_body[0], d));
                }
            }
        }
        assert(old_body[old_body.len() - 1] == removed_tail);
        self.screen_buffer.set_at(removed_tail.row, removed_tail.col, GameContent::Empty);
        let head = body[0];
        let ate = self.screen_buffer.get_at(head.row, head.col) == GameContent::Food;
        if ate {
            self.score = self.score + 1;
            let last = body[body.len() - 1];
            body.push(last);
            let ghost grown = body@;
            assert(on_grid(grown, w as int, h as int)) by {
                assert forall|k: int| 0 <= k < grown.len() implies #[trigger] grown[k].row < h
                    && grown[k].col < w by {
                    if k < moved.len() {
                        assert(grown[k] == moved[k]);
                    } else {
                        assert(grown[k] == moved[moved.len() - 1]);
                    }
                }
            }
        }
        ate
    }

    /// Where the head of `snake` hits the border or the body, empties the
    /// body's cells and puts a new random snake in its place; otherwise leaves
    /// the snake as it is. The snake can then take its next step.
    fn respawn_on_collision(&mut self, snake: &mut Snake)
        requires
            old(self).grid().wf(),
            old(self).grid().spec_width() >= 3,
            old(self).grid().spec_height() >= 6,
            old(snake).body_pos@.len() >= 1,
            on_grid(old(snake).body_pos@, old(self).grid().spec_width(), old(self).grid().spec_height()),
        ensures
            final(self).grid().wf(),
            final(self).grid().spec_width() == old(self).grid().spec_width(),
            final(self).grid().spec_height() == old(self).grid().spec_height(),
            final(self).spec_reveal() == old(self).spec_reveal(),
            final(self).spec_is_new() == old(self).spec_is_new(),
            final(self).spec_score() == old(self).spec_score(),
            fits_grid(final(snake).body_pos@, old(self).grid().spec_width(), old(self).grid().spec_height()),
            if collides(old(snake).body_pos@, old(self).grid().spec_width(), old(self).grid().spec_height()) {
                &&& is_respawned(
                    final(snake).body_pos@,
                    old(self).grid().spec_width(),
                    old(self).grid().spec_height(),
                )
                &&& final(snake).direction == crate::snake::Direction::UP
            } else {
                *final(snake) == *old(snake)
            },
            forall|r: int, c: int|
                final(self).grid().in_bounds(r, c) ==> #[trigger] final(self).grid().at(r, c) == (
                if collides(
                    old(snake).body_pos@,
                    old(self).grid().spec_width(),
                    old(self).grid().spec_height(),
                ) && old(snake).body_pos@.contains(
                    Coordinate { row: r as usize, col: c as usize },
                ) {
                    GameContent::Empty
                } else {
                    old(self).grid().at(r, c)
                }),
    {
        let w = self.screen_buffer.width();
        let h = self.screen_buffer.height();
        if check_border_and_ego_collision(snake.body_pos.as_slice(), w, h) {
            self.clear_snake(snake.body_pos.as_slice());
            *snake = Snake::new_random(h, w);
            let ghost fresh = snake.body_pos@;
            assert(on_grid(fresh, w as int, h as int)) by {
                assert forall|k: int| 0 <= k < fresh.len() implies #[trigger] fresh[k].row < h
                    && fresh[k].col < w by {
                    assert(k == 0 || k == 1 || k == 2);
                }
            }
        }
    }

    /// Paints the snake `body`, draws the border, writes the score centered
    /// on the top row where it fits, and lays the flavor text over the board
    /// where it fits.
    fn draw_overlays(&mut self, body: &[Coordinate])
        requires
            old(self).grid().wf(),
            old(self).grid().spec_width() >= 1,
            old(self).grid().spec_height() >= 1,
            body@.len() >= 1,
            on_grid(body@, old(self).grid().spec_width(), old(self).grid().spec_height()),
        ensures
            final(self).grid().wf(),
            final(self).grid().spec_width() == old(self).grid().spec_width(),
            final(self).grid().spec_height() == old(self).grid().spec_height(),
            final(self).spec_reveal() == old(self).spec_reveal(),
            final(self).spec_is_new() == old(self).spec_is_new(),
            final(self).spec_score() == old(self).spec_score(),
            forall|r: int, c: int|
                final(self).grid().in_bounds(r, c) ==> #[trigger] final(self).grid().at(r, c)
                    == overlaid_cell(
                    old(self).grid().at(r, c),
                    body@,
                    old(self).grid().spec_width(),
                    old(self).grid().spec_height(),
                    old(self).spec_score(),
                    r,
                    c,
                ),
    {
        let w = self.screen_buffer.width();
        let ghost g0 = self.screen_buffer;
        add_snake_to_buffer(&mut self.screen_buffer, body);
        let ghost g1 = self.screen_buffer;
        self.screen_buffer.add_border(GameContent::Border);
        let ghost g2 = self.screen_buffer;
        let score_text = labelled_number("Score: ", self.score);
        if score_text.len() <= w {
            self.screen_buffer.set_centered_chars_at_row(0, &score_text);
        }
        let ghost g3 = self.screen_buffer;
        if self.screen_buffer.fits_text(FLAVOR_TEXT, PADDING) {
            let text = FLAVOR_TEXT.to_owned();
            self.screen_buffer.fill_with_text(text, PADDING);
        }
        assert forall|r: int, c: int| self.screen_buffer.in_bounds(r, c) implies #[trigger]
            self.screen_buffer.at(r, c) == overlaid_cell(
            g0.at(r, c),
            body@,
            g0.spec_width(),
            g0.spec_height(),
            self.score as int,
            r,
            c,
        ) by {
            assert(g1.at(r, c) == painted_cell(g0.at(r, c), body@, r, c));
            assert(g2.at(r, c) == (if r == 0 || r == g0.spec_height() - 1 || c == 0 || c
                == g0.spec_width() - 1 {
                GameContent::Border
            } else {
                g1.at(r, c)
            }));
            assert(g3.at(r, c) == (if score_label(self.score as int).len() <= g0.spec_width() {
                centered_cell(g2.at(r, c), 0, score_label(self.score as int), g0.spec_width(), r, c)
            } else {
                g2.at(r, c)
            }));
        }
    }

    /// One tick of play on the key presses `events` that came in since the
    /// last tick. Where one of them is escape or `q` the tick does nothing and
    /// reports that play ends. Otherwise: the last press that matches one of
    /// the player's keys steers (four-key steering); the snake moves and its
    /// old tail cell is emptied; where the new head lands on food the score
    /// grows by one and the snake by a copy of its last segment; where the
    /// head then hits the border or the body, the body's cells are emptied
    /// and a new random snake takes its place. Then the snake is painted, the
    /// border drawn, the score written on the top row and the flavor text laid
    /// over the board, each where it fits.
    pub fn tick(&mut self, player: &mut Player, events: &[KeyEvent]) -> (quit: bool)
        requires
            old(self).grid().wf(),
            old(self).grid().spec_width() >= 3,
            old(self).grid().spec_height() >= 6,
            old(self).spec_score() < usize::MAX,
            fits_grid(
                old(player).snake.body_pos@,
                old(self).grid().spec_width(),
                old(self).grid().spec_height(),
            ),
        ensures
            quit == quit_requested(events@),
            quit ==> *final(self) == *old(self) && *final(player) == *old(player),
            final(self).grid().wf(),
            final(self).grid().spec_width() == old(self).grid().spec_width(),
            final(self).grid().spec_height() == old(self).grid().spec_height(),
            final(self).spec_reveal() == old(self).spec_reveal(),
            final(self).spec_is_new() == old(self).spec_is_new(),
            final(player).left_key == old(player).left_key,
            final(player).right_key == old(player).right_key,
            final(player).up_key == old(player).up_key,
            final(player).down_key == old(player).down_key,
            fits_grid(
                final(player).snake.body_pos@,
                final(self).grid().spec_width(),
                final(self).grid().spec_height(),
            ),
            !quit ==> {
                let d = steered(*old(player), events@);
                let body = moved_body(old(player).snake.body_pos@, d);
                let head = body[0];
                let ate = head != old(player).snake.body_pos@.last() && old(self).grid().at(
                    head.row as int,
                    head.col as int,
                ) == GameContent::Food;
                let grown = if ate {
                    body.push(body.last())
                } else {
                    body
                };
                &&& final(self).spec_score() == old(self).spec_score() + if ate {
                    1int
                } else {
                    0int
                }
                &&& if collides(
                    grown,
                    old(self).grid().spec_width(),
                    old(self).grid().spec_height(),
                ) {
                    &&& is_respawned(
                        final(player).snake.body_pos@,
                        old(self).grid().spec_width(),
                        old(self).grid().spec_height(),
                    )
                    &&& final(player).snake.direction == crate::snake::Direction::UP
                } else {
                    &&& final(player).snake.body_pos@ == grown
                    &&& final(player).snake.direction == d
                }
                &&& forall|r: int, c: int|
                    final(self).grid().in_bounds(r, c) ==> #[trigger] final(self).grid().at(r, c)
                        == overlaid_cell(
                        cleared_cell(
                            old(self).grid().at(r, c),
                            old(player).snake.body_pos@.last(),
                            grown,
                            collides(
                                grown,
                                old(self).grid().spec_width(),
                                old(self).grid().spec_height(),
                            ),
                            r,
                            c,
                        ),
                        final(player).snake.body_pos@,
                        old(self).grid().spec_width(),
                        old(self).grid().spec_height(),
                        final(self).spec_score(),
                        r,
                        c,
                    )
            },
    {
        let w = self.screen_buffer.width();
        let h = self.screen_buffer.height();
        let mut stop_keys: Vec<KeyEvent> = Vec::new();
        stop_keys.push(KeyEvent::plain(KeyCode::Esc));
        stop_keys.push(KeyEvent::plain(KeyCode::Char('q')));
        assert(stop_keys@ == quit_keys());
        let quits = find_matches(events, stop_keys.as_slice());
        proof {
            lemma_quit_matches(events@);
        }
        if quits.len() > 0 {
            return true;
        }
        let mut dir_keys: Vec<KeyEvent> = Vec::new();
        dir_keys.push(player.left_key);
        dir_keys.push(player.right_key);
        dir_keys.push(player.up_key);
        dir_keys.push(player.down_key);
        let found = find_matches(events, dir_keys.as_slice());
        assert(dir_keys@ == seq![player.left_key, player.right_key, player.up_key, player.down_key]);
        if found.len() > 0 {
            player.update_snake_direction(found[found.len() - 1], true);
        }
        let d = player.snake.direction;
        assert(d == steered(*old(player), events@));
        let ghost g0 = self.screen_buffer;
        self.step_snake(&mut player.snake.body_pos, d);
        let ghost g1 = self.screen_buffer;
        let ghost grown = player.snake.body_pos@;
        self.respawn_on_collision(&mut player.snake);
        let ghost g2 = self.screen_buffer;
        self.draw_overlays(player.snake.body_pos.as_slice());
        assert forall|r: int, c: int| self.screen_buffer.in_bounds(r, c) implies #[trigger]
            self.screen_buffer.at(r, c) == overlaid_cell(
            cleared_cell(
                g0.at(r, c),
                old(player).snake.body_pos@.last(),
                grown,
                collides(grown, g0.spec_width(), g0.spec_height()),
                r,
                c,
            ),
            player.snake.body_pos@,
            g0.spec_width(),
            g0.spec_height(),
            self.score as int,
            r,
            c,
        ) by {
            assert(g1.at(r, c) == (if r == old(player).snake.body_pos@.last().row && c == old(
                player,
            ).snake.body_pos@.last().col {
                GameContent::Empty
            } else {
                g0.at(r, c)
            }));
            assert(g2.at(r, c) == (if collides(grown, g0.spec_width(), g0.spec_height())
                && grown.contains(Coordinate { row: r as usize, col: c as usize }) {
                GameContent::Empty
            } else {
                g1.at(r, c)
            }));
        }
        false
    }
}

/// A new session on a 40 x 40 grid of empty cells.
pub fn new_game(reveal: bool) -> (r: SnakeGame)
    ensures
        r.spec_reveal() == reveal,
        r.spec_is_new(),
        r.spec_score() == 0,
        r.grid().wf(),
        r.grid().spec_width() == 40,
        r.grid().spec_height() == 40,
        forall|row: int, col: int|
            r.grid().in_bounds(row, col) ==> #[trigger] r.grid().at(row, col) == GameContent::Empty,
{
    let screen_buffer = ScreenBuffer::new(40, 40, GameContent::Empty);
    SnakeGame::new(reveal, screen_buffer)
}

} // verus!
