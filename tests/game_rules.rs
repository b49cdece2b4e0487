use snake::game::{decimal_chars, FLAVOR_TEXT, PADDING};
use snake::paint::{cell_paint, Color, Paint, BLOCK};
use snake::text_layout::{chars_of, wrap_lines};
use snake::{
    add_snake_to_buffer, check_border_and_ego_collision, find_matches, move_snake, new_game,
    snake_item_collision, Coordinate, Direction, GameContent, KeyCode, KeyEvent, Player,
    ScreenBuffer, Snake, SnakeGame,
};

fn c(row: usize, col: usize) -> Coordinate {
    Coordinate { row, col }
}

fn arrow_player() -> Player {
    Player::new(
        KeyEvent::plain(KeyCode::Left),
        KeyEvent::plain(KeyCode::Right),
        KeyEvent::plain(KeyCode::Up),
        KeyEvent::plain(KeyCode::Down),
    )
}

fn row_text(buffer: &ScreenBuffer, row: usize) -> Vec<GameContent> {
    (0..buffer.width()).map(|col| buffer.get_at(row, col)).collect()
}

#[test]
fn border_scenario_on_ten_by_ten() {
    let mut b = ScreenBuffer::new(10, 10, GameContent::Empty);
    b.add_border(GameContent::Border);
    assert_eq!(b.get_at(0, 5), GameContent::Border);
    assert_eq!(b.get_at(5, 5), GameContent::Empty);
    assert_eq!(b.get_at(9, 9), GameContent::Border);
    assert_eq!(b.get_at(5, 0), GameContent::Border);
    assert_eq!(b.get_at(5, 9), GameContent::Border);
    assert_eq!(b.get_at(1, 1), GameContent::Empty);
}

#[test]
fn new_buffer_has_size_and_content() {
    let b = ScreenBuffer::new(7, 3, GameContent::Food);
    assert_eq!(b.width(), 7);
    assert_eq!(b.height(), 3);
    assert_eq!(b.cells().len(), 21);
    assert!(b.cells().iter().all(|x| *x == GameContent::Food));
}

#[test]
fn set_at_changes_one_cell() {
    let mut b = ScreenBuffer::new(4, 4, GameContent::Empty);
    b.set_at(2, 3, GameContent::Food);
    assert_eq!(b.get_at(2, 3), GameContent::Food);
    assert_eq!(b.cells()[3 + 2 * 4], GameContent::Food);
    assert_eq!(b.cells().iter().filter(|x| **x == GameContent::Food).count(), 1);
    b.set_all(GameContent::Border);
    assert!(b.cells().iter().all(|x| *x == GameContent::Border));
}

#[test]
fn centered_text_starts_at_half_the_free_width() {
    let mut b = ScreenBuffer::new(10, 3, GameContent::Empty);
    b.set_centered_text_at_row(1, "AB");
    assert_eq!(b.get_at(1, 4), GameContent::Character('A'));
    assert_eq!(b.get_at(1, 5), GameContent::Character('B'));
    assert_eq!(b.get_at(1, 3), GameContent::Empty);
    assert_eq!(b.get_at(1, 6), GameContent::Empty);
    assert_eq!(b.get_at(0, 4), GameContent::Empty);
}

#[test]
fn centered_text_odd_free_width_rounds_down() {
    let mut b = ScreenBuffer::new(10, 1, GameContent::Empty);
    b.set_centered_text_at_row(0, "ABC");
    assert_eq!(b.get_at(0, 3), GameContent::Character('A'));
    assert_eq!(b.get_at(0, 5), GameContent::Character('C'));
    assert_eq!(b.get_at(0, 2), GameContent::Empty);
}

#[test]
fn centered_text_keeps_base_kind_of_cells() {
    let mut b = ScreenBuffer::new(6, 1, GameContent::Empty);
    b.set_at(0, 0, GameContent::SnakeHead);
    b.set_at(0, 1, GameContent::SnakeBody);
    b.set_at(0, 2, GameContent::Food);
    b.set_at(0, 3, GameContent::Border);
    b.set_at(0, 4, GameContent::BorderWithChar('z'));
    b.set_at(0, 5, GameContent::Character('y'));
    b.set_centered_text_at_row(0, "abcdef");
    assert_eq!(
        row_text(&b, 0),
        vec![
            GameContent::SnakeHeadWithChar('a'),
            GameContent::SnakeBodyWithChar('b'),
            GameContent::Food,
            GameContent::BorderWithChar('d'),
            GameContent::BorderWithChar('e'),
            GameContent::Character('f'),
        ]
    );
}

#[test]
fn fill_with_text_short_text_is_one_centered_row() {
    let mut b = ScreenBuffer::new(20, 10, GameContent::Empty);
    b.fill_with_text("a b c".to_string(), 1);
    // allowed height 8, one line: top = 1 + (8 - 1) / 2 = 4; line " a b c" of 6 starts at 7
    let mut rows_with_text = vec![];
    for row in 0..10 {
        if row_text(&b, row).iter().any(|x| *x != GameContent::Empty) {
            rows_with_text.push(row);
        }
    }
    assert_eq!(rows_with_text, vec![4]);
    assert_eq!(b.get_at(4, 7), GameContent::Character(' '));
    assert_eq!(b.get_at(4, 8), GameContent::Character('a'));
    assert_eq!(b.get_at(4, 12), GameContent::Character('c'));
    assert_eq!(b.get_at(4, 13), GameContent::Empty);
}

#[test]
fn wrap_lines_breaks_greedily_and_on_newline() {
    let text = chars_of("aa bb cc\ndd");
    let lines: Vec<String> = wrap_lines(&text, 7).iter().map(|l| l.iter().collect()).collect();
    assert_eq!(lines, vec![" aa bb".to_string(), "cc".to_string(), " dd".to_string()]);
}

#[test]
fn wrap_lines_never_exceeds_width_minus_one() {
    // the longest word of the flavor text has 13 characters
    let text = chars_of(FLAVOR_TEXT);
    for width in 14..40 {
        for line in wrap_lines(&text, width) {
            assert!(line.len() < width, "line of {} at width {}", line.len(), width);
        }
    }
}

#[test]
fn flavor_text_fits_the_standard_board() {
    let b = ScreenBuffer::new(40, 40, GameContent::Empty);
    assert!(b.fits_text(FLAVOR_TEXT, PADDING));
    let small = ScreenBuffer::new(12, 12, GameContent::Empty);
    assert!(!small.fits_text(FLAVOR_TEXT, PADDING));
}

#[test]
fn from_cells_checks_the_count() {
    assert!(ScreenBuffer::from_cells(3, 2, vec![GameContent::Empty; 5]).is_none());
    let b = ScreenBuffer::from_cells(3, 2, vec![GameContent::Food; 6]).unwrap();
    assert_eq!(b.width(), 3);
    assert_eq!(b.height(), 2);
    assert_eq!(b.get_at(1, 2), GameContent::Food);
}

#[test]
fn move_snake_each_direction() {
    let start = vec![c(5, 5), c(6, 5), c(7, 5)];
    let cases = [
        (Direction::UP, c(4, 5)),
        (Direction::DOWN, c(6, 5)),
        (Direction::LEFT, c(5, 4)),
        (Direction::RIGHT, c(5, 6)),
    ];
    for (d, head) in cases {
        let mut body = start.clone();
        let tail = move_snake(&mut body, d);
        assert_eq!(tail, c(7, 5));
        assert_eq!(body, vec![head, c(5, 5), c(6, 5)]);
    }
}

#[test]
fn item_collision_finds_members() {
    let body = vec![c(1, 1), c(1, 2), c(2, 2)];
    assert!(snake_item_collision(&body, &c(2, 2)));
    assert!(!snake_item_collision(&body, &c(3, 2)));
    assert!(!snake_item_collision(&[], &c(1, 1)));
}

#[test]
fn interior_snake_does_not_collide() {
    let body = vec![c(5, 5), c(6, 5), c(7, 5)];
    assert!(!check_border_and_ego_collision(&body, 10, 10));
}

#[test]
fn head_on_third_segment_collides() {
    let body = vec![c(5, 5), c(5, 6), c(5, 5), c(6, 5)];
    assert!(check_border_and_ego_collision(&body, 10, 10));
}

#[test]
fn head_on_each_border_collides() {
    assert!(check_border_and_ego_collision(&[c(0, 5)], 10, 10));
    assert!(check_border_and_ego_collision(&[c(9, 5)], 10, 10));
    assert!(check_border_and_ego_collision(&[c(5, 0)], 10, 10));
    assert!(check_border_and_ego_collision(&[c(5, 9)], 10, 10));
    assert!(!check_border_and_ego_collision(&[c(8, 8)], 10, 10));
}

#[test]
fn find_matches_keeps_arrival_order() {
    let up = KeyEvent::plain(KeyCode::Up);
    let left = KeyEvent::plain(KeyCode::Left);
    let right = KeyEvent::plain(KeyCode::Right);
    let q = KeyEvent::plain(KeyCode::Char('q'));
    let events = [up, left, q, up];
    assert_eq!(find_matches(&events, &[left, up]), vec![up, left, up]);
    assert_eq!(find_matches(&[right, left], &[left, right]), vec![right, left]);
    assert_eq!(find_matches(&[left], &[left, left]), vec![left]);
    assert_eq!(find_matches(&events, &[KeyEvent::plain(KeyCode::Esc)]), vec![]);
    let shifted = KeyEvent { code: KeyCode::Up, modifiers: 1 };
    assert_eq!(find_matches(&[shifted], &[up]), vec![]);
}

#[test]
fn four_key_steering_rejects_reversal() {
    let mut p = arrow_player();
    assert_eq!(p.snake.direction, Direction::UP);
    p.update_snake_direction(KeyEvent::plain(KeyCode::Down), true);
    assert_eq!(p.snake.direction, Direction::UP);
    p.update_snake_direction(KeyEvent::plain(KeyCode::Left), true);
    assert_eq!(p.snake.direction, Direction::LEFT);
    p.update_snake_direction(KeyEvent::plain(KeyCode::Right), true);
    assert_eq!(p.snake.direction, Direction::LEFT);
    p.update_snake_direction(KeyEvent::plain(KeyCode::Down), true);
    assert_eq!(p.snake.direction, Direction::DOWN);
    p.update_snake_direction(KeyEvent::plain(KeyCode::Up), true);
    assert_eq!(p.snake.direction, Direction::DOWN);
}

#[test]
fn two_key_steering_rotates() {
    let mut p = arrow_player();
    p.update_snake_direction(KeyEvent::plain(KeyCode::Left), false);
    assert_eq!(p.snake.direction, Direction::LEFT);
    p.update_snake_direction(KeyEvent::plain(KeyCode::Left), false);
    assert_eq!(p.snake.direction, Direction::DOWN);
    p.update_snake_direction(KeyEvent::plain(KeyCode::Right), false);
    assert_eq!(p.snake.direction, Direction::LEFT);
    p.update_snake_direction(KeyEvent::plain(KeyCode::Right), false);
    assert_eq!(p.snake.direction, Direction::UP);
    p.update_snake_direction(KeyEvent::plain(KeyCode::Up), false);
    assert_eq!(p.snake.direction, Direction::UP);
}

#[test]
fn new_snake_and_player() {
    let s = Snake::new();
    assert_eq!(s.body_pos, vec![c(18, 10), c(19, 10), c(20, 10)]);
    assert_eq!(s.direction, Direction::UP);
    let p = arrow_player();
    assert_eq!(p.left_key, KeyEvent::plain(KeyCode::Left));
    assert_eq!(p.snake.body_pos.len(), 3);
}

#[test]
fn random_snake_stays_inside() {
    for _ in 0..200 {
        let s = Snake::new_random(8, 5);
        let head = s.body_pos[0];
        assert!(head.row >= 1 && head.row < 4);
        assert!(head.col >= 1 && head.col < 4);
        assert_eq!(s.body_pos, vec![head, c(head.row + 1, head.col), c(head.row + 2, head.col)]);
        assert_eq!(s.direction, Direction::UP);
    }
    let mut rows = std::collections::HashSet::new();
    for _ in 0..300 {
        rows.insert(Snake::new_random(40, 40).body_pos[0].row);
    }
    assert!(rows.len() > 1);
}

#[test]
fn paint_snake_head_and_body() {
    let mut b = ScreenBuffer::new(6, 6, GameContent::Food);
    add_snake_to_buffer(&mut b, &[c(2, 2), c(3, 2), c(3, 3)]);
    assert_eq!(b.get_at(2, 2), GameContent::SnakeHead);
    assert_eq!(b.get_at(3, 2), GameContent::SnakeBody);
    assert_eq!(b.get_at(3, 3), GameContent::SnakeBody);
    assert_eq!(b.get_at(1, 1), GameContent::Food);
}

#[test]
fn decimal_digits() {
    assert_eq!(decimal_chars(0), vec!['0']);
    assert_eq!(decimal_chars(7), vec!['7']);
    assert_eq!(decimal_chars(1203), vec!['1', '2', '0', '3']);
}

#[test]
fn new_session_state() {
    let g = new_game(false);
    assert!(g.is_new());
    assert!(!g.reveals());
    assert_eq!(g.score(), 0);
    assert_eq!(g.screen_buffer().width(), 40);
    assert_eq!(g.screen_buffer().height(), 40);
    let g2 = SnakeGame::new(true, ScreenBuffer::new(3, 3, GameContent::Food));
    assert!(g2.reveals());
    assert!(g2.is_new());
}

#[test]
fn intro_then_board_of_food() {
    let mut g = new_game(false);
    g.show_intro();
    assert_eq!(g.screen_buffer().get_at(14, 17), GameContent::Character('S'));
    g.show_countdown(3);
    let text: Vec<GameContent> = "Starting in 3".chars().map(GameContent::Character).collect();
    assert_eq!(row_text(g.screen_buffer(), 38)[13..26].to_vec(), text);
    g.finish_intro();
    assert!(!g.is_new());
    assert!(g.screen_buffer().cells().iter().all(|x| *x == GameContent::Food));

    let mut r = new_game(true);
    r.finish_intro();
    assert!(r.screen_buffer().cells().iter().all(|x| *x == GameContent::Empty));
}

#[test]
fn tick_quits_on_escape_or_q() {
    let mut g = new_game(false);
    g.finish_intro();
    let mut p = arrow_player();
    assert!(g.tick(&mut p, &[KeyEvent::plain(KeyCode::Esc)]));
    assert!(g.tick(&mut p, &[KeyEvent::plain(KeyCode::Up), KeyEvent::plain(KeyCode::Char('q'))]));
    assert_eq!(p.snake.body_pos, vec![c(18, 10), c(19, 10), c(20, 10)]);
    assert_eq!(g.score(), 0);
}

#[test]
fn eating_adds_one_to_score_and_length() {
    let mut g = SnakeGame::new(false, ScreenBuffer::new(40, 40, GameContent::Food));
    let mut p = arrow_player();
    assert!(!g.tick(&mut p, &[]));
    assert_eq!(g.score(), 1);
    assert_eq!(p.snake.body_pos, vec![c(17, 10), c(18, 10), c(19, 10), c(19, 10)]);
    // the vacated tail cell is plain again (the flavor text may draw a glyph on it)
    assert!(matches!(
        g.screen_buffer().get_at(20, 10),
        GameContent::Empty | GameContent::Character(_)
    ));
    // the next step onto food grows the snake again, one step after growth it keeps its length
    assert!(!g.tick(&mut p, &[KeyEvent::plain(KeyCode::Left)]));
    assert_eq!(g.score(), 2);
    assert_eq!(p.snake.body_pos.len(), 5);
    assert_eq!(p.snake.body_pos[0], c(17, 9));
    assert_eq!(p.snake.direction, Direction::LEFT);
}

#[test]
fn step_on_empty_keeps_length_and_score() {
    // on a 12 x 12 board the flavor text does not fit and is left out
    let mut g = SnakeGame::new(false, ScreenBuffer::new(12, 12, GameContent::Empty));
    let mut p = arrow_player();
    p.snake.body_pos = vec![c(5, 5), c(6, 5), c(7, 5)];
    assert!(!g.tick(&mut p, &[KeyEvent::plain(KeyCode::Down)]));
    assert_eq!(g.score(), 0);
    assert_eq!(p.snake.body_pos, vec![c(4, 5), c(5, 5), c(6, 5)]);
    assert_eq!(g.screen_buffer().get_at(4, 5), GameContent::SnakeHead);
    assert_eq!(g.screen_buffer().get_at(5, 5), GameContent::SnakeBody);
    assert_eq!(g.screen_buffer().get_at(7, 5), GameContent::Empty);
    assert_eq!(g.screen_buffer().get_at(11, 3), GameContent::Border);
}

#[test]
fn collision_respawns_snake() {
    let mut g = SnakeGame::new(false, ScreenBuffer::new(40, 40, GameContent::Empty));
    let mut p = arrow_player();
    p.snake.body_pos = vec![c(1, 10), c(2, 10), c(3, 10)];
    assert!(!g.tick(&mut p, &[]));
    assert_eq!(p.snake.body_pos.len(), 3);
    assert_eq!(p.snake.direction, Direction::UP);
    let head = p.snake.body_pos[0];
    assert!(head.row >= 1 && head.row < 36 && head.col >= 1 && head.col < 39);
    // the head may lie under the flavor text, which draws a glyph over it
    assert!(matches!(
        g.screen_buffer().get_at(head.row, head.col),
        GameContent::SnakeHead | GameContent::SnakeHeadWithChar(_)
    ));
}

#[test]
fn score_header_is_written_on_top_row() {
    let mut g = SnakeGame::from_parts(false, false, 12, ScreenBuffer::new(40, 40, GameContent::Empty));
    let mut p = arrow_player();
    assert!(!g.tick(&mut p, &[]));
    let text: Vec<GameContent> = "Score: 12".chars().map(GameContent::BorderWithChar).collect();
    assert_eq!(row_text(g.screen_buffer(), 0)[15..24].to_vec(), text);
}

#[test]
fn clear_snake_empties_its_cells() {
    let mut g = SnakeGame::new(false, ScreenBuffer::new(5, 5, GameContent::Food));
    g.clear_snake(&[c(1, 1), c(1, 2)]);
    assert_eq!(g.screen_buffer().get_at(1, 1), GameContent::Empty);
    assert_eq!(g.screen_buffer().get_at(1, 2), GameContent::Empty);
    assert_eq!(g.screen_buffer().get_at(2, 2), GameContent::Food);
}

#[test]
fn chars_of_keeps_order() {
    assert_eq!(chars_of("ab c"), vec!['a', 'b', ' ', 'c']);
}

#[test]
fn paint_filler_column_is_block_other_shows_glyph() {
    let head = GameContent::SnakeHeadWithChar('x');
    assert_eq!(
        cell_paint(head, true),
        Paint { glyph: BLOCK, foreground: Color::Green, background: None }
    );
    assert_eq!(
        cell_paint(head, false),
        Paint { glyph: 'x', foreground: Color::Black, background: Some(Color::Green) }
    );
    assert_eq!(
        cell_paint(GameContent::SnakeBodyWithChar('y'), false),
        Paint { glyph: 'y', foreground: Color::Black, background: Some(Color::DarkGreen) }
    );
    assert_eq!(
        cell_paint(GameContent::SnakeBody, true),
        Paint { glyph: BLOCK, foreground: Color::DarkGreen, background: None }
    );
    assert_eq!(
        cell_paint(GameContent::BorderWithChar('S'), false),
        Paint { glyph: 'S', foreground: Color::White, background: Some(Color::DarkBlue) }
    );
    assert_eq!(
        cell_paint(GameContent::Food, false),
        Paint { glyph: BLOCK, foreground: Color::Black, background: None }
    );
    assert_eq!(
        cell_paint(GameContent::Empty, false),
        Paint { glyph: BLOCK, foreground: Color::White, background: None }
    );
}

#[test]
fn stored_parts_round_trip() {
    let mut g = new_game(false);
    g.finish_intro();
    let mut p = arrow_player();
    assert!(!g.tick(&mut p, &[]));
    g.clear_snake(&p.snake.body_pos);
    let grid = g.screen_buffer();
    let copy = SnakeGame::from_parts(
        g.reveals(),
        g.is_new(),
        g.score(),
        ScreenBuffer::from_cells(grid.width(), grid.height(), grid.cells()).unwrap(),
    );
    assert_eq!(copy.score(), g.score());
    assert!(!copy.is_new());
    assert_eq!(copy.reveals(), g.reveals());
    assert_eq!(copy.screen_buffer().cells(), g.screen_buffer().cells());
}

#[test]
fn latest_arrow_press_steers() {
    let mut g = SnakeGame::new(false, ScreenBuffer::new(40, 40, GameContent::Empty));
    let mut p = arrow_player();
    let events = [KeyEvent::plain(KeyCode::Right), KeyEvent::plain(KeyCode::Left)];
    assert!(!g.tick(&mut p, &events));
    assert_eq!(p.snake.direction, Direction::LEFT);
    assert_eq!(p.snake.body_pos[0], c(18, 9));
}
