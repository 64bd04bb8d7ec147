use invaders::frame::{frame_ok, new_frame, set_cell};
use invaders::invaders::{Invader, Invaders};
use invaders::menu::{Menu, NewMenu};
use invaders::player::{NameKey, NameStep, Player};
use invaders::shot::Shot;
use invaders::system::{System, SystemPlayer};
use invaders::{Direction, INVADER_MULTIPLIER, NUM_COLS, NUM_ROWS, SHOT_COUNT};
use std::time::Duration;

fn cells_of(army: &Vec<Invader>) -> Vec<(usize, usize)> {
    army.iter().map(|i| (i.x, i.y)).collect()
}

fn army_of(cells: &[(usize, usize)]) -> Invaders {
    let mut inv = Invaders::new(1000);
    inv.army = cells.iter().map(|&(x, y)| Invader::new(x, y)).collect();
    inv
}

#[test]
fn constants_describe_the_field() {
    assert_eq!(NUM_ROWS, 20);
    assert_eq!(NUM_COLS, 40);
    assert_eq!(INVADER_MULTIPLIER, 9);
    assert_eq!(SHOT_COUNT, 6);
    assert_eq!(Direction::Left.offset(), -1);
    assert_eq!(Direction::Right.offset(), 1);
}

#[test]
fn frame_starts_blank() {
    let mut frame = new_frame();
    assert_eq!(frame.len(), NUM_COLS);
    for col in frame.iter() {
        assert_eq!(col.len(), NUM_ROWS);
        assert!(col.iter().all(|&c| c == ' '));
    }
    set_cell(&mut frame, 3, 7, 'q');
    assert_eq!(frame[3][7], 'q');
    assert_eq!(frame[7][3], ' ');
}

#[test]
fn invader_keeps_its_cell() {
    let i = Invader::new(4, 6);
    assert_eq!((i.x, i.y), (4, 6));
}

#[test]
fn army_formation() {
    let inv = Invaders::new(2000);
    assert_eq!(inv.army.len(), 72);
    assert_eq!(inv.direction, Direction::Left);
    let cells = cells_of(&inv.army);
    assert_eq!(cells[0], (2, 2));
    assert_eq!(cells[1], (2, 4));
    assert_eq!(cells[3], (2, 8));
    assert_eq!(cells[4], (4, 2));
    assert_eq!(cells[5], (4, 4));
    assert_eq!(cells[71], (36, 8));
    let mut expected = Vec::new();
    for x in 0..NUM_COLS {
        for y in 0..NUM_ROWS {
            if x % 2 == 0 && y % 2 == 0 && x > 1 && x < NUM_COLS - 2 && y > 0 && y < 9 {
                expected.push((x, y));
            }
        }
    }
    assert_eq!(cells, expected);
    assert!(!inv.all_dead());
    assert!(!inv.reached_bottom());
}

#[test]
fn army_marches_left_then_turns() {
    let mut inv = army_of(&[(1, 2), (5, 3)]);
    inv.advance();
    assert_eq!(cells_of(&inv.army), vec![(0, 2), (4, 3)]);
    assert_eq!(inv.direction, Direction::Left);
    // at the left edge: down, and turned right
    inv.advance();
    assert_eq!(cells_of(&inv.army), vec![(0, 3), (4, 4)]);
    assert_eq!(inv.direction, Direction::Right);
    inv.advance();
    assert_eq!(cells_of(&inv.army), vec![(1, 3), (5, 4)]);
    assert_eq!(inv.direction, Direction::Right);
}

#[test]
fn army_turns_at_right_edge() {
    let mut inv = army_of(&[(38, 2), (30, 19)]);
    inv.direction = Direction::Right;
    inv.advance();
    assert_eq!(cells_of(&inv.army), vec![(39, 2), (31, 19)]);
    inv.advance();
    // down, the last row holds
    assert_eq!(cells_of(&inv.army), vec![(39, 3), (31, 19)]);
    assert_eq!(inv.direction, Direction::Left);
    inv.advance();
    assert_eq!(cells_of(&inv.army), vec![(38, 3), (30, 19)]);
}

#[test]
fn army_spanning_both_edges_turns_twice() {
    let mut inv = army_of(&[(0, 1), (39, 1)]);
    inv.advance();
    assert_eq!(cells_of(&inv.army), vec![(0, 2), (39, 2)]);
    assert_eq!(inv.direction, Direction::Left);
}

#[test]
fn empty_army_turns_right() {
    let mut inv = army_of(&[]);
    assert!(inv.all_dead());
    assert!(!inv.reached_bottom());
    inv.advance();
    assert_eq!(inv.direction, Direction::Right);
    assert!(inv.army.is_empty());
}

#[test]
fn army_moves_when_its_timer_runs_out() {
    let mut inv = Invaders::new(100);
    assert!(!inv.update(Duration::from_millis(40)));
    assert_eq!(cells_of(&inv.army)[0], (2, 2));
    assert!(!inv.update(Duration::from_millis(40)));
    assert!(inv.update(Duration::from_millis(40)));
    assert_eq!(cells_of(&inv.army)[0], (1, 2));
    // the timer started again
    assert!(!inv.update(Duration::from_millis(40)));
    assert_eq!(cells_of(&inv.army)[0], (1, 2));
}

#[test]
fn kill_at_removes_first_match_only() {
    let mut inv = army_of(&[(2, 2), (4, 4), (2, 2), (6, 6)]);
    assert!(!inv.kill_at(3, 3));
    assert_eq!(inv.army.len(), 4);
    assert!(inv.kill_at(2, 2));
    assert_eq!(cells_of(&inv.army), vec![(4, 4), (2, 2), (6, 6)]);
    assert!(inv.kill_at(2, 2));
    assert!(!inv.kill_at(2, 2));
    assert_eq!(cells_of(&inv.army), vec![(4, 4), (6, 6)]);
}

#[test]
fn bottom_row_loses() {
    assert!(army_of(&[(2, 2), (4, 19)]).reached_bottom());
    assert!(!army_of(&[(2, 2), (4, 18)]).reached_bottom());
}

#[test]
fn army_is_drawn() {
    let inv = army_of(&[(2, 2), (4, 4)]);
    let mut frame = new_frame();
    inv.draw(&mut frame, 'x');
    assert_eq!(frame[2][2], 'x');
    assert_eq!(frame[4][4], 'x');
    assert_eq!(frame[2][4], ' ');
    inv.draw(&mut frame, '+');
    assert_eq!(frame[2][2], '+');
}

#[test]
fn shot_climbs_with_its_timer() {
    let mut s = Shot::new(5, 3);
    assert_eq!((s.x, s.y, s.exploding), (5, 3, false));
    s.update(Duration::from_millis(20));
    assert_eq!(s.y, 3);
    s.update(Duration::from_millis(40));
    assert_eq!(s.y, 2);
    assert!(!s.dead());
    s.update(Duration::from_millis(50));
    s.update(Duration::from_millis(50));
    assert_eq!(s.y, 0);
    assert!(s.dead());
    s.update(Duration::from_millis(50));
    assert_eq!(s.y, 0);
}

#[test]
fn shot_climb_rule() {
    let mut s = Shot::new(5, 3);
    assert!(!s.climb(false));
    assert_eq!(s.y, 3);
    assert!(s.climb(true));
    assert_eq!(s.y, 2);
    assert!(!s.dead_when(true));
    s.explode();
    assert!(s.exploding);
    assert!(!s.climb(true));
    assert_eq!(s.y, 2);
    assert!(s.dead_when(true));
    assert!(!s.dead_when(false));
    let mut top = Shot::new(1, 0);
    assert!(top.climb(true));
    assert_eq!(top.y, 0);
    assert!(top.dead_when(false));
}

#[test]
fn exploding_shot_dies_after_its_explosion() {
    let mut s = Shot::new(5, 3);
    s.explode();
    assert!(!s.dead());
    s.update(Duration::from_millis(100));
    assert!(!s.dead());
    assert_eq!(s.y, 3);
    s.update(Duration::from_millis(200));
    assert!(s.dead());
    assert_eq!(s.y, 3);
}

#[test]
fn player_starts_in_the_middle() {
    let p = Player::new();
    assert_eq!((p.x, p.y), (20, 19));
    assert!(p.shots.is_empty());
    assert_eq!(p.name, "");
    assert_eq!(p.score, 0);
    assert_eq!(p.level, 1);
}

#[test]
fn player_stops_at_the_edges() {
    let mut p = Player::new();
    p.move_left();
    assert_eq!(p.x, 19);
    for _ in 0..30 {
        p.move_left();
    }
    assert_eq!(p.x, 0);
    p.move_right();
    assert_eq!(p.x, 1);
    for _ in 0..60 {
        p.move_right();
    }
    assert_eq!(p.x, NUM_COLS - 1);
    assert_eq!(p.y, 19);
}

#[test]
fn player_has_six_shots_at_most() {
    let mut p = Player::new();
    for k in 0..SHOT_COUNT {
        assert!(p.shoot());
        assert_eq!(p.shots.len(), k + 1);
    }
    assert!(!p.shoot());
    assert_eq!(p.shots.len(), SHOT_COUNT);
    assert_eq!((p.shots[0].x, p.shots[0].y, p.shots[0].exploding), (20, 18, false));
    p.clear_shots();
    assert!(p.shots.is_empty());
    assert_eq!((p.x, p.y), (20, 19));
    assert!(p.shoot());
}

#[test]
fn player_update_moves_and_drops_shots() {
    let mut p = Player::new();
    p.shots.push(Shot::new(3, 1));
    p.shots.push(Shot::new(4, 5));
    p.update(Duration::from_millis(60));
    // the first reached row 0 and is gone, the second climbed
    assert_eq!(p.shots.len(), 1);
    assert_eq!((p.shots[0].x, p.shots[0].y), (4, 4));
    p.update(Duration::from_millis(10));
    assert_eq!((p.shots[0].x, p.shots[0].y), (4, 4));
    assert_eq!((p.x, p.y, p.score), (20, 19, 0));
}

#[test]
fn hit_scores_once() {
    let mut p = Player::new();
    p.shots.push(Shot::new(9, 9));
    p.shots.push(Shot::new(4, 4));
    p.shots.push(Shot::new(6, 6));
    let mut inv = army_of(&[(2, 2), (4, 4), (6, 6)]);
    assert!(p.detect_hits(&mut inv));
    assert_eq!(p.score, 1);
    assert_eq!(cells_of(&inv.army), vec![(2, 2), (6, 6)]);
    assert!(!p.shots[0].exploding);
    assert!(p.shots[1].exploding);
    assert!(!p.shots[2].exploding);
    assert!(p.detect_hits(&mut inv));
    assert_eq!(p.score, 2);
    assert_eq!(cells_of(&inv.army), vec![(2, 2)]);
    assert!(!p.detect_hits(&mut inv));
    assert_eq!(p.score, 2);
}

#[test]
fn exploding_shot_kills_without_scoring() {
    let mut p = Player::new();
    p.shots.push(Shot::new(4, 4));
    p.shots[0].explode();
    let mut inv = army_of(&[(4, 4), (6, 6)]);
    assert!(!p.detect_hits(&mut inv));
    assert_eq!(p.score, 0);
    assert_eq!(cells_of(&inv.army), vec![(6, 6)]);
}

#[test]
fn name_is_typed_key_by_key() {
    let mut p = Player::new();
    assert_eq!(p.name_key(NameKey::Backspace), NameStep::Ignored);
    assert_eq!(p.name_key(NameKey::Char('a')), NameStep::Typed('a'));
    assert_eq!(p.name_key(NameKey::Char('b')), NameStep::Typed('b'));
    assert_eq!(p.name_key(NameKey::Char(' ')), NameStep::Ignored);
    assert_eq!(p.name_key(NameKey::Char('!')), NameStep::Typed('!'));
    assert_eq!(p.name_key(NameKey::Char('\u{af}')), NameStep::Typed('\u{af}'));
    assert_eq!(p.name_key(NameKey::Char('\u{b0}')), NameStep::Ignored);
    assert_eq!(p.name_key(NameKey::Other), NameStep::Ignored);
    assert_eq!(p.name, "ab!\u{af}");
    assert_eq!(p.name_key(NameKey::Backspace), NameStep::Erased);
    assert_eq!(p.name_key(NameKey::Backspace), NameStep::Erased);
    assert_eq!(p.name, "ab");
    assert_eq!(p.name_key(NameKey::Enter), NameStep::Accepted);
    assert_eq!(p.name_key(NameKey::Esc), NameStep::Cancelled);
    assert_eq!(p.name, "ab");
}

#[test]
fn player_is_drawn_with_shots() {
    let mut p = Player::new();
    assert!(p.shoot());
    p.shots.push(Shot::new(7, 7));
    p.shots[1].explode();
    let mut frame = new_frame();
    p.draw(&mut frame);
    assert_eq!(frame[20][19], 'A');
    assert_eq!(frame[20][18], '|');
    assert_eq!(frame[7][7], '*');
}

#[test]
fn menu_text_is_laid_out() {
    let menu = NewMenu::new("ab\ncd".to_string(), 3, 1);
    assert!(menu.fits());
    let mut frame = new_frame();
    menu.draw(&mut frame);
    assert_eq!(frame[3][1], 'a');
    assert_eq!(frame[4][1], 'b');
    // the character after a line break and the one after it share a cell
    assert_eq!(frame[3][2], 'd');
    assert_eq!(frame[4][2], ' ');
}

#[test]
fn menu_text_with_blank_line() {
    let menu = NewMenu::new("a\n\n bc".to_string(), 0, 0);
    assert!(menu.fits());
    let mut frame = new_frame();
    menu.draw(&mut frame);
    assert_eq!(frame[0][0], 'a');
    assert_eq!(frame[0][2], 'b');
    assert_eq!(frame[1][2], 'c');
    assert_eq!(frame[0][1], ' ');
}

#[test]
fn menu_text_that_leaves_the_grid_does_not_fit() {
    assert!(!NewMenu::new("abc".to_string(), 38, 0).fits());
    assert!(NewMenu::new("ab".to_string(), 38, 0).fits());
    assert!(!NewMenu::new("a".to_string(), 0, 20).fits());
    assert!(!NewMenu::new("a\nb".to_string(), 0, 19).fits());
    assert!(NewMenu::new("a\n".to_string(), 0, 19).fits());
    assert!(NewMenu::new(String::new(), 100, 100).fits());
}

#[test]
fn system_starts_at_main_menu() {
    let s = System::new();
    assert!(s.menu == Menu::Main);
    assert_eq!(s.player.name, "new player");
    assert_eq!(s.player.score, 0);
    assert_eq!(s.player.is, "score");
    assert!(s.high_scores.is_empty());
    let p = SystemPlayer::new("zed".to_string());
    assert_eq!((p.name.as_str(), p.score, p.is.as_str()), ("zed", 0, "score"));
}

#[test]
fn menu_is_selected_by_word() {
    let mut s = System::new();
    assert!(s.select_menu("Game"));
    assert!(s.menu == Menu::Game);
    assert!(s.select_menu("Help"));
    assert!(s.menu == Menu::Help);
    assert!(s.select_menu("Scores"));
    assert!(s.menu == Menu::Leaderboard);
    assert!(!s.select_menu("Leaderboard"));
    assert!(!s.select_menu("Main\n"));
    assert!(!s.select_menu("main"));
    assert!(s.menu == Menu::Leaderboard);
    assert!(s.select_menu("Main"));
    assert!(s.menu == Menu::Main);
}

#[test]
fn high_scores_are_replaced() {
    let mut s = System::new();
    s.set_high_scores(vec![SystemPlayer::new("a".to_string()), SystemPlayer::new("b".to_string())]);
    assert_eq!(s.high_scores.len(), 2);
    assert_eq!(s.high_scores[1].name, "b");
    s.set_high_scores(Vec::new());
    assert!(s.high_scores.is_empty());
}

#[test]
fn pieces_outside_the_grid_are_noticed() {
    let mut frame = new_frame();
    assert!(frame_ok(&frame));
    frame[3].pop();
    assert!(!frame_ok(&frame));
    frame.clear();
    assert!(!frame_ok(&frame));

    assert!(Invaders::new(500).in_grid());
    assert!(!army_of(&[(2, 2), (40, 2)]).in_grid());
    assert!(!army_of(&[(2, 20)]).in_grid());
    assert!(army_of(&[(39, 19)]).in_grid());

    let mut p = Player::new();
    assert!(p.in_grid());
    p.shots.push(Shot::new(40, 0));
    assert!(!p.in_grid());
    p.clear_shots();
    p.y = 0;
    assert!(!p.in_grid());
}

#[test]
fn timer_of_no_time_is_done_at_once() {
    let mut inv = Invaders::new(0);
    assert!(inv.update(Duration::from_millis(0)));
    assert_eq!(cells_of(&inv.army)[0], (1, 2));
    assert!(inv.update(Duration::from_millis(0)));
    assert_eq!(cells_of(&inv.army)[0], (0, 2));
}

#[test]
fn timer_runs_out_exactly_at_its_period() {
    let mut inv = Invaders::new(100);
    assert!(!inv.update(Duration::from_nanos(99_999_999)));
    assert!(inv.update(Duration::from_nanos(1)));
    let mut inv = Invaders::new(100);
    assert!(!inv.update(Duration::from_millis(0)));
    assert!(inv.update(Duration::from_millis(100)));
    // started again from the full period
    assert!(!inv.update(Duration::from_millis(99)));
    assert!(inv.update(Duration::from_millis(1)));
}

#[test]
fn shots_keep_their_order_when_some_are_dropped() {
    let mut p = Player::new();
    p.shots.push(Shot::new(1, 9));
    p.shots.push(Shot::new(2, 1));
    p.shots.push(Shot::new(3, 8));
    p.shots.push(Shot::new(4, 0));
    p.shots.push(Shot::new(5, 7));
    p.update(Duration::from_millis(50));
    let cells: Vec<(usize, usize)> = p.shots.iter().map(|s| (s.x, s.y)).collect();
    assert_eq!(cells, vec![(1, 8), (3, 7), (5, 6)]);
}
