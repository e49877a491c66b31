use minesweeper::cell::Cella;
use minesweeper::game::Game;

const M: u32 = 0;
const S: u32 = 99;

fn board(w: usize, h: usize, rolls: Vec<u32>) -> Game {
    Game::from_rolls(w, h, 50, &rolls).expect("one roll for each square")
}

fn cell(g: &Game, x: usize, y: usize) -> Cella {
    *g.get_cell(x, y).expect("a square of the board")
}

fn snapshot(g: &Game) -> (Vec<Vec<Cella>>, (usize, usize), bool, bool, usize, usize) {
    let mut rows = Vec::new();
    for y in 0..g.get_h() {
        let mut row = Vec::new();
        for x in 0..g.get_w() {
            row.push(cell(g, x, y));
        }
        rows.push(row);
    }
    (rows, g.cursor(), g.is_lost(), g.is_won(), g.mine_count(), g.flag_count())
}

fn go_to(g: &mut Game, x: usize, y: usize) {
    while g.cursor().0 > x {
        g.move_left();
    }
    while g.cursor().0 < x {
        g.move_right();
    }
    while g.cursor().1 > y {
        g.move_up();
    }
    while g.cursor().1 < y {
        g.move_down();
    }
    assert_eq!(g.cursor(), (x, y));
}

#[test]
fn single_safe_square_is_won_by_one_reveal() {
    let mut g = Game::new(1, 1, 0);
    assert_eq!(g.get_w(), 1);
    assert_eq!(g.get_h(), 1);
    assert_eq!(cell(&g, 0, 0), Cella::Safe(0, true, false));
    assert!(!g.is_won());
    assert!(!g.is_lost());
    assert_eq!(g.cursor(), (0, 0));
    g.click();
    assert_eq!(cell(&g, 0, 0), Cella::Safe(0, false, false));
    assert!(g.is_won());
    assert!(!g.is_lost());
}

#[test]
fn ring_of_mines_reveals_only_the_centre() {
    let mut g = board(3, 3, vec![M, M, M, M, S, M, M, M, M]);
    assert_eq!(g.mine_count(), 8);
    assert_eq!(g.cursor(), (1, 1));
    assert_eq!(cell(&g, 1, 1), Cella::Safe(8, true, false));
    g.click();
    assert_eq!(cell(&g, 1, 1), Cella::Safe(8, false, false));
    for y in 0..3 {
        for x in 0..3 {
            if (x, y) != (1, 1) {
                assert_eq!(cell(&g, x, y), Cella::Bomb(false));
            }
        }
    }
    assert!(!g.is_lost());
    assert!(g.is_won());
}

#[test]
fn centre_among_mines_and_one_safe_corner_is_not_won() {
    let mut g = board(3, 3, vec![S, M, M, M, S, M, M, M, M]);
    assert_eq!(cell(&g, 1, 1), Cella::Safe(7, true, false));
    assert_eq!(cell(&g, 0, 0), Cella::Safe(2, true, false));
    g.click();
    assert_eq!(cell(&g, 1, 1), Cella::Safe(7, false, false));
    assert_eq!(cell(&g, 0, 0), Cella::Safe(2, true, false));
    assert!(!g.is_won());
    assert!(!g.is_lost());
}

#[test]
fn revealing_a_mine_loses_and_freezes_the_board() {
    let mut g = board(3, 1, vec![S, M, S]);
    assert_eq!(g.cursor(), (1, 0));
    g.click();
    assert!(g.is_lost());
    assert!(!g.is_won());
    let frozen = snapshot(&g);
    assert!(g.click_coords(0, 0));
    assert_eq!(snapshot(&g), frozen);
    assert!(g.click_coords(2, 0));
    assert_eq!(snapshot(&g), frozen);
    assert!(!g.click_coords(3, 0));
    assert_eq!(snapshot(&g), frozen);
    g.move_left();
    g.click();
    g.flag();
    g.move_right();
    assert_eq!(snapshot(&g), frozen);
    assert_eq!(cell(&g, 0, 0), Cella::Safe(1, true, false));
}

#[test]
fn a_flagged_mine_still_loses_when_revealed() {
    let mut g = board(2, 1, vec![S, M]);
    assert_eq!(g.cursor(), (1, 0));
    g.flag();
    assert_eq!(cell(&g, 1, 0), Cella::Bomb(true));
    g.click();
    assert!(g.is_lost());
    assert_eq!(cell(&g, 1, 0), Cella::Bomb(true));
    assert_eq!(g.flag_count(), 1);
}

#[test]
fn counts_are_exact_at_edges_and_corners() {
    // M . . .
    // . . . M
    // . . . .
    // M M . .
    let g = board(4, 4, vec![M, S, S, S, S, S, S, M, S, S, S, S, M, M, S, S]);
    let want = [
        [None, Some(1), Some(1), Some(1)],
        [Some(1), Some(1), Some(1), None],
        [Some(2), Some(2), Some(2), Some(1)],
        [None, None, Some(1), Some(0)],
    ];
    for y in 0..4 {
        for x in 0..4 {
            match want[y][x] {
                None => assert_eq!(cell(&g, x, y), Cella::Bomb(false)),
                Some(n) => assert_eq!(cell(&g, x, y), Cella::Safe(n, true, false)),
            }
        }
    }
    assert_eq!(g.mine_count(), 4);
    assert_eq!(g.flag_count(), 0);
}

#[test]
fn every_count_equals_the_mines_among_the_neighbours() {
    let w = 7;
    let h = 5;
    let rolls: Vec<u32> = (0..w * h).map(|i| ((i * 37 + 11) % 100) as u32).collect();
    let g = Game::from_rolls(w, h, 30, &rolls).unwrap();
    let mut mines = 0;
    for y in 0..h {
        for x in 0..w {
            let near = g.get_neighbors(x, y);
            let around = near.iter().filter(|c| matches!(c, Cella::Bomb(_))).count();
            match cell(&g, x, y) {
                Cella::Safe(n, hidden, flagged) => {
                    assert_eq!(n, around);
                    assert!(hidden);
                    assert!(!flagged);
                    assert!(rolls[y * w + x] >= 30);
                }
                Cella::Bomb(flagged) => {
                    assert!(!flagged);
                    assert!(rolls[y * w + x] < 30);
                    mines += 1;
                }
            }
        }
    }
    assert_eq!(g.mine_count(), mines);
}

#[test]
fn neighbours_come_row_by_row_without_the_square_itself() {
    let g = board(3, 3, vec![M, S, S, S, S, S, S, S, M]);
    let all = g.get_neighbors(1, 1);
    assert_eq!(
        all,
        vec![
            Cella::Bomb(false),
            Cella::Safe(1, true, false),
            Cella::Safe(0, true, false),
            Cella::Safe(1, true, false),
            Cella::Safe(1, true, false),
            Cella::Safe(0, true, false),
            Cella::Safe(1, true, false),
            Cella::Bomb(false),
        ]
    );
    let corner = g.get_neighbors(0, 0);
    assert_eq!(
        corner,
        vec![Cella::Safe(1, true, false), Cella::Safe(1, true, false), Cella::Safe(2, true, false)]
    );
    assert_eq!(g.get_neighbors(2, 1).len(), 5);
    assert_eq!(g.get_neighbors(7, 7), vec![]);
    assert_eq!(g.get_neighbors(3, 3), vec![Cella::Bomb(false)]);
    assert_eq!(g.get_neighbors(usize::MAX, usize::MAX), vec![]);
}

#[test]
fn flood_reveals_the_region_and_its_border_and_nothing_else() {
    // . . . . M
    // . . . . .
    // . . M . .
    // . . . . .
    // M . . . .
    let rolls = vec![
        S, S, S, S, M,
        S, S, S, S, S,
        S, S, M, S, S,
        S, S, S, S, S,
        M, S, S, S, S,
    ];
    let mut g = board(5, 5, rolls);
    assert_eq!(cell(&g, 0, 0), Cella::Safe(0, true, false));
    g.click_coords(0, 0);
    let shown = [
        [true, true, true, true, false],
        [true, true, true, true, false],
        [true, true, false, false, false],
        [true, true, false, false, false],
        [false, false, false, false, false],
    ];
    let count =
        [[0, 0, 0, 1, 9], [0, 1, 1, 2, 1], [0, 1, 9, 1, 0], [1, 2, 1, 1, 0], [9, 1, 0, 0, 0]];
    for y in 0..5 {
        for x in 0..5 {
            match cell(&g, x, y) {
                Cella::Safe(n, hidden, flagged) => {
                    assert_eq!(n, count[y][x], "count at {x},{y}");
                    assert_eq!(hidden, !shown[y][x], "hidden at {x},{y}");
                    assert!(!flagged);
                }
                Cella::Bomb(flagged) => {
                    assert_eq!(count[y][x], 9);
                    assert!(!flagged);
                }
            }
        }
    }
    assert!(!g.is_won());
    assert!(!g.is_lost());
    g.click_coords(4, 4);
    let rest =
        [(4, 4), (3, 4), (2, 4), (4, 3), (3, 3), (2, 3), (4, 2), (3, 2), (4, 1), (3, 1), (1, 4)];
    for (x, y) in rest {
        assert!(matches!(cell(&g, x, y), Cella::Safe(_, false, false)), "shown at {x},{y}");
    }
    assert!(matches!(cell(&g, 1, 3), Cella::Safe(2, false, false)));
    assert!(g.is_won());
}

#[test]
fn flood_crosses_a_large_empty_board_without_recursion() {
    let w = 300;
    let h = 200;
    let mut g = Game::new(w, h, 0);
    assert_eq!(g.mine_count(), 0);
    assert_eq!(g.cursor(), (150, 100));
    g.click();
    for y in 0..h {
        for x in 0..w {
            assert_eq!(cell(&g, x, y), Cella::Safe(0, false, false));
        }
    }
    assert!(g.is_won());
}

#[test]
fn revealing_a_shown_square_changes_nothing() {
    let mut g = board(3, 3, vec![S, S, S, S, S, S, S, S, M]);
    g.click_coords(0, 0);
    assert!(g.is_won());
    let once = snapshot(&g);
    g.click_coords(0, 0);
    assert_eq!(snapshot(&g), once);
    g.click_coords(1, 1);
    assert_eq!(snapshot(&g), once);
    go_to(&mut g, 1, 1);
    let there = snapshot(&g);
    g.click();
    assert_eq!(snapshot(&g), there);
}

#[test]
fn a_second_reveal_of_a_numbered_square_starts_no_flood() {
    let mut g = board(3, 1, vec![M, S, S]);
    g.click_coords(1, 0);
    assert_eq!(cell(&g, 1, 0), Cella::Safe(1, false, false));
    assert_eq!(cell(&g, 2, 0), Cella::Safe(0, true, false));
    let once = snapshot(&g);
    g.click_coords(1, 0);
    assert_eq!(snapshot(&g), once);
    assert!(!g.is_won());
}

#[test]
fn reveal_clears_the_flag_and_the_count_follows() {
    let mut g = board(3, 1, vec![S, S, M]);
    go_to(&mut g, 0, 0);
    g.flag();
    go_to(&mut g, 1, 0);
    g.flag();
    go_to(&mut g, 2, 0);
    g.flag();
    assert_eq!(g.flag_count(), 3);
    assert_eq!(cell(&g, 0, 0), Cella::Safe(0, true, true));
    assert_eq!(cell(&g, 1, 0), Cella::Safe(1, true, true));
    g.click_coords(0, 0);
    assert_eq!(cell(&g, 0, 0), Cella::Safe(0, false, false));
    assert_eq!(cell(&g, 1, 0), Cella::Safe(1, false, false));
    assert_eq!(cell(&g, 2, 0), Cella::Bomb(true));
    assert_eq!(g.flag_count(), 1);
    assert!(g.is_won());
}

#[test]
fn flag_toggles_on_hidden_squares_and_mines_only() {
    let mut g = board(3, 1, vec![S, M, S]);
    assert_eq!(g.cursor(), (1, 0));
    g.flag();
    assert_eq!(cell(&g, 1, 0), Cella::Bomb(true));
    assert_eq!(g.flag_count(), 1);
    g.flag();
    assert_eq!(cell(&g, 1, 0), Cella::Bomb(false));
    assert_eq!(g.flag_count(), 0);
    g.move_left();
    g.flag();
    assert_eq!(cell(&g, 0, 0), Cella::Safe(1, true, true));
    assert_eq!(g.flag_count(), 1);
    g.flag();
    assert_eq!(cell(&g, 0, 0), Cella::Safe(1, true, false));
    assert_eq!(g.flag_count(), 0);
    g.click();
    assert_eq!(cell(&g, 0, 0), Cella::Safe(1, false, false));
    let shown = snapshot(&g);
    g.flag();
    assert_eq!(snapshot(&g), shown);
    assert!(!g.is_won());
    assert!(!g.is_lost());
}

#[test]
fn flags_are_not_capped_by_the_number_of_mines() {
    let mut g = board(3, 1, vec![S, M, S]);
    for x in 0..3 {
        go_to(&mut g, x, 0);
        g.flag();
    }
    assert_eq!(g.mine_count(), 1);
    assert_eq!(g.flag_count(), 3);
}

#[test]
fn winning_does_not_depend_on_flags() {
    let mut plain = board(2, 2, vec![M, S, S, S]);
    let mut marked = board(2, 2, vec![M, S, S, S]);
    go_to(&mut marked, 0, 0);
    marked.flag();
    for (x, y) in [(1, 0), (0, 1), (1, 1)] {
        assert!(!plain.is_won());
        assert!(!marked.is_won());
        plain.click_coords(x, y);
        marked.click_coords(x, y);
    }
    assert!(plain.is_won());
    assert!(marked.is_won());
    assert_eq!(cell(&marked, 0, 0), Cella::Bomb(true));
    assert_eq!(cell(&plain, 0, 0), Cella::Bomb(false));
}

#[test]
fn won_is_set_only_when_the_last_safe_square_is_shown() {
    let mut g = board(2, 1, vec![S, S]);
    let mut h = board(3, 1, vec![S, M, S]);
    g.click_coords(0, 0);
    assert!(g.is_won());
    h.click_coords(0, 0);
    assert!(!h.is_won());
    h.click_coords(2, 0);
    assert!(h.is_won());
    assert!(!h.is_lost());
}

#[test]
fn check_win_recomputes_from_the_squares() {
    let mut g = board(2, 1, vec![S, M]);
    g.check_win();
    assert!(!g.is_won());
    *g.get_cell_mut(0, 0).unwrap() = Cella::Safe(1, false, false);
    assert!(!g.is_won());
    g.check_win();
    assert!(g.is_won());
    let mut all_mines = board(2, 1, vec![M, M]);
    assert!(!all_mines.is_won());
    all_mines.check_win();
    assert!(all_mines.is_won());
}

#[test]
fn cursor_starts_in_the_middle_and_is_clamped() {
    let mut g = Game::new(5, 3, 0);
    assert_eq!(g.cursor(), (2, 1));
    g.move_up();
    assert_eq!(g.cursor(), (2, 0));
    g.move_up();
    assert_eq!(g.cursor(), (2, 0));
    g.move_down();
    g.move_down();
    assert_eq!(g.cursor(), (2, 2));
    g.move_down();
    assert_eq!(g.cursor(), (2, 2));
    g.move_left();
    g.move_left();
    assert_eq!(g.cursor(), (0, 2));
    g.move_left();
    assert_eq!(g.cursor(), (0, 2));
    for _ in 0..4 {
        g.move_right();
    }
    assert_eq!(g.cursor(), (4, 2));
    g.move_right();
    assert_eq!(g.cursor(), (4, 2));
    let even = Game::new(50, 30, 0);
    assert_eq!(even.cursor(), (25, 15));
}

#[test]
fn moving_changes_nothing_but_the_cursor() {
    let mut g = board(3, 3, vec![M, S, S, S, S, S, S, S, M]);
    let before = snapshot(&g);
    g.move_up();
    g.move_left();
    let after = snapshot(&g);
    assert_eq!(after.0, before.0);
    assert_eq!((after.2, after.3, after.4, after.5), (before.2, before.3, before.4, before.5));
    assert_eq!(after.1, (0, 0));
}

#[test]
fn jumps_are_reserved_and_move_nothing() {
    let mut g = board(3, 3, vec![M, S, S, S, S, S, S, S, M]);
    let before = snapshot(&g);
    g.long_up();
    g.long_down();
    g.long_left();
    g.long_right();
    assert_eq!(snapshot(&g), before);
}

#[test]
fn queries_off_the_board_are_absent() {
    let mut g = board(3, 2, vec![S, S, S, S, S, S]);
    assert!(g.get_cell(3, 0).is_none());
    assert!(g.get_cell(0, 2).is_none());
    assert!(g.get_cell(usize::MAX, usize::MAX).is_none());
    assert!(g.get_cell(2, 1).is_some());
    assert!(g.get_cell_mut(3, 0).is_none());
    assert!(g.get_cell_mut(0, 2).is_none());
    assert!(g.get_cell_mut(2, 1).is_some());
    let before = snapshot(&g);
    assert!(!g.click_coords(3, 0));
    assert!(!g.click_coords(0, 2));
    assert!(!g.click_coords(usize::MAX, 0));
    assert_eq!(snapshot(&g), before);
    assert!(g.click_coords(2, 1));
    assert_ne!(snapshot(&g), before);
}

#[test]
fn get_cell_mut_writes_one_square() {
    let mut g = board(2, 2, vec![S, S, S, S]);
    let before = snapshot(&g);
    *g.get_cell_mut(1, 0).unwrap() = Cella::Safe(0, true, true);
    let after = snapshot(&g);
    assert_eq!(after.0[0][1], Cella::Safe(0, true, true));
    assert_eq!(after.0[0][0], before.0[0][0]);
    assert_eq!(after.0[1], before.0[1]);
    assert_eq!(after.1, before.1);
    *g.get_cell_mut(1, 0).unwrap() = Cella::Safe(0, true, false);
    assert_eq!(snapshot(&g), before);
}

#[test]
fn empty_boards_do_not_crash() {
    for (w, h) in [(0, 0), (0, 4), (6, 0)] {
        let mut g = Game::new(w, h, 50);
        assert_eq!(g.get_h(), h);
        assert_eq!(g.get_w(), 0);
        assert_eq!(g.cursor(), (w / 2, h / 2));
        assert!(g.get_cell(0, 0).is_none());
        assert_eq!(g.mine_count(), 0);
        assert_eq!(g.flag_count(), 0);
        let start = g.cursor();
        g.click();
        g.flag();
        g.click_coords(0, 0);
        g.move_left();
        g.move_right();
        assert_eq!(g.cursor().0, start.0.saturating_sub(1));
        assert!(!g.is_lost());
        assert!(!g.is_won());
        assert_eq!(g.get_neighbors(0, 0), vec![]);
    }
}

#[test]
fn from_rolls_wants_one_roll_for_each_square() {
    assert!(Game::from_rolls(2, 2, 50, &vec![0, 0, 0]).is_none());
    assert!(Game::from_rolls(2, 2, 50, &vec![0, 0, 0, 0, 0]).is_none());
    assert!(Game::from_rolls(2, 2, 50, &vec![0, 0, 0, 0]).is_some());
    assert!(Game::from_rolls(0, 5, 50, &vec![]).is_some());
    assert!(Game::from_rolls(0, 5, 50, &vec![1]).is_none());
    assert!(Game::from_rolls(usize::MAX, 2, 50, &vec![]).is_none());
    assert!(Game::from_rolls(usize::MAX, usize::MAX, 50, &vec![0]).is_none());
}

#[test]
fn a_roll_below_the_percentage_is_a_mine() {
    let g = Game::from_rolls(4, 1, 30, &vec![0, 29, 30, 99]).unwrap();
    assert_eq!(cell(&g, 0, 0), Cella::Bomb(false));
    assert_eq!(cell(&g, 1, 0), Cella::Bomb(false));
    assert_eq!(cell(&g, 2, 0), Cella::Safe(1, true, false));
    assert_eq!(cell(&g, 3, 0), Cella::Safe(0, true, false));
    assert_eq!(g.mine_count(), 2);
}

#[test]
fn the_percentage_is_clamped_to_a_hundred() {
    let g = Game::from_rolls(3, 1, 250, &vec![99, 100, 200]).unwrap();
    assert_eq!(cell(&g, 0, 0), Cella::Bomb(false));
    assert_eq!(cell(&g, 1, 0), Cella::Safe(1, true, false));
    assert_eq!(cell(&g, 2, 0), Cella::Safe(0, true, false));
    let none = Game::from_rolls(2, 1, 0, &vec![0, 0]).unwrap();
    assert_eq!(none.mine_count(), 0);
}

#[test]
fn rolls_run_row_by_row() {
    let g = Game::from_rolls(3, 2, 50, &vec![S, S, M, S, S, S]).unwrap();
    assert_eq!(cell(&g, 2, 0), Cella::Bomb(false));
    assert_eq!(cell(&g, 0, 1), Cella::Safe(0, true, false));
    assert_eq!(cell(&g, 1, 1), Cella::Safe(1, true, false));
    assert_eq!(g.cursor(), (1, 1));
}

#[test]
fn new_with_certain_mines_is_all_mines() {
    let mut g = Game::new(6, 4, 100);
    assert_eq!(g.mine_count(), 24);
    for y in 0..4 {
        for x in 0..6 {
            assert_eq!(cell(&g, x, y), Cella::Bomb(false));
        }
    }
    assert!(!g.is_won());
    assert!(!g.is_lost());
    g.click();
    assert!(g.is_lost());
    assert!(g.is_won());
}

#[test]
fn new_lays_about_as_many_mines_as_the_percentage_says() {
    let g = Game::new(100, 100, 20);
    let mut mines = 0;
    for y in 0..100 {
        for x in 0..100 {
            match cell(&g, x, y) {
                Cella::Bomb(false) => mines += 1,
                Cella::Safe(n, true, false) => assert!(n <= 8),
                other => panic!("a fresh square is hidden and unflagged, got {other:?}"),
            }
        }
    }
    assert_eq!(g.mine_count(), mines);
    assert!(mines > 1000 && mines < 3000, "{mines} mines of 10000 at 20 percent");
    assert_eq!(g.flag_count(), 0);
    assert_eq!(g.cursor(), (50, 50));
}
