use minesweeper::cell::Cella;
use minesweeper::game::Game;
use minesweeper::render::{color_of_count, final_glyph, running_glyph, Color, Glyph, Mark};

fn glyph(fg: Color, bg: Color, mark: Mark) -> Glyph {
    Glyph { fg, bg, mark }
}

#[test]
fn covered_squares_and_mines_look_alike_while_the_game_runs() {
    let block = glyph(Color::Grey, Color::Black, Mark::Block);
    assert_eq!(running_glyph(Cella::Safe(3, true, false), false), block);
    assert_eq!(running_glyph(Cella::Safe(0, true, false), false), block);
    assert_eq!(running_glyph(Cella::Bomb(false), false), block);
    let under_cursor = glyph(Color::White, Color::White, Mark::Block);
    assert_eq!(running_glyph(Cella::Safe(3, true, false), true), under_cursor);
    assert_eq!(running_glyph(Cella::Bomb(false), true), under_cursor);
}

#[test]
fn flags_look_alike_on_mines_and_on_safe_squares_while_the_game_runs() {
    let flag = glyph(Color::Black, Color::DarkRed, Mark::Flag);
    assert_eq!(running_glyph(Cella::Safe(2, true, true), false), flag);
    assert_eq!(running_glyph(Cella::Bomb(true), false), flag);
    let under_cursor = glyph(Color::Black, Color::White, Mark::Flag);
    assert_eq!(running_glyph(Cella::Safe(2, true, true), true), under_cursor);
    assert_eq!(running_glyph(Cella::Bomb(true), true), under_cursor);
}

#[test]
fn uncovered_squares_show_their_count() {
    assert_eq!(
        running_glyph(Cella::Safe(0, false, false), false),
        glyph(Color::White, Color::Black, Mark::Blank)
    );
    assert_eq!(
        running_glyph(Cella::Safe(0, false, false), true),
        glyph(Color::Black, Color::White, Mark::Blank)
    );
    assert_eq!(
        running_glyph(Cella::Safe(1, false, false), false),
        glyph(Color::Blue, Color::Black, Mark::Count(1))
    );
    assert_eq!(
        running_glyph(Cella::Safe(5, false, false), true),
        glyph(Color::Black, Color::White, Mark::Count(5))
    );
    assert_eq!(
        running_glyph(Cella::Safe(8, false, true), false),
        glyph(Color::Red, Color::Black, Mark::Count(8))
    );
}

#[test]
fn each_count_has_its_colour() {
    let want = [
        Color::Black,
        Color::Blue,
        Color::Green,
        Color::Red,
        Color::Magenta,
        Color::DarkYellow,
        Color::Blue,
        Color::Green,
        Color::Red,
    ];
    for (n, c) in want.iter().enumerate() {
        assert_eq!(color_of_count(n), *c, "count {n}");
    }
    assert_eq!(color_of_count(9), Color::Red);
    assert_eq!(color_of_count(usize::MAX), Color::Red);
}

#[test]
fn the_cursor_shows_on_every_square() {
    let squares = [
        Cella::Bomb(false),
        Cella::Bomb(true),
        Cella::Safe(0, true, false),
        Cella::Safe(0, true, true),
        Cella::Safe(0, false, false),
        Cella::Safe(4, true, false),
        Cella::Safe(4, true, true),
        Cella::Safe(4, false, false),
    ];
    for c in squares {
        assert_ne!(running_glyph(c, true), running_glyph(c, false), "{c:?}");
    }
}

#[test]
fn the_lost_board_shows_every_mine() {
    assert_eq!(final_glyph(Cella::Bomb(false)), glyph(Color::Black, Color::DarkRed, Mark::Mine));
    assert_eq!(final_glyph(Cella::Bomb(true)), glyph(Color::Black, Color::DarkRed, Mark::Flag));
    assert_eq!(
        final_glyph(Cella::Safe(2, true, true)),
        glyph(Color::Black, Color::Grey, Mark::Flag)
    );
    assert_eq!(
        final_glyph(Cella::Safe(2, true, false)),
        glyph(Color::Grey, Color::Black, Mark::Block)
    );
    assert_eq!(
        final_glyph(Cella::Safe(0, false, false)),
        glyph(Color::White, Color::Black, Mark::Blank)
    );
    assert_eq!(
        final_glyph(Cella::Safe(7, false, false)),
        glyph(Color::Green, Color::Black, Mark::Count(7))
    );
}

#[test]
fn draw_cell_marks_the_cursor_and_rejects_positions_off_the_board() {
    let g = Game::from_rolls(3, 1, 50, &vec![99, 0, 99]).unwrap();
    assert_eq!(g.cursor(), (1, 0));
    assert_eq!(g.draw_cell(1, 0), Some(glyph(Color::White, Color::White, Mark::Block)));
    assert_eq!(g.draw_cell(0, 0), Some(glyph(Color::Grey, Color::Black, Mark::Block)));
    assert_eq!(g.draw_cell(3, 0), None);
    assert_eq!(g.draw_cell(0, 1), None);
}

#[test]
fn draw_follows_the_state_of_the_game() {
    let mut g = Game::from_rolls(3, 2, 50, &vec![99, 99, 0, 99, 99, 99]).unwrap();
    assert_eq!(g.cursor(), (1, 1));
    g.move_left();
    g.flag();
    g.move_right();
    g.click();
    let block = glyph(Color::Grey, Color::Black, Mark::Block);
    let alive = g.draw();
    assert_eq!(
        alive,
        vec![
            vec![block, block, block],
            vec![
                glyph(Color::Black, Color::DarkRed, Mark::Flag),
                glyph(Color::Black, Color::White, Mark::Count(1)),
                block,
            ],
        ]
    );
    assert_eq!(alive, g.draw_alive());
    g.move_up();
    g.move_right();
    g.click();
    assert!(g.is_lost());
    let dead = g.draw();
    assert_eq!(
        dead,
        vec![
            vec![block, block, glyph(Color::Black, Color::DarkRed, Mark::Mine)],
            vec![
                glyph(Color::Black, Color::Grey, Mark::Flag),
                glyph(Color::Blue, Color::Black, Mark::Count(1)),
                block,
            ],
        ]
    );
    assert_eq!(dead, g.draw_dead());
    assert_ne!(dead, g.draw_alive());
}

#[test]
fn an_empty_board_draws_nothing() {
    assert_eq!(Game::new(0, 0, 10).draw(), Vec::<Vec<Glyph>>::new());
    assert_eq!(Game::new(4, 0, 10).draw(), Vec::<Vec<Glyph>>::new());
    let rows = Game::new(0, 2, 10).draw();
    assert_eq!(rows, vec![Vec::<Glyph>::new(), Vec::<Glyph>::new()]);
}
