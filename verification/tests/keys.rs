use minesweeper::cell::Cella;
use minesweeper::control::{action_for, Action, Held, Key};
use minesweeper::game::Game;

const ALL_HELD: [Held; 4] = [Held::Nothing, Held::Shift, Held::Control, Held::Other];

#[test]
fn arrows_and_small_letters_step_with_nothing_held() {
    assert_eq!(action_for(Key::Up, Held::Nothing), Some(Action::MoveUp));
    assert_eq!(action_for(Key::Char('k'), Held::Nothing), Some(Action::MoveUp));
    assert_eq!(action_for(Key::Down, Held::Nothing), Some(Action::MoveDown));
    assert_eq!(action_for(Key::Char('j'), Held::Nothing), Some(Action::MoveDown));
    assert_eq!(action_for(Key::Left, Held::Nothing), Some(Action::MoveLeft));
    assert_eq!(action_for(Key::Char('h'), Held::Nothing), Some(Action::MoveLeft));
    assert_eq!(action_for(Key::Right, Held::Nothing), Some(Action::MoveRight));
    assert_eq!(action_for(Key::Char('l'), Held::Nothing), Some(Action::MoveRight));
}

#[test]
fn control_and_capitals_with_shift_jump() {
    assert_eq!(action_for(Key::Up, Held::Control), Some(Action::LongUp));
    assert_eq!(action_for(Key::Char('k'), Held::Control), Some(Action::LongUp));
    assert_eq!(action_for(Key::Char('K'), Held::Shift), Some(Action::LongUp));
    assert_eq!(action_for(Key::Down, Held::Control), Some(Action::LongDown));
    assert_eq!(action_for(Key::Char('j'), Held::Control), Some(Action::LongDown));
    assert_eq!(action_for(Key::Char('J'), Held::Shift), Some(Action::LongDown));
    assert_eq!(action_for(Key::Left, Held::Control), Some(Action::LongLeft));
    assert_eq!(action_for(Key::Char('h'), Held::Control), Some(Action::LongLeft));
    assert_eq!(action_for(Key::Char('H'), Held::Shift), Some(Action::LongLeft));
    assert_eq!(action_for(Key::Right, Held::Control), Some(Action::LongRight));
    assert_eq!(action_for(Key::Char('l'), Held::Control), Some(Action::LongRight));
    assert_eq!(action_for(Key::Char('L'), Held::Shift), Some(Action::LongRight));
}

#[test]
fn the_other_keys_work_whatever_is_held() {
    for held in ALL_HELD {
        assert_eq!(action_for(Key::Char('x'), held), Some(Action::Click));
        assert_eq!(action_for(Key::Char('f'), held), Some(Action::Click));
        assert_eq!(action_for(Key::Char('z'), held), Some(Action::Flag));
        assert_eq!(action_for(Key::Char('d'), held), Some(Action::Flag));
        assert_eq!(action_for(Key::Char('c'), held), Some(Action::Refresh));
        assert_eq!(action_for(Key::Char('r'), held), Some(Action::Refresh));
        assert_eq!(action_for(Key::Char('q'), held), Some(Action::Quit));
        assert_eq!(action_for(Key::Esc, held), Some(Action::Quit));
    }
}

#[test]
fn keys_that_mean_nothing_are_ignored() {
    for held in ALL_HELD {
        assert_eq!(action_for(Key::Other, held), None);
        assert_eq!(action_for(Key::Char('a'), held), None);
        assert_eq!(action_for(Key::Char('X'), held), None);
        assert_eq!(action_for(Key::Char(' '), held), None);
    }
    for key in [Key::Up, Key::Down, Key::Left, Key::Right] {
        assert_eq!(action_for(key, Held::Shift), None);
        assert_eq!(action_for(key, Held::Other), None);
    }
    for c in ['h', 'j', 'k', 'l'] {
        assert_eq!(action_for(Key::Char(c), Held::Shift), None);
        assert_eq!(action_for(Key::Char(c), Held::Other), None);
    }
    for c in ['H', 'J', 'K', 'L'] {
        assert_eq!(action_for(Key::Char(c), Held::Nothing), None);
        assert_eq!(action_for(Key::Char(c), Held::Control), None);
        assert_eq!(action_for(Key::Char(c), Held::Other), None);
    }
}

#[test]
fn press_does_one_thing_for_each_key() {
    let mut g = Game::from_rolls(3, 3, 50, &vec![0, 99, 99, 99, 99, 99, 99, 99, 99]).unwrap();
    assert_eq!(g.press(Key::Up, Held::Nothing), Some(Action::MoveUp));
    assert_eq!(g.cursor(), (1, 0));
    assert_eq!(g.press(Key::Char('h'), Held::Nothing), Some(Action::MoveLeft));
    assert_eq!(g.cursor(), (0, 0));
    assert_eq!(g.press(Key::Char('z'), Held::Nothing), Some(Action::Flag));
    assert_eq!(g.get_cell(0, 0), Some(&Cella::Bomb(true)));
    assert_eq!(g.flag_count(), 1);
    assert_eq!(g.press(Key::Char('L'), Held::Shift), Some(Action::LongRight));
    assert_eq!(g.cursor(), (0, 0));
    assert_eq!(g.press(Key::Char('a'), Held::Nothing), None);
    assert_eq!(g.press(Key::Char('r'), Held::Control), Some(Action::Refresh));
    assert_eq!(g.press(Key::Char('q'), Held::Nothing), Some(Action::Quit));
    assert_eq!(g.cursor(), (0, 0));
    assert!(!g.is_over());
    assert_eq!(g.press(Key::Char('j'), Held::Nothing), Some(Action::MoveDown));
    assert_eq!(g.press(Key::Char('j'), Held::Nothing), Some(Action::MoveDown));
    assert_eq!(g.press(Key::Char('l'), Held::Nothing), Some(Action::MoveRight));
    assert_eq!(g.press(Key::Right, Held::Nothing), Some(Action::MoveRight));
    assert_eq!(g.press(Key::Down, Held::Nothing), Some(Action::MoveDown));
    assert_eq!(g.cursor(), (2, 2));
    assert_eq!(g.press(Key::Char('x'), Held::Other), Some(Action::Click));
    assert!(g.is_won());
    assert!(g.is_over());
    assert!(!g.is_lost());
}

#[test]
fn act_on_a_mine_ends_the_game() {
    let mut g = Game::new(2, 2, 100);
    assert!(!g.is_over());
    g.act(Action::Refresh);
    g.act(Action::Quit);
    g.act(Action::LongUp);
    g.act(Action::LongDown);
    g.act(Action::LongLeft);
    assert!(!g.is_over());
    assert_eq!(g.cursor(), (1, 1));
    g.act(Action::Click);
    assert!(g.is_lost());
    assert!(g.is_over());
}
