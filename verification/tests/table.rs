use kzero::board::{Outcome, Player};
use kzero::table::{
    arrow, compute_col_starts, justified_x, key_command, player_label, terminal_label, Area,
    Columns, KeyCommand, Label, LabelColor, Terminal,
};

#[test]
fn cells_inside_and_outside_an_area() {
    let area = Area { x: 2, y: 3, width: 10, height: 4 };
    assert!(area.contains(2, 3));
    assert!(area.contains(11, 6));
    assert!(!area.contains(12, 6));
    assert!(!area.contains(11, 7));
    assert!(!area.contains(1, 3));
    assert!(!area.contains(2, 2));
    let empty = Area { x: 2, y: 3, width: 0, height: 4 };
    assert!(!empty.contains(2, 3));
}

#[test]
fn an_area_ends_at_the_edge_of_the_screen() {
    let area = Area { x: 65000, y: 65000, width: 1000, height: 1000 };
    assert!(area.contains(65000, 65000));
    assert!(area.contains(65534, 65534));
    assert!(!area.contains(65535, 65000));
    assert!(!area.contains(65000, 65535));
}

#[test]
fn columns_are_as_wide_as_their_widest_entry() {
    let least = vec![20, 0, 0];
    let headers = vec![(4, 0), (6, 0), (4, 1)];
    let rows = vec![vec![5, 1, 7], vec![3, 1, 9], vec![22, 1, 2]];
    let columns = compute_col_starts(2, &least, &headers, &rows).unwrap();
    assert_eq!(
        columns,
        Columns { sizes: vec![22, 6, 9, 0], starts: vec![2, 26, 34, 45] }
    );
}

#[test]
fn a_table_without_rows_is_as_wide_as_its_headers() {
    let columns = compute_col_starts(0, &vec![20, 0], &vec![(4, 0), (3, 5)], &vec![]).unwrap();
    assert_eq!(columns, Columns { sizes: vec![20, 5, 0], starts: vec![0, 22, 29] });
    let none = compute_col_starts(7, &vec![], &vec![], &vec![]).unwrap();
    assert_eq!(none, Columns { sizes: vec![0], starts: vec![7] });
}

#[test]
fn tables_that_cannot_be_laid_out() {
    assert_eq!(compute_col_starts(0, &vec![20], &vec![(4, 0), (3, 5)], &vec![]), None);
    assert_eq!(compute_col_starts(0, &vec![0, 0], &vec![(1, 1), (1, 1)], &vec![vec![1]]), None);
    assert_eq!(
        compute_col_starts(0, &vec![0, 0], &vec![(1, 1), (1, 1)], &vec![vec![1, 1], vec![1, 1, 1]]),
        None
    );
    assert_eq!(compute_col_starts(65530, &vec![10], &vec![(1, 1)], &vec![]), None);
    assert_eq!(compute_col_starts(0, &vec![65535], &vec![(1, 1)], &vec![]), None);
    assert_eq!(compute_col_starts(65534, &vec![], &vec![], &vec![]), None);
    assert!(compute_col_starts(65533, &vec![], &vec![], &vec![]).is_some());
    assert!(compute_col_starts(65521, &vec![10], &vec![(1, 1)], &vec![]).is_some());
    assert_eq!(compute_col_starts(65522, &vec![10], &vec![(1, 1)], &vec![]), None);
}

#[test]
fn values_are_set_left_or_right() {
    assert_eq!(justified_x(10, 8, 3, false), Some(10));
    assert_eq!(justified_x(10, 8, 3, true), Some(15));
    assert_eq!(justified_x(10, 8, 8, true), Some(10));
    assert_eq!(justified_x(10, 8, 9, true), None);
    assert_eq!(justified_x(10, 8, 9, false), Some(10));
    assert_eq!(justified_x(65535, 8, 7, true), None);
    assert_eq!(justified_x(65534, 8, 7, true), Some(65535));
}

#[test]
fn labels() {
    assert_eq!(arrow(true), 'v');
    assert_eq!(arrow(false), '>');
    assert_eq!(player_label(Player::A), Label { text: 'A', color: LabelColor::Green });
    assert_eq!(player_label(Player::B), Label { text: 'B', color: LabelColor::Red });
    assert_eq!(terminal_label(Terminal::Unknown), Label { text: '?', color: LabelColor::Column });
    assert_eq!(terminal_label(Terminal::Open), Label { text: ' ', color: LabelColor::Column });
    assert_eq!(
        terminal_label(Terminal::Over(Outcome::WonBy(Player::A))),
        Label { text: 'A', color: LabelColor::Green }
    );
    assert_eq!(
        terminal_label(Terminal::Over(Outcome::Draw)),
        Label { text: 'D', color: LabelColor::DarkGray }
    );
    assert_eq!(
        terminal_label(Terminal::Over(Outcome::WonBy(Player::B))),
        Label { text: 'B', color: LabelColor::Red }
    );
}

#[test]
fn keys() {
    assert_eq!(key_command('q', false), KeyCommand::Quit);
    assert_eq!(key_command('q', true), KeyCommand::Quit);
    assert_eq!(key_command('g', false), KeyCommand::Gather);
    assert_eq!(key_command('a', false), KeyCommand::ApplyOne);
    assert_eq!(key_command('s', false), KeyCommand::Step);
    assert_eq!(key_command('s', true), KeyCommand::Batch);
    assert_eq!(key_command('S', false), KeyCommand::Nothing);
    assert_eq!(key_command('x', true), KeyCommand::Nothing);
}
