use connect4::ledger::{has_winning_move, Board, PlayerMove, CELLS, COLUMNS, ROWS};

fn mv(player: usize, column: usize, row: usize) -> PlayerMove {
    PlayerMove::new(player, column, row)
}

const DRAW_COLUMNS: [usize; 42] = [
    5, 4, 5, 0, 6, 2, 4, 5, 5, 0, 4, 1, 1, 0, 4, 5, 6, 5, 3, 1, 1, 2, 2, 6, 2, 6, 6, 3, 6, 2, 0,
    3, 0, 3, 3, 4, 3, 1, 4, 2, 1, 0,
];

#[test]
fn player_move_new_keeps_fields() {
    let m = mv(2, 3, 4);
    assert_eq!(m.player, 2);
    assert_eq!(m.column, 3);
    assert_eq!(m.row, 4);
}

#[test]
fn horizontal_four_wins() {
    let moves = vec![mv(1, 0, 0), mv(1, 1, 0), mv(1, 2, 0), mv(1, 3, 0)];
    assert!(moves[3].is_winner(&moves));
    assert!(moves[0].is_winner(&moves));
    assert!(!moves[2].is_winner(&moves[..3]));
}

#[test]
fn vertical_four_wins() {
    let moves = vec![mv(2, 4, 0), mv(2, 4, 1), mv(2, 4, 2), mv(2, 4, 3)];
    assert!(moves[3].is_winner(&moves));
    assert!(!moves[2].is_winner(&moves[..3]));
}

#[test]
fn diagonal_four_wins() {
    let moves = vec![
        mv(1, 0, 0),
        mv(2, 1, 0),
        mv(1, 1, 1),
        mv(2, 2, 0),
        mv(1, 3, 0),
        mv(2, 2, 1),
        mv(1, 2, 2),
        mv(2, 3, 1),
        mv(1, 4, 0),
        mv(2, 3, 2),
        mv(1, 3, 3),
    ];
    assert!(moves[10].is_winner(&moves));
    assert!(!has_winning_move(&moves[..10]));
    assert!(has_winning_move(&moves));
}

#[test]
fn anti_diagonal_four_wins() {
    let moves = vec![mv(1, 3, 0), mv(1, 2, 1), mv(1, 1, 2), mv(1, 0, 3)];
    assert!(moves[1].is_winner(&moves));
}

#[test]
fn other_players_coin_breaks_a_line() {
    let moves = vec![mv(1, 0, 0), mv(1, 1, 0), mv(2, 2, 0), mv(1, 3, 0), mv(1, 4, 0)];
    assert!(!moves[3].is_winner(&moves));
    assert!(!has_winning_move(&moves));
}

#[test]
fn check_direction_counts_until_a_gap() {
    let moves = vec![mv(1, 0, 0), mv(1, 1, 0), mv(1, 2, 0), mv(1, 4, 0)];
    let m = mv(1, 0, 0);
    assert_eq!(m.check_direction(&moves, 1, 0), 2);
    assert_eq!(m.check_direction(&moves, -1, 0), 0);
    assert_eq!(m.check_direction(&moves, 0, 1), 0);
    let edge = mv(1, 6, 5);
    assert_eq!(edge.check_direction(&moves, 1, 1), 0);
}

#[test]
fn board_new_is_empty() {
    let b = Board::new();
    assert_eq!(b.moves.len(), 0);
    assert_eq!(b.player_turn, 1);
    assert_eq!(b.winner, None);
    assert!(!b.in_progress);
    assert!(!b.draw);
}

#[test]
fn drops_stack_and_turns_alternate() {
    let mut b = Board::new();
    assert_eq!(b.drop_coin(3), Some(mv(1, 3, 0)));
    assert_eq!(b.drop_coin(3), Some(mv(2, 3, 1)));
    assert_eq!(b.drop_coin(0), Some(mv(1, 0, 0)));
    assert_eq!(b.player_turn, 2);
    assert_eq!(b.column_height(3), 2);
    assert_eq!(b.column_height(6), 0);
    assert_eq!(b.moves.len(), 3);
}

#[test]
fn full_column_is_rejected() {
    let mut b = Board::new();
    for _ in 0..ROWS {
        assert!(b.drop_coin(2).is_some());
    }
    assert_eq!(b.moves.len(), 6);
    assert_eq!(b.drop_coin(2), None);
    assert_eq!(b.moves.len(), 6);
    assert_eq!(b.player_turn, 1);
}

#[test]
fn column_off_the_board_is_rejected() {
    let mut b = Board::new();
    assert_eq!(b.drop_coin(COLUMNS), None);
    assert_eq!(b.drop_coin(100), None);
    assert_eq!(b.moves.len(), 0);
}

#[test]
fn four_in_a_row_sets_the_winner() {
    let mut b = Board::new();
    for c in [0, 0, 1, 1, 2, 2] {
        b.drop_coin(c);
    }
    assert_eq!(b.winner, None);
    b.drop_coin(3);
    assert_eq!(b.winner, Some(1));
    assert!(!b.draw);
}

#[test]
fn first_winner_is_kept() {
    let mut b = Board::new();
    for c in [0, 0, 1, 1, 2, 2, 3] {
        b.drop_coin(c);
    }
    assert_eq!(b.winner, Some(1));
    for c in [4, 4, 5, 4, 5, 4] {
        b.drop_coin(c);
    }
    assert_eq!(b.winner, Some(1));
}

#[test]
fn full_board_without_line_is_a_draw() {
    let mut b = Board::new();
    for (i, c) in DRAW_COLUMNS.iter().enumerate() {
        assert!(b.drop_coin(*c).is_some(), "move {} refused", i);
        if i < 41 {
            assert!(!b.draw);
        }
    }
    assert_eq!(b.moves.len(), CELLS);
    assert!(b.is_full());
    assert!(b.draw);
    assert_eq!(b.winner, None);
    assert!(!has_winning_move(&b.moves));
    for c in 0..COLUMNS {
        assert_eq!(b.drop_coin(c), None);
    }
    assert_eq!(b.moves.len(), CELLS);
}
