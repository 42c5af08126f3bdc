use cgroup_bandwidth_limit::connect_four::{
    check_winner, print_grid, print_row, same_color, Color, Game, Grid, BOARD_HEIGHT, BOARD_WIDTH,
    START_COLUMN,
};

const RED: Color = Color(255, 0, 0);
const GREEN: Color = Color(0, 255, 0);
const BLACK: Color = Color(0, 0, 0);

fn game() -> Game {
    Game::new(RED, GREEN, BLACK)
}

/// Moves the selection to `column`.
fn select(g: &mut Game, column: usize) {
    let mut at = 0;
    for x in 0..BOARD_WIDTH {
        if g.selection_cell(x) != BLACK {
            at = x;
        }
    }
    while at < column {
        g.move_selection_right();
        at += 1;
    }
    while at > column {
        g.move_selection_left();
        at -= 1;
    }
}

/// Drops the active player's piece into `column` and hands the turn over.
fn play(g: &mut Game, column: usize) -> bool {
    select(g, column);
    assert!(g.can_drop_selected());
    let won = g.drop_selected();
    if !won {
        g.switch_player();
    }
    won
}

fn selected(g: &Game) -> Vec<usize> {
    (0..BOARD_WIDTH).filter(|x| g.selection_cell(*x) != BLACK).collect()
}

#[test]
fn colours_are_compared_by_component() {
    assert!(same_color(&Color(1, 2, 3), &Color(1, 2, 3)));
    assert!(!same_color(&Color(1, 2, 3), &Color(0, 2, 3)));
    assert!(!same_color(&Color(1, 2, 3), &Color(1, 0, 3)));
    assert!(!same_color(&Color(1, 2, 3), &Color(1, 2, 0)));
}

#[test]
fn grid_cells_are_stored_by_column() {
    let mut grid = Grid::new(0u8, 3, 2);
    assert_eq!(grid.width(), 3);
    assert_eq!(grid.height(), 2);
    for x in 0..3 {
        for y in 0..2 {
            assert_eq!(*grid.at(x, y), 0);
            *grid.at_mut(x, y) = (10 * x + y) as u8;
        }
    }
    for x in 0..3 {
        for y in 0..2 {
            assert_eq!(*grid.at(x, y), (10 * x + y) as u8);
        }
    }
}

#[test]
fn a_new_game_is_empty() {
    let g = game();
    assert_eq!(BOARD_WIDTH, 7);
    assert_eq!(BOARD_HEIGHT, 6);
    for x in 0..BOARD_WIDTH {
        for y in 0..BOARD_HEIGHT {
            assert_eq!(g.board_cell(x, y), BLACK);
        }
    }
    assert_eq!(selected(&g), vec![START_COLUMN]);
    assert_eq!(g.selection_cell(START_COLUMN), RED);
    assert!(g.can_drop_selected());
}

#[test]
fn the_selection_wraps_around() {
    let mut g = game();
    for expected in [2usize, 1, 0, 6, 5, 4, 3] {
        g.move_selection_left();
        assert_eq!(selected(&g), vec![expected]);
        assert_eq!(g.selection_cell(expected), RED);
    }
    for expected in [4usize, 5, 6, 0, 1, 2, 3] {
        g.move_selection_right();
        assert_eq!(selected(&g), vec![expected]);
    }
}

#[test]
fn pieces_fall_to_the_lowest_free_row() {
    let mut g = game();
    assert!(!play(&mut g, 3));
    assert_eq!(g.board_cell(3, 5), RED);
    assert_eq!(g.board_cell(3, 4), BLACK);
    // The turn has gone to the second player, the selection to the middle.
    assert_eq!(selected(&g), vec![START_COLUMN]);
    assert_eq!(g.selection_cell(START_COLUMN), GREEN);
    assert!(!play(&mut g, 3));
    assert_eq!(g.board_cell(3, 4), GREEN);
    assert_eq!(g.board_cell(3, 5), RED);
    assert!(!play(&mut g, 0));
    assert_eq!(g.board_cell(0, 5), RED);
}

#[test]
fn a_full_column_takes_no_piece() {
    let mut g = game();
    // Alternating colours never make four in a row in one column.
    for _ in 0..BOARD_HEIGHT {
        assert!(!play(&mut g, 2));
    }
    select(&mut g, 2);
    assert!(!g.can_drop_selected());
    select(&mut g, 1);
    assert!(g.can_drop_selected());
}

#[test]
fn four_in_a_column_win() {
    let mut g = game();
    for _ in 0..3 {
        assert!(!play(&mut g, 0));
        assert!(!play(&mut g, 1));
    }
    assert!(play(&mut g, 0));
    assert_eq!(g.board_cell(0, 2), RED);
}

#[test]
fn four_in_a_row_win() {
    let mut g = game();
    for x in 0..3 {
        assert!(!play(&mut g, x));
        assert!(!play(&mut g, x));
    }
    assert!(play(&mut g, 3));
}

#[test]
fn four_in_a_row_win_when_the_gap_is_filled() {
    let mut g = game();
    for x in [0usize, 1, 3] {
        assert!(!play(&mut g, x));
        assert!(!play(&mut g, x));
    }
    assert!(play(&mut g, 2));
}

#[test]
fn four_on_a_diagonal_win() {
    let mut g = game();
    // Red climbs from (0, bottom) to (3, fourth row).
    for column in [0usize, 1, 1, 2, 2, 3, 2, 3, 3, 6] {
        assert!(!play(&mut g, column), "after column {}", column);
    }
    assert!(play(&mut g, 3));
    assert_eq!(g.board_cell(3, 2), RED);
}

#[test]
fn four_on_the_other_diagonal_win() {
    let mut g = game();
    for column in [6usize, 5, 5, 4, 4, 3, 4, 3, 3, 0] {
        assert!(!play(&mut g, column), "after column {}", column);
    }
    assert!(play(&mut g, 3));
}

/// Four in a row through `(x, y)`, found by looking at every run of four.
fn reference(cells: &Vec<Vec<Color>>, x: usize, y: usize) -> bool {
    let w = cells.len() as i64;
    let h = cells[0].len() as i64;
    let color = cells[x][y];
    for (dx, dy) in [(1i64, 0i64), (0, 1), (1, 1), (1, -1)] {
        for start in -3..=0i64 {
            let mut all = true;
            for j in start..start + 4 {
                let cx = x as i64 + j * dx;
                let cy = y as i64 + j * dy;
                if cx < 0 || cx >= w || cy < 0 || cy >= h || cells[cx as usize][cy as usize] != color
                {
                    all = false;
                }
            }
            if all {
                return true;
            }
        }
    }
    false
}

#[test]
fn winner_check_agrees_with_a_plain_search() {
    let mut seed: u64 = 0x1234_5678_9abc_def0;
    for round in 0..300 {
        let w = 1 + (round % 8) as usize;
        let h = 1 + ((round / 8) % 7) as usize;
        let mut cells = vec![vec![BLACK; h]; w];
        let mut grid = Grid::new(BLACK, w, h);
        for x in 0..w {
            for y in 0..h {
                seed = seed.wrapping_mul(6364136223846793005).wrapping_add(1442695040888963407);
                let c = if (seed >> 33) % 10 < 7 { RED } else { GREEN };
                cells[x][y] = c;
                *grid.at_mut(x, y) = c;
            }
        }
        for x in 0..w {
            for y in 0..h {
                assert_eq!(check_winner(&grid, x, y), reference(&cells, x, y));
            }
        }
    }
}

/// The text of a row, written with the terminal crate itself.
fn expected_row(cells: &[Color], row_index: u16, offset: u16) -> String {
    let mut text = format!(
        "{}{}",
        termion::cursor::Goto(1, 1 + row_index * 2 + offset),
        termion::clear::CurrentLine
    );
    for c in cells {
        text.push_str(&format!(
            "{} \u{201a}\u{f3}\u{e8} ",
            termion::color::Fg(termion::color::Rgb(c.0, c.1, c.2))
        ));
    }
    text
}

#[test]
fn a_row_is_written_as_control_sequences() {
    let mut grid = Grid::new(BLACK, 2, 3);
    *grid.at_mut(0, 1) = Color(255, 0, 7);
    *grid.at_mut(1, 1) = Color(10, 200, 0);
    let mut out = String::from(">");
    print_row(&mut out, &grid, 1, 2);
    assert_eq!(
        out,
        ">\x1B[5;1H\x1B[2K\x1B[38;2;255;0;7m \u{201a}\u{f3}\u{e8} \x1B[38;2;10;200;0m \u{201a}\u{f3}\u{e8} "
    );
    assert_eq!(&out[1..], expected_row(&[Color(255, 0, 7), Color(10, 200, 0)], 1, 2));
}

#[test]
fn a_grid_is_written_row_by_row() {
    let mut grid = Grid::new(GREEN, 3, 2);
    *grid.at_mut(2, 0) = RED;
    let mut out = String::new();
    print_grid(&mut out, &grid, 7);
    let mut expected = expected_row(&[GREEN, GREEN, RED], 0, 7);
    expected.push_str(&expected_row(&[GREEN, GREEN, GREEN], 1, 7));
    assert_eq!(out, expected);
    let mut out = String::new();
    print_grid(&mut out, &Grid::new(RED, 3, 0), 0);
    assert_eq!(out, "");
}

#[test]
fn the_board_is_written_below_the_selection() {
    let mut g = game();
    assert!(!play(&mut g, 1));
    let mut out = String::new();
    g.print_board(&mut out);

    let mut selection = vec![BLACK; BOARD_WIDTH];
    selection[START_COLUMN] = GREEN;
    let mut expected = expected_row(&selection, 0, 0);
    for y in 0..BOARD_HEIGHT {
        let mut row = vec![BLACK; BOARD_WIDTH];
        if y == BOARD_HEIGHT - 1 {
            row[1] = RED;
        }
        expected.push_str(&expected_row(&row, y as u16, 2));
    }
    assert_eq!(out, expected);
}
