use framing::mines::field::{Empty, Field, Type};
use framing::mines::position::{rand_pos_in_range, Position};
use framing::mines::{Direction, GameStatus, Minesweeper};

#[test]
fn empty_counts_neighbours() {
    let mut e = Empty::new();
    assert_eq!(e.neighbours(), 0);
    e.set_neighbours(5);
    assert_eq!(e.neighbours(), 5);
}

#[test]
fn fresh_fields_are_covered_and_unflagged() {
    let empty = Field::new_empty();
    assert!(empty.hidden());
    assert!(!empty.is_marked());
    assert!(matches!(empty.typ(), Type::Empty(e) if e.neighbours() == 0));
    assert!(!empty.typ_is_mine());
    let mine = Field::new_mine();
    assert!(mine.hidden());
    assert!(!mine.is_marked());
    assert!(matches!(mine.typ(), Type::Mine));
    assert!(mine.typ_is_mine());
}

#[test]
fn field_flags_and_cover() {
    let mut field = Field::new_empty();
    field.mark();
    assert!(field.is_marked());
    assert!(field.hidden());
    field.unmark();
    assert!(!field.is_marked());
    field.uncover();
    assert!(!field.hidden());
    assert!(!field.is_marked());
}

#[test]
fn typ_mut_changes_the_content_only() {
    let mut field = Field::new_empty();
    field.mark();
    if let Type::Empty(e) = field.typ_mut() {
        e.set_neighbours(3);
    }
    assert!(matches!(field.typ(), Type::Empty(e) if e.neighbours() == 3));
    *field.typ_mut() = Type::Mine;
    assert!(field.typ_is_mine());
    assert!(field.is_marked());
    assert!(field.hidden());
}

#[test]
fn lonely_cells() {
    assert!(Type::Empty(Empty::new()).is_lonely());
    let mut e = Empty::new();
    e.set_neighbours(1);
    assert!(!Type::Empty(e).is_lonely());
    assert!(!Type::Mine.is_lonely());
}

#[test]
fn new_game() {
    let game = Minesweeper::new(10, 10);
    assert_eq!(game.width(), 10);
    assert_eq!(game.height(), 10);
    assert_eq!(game.cursor(), Position::from(5, 5));
    assert_eq!(game.mine_count(), 20);
    assert_eq!(game.remaining_fields_to_open(), 100);
    for y in 0..10 {
        for x in 0..10 {
            let field = game.field_at(Position::from(x, y)).unwrap();
            assert!(field.hidden());
            assert!(!field.is_marked());
            assert!(!field.typ_is_mine());
        }
    }
}

#[test]
fn mine_count_is_a_fifth_rounded_down() {
    assert_eq!(Minesweeper::new(3, 3).mine_count(), 1);
    assert_eq!(Minesweeper::new(2, 2).mine_count(), 0);
    assert_eq!(Minesweeper::new(7, 3).mine_count(), 4);
    assert_eq!(Minesweeper::new(0, 9).mine_count(), 0);
}

#[test]
fn positions_and_indices() {
    let game = Minesweeper::new(4, 3);
    assert!(game.is_valid_position(Position::from(0, 0)));
    assert!(game.is_valid_position(Position::from(3, 2)));
    assert!(!game.is_valid_position(Position::from(4, 2)));
    assert!(!game.is_valid_position(Position::from(3, 3)));
    assert!(!game.is_valid_position(Position::from(-1, 0)));
    assert!(!game.is_valid_position(Position::from(0, -1)));
    assert_eq!(game.position_to_index(Position::from(0, 0)), 0);
    assert_eq!(game.position_to_index(Position::from(3, 0)), 3);
    assert_eq!(game.position_to_index(Position::from(1, 2)), 9);
    assert_eq!(game.index_to_position(9), Position::from(1, 2));
    for index in 0..12 {
        assert_eq!(game.position_to_index(game.index_to_position(index)), index);
    }
    assert!(game.field_at(Position::from(4, 0)).is_none());
    assert!(game.field_at(Position::from(3, 2)).is_some());
}

#[test]
fn cursor_moves_and_stops_at_the_border() {
    let mut game = Minesweeper::new(3, 2);
    assert_eq!(game.cursor(), Position::from(1, 1));
    game.move_cursor(Direction::Down);
    assert_eq!(game.cursor(), Position::from(1, 1));
    game.move_cursor(Direction::Up);
    assert_eq!(game.cursor(), Position::from(1, 0));
    game.move_cursor(Direction::Up);
    assert_eq!(game.cursor(), Position::from(1, 0));
    game.move_cursor(Direction::Left);
    assert_eq!(game.cursor(), Position::from(0, 0));
    game.move_cursor(Direction::Left);
    assert_eq!(game.cursor(), Position::from(0, 0));
    game.move_cursor(Direction::Right);
    game.move_cursor(Direction::Right);
    game.move_cursor(Direction::Right);
    assert_eq!(game.cursor(), Position::from(2, 0));
}

#[test]
fn set_cursor_refuses_positions_off_the_board() {
    let mut game = Minesweeper::new(3, 3);
    assert_eq!(game.set_cursor(Position::from(2, 0)), Ok(()));
    assert_eq!(game.cursor(), Position::from(2, 0));
    assert_eq!(game.set_cursor(Position::from(3, 0)), Err(()));
    assert_eq!(game.set_cursor(Position::from(0, -1)), Err(()));
    assert_eq!(game.cursor(), Position::from(2, 0));
}

#[test]
fn toggle_flags_the_cell_under_the_cursor() {
    let mut game = Minesweeper::new(3, 3);
    game.toggle_marked_at_cursor();
    assert!(game.field_at(Position::from(1, 1)).unwrap().is_marked());
    assert!(!game.field_at(Position::from(0, 1)).unwrap().is_marked());
    game.toggle_marked_at_cursor();
    assert!(!game.field_at(Position::from(1, 1)).unwrap().is_marked());
}

#[test]
fn flagged_cell_takes_no_click() {
    let mut game = Minesweeper::new(2, 2);
    game.toggle_marked_at_cursor();
    assert_eq!(game.click(), GameStatus::MoreFieldsNeeded);
    assert_eq!(game.remaining_fields_to_open(), 4);
    assert!(game.field_at(game.cursor()).unwrap().hidden());
}

#[test]
fn board_without_mines_is_won_by_one_click() {
    // Four cells lay no mine: the click opens its cell and the three around it.
    let mut game = Minesweeper::new(2, 2);
    assert_eq!(game.click(), GameStatus::YouWin);
    assert_eq!(game.remaining_fields_to_open(), 0);
    for y in 0..2 {
        for x in 0..2 {
            assert!(!game.field_at(Position::from(x, y)).unwrap().hidden());
        }
    }
    assert_eq!(game.click(), GameStatus::MoreFieldsNeeded);
}

#[test]
fn placed_mines_and_numbers() {
    let mut game = Minesweeper::new(4, 4);
    game.place_mine(Position::from(0, 0));
    game.place_mine(Position::from(1, 0));
    game.place_mine(Position::from(9, 9));
    game.place_mine(Position::from(0, 0));
    // The count is not touched by putting mines.
    assert_eq!(game.remaining_fields_to_open(), 16);
    assert!(game.field_at(Position::from(0, 0)).unwrap().typ_is_mine());
    assert!(game.field_at(Position::from(1, 0)).unwrap().typ_is_mine());
    assert!(!game.field_at(Position::from(2, 0)).unwrap().typ_is_mine());
    assert_eq!(game.get_neighbour_mines(Position::from(1, 1)), 2);
    assert_eq!(game.get_neighbour_mines(Position::from(0, 1)), 2);
    assert_eq!(game.get_neighbour_mines(Position::from(2, 1)), 1);
    assert_eq!(game.get_neighbour_mines(Position::from(3, 3)), 0);
    assert_eq!(game.get_neighbour_mines(Position::from(0, 0)), 1);
}

#[test]
fn reveal_all_fields_opens_everything() {
    let mut game = Minesweeper::new(3, 2);
    game.reveal_all_fields();
    assert_eq!(game.remaining_fields_to_open(), 6);
    for index in 0..6 {
        assert!(!game.field_at(game.index_to_position(index)).unwrap().hidden());
    }
}

#[test]
fn first_click_lays_at_most_the_mines_asked_for() {
    for _ in 0..50 {
        let mut game = Minesweeper::new(10, 10);
        let status = game.click();
        let mut mines = 0;
        let mut covered_empty = 0;
        for index in 0..100 {
            let field = game.field_at(game.index_to_position(index)).unwrap();
            if field.typ_is_mine() {
                mines += 1;
            } else if field.hidden() {
                covered_empty += 1;
            }
        }
        assert!(mines <= 20);
        assert!(mines >= 1);
        // Eighty cells are left to open once the twenty mines are drawn,
        // however many cells they fell on.
        match status {
            GameStatus::YouLose => {
                assert!(game.field_at(game.cursor()).unwrap().typ_is_mine());
                assert_eq!(covered_empty, 0);
                assert_eq!(game.remaining_fields_to_open(), 80);
            }
            GameStatus::YouWin => {
                assert_eq!(covered_empty, 0);
                assert_eq!(game.remaining_fields_to_open(), 0);
            }
            GameStatus::MoreFieldsNeeded => {
                assert!(!game.field_at(game.cursor()).unwrap().hidden());
                let opened = 100 - mines - covered_empty;
                assert!(opened >= 1);
                assert_eq!(game.remaining_fields_to_open(), 80usize.wrapping_sub(opened));
                assert_ne!(game.remaining_fields_to_open(), 0);
            }
        }
    }
}

#[test]
fn numbers_count_the_mines_around_after_the_first_click() {
    for _ in 0..20 {
        let mut game = Minesweeper::new(8, 6);
        game.click();
        for index in 0..48 {
            let pos = game.index_to_position(index);
            if let Type::Empty(e) = game.field_at(pos).unwrap().typ() {
                assert_eq!(e.neighbours(), game.get_neighbour_mines(pos));
            }
        }
    }
}

#[test]
fn click_opens_the_neighbours_and_floods_from_lonely_cells() {
    for _ in 0..50 {
        let mut game = Minesweeper::new(9, 9);
        if game.click() != GameStatus::MoreFieldsNeeded {
            continue;
        }
        // Around every open cell without mines around it, and around the
        // clicked cell, every cell without a mine is open.
        for index in 0..81 {
            let pos = game.index_to_position(index);
            let field = game.field_at(pos).unwrap();
            let lonely_open = !field.hidden() && field.typ().is_lonely();
            if lonely_open || pos == game.cursor() {
                for dy in -1..=1 {
                    for dx in -1..=1 {
                        let around = Position::from(pos.x + dx, pos.y + dy);
                        if let Some(f) = game.field_at(around) {
                            if !f.typ_is_mine() {
                                assert!(!f.hidden());
                            }
                        }
                    }
                }
            }
            if field.typ_is_mine() {
                assert!(field.hidden());
            }
        }
    }
}

#[test]
fn clicking_a_mine_loses_and_opens_the_board() {
    let mut game = Minesweeper::new(5, 5);
    assert_eq!(game.set_cursor(Position::from(4, 4)), Ok(()));
    let first = game.click();
    if first == GameStatus::MoreFieldsNeeded {
        let mut mine = None;
        for index in 0..25 {
            let pos = game.index_to_position(index);
            if game.field_at(pos).unwrap().typ_is_mine() {
                mine = Some(pos);
            }
        }
        let mine = mine.unwrap();
        assert_eq!(game.set_cursor(mine), Ok(()));
        let left = game.remaining_fields_to_open();
        let before = snapshot(&game, 25);
        assert_eq!(game.click(), GameStatus::YouLose);
        // Losing uncovers the board and leaves the count where it was.
        assert_eq!(game.remaining_fields_to_open(), left);
        let after = snapshot(&game, 25);
        assert_eq!(after.mine, before.mine);
        assert_eq!(after.number, before.number);
        for index in 0..25 {
            assert!(!game.field_at(game.index_to_position(index)).unwrap().hidden());
        }
    }
}

#[test]
fn open_at_cursor_on_a_finished_board() {
    let mut game = Minesweeper::new(2, 2);
    assert_eq!(game.click(), GameStatus::YouWin);
    assert_eq!(game.open_at_cursor(), GameStatus::MoreFieldsNeeded);
}

fn hidden_row(game: &Minesweeper, width: i32) -> Vec<bool> {
    (0..width).map(|x| game.field_at(Position::from(x, 0)).unwrap().hidden()).collect()
}

#[test]
fn flood_stops_at_a_mine() {
    // A row of four lays no mines of its own; the mine is put at the second cell.
    let mut game = Minesweeper::new(4, 1);
    assert_eq!(game.mine_count(), 0);
    game.place_mine(Position::from(1, 0));
    assert_eq!(game.cursor(), Position::from(2, 0));
    assert_eq!(game.click(), GameStatus::MoreFieldsNeeded);
    assert_eq!(hidden_row(&game, 4), vec![true, true, false, false]);
    // Four cells were left to open when the click began, and it opened two.
    assert_eq!(game.remaining_fields_to_open(), 2);
    let numbers: Vec<u8> = (0..4).map(|x| game.get_neighbour_mines(Position::from(x, 0))).collect();
    assert_eq!(numbers, vec![1, 0, 1, 0]);
    assert!(matches!(game.field_at(Position::from(0, 0)).unwrap().typ(), Type::Empty(e) if e.neighbours() == 1));
    assert!(matches!(game.field_at(Position::from(2, 0)).unwrap().typ(), Type::Empty(e) if e.neighbours() == 1));
    assert!(game.field_at(Position::from(3, 0)).unwrap().typ().is_lonely());

    // The mine was put by hand and is not in the count, so opening the last
    // empty cell does not end the game.
    assert_eq!(game.set_cursor(Position::from(0, 0)), Ok(()));
    assert_eq!(game.click(), GameStatus::MoreFieldsNeeded);
    assert_eq!(hidden_row(&game, 4), vec![false, true, false, false]);
    assert_eq!(game.remaining_fields_to_open(), 1);

    // The mine ends it, and the count stays.
    assert_eq!(game.set_cursor(Position::from(1, 0)), Ok(()));
    assert_eq!(game.click(), GameStatus::YouLose);
    assert_eq!(hidden_row(&game, 4), vec![false, false, false, false]);
    assert_eq!(game.remaining_fields_to_open(), 1);
}

#[test]
fn flood_goes_on_from_cells_without_mines_around() {
    let mut game = Minesweeper::new(4, 1);
    game.place_mine(Position::from(0, 0));
    assert_eq!(game.set_cursor(Position::from(3, 0)), Ok(()));
    // From the last cell the flood reaches the third, which has no mine
    // around it, and from there the second, which has one.
    assert_eq!(game.click(), GameStatus::MoreFieldsNeeded);
    assert_eq!(hidden_row(&game, 4), vec![true, false, false, false]);
    assert_eq!(game.remaining_fields_to_open(), 1);
}

#[test]
fn click_opens_the_neighbours_of_a_numbered_cell() {
    let mut game = Minesweeper::new(1, 4);
    game.place_mine(Position::from(0, 0));
    assert_eq!(game.set_cursor(Position::from(0, 1)), Ok(()));
    // The clicked cell has a mine around it; the cells below it are opened all the same.
    assert_eq!(game.click(), GameStatus::MoreFieldsNeeded);
    let hidden: Vec<bool> =
        (0..4).map(|y| game.field_at(Position::from(0, y)).unwrap().hidden()).collect();
    assert_eq!(hidden, vec![true, false, false, false]);
    assert_eq!(game.remaining_fields_to_open(), 1);
}

#[test]
fn clicking_a_placed_mine_loses() {
    let mut game = Minesweeper::new(2, 2);
    game.place_mine(Position::from(1, 1));
    assert_eq!(game.click(), GameStatus::YouLose);
    assert_eq!(game.remaining_fields_to_open(), 4);
    assert_eq!(game.to_string(), "Remaining fields: 4  Mines: 0\n _  _  _ \n| 1  1 |\n| 1 [⬤]|\n _  _  _ \n");
}

#[test]
fn flagged_mine_loses_its_flag_when_laid() {
    let mut game = Minesweeper::new(2, 2);
    game.toggle_marked_at_cursor();
    game.place_mine(Position::from(1, 1));
    assert!(!game.field_at(Position::from(1, 1)).unwrap().is_marked());
    assert!(game.field_at(Position::from(1, 1)).unwrap().hidden());
}

struct Snapshot {
    mine: Vec<bool>,
    number: Vec<u8>,
    hidden: Vec<bool>,
}

fn snapshot(game: &Minesweeper, cells: usize) -> Snapshot {
    let mut snap = Snapshot { mine: vec![], number: vec![], hidden: vec![] };
    for index in 0..cells {
        let field = game.field_at(game.index_to_position(index)).unwrap();
        snap.mine.push(field.typ_is_mine());
        snap.number.push(match field.typ() {
            Type::Empty(e) => e.neighbours(),
            Type::Mine => 0,
        });
        snap.hidden.push(field.hidden());
    }
    snap
}

#[test]
fn second_click_uncovers_exactly_what_the_flood_reaches() {
    let (width, height) = (9, 7);
    let cells = (width * height) as usize;
    let mut checked = 0;
    for _ in 0..200 {
        let mut game = Minesweeper::new(width as u32, height as u32);
        if game.click() != GameStatus::MoreFieldsNeeded {
            continue;
        }
        let before = snapshot(&game, cells);
        let target = (0..cells).find(|&i| before.hidden[i] && !before.mine[i]);
        let Some(target) = target else { continue };
        let root = game.index_to_position(target);
        assert_eq!(game.set_cursor(root), Ok(()));

        // What the click is to do, worked out on the snapshot.
        let mut hidden = before.hidden.clone();
        hidden[target] = false;
        let mut work = vec![(root, true)];
        while let Some((pos, _)) = work.pop() {
            for dy in -1..=1 {
                for dx in -1..=1 {
                    let (x, y) = (pos.x + dx, pos.y + dy);
                    if (dx, dy) == (0, 0) || x < 0 || y < 0 || x >= width || y >= height {
                        continue;
                    }
                    let i = (y * width + x) as usize;
                    if !before.mine[i] && hidden[i] {
                        hidden[i] = false;
                        if before.number[i] == 0 {
                            work.push((Position::from(x, y), false));
                        }
                    }
                }
            }
        }
        let opened = (0..cells).filter(|&i| before.hidden[i] && !hidden[i]).count();
        let left = game.remaining_fields_to_open().wrapping_sub(opened);
        let expected_status =
            if left == 0 { GameStatus::YouWin } else { GameStatus::MoreFieldsNeeded };
        if left == 0 {
            hidden = vec![false; cells];
        }

        assert_eq!(game.click(), expected_status);
        let after = snapshot(&game, cells);
        assert_eq!(after.hidden, hidden);
        assert_eq!(after.mine, before.mine);
        assert_eq!(after.number, before.number);
        assert_eq!(game.remaining_fields_to_open(), left);
        checked += 1;
    }
    assert!(checked > 0);
}

#[test]
fn smoke() {
    let mut mw = Minesweeper::new(10, 10);
    println!("{}", mw.to_string());

    for _ in 0..10 {
        let pos = rand_pos_in_range(Position::from(10, 10));
        let _ = mw.set_cursor(pos);
        mw.click();
        println!("{}", mw.to_string());
    }
}

#[test]
fn cells_as_text() {
    let mut field = Field::new_empty();
    assert_eq!(field.to_string(), "▓");
    field.mark();
    assert_eq!(field.to_string(), "X");
    field.uncover();
    assert_eq!(field.to_string(), "░");
    if let Type::Empty(e) = field.typ_mut() {
        e.set_neighbours(3);
    }
    assert_eq!(field.to_string(), "3");
    let mut mine = Field::new_mine();
    assert_eq!(mine.to_string(), "▓");
    mine.uncover();
    assert_eq!(mine.to_string(), "⬤");
    assert_eq!(Type::Mine.to_string(), "⬤");
    let mut many = Empty::new();
    assert_eq!(many.to_string(), "░");
    many.set_neighbours(255);
    assert_eq!(many.to_string(), "255");
    assert_eq!(Type::Empty(many).to_string(), "255");
}

#[test]
fn untouched_board_as_text() {
    let mut game = Minesweeper::new(3, 2);
    let expected = "Remaining fields: 6  Mines: 1\n \
                    _  _  _  _ \n\
                    | ▓  ▓  ▓ |\n\
                    | ▓ [▓] ▓ |\n \
                    _  _  _  _ \n";
    assert_eq!(game.to_string(), expected);
    game.toggle_marked_at_cursor();
    game.move_cursor(Direction::Left);
    let expected = "Remaining fields: 6  Mines: 1\n \
                    _  _  _  _ \n\
                    | ▓  ▓  ▓ |\n\
                    |[▓] X  ▓ |\n \
                    _  _  _  _ \n";
    assert_eq!(game.to_string(), expected);
}

#[test]
fn won_board_as_text() {
    let mut game = Minesweeper::new(2, 2);
    assert_eq!(game.click(), GameStatus::YouWin);
    let expected = "Remaining fields: 0  Mines: 0\n \
                    _  _  _ \n\
                    | ░  ░ |\n\
                    | ░ [░]|\n \
                    _  _  _ \n";
    assert_eq!(game.to_string(), expected);
}

#[test]
fn border_has_one_stroke_more_than_the_board_is_wide() {
    let game = Minesweeper::new(4, 1);
    let mut out = String::from(">");
    game.print_horizontal_border(&mut out);
    assert_eq!(out, "> _  _  _  _  _ \n");
}

#[test]
fn board_with_mines_as_text() {
    let mut game = Minesweeper::new(3, 3);
    game.place_mine(Position::from(0, 0));
    game.reveal_all_fields();
    let expected = "Remaining fields: 9  Mines: 1\n \
                    _  _  _  _ \n\
                    | ⬤  ░  ░ |\n\
                    | ░ [░] ░ |\n\
                    | ░  ░  ░ |\n \
                    _  _  _  _ \n";
    assert_eq!(game.to_string(), expected);
}
