use sudoku_grid::SudokuField;

#[test]
fn new_var_sizes() {
    for i in 2..11 {
        assert!(SudokuField::new(i).is_ok());
    }
}

#[test]
fn new_invalid_size() {
    assert!(SudokuField::new(1).is_err());
    assert!(SudokuField::new(0).is_err());
}

#[test]
fn pretty_format() {
    let mut s = SudokuField::new(2).unwrap();
    s.set_fields(vec![0, 1, 2, 3, 4, 5, 6, 7, 1, 2, 3, 4, 2, 3, 4, 5]);
    let exp = String::from(
        "\
┌─────┬─────┐
| . 1 | 2 3 |
| 4 . | . . |
├─────┼─────┤
| 1 2 | 3 4 |
| 2 3 | 4 . |
└─────┴─────┘\n",
    );
    assert_eq!(exp, s.pretty_format());

    let mut s = SudokuField::new(4).unwrap();
    s.set_fields(vec![
        0, 1, 2, 3, 4, 5, 6, 7, 8, 9, 10, 11, 12, 13, 14, 15, 1, 2, 18, 19, 20, 21, 22, 23, 24,
        25, 26, 27, 28, 29, 30, 31, 2, 1, 4, 3, 4, 5, 6, 7, 8, 9, 10, 11, 12, 13, 14, 15, 3, 17,
        18, 6, 20, 21, 22, 23, 24, 25, 26, 27, 28, 29, 30, 31, 4, 1, 2, 3, 8, 5, 6, 7, 8, 9, 10,
        11, 12, 13, 14, 15, 5, 17, 18, 19, 20, 10, 22, 23, 24, 25, 26, 27, 28, 29, 30, 31, 6, 1,
        2, 3, 4, 5, 12, 7, 8, 9, 10, 11, 12, 13, 14, 15, 7, 17, 18, 19, 20, 21, 22, 14, 24, 25,
        26, 27, 28, 29, 30, 31, 8, 1, 2, 3, 4, 5, 6, 7, 1, 9, 10, 11, 12, 13, 14, 15, 9, 17, 18,
        19, 20, 21, 22, 23, 24, 3, 26, 27, 28, 29, 30, 31, 10, 1, 2, 3, 4, 5, 6, 7, 8, 9, 5, 11,
        12, 13, 14, 15, 11, 17, 18, 19, 20, 21, 22, 23, 24, 25, 26, 7, 28, 29, 30, 31, 12, 1, 2,
        3, 4, 5, 6, 7, 8, 9, 10, 11, 9, 13, 14, 15, 13, 17, 18, 19, 20, 21, 22, 23, 24, 25, 26,
        27, 28, 11, 30, 31, 14, 1, 2, 3, 4, 5, 6, 7, 8, 9, 10, 11, 12, 13, 13, 15, 15, 0, 16, 19,
        20, 21, 22, 23, 24, 25, 26, 27, 28, 29, 30, 15,
    ]);
    let exp = String::from(
        "\
┌─────────────┬─────────────┬─────────────┬─────────────┐
|  .  1  2  3 |  4  5  6  7 |  8  9 10 11 | 12 13 14 15 |
|  1  2  .  . |  .  .  .  . |  .  .  .  . |  .  .  .  . |
|  2  1  4  3 |  4  5  6  7 |  8  9 10 11 | 12 13 14 15 |
|  3  .  .  6 |  .  .  .  . |  .  .  .  . |  .  .  .  . |
├─────────────┼─────────────┼─────────────┼─────────────┤
|  4  1  2  3 |  8  5  6  7 |  8  9 10 11 | 12 13 14 15 |
|  5  .  .  . |  . 10  .  . |  .  .  .  . |  .  .  .  . |
|  6  1  2  3 |  4  5 12  7 |  8  9 10 11 | 12 13 14 15 |
|  7  .  .  . |  .  .  . 14 |  .  .  .  . |  .  .  .  . |
├─────────────┼─────────────┼─────────────┼─────────────┤
|  8  1  2  3 |  4  5  6  7 |  1  9 10 11 | 12 13 14 15 |
|  9  .  .  . |  .  .  .  . |  .  3  .  . |  .  .  .  . |
| 10  1  2  3 |  4  5  6  7 |  8  9  5 11 | 12 13 14 15 |
| 11  .  .  . |  .  .  .  . |  .  .  .  7 |  .  .  .  . |
├─────────────┼─────────────┼─────────────┼─────────────┤
| 12  1  2  3 |  4  5  6  7 |  8  9 10 11 |  9 13 14 15 |
| 13  .  .  . |  .  .  .  . |  .  .  .  . |  . 11  .  . |
| 14  1  2  3 |  4  5  6  7 |  8  9 10 11 | 12 13 13 15 |
| 15  . 16  . |  .  .  .  . |  .  .  .  . |  .  .  . 15 |
└─────────────┴─────────────┴─────────────┴─────────────┘\n",
    );
    assert_eq!(exp, s.pretty_format());
}

#[test]
fn uncomplete() {
    let s = SudokuField::new(2).unwrap();
    assert!(!s.is_complete());
}

#[test]
fn complete() {
    let mut s = SudokuField::new(2).unwrap();
    s.set_fields(vec![1; 16]);
    assert!(s.is_complete());
}

#[test]
fn invalid_size_error_carries_value() {
    assert_eq!(
        SudokuField::new(0).unwrap_err(),
        "Invalid size 0 provided (must at least be 2)."
    );
    assert_eq!(
        SudokuField::new(1).unwrap_err(),
        "Invalid size 1 provided (must at least be 2)."
    );
}

#[test]
fn set_fields_keeps_values_in_range() {
    // Every value in [1, 4] of a 4x4 grid is kept and printed as given.
    let mut s = SudokuField::new(2).unwrap();
    s.set_fields(vec![1, 2, 3, 4, 4, 3, 2, 1, 2, 1, 4, 3, 3, 4, 1, 2]);
    let exp = String::from(
        "\
┌─────┬─────┐
| 1 2 | 3 4 |
| 4 3 | 2 1 |
├─────┼─────┤
| 2 1 | 4 3 |
| 3 4 | 1 2 |
└─────┴─────┘\n",
    );
    assert_eq!(exp, s.pretty_format());
    assert!(s.is_complete());
}

#[test]
fn set_fields_normalizes_out_of_range() {
    // Zero and anything above edge_size = 4 become empty cells.
    let mut s = SudokuField::new(2).unwrap();
    s.set_fields(vec![0, 5, 255, 4, 1, 2, 3, 4, 1, 2, 3, 4, 1, 2, 3, 4]);
    let exp = String::from(
        "\
┌─────┬─────┐
| . . | . 4 |
| 1 2 | 3 4 |
├─────┼─────┤
| 1 2 | 3 4 |
| 1 2 | 3 4 |
└─────┴─────┘\n",
    );
    assert_eq!(exp, s.pretty_format());
    assert!(!s.is_complete());
}

#[test]
fn single_out_of_range_value_breaks_completion() {
    let mut s = SudokuField::new(2).unwrap();
    let mut values = vec![1; 16];
    values[7] = 5;
    s.set_fields(values);
    assert!(!s.is_complete());
}

#[test]
fn pretty_format_is_idempotent() {
    let mut s = SudokuField::new(3).unwrap();
    let mut values = vec![0u8; 81];
    for (i, v) in values.iter_mut().enumerate() {
        *v = ((i * 7) % 12) as u8;
    }
    s.set_fields(values);
    let first = s.pretty_format();
    let second = s.pretty_format();
    assert_eq!(first, second);
}

#[test]
fn new_grid_is_all_empty() {
    // A fresh 9x9 grid prints only dots and block separators.
    let s = SudokuField::new(3).unwrap();
    let exp = String::from(
        "\
┌───────┬───────┬───────┐
| . . . | . . . | . . . |
| . . . | . . . | . . . |
| . . . | . . . | . . . |
├───────┼───────┼───────┤
| . . . | . . . | . . . |
| . . . | . . . | . . . |
| . . . | . . . | . . . |
├───────┼───────┼───────┤
| . . . | . . . | . . . |
| . . . | . . . | . . . |
| . . . | . . . | . . . |
└───────┴───────┴───────┘\n",
    );
    assert_eq!(exp, s.pretty_format());
    assert!(!s.is_complete());
}
