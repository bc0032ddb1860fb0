use modal_edit::cmd::Cmd;
use modal_edit::display::Display;
use modal_edit::display::Region;
use modal_edit::file::File;
use modal_edit::layout::clip;
use modal_edit::layout::Window;
use modal_edit::paint::Cell;

fn letter(region: Region) -> char {
    match region {
        Region::Bar => 'b',
        Region::Center => 'X',
        Region::CenterCol => 'C',
        Region::CenterRow => 'R',
        Region::Cmd => 'm',
        Region::Code => 'c',
        Region::ColNum => 'n',
        Region::FilePath => 'p',
        Region::RowNum => 'r',
        Region::Space => '.',
    }
}

fn text(cells: &Vec<Cell>) -> String {
    cells.iter().map(|cell| cell.ch).collect()
}

fn regions(cells: &Vec<Cell>) -> String {
    cells.iter().map(|cell| letter(cell.region)).collect()
}

fn document(path: Option<&str>, source: &str) -> File {
    let mut file = File::new(path.map(|p| p.to_string()));
    file.read(Some(source));
    file
}

fn numbered(count: usize) -> File {
    let mut source = String::new();
    for n in 1..=count {
        source.push_str(&format!("l{}\n", n));
    }
    document(None, &source)
}

fn display(col: u16, row: u16, x: usize, y: usize) -> Display {
    let mut display = Display::new();
    display.resize(col, row);
    display.center_x = x;
    display.center_y = y;
    display
}

fn row(display: &Display, file: &File, r: u16) -> (String, String) {
    assert!(display.within(file));
    let cells = display.row(&Cmd::new(), file, r);
    assert_eq!(cells.len(), display.col as usize);
    (text(&cells), regions(&cells))
}

fn pair(a: &str, b: &str) -> (String, String) {
    (a.to_string(), b.to_string())
}

#[test]
fn window_at_the_start_of_a_document() {
    let file = document(None, "hello world\nsecond\nthird line here\n");
    assert_eq!(
        display(20, 8, 0, 0).window(&file),
        Window {
            code_rows: 4,
            code_cols: 19,
            gutter_width: 1,
            top_num: -2,
            left_num: -9,
            right_num: 10,
        }
    );
}

#[test]
fn window_with_an_even_number_of_rows_has_the_odd_row_above() {
    let file = numbered(100);
    let window = display(10, 8, 0, 50).window(&file);
    assert_eq!(window.code_rows, 4);
    assert_eq!(window.top_num, 48);
    assert_eq!(window.gutter_width, 2);
    assert_eq!(window.code_cols, 8);
}

#[test]
fn window_with_an_odd_number_of_rows_is_even_about_the_cursor() {
    let file = numbered(100);
    let window = display(10, 9, 0, 50).window(&file);
    assert_eq!(window.code_rows, 5);
    assert_eq!(window.top_num, 48);
    assert_eq!(window.gutter_width, 2);
}

#[test]
fn window_with_an_even_number_of_columns_has_the_odd_column_at_the_left() {
    let file = document(None, &"x".repeat(40));
    let window = display(11, 9, 20, 0).window(&file);
    assert_eq!(window.gutter_width, 1);
    assert_eq!(window.code_cols, 10);
    assert_eq!(window.left_num, 15);
    assert_eq!(window.right_num, 25);
}

#[test]
fn window_with_an_odd_number_of_columns_is_even_about_the_cursor() {
    let file = document(None, &"x".repeat(40));
    let window = display(12, 9, 20, 0).window(&file);
    assert_eq!(window.code_cols, 11);
    assert_eq!(window.left_num, 15);
    assert_eq!(window.right_num, 26);
}

#[test]
fn gutter_is_as_wide_as_the_largest_number_in_the_window() {
    let file = numbered(100);
    assert_eq!(display(20, 8, 0, 7).window(&file).gutter_width, 1);
    assert_eq!(display(20, 8, 0, 8).window(&file).gutter_width, 2);
    assert_eq!(display(20, 24, 0, 89).window(&file).gutter_width, 2);
    assert_eq!(display(20, 24, 0, 90).window(&file).gutter_width, 3);
    assert_eq!(display(20, 24, 0, 99).window(&file).gutter_width, 3);
    let file = numbered(9);
    assert_eq!(display(20, 24, 0, 8).window(&file).gutter_width, 1);
}

#[test]
fn window_near_the_end_of_a_document() {
    let file = numbered(100);
    assert_eq!(
        display(20, 24, 0, 99).window(&file),
        Window {
            code_rows: 20,
            code_cols: 17,
            gutter_width: 3,
            top_num: 89,
            left_num: -8,
            right_num: 9,
        }
    );
}

#[test]
fn window_of_a_terminal_too_low_for_text() {
    let file = numbered(100);
    for rows in 0..=4 {
        assert_eq!(
            display(20, rows, 2, 50).window(&file),
            Window {
                code_rows: 0,
                code_cols: 20,
                gutter_width: 0,
                top_num: 50,
                left_num: -8,
                right_num: 12,
            }
        );
    }
    assert_eq!(display(20, 5, 2, 50).window(&file).code_rows, 1);
}

#[test]
fn window_of_a_terminal_narrower_than_the_gutter() {
    let file = numbered(100);
    assert_eq!(
        display(1, 10, 0, 50).window(&file),
        Window {
            code_rows: 6,
            code_cols: 0,
            gutter_width: 2,
            top_num: 47,
            left_num: 0,
            right_num: 0,
        }
    );
    assert_eq!(row(&display(1, 10, 0, 50), &file, 5), pair("5", "R"));
    assert_eq!(row(&display(1, 10, 0, 50), &file, 4), pair("5", "r"));
    assert_eq!(row(&display(1, 10, 0, 50), &file, 1), pair(" ", "n"));
}

#[test]
fn window_of_a_cursor_far_outside_the_document() {
    let file = numbered(3);
    let window = display(20, 8, usize::MAX, usize::MAX).window(&file);
    assert_eq!(window.top_num, usize::MAX as i128 - 2);
    assert_eq!(window.gutter_width, 1);
    assert_eq!(window.code_cols, 19);
    assert_eq!(window.left_num, usize::MAX as i128 - 9);
    assert_eq!(window.right_num, usize::MAX as i128 + 10);
}

#[test]
fn clip_keeps_text_that_fits() {
    let abc = vec!['a', 'b', 'c'];
    assert_eq!(clip(&abc, 3), abc);
    assert_eq!(clip(&abc, 10), abc);
    assert_eq!(clip(&Vec::new(), 0), Vec::<char>::new());
}

#[test]
fn clip_shows_two_dots_and_the_end_of_longer_text() {
    let text: Vec<char> = "abcdefgh".chars().collect();
    assert_eq!(clip(&text, 7), vec!['.', '.', 'd', 'e', 'f', 'g', 'h']);
    assert_eq!(clip(&text, 3), vec!['.', '.', 'h']);
    assert_eq!(clip(&text, 2), vec!['.', '.']);
    assert_eq!(clip(&text, 1), vec!['.']);
    assert_eq!(clip(&text, 0), Vec::<char>::new());
}

#[test]
fn header_shows_the_path_at_the_right() {
    let file = document(Some("notes.txt"), "x");
    assert_eq!(
        row(&display(20, 8, 0, 0), &file, 0),
        pair("           notes.txt", "pppppppppppppppppppp")
    );
    assert_eq!(row(&display(9, 8, 0, 0), &file, 0), pair("notes.txt", "ppppppppp"));
}

#[test]
fn header_clips_a_long_path_at_the_left() {
    let file = document(Some("/home/user/projects/notes.txt"), "x");
    assert_eq!(row(&display(12, 8, 0, 0), &file, 0), pair("../notes.txt", "pppppppppppp"));
    assert_eq!(row(&display(28, 8, 0, 0), &file, 0).0, "..me/user/projects/notes.txt");
    assert_eq!(row(&display(29, 8, 0, 0), &file, 0).0, "/home/user/projects/notes.txt");
    assert_eq!(row(&display(2, 8, 0, 0), &file, 0).0, "..");
    assert_eq!(row(&display(1, 8, 0, 0), &file, 0).0, ".");
    assert_eq!(row(&display(0, 8, 0, 0), &file, 0).0, "");
}

#[test]
fn header_without_a_path_is_blank() {
    let file = document(None, "x");
    assert_eq!(row(&display(5, 8, 0, 0), &file, 0), pair("     ", "ppppp"));
}

#[test]
fn header_counts_characters_of_the_path() {
    let file = document(Some("caf\u{e9}/\u{4e16}\u{754c}.txt"), "x");
    assert_eq!(row(&display(12, 8, 0, 0), &file, 0).0, " caf\u{e9}/\u{4e16}\u{754c}.txt");
    assert_eq!(row(&display(8, 8, 0, 0), &file, 0).0, "..\u{4e16}\u{754c}.txt");
}

#[test]
fn ruler_labels_every_fifth_column() {
    let file = document(None, "hello world\nsecond\nthird line here\n");
    assert_eq!(
        row(&display(31, 9, 14, 2), &file, 1),
        pair("      5    10   15   20   25   ", "nnnnnnnnnnnnnnnnCCCCCnnnnnnnnnn")
    );
}

#[test]
fn ruler_marks_only_the_label_at_the_cursors_column() {
    let file = document(None, "hello world\nsecond\nthird line here\n");
    assert_eq!(
        row(&display(31, 9, 13, 2), &file, 1),
        pair("       5    10   15   20   25  ", "nnnnnnnnnnnnnnnnnnnnnnnnnnnnnnn")
    );
    assert_eq!(
        row(&display(31, 9, 4, 2), &file, 1),
        pair("                5    10   15   ", "nnnnnnnnnnnnnnnnCCCCCnnnnnnnnnn")
    );
}

#[test]
fn ruler_hides_a_label_cut_by_the_right_edge() {
    let file = document(None, "hello world\nsecond\nthird line here\n");
    assert_eq!(
        row(&display(20, 8, 0, 0), &file, 1),
        pair("              5     ", "nnnnnnnnnnnnnnnnnnnn")
    );
}

#[test]
fn ruler_hides_a_label_cut_by_the_left_edge() {
    let file = document(None, &"x".repeat(20));
    assert_eq!(row(&display(11, 5, 15, 0), &file, 1), pair("     15    ", "nnnnnnnnnnn"));
    assert_eq!(row(&display(11, 5, 14, 0), &file, 1), pair(" 10   15   ", "nnnnnnCCCCC"));
}

#[test]
fn code_rows_at_the_start_of_a_document() {
    let file = document(Some("notes.txt"), "hello world\nsecond\nthird line here\n");
    let display = display(20, 8, 0, 0);
    assert_eq!(row(&display, &file, 2), pair("                    ", "r..................."));
    assert_eq!(row(&display, &file, 3), pair("                    ", "r..................."));
    assert_eq!(row(&display, &file, 4), pair("1         hello worl", "R.........Xccccccccc"));
    assert_eq!(row(&display, &file, 5), pair("2         second    ", "r.........cccccc...."));
}

#[test]
fn code_rows_past_the_end_of_a_document() {
    let file = document(None, "hello world\nsecond\nthird line here\n");
    let display = display(31, 9, 14, 2);
    assert_eq!(
        row(&display, &file, 2),
        pair("1 hello world                  ", "r.ccccccccccc..................")
    );
    assert_eq!(
        row(&display, &file, 4),
        pair("3 third line here              ", "R.ccccccccccccccX..............")
    );
    assert_eq!(
        row(&display, &file, 5),
        pair("                               ", "r..............................")
    );
    assert_eq!(
        row(&display, &file, 6),
        pair("                               ", "r..............................")
    );
}

#[test]
fn cursor_past_the_end_of_its_line_has_a_cell_of_its_own() {
    let file = document(None, "ab");
    assert_eq!(row(&display(7, 5, 2, 0), &file, 2), pair("1 ab   ", "R.ccX.."));
    let file = document(None, "");
    assert_eq!(row(&display(7, 5, 0, 0), &file, 2), pair("1      ", "R...X.."));
}

#[test]
fn long_line_is_cut_at_both_edges() {
    let file = document(None, "abcdefghijklmnopqrstuvwxyz");
    assert_eq!(row(&display(7, 5, 13, 0), &file, 2), pair("1klmnop", "RcccXcc"));
    assert_eq!(row(&display(8, 5, 13, 0), &file, 2), pair("1klmnopq", "RcccXccc"));
}

#[test]
fn row_numbers_stand_at_the_right_of_the_gutter() {
    let file = numbered(12);
    let display = display(8, 8, 0, 9);
    assert_eq!(row(&display, &file, 2), pair(" 8   l8 ", "rr...cc."));
    assert_eq!(row(&display, &file, 3), pair(" 9   l9 ", "rr...cc."));
    assert_eq!(row(&display, &file, 4), pair("10   l10", "RR...Xcc"));
    assert_eq!(row(&display, &file, 5), pair("11   l11", "rr...ccc"));
}

#[test]
fn lines_show_characters_of_any_width() {
    let file = document(None, "h\u{e9}\u{4e16}lo");
    assert_eq!(row(&display(7, 5, 2, 0), &file, 2), pair("1 h\u{e9}\u{4e16}lo", "R.ccXcc"));
}

#[test]
fn status_takes_the_long_form_where_it_fits() {
    let file = document(None, "x");
    assert_eq!(
        row(&display(28, 8, 0, 0), &file, 6),
        pair("center(1, 1)  display(28, 8)", "bbbbbbbbbbbbbbbbbbbbbbbbbbbb")
    );
    assert_eq!(row(&display(30, 8, 0, 0), &file, 6).0, "center(1, 1)  display(30, 8)  ");
}

#[test]
fn status_takes_the_short_form_in_a_narrower_terminal() {
    let file = document(None, "x");
    assert_eq!(row(&display(27, 8, 0, 0), &file, 6).0, "center(1, 1)               ");
    assert_eq!(row(&display(12, 8, 0, 0), &file, 6), pair("center(1, 1)", "bbbbbbbbbbbb"));
}

#[test]
fn status_is_blank_in_a_terminal_narrower_than_the_short_form() {
    let file = document(None, "x");
    assert_eq!(row(&display(11, 8, 0, 0), &file, 6), pair("           ", "bbbbbbbbbbb"));
    assert_eq!(row(&display(0, 8, 0, 0), &file, 6), pair("", ""));
}

#[test]
fn status_counts_from_one_and_allows_for_the_digits() {
    let mut source = "short\n".repeat(99);
    source.push_str("0123456789");
    let file = document(None, &source);
    let wide = display(34, 8, 9, 99);
    assert_eq!(row(&wide, &file, 6).0, "center(10, 100)  display(34, 8)   ");
    assert_eq!(row(&display(31, 8, 9, 99), &file, 6).0, "center(10, 100)  display(31, 8)");
    assert_eq!(row(&display(30, 8, 9, 99), &file, 6).0, "center(10, 100)               ");
    assert_eq!(row(&display(15, 8, 9, 99), &file, 6).0, "center(10, 100)");
    assert_eq!(row(&display(14, 8, 9, 99), &file, 6).0, "              ");
}

#[test]
fn status_cells_are_those_of_the_status_row() {
    let file = document(None, "x");
    let display = display(40, 10, 0, 0);
    assert_eq!(display.status_cells(), display.row(&Cmd::new(), &file, 8));
}

#[test]
fn command_line_echoes_the_buffer() {
    let mut file = document(None, "x");
    let mut display = display(10, 8, 0, 0);
    let mut cmd = Cmd::new();
    for key in "t:one".chars() {
        cmd.key(key, &mut display, &mut file);
    }
    let cells = display.row(&cmd, &file, 7);
    assert_eq!((text(&cells), regions(&cells)), pair("t:one     ", "mmmmmmmmmm"));
    assert_eq!(text(&display.row(&Cmd::new(), &file, 7)), "          ");
}

#[test]
fn command_line_clips_a_long_echo_at_the_left() {
    let display = display(6, 8, 0, 0);
    assert_eq!(text(&display.command_cells("t:one_ligh")), "..ligh");
    assert_eq!(text(&display.command_cells("t:one_")), "t:one_");
    assert_eq!(text(&display.command_cells("t:one")), "t:one ");
}

#[test]
fn rows_of_a_terminal_too_low_for_text() {
    let file = document(Some("p"), "x");
    let display = display(12, 4, 0, 0);
    assert_eq!(row(&display, &file, 0), pair("           p", "pppppppppppp"));
    assert_eq!(row(&display, &file, 1), pair("          5 ", "nnnnnnnnnnnn"));
    assert_eq!(row(&display, &file, 2), pair("center(1, 1)", "bbbbbbbbbbbb"));
    assert_eq!(row(&display, &file, 3), pair("            ", "mmmmmmmmmmmm"));
    let display_of_three = {
        let mut d = display;
        d.resize(12, 3);
        d
    };
    assert_eq!(row(&display_of_three, &file, 2), pair("center(1, 1)", "bbbbbbbbbbbb"));
}

#[test]
fn rows_from_top_to_bottom() {
    let file = document(Some("notes.txt"), "hello world\nsecond\nthird line here\n");
    let display = display(20, 8, 0, 0);
    let kinds: Vec<char> =
        (0..8).map(|r| regions(&display.row(&Cmd::new(), &file, r)).chars().last().unwrap()).collect();
    assert_eq!(kinds, vec!['p', 'n', '.', '.', 'c', '.', 'b', 'm']);
}
