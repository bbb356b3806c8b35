use chamber::layout::cursor_cell;
use chamber::layout::lines_occupied;
use chamber::layout::scroll_offset;
use chamber::layout::steps_down;
use chamber::layout::steps_up;
use chamber::layout::width_occupied;
use chamber::width::char_columns;
use chamber::width::columns_of_chars;

fn narrow(count: usize) -> Vec<u8> {
    vec![1; count]
}

fn wide(count: usize) -> Vec<u8> {
    vec![2; count]
}

#[test]
fn characters_have_their_columns() {
    assert_eq!(char_columns('a'), 1);
    assert_eq!(char_columns(' '), 1);
    assert_eq!(char_columns('啊'), 2);
    assert_eq!(char_columns('十'), 2);
    assert_eq!(char_columns('Ｈ'), 2);
    assert_eq!(char_columns('\n'), 0);
    assert_eq!(char_columns('\u{0}'), 0);
    assert_eq!(char_columns('\u{7f}'), 0);
    assert_eq!(char_columns('\u{301}'), 0);
    assert_eq!(char_columns('\u{17d8}'), 3);
}

#[test]
fn a_text_has_the_columns_of_its_characters() {
    assert_eq!(columns_of_chars(&['a', '啊', '\n', 'b']), vec![1, 2, 0, 1]);
    assert_eq!(columns_of_chars(&[]), Vec::<u8>::new());
}

#[test]
fn a_wide_character_at_the_end_of_a_line_leaves_a_column_empty() {
    // "123456789十" in a block of ten columns
    let mut widths = narrow(9);
    widths.push(2);
    assert_eq!(width_occupied(&widths, 10), 12);
}

#[test]
fn text_that_fits_takes_its_own_width() {
    assert_eq!(width_occupied(&[], 10), 0);
    assert_eq!(width_occupied(&narrow(7), 10), 7);
    assert_eq!(width_occupied(&narrow(10), 10), 10);
    assert_eq!(width_occupied(&narrow(25), 10), 25);
    let mut widths = narrow(8);
    widths.extend(wide(2));
    assert_eq!(width_occupied(&widths, 10), 12);
}

#[test]
fn narrow_blocks_leave_columns_empty() {
    assert_eq!(width_occupied(&[1, 1, 2], 3), 5);
    assert_eq!(width_occupied(&[2, 2, 2], 3), 8);
    assert_eq!(width_occupied(&[1, 2, 2], 3), 5);
}

#[test]
fn a_message_takes_the_lines_it_touches() {
    assert_eq!(lines_occupied(&[], 10), 0);
    assert_eq!(lines_occupied(&narrow(8), 10), 1);
    assert_eq!(lines_occupied(&narrow(10), 10), 1);
    assert_eq!(lines_occupied(&narrow(11), 10), 2);
    assert_eq!(lines_occupied(&narrow(25), 10), 3);
    let mut widths = narrow(9);
    widths.push(2);
    assert_eq!(lines_occupied(&widths, 10), 2);
    assert_eq!(lines_occupied(&[2], 1), 1);
    assert_eq!(lines_occupied(&[0], 10), 0);
}

#[test]
fn the_way_up_is_one_line_of_columns() {
    assert_eq!(steps_up(&[], 0, 10), Some(0));
    assert_eq!(steps_up(&narrow(3), 3, 10), Some(3));
    assert_eq!(steps_up(&narrow(10), 10, 10), Some(10));
    assert_eq!(steps_up(&narrow(13), 13, 10), Some(10));
    assert_eq!(steps_up(&narrow(26), 26, 10), Some(10));
}

#[test]
fn the_way_up_counts_the_empty_columns() {
    assert_eq!(steps_up(&[1, 2, 2], 5, 3), Some(2));
    assert_eq!(steps_up(&[1, 1, 2], 4, 3), Some(1));
    assert_eq!(steps_up(&[1, 1, 2, 1], 5, 3), Some(2));
    assert_eq!(steps_up(&wide(5), 10, 5), Some(3));
    assert_eq!(steps_up(&wide(8), 16, 5), Some(2));
}

#[test]
fn the_way_up_cannot_be_told_past_the_text() {
    // a text whose width as a whole is less than that of its characters
    assert_eq!(steps_up(&[2, 0, 2, 0, 2], 2, 10), None);
    assert_eq!(steps_up(&[1, 1], 0, 10), None);
    assert_eq!(steps_up(&[1], 0, 10), Some(1));
}

#[test]
fn the_way_down_is_one_line_of_columns() {
    assert_eq!(steps_down(&[], 0, 10), 0);
    assert_eq!(steps_down(&narrow(26), 0, 10), 10);
    assert_eq!(steps_down(&narrow(13), 13, 10), 10);
    assert_eq!(steps_down(&narrow(4), 3, 10), 4);
}

#[test]
fn the_way_down_counts_the_empty_columns() {
    assert_eq!(steps_down(&[1, 2, 2], 0, 3), 2);
    assert_eq!(steps_down(&[2, 2], 1, 3), 2);
    assert_eq!(steps_down(&[1, 1, 2, 1], 0, 3), 3);
    assert_eq!(steps_down(&[2, 1], 2, 3), 1);
    assert_eq!(steps_down(&wide(8), 0, 5), 3);
    assert_eq!(steps_down(&wide(6), 4, 5), 2);
    assert_eq!(steps_down(&wide(3), 12, 5), 2);
}

#[test]
fn the_list_scrolls_to_its_last_line() {
    assert_eq!(scroll_offset(0, 12), 0);
    assert_eq!(scroll_offset(5, 12), 0);
    assert_eq!(scroll_offset(10, 12), 0);
    assert_eq!(scroll_offset(11, 12), 1);
    assert_eq!(scroll_offset(30, 12), 20);
    assert_eq!(scroll_offset(30, 2), 30);
    assert_eq!(scroll_offset(65535, 3), 65534);
}

#[test]
fn the_number_of_lines_is_cut_to_a_screen_coordinate() {
    assert_eq!(scroll_offset(65536, 12), 0);
    assert_eq!(scroll_offset(65536 + 30, 12), 20);
}

#[test]
fn the_cursor_stands_behind_the_text() {
    assert_eq!(cursor_cell(0, 20, 0, 10), Some((1, 21)));
    assert_eq!(cursor_cell(0, 20, 7, 10), Some((8, 21)));
    assert_eq!(cursor_cell(0, 20, 12, 10), Some((3, 22)));
    assert_eq!(cursor_cell(5, 3, 10, 10), Some((6, 5)));
    assert_eq!(cursor_cell(5, 3, 39, 10), Some((15, 7)));
}

#[test]
fn a_cursor_off_the_screen_has_no_cell() {
    assert_eq!(cursor_cell(65530, 0, 3, 10), Some((65534, 1)));
    assert_eq!(cursor_cell(65530, 0, 4, 10), Some((65535, 1)));
    assert_eq!(cursor_cell(65530, 0, 5, 10), None);
    assert_eq!(cursor_cell(0, 65534, 0, 10), Some((1, 65535)));
    assert_eq!(cursor_cell(0, 65534, 10, 10), None);
    assert_eq!(cursor_cell(0, 65535, 0, 10), None);
}
