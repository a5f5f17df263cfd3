use rats::video::buffer::{Buffer, ATTR_DIM, ATTR_NONE, ATTR_REVERSE};

#[test]
fn new_buffer_is_blank() {
    let buffer = Buffer::new(3, 4);
    assert_eq!(buffer.rows, 3);
    assert_eq!(buffer.cols, 4);
    assert_eq!(buffer.characters, vec![b' '; 12]);
    assert_eq!(buffer.attributes, vec![ATTR_NONE; 12]);
}

#[test]
fn empty_buffer_reads_zero_everywhere() {
    let buffer = Buffer::new(0, 0);
    assert_eq!(buffer.get_char(0, 0), 0);
    assert_eq!(buffer.get_chattr(0, 0), (0, 0));
}

#[test]
fn cells_are_written_and_read_back() {
    let mut buffer = Buffer::new(3, 4);
    buffer.set_char(1, 2, b'x');
    buffer.set_attr(1, 2, ATTR_REVERSE);
    assert_eq!(buffer.get_char(1, 2), b'x');
    assert_eq!(buffer.get_attr(1, 2), ATTR_REVERSE);
    assert_eq!(buffer.get_chattr(1, 2), (b'x', ATTR_REVERSE));
    assert_eq!(buffer.characters[6], b'x');
    assert_eq!(buffer.get_char(2, 1), b' ');
    buffer.set_chattr(2, 3, b'y', ATTR_DIM);
    assert_eq!(buffer.get_chattr(2, 3), (b'y', ATTR_DIM));
    assert_eq!(buffer.characters[11], b'y');
}

#[test]
fn set_attr_keeps_the_meaningful_bits() {
    let mut buffer = Buffer::new(2, 2);
    buffer.set_attr(0, 0, 0xff);
    assert_eq!(buffer.get_attr(0, 0), 0x03);
    buffer.set_attr(0, 1, 0xfc);
    assert_eq!(buffer.get_attr(0, 1), 0x00);
}

#[test]
fn writes_outside_the_grid_are_dropped() {
    let mut buffer = Buffer::new(2, 2);
    buffer.set_char(2, 0, b'x');
    buffer.set_char(0, 2, b'x');
    buffer.set_attr(5, 5, ATTR_DIM);
    buffer.set_chattr(2, 2, b'x', ATTR_DIM);
    buffer.set_quad(2, 0, b'a', ATTR_DIM);
    assert_eq!(buffer.characters, vec![b' '; 4]);
    assert_eq!(buffer.attributes, vec![0; 4]);
    assert_eq!(buffer.get_char(2, 0), 0);
    assert_eq!(buffer.get_attr(0, 2), 0);
    assert_eq!(buffer.get_chattr(9, 9), (0, 0));
}

#[test]
fn set_quad_writes_four_glyphs() {
    let mut buffer = Buffer::new(4, 5);
    buffer.set_quad(1, 2, 0xa0, ATTR_DIM);
    assert_eq!(buffer.get_chattr(1, 2), (0xa0, ATTR_DIM));
    assert_eq!(buffer.get_chattr(1, 3), (0xa1, ATTR_DIM));
    assert_eq!(buffer.get_chattr(2, 2), (0xa2, ATTR_DIM));
    assert_eq!(buffer.get_chattr(2, 3), (0xa3, ATTR_DIM));
    assert_eq!(buffer.get_chattr(1, 1), (b' ', ATTR_NONE));
}

#[test]
fn set_quad_wraps_round_the_corner() {
    let mut buffer = Buffer::new(4, 5);
    buffer.set_quad(3, 4, 0x10, ATTR_NONE);
    assert_eq!(buffer.get_char(3, 4), 0x10);
    assert_eq!(buffer.get_char(3, 0), 0x11);
    assert_eq!(buffer.get_char(0, 4), 0x12);
    assert_eq!(buffer.get_char(0, 0), 0x13);
}

#[test]
fn clear_blanks_every_cell() {
    let mut buffer = Buffer::new(2, 3);
    buffer.set_chattr(0, 0, b'x', ATTR_DIM);
    buffer.set_chattr(1, 2, b'y', ATTR_REVERSE);
    buffer.clear();
    assert_eq!(buffer.characters, vec![b' '; 6]);
    assert_eq!(buffer.attributes, vec![0; 6]);
}

#[test]
fn swap_exchanges_the_contents() {
    let mut a = Buffer::new(2, 2);
    let mut b = Buffer::new(2, 2);
    a.set_chattr(0, 0, b'a', ATTR_DIM);
    b.set_chattr(1, 1, b'b', ATTR_REVERSE);
    a.swap(&mut b);
    assert_eq!(a.get_chattr(1, 1), (b'b', ATTR_REVERSE));
    assert_eq!(a.get_chattr(0, 0), (b' ', ATTR_NONE));
    assert_eq!(b.get_chattr(0, 0), (b'a', ATTR_DIM));
}

#[test]
fn copy_to_copies_every_cell() {
    let mut a = Buffer::new(2, 2);
    let mut b = Buffer::new(2, 2);
    a.set_chattr(0, 1, b'a', ATTR_DIM);
    b.set_chattr(1, 1, b'b', ATTR_REVERSE);
    a.copy_to(&mut b);
    assert_eq!(b.characters, a.characters);
    assert_eq!(b.attributes, a.attributes);
    assert_eq!(b.get_chattr(0, 1), (b'a', ATTR_DIM));
    assert_eq!(b.get_chattr(1, 1), (b' ', ATTR_NONE));
}

#[test]
fn print_writes_a_text_and_drops_what_does_not_fit() {
    let mut buffer = Buffer::new(2, 6);
    buffer.print(1, 3, ATTR_REVERSE, "Score");
    assert_eq!(buffer.get_chattr(1, 3), (b'S', ATTR_REVERSE));
    assert_eq!(buffer.get_chattr(1, 4), (b'c', ATTR_REVERSE));
    assert_eq!(buffer.get_chattr(1, 5), (b'o', ATTR_REVERSE));
    assert_eq!(buffer.get_chattr(1, 2), (b' ', ATTR_NONE));
    assert_eq!(buffer.get_chattr(0, 0), (b' ', ATTR_NONE));
    buffer.print(0, 9, ATTR_DIM, "nothing");
    buffer.print(7, 0, ATTR_DIM, "nothing");
    assert_eq!(&buffer.characters[0..6], b"      ");
}

#[test]
fn print_takes_the_low_byte_of_a_character() {
    let mut buffer = Buffer::new(1, 4);
    buffer.print(0, 0, 0xff, "a\u{e9}\u{141}");
    assert_eq!(buffer.get_chattr(0, 0), (b'a', 0x03));
    assert_eq!(buffer.get_char(0, 1), 0xe9);
    assert_eq!(buffer.get_char(0, 2), 0x41);
    assert_eq!(buffer.get_char(0, 3), b' ');
}

#[test]
fn copy_buffer_copies_a_window_that_wraps() {
    let mut src = Buffer::new(3, 4);
    for row in 0..3u16 {
        for col in 0..4u16 {
            src.set_chattr(row, col, (row * 4 + col) as u8 + b'a', (col % 4) as u8);
        }
    }
    let mut dst = Buffer::new(4, 3);
    dst.set_chattr(0, 0, b'#', ATTR_DIM);
    src.copy_buffer(2, 3, &mut dst, 1);
    // the first row of the destination is kept
    assert_eq!(dst.get_chattr(0, 0), (b'#', ATTR_DIM));
    assert_eq!(dst.get_chattr(0, 1), (b' ', ATTR_NONE));
    // row 1 shows source row 2 from column 3 on, wrapping to column 0
    assert_eq!(dst.get_chattr(1, 0), (b'a' + 11, 3));
    assert_eq!(dst.get_chattr(1, 1), (b'a' + 8, 0));
    assert_eq!(dst.get_chattr(1, 2), (b'a' + 9, 1));
    // row 2 shows source row 0, row 3 source row 1
    assert_eq!(dst.get_chattr(2, 0), (b'a' + 3, 3));
    assert_eq!(dst.get_chattr(2, 1), (b'a', 0));
    assert_eq!(dst.get_chattr(3, 2), (b'a' + 5, 1));
}

#[test]
fn copy_buffer_reads_zeros_from_outside_the_source() {
    let mut src = Buffer::new(2, 2);
    src.set_char(0, 0, b'x');
    let mut dst = Buffer::new(2, 2);
    src.copy_buffer(5, 7, &mut dst, 0);
    // the start is outside: zeros, until it has wrapped to row 0 and column 0
    assert_eq!(dst.get_char(0, 0), 0);
    assert_eq!(dst.get_char(0, 1), 0);
    assert_eq!(dst.get_char(1, 0), 0);
    assert_eq!(dst.get_char(1, 1), b'x');
}
