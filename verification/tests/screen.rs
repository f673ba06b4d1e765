use rschip8::screen::{frame_text, lit_cells, FRAME_HEIGHT, FRAME_WIDTH};

#[test]
fn frame_of_a_blank_display() {
    let text: String = frame_text(&[false; 2048]).into_iter().collect();
    let lines: Vec<&str> = text.split("\n\r").collect();
    assert_eq!(lines.len(), FRAME_HEIGHT + 1);
    assert_eq!(lines[FRAME_HEIGHT], "");
    let border = "#".repeat(FRAME_WIDTH);
    let blank = format!("##{}##", " ".repeat(128));
    assert_eq!(lines[0], border);
    assert_eq!(lines[33], border);
    for line in 1..33 {
        assert_eq!(lines[line], blank);
    }
}

#[test]
fn frame_shows_a_lit_cell_as_two_blocks() {
    let mut display = [false; 2048];
    display[0] = true;
    display[64 + 3] = true;
    display[2047] = true;
    let text: String = frame_text(&display).into_iter().collect();
    let lines: Vec<&str> = text.split("\n\r").collect();
    assert_eq!(lines[1], format!("##\u{2588}\u{2588}{}##", " ".repeat(126)));
    assert_eq!(lines[2], format!("##{}\u{2588}\u{2588}{}##", " ".repeat(6), " ".repeat(120)));
    assert_eq!(lines[32], format!("##{}\u{2588}\u{2588}##", " ".repeat(126)));
    assert_eq!(lines[3], format!("##{}##", " ".repeat(128)));
}

#[test]
fn frame_has_its_fixed_size() {
    let text = frame_text(&[true; 2048]);
    assert_eq!(text.len(), FRAME_HEIGHT * (FRAME_WIDTH + 2));
    assert_eq!(text.iter().filter(|c| **c == '\u{2588}').count(), 2 * 2048);
    assert_eq!(text.iter().filter(|c| **c == '#').count(), 2 * 132 + 32 * 4);
}

#[test]
fn lit_cells_come_row_by_row() {
    let mut display = [false; 2048];
    display[64 + 3] = true;
    display[5] = true;
    display[2047] = true;
    display[64] = true;
    assert_eq!(lit_cells(&display), vec![(5, 0), (0, 1), (3, 1), (63, 31)]);
}

#[test]
fn lit_cells_of_blank_and_full_displays() {
    assert_eq!(lit_cells(&[false; 2048]), vec![]);
    let all = lit_cells(&[true; 2048]);
    assert_eq!(all.len(), 2048);
    assert_eq!(all[0], (0, 0));
    assert_eq!(all[64], (0, 1));
    assert_eq!(all[2047], (63, 31));
}
