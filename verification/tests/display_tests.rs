use chiprs::generate_display_string;

#[test]
fn test_generate_display_string() {
    let mut display = vec![false; 32 * 64];
    for row_idx in 0..32 {
        for col_idx in 0..64 {
            display[row_idx * 64 + col_idx] = match row_idx % 2 == 0 {
                false => match col_idx % 4 {
                    0 | 3 => true,
                    _ => false,
                },
                true => match col_idx % 4 {
                    1 | 3 => true,
                    _ => false,
                },
            }
        }
    }
    let display_str = generate_display_string(&display);
    println!("{display_str}");
}

#[test]
fn display_string_shape() {
    let display = vec![false; 2048];
    let text = generate_display_string(&display);
    // escape prefix, then 16 lines of 64 cells plus "\r\n"
    let prefix = "\x1b[?25l\x1b[H\x1b[48;5;232m\x1b[38;5;214m";
    assert!(text.starts_with(prefix));
    let body: Vec<char> = text.chars().skip(prefix.chars().count()).collect();
    assert_eq!(body.len(), 16 * 66);
    for line in 0..16 {
        for pos in 0..64 {
            assert_eq!(body[line * 66 + pos], ' ');
        }
        assert_eq!(body[line * 66 + 64], '\r');
        assert_eq!(body[line * 66 + 65], '\n');
    }
}

#[test]
fn display_string_half_blocks() {
    let mut display = vec![false; 2048];
    // cell (0, 0): both pixels on; cell (0, 1): top only; cell (0, 2): bottom only
    display[0] = true;
    display[64] = true;
    display[1] = true;
    display[64 + 2] = true;
    let text = generate_display_string(&display);
    let prefix = "\x1b[?25l\x1b[H\x1b[48;5;232m\x1b[38;5;214m";
    let body: Vec<char> = text.chars().skip(prefix.chars().count()).collect();
    assert_eq!(body[0], '\u{2588}');
    assert_eq!(body[1], '\u{2580}');
    assert_eq!(body[2], '\u{2584}');
    assert_eq!(body[3], ' ');
}
