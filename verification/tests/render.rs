use eca1d::TermColor;
use eca1d::TermImage;

#[test]
fn test_draw_ascii() {
    let data = vec![vec![0, 1, 0, 1, 0]];
    let image = TermImage::new(data);
    assert_eq!(".#.#.\n", image.draw_ascii());
}

#[test]
fn test_draw_half_block_symbol() {
    let mut data = Vec::new();
    data.push(vec![1]);
    data.push(vec![0]);
    let image = TermImage::new(data);
    assert_eq!(
        format!(
            "{}{}\u{2584}{}\n",
            TermColor::White.to_bg(),
            TermColor::Black.to_fg(),
            TermColor::Reset.to_fg()
        ),
        image.draw_unicode(TermColor::White, TermColor::Black)
    );
}

#[test]
fn test_draw_braille_symbol() {
    let mut data = Vec::new();
    data.push(vec![1, 0]);
    data.push(vec![1, 1]);
    data.push(vec![0, 0]);
    data.push(vec![0, 1]);
    let image = TermImage::new(data);
    assert_eq!(
        format!(
            "{}{}\u{2893}\n{}",
            TermColor::White.to_fg(),
            TermColor::Black.to_bg(),
            TermColor::Reset.to_fg()
        ),
        image.draw_braille(TermColor::White, TermColor::Black)
    );
}

#[test]
fn ascii_renders_each_row_on_its_own_line() {
    let image = TermImage::new(vec![vec![1, 0], vec![0, 1]]);
    assert_eq!("#.\n.#\n", image.draw_ascii());
}

#[test]
fn ascii_of_an_empty_matrix_is_empty() {
    let image = TermImage::new(Vec::new());
    assert_eq!("", image.draw_ascii());
}

#[test]
fn half_block_drops_the_unpaired_final_row() {
    let odd = TermImage::new(vec![vec![1, 0], vec![0, 1], vec![1, 1]]);
    let even = TermImage::new(vec![vec![1, 0], vec![0, 1]]);
    assert_eq!(
        even.draw_unicode(TermColor::White, TermColor::Black),
        odd.draw_unicode(TermColor::White, TermColor::Black)
    );
}

#[test]
fn half_block_of_fewer_than_two_rows_is_empty() {
    let one = TermImage::new(vec![vec![1, 1, 1]]);
    assert_eq!("", one.draw_unicode(TermColor::White, TermColor::Black));
    let none = TermImage::new(Vec::new());
    assert_eq!("", none.draw_unicode(TermColor::White, TermColor::Black));
}

#[test]
fn half_block_stops_at_the_shorter_row_of_a_pair() {
    let ragged = TermImage::new(vec![vec![1, 1], vec![0]]);
    assert_eq!(
        format!(
            "{}{}\u{2584}{}\n",
            TermColor::White.to_bg(),
            TermColor::Black.to_fg(),
            TermColor::Reset.to_fg()
        ),
        ragged.draw_unicode(TermColor::White, TermColor::Black)
    );
}

#[test]
fn braille_drops_an_incomplete_final_band() {
    let five = TermImage::new(vec![
        vec![1, 0],
        vec![1, 1],
        vec![0, 0],
        vec![0, 1],
        vec![1, 1],
    ]);
    let four = TermImage::new(vec![vec![1, 0], vec![1, 1], vec![0, 0], vec![0, 1]]);
    assert_eq!(
        four.draw_braille(TermColor::Green, TermColor::Blue),
        five.draw_braille(TermColor::Green, TermColor::Blue)
    );
}

#[test]
fn braille_drops_an_unpaired_final_column() {
    let three_wide = TermImage::new(vec![
        vec![1, 0, 1],
        vec![1, 1, 0],
        vec![0, 0, 1],
        vec![0, 1, 1],
    ]);
    let two_wide = TermImage::new(vec![vec![1, 0], vec![1, 1], vec![0, 0], vec![0, 1]]);
    assert_eq!(
        two_wide.draw_braille(TermColor::White, TermColor::Black),
        three_wide.draw_braille(TermColor::White, TermColor::Black)
    );
}

#[test]
fn braille_of_fewer_than_four_rows_is_just_the_escapes() {
    let image = TermImage::new(vec![vec![1, 1], vec![1, 1], vec![1, 1]]);
    assert_eq!(
        format!(
            "{}{}{}",
            TermColor::Cyan.to_fg(),
            TermColor::Magenta.to_bg(),
            TermColor::Reset.to_fg()
        ),
        image.draw_braille(TermColor::Cyan, TermColor::Magenta)
    );
}

#[test]
fn braille_all_dots_give_the_full_glyph() {
    let image = TermImage::new(vec![vec![1, 1], vec![1, 1], vec![1, 1], vec![1, 1]]);
    assert_eq!(
        format!(
            "{}{}\u{28ff}\n{}",
            TermColor::White.to_fg(),
            TermColor::Black.to_bg(),
            TermColor::Reset.to_fg()
        ),
        image.draw_braille(TermColor::White, TermColor::Black)
    );
}

#[test]
fn foreground_escapes_name_the_ansi_colors() {
    assert_eq!("\u{1b}[30m", TermColor::Black.to_fg());
    assert_eq!("\u{1b}[31m", TermColor::Red.to_fg());
    assert_eq!("\u{1b}[32m", TermColor::Green.to_fg());
    assert_eq!("\u{1b}[33m", TermColor::Yellow.to_fg());
    assert_eq!("\u{1b}[34m", TermColor::Blue.to_fg());
    assert_eq!("\u{1b}[35m", TermColor::Magenta.to_fg());
    assert_eq!("\u{1b}[36m", TermColor::Cyan.to_fg());
    assert_eq!("\u{1b}[37m", TermColor::White.to_fg());
    assert_eq!("\u{1b}[0m", TermColor::Reset.to_fg());
}

#[test]
fn background_escapes_name_the_ansi_colors() {
    assert_eq!("\u{1b}[40m", TermColor::Black.to_bg());
    assert_eq!("\u{1b}[41m", TermColor::Red.to_bg());
    assert_eq!("\u{1b}[42m", TermColor::Green.to_bg());
    assert_eq!("\u{1b}[43m", TermColor::Yellow.to_bg());
    assert_eq!("\u{1b}[44m", TermColor::Blue.to_bg());
    assert_eq!("\u{1b}[45m", TermColor::Magenta.to_bg());
    assert_eq!("\u{1b}[46m", TermColor::Cyan.to_bg());
    assert_eq!("\u{1b}[47m", TermColor::White.to_bg());
    assert_eq!("\u{1b}[0m", TermColor::Reset.to_bg());
}

#[test]
fn rendering_a_run_of_rule_90_gives_the_expected_triangle() {
    let mut ca = eca1d::Ca::new(vec![0, 0, 0, 1, 0, 0, 0], 90);
    let image = TermImage::new(ca.run(3));
    assert_eq!("...#...\n..#.#..\n.#...#.\n", image.draw_ascii());
}
