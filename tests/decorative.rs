use maestro::decorative::{is_block_element, is_box_drawing, is_decorative_character, is_powerline_symbol};

#[test]
fn test_powerline_triangle_is_decorative() {
    // U+E0B0 - Powerline right-pointing triangle
    assert!(is_decorative_character('\u{E0B0}'));
}

#[test]
fn test_powerline_arrow_is_decorative() {
    // U+E0B1 - Powerline right-pointing arrow
    assert!(is_decorative_character('\u{E0B1}'));
}

#[test]
fn test_box_drawing_horizontal_is_decorative() {
    // U+2500 - Box drawing light horizontal
    assert!(is_decorative_character('\u{2500}'));
}

#[test]
fn test_box_drawing_vertical_is_decorative() {
    // U+2502 - Box drawing light vertical
    assert!(is_decorative_character('\u{2502}'));
}

#[test]
fn test_box_drawing_corner_is_decorative() {
    // U+250C - Box drawing light down and right (corner)
    assert!(is_decorative_character('\u{250C}'));
}

#[test]
fn test_block_full_is_decorative() {
    // U+2588 - Full block
    assert!(is_decorative_character('\u{2588}'));
}

#[test]
fn test_block_half_is_decorative() {
    // U+2580 - Upper half block
    assert!(is_decorative_character('\u{2580}'));
    // U+2584 - Lower half block
    assert!(is_decorative_character('\u{2584}'));
}

#[test]
fn test_geometric_square_is_decorative() {
    // U+25A0 - Black square
    assert!(is_decorative_character('\u{25A0}'));
}

#[test]
fn test_regular_ascii_not_decorative() {
    assert!(!is_decorative_character('A'));
    assert!(!is_decorative_character('z'));
    assert!(!is_decorative_character('0'));
    assert!(!is_decorative_character(' '));
    assert!(!is_decorative_character('!'));
}

#[test]
fn test_emoji_not_decorative() {
    // Common emoji are not in our decorative ranges
    assert!(!is_decorative_character('😀')); // U+1F600
    assert!(!is_decorative_character('🎉')); // U+1F389
}

#[test]
fn test_cjk_not_decorative() {
    // CJK characters should not be considered decorative
    assert!(!is_decorative_character('中'));
    assert!(!is_decorative_character('日'));
}

#[test]
fn test_is_powerline_symbol() {
    assert!(is_powerline_symbol('\u{E0B0}'));
    assert!(is_powerline_symbol('\u{E0B1}'));
    assert!(is_powerline_symbol('\u{E0B2}'));
    assert!(is_powerline_symbol('\u{E0B3}'));
    assert!(!is_powerline_symbol('A'));
    assert!(!is_powerline_symbol('\u{2500}')); // Box drawing is not powerline
}

#[test]
fn test_is_box_drawing() {
    assert!(is_box_drawing('\u{2500}')); // Horizontal
    assert!(is_box_drawing('\u{2502}')); // Vertical
    assert!(is_box_drawing('\u{250C}')); // Top-left corner
    assert!(is_box_drawing('\u{2510}')); // Top-right corner
    assert!(is_box_drawing('\u{2514}')); // Bottom-left corner
    assert!(is_box_drawing('\u{2518}')); // Bottom-right corner
    assert!(!is_box_drawing('A'));
    assert!(!is_box_drawing('\u{E0B0}')); // Powerline is not box drawing
}

#[test]
fn test_is_block_element() {
    assert!(is_block_element('\u{2580}')); // Upper half
    assert!(is_block_element('\u{2584}')); // Lower half
    assert!(is_block_element('\u{2588}')); // Full block
    assert!(is_block_element('\u{2591}')); // Light shade
    assert!(is_block_element('\u{2592}')); // Medium shade
    assert!(is_block_element('\u{2593}')); // Dark shade
    assert!(!is_block_element('A'));
}

#[test]
fn test_braille_is_decorative() {
    // Braille patterns are often used for terminal graphics
    assert!(is_decorative_character('\u{2800}')); // Braille blank
    assert!(is_decorative_character('\u{28FF}')); // All dots
}

#[test]
fn test_dingbats_is_decorative() {
    // Dingbats used in terminal prompts
    assert!(is_decorative_character('\u{2714}')); // Check mark
    assert!(is_decorative_character('\u{2718}')); // X mark
}

#[test]
fn decorative_range_edges() {
    assert!(is_decorative_character('\u{257F}'));
    assert!(is_decorative_character('\u{25FF}'));
    assert!(is_decorative_character('\u{E0D7}'));
    assert!(!is_decorative_character('\u{E0D8}'));
    assert!(!is_decorative_character('\u{24FF}'));
    assert!(is_decorative_character('\u{27BF}'));
    assert!(!is_decorative_character('\u{27C0}'));
    assert!(!is_powerline_symbol('\u{E0AF}'));
    assert!(is_powerline_symbol('\u{E0D7}'));
    assert!(!is_box_drawing('\u{2580}'));
    assert!(!is_block_element('\u{25A0}'));
}
