use slopos_shell::lock_geometry::{bitmap_text_width, centered_bitmap_text_x, BITMAP_GLYPH_ADVANCE};

#[test]
fn bitmap_text_measurement_uses_rendered_character_advances() {
    assert_eq!(
        bitmap_text_width("Enter password:"),
        15 * BITMAP_GLYPH_ADVANCE
    );
    assert_eq!(bitmap_text_width("日本語"), 3 * BITMAP_GLYPH_ADVANCE);
}

#[test]
fn bitmap_text_centering_uses_character_width_not_utf8_bytes() {
    let width = 800;
    assert_eq!(
        centered_bitmap_text_x(width, "Enter password:"),
        (width - 15 * BITMAP_GLYPH_ADVANCE) / 2
    );
    assert_eq!(
        centered_bitmap_text_x(width, "日本語"),
        (width - 3 * BITMAP_GLYPH_ADVANCE) / 2
    );
}

#[test]
fn text_wider_than_the_screen_starts_at_the_left_edge() {
    assert_eq!(centered_bitmap_text_x(16, "abc"), 0);
    assert_eq!(centered_bitmap_text_x(24, "abc"), 0);
    assert_eq!(centered_bitmap_text_x(26, "abc"), 1);
    assert_eq!(bitmap_text_width(""), 0);
}
