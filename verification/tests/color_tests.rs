use klogrs::utils::color::{Color, ColorGenerator, PALETTE_LEN};

#[test]
fn test_next_color() {
    let mut generator = ColorGenerator::new();

    // Check that colors cycle
    let first_color = generator.next_color();

    // Get all remaining colors
    for _ in 1..generator.palette_len() {
        generator.next_color();
    }

    // Check that we're back to the first color
    let next_color = generator.next_color();
    assert_eq!(first_color, next_color);
}

#[test]
fn test_color_for_string() {
    let generator = ColorGenerator::new();

    // Same string should get same color
    let color1 = generator.color_for_string("test");
    let color2 = generator.color_for_string("test");
    assert_eq!(color1, color2);

    // Different strings likely get different colors
    // (not guaranteed due to hash collisions, but very likely)
    let color1 = generator.color_for_string("test1");
    let color2 = generator.color_for_string("test2");
    // We don't assert inequality here because hash collisions are possible
    assert_ne!(color1, color2);
}

#[test]
fn colours_come_in_the_order_of_the_palette() {
    let mut generator = ColorGenerator::new();
    assert_eq!(PALETTE_LEN, 7);
    assert_eq!(generator.palette_len(), 7);
    let expected = [
        Color::Red,
        Color::Green,
        Color::Blue,
        Color::Cyan,
        Color::Magenta,
        Color::Yellow,
        Color::White,
        Color::Red,
        Color::Green,
    ];
    for color in expected {
        assert_eq!(generator.next_color(), color);
    }
}

#[test]
fn colour_for_a_hash() {
    let generator = ColorGenerator::new();
    assert_eq!(generator.color_for_hash(0), Color::Red);
    assert_eq!(generator.color_for_hash(6), Color::White);
    assert_eq!(generator.color_for_hash(7), Color::Red);
    assert_eq!(generator.color_for_hash(u64::MAX), Color::Green);
    // asking for the colour of a text leaves the turn of the colours alone
    let mut turn = ColorGenerator::new();
    turn.color_for_string("anything");
    assert_eq!(turn.next_color(), Color::Red);
}
