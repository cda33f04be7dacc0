use vga_writer::color::{Color, ColorCode};

fn palette() -> Vec<Color> {
    vec![
        Color::Black,
        Color::Blue,
        Color::Green,
        Color::Cyan,
        Color::Red,
        Color::Magenta,
        Color::Brown,
        Color::Gray,
        Color::DarkGray,
        Color::BrightBlue,
        Color::BrightGreen,
        Color::BrightCyan,
        Color::BrightRed,
        Color::BrightMagenta,
        Color::Yellow,
        Color::White,
    ]
}

#[test]
fn codes_follow_the_palette_order() {
    let colors = palette();
    assert_eq!(colors.len(), 16);
    for (index, color) in colors.iter().enumerate() {
        assert_eq!(color.code() as usize, index);
    }
}

#[test]
fn named_codes() {
    assert_eq!(Color::Black.code(), 0x0);
    assert_eq!(Color::Green.code(), 0x2);
    assert_eq!(Color::Gray.code(), 0x7);
    assert_eq!(Color::DarkGray.code(), 0x8);
    assert_eq!(Color::Yellow.code(), 0xE);
    assert_eq!(Color::White.code(), 0xF);
}

#[test]
fn every_pair_packs_background_high_and_foreground_low() {
    let colors = palette();
    let mut seen = vec![false; 256];
    for background in colors.iter() {
        for foreground in colors.iter() {
            let byte = ColorCode::new(*foreground, *background).to_byte();
            assert_eq!(byte, (background.code() << 4) | foreground.code());
            assert_eq!(byte >> 4, background.code());
            assert_eq!(byte & 0x0f, foreground.code());
            assert!(!seen[byte as usize]);
            seen[byte as usize] = true;
        }
    }
    assert!(seen.iter().all(|used| *used));
}

#[test]
fn exact_attribute_bytes() {
    assert_eq!(ColorCode::new(Color::White, Color::Blue).to_byte(), 0x1F);
    assert_eq!(ColorCode::new(Color::Yellow, Color::Red).to_byte(), 0x4E);
    assert_eq!(ColorCode::new(Color::Black, Color::Black).to_byte(), 0x00);
    assert_eq!(ColorCode::new(Color::White, Color::White).to_byte(), 0xFF);
    assert_eq!(ColorCode::new(Color::Black, Color::White).to_byte(), 0xF0);
}

#[test]
fn default_is_green_on_black() {
    assert_eq!(ColorCode::default().to_byte(), 0x02);
    assert_eq!(ColorCode::default(), ColorCode::new(Color::Green, Color::Black));
}
