use kakoune_scrollback::palette::{
    color_to_kak, idx_to_rgb, parse_kitty_colors, Color, DEFAULT_PALETTE,
};


#[test]
fn default_color_returns_none() {
    assert_eq!(color_to_kak(Color::Default, &DEFAULT_PALETTE), None);
}

#[test]
fn rgb_passthrough() {
    let result = color_to_kak(Color::Rgb { r: 0xFF, g: 0x00, b: 0xAB }, &DEFAULT_PALETTE);
    assert_eq!(result, Some("rgb:FF00AB".to_string()));
}

#[test]
fn indexed_standard_colors() {
    // Color 0 = black
    let result = color_to_kak(Color::Indexed { idx: 0 }, &DEFAULT_PALETTE);
    assert_eq!(result, Some("rgb:000000".to_string()));

    // Color 9 = bright red
    let result = color_to_kak(Color::Indexed { idx: 9 }, &DEFAULT_PALETTE);
    assert_eq!(result, Some("rgb:FF0000".to_string()));
}

#[test]
fn indexed_color_cube() {
    // Index 196 = 6x6x6 cube: r=5,g=0,b=0 => (255,0,0)
    let (r, g, b) = idx_to_rgb(196);
    assert_eq!((r, g, b), (255, 0, 0));

    // Index 16 = first cube color: r=0,g=0,b=0 => (0,0,0)
    let (r, g, b) = idx_to_rgb(16);
    assert_eq!((r, g, b), (0, 0, 0));

    // Index 231 = last cube color: r=5,g=5,b=5 => (255,255,255)
    let (r, g, b) = idx_to_rgb(231);
    assert_eq!((r, g, b), (255, 255, 255));

    // Index 21 = r=0,g=0,b=5 => (0,0,255)
    let (r, g, b) = idx_to_rgb(21);
    assert_eq!((r, g, b), (0, 0, 255));

    // Index 46 = r=0,g=5,b=0 => (0,255,0)
    let (r, g, b) = idx_to_rgb(46);
    assert_eq!((r, g, b), (0, 255, 0));
}

#[test]
fn indexed_grayscale() {
    // Index 232 = first grayscale: 8 + 10*0 = 8
    let (r, g, b) = idx_to_rgb(232);
    assert_eq!((r, g, b), (8, 8, 8));

    // Index 255 = last grayscale: 8 + 10*23 = 238
    let (r, g, b) = idx_to_rgb(255);
    assert_eq!((r, g, b), (238, 238, 238));
}

#[test]
fn indexed_color_to_kak() {
    let result = color_to_kak(Color::Indexed { idx: 196 }, &DEFAULT_PALETTE);
    assert_eq!(result, Some("rgb:FF0000".to_string()));
}



#[test]
fn standard_palette_representative_colors() {
    assert_eq!(
        color_to_kak(Color::Indexed { idx: 1 }, &DEFAULT_PALETTE),
        Some("rgb:CC0000".to_string())
    );
    assert_eq!(
        color_to_kak(Color::Indexed { idx: 4 }, &DEFAULT_PALETTE),
        Some("rgb:0000CC".to_string())
    );
    assert_eq!(
        color_to_kak(Color::Indexed { idx: 7 }, &DEFAULT_PALETTE),
        Some("rgb:CCCCCC".to_string())
    );
    assert_eq!(
        color_to_kak(Color::Indexed { idx: 15 }, &DEFAULT_PALETTE),
        Some("rgb:FFFFFF".to_string())
    );
}

#[test]
fn color_to_kak_with_grayscale_index() {
    assert_eq!(
        color_to_kak(Color::Indexed { idx: 232 }, &DEFAULT_PALETTE),
        Some("rgb:080808".to_string())
    );
    assert_eq!(
        color_to_kak(Color::Indexed { idx: 255 }, &DEFAULT_PALETTE),
        Some("rgb:EEEEEE".to_string())
    );
}

#[test]
fn idx_to_rgb_mid_cube_color() {
    let (r, g, b) = idx_to_rgb(67);
    assert_eq!((r, g, b), (95, 135, 175));
}


#[test]
fn parse_kitty_colors_full() {
    let output = "\
color0  #1a1b26
color1  #f7768e
color2  #9ece6a
color3  #e0af68
color4  #7aa2f7
color5  #bb9af7
color6  #7dcfff
color7  #a9b1d6
color8  #414868
color9  #f7768e
color10 #9ece6a
color11 #e0af68
color12 #7aa2f7
color13 #bb9af7
color14 #7dcfff
color15 #c0caf5
";
    let palette = parse_kitty_colors(output);
    // color0 = #1a1b26
    assert_eq!(palette[0], 0x1a);
    assert_eq!(palette[1], 0x1b);
    assert_eq!(palette[2], 0x26);
    // color15 = #c0caf5
    assert_eq!(palette[45], 0xc0);
    assert_eq!(palette[46], 0xca);
    assert_eq!(palette[47], 0xf5);
}

#[test]
fn parse_kitty_colors_partial() {
    // Only color1 is overridden; others stay at defaults
    let output = "color1 #aabbcc\n";
    let palette = parse_kitty_colors(output);
    assert_eq!(palette[3], 0xaa);
    assert_eq!(palette[4], 0xbb);
    assert_eq!(palette[5], 0xcc);
    // color0 stays at default
    assert_eq!(palette[0..3], DEFAULT_PALETTE[0..3]);
}

#[test]
fn parse_kitty_colors_empty() {
    let palette = parse_kitty_colors("");
    assert_eq!(palette, DEFAULT_PALETTE);
}

#[test]
fn parse_kitty_colors_ignores_non_color_lines() {
    let output = "\
background #1a1b26
foreground #c0caf5
cursor     #c0caf5
color0     #000000
";
    let palette = parse_kitty_colors(output);
    // Only color0 should be parsed
    assert_eq!(palette[0], 0x00);
    assert_eq!(palette[1], 0x00);
    assert_eq!(palette[2], 0x00);
    // Rest stays default
    assert_eq!(palette[3..], DEFAULT_PALETTE[3..]);
}

#[test]
fn parse_kitty_colors_ignores_high_indices() {
    let output = "color16 #112233\ncolor255 #aabbcc\n";
    let palette = parse_kitty_colors(output);
    assert_eq!(palette, DEFAULT_PALETTE);
}
