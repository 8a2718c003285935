use playlist_sync::theme::{default_base16_theme, hex, GlobalTheme, Rgb};
use std::sync::Arc;

#[test]
fn hex_splits_channels() {
    assert_eq!(hex(0x282828), Rgb { r: 0x28, g: 0x28, b: 0x28 });
    assert_eq!(hex(0xcc241d), Rgb { r: 0xcc, g: 0x24, b: 0x1d });
    assert_eq!(hex(0x000000), Rgb { r: 0, g: 0, b: 0 });
    assert_eq!(hex(0xffffff), Rgb { r: 255, g: 255, b: 255 });
}

#[test]
fn hex_ignores_top_byte() {
    assert_eq!(hex(0xff123456), hex(0x123456));
    assert_eq!(hex(0x01abcdef), Rgb { r: 0xab, g: 0xcd, b: 0xef });
}

#[test]
fn hex_channels_rebuild_code() {
    for c in [0x9d0006u32, 0x458588, 0xfbf1c7, 0x7f00ff01] {
        let rgb = hex(c);
        let rebuilt = (rgb.r as u32) * 65536 + (rgb.g as u32) * 256 + rgb.b as u32;
        assert_eq!(rebuilt, c % 0x1000000);
    }
}

#[test]
fn hex_float_form_matches_channels() {
    let rgb = hex(0xd65d0e);
    let r = rgb.r as f32 / 255.0;
    assert!((r - 214.0 / 255.0).abs() < 1e-6);
}

#[test]
fn default_theme_is_gruvbox_dark() {
    let theme = default_base16_theme();
    assert_eq!(theme.base00, Rgb { r: 0x28, g: 0x28, b: 0x28 });
    assert_eq!(theme.base05, hex(0xebdbb2));
    assert_eq!(theme.base08, Rgb { r: 0xcc, g: 0x24, b: 0x1d });
    assert_eq!(theme.base15, Rgb { r: 0x9d, g: 0x00, b: 0x06 });
}

#[test]
fn global_theme_derefs_to_shared_theme() {
    let global = GlobalTheme(Arc::new(default_base16_theme()));
    let shared: &Arc<_> = &global;
    assert_eq!(shared.base13, hex(0x458588));
}
