use mso::theme::{human_bytes, format_uptime, format_compact_uptime, format_clock, parse_hex_color, init, init_with_colors, colors, Theme, Rgb};
use mso::config::ThemeConfig;

fn reference_human_bytes(bytes: u64) -> String {
    const KB: u64 = 1024;
    const MB: u64 = 1024 * KB;
    const GB: u64 = 1024 * MB;
    if bytes >= GB {
        format!("{:.1}GB", bytes as f64 / GB as f64)
    } else if bytes >= MB {
        format!("{:.0}MB", bytes as f64 / MB as f64)
    } else if bytes >= KB {
        format!("{:.0}KB", bytes as f64 / KB as f64)
    } else {
        format!("{}B", bytes)
    }
}

#[test]
fn human_bytes_examples() {
    assert_eq!(human_bytes(0), "0B");
    assert_eq!(human_bytes(1023), "1023B");
    assert_eq!(human_bytes(1024), "1KB");
    assert_eq!(human_bytes(1536), "2KB");
    assert_eq!(human_bytes(2560), "2KB");
    assert_eq!(human_bytes(5 * 1024 * 1024), "5MB");
    assert_eq!(human_bytes(3 * 1024 * 1024 * 1024 / 2), "1.5GB");
}

#[test]
fn human_bytes_agrees_with_float_formatting() {
    let mut samples: Vec<u64> = vec![u64::MAX, u64::MAX - 1, 1 << 63, (1 << 40) + 1];
    for k in 0..64u32 {
        let p = 1u64 << k;
        samples.extend([p, p - 1, p + p / 2, p.wrapping_mul(3) / 2 + 1]);
    }
    let mut x: u64 = 0x9e3779b97f4a7c15;
    for _ in 0..20000 {
        x ^= x << 13;
        x ^= x >> 7;
        x ^= x << 17;
        samples.push(x >> (x % 64));
    }
    for b in samples {
        assert_eq!(human_bytes(b), reference_human_bytes(b), "{b}");
    }
}

#[test]
fn uptime_texts() {
    assert_eq!(format_uptime(0), "0s");
    assert_eq!(format_uptime(59), "59s");
    assert_eq!(format_uptime(61), "1m01s");
    assert_eq!(format_uptime(3600), "1h00m");
    assert_eq!(format_uptime(90061), "25h01m");
    assert_eq!(format_compact_uptime(0), "");
    assert_eq!(format_compact_uptime(45), "↑45s");
    assert_eq!(format_compact_uptime(125), "↑2m");
    assert_eq!(format_compact_uptime(7322), "↑2h02m");
}

#[test]
fn clock_wraps_at_midnight() {
    assert_eq!(format_clock(0), "00:00:00");
    assert_eq!(format_clock(3_723_999), "01:02:03");
    assert_eq!(format_clock(90_000_000), "01:00:00");
}

#[test]
fn hex_colours() {
    assert_eq!(parse_hex_color("#00b4dc"), Ok(Rgb { r: 0, g: 180, b: 220 }));
    assert_eq!(parse_hex_color("FF0080"), Ok(Rgb { r: 255, g: 0, b: 128 }));
    assert_eq!(parse_hex_color("##ABCDEF"), Ok(Rgb { r: 0xab, g: 0xcd, b: 0xef }));
    assert_eq!(parse_hex_color("#12345"), Err(()));
    assert_eq!(parse_hex_color("#12345g"), Err(()));
    assert_eq!(parse_hex_color("#+1+2+3"), Err(()));
    assert_eq!(parse_hex_color("#1+2345"), Err(()));
    assert_eq!(parse_hex_color("#-1-2-3"), Err(()));
    assert_eq!(parse_hex_color("#\u{e9}\u{e9}\u{e9}"), Err(()));
    assert_eq!(parse_hex_color("#a\u{e9}bcde"), Err(()));
    assert_eq!(parse_hex_color("#1234567"), Err(()));
}

#[test]
fn overrides_replace_accent_and_backgrounds() {
    let cfg = Some(ThemeConfig { accent: Some("#010203".into()), bg_dark: Some("bad".into()), bg_mid: None });
    let c = Theme::Neon.colors_with_overrides(&cfg);
    assert_eq!(c.accent, Rgb { r: 1, g: 2, b: 3 });
    assert_eq!(c.bar_cpu, Rgb { r: 1, g: 2, b: 3 });
    assert_eq!(c.bg_dark, Theme::Neon.colors().bg_dark);
    assert_eq!(Theme::from_config(&cfg), Theme::Neon);
}

#[test]
fn multibyte_override_is_ignored() {
    let cfg = Some(ThemeConfig { accent: Some("#ab\u{e9}def".into()), bg_dark: None, bg_mid: Some("#+1+2+3".into()) });
    let c = Theme::Neon.colors_with_overrides(&cfg);
    assert_eq!(c, Theme::Neon.colors());
}

#[test]
fn neon_default_accent_follows_docs() {
    let c = Theme::Neon.colors();
    assert_eq!(c.accent, Rgb { r: 0, g: 200, b: 255 });
    assert_eq!(c.bar_cpu, c.accent);
    assert_eq!(c.bg_dark, Rgb { r: 10, g: 10, b: 16 });
    assert_eq!(c.bg_mid, Rgb { r: 16, g: 18, b: 28 });
}

#[test]
fn first_theme_installed_wins() {
    let mut slot = None;
    init(&mut slot, Theme::Light);
    init(&mut slot, Theme::Dark);
    assert_eq!(slot, Some(Theme::Light.colors()));
    init_with_colors(&mut slot, Theme::Neon.colors());
    assert_eq!(colors(&mut slot), Theme::Light.colors());
    let mut empty = None;
    assert_eq!(colors(&mut empty), Theme::Neon.colors());
    assert_eq!(empty, Some(Theme::Neon.colors()));
}
