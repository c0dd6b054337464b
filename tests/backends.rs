use nuri::assign::{
    accent_targets, base_targets, bright_targets, build_slots, derive_special_colors, selection_target,
    AnsiPalette,
};
use nuri::backends::{get_backend, GhosttyBackend, Target, ThemeBackend};
use nuri::color::{Color, Lch};
use nuri::ThemeMode;
use palette::{Clamp, IntoColor, Oklch, Srgb};

fn to_lch(c: Color) -> Lch {
    let srgb: Srgb<f32> = Srgb::new(c.r, c.g, c.b).into_format();
    let o: Oklch = srgb.into_color();
    let l = (o.l.clamp(0.0, 1.0) * 10000.0).round() as u32;
    let ch = (o.chroma.clamp(0.0, 1.0) * 10000.0).round() as u32;
    let h = ((o.hue.into_positive_degrees() * 100.0).round() as u32) % 36000;
    Lch::new(l, ch, h)
}

fn from_oklch(o: Oklch) -> Color {
    let srgb: Srgb<f32> = o.into_color();
    let px: Srgb<u8> = srgb.clamp().into_format();
    Color::new(px.red, px.green, px.blue)
}

fn from_lch(v: Lch) -> Color {
    from_oklch(Oklch::new(v.l as f32 / 10000.0, v.c as f32 / 10000.0, v.h as f32 / 100.0))
}

fn make_extracted(l: f32, chroma: f32, hue: f32, _weight: f32) -> Color {
    from_oklch(Oklch::new(l, chroma, hue))
}

fn assign_slots(colors: &[Color], mode: ThemeMode) -> AnsiPalette {
    let cands: Vec<Lch> = colors.iter().map(|c| to_lch(*c)).collect();
    let accents = accent_targets(&cands).map(from_lch);
    let base = base_targets(&cands, mode).map(from_lch);
    let brights = bright_targets(accents.map(to_lch)).map(from_lch);
    let slots = build_slots(base, accents, brights);
    let selection = from_lch(selection_target(to_lch(slots[4]), mode));
    derive_special_colors(slots, selection)
}

fn test_palette() -> AnsiPalette {
    let colors = vec![
        make_extracted(0.60, 0.20, 25.0, 0.12),
        make_extracted(0.60, 0.20, 145.0, 0.12),
        make_extracted(0.70, 0.20, 90.0, 0.12),
        make_extracted(0.55, 0.20, 260.0, 0.12),
        make_extracted(0.60, 0.20, 325.0, 0.12),
        make_extracted(0.65, 0.20, 195.0, 0.10),
        make_extracted(0.10, 0.01, 0.0, 0.15),
        make_extracted(0.95, 0.01, 0.0, 0.15),
    ];
    assign_slots(&colors, ThemeMode::Dark)
}

#[test]
fn get_backend_returns_correct_name() {
    assert_eq!(get_backend(Target::Ghostty).name(), "Ghostty");
    assert_eq!(get_backend(Target::Zellij).name(), "Zellij");
    assert_eq!(get_backend(Target::Neovim).name(), "Neovim");
}

#[test]
fn serialization_format_is_correct() {
    let backend = GhosttyBackend;
    let output = backend.serialize(&test_palette(), "test");
    let lines: Vec<&str> = output.lines().collect();
    assert_eq!(lines.len(), 22, "expected 22 lines, got {}", lines.len());
    assert!(lines[0].starts_with("background = #"));
    assert!(lines[1].starts_with("foreground = #"));
    assert!(lines[2].starts_with("cursor-color = #"));
    assert!(lines[3].starts_with("cursor-text = #"));
    assert!(lines[4].starts_with("selection-background = #"));
    assert!(lines[5].starts_with("selection-foreground = #"));
    for i in 0..16 {
        let line = lines[6 + i];
        let expected_prefix = format!("palette = {}=#", i);
        assert!(
            line.starts_with(&expected_prefix),
            "line {} should start with '{expected_prefix}', got '{line}'",
            6 + i
        );
    }
}

#[test]
fn palette_lines_have_no_inner_space() {
    let backend = GhosttyBackend;
    let output = backend.serialize(&test_palette(), "test");
    for line in output.lines() {
        if line.starts_with("palette") {
            let after_eq = line.split(" = ").nth(1).unwrap();
            assert!(after_eq.contains("=#"), "palette line should have '=#' (no spaces): '{line}'");
            assert!(!after_eq.contains(" = "), "palette value should not contain ' = ': '{line}'");
        }
    }
}

#[test]
fn hex_values_are_lowercase() {
    let backend = GhosttyBackend;
    let output = backend.serialize(&test_palette(), "test");
    for line in output.lines() {
        if let Some(hex_start) = line.find('#') {
            let hex = &line[hex_start..hex_start + 7];
            assert_eq!(hex, hex.to_lowercase(), "hex values should be lowercase: '{line}'");
        }
    }
}

#[test]
fn all_hex_values_valid() {
    let backend = GhosttyBackend;
    let output = backend.serialize(&test_palette(), "test");
    for line in output.lines() {
        if let Some(hex_start) = line.find('#') {
            let hex = &line[hex_start..hex_start + 7];
            assert_eq!(hex.len(), 7);
            assert!(hex.starts_with('#'));
            assert!(hex[1..].chars().all(|c| c.is_ascii_hexdigit()), "invalid hex value in line: '{line}'");
        }
    }
}

#[test]
fn ghostty_text_exact() {
    let mut slots = [Color::new(0, 0, 0); 16];
    for i in 0..16 {
        slots[i] = Color::new(i as u8 * 16, 255 - i as u8, 10);
    }
    let p = derive_special_colors(slots, Color::new(0xab, 0xcd, 0xef));
    let out = GhosttyBackend.serialize(&p, "x");
    let lines: Vec<&str> = out.lines().collect();
    assert_eq!(lines[0], "background = #00ff0a");
    assert_eq!(lines[1], "foreground = #f0f00a");
    assert_eq!(lines[2], "cursor-color = #f0f00a");
    assert_eq!(lines[3], "cursor-text = #00ff0a");
    assert_eq!(lines[4], "selection-background = #abcdef");
    assert_eq!(lines[5], "selection-foreground = #f0f00a");
    assert_eq!(lines[6], "palette = 0=#00ff0a");
    assert_eq!(lines[16], "palette = 10=#a0f50a");
    assert_eq!(lines[21], "palette = 15=#f0f00a");
    assert!(out.ends_with('\n'));
}

#[test]
fn dispatch_serializes_only_ghostty() {
    let p = test_palette();
    let g = get_backend(Target::Ghostty).serialize(&p, "t");
    assert_eq!(g, Some(GhosttyBackend.serialize(&p, "t")));
    assert_eq!(get_backend(Target::Zellij).serialize(&p, "t"), None);
    assert_eq!(get_backend(Target::Neovim).serialize(&p, "t"), None);
    assert_eq!(get_backend(Target::Ghostty).extension(), "");
    assert_eq!(get_backend(Target::Zellij).extension(), ".kdl");
    assert_eq!(get_backend(Target::Neovim).extension(), ".lua");
    assert!(matches!(get_backend(Target::Zellij), ThemeBackend::Zellij(_)));
}
