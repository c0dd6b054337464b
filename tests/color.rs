use nuri::color::{Color, Lch};
use nuri::preview::{bg_esc, fg};
use nuri::tui::{cycle_slot, cycle_slot_reverse, handle_key, Action, Key, ViewState};

#[test]
fn hex_is_lowercase_and_seven_long() {
    assert_eq!(Color::new(0xAB, 0x0c, 0xff).to_hex(), "#ab0cff");
    assert_eq!(Color::new(0, 0, 0).to_hex(), "#000000");
    assert_eq!(Color::new(255, 255, 255).to_hex(), "#ffffff");
    assert_eq!(Color::new(1, 16, 154).to_hex(), "#01109a");
}

#[test]
fn colors_equal_iff_channels_equal() {
    assert_eq!(Color::new(1, 2, 3), Color::new(1, 2, 3));
    assert_ne!(Color::new(1, 2, 3), Color::new(1, 2, 4));
}

#[test]
fn shift_lightness_clamps() {
    let c = Lch::new(9500, 300, 1000);
    assert_eq!(c.shift_lightness(1200), Lch::new(10000, 300, 1000));
    assert_eq!(c.shift_lightness(-9600), Lch::new(0, 300, 1000));
    assert_eq!(c.shift_lightness(-500), Lch::new(9000, 300, 1000));
}

#[test]
fn escape_sequences() {
    let c = Color::new(7, 42, 255);
    assert_eq!(fg(&c), "\x1b[38;2;7;42;255m");
    assert_eq!(bg_esc(&c), "\x1b[48;2;7;42;255m");
    assert_eq!(fg(&Color::new(0, 100, 10)), "\x1b[38;2;0;100;10m");
}

#[test]
fn slot_cycling_wraps() {
    assert_eq!(cycle_slot(None), Some(0));
    assert_eq!(cycle_slot(Some(15)), Some(0));
    assert_eq!(cycle_slot(Some(3)), Some(4));
    assert_eq!(cycle_slot_reverse(None), Some(15));
    assert_eq!(cycle_slot_reverse(Some(0)), Some(15));
    assert_eq!(cycle_slot_reverse(Some(9)), Some(8));
}

#[test]
fn key_handling() {
    let s = ViewState::new();
    assert_eq!(handle_key(s, Key::Char('q')), (s, Action::Quit));
    let (h, a) = handle_key(s, Key::Char('?'));
    assert!(h.show_help);
    assert_eq!(a, Action::Continue);
    let (e, _) = handle_key(h, Key::Esc);
    assert!(!e.show_help);
    let (sel, _) = handle_key(s, Key::Char('4'));
    assert_eq!(sel.selected_slot, Some(4));
    let (cleared, _) = handle_key(sel, Key::Esc);
    assert_eq!(cleared.selected_slot, None);
    let (t, _) = handle_key(s, Key::Tab);
    assert_eq!(t.selected_slot, Some(0));
    let (b, _) = handle_key(s, Key::BackTab);
    assert_eq!(b.selected_slot, Some(15));
    assert_eq!(handle_key(sel, Key::Char('9')), (sel, Action::Continue));
    assert_eq!(handle_key(sel, Key::Other), (sel, Action::Continue));
}
