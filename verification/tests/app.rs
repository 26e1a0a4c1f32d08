use smart_presenter::app::{cursor_report, kbd_report, mouse_report, wheel_report, App, Report};
use smart_presenter::command::Commands;
use smart_presenter::hid_report::{
    CursorReport, KeyboardModifiers, KeyboardReport, MouseButtons, MouseReport,
};

fn keyboard(modifier: u8, keycodes: [u8; 6]) -> Report {
    Report::Keyboard(KeyboardReport { modifier, leds: 0, keycodes })
}

fn mouse(buttons: u8, x: i16, y: i16, wheel: i8) -> Report {
    Report::Mouse(MouseReport { buttons, x, y, wheel })
}

fn gaps(slots: &[u8; 6]) -> bool {
    (0..5).any(|i| slots[i] == 0 && slots[i + 1] != 0)
}

#[test]
fn new_state_holds_nothing() {
    let app = App::new();
    assert_eq!(app.mouse_pressed(), MouseButtons::empty());
    assert_eq!(app.keys_pressed(), [0u8; 6]);
    assert_eq!(app.modifiers(), KeyboardModifiers::empty());
}

#[test]
fn mouse_down_adds_the_button_and_reports_it() {
    let mut app = App::new();
    let r = app.process_cmd(Commands::MouseDown(MouseButtons::l_button()));
    assert_eq!(app.mouse_pressed(), MouseButtons::l_button());
    assert_eq!(r, mouse(1, 0, 0, 0));
    let r = app.process_cmd(Commands::MouseDown(MouseButtons::m_button()));
    assert_eq!(app.mouse_pressed().bits(), 0b101);
    assert_eq!(r, mouse(0b101, 0, 0, 0));
    let r = app.process_cmd(Commands::MouseDown(MouseButtons::l_button()));
    assert_eq!(r, mouse(0b101, 0, 0, 0));
}

#[test]
fn mouse_up_takes_the_button_away_and_reports_the_rest() {
    let mut app = App::new();
    let all = MouseButtons::from_bits(0b111).unwrap();
    app.process_cmd(Commands::MouseDown(all));
    let r = app.process_cmd(Commands::MouseUp(MouseButtons::r_button()));
    assert_eq!(app.mouse_pressed().bits(), 0b101);
    assert_eq!(r, mouse(0b101, 0, 0, 0));
    let r = app.process_cmd(Commands::MouseUp(MouseButtons::r_button()));
    assert_eq!(r, mouse(0b101, 0, 0, 0));
    let r = app.process_cmd(Commands::MouseUp(all));
    assert_eq!(app.mouse_pressed(), MouseButtons::empty());
    assert_eq!(r, mouse(0, 0, 0, 0));
}

#[test]
fn wheel_reports_the_turn_with_the_buttons_held() {
    let mut app = App::new();
    app.process_cmd(Commands::MouseDown(MouseButtons::l_button()));
    let r = app.process_cmd(Commands::Wheel(-5));
    assert_eq!(r, mouse(1, 0, 0, -5));
    assert_eq!(app.mouse_pressed(), MouseButtons::l_button());
    assert_eq!(App::new().process_cmd(Commands::Wheel(127)), mouse(0, 0, 0, 127));
}

#[test]
fn relative_move_reports_the_motion_with_the_buttons_held() {
    let mut app = App::new();
    assert_eq!(app.process_cmd(Commands::RelMove(-7, 12)), mouse(0, -7, 12, 0));
    app.process_cmd(Commands::MouseDown(MouseButtons::r_button()));
    assert_eq!(app.process_cmd(Commands::RelMove(300, -300)), mouse(0b010, 300, -300, 0));
    assert_eq!(app.mouse_pressed(), MouseButtons::r_button());
}

#[test]
fn absolute_move_reports_the_position_without_buttons() {
    let mut app = App::new();
    app.process_cmd(Commands::MouseDown(MouseButtons::l_button()));
    app.process_cmd(Commands::KeyDown(4));
    let r = app.process_cmd(Commands::AbsMove(2048, 950));
    assert_eq!(r, Report::Cursor(CursorReport { buttons: 0, x: 2048, y: 950 }));
    assert_eq!(app.mouse_pressed(), MouseButtons::l_button());
    assert_eq!(app.keys_pressed(), [4, 0, 0, 0, 0, 0]);
}

#[test]
fn key_down_fills_the_slots_in_order() {
    let mut app = App::new();
    assert_eq!(app.process_cmd(Commands::KeyDown(4)), keyboard(0, [4, 0, 0, 0, 0, 0]));
    assert_eq!(app.process_cmd(Commands::KeyDown(5)), keyboard(0, [4, 5, 0, 0, 0, 0]));
    assert_eq!(app.process_cmd(Commands::KeyDown(0x1D)), keyboard(0, [4, 5, 0x1D, 0, 0, 0]));
    assert_eq!(app.keys_pressed(), [4, 5, 0x1D, 0, 0, 0]);
}

#[test]
fn key_down_twice_is_the_same_as_once() {
    let mut app = App::new();
    app.process_cmd(Commands::KeyDown(9));
    let first = app.process_cmd(Commands::KeyDown(4));
    let slots = app.keys_pressed();
    let second = app.process_cmd(Commands::KeyDown(4));
    assert_eq!(first, second);
    assert_eq!(app.keys_pressed(), slots);
    assert_eq!(slots, [9, 4, 0, 0, 0, 0]);
    app.process_cmd(Commands::KeyDown(9));
    assert_eq!(app.keys_pressed(), slots);
}

#[test]
fn seventh_key_is_dropped() {
    let mut app = App::new();
    for key in 4u8..10 {
        app.process_cmd(Commands::KeyDown(key));
    }
    assert_eq!(app.keys_pressed(), [4, 5, 6, 7, 8, 9]);
    let r = app.process_cmd(Commands::KeyDown(10));
    assert_eq!(r, keyboard(0, [4, 5, 6, 7, 8, 9]));
    assert_eq!(app.keys_pressed(), [4, 5, 6, 7, 8, 9]);
    app.process_cmd(Commands::KeyUp(6));
    assert_eq!(app.keys_pressed(), [4, 5, 7, 8, 9, 0]);
    app.process_cmd(Commands::KeyDown(10));
    assert_eq!(app.keys_pressed(), [4, 5, 7, 8, 9, 10]);
}

#[test]
fn key_up_closes_the_gap() {
    let mut app = App::new();
    for key in [4u8, 5, 6, 7] {
        app.process_cmd(Commands::KeyDown(key));
    }
    assert_eq!(app.process_cmd(Commands::KeyUp(5)), keyboard(0, [4, 6, 7, 0, 0, 0]));
    assert_eq!(app.process_cmd(Commands::KeyUp(4)), keyboard(0, [6, 7, 0, 0, 0, 0]));
    assert_eq!(app.process_cmd(Commands::KeyUp(7)), keyboard(0, [6, 0, 0, 0, 0, 0]));
    assert_eq!(app.process_cmd(Commands::KeyUp(6)), keyboard(0, [0, 0, 0, 0, 0, 0]));
}

#[test]
fn key_up_of_the_last_slot_empties_it() {
    let mut app = App::new();
    for key in 4u8..10 {
        app.process_cmd(Commands::KeyDown(key));
    }
    assert_eq!(app.process_cmd(Commands::KeyUp(9)), keyboard(0, [4, 5, 6, 7, 8, 0]));
    for key in 4u8..9 {
        app.process_cmd(Commands::KeyDown(key));
    }
    app.process_cmd(Commands::KeyDown(9));
    assert_eq!(app.process_cmd(Commands::KeyUp(4)), keyboard(0, [5, 6, 7, 8, 9, 0]));
}

#[test]
fn key_up_of_a_key_not_held_changes_nothing() {
    let mut app = App::new();
    assert_eq!(app.process_cmd(Commands::KeyUp(4)), keyboard(0, [0; 6]));
    app.process_cmd(Commands::KeyDown(4));
    app.process_cmd(Commands::KeyDown(0xE1));
    app.process_cmd(Commands::MouseDown(MouseButtons::l_button()));
    let r = app.process_cmd(Commands::KeyUp(5));
    assert_eq!(r, keyboard(0x02, [4, 0, 0, 0, 0, 0]));
    assert_eq!(app.keys_pressed(), [4, 0, 0, 0, 0, 0]);
    assert_eq!(app.modifiers(), KeyboardModifiers::l_shift());
    assert_eq!(app.mouse_pressed(), MouseButtons::l_button());
    let r = app.process_cmd(Commands::KeyUp(0xE0));
    assert_eq!(r, keyboard(0x02, [4, 0, 0, 0, 0, 0]));
    assert_eq!(app.modifiers(), KeyboardModifiers::l_shift());
}

#[test]
fn key_code_zero_is_never_held() {
    let mut app = App::new();
    assert_eq!(app.process_cmd(Commands::KeyDown(0)), keyboard(0, [0; 6]));
    app.process_cmd(Commands::KeyDown(4));
    assert_eq!(app.process_cmd(Commands::KeyDown(0)), keyboard(0, [4, 0, 0, 0, 0, 0]));
    assert_eq!(app.process_cmd(Commands::KeyUp(0)), keyboard(0, [4, 0, 0, 0, 0, 0]));
    for key in 5u8..10 {
        app.process_cmd(Commands::KeyDown(key));
    }
    assert_eq!(app.process_cmd(Commands::KeyDown(0)), keyboard(0, [4, 5, 6, 7, 8, 9]));
    assert_eq!(app.process_cmd(Commands::KeyUp(0)), keyboard(0, [4, 5, 6, 7, 8, 9]));
}

#[test]
fn modifier_keys_go_to_the_modifier_mask() {
    let mut app = App::new();
    assert_eq!(app.process_cmd(Commands::KeyDown(0xE0)), keyboard(0x01, [0; 6]));
    assert_eq!(app.process_cmd(Commands::KeyDown(0xE5)), keyboard(0x21, [0; 6]));
    assert_eq!(app.process_cmd(Commands::KeyDown(0xE5)), keyboard(0x21, [0; 6]));
    assert_eq!(app.process_cmd(Commands::KeyDown(4)), keyboard(0x21, [4, 0, 0, 0, 0, 0]));
    assert_eq!(app.process_cmd(Commands::KeyUp(0xE0)), keyboard(0x20, [4, 0, 0, 0, 0, 0]));
    assert_eq!(app.process_cmd(Commands::KeyUp(0xE5)), keyboard(0x00, [4, 0, 0, 0, 0, 0]));
    assert_eq!(app.modifiers(), KeyboardModifiers::empty());
    for code in 0xE0u8..=0xE7 {
        app.process_cmd(Commands::KeyDown(code));
    }
    assert_eq!(app.modifiers().bits(), 0xFF);
    assert_eq!(app.keys_pressed(), [4, 0, 0, 0, 0, 0]);
}

#[test]
fn codes_next_to_the_modifiers_are_ordinary_keys() {
    let mut app = App::new();
    assert_eq!(app.process_cmd(Commands::KeyDown(0xDF)), keyboard(0, [0xDF, 0, 0, 0, 0, 0]));
    assert_eq!(app.process_cmd(Commands::KeyDown(0xE8)), keyboard(0, [0xDF, 0xE8, 0, 0, 0, 0]));
    assert_eq!(app.process_cmd(Commands::KeyUp(0xDF)), keyboard(0, [0xE8, 0, 0, 0, 0, 0]));
}

#[test]
fn slots_stay_without_gaps_and_duplicates() {
    let mut app = App::new();
    let mut seed: u32 = 0x2545_F491;
    for _ in 0..5000 {
        seed ^= seed << 13;
        seed ^= seed >> 17;
        seed ^= seed << 5;
        let key = (seed % 12) as u8;
        let cmd = if (seed >> 8) % 2 == 0 { Commands::KeyDown(key) } else { Commands::KeyUp(key) };
        let r = app.process_cmd(cmd);
        let slots = app.keys_pressed();
        assert!(!gaps(&slots), "{:?}", slots);
        for i in 0..6 {
            for j in (i + 1)..6 {
                assert!(slots[i] == 0 || slots[i] != slots[j], "{:?}", slots);
            }
        }
        assert_eq!(r, keyboard(0, slots));
        match cmd {
            Commands::KeyDown(k) if k != 0 => {
                assert!(slots.contains(&k) || slots.iter().all(|s| *s != 0))
            }
            Commands::KeyUp(k) if k != 0 => assert!(!slots.contains(&k)),
            _ => {}
        }
    }
}

#[test]
fn report_builders_give_the_payloads() {
    assert_eq!(cursor_report(1, 2), CursorReport { buttons: 0, x: 1, y: 2 });
    assert_eq!(
        mouse_report(-1, 2, MouseButtons::m_button()),
        MouseReport { buttons: 0b100, x: -1, y: 2, wheel: 0 }
    );
    assert_eq!(
        wheel_report(-9, MouseButtons::l_button()),
        MouseReport { buttons: 0b001, x: 0, y: 0, wheel: -9 }
    );
    assert_eq!(
        kbd_report(KeyboardModifiers::r_alt(), &[4, 5, 6, 0, 0, 0]),
        KeyboardReport { modifier: 0x40, leds: 0, keycodes: [4, 5, 6, 0, 0, 0] }
    );
}
