use rustychip::frontend::{
    handle_event, key_index, lit_rectangles, InputAction, InputEvent, Key, Rectangle,
};

const MAPPED: [Key; 16] = [
    Key::Num1,
    Key::Num2,
    Key::Num3,
    Key::Num4,
    Key::Q,
    Key::W,
    Key::E,
    Key::R,
    Key::A,
    Key::S,
    Key::D,
    Key::F,
    Key::Z,
    Key::X,
    Key::C,
    Key::V,
];

#[test]
fn mapped_keys_have_their_index_in_keyboard_order() {
    for (index, key) in MAPPED.iter().enumerate() {
        assert_eq!(key_index(*key), Some(index as u8));
    }
    assert_eq!(key_index(Key::Escape), None);
    assert_eq!(key_index(Key::Other), None);
}

#[test]
fn key_down_and_up_set_the_key() {
    for (index, key) in MAPPED.iter().enumerate() {
        assert_eq!(
            handle_event(InputEvent::KeyDown(*key)),
            InputAction::SetKey(index as u8, true)
        );
        assert_eq!(
            handle_event(InputEvent::KeyUp(*key)),
            InputAction::SetKey(index as u8, false)
        );
    }
    assert_eq!(handle_event(InputEvent::KeyDown(Key::Q)), InputAction::SetKey(4, true));
    assert_eq!(handle_event(InputEvent::KeyUp(Key::V)), InputAction::SetKey(15, false));
}

#[test]
fn quit_and_escape_stop() {
    assert_eq!(handle_event(InputEvent::Quit), InputAction::Stop);
    assert_eq!(handle_event(InputEvent::KeyDown(Key::Escape)), InputAction::Stop);
}

#[test]
fn other_events_are_ignored() {
    assert_eq!(handle_event(InputEvent::Other), InputAction::Ignore);
    assert_eq!(handle_event(InputEvent::KeyDown(Key::Other)), InputAction::Ignore);
    assert_eq!(handle_event(InputEvent::KeyUp(Key::Other)), InputAction::Ignore);
    assert_eq!(handle_event(InputEvent::KeyUp(Key::Escape)), InputAction::Ignore);
}

#[test]
fn blank_framebuffer_has_no_rectangles() {
    assert_eq!(lit_rectangles(&[[false; 64]; 32]), Vec::<Rectangle>::new());
}

#[test]
fn lit_pixels_become_squares_column_by_column() {
    let mut display = [[false; 64]; 32];
    display[0][0] = true;
    display[31][0] = true;
    display[5][1] = true;
    display[2][63] = true;
    display[31][63] = true;
    let expected = vec![
        Rectangle { x: 0, y: 0, width: 10, height: 10 },
        Rectangle { x: 0, y: 310, width: 10, height: 10 },
        Rectangle { x: 10, y: 50, width: 10, height: 10 },
        Rectangle { x: 630, y: 20, width: 10, height: 10 },
        Rectangle { x: 630, y: 310, width: 10, height: 10 },
    ];
    assert_eq!(lit_rectangles(&display), expected);
}

#[test]
fn full_framebuffer_has_a_square_for_every_pixel() {
    let rectangles = lit_rectangles(&[[true; 64]; 32]);
    assert_eq!(rectangles.len(), 2048);
    assert_eq!(rectangles[0], Rectangle { x: 0, y: 0, width: 10, height: 10 });
    assert_eq!(rectangles[1], Rectangle { x: 0, y: 10, width: 10, height: 10 });
    assert_eq!(rectangles[32], Rectangle { x: 10, y: 0, width: 10, height: 10 });
    assert_eq!(rectangles[2047], Rectangle { x: 630, y: 310, width: 10, height: 10 });
}
