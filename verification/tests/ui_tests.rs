use chip8::framebuffer::Framebuffer;
use chip8::ui::{
    keypad_key, lit_rects, match_event, Event, FrameClock, HostEvent, Keycode, PixelRect,
    ToneAction, ToneSwitch, BORDER_SIZE, PIXEL_INNER_SIZE, PIXEL_SIZE, SCREEN_HEIGHT,
    SCREEN_WIDTH,
};

const LAYOUT: [(Keycode, u8); 16] = [
    (Keycode::Num1, 0x1),
    (Keycode::Num2, 0x2),
    (Keycode::Num3, 0x3),
    (Keycode::Num4, 0xC),
    (Keycode::Q, 0x4),
    (Keycode::W, 0x5),
    (Keycode::E, 0x6),
    (Keycode::R, 0xD),
    (Keycode::A, 0x7),
    (Keycode::S, 0x8),
    (Keycode::D, 0x9),
    (Keycode::F, 0xE),
    (Keycode::Z, 0xA),
    (Keycode::X, 0x0),
    (Keycode::C, 0xB),
    (Keycode::V, 0xF),
];

#[test]
fn keyboard_mirrors_the_keypad() {
    let mut seen = [false; 16];
    for (key, index) in LAYOUT {
        assert_eq!(keypad_key(key), Some(index));
        assert!(!seen[index as usize]);
        seen[index as usize] = true;
    }
    assert_eq!(seen, [true; 16]);
    assert_eq!(keypad_key(Keycode::Space), None);
    assert_eq!(keypad_key(Keycode::Other), None);
}

#[test]
fn fresh_presses_and_releases_are_mapped() {
    for (key, index) in LAYOUT {
        let down = HostEvent::KeyDown { keycode: Some(key), repeat: false };
        let up = HostEvent::KeyUp { keycode: Some(key), repeat: false };
        assert_eq!(match_event(Some(down)), Some(Event::KeyPress(index)));
        assert_eq!(match_event(Some(up)), Some(Event::KeyUnpress(index)));
    }
}

#[test]
fn repeats_and_strangers_mean_nothing() {
    for (key, _) in LAYOUT {
        let down = HostEvent::KeyDown { keycode: Some(key), repeat: true };
        let up = HostEvent::KeyUp { keycode: Some(key), repeat: true };
        assert_eq!(match_event(Some(down)), None);
        assert_eq!(match_event(Some(up)), None);
    }
    assert_eq!(match_event(None), None);
    assert_eq!(match_event(Some(HostEvent::Other)), None);
    assert_eq!(match_event(Some(HostEvent::KeyDown { keycode: None, repeat: false })), None);
    assert_eq!(match_event(Some(HostEvent::KeyUp { keycode: None, repeat: false })), None);
    assert_eq!(
        match_event(Some(HostEvent::KeyDown { keycode: Some(Keycode::Other), repeat: false })),
        None
    );
}

#[test]
fn closing_and_space_quit() {
    assert_eq!(match_event(Some(HostEvent::Quit)), Some(Event::Quit));
    assert_eq!(
        match_event(Some(HostEvent::KeyDown { keycode: Some(Keycode::Space), repeat: false })),
        Some(Event::Quit)
    );
    assert_eq!(
        match_event(Some(HostEvent::KeyDown { keycode: Some(Keycode::Space), repeat: true })),
        None
    );
    assert_eq!(
        match_event(Some(HostEvent::KeyUp { keycode: Some(Keycode::Space), repeat: false })),
        None
    );
}

#[test]
fn screen_is_the_display_scaled() {
    assert_eq!(SCREEN_WIDTH, PIXEL_SIZE * 64);
    assert_eq!(SCREEN_HEIGHT, PIXEL_SIZE * 32);
    assert_eq!(PIXEL_INNER_SIZE, PIXEL_SIZE - 2 * BORDER_SIZE);
}

#[test]
fn lit_pixels_become_rectangles() {
    let mut d = Framebuffer::new();
    assert_eq!(lit_rects(d.get_frame()), vec![]);
    let mut c = false;
    d.draw_sprite(&[0x81], 62, 31, &mut c);
    d.draw_sprite(&[0x40, 0x80], 0, 0, &mut c);
    assert_eq!(
        lit_rects(d.get_frame()),
        vec![
            PixelRect { x: 15, y: 1, w: 12, h: 12 },
            PixelRect { x: 1, y: 15, w: 12, h: 12 },
            PixelRect { x: 869, y: 435, w: 12, h: 12 },
        ]
    );
    d.fill_frame_u8(0xff);
    let all = lit_rects(d.get_frame());
    assert_eq!(all.len(), 64 * 32);
    assert_eq!(all[64], PixelRect { x: 1, y: 15, w: 12, h: 12 });
    assert_eq!(all[2047], PixelRect { x: 883, y: 435, w: 12, h: 12 });
}

#[test]
fn frames_come_every_17_17_16_ms() {
    let mut clock = FrameClock::new(1000);
    assert!(!clock.frame_sync(1000));
    assert!(!clock.frame_sync(1017));
    assert_eq!(clock, FrameClock { last_frame_ms: 1000, frame_idx: 0 });
    assert!(clock.frame_sync(1018));
    assert_eq!(clock, FrameClock { last_frame_ms: 1018, frame_idx: 1 });
    assert!(!clock.frame_sync(1035));
    assert!(clock.frame_sync(1036));
    assert_eq!(clock.frame_idx, 2);
    assert!(!clock.frame_sync(1052));
    assert!(clock.frame_sync(1053));
    assert_eq!(clock, FrameClock { last_frame_ms: 1053, frame_idx: 0 });
}

#[test]
fn frame_clock_survives_the_wrap_of_the_host_clock() {
    let mut clock = FrameClock::new(u32::MAX - 5);
    assert!(!clock.frame_sync(u32::MAX));
    assert!(!clock.frame_sync(11));
    assert!(clock.frame_sync(12));
    assert_eq!(clock, FrameClock { last_frame_ms: 12, frame_idx: 1 });
}

#[test]
fn tone_is_switched_only_on_a_change() {
    let mut tone = ToneSwitch::new();
    assert_eq!(tone.off(), ToneAction::Keep);
    assert_eq!(tone.on(), ToneAction::Resume);
    assert!(tone.is_on);
    assert_eq!(tone.on(), ToneAction::Keep);
    assert_eq!(tone.off(), ToneAction::Pause);
    assert!(!tone.is_on);
    assert_eq!(tone.off(), ToneAction::Keep);
}
