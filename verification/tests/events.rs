use chip8::events::{
    Event, IncomingEvent, InputEvent, AppEvent, AudioEvent, ScreenEvent, InterpreterEvent, Key,
    MouseButton, ScancodeToHex, HexToScancode,
};
use chip8::router::EventRedirectManager;
use chip8::app_state::{InputState, KeyboardMouseState};

#[test]
fn wildcard_matches_every_variant_of_its_category() {
    let any = IncomingEvent::Any;
    assert!(any.equals(&IncomingEvent::Pause(true)));
    assert!(IncomingEvent::Pause(true).equals(&any));
    assert!(
        IncomingEvent::Input(InputEvent::Any)
            .equals(&IncomingEvent::Input(InputEvent::KeyDown(Key::Q)))
    );
    assert!(
        IncomingEvent::Screen(ScreenEvent::Any)
            .equals(&IncomingEvent::Screen(ScreenEvent::Clear))
    );
    assert!(
        IncomingEvent::Audio(AudioEvent::Any).equals(&IncomingEvent::Audio(AudioEvent::Buzz(true)))
    );
    assert!(
        IncomingEvent::App(AppEvent::Any).equals(&IncomingEvent::App(AppEvent::SetFocus(false)))
    );
    assert!(
        IncomingEvent::Interpreter(InterpreterEvent::Any)
            .equals(&IncomingEvent::Interpreter(InterpreterEvent::QuickSave))
    );
}

#[test]
fn same_variant_matches_regardless_of_payload() {
    assert!(IncomingEvent::Pause(true).equals(&IncomingEvent::Pause(false)));
    assert!(IncomingEvent::SetSpeed(-3).equals(&IncomingEvent::SetSpeed(7)));
    assert!(
        IncomingEvent::Input(InputEvent::KeyDown(Key::Q))
            .equals(&IncomingEvent::Input(InputEvent::KeyDown(Key::V)))
    );
}

#[test]
fn different_variants_without_wildcard_never_match() {
    assert!(!IncomingEvent::Pause(true).equals(&IncomingEvent::SetSpeed(0)));
    assert!(!IncomingEvent::Restart.equals(&IncomingEvent::NewGame));
    assert!(
        !IncomingEvent::Input(InputEvent::KeyDown(Key::Q))
            .equals(&IncomingEvent::Input(InputEvent::KeyUp(Key::Q)))
    );
    assert!(
        !IncomingEvent::Screen(ScreenEvent::Clear).equals(&IncomingEvent::Screen(
            ScreenEvent::Update
        ))
    );
    assert!(!IncomingEvent::Audio(AudioEvent::Buzz(true)).equals(&IncomingEvent::Pause(true)));
}

#[test]
fn keypad_layout_round_trips() {
    for h in 0u8..16 {
        let k = h.try_into_scancode().unwrap();
        assert_eq!(k.try_into_hex(), Some(h));
    }
    assert_eq!(16u8.try_into_scancode(), None);
    assert_eq!(Key::F1.try_into_hex(), None);
    assert_eq!(Key::Escape.try_into_hex(), None);
    assert_eq!(Key::Kp1.try_into_hex(), Some(0x1));
    assert_eq!(Key::V.try_into_hex(), Some(0xF));
}

#[test]
fn disjoint_subscribers_never_cross_receive() {
    // three subscribers with disjoint interests; a thousand distinct events
    // are each forwarded only to the one interested subscriber
    let subs = vec![
        vec![IncomingEvent::Pause(true)],
        vec![IncomingEvent::SetSpeed(0)],
        vec![IncomingEvent::Input(InputEvent::Any)],
    ];
    let mut router = EventRedirectManager::new(subs);
    for i in 0..1000u32 {
        let (event, expect) = match i % 3 {
            0 => (IncomingEvent::Pause(i % 2 == 0), 0usize),
            1 => (IncomingEvent::SetSpeed((i % 200) as i8), 1usize),
            _ => (
                IncomingEvent::Input(InputEvent::UpdateMouseCoordinates(i as i32, 2 * i as i32)),
                2usize,
            ),
        };
        router.push_event(event);
        let (e, ds) = router.step().unwrap();
        assert!(e.equals(&event));
        assert!(ds.contains(&expect));
        for d in &ds {
            assert_eq!(*d, expect);
        }
        // drain whatever the policy modules derived so the queue stays FIFO
        while router.pending_len() > 0 {
            router.step().unwrap();
        }
    }
}

#[test]
fn wildcard_subscriber_receives_everything() {
    let subs = vec![vec![IncomingEvent::Any], vec![IncomingEvent::Restart]];
    let mut router = EventRedirectManager::new(subs);
    let events = vec![
        IncomingEvent::Pause(true),
        IncomingEvent::SetSpeed(4),
        IncomingEvent::Audio(AudioEvent::Buzz(false)),
        IncomingEvent::Input(InputEvent::MouseButtonDown(MouseButton::Left)),
        IncomingEvent::NewGame,
    ];
    for e in events {
        router.push_event(e);
        let (_, ds) = router.step().unwrap();
        assert!(ds.contains(&0));
        assert!(!ds.contains(&1));
        while router.pending_len() > 0 {
            router.step().unwrap();
        }
    }
}

#[test]
fn router_derives_commands_in_arrival_order() {
    // an unpause makes the window module ask for a repaint; the derived
    // event is processed after the ones already pending
    let subs = vec![vec![IncomingEvent::Interpreter(InterpreterEvent::Any)]];
    let mut router = EventRedirectManager::new(subs);
    router.push_event(IncomingEvent::Pause(false));
    router.push_event(IncomingEvent::SetSpeed(1));
    let (e1, _) = router.step().unwrap();
    assert!(matches!(e1, IncomingEvent::Pause(false)));
    let (e2, _) = router.step().unwrap();
    assert!(matches!(e2, IncomingEvent::SetSpeed(1)));
    let (e3, ds3) = router.step().unwrap();
    assert!(matches!(
        e3,
        IncomingEvent::Interpreter(InterpreterEvent::RedrawAll)
    ));
    assert!(ds3.contains(&0));
    assert_eq!(router.pending_len(), 0);
}

#[test]
fn function_keys_become_commands() {
    let mut router = EventRedirectManager::new(vec![]);
    router.push_event(IncomingEvent::Input(InputEvent::KeyDown(Key::F3)));
    router.step().unwrap();
    let (speed_up, _) = router.step().unwrap();
    assert!(matches!(speed_up, IncomingEvent::SetSpeed(1)));
    router.push_event(IncomingEvent::Input(InputEvent::KeyDown(Key::F2)));
    router.step().unwrap();
    let (speed_down, _) = router.step().unwrap();
    assert!(matches!(speed_down, IncomingEvent::SetSpeed(0)));
    router.push_event(IncomingEvent::Input(InputEvent::KeyDown(Key::Escape)));
    router.step().unwrap();
    let (pause, _) = router.step().unwrap();
    assert!(matches!(pause, IncomingEvent::Pause(true)));
}

#[test]
fn focus_loss_pauses() {
    let mut router = EventRedirectManager::new(vec![]);
    router.push_event(IncomingEvent::App(AppEvent::SetFocus(false)));
    router.step().unwrap();
    let (derived, _) = router.step().unwrap();
    assert!(matches!(derived, IncomingEvent::Pause(true)));
}

#[test]
fn input_edge_detection() {
    let mut cut: KeyboardMouseState<Key> = KeyboardMouseState::new();
    assert!(!cut.currently_pressed(Key::Q));
    cut.update(vec![Key::Q, Key::W]);
    assert!(cut.just_pressed(Key::Q));
    assert!(cut.just_pressed(Key::W));
    assert!(cut.currently_pressed(Key::Q));
    assert!(!cut.just_released(Key::Q));
    cut.update(vec![Key::W, Key::E]);
    assert!(cut.just_released(Key::Q));
    assert!(!cut.just_released(Key::W));
    assert!(cut.just_pressed(Key::E));
    assert!(!cut.just_pressed(Key::W));
    assert!(cut.currently_pressed(Key::W));
    assert!(!cut.currently_pressed(Key::Q));
    assert_eq!(cut.just_pressed_all(), vec![Key::E]);
    assert_eq!(cut.just_released_all(), vec![Key::Q]);
    assert_eq!(cut.currently_pressed_all(), vec![Key::W, Key::E]);
}
