use grapher3d::input::{update, Action, CameraMove};
use grapher3d::keys::{
    lowercase_letter, skips_modifier_event, EVENT_ALPHA, EVENT_ONE, EVENT_SHIFT, KEY_ALPHA,
    KEY_BACK, KEY_DOWN, KEY_LEFT, KEY_MINUS, KEY_PLUS, KEY_RIGHT, KEY_SHIFT, KEY_UP,
};

fn keys(values: &[u8]) -> u64 {
    let mut state = 0_u64;
    for value in values {
        state |= 1_u64 << value;
    }
    state
}

#[test]
fn plain_arrows_orbit_without_translating() {
    let (action, moves) = update(keys(&[KEY_RIGHT]));
    assert_eq!(action, Action::Redraw);
    assert_eq!(moves, vec![CameraMove::Orbit { yaw: 1, pitch: 0 }]);
    assert!(moves
        .iter()
        .all(|m| !matches!(m, CameraMove::Truck(_) | CameraMove::Pedestal(_))));
}

#[test]
fn shift_arrows_translate_without_orbiting() {
    let (action, moves) = update(keys(&[KEY_SHIFT, KEY_RIGHT, KEY_UP]));
    assert_eq!(action, Action::Redraw);
    assert_eq!(moves, vec![CameraMove::Truck(1), CameraMove::Pedestal(1)]);
    assert!(moves.iter().all(|m| !matches!(m, CameraMove::Orbit { .. })));
}

#[test]
fn plus_is_dolly_and_alpha_plus_is_fov() {
    let (_, moves) = update(keys(&[KEY_PLUS]));
    assert_eq!(moves, vec![CameraMove::Dolly(-1)]);
    let (_, moves) = update(keys(&[KEY_ALPHA, KEY_PLUS]));
    assert_eq!(moves, vec![CameraMove::FocalLength(1)]);
}

#[test]
fn back_exits_before_any_motion() {
    let (action, moves) = update(keys(&[KEY_BACK, KEY_LEFT, KEY_PLUS]));
    assert_eq!(action, Action::Exit);
    assert!(moves.is_empty());
}

#[test]
fn no_key_leaves_the_camera_unchanged() {
    let (action, moves) = update(0);
    assert_eq!(action, Action::Unchanged);
    assert!(moves.is_empty());
    let (action, moves) = update(keys(&[KEY_SHIFT, KEY_ALPHA]));
    assert_eq!(action, Action::Unchanged);
    assert!(moves.is_empty());
}

#[test]
fn all_arrows_and_zoom_keys_come_out_in_order() {
    let (_, moves) = update(keys(&[KEY_LEFT, KEY_RIGHT, KEY_UP, KEY_DOWN, KEY_PLUS, KEY_MINUS]));
    assert_eq!(
        moves,
        vec![
            CameraMove::Orbit { yaw: -1, pitch: 0 },
            CameraMove::Orbit { yaw: 1, pitch: 0 },
            CameraMove::Orbit { yaw: 0, pitch: 1 },
            CameraMove::Orbit { yaw: 0, pitch: -1 },
            CameraMove::Dolly(-1),
            CameraMove::Dolly(1),
        ]
    );
    let (_, moves) = update(keys(&[KEY_SHIFT, KEY_LEFT, KEY_DOWN, KEY_ALPHA, KEY_MINUS]));
    assert_eq!(
        moves,
        vec![CameraMove::Truck(-1), CameraMove::Pedestal(-1), CameraMove::FocalLength(-1)]
    );
}

#[test]
fn a_modifier_event_is_skipped_only_when_another_key_is_held() {
    assert!(skips_modifier_event(Some(EVENT_SHIFT), keys(&[KEY_SHIFT, KEY_LEFT])));
    assert!(skips_modifier_event(Some(EVENT_ALPHA), keys(&[KEY_ALPHA, KEY_PLUS])));
    assert!(!skips_modifier_event(Some(EVENT_SHIFT), keys(&[KEY_SHIFT])));
    assert!(!skips_modifier_event(Some(EVENT_SHIFT), keys(&[KEY_SHIFT, KEY_ALPHA])));
    assert!(!skips_modifier_event(Some(EVENT_ONE), keys(&[KEY_LEFT])));
    assert!(!skips_modifier_event(None, keys(&[KEY_LEFT])));
}

#[test]
fn alpha_letters_map_to_lowercase_ascii() {
    assert_eq!(lowercase_letter(126), Some(b'a'));
    assert_eq!(lowercase_letter(153), Some(b'z'));
    assert_eq!(lowercase_letter(180), Some(b'a'));
    assert_eq!(lowercase_letter(143), None);
}
