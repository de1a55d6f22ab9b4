use wasm_motion::options::{move_kind_from_tag, resolve_move_kind, same_bytes, wave_is_vertical, Motion, MoveKind};

#[test]
fn known_tags_resolve_to_their_moves() {
    assert_eq!(move_kind_from_tag("direction".as_bytes()), MoveKind::Direction);
    assert_eq!(move_kind_from_tag("radial".as_bytes()), MoveKind::Radial);
    assert_eq!(move_kind_from_tag("spiral".as_bytes()), MoveKind::Spiral);
    assert_eq!(move_kind_from_tag("wave".as_bytes()), MoveKind::Wave);
}

#[test]
fn unknown_tags_resolve_to_no_move() {
    assert_eq!(move_kind_from_tag("".as_bytes()), MoveKind::Still);
    assert_eq!(move_kind_from_tag("Wave".as_bytes()), MoveKind::Still);
    assert_eq!(move_kind_from_tag("waves".as_bytes()), MoveKind::Still);
    assert_eq!(move_kind_from_tag("wav".as_bytes()), MoveKind::Still);
    assert_eq!(move_kind_from_tag("radiaL".as_bytes()), MoveKind::Still);
    assert_eq!(move_kind_from_tag("spiral ".as_bytes()), MoveKind::Still);
    assert_eq!(move_kind_from_tag("zoom".as_bytes()), MoveKind::Still);
}

#[test]
fn absent_tag_resolves_to_no_move() {
    assert_eq!(resolve_move_kind(None), MoveKind::Still);
    assert_eq!(resolve_move_kind(Some("spiral".as_bytes())), MoveKind::Spiral);
    assert_eq!(resolve_move_kind(Some("sideways".as_bytes())), MoveKind::Still);
}

#[test]
fn same_bytes_compares_whole_strings() {
    assert!(same_bytes(&[], &[]));
    assert!(same_bytes(&[1, 2, 3], &[1, 2, 3]));
    assert!(!same_bytes(&[1, 2, 3], &[1, 2]));
    assert!(!same_bytes(&[1, 2], &[1, 2, 3]));
    assert!(!same_bytes(&[1, 2, 3], &[1, 2, 4]));
    assert!(!same_bytes(&[0, 2, 3], &[1, 2, 3]));
}

#[test]
fn wave_axis_codes() {
    assert!(!wave_is_vertical(0));
    assert!(wave_is_vertical(1));
    assert!(wave_is_vertical(7));
    assert!(wave_is_vertical(-1));
}

#[test]
fn motion_knows_its_kind() {
    let still: Motion<u8> = Motion::Still;
    assert_eq!(still.kind(), MoveKind::Still);
    let pan: Motion<u8> = Motion::Direction { move_x: 3, move_y: -4 };
    assert_eq!(pan.kind(), MoveKind::Direction);
    let radial: Motion<u8> = Motion::Radial;
    assert_eq!(radial.kind(), MoveKind::Radial);
    let spiral: Motion<u8> = Motion::Spiral;
    assert_eq!(spiral.kind(), MoveKind::Spiral);
    let wave: Motion<u8> = Motion::Wave { vertical: true, next_phase: 1 };
    assert_eq!(wave.kind(), MoveKind::Wave);
}
