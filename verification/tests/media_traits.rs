use servo_shield::media_traits::{
    audio_focus_player, cycle_audio_focus, register_player, set_audio_focus, AudioFocus,
    ClientContextId,
};

#[test]
fn context_id_parts() {
    let id = ClientContextId::build(3, 7);
    assert_eq!(id.namespace(), 3);
    assert_eq!(id.index(), 7);
    assert_eq!(id, ClientContextId::build(3, 7));
    assert_ne!(id, ClientContextId::build(3, 8));
}

#[test]
fn first_registered_player_gets_focus() {
    let mut focus = AudioFocus::new();
    assert_eq!(audio_focus_player(&focus), 0);
    register_player(&mut focus, 5);
    assert_eq!(audio_focus_player(&focus), 5);
    register_player(&mut focus, 9);
    assert_eq!(audio_focus_player(&focus), 5);
    register_player(&mut focus, 5);
    cycle_audio_focus(&mut focus, 1);
    assert_eq!(audio_focus_player(&focus), 9);
    cycle_audio_focus(&mut focus, 1);
    assert_eq!(audio_focus_player(&focus), 9);
}

#[test]
fn set_focus_moves_page() {
    let mut focus = AudioFocus::new();
    for id in [1, 2, 3] {
        register_player(&mut focus, id);
    }
    set_audio_focus(&mut focus, 3);
    assert_eq!(audio_focus_player(&focus), 3);
    cycle_audio_focus(&mut focus, -1);
    assert_eq!(audio_focus_player(&focus), 2);
    cycle_audio_focus(&mut focus, 1);
    assert_eq!(audio_focus_player(&focus), 3);
    set_audio_focus(&mut focus, 42);
    assert_eq!(audio_focus_player(&focus), 42);
    cycle_audio_focus(&mut focus, 0);
    assert_eq!(audio_focus_player(&focus), 2);
}

#[test]
fn cycling_without_players_does_nothing() {
    let mut focus = AudioFocus::new();
    cycle_audio_focus(&mut focus, 1);
    cycle_audio_focus(&mut focus, -1);
    assert_eq!(audio_focus_player(&focus), 0);
}

#[test]
fn cycling_back_from_first_page_stays() {
    let mut focus = AudioFocus::new();
    register_player(&mut focus, 10);
    register_player(&mut focus, 20);
    cycle_audio_focus(&mut focus, -5);
    assert_eq!(audio_focus_player(&focus), 10);
}
