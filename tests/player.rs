use librefy::player::{MusicPlayer, PlaybackState, PlayerError, ProcessAction};

fn loaded(path: &str) -> MusicPlayer {
    let mut p = MusicPlayer::new();
    assert_eq!(p.load_file(path, true), Ok(ProcessAction::Keep));
    p
}

#[test]
fn new_session_is_idle() {
    let p = MusicPlayer::new();
    assert_eq!(p.state(), PlaybackState::Idle);
    assert!(!p.is_playing());
    assert!(p.current_file().is_none());
}

#[test]
fn load_missing_file_fails_and_stays_idle() {
    let mut p = MusicPlayer::new();
    let r = p.load_file("/missing.mp3", false);
    assert_eq!(r, Err(PlayerError::FileNotFound("/missing.mp3".to_string())));
    assert_eq!(p.state(), PlaybackState::Idle);
    assert!(p.current_file().is_none());
}

#[test]
fn play_without_load_fails() {
    let mut p = MusicPlayer::new();
    assert_eq!(p.play().unwrap_err(), PlayerError::NoFileLoaded);
    assert_eq!(p.state(), PlaybackState::Idle);
}

#[test]
fn no_player_available_leaves_session_loaded() {
    let mut p = loaded("/m/a.mp3");
    let (action, file) = p.play().unwrap();
    assert_eq!(action, ProcessAction::Keep);
    assert_eq!(file, "/m/a.mp3");
    assert_eq!(p.finish_play(false), Err(PlayerError::NoPlayerAvailable));
    assert!(!p.is_playing());
    assert_eq!(p.state(), PlaybackState::Loaded);
}

#[test]
fn play_stop_cycle() {
    let mut p = loaded("/m/a.mp3");
    assert_eq!(p.state(), PlaybackState::Loaded);
    p.play().unwrap();
    assert_eq!(p.finish_play(true), Ok(()));
    assert_eq!(p.state(), PlaybackState::Playing);
    assert!(p.is_playing());
    assert_eq!(p.stop(), ProcessAction::Terminate);
    assert_eq!(p.state(), PlaybackState::Loaded);
    assert_eq!(p.stop(), ProcessAction::Keep);
    assert_eq!(p.current_file(), Some(&"/m/a.mp3".to_string()));
}

#[test]
fn pause_stops() {
    let mut p = loaded("/m/a.mp3");
    p.play().unwrap();
    p.finish_play(true).unwrap();
    assert_eq!(p.pause(), ProcessAction::Terminate);
    assert!(!p.is_playing());
}

#[test]
fn replay_and_reload_terminate_running_process() {
    let mut p = loaded("/m/a.mp3");
    p.play().unwrap();
    p.finish_play(true).unwrap();
    let (action, _) = p.play().unwrap();
    assert_eq!(action, ProcessAction::Terminate);
    p.finish_play(true).unwrap();
    assert_eq!(p.load_file("/m/b.mp3", true), Ok(ProcessAction::Terminate));
    assert_eq!(p.state(), PlaybackState::Loaded);
    assert_eq!(p.current_file(), Some(&"/m/b.mp3".to_string()));
}

#[test]
fn failed_load_keeps_playing_session() {
    let mut p = loaded("/m/a.mp3");
    p.play().unwrap();
    p.finish_play(true).unwrap();
    assert!(p.load_file("/m/none.mp3", false).is_err());
    assert_eq!(p.state(), PlaybackState::Playing);
    assert_eq!(p.current_file(), Some(&"/m/a.mp3".to_string()));
}

#[test]
fn spawn_commands_in_order() {
    let names: Vec<String> = (0..3)
        .map(|i| MusicPlayer::spawn_command("/m/a.mp3", i).unwrap().program)
        .collect();
    assert_eq!(names, vec!["mpv", "vlc", "ffplay"]);
    let c = MusicPlayer::spawn_command("/m/a.mp3", 1).unwrap();
    assert_eq!(c.args, vec!["--no-video", "--no-terminal", "/m/a.mp3"]);
    assert!(MusicPlayer::spawn_command("/m/a.mp3", 3).is_none());
}
