use irate_goose::sink_config::{
    config_path_for, extract_filename_from_config, hrir_dir_for, installed_checksum,
    install_start, legacy_config_path_for, next_action, reload_ok, remove_start, render_config,
    staged_wav_path, step, SyncAction, SyncError, SyncState,
};

#[test]
fn test_render_extract_roundtrip() {
    let text = render_config("/home/user/.config/pipewire/hrir/ir.wav", "My Device");
    assert_eq!(
        extract_filename_from_config(&text),
        Ok("/home/user/.config/pipewire/hrir/ir.wav".to_string())
    );
    // The assignment stays greppable by its plain text form.
    assert!(text.contains("filename = \"/home/user/.config/pipewire/hrir/ir.wav\""));
    assert!(text.contains("My Device"));
    assert!(text.contains("effect_input.virtual-surround-7.1-irategoose"));
}

#[test]
fn test_extract_rejects_text_without_filename() {
    assert!(extract_filename_from_config("node.name = \"something\"\n").is_err());
    // An empty path is no match either.
    assert!(extract_filename_from_config("filename = \"\"\n").is_err());
}

#[test]
fn test_extract_takes_first_match() {
    let text = "filename = \"/first.wav\"\nfilename = \"/second.wav\"\n";
    assert_eq!(
        extract_filename_from_config(text),
        Ok("/first.wav".to_string())
    );
}

#[test]
fn test_reload_exit_codes() {
    assert!(reload_ok(Some(0)));
    assert!(reload_ok(Some(5))); // unit not found counts as done
    assert!(!reload_ok(Some(1)));
    assert!(!reload_ok(None)); // terminated by signal
}

#[test]
fn test_install_happy_path() {
    let mut state = install_start();
    // Clearing the staging directory is best-effort: a failure moves on.
    assert_eq!(next_action(&state), Some(SyncAction::ClearStagingDir));
    state = step(&state, false);
    assert_eq!(next_action(&state), Some(SyncAction::CreateStagingDir));
    state = step(&state, true);
    assert_eq!(next_action(&state), Some(SyncAction::CopyWavToStaging));
    state = step(&state, true);
    assert_eq!(next_action(&state), Some(SyncAction::WriteConfigFile));
    state = step(&state, true);
    assert_eq!(next_action(&state), Some(SyncAction::ReloadServices));
    state = step(&state, true);
    assert_eq!(next_action(&state), Some(SyncAction::ProbeState));
    state = step(&state, true);
    assert_eq!(state, SyncState::Done);
    assert_eq!(next_action(&state), None);
}

#[test]
fn test_install_reload_failure_rolls_back_config() {
    let mut state = install_start();
    state = step(&state, true); // staging cleared
    state = step(&state, true); // staging created
    state = step(&state, true); // wav copied
    state = step(&state, true); // config written
    // The reload fails: the machine must delete the config file.
    state = step(&state, false);
    assert_eq!(next_action(&state), Some(SyncAction::RemoveConfigFile));
    state = step(&state, true);
    assert_eq!(state, SyncState::Failed(SyncError::ReloadFailed));
    assert_eq!(next_action(&state), None);
}

#[test]
fn test_install_write_failure_cleans_partial_file() {
    let mut state = install_start();
    state = step(&state, true);
    state = step(&state, true);
    state = step(&state, true);
    state = step(&state, false); // write failed
    assert_eq!(next_action(&state), Some(SyncAction::RemoveConfigFile));
    state = step(&state, true);
    assert_eq!(state, SyncState::Failed(SyncError::WriteFailed));
}

#[test]
fn test_install_early_failures() {
    // The staging directory cannot be created.
    let mut state = install_start();
    state = step(&state, true);
    state = step(&state, false);
    assert_eq!(state, SyncState::Failed(SyncError::StagingDirFailed));

    // The WAV copy fails.
    let mut state = install_start();
    state = step(&state, true);
    state = step(&state, true);
    state = step(&state, false);
    assert_eq!(state, SyncState::Failed(SyncError::CopyFailed));
}

#[test]
fn test_rollback_delete_failures_are_reported_distinctly() {
    // Write fails and the partial file cannot be deleted either.
    let mut state = install_start();
    state = step(&state, true);
    state = step(&state, true);
    state = step(&state, true);
    state = step(&state, false);
    state = step(&state, false);
    assert_eq!(state, SyncState::Failed(SyncError::WriteFailedResidue));

    // Reload fails and the rollback delete fails too.
    let mut state = install_start();
    state = step(&state, true);
    state = step(&state, true);
    state = step(&state, true);
    state = step(&state, true);
    state = step(&state, false);
    state = step(&state, false);
    assert_eq!(state, SyncState::Failed(SyncError::ReloadFailedResidue));
}

#[test]
fn test_remove_delete_failure() {
    let mut state = remove_start();
    state = step(&state, false);
    assert_eq!(state, SyncState::Failed(SyncError::RemoveFailed));
}

#[test]
fn test_install_verify_anomaly() {
    let mut state = install_start();
    state = step(&state, true);
    state = step(&state, true);
    state = step(&state, true);
    state = step(&state, true);
    state = step(&state, true);
    // The freshly written config cannot be read back: a distinct anomaly,
    // neither success nor failure.
    state = step(&state, false);
    assert_eq!(state, SyncState::DoneUnverified);
}

#[test]
fn test_remove_flow() {
    let mut state = remove_start();
    assert_eq!(next_action(&state), Some(SyncAction::RemoveConfigFile));
    state = step(&state, true);
    assert_eq!(next_action(&state), Some(SyncAction::ReloadServices));
    state = step(&state, false);
    // The file is already gone; the reload failure is still reported.
    assert_eq!(state, SyncState::Failed(SyncError::ReloadAfterRemoveFailed));
}

#[test]
fn test_installed_checksum_matches_classify() {
    let mut data = vec![0u8; 44];
    data[0..4].copy_from_slice(b"RIFF");
    data[8..12].copy_from_slice(b"WAVE");
    data[24..28].copy_from_slice(&48000u32.to_le_bytes());
    let expected = xxhash_rust::xxh3::xxh3_64(&data);
    assert_eq!(installed_checksum(&Some(data)), expected);
    assert_eq!(installed_checksum(&None), 0);
    assert_eq!(installed_checksum(&Some(vec![1, 2, 3])), 0);
}

#[test]
fn test_config_paths() {
    assert_eq!(config_path_for("/home/u/.config", true), "/tmp/surround.conf");
    assert_eq!(
        config_path_for("/home/u/.config", false),
        "/home/u/.config/pipewire/pipewire.conf.d/sink-virtual-surround-7.1-irategoose.conf"
    );
    assert_eq!(
        legacy_config_path_for("/home/u/.config"),
        "/home/u/.config/pipewire/pipewire.conf.d/sink-virtual-surround-7.1-hesuvi.conf"
    );
    assert_eq!(
        hrir_dir_for("/home/u/.config/pipewire/pipewire.conf.d"),
        "/home/u/.config/pipewire/pipewire.conf.d/hrir"
    );
    assert_eq!(
        staged_wav_path("/cfg/hrir", "/library/sub/ir.wav"),
        Some("/cfg/hrir/ir.wav".to_string())
    );
    assert_eq!(staged_wav_path("/cfg/hrir", "/library/sub/"), None);
}
