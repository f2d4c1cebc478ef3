use irate_goose::index::{FileFilter, WavFileIndex};
use irate_goose::session::{
    apply_auto_selection, judge_verification, probe_to_state, truncate_description,
    FilteredCache, ProbeError, VerifyOutcome,
};
use irate_goose::settings::{AppSettings, ThemePreference, DEFAULT_VIRTUAL_DEVICE_NAME};
use irate_goose::wav::{WaveFileData, WaveSampleRate};

#[test]
fn test_default_settings() {
    let settings = AppSettings::default();
    assert_eq!(settings.virtual_device_name, DEFAULT_VIRTUAL_DEVICE_NAME);
    assert_eq!(settings.virtual_device_name, "Virtual Surround Sink");
    assert_eq!(settings.theme_preference, ThemePreference::System);
    assert!(!settings.dev_mode);
    assert!(settings.get_wav_directory().is_none());
}

#[test]
fn test_wav_directory_selection() {
    let mut settings = AppSettings::default();
    settings.set_wav_directory(Some("/stored".to_string()));
    assert_eq!(settings.get_wav_directory(), Some("/stored".to_string()));
    // A run-only directory takes precedence without touching the stored one.
    settings.set_temp_wav_directory("/temporary".to_string());
    assert_eq!(settings.get_wav_directory(), Some("/temporary".to_string()));
    assert!(settings.is_wav_directory_set());
}

#[test]
fn test_failed_rescan_leaves_stored_directory_unchanged() {
    let mut settings = AppSettings::default();
    settings.set_wav_directory(Some("/good/previous".to_string()));

    // The rescan of the newly requested directory fails: commit-after-verify
    // keeps the previously stored directory authoritative.
    settings.apply_rescan_outcome("/bad/new".to_string(), false);
    assert_eq!(settings.get_wav_directory(), Some("/good/previous".to_string()));

    // A successful rescan commits the new directory.
    settings.apply_rescan_outcome("/good/new".to_string(), true);
    assert_eq!(settings.get_wav_directory(), Some("/good/new".to_string()));
}

#[test]
fn test_apply_device_name() {
    let mut settings = AppSettings::default();
    assert!(settings.apply_device_name("  My Sink  "));
    assert_eq!(settings.virtual_device_name, "My Sink");
    // An all-whitespace name is rejected and changes nothing.
    assert!(!settings.apply_device_name("   "));
    assert_eq!(settings.virtual_device_name, "My Sink");
}

#[test]
fn test_probe_to_state() {
    assert_eq!(probe_to_state(&Ok(Some(7))), Some(7));
    assert_eq!(probe_to_state(&Ok(Some(0))), Some(0));
    assert_eq!(probe_to_state(&Ok(None)), None);
    assert_eq!(probe_to_state(&Err(ProbeError::Unreadable)), None);
    assert_eq!(probe_to_state(&Err(ProbeError::Malformed)), None);
}

#[test]
fn test_judge_verification() {
    assert_eq!(judge_verification(&Ok(Some(9))), VerifyOutcome::Confirmed(9));
    assert_eq!(judge_verification(&Ok(None)), VerifyOutcome::MissingAfterWrite);
    assert_eq!(
        judge_verification(&Err(ProbeError::Malformed)),
        VerifyOutcome::UnverifiableAfterWrite
    );
}

fn record(path: &str, checksum: u64) -> WaveFileData {
    WaveFileData {
        path: path.to_string(),
        relative_path: path.to_string(),
        sample_rate: WaveSampleRate::F48000,
        metadata: None,
        checksum,
    }
}

#[test]
fn test_auto_selection_follows_installed_config() {
    let all = WavFileIndex::from_vec(vec![record("a.wav", 1), record("b.wav", 2)]);
    let filtered = WavFileIndex::from_vec(vec![record("b.wav", 2)]);

    // The installed checksum exists: it becomes the selection, and the
    // filtered view is asked to scroll to its row.
    let (selected, scroll) = apply_auto_selection(&all, Some(&filtered), Some(2), None);
    assert_eq!(selected, Some(2));
    assert_eq!(scroll, Some(0));

    // An unchanged selection asks for no scroll.
    let (selected, scroll) = apply_auto_selection(&all, Some(&filtered), Some(2), Some(2));
    assert_eq!(selected, Some(2));
    assert_eq!(scroll, None);

    // A checksum that no row carries clears the selection.
    let (selected, scroll) = apply_auto_selection(&all, Some(&filtered), Some(9), Some(2));
    assert_eq!(selected, None);
    assert_eq!(scroll, None);

    // The damaged sentinel selects nothing.
    let (selected, _) = apply_auto_selection(&all, None, Some(0), None);
    assert_eq!(selected, None);

    // No installed config selects nothing.
    let (selected, _) = apply_auto_selection(&all, None, None, Some(1));
    assert_eq!(selected, None);
}

#[test]
fn test_filtered_cache_rebuilds_after_invalidation() {
    let all = WavFileIndex::from_vec(vec![record("a.wav", 1), record("HeSuVi/b.wav", 2)]);
    let mut cache = FilteredCache::new(FileFilter {
        sample_rate: WaveSampleRate::Unknown,
        search: String::new(),
    });
    assert_eq!(cache.get(&all).len(), 2);
    // Narrowing the filter drops the cached copy; the next read rebuilds.
    cache.set_filter(FileFilter {
        sample_rate: WaveSampleRate::Unknown,
        search: "hesuvi".to_string(),
    });
    assert_eq!(cache.get(&all).len(), 1);
    cache.invalidate();
    assert_eq!(cache.get(&all).len(), 1);
    assert_eq!(cache.get(&all).get_by_index(0).unwrap().path, "HeSuVi/b.wav");
}

#[test]
fn test_truncate_description() {
    let short = "a short description";
    assert_eq!(truncate_description(short), short);

    let long = "x".repeat(300);
    let truncated = truncate_description(&long);
    assert_eq!(truncated.chars().count(), 240);
    assert!(truncated.ends_with("..."));
    // Trailing whitespace before the cut is trimmed.
    let mut spaced = "y".repeat(230);
    spaced.push_str("          ");
    spaced.push_str(&"z".repeat(60));
    let truncated = truncate_description(&spaced);
    assert_eq!(truncated, format!("{}...", "y".repeat(230)));
}
