use irate_goose::descriptions::Descriptions;
use irate_goose::scanner::{rescan_assemble, sort_records};
use irate_goose::wav::{classify_bytes, classify_read, WaveFileData, WaveSampleRate};

fn wav_with_rate(rate: u32) -> Vec<u8> {
    let mut data = vec![0u8; 44];
    data[0..4].copy_from_slice(b"RIFF");
    data[8..12].copy_from_slice(b"WAVE");
    data[24..28].copy_from_slice(&rate.to_le_bytes());
    data
}

#[test]
fn test_classify_known_rates() {
    let (rate, checksum) = classify_bytes(&wav_with_rate(44100));
    assert_eq!(rate, WaveSampleRate::F44100);
    assert_eq!(checksum, xxhash_rust::xxh3::xxh3_64(&wav_with_rate(44100)));

    let (rate, _) = classify_bytes(&wav_with_rate(48000));
    assert_eq!(rate, WaveSampleRate::F48000);

    let (rate, _) = classify_bytes(&wav_with_rate(96000));
    assert_eq!(rate, WaveSampleRate::F96000);

    let (rate, _) = classify_bytes(&wav_with_rate(22050));
    assert_eq!(rate, WaveSampleRate::Unknown);
}

#[test]
fn test_classify_damaged_inputs() {
    // Too short.
    assert_eq!(classify_bytes(&[0u8; 27]), (WaveSampleRate::Damaged, 0));
    // Wrong RIFF magic.
    let mut bad = wav_with_rate(48000);
    bad[0] = b'X';
    assert_eq!(classify_bytes(&bad), (WaveSampleRate::Damaged, 0));
    // Wrong WAVE magic.
    let mut bad = wav_with_rate(48000);
    bad[9] = b'X';
    assert_eq!(classify_bytes(&bad), (WaveSampleRate::Damaged, 0));
    // Unreadable file.
    assert_eq!(classify_read(&None), (WaveSampleRate::Damaged, 0));
}

#[test]
fn test_valid_wav_checksum_is_nonzero() {
    // Hash-function dependent: a practical near-certainty, not a theorem.
    let (_, checksum) = classify_bytes(&wav_with_rate(48000));
    assert_ne!(checksum, 0);
}

fn record(path: &str) -> WaveFileData {
    WaveFileData {
        path: path.to_string(),
        relative_path: path.to_string(),
        sample_rate: WaveSampleRate::Unknown,
        metadata: None,
        checksum: 0,
    }
}

#[test]
fn test_sort_order_hesuvi_first() {
    let mut records = vec![
        record("HeSuVi/z.wav"),
        record("a.wav"),
        record("HeSuVi/a.wav"),
    ];
    sort_records(&mut records);
    let order: Vec<&str> = records.iter().map(|r| r.path.as_str()).collect();
    assert_eq!(order, vec!["HeSuVi/a.wav", "HeSuVi/z.wav", "a.wav"]);
}

#[test]
fn test_rescan_assemble_pipeline() {
    let paths = vec![
        "/library/plain.wav".to_string(),
        "/library/HeSuVi/special.wav".to_string(),
    ];
    let results = vec![
        (WaveSampleRate::F48000, 11u64),
        (WaveSampleRate::F44100, 22u64),
    ];
    let mut csv = String::from("HRIR;HRTF;Configuration;Description;Source;Credits;Points\n");
    csv.push_str("special;Special;Headphones;described;s;c;5\n");
    let descriptions = Descriptions::from_csv(&csv).unwrap();

    let index = rescan_assemble(&paths, "/library", &results, &descriptions);
    assert_eq!(index.len(), 2);

    // The legacy-compatibility group sorts first.
    let first = index.get_by_index(0).unwrap();
    assert_eq!(first.path, "/library/HeSuVi/special.wav");
    assert_eq!(first.relative_path, "HeSuVi/special.wav");
    assert_eq!(first.sample_rate, WaveSampleRate::F44100);
    assert_eq!(first.checksum, 22);
    let metadata = first.metadata.as_ref().expect("metadata by file stem");
    assert_eq!(metadata.hrtf, "Special");

    let second = index.get_by_index(1).unwrap();
    assert_eq!(second.path, "/library/plain.wav");
    assert_eq!(second.relative_path, "plain.wav");
    assert_eq!(second.checksum, 11);
    assert!(second.metadata.is_none());

    // The checksum map points at the assembled rows.
    assert_eq!(index.get_by_checksum(22).unwrap().path, "/library/HeSuVi/special.wav");
}

#[test]
fn test_path_outside_root_stays_absolute() {
    let paths = vec!["/elsewhere/file.wav".to_string()];
    let results = vec![(WaveSampleRate::Unknown, 5u64)];
    let descriptions = Descriptions::from_csv("").unwrap();
    let index = rescan_assemble(&paths, "/library", &results, &descriptions);
    assert_eq!(index.get_by_index(0).unwrap().relative_path, "/elsewhere/file.wav");
}
