use irate_goose::index::{FileFilter, WavFileIndex};
use irate_goose::wav::{WaveFileData, WaveSampleRate};

fn record(path: &str, rate: WaveSampleRate, checksum: u64) -> WaveFileData {
    WaveFileData {
        path: path.to_string(),
        relative_path: path.to_string(),
        sample_rate: rate,
        metadata: None,
        checksum,
    }
}

#[test]
fn test_get_by_checksum_zero_is_never_found() {
    let mut index = WavFileIndex::new();
    assert!(index.get_by_checksum(0).is_none());
    // Even a stored damaged record (checksum 0) is not reachable by lookup.
    index.add(record("broken.wav", WaveSampleRate::Damaged, 0));
    index.add(record("fine.wav", WaveSampleRate::F48000, 77));
    assert!(index.get_by_checksum(0).is_none());
    assert!(index.get_by_checksum(77).is_some());
}

#[test]
fn test_duplicate_checksum_returns_later_record() {
    let mut index = WavFileIndex::new();
    index.add(record("first.wav", WaveSampleRate::F48000, 42));
    index.add(record("second.wav", WaveSampleRate::F44100, 42));
    let hit = index.get_by_checksum(42).expect("checksum should be found");
    assert_eq!(hit.path, "second.wav");

    // The same holds when the index is built in one go.
    let records = vec![
        record("first.wav", WaveSampleRate::F48000, 42),
        record("second.wav", WaveSampleRate::F44100, 42),
    ];
    let index = WavFileIndex::from_vec(records);
    assert_eq!(index.get_by_checksum(42).unwrap().path, "second.wav");
    assert_eq!(index.index_of_checksum(42), Some(1));
}

#[test]
fn test_filtered_clone_is_idempotent() {
    let records = vec![
        record("a.wav", WaveSampleRate::F48000, 1),
        record("b.wav", WaveSampleRate::F44100, 2),
        record("c.wav", WaveSampleRate::F48000, 3),
        record("broken.wav", WaveSampleRate::Damaged, 0),
    ];
    let index = WavFileIndex::from_vec(records);
    let filter = FileFilter {
        sample_rate: WaveSampleRate::F48000,
        search: String::new(),
    };
    let once = index.filtered_clone(&filter);
    let twice = once.filtered_clone(&filter);
    assert_eq!(once.len(), 2);
    assert_eq!(twice.len(), once.len());
    for i in 0..once.len() {
        assert_eq!(
            once.get_by_index(i).unwrap().path,
            twice.get_by_index(i).unwrap().path
        );
    }
}

#[test]
fn test_filtered_clone_search_is_case_insensitive() {
    let records = vec![
        record("HeSuVi/ATMOS.wav", WaveSampleRate::F48000, 1),
        record("other.wav", WaveSampleRate::F48000, 2),
    ];
    let index = WavFileIndex::from_vec(records);
    let filter = FileFilter {
        sample_rate: WaveSampleRate::Unknown,
        search: "atmos".to_string(),
    };
    let filtered = index.filtered_clone(&filter);
    assert_eq!(filtered.len(), 1);
    assert_eq!(filtered.get_by_index(0).unwrap().path, "HeSuVi/ATMOS.wav");
}

#[test]
fn test_damaged_filter_matches_nothing() {
    let records = vec![
        record("a.wav", WaveSampleRate::F48000, 1),
        record("broken.wav", WaveSampleRate::Damaged, 0),
    ];
    let index = WavFileIndex::from_vec(records);
    let filter = FileFilter {
        sample_rate: WaveSampleRate::Damaged,
        search: String::new(),
    };
    assert_eq!(index.filtered_clone(&filter).len(), 0);
}

#[test]
fn test_basic_index_operations() {
    let mut index = WavFileIndex::new();
    assert_eq!(index.len(), 0);
    assert!(index.get_by_index(0).is_none());
    index.add(record("x.wav", WaveSampleRate::F96000, 9));
    assert_eq!(index.len(), 1);
    assert_eq!(index.get_by_index(0).unwrap().checksum, 9);
    assert_eq!(index.iter().len(), 1);
    index.shrink_to_fit();
    assert_eq!(index.len(), 1);
    index.clear();
    assert_eq!(index.len(), 0);
    assert!(index.get_by_checksum(9).is_none());
}
