use std::sync::Mutex;

use rayon::iter::{IndexedParallelIterator, IntoParallelRefIterator, ParallelIterator};

use ufc::engine::{classify, decide, select, file_name_of, CopyDecision, RunConfig};
use ufc::filter::{FilterError, NameFilter};
use ufc::fingerprint::{decimal_chars, fingerprint, u128_from_be};
use ufc::index::{Claim, DedupIndex, IndexError};
use ufc::paths::{backup_path, destination_path};
use ufc::stats::{RunStats, ScanEvent};
use ufc::text::{chars_of, lower_ascii};

fn config(dry_run: bool, overwrite: bool, keep_copy: bool, prefix: bool) -> RunConfig {
    RunConfig {
        src_dir: "/src".to_string(),
        dst_dir: "/dst".to_string(),
        dry_run,
        overwrite,
        keep_copy,
        name_prefix_checksum: prefix,
    }
}

fn temp_index(dir: &tempfile::TempDir) -> DedupIndex {
    let p = dir.path().join(".kv.db");
    DedupIndex::open(p.to_str().unwrap()).unwrap()
}

#[test]
fn chars_and_ascii_lowering() {
    assert_eq!(chars_of("aBc"), vec!['a', 'B', 'c']);
    assert_eq!(lower_ascii(&vec!['P', 'h', 'O', '.', 'J', 'é', 'Z']), vec!['p', 'h', 'o', '.', 'j', 'é', 'z']);
}

#[test]
fn fingerprint_is_md5_big_endian() {
    assert_eq!(fingerprint(b""), 0xd41d8cd98f00b204e9800998ecf8427e);
    assert_eq!(fingerprint(b"abc"), 0x900150983cd24fb0d6963f7d28e17f72);
    assert_eq!(fingerprint(b"abc"), fingerprint(&b"abc".to_vec()));
    assert_ne!(fingerprint(b"abc"), fingerprint(b"abd"));
}

#[test]
fn be_bytes_to_integer() {
    let mut b = vec![0u8; 16];
    b[15] = 1;
    b[0] = 0x80;
    assert_eq!(u128_from_be(&b), (1u128 << 127) + 1);
    assert_eq!(u128_from_be(&vec![0xff; 16]), u128::MAX);
}

#[test]
fn decimal_text() {
    assert_eq!(decimal_chars(0), vec!['0']);
    assert_eq!(decimal_chars(1203), vec!['1', '2', '0', '3']);
    let s: String = decimal_chars(u128::MAX).into_iter().collect();
    assert_eq!(s, u128::MAX.to_string());
}

#[test]
fn destination_mirrors_relative_path() {
    assert_eq!(destination_path("/dst", "/src", "/src/a/b.txt", None), "/dst/a/b.txt");
    assert_eq!(destination_path("/dst/", "/src/", "/src/a/b.txt", None), "/dst/a/b.txt");
    assert_eq!(destination_path("dst", "src", "src/b.txt", None), "dst/b.txt");
}

#[test]
fn destination_with_checksum_prefix() {
    assert_eq!(destination_path("/dst", "/src", "/src/a/b.txt", Some(42)), "/dst/a/42-b.txt");
    assert_eq!(destination_path("/dst", "/src", "/src/b.txt", Some(7)), "/dst/7-b.txt");
}

#[test]
fn destination_fallback_outside_root() {
    assert_eq!(destination_path("/dst", "/src", "../x/y.txt", None), "/dst/x/y.txt");
    assert_eq!(destination_path("/dst", "/src", "/srcother/y.txt", None), "/dst/srcother/y.txt");
    assert_eq!(destination_path("/dst", "/src", "./a/./b", None), "/dst/a/./b");
}

#[test]
fn distinct_sources_distinct_destinations() {
    let a = destination_path("/dst", "/src", "/src/a/1-x", Some(12));
    let b = destination_path("/dst", "/src", "/src/a/x", Some(121));
    assert_ne!(a, b);
    assert_eq!(a, "/dst/a/12-1-x");
    assert_eq!(b, "/dst/a/121-x");
}

#[test]
fn backup_name_in_same_directory() {
    assert_eq!(backup_path("/d/a/f.txt", 123), "/d/a/Copy-123-f.txt");
    assert_eq!(backup_path("f.txt", 0), "Copy-0-f.txt");
}

#[test]
fn filter_is_case_insensitive() {
    let f = NameFilter::new("\\.jpg$").unwrap();
    assert!(f.accepts("Photo.JPG"));
    assert!(f.accepts("photo.jpg"));
    assert!(!f.accepts("Photo.jpgx"));
}

#[test]
fn filter_pattern_is_lowered() {
    let f = NameFilter::new("\\.JPG$").unwrap();
    assert!(f.accepts("a.jpg"));
    assert!(f.accepts("A.JPG"));
}

#[test]
fn invalid_pattern_is_refused() {
    assert!(matches!(NameFilter::new("(unclosed"), Err(FilterError::InvalidPattern)));
}

#[test]
fn images_only_filter() {
    let f = NameFilter::images_only().unwrap();
    assert!(f.accepts("x.PNG"));
    assert!(f.accepts("scan.tiff"));
    assert!(!f.accepts("notes.txt"));
}

#[test]
fn selection_uses_base_name_only() {
    let f = NameFilter::new("\\.jpg$").unwrap();
    assert!(!select(Some(&f), "/src/album.jpg/notes.txt"));
    assert!(select(Some(&f), "/src/a/PHOTO.JPG"));
    assert!(select(None, "/src/anything"));
    assert_eq!(file_name_of("/a/b/c.txt"), "c.txt");
    assert_eq!(file_name_of("c.txt"), "c.txt");
}

#[test]
fn index_inserts_once() {
    let dir = tempfile::TempDir::new().unwrap();
    let mut idx = temp_index(&dir);
    assert_eq!(idx.insert_if_absent(5, &"/src/a".to_string()), Ok(Claim::Inserted));
    assert_eq!(idx.insert_if_absent(5, &"/src/b".to_string()), Ok(Claim::AlreadyPresent));
    assert_eq!(idx.insert_if_absent(6, &"/src/b".to_string()), Ok(Claim::Inserted));
}

#[test]
fn index_persists_across_runs() {
    let dir = tempfile::TempDir::new().unwrap();
    let cfg = config(false, false, false, false);
    {
        let mut idx = temp_index(&dir);
        let c = classify(&mut idx, &cfg, &"/src/a.txt".to_string(), b"one").unwrap();
        assert!(c.is_new);
        let c = classify(&mut idx, &cfg, &"/src/b.txt".to_string(), b"two").unwrap();
        assert!(c.is_new);
    }
    let mut idx = temp_index(&dir);
    for (p, d) in [("/src/a.txt", b"one"), ("/src/b.txt", b"two")] {
        let c = classify(&mut idx, &cfg, &p.to_string(), d).unwrap();
        assert!(!c.is_new);
        assert_eq!(decide(&cfg, c.is_new, false), CopyDecision::SkipDuplicate);
    }
}

#[test]
fn index_open_failure() {
    assert_eq!(DedupIndex::open("/dev/null/sub/.kv.db").err(), Some(IndexError::Open));
}

#[test]
fn identical_content_copied_once() {
    let dir = tempfile::TempDir::new().unwrap();
    let mut idx = temp_index(&dir);
    let cfg = config(false, false, false, false);
    let a = classify(&mut idx, &cfg, &"/src/x/a.bin".to_string(), b"same").unwrap();
    let b = classify(&mut idx, &cfg, &"/src/y/b.bin".to_string(), b"same").unwrap();
    let c = classify(&mut idx, &cfg, &"/src/c.bin".to_string(), b"other").unwrap();
    assert!(a.is_new);
    assert!(!b.is_new);
    assert!(c.is_new);
    assert_eq!(a.fingerprint, b.fingerprint);
    assert_eq!(a.destination, "/dst/x/a.bin");
    assert_eq!(c.destination, "/dst/c.bin");
}

#[test]
fn classify_with_prefix() {
    let dir = tempfile::TempDir::new().unwrap();
    let mut idx = temp_index(&dir);
    let cfg = config(false, false, false, true);
    let c = classify(&mut idx, &cfg, &"/src/a/b.txt".to_string(), b"abc").unwrap();
    let h = 0x900150983cd24fb0d6963f7d28e17f72u128;
    assert_eq!(c.fingerprint, h);
    assert_eq!(c.destination, format!("/dst/a/{}-b.txt", h));
}

#[test]
fn conflict_policies() {
    assert_eq!(decide(&config(false, false, false, false), true, true), CopyDecision::SkipExisting);
    assert_eq!(decide(&config(false, true, false, false), true, true), CopyDecision::Copy);
    assert_eq!(decide(&config(false, false, true, false), true, true), CopyDecision::BackupThenCopy);
    assert_eq!(decide(&config(false, true, true, false), true, true), CopyDecision::BackupThenCopy);
    assert_eq!(decide(&config(false, false, false, false), true, false), CopyDecision::Copy);
    assert_eq!(decide(&config(false, true, true, false), false, true), CopyDecision::SkipDuplicate);
}

#[test]
fn dry_run_decisions() {
    assert_eq!(decide(&config(true, false, false, false), true, false), CopyDecision::DryRunRecorded);
    assert_eq!(decide(&config(true, false, true, false), true, true), CopyDecision::DryRunRecorded);
    assert_eq!(decide(&config(true, false, false, false), true, true), CopyDecision::SkipExisting);
    assert_eq!(decide(&config(true, false, false, false), false, false), CopyDecision::SkipDuplicate);
}

#[test]
fn dry_run_counts_match_real_run() {
    let mut dry = RunStats::new();
    let mut real = RunStats::new();
    for (is_new, exists) in [(true, false), (false, false), (true, true)] {
        dry.record(ScanEvent::FileProcessed(decide(&config(true, false, false, false), is_new, exists), 10));
        real.record(ScanEvent::FileProcessed(decide(&config(false, false, false, false), is_new, exists), 10));
    }
    assert_eq!(dry, real);
    assert_eq!(real.duplicates, 2);
    assert_eq!(real.duplicate_bytes, 20);
    assert_eq!(real.bytes_created, 10);
}

#[test]
fn stats_count_events() {
    let mut s = RunStats::new();
    s.record(ScanEvent::DirVisited);
    s.record(ScanEvent::DirVisited);
    s.record(ScanEvent::FileFound);
    s.record(ScanEvent::FileProcessed(CopyDecision::Copy, 100));
    s.record(ScanEvent::FileProcessed(CopyDecision::SkipDuplicate, 40));
    assert_eq!(s.dirs_scanned, 2);
    assert_eq!(s.files_scanned, 1);
    assert_eq!(s.files_processed, 2);
    assert_eq!(s.duplicates, 1);
    assert_eq!(s.duplicate_bytes, 40);
    assert_eq!(s.bytes_created, 100);
    s.record(ScanEvent::FileProcessed(CopyDecision::BackupThenCopy, u64::MAX));
    assert_eq!(s.bytes_created, u64::MAX);
}

#[test]
fn parallel_workers_one_winner() {
    let dir = tempfile::TempDir::new().unwrap();
    let idx = Mutex::new(temp_index(&dir));
    let cfg = config(false, false, false, false);
    let contents: Vec<Vec<u8>> = (0..64).map(|i| format!("content {}", i % 4).into_bytes()).collect();
    let results: Vec<(u128, bool)> = contents
        .par_iter()
        .enumerate()
        .with_max_len(1)
        .map(|(i, d)| {
            let path = format!("/src/f{}", i);
            let c = classify(&mut idx.lock().unwrap(), &cfg, &path, d).unwrap();
            (c.fingerprint, c.is_new)
        })
        .collect();
    for k in 0..4 {
        let h = fingerprint(format!("content {}", k).as_bytes());
        let winners = results.iter().filter(|(f, new)| *f == h && *new).count();
        assert_eq!(winners, 1);
    }
    assert_eq!(results.iter().filter(|(_, new)| *new).count(), 4);
}
