use local_memory::diagnostics::extract_preview;
use local_memory::diagnostics::seconds_left;
use local_memory::diagnostics::size_unit;
use local_memory::diagnostics::standing;
use local_memory::diagnostics::tally;
use local_memory::diagnostics::MemoryStats;
use local_memory::diagnostics::SizeUnit;
use local_memory::diagnostics::Standing;
use local_memory::storage::tier::MemoryTier;

#[test]
fn only_an_episodic_memory_expires() {
    assert_eq!(standing(MemoryTier::Semantic, None, 10), Standing::Semantic);
    assert_eq!(standing(MemoryTier::Semantic, Some(5), 10), Standing::Semantic);
    assert_eq!(standing(MemoryTier::Episodic, None, 10), Standing::Episodic);
    assert_eq!(standing(MemoryTier::Episodic, Some(11), 10), Standing::Episodic);
    assert_eq!(standing(MemoryTier::Episodic, Some(10), 10), Standing::Expired);
    assert_eq!(standing(MemoryTier::Episodic, Some(5), 10), Standing::Expired);
}

#[test]
fn tally_counts_each_standing() {
    let entries = vec![
        (MemoryTier::Semantic, None),
        (MemoryTier::Episodic, Some(2000)),
        (MemoryTier::Episodic, Some(500)),
        (MemoryTier::Episodic, None),
        (MemoryTier::Semantic, Some(1)),
        (MemoryTier::Episodic, Some(1000)),
    ];
    assert_eq!(
        tally(&entries, 1000),
        MemoryStats { total: 6, semantic: 2, episodic: 2, expired: 2 }
    );
    assert_eq!(tally(&entries, 0), MemoryStats { total: 6, semantic: 2, episodic: 4, expired: 0 });
    assert_eq!(tally(&vec![], 1000), MemoryStats { total: 0, semantic: 0, episodic: 0, expired: 0 });
}

#[test]
fn sizes_are_shown_in_the_largest_unit_reached() {
    assert_eq!(size_unit(0), (SizeUnit::Bytes, 1));
    assert_eq!(size_unit(1023), (SizeUnit::Bytes, 1));
    assert_eq!(size_unit(1024), (SizeUnit::Kilobytes, 1024));
    assert_eq!(size_unit(1024 * 1024 - 1), (SizeUnit::Kilobytes, 1024));
    assert_eq!(size_unit(1024 * 1024), (SizeUnit::Megabytes, 1024 * 1024));
    assert_eq!(size_unit(1024 * 1024 * 1024 - 1), (SizeUnit::Megabytes, 1024 * 1024));
    assert_eq!(size_unit(1024 * 1024 * 1024), (SizeUnit::Gigabytes, 1024 * 1024 * 1024));
    assert_eq!(size_unit(u64::MAX), (SizeUnit::Gigabytes, 1024 * 1024 * 1024));
}

#[test]
fn seconds_left_until_expiry() {
    assert_eq!(seconds_left(1000, 400), Some(600));
    assert_eq!(seconds_left(1000, 999), Some(1));
    assert_eq!(seconds_left(1000, 1000), None);
    assert_eq!(seconds_left(1000, 5000), None);
    assert_eq!(seconds_left(0, 0), None);
}

#[test]
fn a_long_text_is_cut_and_dotted() {
    assert_eq!(extract_preview("hello world", 5), "hello...");
    assert_eq!(extract_preview("hello world", 11), "hello world");
    assert_eq!(extract_preview("hello world", 50), "hello world");
    assert_eq!(extract_preview("hello world", 0), "...");
    assert_eq!(extract_preview("", 0), "");
    let long = "x".repeat(60);
    assert_eq!(extract_preview(&long, 50), format!("{}...", "x".repeat(50)));
}

#[test]
fn a_text_is_cut_by_bytes_between_characters() {
    assert_eq!(extract_preview("héllo", 3), "hé...");
    assert_eq!(extract_preview("héllo", 6), "héllo");
    assert_eq!(extract_preview("日本語", 3), "日...");
    assert_eq!(extract_preview("日本語", 9), "日本語");
}
