use statusline::seqlock::{begin_write_seq, end_write_seq, read_step, snapshot_is_consistent, ReadStep};
use statusline::shared::{bytes_to_str, str_to_bytes, SharedCacheData, SharedVcsInfo, SHARED_MAGIC, SHARED_VERSION};
use statusline::types::{CacheData, QuotaItem, VcsInfo};

fn item(id: &str, name: &str, bits: u64, reset: Option<&str>) -> QuotaItem {
    QuotaItem {
        id: id.to_string(),
        display_name: name.to_string(),
        remaining_fraction_bits: bits,
        reset_time: reset.map(|s| s.to_string()),
    }
}

fn vcs() -> VcsInfo {
    VcsInfo {
        cwd: "C:/work/project".to_string(),
        branch: "main".to_string(),
        dirty: true,
        ahead: 2,
        behind: 1,
        modified: 7,
        last_checked: 1_700_000_000,
        head_mtime: Some(11),
        index_mtime: None,
        remote_web_url: Some("https://example.org/repo".to_string()),
        insertions: 12,
        deletions: 5,
    }
}

fn same_item(a: &QuotaItem, b: &QuotaItem) -> bool {
    a.id == b.id
        && a.display_name == b.display_name
        && a.remaining_fraction_bits == b.remaining_fraction_bits
        && a.reset_time == b.reset_time
}

fn same_vcs(a: &VcsInfo, b: &VcsInfo) -> bool {
    a.cwd == b.cwd
        && a.branch == b.branch
        && a.dirty == b.dirty
        && a.ahead == b.ahead
        && a.behind == b.behind
        && a.modified == b.modified
        && a.last_checked == b.last_checked
        && a.head_mtime == b.head_mtime
        && a.index_mtime == b.index_mtime
        && a.remote_web_url == b.remote_web_url
        && a.insertions == b.insertions
        && a.deletions == b.deletions
}

#[test]
fn str_to_bytes_pads_with_zeros() {
    let b: [u8; 8] = str_to_bytes("abc");
    assert_eq!(b, [97, 98, 99, 0, 0, 0, 0, 0]);
}

#[test]
fn str_to_bytes_cuts_long_text() {
    let b: [u8; 4] = str_to_bytes("abcdefg");
    assert_eq!(b, [97, 98, 99, 100]);
}

#[test]
fn str_to_bytes_keeps_utf8_bytes() {
    let b: [u8; 4] = str_to_bytes("\u{e9}");
    assert_eq!(b, [0xc3, 0xa9, 0, 0]);
}

#[test]
fn bytes_to_str_drops_trailing_nuls() {
    assert_eq!(bytes_to_str(&[104, 105, 0, 0, 0]), "hi");
    assert_eq!(bytes_to_str(&[0, 0]), "");
    assert_eq!(bytes_to_str(&[]), "");
}

#[test]
fn bytes_to_str_keeps_inner_nul() {
    assert_eq!(bytes_to_str(&[97, 0, 98, 0]), "a\u{0}b");
}

#[test]
fn bytes_to_str_replaces_invalid_utf8() {
    assert_eq!(bytes_to_str(&[0xff, 65, 0]), "\u{fffd}A");
}

#[test]
fn bytes_to_str_decodes_cut_character_lossily() {
    // A two-byte character cut after its first byte.
    let b: [u8; 2] = str_to_bytes("a\u{e9}");
    assert_eq!(bytes_to_str(&b), "a\u{fffd}");
}

#[test]
fn text_field_round_trip() {
    let b: [u8; 64] = str_to_bytes("Gemini 3.5 Flash");
    assert_eq!(bytes_to_str(&b), "Gemini 3.5 Flash");
}

#[test]
fn cache_round_trip_through_shared_record() {
    let data = CacheData {
        quota: vec![
            item("gemini-3-flash", "Gemini 3.5 Flash", 0.75f64.to_bits(), Some("2030-01-01T00:00:00Z")),
            item("orion", "Orion Large 3.5", 0.1f64.to_bits(), None),
        ],
        vcs: Some(vcs()),
        last_refreshed: 42,
        token_hash: Some("abc".to_string()),
        needs_login: Some(false),
    };
    let rec = SharedCacheData::from_cache_data(&data);
    assert_eq!(rec.magic, SHARED_MAGIC);
    assert_eq!(rec.version, SHARED_VERSION);
    assert_eq!(rec.seq, 0);
    assert_eq!(rec.quota_count, 2);
    assert_eq!(rec.needs_login, 2);
    assert_eq!(rec.has_vcs, 1);
    let back = rec.to_cache_data();
    assert_eq!(back.quota.len(), 2);
    assert!(same_item(&back.quota[0], &data.quota[0]));
    assert!(same_item(&back.quota[1], &data.quota[1]));
    assert!(same_vcs(back.vcs.as_ref().unwrap(), &vcs()));
    assert_eq!(back.last_refreshed, 42);
    assert_eq!(back.token_hash, None);
    assert_eq!(back.needs_login, Some(false));
    assert_eq!(f64::from_bits(back.quota[0].remaining_fraction_bits), 0.75);
}

#[test]
fn shared_record_keeps_at_most_sixteen_quotas() {
    let quota: Vec<QuotaItem> = (0..20).map(|i| item(&format!("m{}", i), "M", i, None)).collect();
    let data = CacheData { quota, vcs: None, last_refreshed: 0, token_hash: None, needs_login: None };
    let rec = SharedCacheData::from_cache_data(&data);
    assert_eq!(rec.quota_count, 16);
    let back = rec.to_cache_data();
    assert_eq!(back.quota.len(), 16);
    assert_eq!(back.quota[15].id, "m15");
    assert!(back.vcs.is_none());
    assert_eq!(rec.has_vcs, 0);
    assert_eq!(rec.needs_login, 0);
}

#[test]
fn shared_record_clamps_quota_count_when_reading() {
    let data = CacheData { quota: vec![], vcs: None, last_refreshed: 0, token_hash: None, needs_login: Some(true) };
    let mut rec = SharedCacheData::from_cache_data(&data);
    assert_eq!(rec.needs_login, 1);
    rec.quota_count = 40;
    let back = rec.to_cache_data();
    assert_eq!(back.quota.len(), 16);
    assert_eq!(back.quota[3].id, "");
    assert_eq!(back.needs_login, Some(true));
}

#[test]
fn unknown_login_code_reads_as_unknown() {
    let data = CacheData { quota: vec![], vcs: None, last_refreshed: 0, token_hash: None, needs_login: None };
    let mut rec = SharedCacheData::from_cache_data(&data);
    rec.needs_login = 9;
    assert_eq!(rec.to_cache_data().needs_login, None);
}

#[test]
fn empty_optional_texts_and_zero_times_read_back_absent() {
    let mut v = vcs();
    v.remote_web_url = Some(String::new());
    v.head_mtime = Some(0);
    let data = CacheData {
        quota: vec![item("a", "A", 0, Some(""))],
        vcs: Some(v),
        last_refreshed: 1,
        token_hash: None,
        needs_login: None,
    };
    let back = SharedCacheData::from_cache_data(&data).to_cache_data();
    assert_eq!(back.quota[0].reset_time, None);
    let bv = back.vcs.unwrap();
    assert_eq!(bv.remote_web_url, None);
    assert_eq!(bv.head_mtime, None);
}

#[test]
fn blank_vcs_record_is_zero() {
    let b = SharedVcsInfo::blank();
    assert!(b.cwd.iter().all(|x| *x == 0));
    assert_eq!(b.dirty, 0);
}

#[test]
fn header_check() {
    let data = CacheData { quota: vec![], vcs: None, last_refreshed: 0, token_hash: None, needs_login: None };
    let mut rec = SharedCacheData::from_cache_data(&data);
    assert!(rec.has_current_header());
    rec.version = 5;
    assert!(!rec.has_current_header());
}

#[test]
fn writer_sequence_numbers() {
    assert_eq!(begin_write_seq(4), 5);
    assert_eq!(begin_write_seq(5), 7);
    assert_eq!(begin_write_seq(u32::MAX), 1);
    assert_eq!(end_write_seq(5), 6);
    assert_eq!(end_write_seq(begin_write_seq(u32::MAX - 1)), 0);
}

#[test]
fn reader_consistency() {
    assert!(snapshot_is_consistent(6, 6));
    assert!(!snapshot_is_consistent(5, 5));
    assert!(!snapshot_is_consistent(6, 8));
    // A copy that spans a whole write is rejected.
    assert!(!snapshot_is_consistent(6, end_write_seq(begin_write_seq(6))));
}

#[test]
fn reader_steps() {
    assert!(matches!(read_step(1, 6, 6), ReadStep::Accept));
    assert!(matches!(read_step(0, 5, 5), ReadStep::Retry));
    assert!(matches!(read_step(1, 4, 6), ReadStep::Retry));
    assert!(matches!(read_step(2, 5, 5), ReadStep::GiveUp));
}

#[test]
fn read_after_write_gives_back_the_data() {
    let data = CacheData {
        quota: vec![item("m1", "Model One", 0x3fe0_0000_0000_0000, Some("2025-01-01T00:00:00Z"))],
        vcs: Some(vcs()),
        last_refreshed: 42,
        token_hash: Some("abc".to_string()),
        needs_login: Some(false),
    };
    for current in [0u32, 7, u32::MAX - 1, u32::MAX] {
        // The writer marks the counter busy, writes the record, publishes.
        let writing = begin_write_seq(current);
        let mut stored = SharedCacheData::from_cache_data(&data);
        stored.seq = end_write_seq(writing);
        // The reader finds the header and keeps its first copy.
        assert!(stored.has_current_header());
        assert!(snapshot_is_consistent(stored.seq, stored.seq));
        assert!(matches!(read_step(0, stored.seq, stored.seq), ReadStep::Accept));
        let back = stored.to_cache_data();
        assert_eq!(back.quota.len(), 1);
        assert!(same_item(&back.quota[0], &data.quota[0]));
        assert!(same_vcs(back.vcs.as_ref().unwrap(), data.vcs.as_ref().unwrap()));
        assert_eq!(back.last_refreshed, 42);
        assert_eq!(back.token_hash, None);
        assert_eq!(back.needs_login, Some(false));
    }
}
