use rusty_search::classify::{classify, read_content, Content, PayloadKind, MAX_PAYLOAD_BYTES};
use rusty_search::greet;
use rusty_search::ingest::{after_lookup, after_url_create, CreateDecision, IngestOutcome, LookupDecision};
use rusty_search::store::{PageStore, Record, RecordId, StoreError, Table};

const PAGE: &str = "<html><head><title>A</title></head><body><h1>Example heading</h1><p>Some example text about crawling.</p></body></html>";

const PNG: [u8; 16] = [
    0x89, 0x50, 0x4E, 0x47, 0x0D, 0x0A, 0x1A, 0x0A, 0, 0, 0, 13, 0x49, 0x48, 0x44, 0x52,
];

#[test]
fn absent_payload_is_empty() {
    assert_eq!(classify(None), PayloadKind::Empty);
}

#[test]
fn html_payload_is_text() {
    assert_eq!(classify(Some(PAGE.as_bytes())), PayloadKind::Text);
}

#[test]
fn empty_body_is_text() {
    assert_eq!(classify(Some(&[])), PayloadKind::Text);
}

#[test]
fn png_payload_is_binary() {
    assert_eq!(classify(Some(&PNG)), PayloadKind::Binary);
}

#[test]
fn oversized_payload_is_binary() {
    let big = vec![b'a'; MAX_PAYLOAD_BYTES + 1];
    assert_eq!(classify(Some(&big)), PayloadKind::Binary);
    let limit = vec![b'a'; MAX_PAYLOAD_BYTES];
    assert_eq!(classify(Some(&limit)), PayloadKind::Text);
}

#[test]
fn text_payload_is_transformed() {
    match read_content(Some(PAGE.as_bytes()), "https://example.test/a") {
        Some(Content::Text(t)) => {
            assert!(t.contains("Example heading"));
            assert!(!t.contains("<h1>"));
            assert!(!t.contains("<p>"));
        }
        other => panic!("expected text, got {:?}", other),
    }
}

#[test]
fn binary_payload_reads_as_binary() {
    assert!(matches!(read_content(Some(&PNG), "https://example.test/a.png"), Some(Content::Binary)));
    assert!(read_content(None, "https://example.test/a").is_none());
}

#[test]
fn ensure_url_twice_keeps_one_record() {
    let mut store = PageStore::new();
    let first = store.ensure_url("https://example.test/a").unwrap();
    let second = store.ensure_url("https://example.test/a").unwrap();
    assert_eq!(first.id, second.id);
    assert_eq!(first.address, "https://example.test/a");
    assert_eq!(store.url_count(), 1);
}

#[test]
fn interleaved_ensure_keeps_one_record() {
    let mut store = PageStore::new();
    assert!(store.find_url("https://example.test/a").is_none());
    assert!(store.find_url("https://example.test/a").is_none());
    let first = store.create_url("https://example.test/a");
    let second = store.create_url("https://example.test/a");
    assert!(first.is_ok());
    assert_eq!(second, Err(StoreError::DuplicateAddress));
    assert_eq!(after_url_create(second), CreateDecision::Skip);
    assert_eq!(store.url_count(), 1);
}

#[test]
fn created_ids_are_fresh() {
    let mut store = PageStore::new();
    let a = store.create_url("https://example.test/a").unwrap();
    let b = store.create_url("https://example.test/b").unwrap();
    assert_eq!(a.id, RecordId { table: Table::Urls, key: 0 });
    assert_eq!(b.id, RecordId { table: Table::Urls, key: 1 });
    let p = store.save_page(a.id, "body".to_string()).unwrap();
    assert_eq!(p.id, RecordId { table: Table::Pages, key: 2 });
    assert_eq!(store.page_count(), 1);
}

#[test]
fn save_page_needs_a_stored_url() {
    let mut store = PageStore::new();
    let missing = RecordId { table: Table::Urls, key: 7 };
    assert_eq!(store.save_page(missing, "body".to_string()), Err(StoreError::UnresolvedUrl));
    assert_eq!(store.page_count(), 0);
}

#[test]
fn create_decisions() {
    let id = RecordId { table: Table::Urls, key: 3 };
    assert_eq!(after_url_create(Ok(Record { id })), CreateDecision::SavePage(id));
    assert_eq!(
        after_url_create(Err(StoreError::KeysExhausted)),
        CreateDecision::Drop(StoreError::KeysExhausted)
    );
}

#[test]
fn single_page_crawl_then_recrawl() {
    let mut store = PageStore::new();
    let target = "https://example.test/a";
    let first = store.ingest(target, Some(PAGE.as_bytes()));
    assert_eq!(first, IngestOutcome::Saved(Record { id: RecordId { table: Table::Pages, key: 1 } }));
    assert_eq!(store.url_count(), 1);
    assert_eq!(store.page_count(), 1);
    let url = store.find_url(target).unwrap();
    assert_eq!(url.address, "https://example.test/a");
    assert_eq!(url.id, Some(RecordId { table: Table::Urls, key: 0 }));
    let again = store.ingest(target, Some(PAGE.as_bytes()));
    assert_eq!(again, IngestOutcome::AlreadyIndexed);
    assert_eq!(store.url_count(), 1);
    assert_eq!(store.page_count(), 1);
}

#[test]
fn binary_and_oversized_payloads_store_nothing() {
    let mut store = PageStore::new();
    assert_eq!(store.ingest("https://example.test/i.png", Some(&PNG)), IngestOutcome::SkippedBinary);
    let big = vec![b'a'; MAX_PAYLOAD_BYTES + 1];
    assert_eq!(store.ingest("https://example.test/big", Some(&big)), IngestOutcome::SkippedBinary);
    assert_eq!(store.ingest("https://example.test/none", None), IngestOutcome::SkippedEmpty);
    assert_eq!(store.url_count(), 0);
    assert_eq!(store.page_count(), 0);
}

#[test]
fn lookup_decisions() {
    assert_eq!(after_lookup(true), LookupDecision::AlreadyIndexed);
    assert_eq!(after_lookup(false), LookupDecision::Create);
}

#[test]
fn greeting_names_the_caller() {
    assert_eq!(greet("Ada"), "Hello, Ada! You've been greeted from Rust!");
}
