use rustpad::block::Block;
use rustpad::cache::{Cache, CacheConfig, CacheEntry, CacheSection};
use rustpad::cache_file::{frame, unframe, EnvelopeError, CACHE_FILE_NAME};
use rustpad::calibration_response::CalibrationResponse;
use rustpad::oracle_location::OracleLocation;

fn block(byte: u8) -> Block {
    Block::from_bytes(&[byte; 16])
}

fn web(url: &str, status: Option<u16>) -> CacheConfig {
    CacheConfig::new(
        OracleLocation::Web(url.to_string()),
        status.map(|code| CalibrationResponse::from_parts(code, None, None, None)),
    )
}

#[test]
fn cache_remembers_what_was_inserted() {
    let mut cache = Cache::new(web("http://oracle/", Some(403)));
    assert!(cache.get(&(block(1), block(2))).is_none());
    cache.insert((block(1), block(2)), block(3));
    cache.insert((block(2), block(1)), block(4));
    assert_eq!(cache.get(&(block(1), block(2))).unwrap().to_bytes(), vec![3u8; 16]);
    assert_eq!(cache.get(&(block(2), block(1))).unwrap().to_bytes(), vec![4u8; 16]);
    assert!(cache.get(&(block(1), block(1))).is_none());
    assert!(cache.get(&(block(2), block(2))).is_none());
    assert_eq!(cache.entries().len(), 2);
}

#[test]
fn inserting_again_replaces_the_solution() {
    let mut cache = Cache::new(web("http://oracle/", None));
    cache.insert((block(1), block(2)), block(3));
    cache.insert((block(5), block(6)), block(7));
    cache.insert((block(1), block(2)), block(9));
    assert_eq!(cache.entries().len(), 2);
    assert_eq!(cache.get(&(block(1), block(2))).unwrap().to_bytes(), vec![9u8; 16]);
    assert_eq!(cache.get(&(block(5), block(6))).unwrap().to_bytes(), vec![7u8; 16]);
}

#[test]
fn cache_is_kept_apart_per_oracle() {
    let entry = |byte: u8| CacheEntry { previous: block(1), target: block(2), solution: block(byte) };
    let sections = vec![
        CacheSection { config: web("http://other/", Some(403)), entries: vec![entry(10)] },
        CacheSection { config: web("http://oracle/", Some(500)), entries: vec![entry(20)] },
        CacheSection { config: web("http://oracle/", Some(403)), entries: vec![entry(30)] },
        CacheSection { config: web("http://oracle/", None), entries: vec![entry(40)] },
    ];
    let cache = Cache::load(web("http://oracle/", Some(403)), sections);
    assert_eq!(cache.get(&(block(1), block(2))).unwrap().to_bytes(), vec![30u8; 16]);
    assert_eq!(cache.others().len(), 3);
    assert!(cache.config().same_as(&web("http://oracle/", Some(403))));

    let stored = cache.sections();
    assert_eq!(stored.len(), 4);
    assert!(stored[0].config.same_as(&web("http://oracle/", Some(403))));
    assert_eq!(stored[0].entries[0].solution.to_bytes(), vec![30u8; 16]);
    assert!(stored[1].config.same_as(&web("http://other/", Some(403))));
    assert!(stored[2].config.same_as(&web("http://oracle/", Some(500))));
    assert!(stored[3].config.same_as(&web("http://oracle/", None)));
    assert_eq!(stored[3].entries[0].solution.to_bytes(), vec![40u8; 16]);
}

#[test]
fn unknown_oracle_starts_with_an_empty_cache() {
    let entry = CacheEntry { previous: block(1), target: block(2), solution: block(3) };
    let sections =
        vec![CacheSection { config: web("http://other/", Some(403)), entries: vec![entry] }];
    let mut cache =
        Cache::load(CacheConfig::new(OracleLocation::Script("/bin/oracle".to_string()), None), sections);
    assert!(cache.get(&(block(1), block(2))).is_none());
    assert_eq!(cache.entries().len(), 0);
    cache.insert((block(1), block(2)), block(8));
    let stored = cache.sections();
    assert_eq!(stored.len(), 2);
    assert_eq!(stored[0].entries.len(), 1);
    assert_eq!(stored[1].entries[0].solution.to_bytes(), vec![3u8; 16]);
}

#[test]
fn oracles_differ_by_kind_place_and_calibration() {
    let script = CacheConfig::new(OracleLocation::Script("http://oracle/".to_string()), None);
    assert!(!script.same_as(&web("http://oracle/", None)));
    assert!(!web("http://oracle/", None).same_as(&web("http://oracle/", Some(200))));
    assert!(!web("http://oracle/", Some(201)).same_as(&web("http://oracle/", Some(200))));
    assert!(!web("http://oracle/a", Some(200)).same_as(&web("http://oracle/b", Some(200))));
    assert!(web("http://oracle/", Some(200)).same_as(&web("http://oracle/", Some(200))));
    assert!(script.same_as(&script.duplicate()));
    assert!(script.oracle_location().same_as(&OracleLocation::Script("http://oracle/".to_string())));
    assert!(!script.oracle_location().is_web());
    assert!(script.calibration_response().is_none());
}

#[test]
fn envelope_goes_around_the_payload() {
    assert_eq!(CACHE_FILE_NAME, "cache.bin");
    let bytes = frame(&[0xaa, 0xbb, 0xcc]);
    assert_eq!(
        bytes,
        vec![0x52, 0x50, 0x41, 0x44, 1, 3, 0, 0, 0, 0, 0, 0, 0, 0xaa, 0xbb, 0xcc]
    );
    assert_eq!(unframe(&bytes), Ok(vec![0xaa, 0xbb, 0xcc]));
    assert_eq!(frame(&[]), vec![0x52, 0x50, 0x41, 0x44, 1, 0, 0, 0, 0, 0, 0, 0, 0]);
    assert_eq!(unframe(&frame(&[])), Ok(vec![]));
    let payload: Vec<u8> = (0..1000).map(|i| (i % 251) as u8).collect();
    assert_eq!(unframe(&frame(&payload)), Ok(payload));
}

#[test]
fn envelope_tells_foreign_from_damaged() {
    assert_eq!(unframe(&[]), Err(EnvelopeError::Foreign));
    assert_eq!(unframe(&[0x52, 0x50, 0x41, 0x44, 1]), Err(EnvelopeError::Foreign));
    assert_eq!(unframe(&[0x81, 0xa3, 0x57, 0x65, 0x62, 0, 0, 0, 0, 0, 0, 0, 0, 0]), Err(EnvelopeError::Foreign));
    assert_eq!(
        unframe(&[0x52, 0x50, 0x41, 0x44, 2, 0, 0, 0, 0, 0, 0, 0, 0]),
        Err(EnvelopeError::UnsupportedVersion(2))
    );
    assert_eq!(
        unframe(&[0x52, 0x50, 0x41, 0x44, 1, 2, 0, 0, 0, 0, 0, 0, 0, 0xaa]),
        Err(EnvelopeError::Corrupt)
    );
    assert_eq!(
        unframe(&[0x52, 0x50, 0x41, 0x44, 1, 0, 0, 0, 0, 0, 0, 0, 0, 0xaa]),
        Err(EnvelopeError::Corrupt)
    );
    assert_eq!(
        unframe(&[0x52, 0x50, 0x41, 0x44, 1, 1, 0, 0, 0, 0, 0, 0, 1, 0xaa]),
        Err(EnvelopeError::Corrupt)
    );
}
