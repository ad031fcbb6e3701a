use poker_log_parser::simd::NameCacheSimd;

#[test]
fn name_cache() {
    let mut cache = NameCacheSimd::new();
    cache.add(b"james");
    cache.add(b"sandy");
    cache.add(b"frank");
    cache.add(b"john");

    assert_eq!(0, cache.find(b"james"));
    assert_eq!(1, cache.find(b"sandy"));
    assert_eq!(2, cache.find(b"frank"));
    assert_eq!(3, cache.find(b"john"));
    assert_eq!(32, cache.find(b"random"));
}
