use getrandom_wasm::cache::{fill_plan, RngSource, SourceCache};
use getrandom_wasm::chunk::{chunk_plan, Chunk, MAX_CHUNK};
use getrandom_wasm::detect::{detect, detect_advance, detect_begin, Capability, Detection, HostEnv, SourceKind};
use getrandom_wasm::error::Error;

fn server_host() -> HostEnv {
    HostEnv { has_self: false, has_crypto: false, has_get_random_values: false }
}

fn browser_host() -> HostEnv {
    HostEnv { has_self: true, has_crypto: true, has_get_random_values: true }
}

/// One request on a thread whose cache is `cache`, on the simulated host
/// `env`; counts the detections that run and returns the source used.
fn request(cache: &mut SourceCache<u8, u16>, env: &HostEnv, detections: &mut usize) -> Result<SourceKind, Error> {
    if cache.needs_detection() {
        *detections += 1;
        match detect(env)? {
            SourceKind::Node => cache.store(RngSource::Node(1)),
            SourceKind::Browser => cache.store(RngSource::Browser(2)),
        }
    }
    Ok(cache.source().unwrap().kind())
}

fn assert_covers(plan: &[Chunk], len: usize) {
    let mut next = 0usize;
    for c in plan {
        assert_eq!(c.start, next);
        assert!(c.end > c.start);
        assert!(c.end - c.start <= MAX_CHUNK);
        next = c.end;
    }
    assert_eq!(next, len);
}

#[test]
fn browser_plan_call_counts() {
    for (len, calls) in [(0usize, 0usize), (1, 1), (65535, 1), (65536, 1), (65537, 2), (200000, 4)] {
        let plan = fill_plan(SourceKind::Browser, len);
        assert_eq!(plan.len(), calls, "len {}", len);
        assert_eq!(plan.len(), (len + 65535) / 65536);
        let written: usize = plan.iter().map(|c| c.end - c.start).sum();
        assert_eq!(written, len);
        if let Some(last) = plan.last() {
            assert!(last.end - last.start <= 65536);
        }
    }
}

#[test]
fn server_plan_is_one_whole_call() {
    for len in [0usize, 1, 65535, 65536, 65537, 200000] {
        assert_eq!(fill_plan(SourceKind::Node, len), vec![Chunk { start: 0, end: len }]);
    }
}

#[test]
fn exact_chunk_boundary() {
    assert_eq!(chunk_plan(65536), vec![Chunk { start: 0, end: 65536 }]);
    assert_eq!(chunk_plan(65537), vec![Chunk { start: 0, end: 65536 }, Chunk { start: 65536, end: 65537 }]);
}

#[test]
fn multi_chunk_coverage_in_order() {
    let plan = chunk_plan(200000);
    assert_eq!(
        plan,
        vec![
            Chunk { start: 0, end: 65536 },
            Chunk { start: 65536, end: 131072 },
            Chunk { start: 131072, end: 196608 },
            Chunk { start: 196608, end: 200000 },
        ]
    );
    assert_covers(&plan, 200000);
    let mut buf = vec![0u8; 200000];
    for (n, c) in plan.iter().enumerate() {
        for b in &mut buf[c.start..c.end] {
            assert_eq!(*b, 0);
            *b = n as u8 + 1;
        }
    }
    assert!(buf.iter().all(|b| *b != 0));
    assert_covers(&chunk_plan(3 * 65536), 3 * 65536);
    assert!(chunk_plan(0).is_empty());
}

#[test]
fn detection_runs_once_on_a_working_thread() {
    for env in [server_host(), browser_host()] {
        let mut cache = SourceCache::new();
        let mut detections = 0usize;
        let first = request(&mut cache, &env, &mut detections).unwrap();
        for _ in 0..5 {
            assert_eq!(request(&mut cache, &env, &mut detections), Ok(first));
        }
        assert_eq!(detections, 1);
    }
}

#[test]
fn dispatch_follows_the_host() {
    let mut detections = 0usize;
    let mut cache = SourceCache::new();
    assert_eq!(request(&mut cache, &server_host(), &mut detections), Ok(SourceKind::Node));
    let mut cache = SourceCache::new();
    assert_eq!(request(&mut cache, &browser_host(), &mut detections), Ok(SourceKind::Browser));
    // a server runtime is recognised by the missing `self` alone
    let odd = HostEnv { has_self: false, has_crypto: true, has_get_random_values: false };
    assert_eq!(detect(&odd), Ok(SourceKind::Node));
    assert_eq!(fill_plan(SourceKind::Browser, 70000).len(), 2);
    assert_eq!(fill_plan(SourceKind::Node, 70000).len(), 1);
}

#[test]
fn browser_without_crypto_is_unavailable() {
    let env = HostEnv { has_self: true, has_crypto: false, has_get_random_values: false };
    let mut cache = SourceCache::new();
    let mut detections = 0usize;
    for _ in 0..3 {
        assert_eq!(request(&mut cache, &env, &mut detections), Err(Error::CryptoUndefined));
    }
    assert_eq!(detections, 3);
    assert!(cache.needs_detection());
    assert!(Error::CryptoUndefined.is_unavailable());
    assert_eq!(Error::CryptoUndefined.message(), "self.crypto is undefined");
}

#[test]
fn browser_without_get_random_values_is_unavailable() {
    let env = HostEnv { has_self: true, has_crypto: true, has_get_random_values: false };
    let mut cache = SourceCache::new();
    let mut detections = 0usize;
    for _ in 0..3 {
        assert_eq!(request(&mut cache, &env, &mut detections), Err(Error::GetRandomValuesUndefined));
    }
    assert_eq!(detections, 3);
    assert!(Error::GetRandomValuesUndefined.is_unavailable());
    assert_eq!(Error::GetRandomValuesUndefined.message(), "crypto.getRandomValues is undefined");
}

#[test]
fn detection_steps() {
    assert_eq!(detect_begin(), Detection::Probe(Capability::SelfObject));
    assert_eq!(detect_advance(Capability::SelfObject, false), Detection::Found(SourceKind::Node));
    assert_eq!(detect_advance(Capability::SelfObject, true), Detection::Probe(Capability::Crypto));
    assert_eq!(detect_advance(Capability::Crypto, false), Detection::Failed(Error::CryptoUndefined));
    assert_eq!(detect_advance(Capability::Crypto, true), Detection::Probe(Capability::GetRandomValues));
    assert_eq!(
        detect_advance(Capability::GetRandomValues, false),
        Detection::Failed(Error::GetRandomValuesUndefined)
    );
    assert_eq!(detect_advance(Capability::GetRandomValues, true), Detection::Found(SourceKind::Browser));
    let env = HostEnv { has_self: true, has_crypto: true, has_get_random_values: false };
    assert!(env.defines(Capability::SelfObject));
    assert!(env.defines(Capability::Crypto));
    assert!(!env.defines(Capability::GetRandomValues));
}

#[test]
fn cache_keeps_the_first_source() {
    let mut cache: SourceCache<u8, u16> = SourceCache::new();
    assert!(cache.needs_detection());
    assert!(cache.source().is_none());
    cache.store(RngSource::Browser(7));
    cache.store(RngSource::Node(9));
    assert!(!cache.needs_detection());
    match cache.source() {
        Some(RngSource::Browser(h)) => assert_eq!(*h, 7),
        other => panic!("unexpected cache content {:?}", other),
    }
    assert_eq!(Error::FillFailed.message(), "the host's random fill primitive failed");
    assert!(Error::FillFailed.is_unavailable());
}
