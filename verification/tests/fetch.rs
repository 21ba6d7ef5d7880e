use std::collections::HashMap;
use yugioh_deck_builder::fetch::{
    Download, FetchEvent, FetchState, CACHE_MISS, NOT_AN_IMAGE, NOT_DELETED, NOT_WRITTEN,
    UNREACHABLE, UNREADABLE,
};

/// A cache, a remote source that counts its downloads, and a decoder that
/// takes bytes for an image when they start with `IMG`.
struct Stub {
    cache: HashMap<(String, u32), Vec<u8>>,
    remote: Option<Vec<u8>>,
    downloads: usize,
    removals: usize,
    cache_is_read_only: bool,
}

fn decode(bytes: &[u8]) -> Option<String> {
    if bytes.starts_with(b"IMG") {
        Some(String::from_utf8_lossy(&bytes[3..]).into_owned())
    } else {
        None
    }
}

fn run(stub: &mut Stub, size: &str, id: u32, api_override: bool) -> Result<String, String> {
    let key = (size.to_string(), id);
    let mut state: FetchState<String> = FetchState::begin(api_override);
    let mut steps = 0;
    loop {
        let event = match &state {
            FetchState::ReadCache => FetchEvent::CacheRead(stub.cache.get(&key).cloned()),
            FetchState::DecodeCached { bytes } => FetchEvent::Decoded(decode(bytes)),
            FetchState::RemoveCached => {
                stub.removals += 1;
                if stub.cache_is_read_only {
                    FetchEvent::CacheRemoved(false)
                } else {
                    FetchEvent::CacheRemoved(stub.cache.remove(&key).is_some())
                }
            }
            FetchState::Download { .. } => {
                stub.downloads += 1;
                FetchEvent::Downloaded(match &stub.remote {
                    Some(body) => Download::Body(body.clone()),
                    None => Download::Unreachable,
                })
            }
            FetchState::WriteCache { bytes, .. } => {
                if stub.cache_is_read_only {
                    FetchEvent::CacheWritten(Some("read-only".to_string()))
                } else {
                    stub.cache.insert(key.clone(), bytes.clone());
                    FetchEvent::CacheWritten(None)
                }
            }
            FetchState::DecodeDownloaded { bytes, .. } => FetchEvent::Decoded(decode(bytes)),
            FetchState::Done(_) => break,
        };
        assert!(!state.is_done());
        state = state.step(event);
        steps += 1;
        assert!(steps <= 6);
    }
    assert!(state.is_done());
    match state {
        FetchState::Done(outcome) => outcome,
        _ => unreachable!(),
    }
}

fn stub(remote: Option<&[u8]>) -> Stub {
    Stub {
        cache: HashMap::new(),
        remote: remote.map(|body| body.to_vec()),
        downloads: 0,
        removals: 0,
        cache_is_read_only: false,
    }
}

#[test]
fn corrupt_cache_entry_is_deleted_and_fetched_again() {
    let mut stub = stub(Some(b"IMGdragon"));
    stub.cache.insert(("small".to_string(), 42), b"garbage".to_vec());

    assert_eq!(run(&mut stub, "small", 42, false), Ok("dragon".to_string()));
    assert_eq!(stub.removals, 1);
    assert_eq!(stub.downloads, 1);
    assert_eq!(stub.cache.get(&("small".to_string(), 42)), Some(&b"IMGdragon".to_vec()));

    assert_eq!(run(&mut stub, "small", 42, false), Ok("dragon".to_string()));
    assert_eq!(stub.removals, 1);
    assert_eq!(stub.downloads, 1);
}

#[test]
fn sound_cache_entry_needs_no_download() {
    let mut stub = stub(None);
    stub.cache.insert(("large".to_string(), 7), b"IMGmagician".to_vec());
    assert_eq!(run(&mut stub, "large", 7, false), Ok("magician".to_string()));
    assert_eq!(stub.downloads, 0);
    assert_eq!(stub.removals, 0);
}

#[test]
fn cache_miss_downloads_and_fills_the_cache() {
    let mut stub = stub(Some(b"IMGkuriboh"));
    assert_eq!(run(&mut stub, "small", 1, false), Ok("kuriboh".to_string()));
    assert_eq!(stub.downloads, 1);
    assert_eq!(stub.cache.get(&("small".to_string(), 1)), Some(&b"IMGkuriboh".to_vec()));
}

#[test]
fn override_passes_the_cache_over() {
    let mut stub = stub(Some(b"IMGfresh"));
    stub.cache.insert(("small".to_string(), 3), b"IMGstale".to_vec());
    assert_eq!(run(&mut stub, "small", 3, true), Ok("fresh".to_string()));
    assert_eq!(stub.downloads, 1);
    assert_eq!(stub.cache.get(&("small".to_string(), 3)), Some(&b"IMGfresh".to_vec()));
}

#[test]
fn cache_miss_with_remote_down() {
    let mut stub = stub(None);
    assert_eq!(
        run(&mut stub, "small", 9, false),
        Err("Failed to read image from cache, attempting to load from api\n\
             Failed to load image from api\n"
            .to_string())
    );
}

#[test]
fn corrupt_cache_with_remote_down() {
    let mut stub = stub(None);
    stub.cache.insert(("small".to_string(), 9), b"bad".to_vec());
    assert_eq!(
        run(&mut stub, "small", 9, false),
        Err("Failed to load image bytes\nFailed to load image from api\n".to_string())
    );
    assert_eq!(stub.cache.get(&("small".to_string(), 9)), None);
}

#[test]
fn corrupt_cache_that_cannot_be_deleted() {
    let mut stub = stub(None);
    stub.cache_is_read_only = true;
    stub.cache.insert(("small".to_string(), 9), b"bad".to_vec());
    assert_eq!(
        run(&mut stub, "small", 9, false),
        Err("Failed to load image bytes\n\
             Failed to delete corrupted image from cache\n\
             Failed to load image from api\n"
            .to_string())
    );
    assert_eq!(stub.downloads, 1);
}

#[test]
fn cache_miss_with_remote_sending_no_image() {
    let mut stub = stub(Some(b"<html>"));
    assert_eq!(
        run(&mut stub, "small", 9, false),
        Err("Failed to read image from cache, attempting to load from api\n\
             Failed to load image bytes\n"
            .to_string())
    );
}

#[test]
fn failed_cache_write_is_noted_and_not_fatal() {
    let mut stub = stub(Some(b"IMGok"));
    stub.cache_is_read_only = true;
    assert_eq!(run(&mut stub, "small", 5, false), Ok("ok".to_string()));
    assert!(stub.cache.is_empty());

    stub.remote = Some(b"nope".to_vec());
    assert_eq!(
        run(&mut stub, "small", 5, false),
        Err("Failed to read image from cache, attempting to load from api\n\
             Failed to write image to cache:read-only\n\
             Failed to load image bytes\n"
            .to_string())
    );
}

#[test]
fn unreadable_body_ends_the_fetch() {
    let state: FetchState<u8> = FetchState::begin(true);
    let state = state.step(FetchEvent::Downloaded(Download::Unreadable));
    match state {
        FetchState::Done(Err(traceback)) => assert_eq!(
            traceback,
            "Failed to read image from cache, attempting to load from api\n\
             Failed to read image bytes from api\n"
        ),
        other => panic!("{:?}", other),
    }
}

#[test]
fn begin_reads_the_cache_unless_overridden() {
    assert!(matches!(FetchState::<u8>::begin(false), FetchState::ReadCache));
    match FetchState::<u8>::begin(true) {
        FetchState::Download { traceback } => assert_eq!(traceback, CACHE_MISS),
        other => panic!("{:?}", other),
    }
}

#[test]
fn each_step_follows_its_event() {
    let state: FetchState<u8> = FetchState::ReadCache.step(FetchEvent::CacheRead(Some(vec![1, 2])));
    assert!(matches!(&state, FetchState::DecodeCached { bytes } if bytes == &vec![1, 2]));
    let state = state.step(FetchEvent::Decoded(None));
    assert!(matches!(&state, FetchState::RemoveCached));
    let state = state.step(FetchEvent::CacheRemoved(true));
    assert!(matches!(&state, FetchState::Download { traceback } if traceback == NOT_AN_IMAGE));
    let state = state.step(FetchEvent::Downloaded(Download::Body(vec![3, 4, 5])));
    assert!(matches!(&state, FetchState::WriteCache { bytes, traceback }
        if bytes == &vec![3, 4, 5] && traceback == NOT_AN_IMAGE));
    let state = state.step(FetchEvent::CacheWritten(Some("disk full".to_string())));
    let noted = format!("{}{}disk full\n", NOT_AN_IMAGE, NOT_WRITTEN);
    assert!(matches!(&state, FetchState::DecodeDownloaded { bytes, traceback }
        if bytes == &vec![3, 4, 5] && traceback == &noted));
    let state = state.step(FetchEvent::Decoded(Some(9)));
    assert!(matches!(&state, FetchState::Done(Ok(9))));
}

#[test]
fn notes_are_worded_exactly() {
    assert_eq!(CACHE_MISS, "Failed to read image from cache, attempting to load from api\n");
    assert_eq!(NOT_AN_IMAGE, "Failed to load image bytes\n");
    assert_eq!(NOT_DELETED, "Failed to delete corrupted image from cache\n");
    assert_eq!(UNREACHABLE, "Failed to load image from api\n");
    assert_eq!(UNREADABLE, "Failed to read image bytes from api\n");
    assert_eq!(NOT_WRITTEN, "Failed to write image to cache:");
}

#[test]
fn removal_that_fails_is_noted() {
    let state: FetchState<u8> = FetchState::RemoveCached.step(FetchEvent::CacheRemoved(false));
    let noted = format!("{}{}", NOT_AN_IMAGE, NOT_DELETED);
    assert!(matches!(&state, FetchState::Download { traceback } if traceback == &noted));
}

#[test]
fn event_that_does_not_answer_changes_nothing() {
    let state: FetchState<u8> = FetchState::ReadCache.step(FetchEvent::Decoded(Some(1)));
    assert!(matches!(&state, FetchState::ReadCache));
    let state = state.step(FetchEvent::CacheRemoved(true));
    assert!(matches!(&state, FetchState::ReadCache));

    let state: FetchState<u8> = FetchState::DecodeCached { bytes: vec![7] };
    let state = state.step(FetchEvent::CacheRead(None));
    assert!(matches!(&state, FetchState::DecodeCached { bytes } if bytes == &vec![7]));

    let state: FetchState<u8> = FetchState::Done(Ok(3));
    let state = state.step(FetchEvent::Downloaded(Download::Unreachable));
    assert!(matches!(&state, FetchState::Done(Ok(3))));
    let state = state.step(FetchEvent::CacheWritten(None));
    assert!(matches!(&state, FetchState::Done(Ok(3))));

    let state: FetchState<u8> = FetchState::Done(Err("why".to_string()));
    let state = state.step(FetchEvent::Decoded(Some(1)));
    assert!(matches!(&state, FetchState::Done(Err(traceback)) if traceback == "why"));
}
