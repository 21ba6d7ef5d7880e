//! The steps by which one image is fetched: from the cache on disk where
//! that holds a sound copy, from the remote source otherwise.
//!
//! A fetch is a value of [`FetchState`]. Each state but the last names one
//! piece of outside work; whoever drives the fetch does that work and hands
//! its outcome to [`FetchState::step`] as a [`FetchEvent`], which yields the
//! state that follows. Reading, writing and decoding are all left to the
//! driver, so a fetch never waits on anything by itself.

use vstd::prelude::*;
use vstd::string::StringExecFns;

verus! {

/// Noted when the cache is not consulted or has no entry.
pub const CACHE_MISS: &'static str =
    "Failed to read image from cache, attempting to load from api\n";

/// Noted when bytes, cached or downloaded, are not an image.
pub const NOT_AN_IMAGE: &'static str = "Failed to load image bytes\n";

/// Noted after `NOT_AN_IMAGE` when the corrupt cache entry could not be
/// deleted.
pub const NOT_DELETED: &'static str = "Failed to delete corrupted image from cache\n";

/// Noted when the remote source could not be reached.
pub const UNREACHABLE: &'static str = "Failed to load image from api\n";

/// Noted when the remote source answered but its body could not be read.
pub const UNREADABLE: &'static str = "Failed to read image bytes from api\n";

/// Starts the note of a failed cache write; the reason and a line break
/// follow it.
pub const NOT_WRITTEN: &'static str = "Failed to write image to cache:";

/// How a download ended.
#[derive(Debug)]
pub enum Download {
    /// The remote source could not be reached.
    Unreachable,
    /// The remote source answered, but the body could not be read in full.
    Unreadable,
    /// The whole body.
    Body(Vec<u8>),
}

/// The outcome of the outside work that a state asked for.
#[derive(Debug)]
pub enum FetchEvent<I> {
    /// The cache entry was read: its bytes, or nothing where there is none.
    CacheRead(Option<Vec<u8>>),
    /// The bytes were decoded: the image, or nothing where they are none.
    Decoded(Option<I>),
    /// The corrupt cache entry was deleted, or could not be.
    CacheRemoved(bool),
    /// The download ended.
    Downloaded(Download),
    /// The cache entry was written, or could not be, for the reason given.
    CacheWritten(Option<String>),
}

/// Where a fetch stands, which is also what is to be done next.
#[derive(Debug)]
pub enum FetchState<I> {
    /// Read the cache entry.
    ReadCache,
    /// Decode the bytes that the cache held.
    DecodeCached { bytes: Vec<u8> },
    /// Delete the cache entry, which is corrupt.
    RemoveCached,
    /// Download the image from its URL.
    Download { traceback: String },
    /// Write the downloaded bytes to the cache, all at once.
    WriteCache { bytes: Vec<u8>, traceback: String },
    /// Decode the downloaded bytes.
    DecodeDownloaded { bytes: Vec<u8>, traceback: String },
    /// Nothing: the fetch has ended, with the image or with the notes of
    /// what failed, in the order in which it failed.
    Done(Result<I, String>),
}

/// Whether `event` is the outcome of the work that `state` asks for.
pub open spec fn answers<I>(state: FetchState<I>, event: FetchEvent<I>) -> bool {
    match (state, event) {
        (FetchState::ReadCache, FetchEvent::CacheRead(_)) => true,
        (FetchState::DecodeCached { .. }, FetchEvent::Decoded(_)) => true,
        (FetchState::RemoveCached, FetchEvent::CacheRemoved(_)) => true,
        (FetchState::Download { .. }, FetchEvent::Downloaded(_)) => true,
        (FetchState::WriteCache { .. }, FetchEvent::CacheWritten(_)) => true,
        (FetchState::DecodeDownloaded { .. }, FetchEvent::Decoded(_)) => true,
        _ => false,
    }
}

/// Whether `next` is the state that follows `state` on `event`. Bytes and
/// notes are told apart by what they hold. An event that does not answer
/// the state changes nothing.
pub open spec fn steps_to<I>(
    state: FetchState<I>,
    event: FetchEvent<I>,
    next: FetchState<I>,
) -> bool {
    match (state, event) {
        (FetchState::ReadCache, FetchEvent::CacheRead(Some(found))) => {
            next matches FetchState::DecodeCached { bytes } && bytes@ == found@
        },
        (FetchState::ReadCache, FetchEvent::CacheRead(None)) => {
            next matches FetchState::Download { traceback } && traceback@ == CACHE_MISS@
        },
        (FetchState::DecodeCached { .. }, FetchEvent::Decoded(Some(image))) => {
            next == FetchState::Done(Ok::<I, String>(image))
        },
        (FetchState::DecodeCached { .. }, FetchEvent::Decoded(None)) => {
            next == FetchState::<I>::RemoveCached
        },
        (FetchState::RemoveCached, FetchEvent::CacheRemoved(removed)) => {
            next matches FetchState::Download { traceback } && traceback@ == if removed {
                NOT_AN_IMAGE@
            } else {
                NOT_AN_IMAGE@ + NOT_DELETED@
            }
        },
        (FetchState::Download { traceback: so_far }, FetchEvent::Downloaded(download)) => {
            match download {
                Download::Unreachable => {
                    next matches FetchState::Done(Err(traceback)) && traceback@ == so_far@
                        + UNREACHABLE@
                },
                Download::Unreadable => {
                    next matches FetchState::Done(Err(traceback)) && traceback@ == so_far@
                        + UNREADABLE@
                },
                Download::Body(body) => {
                    next matches FetchState::WriteCache { bytes, traceback } && bytes@ == body@
                        && traceback@ == so_far@
                },
            }
        },
        (
            FetchState::WriteCache { bytes: body, traceback: so_far },
            FetchEvent::CacheWritten(failure),
        ) => {
            next matches FetchState::DecodeDownloaded { bytes, traceback } && bytes@ == body@
                && traceback@ == match failure {
                Some(reason) => so_far@ + NOT_WRITTEN@ + reason@ + "\n"@,
                None => so_far@,
            }
        },
        (FetchState::DecodeDownloaded { .. }, FetchEvent::Decoded(Some(image))) => {
            next == FetchState::Done(Ok::<I, String>(image))
        },
        (
            FetchState::DecodeDownloaded { traceback: so_far, .. },
            FetchEvent::Decoded(None),
        ) => {
            next matches FetchState::Done(Err(traceback)) && traceback@ == so_far@
                + NOT_AN_IMAGE@
        },
        _ => next == state,
    }
}

/// The largest number of steps that a fetch in this state still takes.
pub open spec fn steps_left<I>(state: FetchState<I>) -> nat {
    match state {
        FetchState::ReadCache => 6,
        FetchState::DecodeCached { .. } => 5,
        FetchState::RemoveCached => 4,
        FetchState::Download { .. } => 3,
        FetchState::WriteCache { .. } => 2,
        FetchState::DecodeDownloaded { .. } => 1,
        FetchState::Done(_) => 0,
    }
}

/// What a fetch in this state has noted of failures so far. A fetch that
/// ended with the image keeps no notes.
pub open spec fn notes<I>(state: FetchState<I>) -> Seq<char> {
    match state {
        FetchState::Download { traceback } => traceback@,
        FetchState::WriteCache { traceback, .. } => traceback@,
        FetchState::DecodeDownloaded { traceback, .. } => traceback@,
        FetchState::Done(Err(traceback)) => traceback@,
        _ => Seq::empty(),
    }
}

/// Notes are added at the end and never taken back: but for a fetch that
/// ends with the image, what was noted before a step starts what is noted
/// after it, so the notes of a failed fetch name the failures in their
/// order.
pub proof fn lemma_notes_only_grow<I>(
    state: FetchState<I>,
    event: FetchEvent<I>,
    next: FetchState<I>,
)
    requires
        steps_to(state, event, next),
        !(next matches FetchState::Done(Ok(_))),
    ensures
        notes(state).is_prefix_of(notes(next)),
{
    let before = notes(state);
    let after = notes(next);
    assert(before.len() <= after.len() && before =~= after.subrange(0, before.len() as int));
}

/// Every event that answers a state brings the fetch nearer to its end, so
/// a fetch that is driven ends after six steps at most. An event that does
/// not answer leaves the state as it was.
pub proof fn lemma_step_makes_progress<I>(
    state: FetchState<I>,
    event: FetchEvent<I>,
    next: FetchState<I>,
)
    requires
        steps_to(state, event, next),
    ensures
        answers(state, event) ==> steps_left(next) < steps_left(state),
        !answers(state, event) ==> next == state,
        steps_left(state) == 0 <==> state is Done,
{
}

/// Where the cache holds bytes that decode, the fetch ends with the image
/// decoded from them after two steps, and never asks for a download.
pub proof fn lemma_sound_cache_entry_suffices<I>(
    found: Vec<u8>,
    image: I,
    second: FetchState<I>,
    last: FetchState<I>,
)
    requires
        steps_to(FetchState::ReadCache, FetchEvent::CacheRead(Some(found)), second),
        steps_to(second, FetchEvent::Decoded(Some(image)), last),
    ensures
        second matches FetchState::DecodeCached { bytes } && bytes@ == found@,
        last == FetchState::Done(Ok::<I, String>(image)),
{
}

/// Where the cache holds bytes that do not decode, the fetch asks for the
/// entry to be deleted and then for the download, whether or not the
/// deletion worked; the notes say which.
pub proof fn lemma_corrupt_cache_entry_falls_through<I>(
    found: Vec<u8>,
    removed: bool,
    second: FetchState<I>,
    third: FetchState<I>,
    fourth: FetchState<I>,
)
    requires
        steps_to(FetchState::ReadCache, FetchEvent::CacheRead(Some(found)), second),
        steps_to(second, FetchEvent::Decoded(None), third),
        steps_to(third, FetchEvent::CacheRemoved(removed), fourth),
    ensures
        third == FetchState::<I>::RemoveCached,
        fourth matches FetchState::Download { traceback } && traceback@ == if removed {
            NOT_AN_IMAGE@
        } else {
            NOT_AN_IMAGE@ + NOT_DELETED@
        },
{
}

/// A cache entry that cannot be written does not fail the fetch: the
/// downloaded bytes are decoded all the same, and where they decode the
/// fetch ends with the image.
pub proof fn lemma_failed_cache_write_is_not_fatal<I>(
    body: Vec<u8>,
    so_far: String,
    reason: String,
    image: I,
    second: FetchState<I>,
    last: FetchState<I>,
)
    requires
        steps_to(
            FetchState::WriteCache { bytes: body, traceback: so_far },
            FetchEvent::CacheWritten(Some(reason)),
            second,
        ),
        steps_to(second, FetchEvent::Decoded(Some(image)), last),
    ensures
        second matches FetchState::DecodeDownloaded { bytes, .. } && bytes@ == body@,
        last == FetchState::Done(Ok::<I, String>(image)),
{
}

impl<I> FetchState<I> {
    /// The state in which a fetch starts. With `api_override` the cache is
    /// passed over and the image is downloaded.
    pub fn begin(api_override: bool) -> (state: Self)
        ensures
            !api_override ==> state == FetchState::<I>::ReadCache,
            api_override ==> (state matches FetchState::Download { traceback } && traceback@
                == CACHE_MISS@),
    {
        if api_override {
            FetchState::Download { traceback: String::from_str(CACHE_MISS) }
        } else {
            FetchState::ReadCache
        }
    }

    /// Whether the fetch has ended.
    pub fn is_done(&self) -> (done: bool)
        ensures
            done == (*self is Done),
    {
        match self {
            FetchState::Done(_) => true,
            _ => false,
        }
    }

    /// The state that follows this one on `event`.
    pub fn step(self, event: FetchEvent<I>) -> (next: Self)
        ensures
            steps_to(self, event, next),
    {
        match (self, event) {
            (FetchState::ReadCache, FetchEvent::CacheRead(Some(bytes))) => {
                FetchState::DecodeCached { bytes }
            },
            (FetchState::ReadCache, FetchEvent::CacheRead(None)) => {
                FetchState::Download { traceback: String::from_str(CACHE_MISS) }
            },
            (FetchState::DecodeCached { .. }, FetchEvent::Decoded(Some(image))) => {
                FetchState::Done(Ok(image))
            },
            (FetchState::DecodeCached { .. }, FetchEvent::Decoded(None)) => {
                FetchState::RemoveCached
            },
            (FetchState::RemoveCached, FetchEvent::CacheRemoved(removed)) => {
                let mut traceback = String::from_str(NOT_AN_IMAGE);
                if !removed {
                    traceback.append(NOT_DELETED);
                }
                FetchState::Download { traceback }
            },
            (FetchState::Download { traceback }, FetchEvent::Downloaded(download)) => {
                let mut traceback = traceback;
                match download {
                    Download::Unreachable => {
                        traceback.append(UNREACHABLE);
                        FetchState::Done(Err(traceback))
                    },
                    Download::Unreadable => {
                        traceback.append(UNREADABLE);
                        FetchState::Done(Err(traceback))
                    },
                    Download::Body(bytes) => FetchState::WriteCache { bytes, traceback },
                }
            },
            (FetchState::WriteCache { bytes, traceback }, FetchEvent::CacheWritten(failure)) => {
                let mut traceback = traceback;
                if let Some(reason) = failure {
                    traceback.append(NOT_WRITTEN);
                    traceback.append(reason.as_str());
                    traceback.append("\n");
                }
                FetchState::DecodeDownloaded { bytes, traceback }
            },
            (FetchState::DecodeDownloaded { .. }, FetchEvent::Decoded(Some(image))) => {
                FetchState::Done(Ok(image))
            },
            (FetchState::DecodeDownloaded { traceback, .. }, FetchEvent::Decoded(None)) => {
                let mut traceback = traceback;
                traceback.append(NOT_AN_IMAGE);
                FetchState::Done(Err(traceback))
            },
            (state, _) => state,
        }
    }
}

} // verus!
