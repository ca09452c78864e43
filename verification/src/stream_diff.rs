//! The streaming diff loop's decision core.
//!
//! Each active subscription repeatedly wakes (on a change signal, on the
//! poll-interval timeout, or immediately on its first turn), fetches and
//! renders the current upstream state, and must then decide what to emit.
//! The surrounding application performs the waiting and the fetch; the
//! decision — end the stream, emit a final `removed` event, emit the new
//! snapshot, or stay silent — is made here, as a function of the previous
//! snapshot, the session's expiry, and the fetch outcome.

use vstd::prelude::*;

verus! {

/// What one wake-up's fetch and render produced.
pub enum FetchOutcome {
    /// The upstream call failed: the stream ends (the client reconnects).
    Failed,
    /// The watched item no longer exists (single-item subscriptions only).
    Removed,
    /// A fresh rendered snapshot of the upstream state.
    Rendered(String),
}

/// What the subscription does with this wake-up.
pub enum DiffAction {
    /// Terminate the subscription; no further events.
    End,
    /// Emit the fixed `removed` event as the subscription's last event and
    /// terminate.
    EmitRemoved,
    /// Emit one event carrying this snapshot.
    Emit(String),
    /// Emit nothing; wait for the next wake-up.
    Skip,
}

/// An `Option` of a snapshot, viewed.
pub open spec fn opt_chars(o: Option<String>) -> Option<Seq<char>> {
    match o {
        Some(s) => Some(s@),
        None => None,
    }
}

/// Whether a fresh snapshot is emitted: always on the first turn, and
/// otherwise exactly when it differs byte-for-byte from the last emitted one.
pub open spec fn spec_emits(last: Option<Seq<char>>, rendered: Seq<char>) -> bool {
    match last {
        None => true,
        Some(l) => l != rendered,
    }
}

/// One turn of the diff loop: from the last emitted snapshot, the session's
/// expiry at this instant, and the fetch outcome, decide the action and the
/// next "last emitted" state.
///
/// An expired session or a failed fetch ends the subscription.  A removed
/// item emits the `removed` event and ends the subscription with it.  A
/// rendered snapshot is emitted exactly when there is no previous snapshot
/// or it differs from it; an unchanged snapshot is suppressed.
pub fn diff_step(last: Option<String>, expired: bool, fetched: FetchOutcome) -> (r: (
    DiffAction,
    Option<String>,
))
    ensures
        expired ==> r.0 is End && r.1 == last,
        !expired ==> match fetched {
            FetchOutcome::Failed => r.0 is End && r.1 == last,
            FetchOutcome::Removed => r.0 is EmitRemoved && r.1 is None,
            FetchOutcome::Rendered(h) => {
                if spec_emits(opt_chars(last), h@) {
                    &&& r.0 matches DiffAction::Emit(e) && e@ == h@
                    &&& r.1 matches Some(n) && n@ == h@
                } else {
                    r.0 is Skip && r.1 == last
                }
            },
        },
{
    if expired {
        return (DiffAction::End, last);
    }
    match fetched {
        FetchOutcome::Failed => (DiffAction::End, last),
        FetchOutcome::Removed => (DiffAction::EmitRemoved, None),
        FetchOutcome::Rendered(h) => {
            let unchanged = match &last {
                Some(l) => l.eq(&h),
                None => false,
            };
            if unchanged {
                (DiffAction::Skip, last)
            } else {
                let kept = h.clone();
                (DiffAction::Emit(h), Some(kept))
            }
        },
    }
}

/// Diff suppression, first half: a render identical to the last emitted
/// snapshot is never emitted again.
pub proof fn lemma_diff_suppression(last: Option<Seq<char>>, rendered: Seq<char>)
    requires
        last == Some(rendered),
    ensures
        !spec_emits(last, rendered),
{
}

/// Diff suppression, second half: any difference from the last emitted
/// snapshot — or the absence of one — emits exactly the new snapshot.
pub proof fn lemma_diff_emission(last: Option<Seq<char>>, rendered: Seq<char>)
    requires
        last matches Some(l) ==> l != rendered,
    ensures
        spec_emits(last, rendered),
{
}

/// Maps a list fetch to its outcome: an upstream failure ends the stream,
/// anything rendered goes to the diff.
pub fn list_fetch_outcome(fetched: Result<String, u16>) -> (r: FetchOutcome)
    ensures
        fetched matches Ok(h) ==> r matches FetchOutcome::Rendered(v) && v@ == h@,
        fetched is Err ==> r is Failed,
{
    match fetched {
        Ok(h) => FetchOutcome::Rendered(h),
        Err(_) => FetchOutcome::Failed,
    }
}

/// Maps a single-item fetch to its outcome: an upstream failure ends the
/// stream, a vanished item is distinguished from an error and ends the
/// stream with the `removed` event, and a present item goes to the diff.
pub fn details_fetch_outcome(fetched: Result<Option<String>, u16>) -> (r: FetchOutcome)
    ensures
        fetched matches Ok(Some(h)) ==> r matches FetchOutcome::Rendered(v) && v@ == h@,
        fetched matches Ok(o) && o is None ==> r is Removed,
        fetched is Err ==> r is Failed,
{
    match fetched {
        Ok(Some(h)) => FetchOutcome::Rendered(h),
        Ok(None) => FetchOutcome::Removed,
        Err(_) => FetchOutcome::Failed,
    }
}

} // verus!
