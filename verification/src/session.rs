//! Recording-session protocol: a session's worker owns the encoder for the
//! session's lifetime and consumes a channel of three message kinds. `Frame`
//! is encoded and appended, `Best` replaces the held best-frame snapshot
//! (later messages always supersede earlier ones), and `End` finishes the
//! session; anything sent after `End` has no effect.

use vstd::prelude::*;
use vstd::string::StringExecFns;
use crate::names::{best_photo_filename, best_photo_path};

verus! {

/// One message on a session's channel.
pub enum SessionMsg<T> {
    /// A live or pre-roll frame to encode and append.
    Frame(T),
    /// A new best frame and the timestamp it was captured at.
    Best(T, String),
    /// The cooperative end of the session.
    End,
}

/// What the worker must do with one received message.
pub enum WorkerStep<T> {
    /// Encode and append this frame.
    Encode(T),
    /// The best-frame slot was replaced; nothing to write yet.
    Noted,
    /// The session is over: flush the encoder, write the held best frame if
    /// one was ever received, and notify.
    Finished,
    /// The worker had already finished; the message is dropped.
    Ignored,
}

/// The worker's state: the held best frame with its timestamp, and whether
/// `End` has been processed.
pub struct SessionWorker<T> {
    pub best: Option<(T, String)>,
    pub finished: bool,
}

impl<T> SessionWorker<T> {
    /// A fresh worker: no best frame yet, still running.
    pub fn new() -> (w: SessionWorker<T>)
        ensures
            w.best is None,
            !w.finished,
    {
        SessionWorker { best: None, finished: false }
    }

    /// Processes one message. A finished worker ignores everything — its
    /// thread has exited — so sending frames after `End` has no effect, and
    /// only the first `End` finishes the session.
    pub fn handle(&mut self, msg: SessionMsg<T>) -> (step: WorkerStep<T>)
        ensures
            old(self).finished ==> *final(self) == *old(self) && step is Ignored,
            !old(self).finished ==> match msg {
                SessionMsg::Frame(f) => {
                    &&& *final(self) == *old(self)
                    &&& step == WorkerStep::Encode(f)
                },
                SessionMsg::Best(f, t) => {
                    &&& final(self).best == Some((f, t))
                    &&& !final(self).finished
                    &&& step is Noted
                },
                SessionMsg::End => {
                    &&& final(self).best == old(self).best
                    &&& final(self).finished
                    &&& step is Finished
                },
            },
    {
        if self.finished {
            return WorkerStep::Ignored;
        }
        match msg {
            SessionMsg::Frame(f) => WorkerStep::Encode(f),
            SessionMsg::Best(f, t) => {
                self.best = Some((f, t));
                WorkerStep::Noted
            },
            SessionMsg::End => {
                self.finished = true;
                WorkerStep::Finished
            },
        }
    }

    /// The photo the end-of-session notifier is called with: the best-frame
    /// photo, keyed by the best frame's own timestamp, when a best frame
    /// was ever received; the first photo written at activation otherwise.
    pub fn closing_photo(&self, camera: &str, first_photo: &str) -> (p: String)
        requires
            self.finished,
        ensures
            match self.best {
                Some(b) => p@ == best_photo_path(camera@, b.1@),
                None => p@ == first_photo@,
            },
    {
        match &self.best {
            Some(b) => best_photo_filename(camera, b.1.as_str()),
            None => String::from_str(first_photo),
        }
    }
}

/// The largest box area seen among the first `k` frames of a session,
/// starting from the session's initial best of zero.
pub open spec fn running_best(areas: Seq<int>, k: int) -> int
    decreases k,
{
    if k <= 0 {
        0
    } else {
        let p = running_best(areas, k - 1);
        if areas[k - 1] > p {
            areas[k - 1]
        } else {
            p
        }
    }
}

/// Whether frame `i` publishes a best-frame message: its area strictly
/// exceeds every earlier area (and the initial zero).
pub open spec fn publishes(areas: Seq<int>, i: int) -> bool {
    areas[i] > running_best(areas, i)
}

/// The frame the worker holds after `k` frames: the last one published,
/// `-1` when none was.
pub open spec fn held_best(areas: Seq<int>, k: int) -> int
    decreases k,
{
    if k <= 0 {
        -1
    } else if publishes(areas, k - 1) {
        k - 1
    } else {
        held_best(areas, k - 1)
    }
}

pub proof fn lemma_running_best_mono(areas: Seq<int>, k1: int, k2: int)
    requires
        0 <= k1 <= k2,
    ensures
        running_best(areas, k1) <= running_best(areas, k2),
    decreases k2,
{
    if k1 < k2 {
        lemma_running_best_mono(areas, k1, k2 - 1);
    }
}

pub proof fn lemma_area_le_running_best(areas: Seq<int>, i: int, k: int)
    requires
        0 <= i < k,
    ensures
        areas[i] <= running_best(areas, k),
    decreases k,
{
    lemma_running_best_mono(areas, i + 1, k);
}

pub proof fn lemma_running_best_attained(areas: Seq<int>, k: int)
    requires
        running_best(areas, k) > 0,
    ensures
        exists|j: int| 0 <= j < k && areas[j] == running_best(areas, k),
    decreases k,
{
    if k > 0 {
        if areas[k - 1] > running_best(areas, k - 1) {
            assert(0 <= k - 1 < k && areas[k - 1] == running_best(areas, k));
        } else {
            lemma_running_best_attained(areas, k - 1);
            let j = choose|j: int| 0 <= j < k - 1 && areas[j] == running_best(areas, k - 1);
            assert(0 <= j < k && areas[j] == running_best(areas, k));
        }
    }
}

/// Best-frame selection law. Across a session whose frames have box areas
/// `areas[0..k]`, a best-frame message is published exactly when an area
/// strictly exceeds the session's running best (which starts at zero), and
/// the worker keeps the last message received. So as long as any area was
/// positive, the frame the worker holds at the end — the one saved as the
/// best photo — is the frame with the largest area of the session, and among
/// equal largest areas the first seen: every earlier frame is strictly
/// smaller.
pub proof fn lemma_best_frame_is_first_max(areas: Seq<int>, k: int)
    requires
        0 <= k,
        exists|i: int| 0 <= i < k && areas[i] > 0,
    ensures
        ({
            let h = held_best(areas, k);
            &&& 0 <= h < k
            &&& areas[h] == running_best(areas, k)
            &&& forall|i: int| 0 <= i < h ==> areas[i] < areas[h]
        }),
    decreases k,
{
    let w = choose|i: int| 0 <= i < k && areas[i] > 0;
    if publishes(areas, k - 1) {
        let h = k - 1;
        assert(running_best(areas, k) == areas[h]);
        assert forall|i: int| 0 <= i < h implies areas[i] < areas[h] by {
            lemma_area_le_running_best(areas, i, k - 1);
        }
    } else {
        assert(running_best(areas, k) == running_best(areas, k - 1));
        if w == k - 1 {
            lemma_area_le_running_best(areas, w, k);
            lemma_running_best_attained(areas, k - 1);
        }
        assert(exists|i: int| 0 <= i < k - 1 && areas[i] > 0) by {
            if w < k - 1 {
                assert(0 <= w < k - 1 && areas[w] > 0);
            } else {
                let j = choose|j: int|
                    0 <= j < k - 1 && areas[j] == running_best(areas, k - 1);
                assert(0 <= j < k - 1 && areas[j] > 0);
            }
        }
        lemma_best_frame_is_first_max(areas, k - 1);
    }
}

} // verus!
