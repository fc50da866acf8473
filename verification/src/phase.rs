//! The order of the notifications of an operation that hashes files.
//!
//! Building a set and verifying one go through the same phases. The files
//! are looked for, the sizes are added up, and only when the total is known
//! the hashing begins, file by file: each file is announced, reports its
//! progress and is closed before the next. The notifications of loading a
//! manifest and of comparing two sets are no part of this and leave the
//! phase as it is.

use vstd::prelude::*;
use crate::ui::Notification;

verus! {

/// Where an operation that hashes files stands.
pub enum Phase {
    /// Nothing is under way: before the sizes are added up.
    Idle,
    /// The candidate files are being looked for.
    Scanning,
    /// The sizes are being added up.
    Preparing,
    /// The total size is known, and the hashing is not announced yet.
    Prepared,
    /// The files are being hashed, and none is open.
    Hashing,
    /// A file is being hashed.
    InFile,
    /// All files have been hashed.
    Done,
}

/// The phase after notification `n` in phase `phase`: `None` where the
/// notification does not belong there.
pub open spec fn step(phase: Phase, n: Notification) -> Option<Phase> {
    match n {
        Notification::BeginLoad { .. } | Notification::EndLoad | Notification::BeginDiff
        | Notification::EndDiff => Some(phase),
        Notification::BeginScan => if phase is Idle {
            Some(Phase::Scanning)
        } else {
            None
        },
        Notification::EndScan => if phase is Scanning {
            Some(Phase::Idle)
        } else {
            None
        },
        Notification::BeginPrepare => if phase is Idle {
            Some(Phase::Preparing)
        } else {
            None
        },
        Notification::EndPrepare => if phase is Preparing {
            Some(Phase::Prepared)
        } else {
            None
        },
        Notification::BeginGenerate { .. } | Notification::BeginVerify { .. } => if phase
            is Prepared {
            Some(Phase::Hashing)
        } else {
            None
        },
        Notification::BeginFile { .. } => if phase is Hashing {
            Some(Phase::InFile)
        } else {
            None
        },
        Notification::FileProgress { .. } => if phase is InFile {
            Some(Phase::InFile)
        } else {
            None
        },
        Notification::EndFile => if phase is InFile {
            Some(Phase::Hashing)
        } else {
            None
        },
        Notification::EndGenerate | Notification::EndVerify => if phase is Hashing {
            Some(Phase::Done)
        } else {
            None
        },
    }
}

/// The phase after the notifications of `log`, from the beginning: `None`
/// where one of them came out of order.
pub open spec fn phase_after(log: Seq<Notification>) -> Option<Phase>
    decreases log.len(),
{
    if log.len() == 0 {
        Some(Phase::Idle)
    } else {
        match phase_after(log.drop_last()) {
            Some(phase) => step(phase, log.last()),
            None => None,
        }
    }
}

/// Whether the total size is known in `phase`.
pub open spec fn total_known(phase: Phase) -> bool {
    phase is Prepared || phase is Hashing || phase is InFile || phase is Done
}

/// The notifications of progress for `len` bytes that are hashed
/// `chunk_size` bytes at a time: one for each chunk, with its length.
pub open spec fn progress_of_chunks(len: nat, chunk_size: nat) -> Seq<Notification>
    decreases len,
{
    if len == 0 || chunk_size == 0 {
        Seq::<Notification>::empty()
    } else if len <= chunk_size {
        seq![Notification::FileProgress { bytes: len as u64 }]
    } else {
        seq![Notification::FileProgress { bytes: chunk_size as u64 }] + progress_of_chunks(
            (len - chunk_size) as nat,
            chunk_size,
        )
    }
}

/// The phase after one more notification is the step from the phase before.
pub proof fn lemma_phase_after_push(log: Seq<Notification>, n: Notification)
    ensures
        phase_after(log.push(n)) == match phase_after(log) {
            Some(phase) => step(phase, n),
            None => None,
        },
{
    assert(log.push(n).drop_last() =~= log);
}

/// Notifications that came in order so far were in order all along.
pub proof fn lemma_prefix_in_order(log: Seq<Notification>, k: int)
    requires
        phase_after(log) is Some,
        0 <= k <= log.len(),
    ensures
        phase_after(log.take(k)) is Some,
    decreases log.len() - k,
{
    if k < log.len() {
        lemma_prefix_in_order(log, k + 1);
        assert(log.take(k + 1).drop_last() =~= log.take(k));
    } else {
        assert(log.take(k) =~= log);
    }
}

/// Where the total is known, the end of the adding up has been announced.
pub proof fn lemma_total_known_was_announced(log: Seq<Notification>)
    requires
        phase_after(log) is Some,
        total_known(phase_after(log)->0),
    ensures
        exists|j: int| 0 <= j < log.len() && #[trigger] log[j] == Notification::EndPrepare,
    decreases log.len(),
{
    if log.len() > 0 {
        let front = log.drop_last();
        if log.last() == Notification::EndPrepare {
            assert(log[log.len() - 1] == Notification::EndPrepare);
        } else {
            lemma_total_known_was_announced(front);
            let j = choose|j: int| 0 <= j < front.len() && #[trigger] front[j] == Notification::EndPrepare;
            assert(log[j] == Notification::EndPrepare);
        }
    }
}

/// No file is announced before the total size is known: among
/// notifications that come in order, each announcement of a file comes
/// after the end of the adding up.
pub proof fn lemma_file_begins_after_total(log: Seq<Notification>, i: int)
    requires
        phase_after(log) is Some,
        0 <= i < log.len(),
        log[i] is BeginFile,
    ensures
        exists|j: int| 0 <= j < i && #[trigger] log[j] == Notification::EndPrepare,
{
    lemma_prefix_in_order(log, i + 1);
    lemma_prefix_in_order(log, i);
    let before = log.take(i);
    assert(log.take(i + 1).drop_last() =~= before);
    assert(log.take(i + 1).last() == log[i]);
    assert(phase_after(before) == Some(Phase::Hashing));
    lemma_total_known_was_announced(before);
    let j = choose|j: int| 0 <= j < before.len() && #[trigger] before[j] == Notification::EndPrepare;
    assert(log[j] == Notification::EndPrepare);
}

/// What the preparation of a build tells the handler leads from the
/// beginning to the hashing.
pub proof fn lemma_prepare_of_build_in_order(log: Seq<Notification>, file_count: u32, total_size: u64)
    requires
        phase_after(log) == Some(Phase::Idle),
    ensures
        phase_after(
            log.push(Notification::BeginPrepare).push(Notification::EndPrepare).push(
                Notification::BeginGenerate { file_count, total_size },
            ),
        ) == Some(Phase::Hashing),
{
    let a = log.push(Notification::BeginPrepare);
    let b = a.push(Notification::EndPrepare);
    lemma_phase_after_push(log, Notification::BeginPrepare);
    lemma_phase_after_push(a, Notification::EndPrepare);
    lemma_phase_after_push(b, Notification::BeginGenerate { file_count, total_size });
}

/// What the preparation of a verification tells the handler leads from the
/// beginning to the hashing.
pub proof fn lemma_prepare_of_verify_in_order(log: Seq<Notification>, file_count: u32, total_size: u64)
    requires
        phase_after(log) == Some(Phase::Idle),
    ensures
        phase_after(
            log.push(Notification::BeginPrepare).push(Notification::EndPrepare).push(
                Notification::BeginVerify { file_count, total_size },
            ),
        ) == Some(Phase::Hashing),
{
    let a = log.push(Notification::BeginPrepare);
    let b = a.push(Notification::EndPrepare);
    lemma_phase_after_push(log, Notification::BeginPrepare);
    lemma_phase_after_push(a, Notification::EndPrepare);
    lemma_phase_after_push(b, Notification::BeginVerify { file_count, total_size });
}

/// The progress of a file that is hashed in chunks is in order while the
/// file is open, and leaves it open.
pub proof fn lemma_progress_in_order(log: Seq<Notification>, len: nat, chunk_size: nat)
    requires
        phase_after(log) == Some(Phase::InFile),
    ensures
        phase_after(log + progress_of_chunks(len, chunk_size)) == Some(Phase::InFile),
    decreases len,
{
    if len == 0 || chunk_size == 0 {
        assert(log + progress_of_chunks(len, chunk_size) =~= log);
    } else if len <= chunk_size {
        let n = Notification::FileProgress { bytes: len as u64 };
        lemma_phase_after_push(log, n);
        assert(log + progress_of_chunks(len, chunk_size) =~= log.push(n));
    } else {
        let n = Notification::FileProgress { bytes: chunk_size as u64 };
        let rest = progress_of_chunks((len - chunk_size) as nat, chunk_size);
        lemma_phase_after_push(log, n);
        lemma_progress_in_order(log.push(n), (len - chunk_size) as nat, chunk_size);
        assert(log + progress_of_chunks(len, chunk_size) =~= log.push(n) + rest);
    }
}

/// The hashing of one file, from its announcement to its end, is in order
/// during the hashing, and leads back to it.
pub proof fn lemma_file_in_order(
    log: Seq<Notification>,
    filename: Seq<char>,
    size: u64,
    len: nat,
    chunk_size: nat,
)
    requires
        phase_after(log) == Some(Phase::Hashing),
    ensures
        phase_after(
            (log.push(Notification::BeginFile { filename, size }) + progress_of_chunks(
                len,
                chunk_size,
            )).push(Notification::EndFile),
        ) == Some(Phase::Hashing),
{
    let opened = log.push(Notification::BeginFile { filename, size });
    lemma_phase_after_push(log, Notification::BeginFile { filename, size });
    lemma_progress_in_order(opened, len, chunk_size);
    lemma_phase_after_push(opened + progress_of_chunks(len, chunk_size), Notification::EndFile);
}

/// The end of a build or of a verification is in order once no file is
/// open, and nothing follows it.
pub proof fn lemma_end_in_order(log: Seq<Notification>)
    requires
        phase_after(log) == Some(Phase::Hashing),
    ensures
        phase_after(log.push(Notification::EndGenerate)) == Some(Phase::Done),
        phase_after(log.push(Notification::EndVerify)) == Some(Phase::Done),
{
    lemma_phase_after_push(log, Notification::EndGenerate);
    lemma_phase_after_push(log, Notification::EndVerify);
}

} // verus!
