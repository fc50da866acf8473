//! The handler to which the library reports its progress, and the record of
//! what it was told.
//!
//! A [`UiHandler`] receives notifications and gives nothing back, so that
//! nothing it does can reach the computed data. The library speaks to it
//! through a [`Notifier`], which hands every notification on and keeps
//! account of it: what an operation has told the handler is part of the
//! operation's contract.

use vstd::prelude::*;

verus! {

/// Receives the lifecycle and progress notifications of the library's
/// operations. What an implementation does with them never reaches the
/// computed data: no method returns a value.
pub trait UiHandler {
    /// A manifest named `filename` is about to be loaded.
    fn begin_load(&mut self, filename: &str);

    /// The manifest has been loaded.
    fn end_load(&mut self);

    /// The comparison of two checksum sets begins.
    fn begin_diff(&mut self);

    /// The comparison has ended.
    fn end_diff(&mut self);

    /// The search for candidate files begins.
    fn begin_scan(&mut self);

    /// The search for candidate files has ended.
    fn end_scan(&mut self);

    /// The sizes of the files at hand are about to be added up.
    fn begin_prepare(&mut self);

    /// The total size is known.
    fn end_prepare(&mut self);

    /// `file_count` files of `total_size` bytes in all are about to be hashed
    /// into a new checksum set.
    fn begin_generate(&mut self, file_count: u32, total_size: u64);

    /// The checksum set has been generated.
    fn end_generate(&mut self);

    /// `file_count` files of `total_size` bytes in all are about to be hashed
    /// and held against a checksum set.
    fn begin_verify(&mut self, file_count: u32, total_size: u64);

    /// The verification has ended.
    fn end_verify(&mut self);

    /// The file named `filename`, of `size` bytes, is about to be hashed.
    fn begin_file(&mut self, filename: &str, size: u64);

    /// Another `bytes` bytes of the current file have been hashed.
    fn file_progress(&mut self, bytes: u64);

    /// The current file has been hashed.
    fn end_file(&mut self);
}

/// A notification, as a mathematical value: one variant for each method of
/// [`UiHandler`], with the arguments of the call.
pub enum Notification {
    BeginLoad { filename: Seq<char> },
    EndLoad,
    BeginDiff,
    EndDiff,
    BeginScan,
    EndScan,
    BeginPrepare,
    EndPrepare,
    BeginGenerate { file_count: u32, total_size: u64 },
    EndGenerate,
    BeginVerify { file_count: u32, total_size: u64 },
    EndVerify,
    BeginFile { filename: Seq<char>, size: u64 },
    FileProgress { bytes: u64 },
    EndFile,
}

/// A handler together with the record of the notifications it was sent.
///
/// Each method hands its notification on to the handler and adds it to the
/// record. The record exists for the contracts only and costs nothing when
/// the program runs.
pub struct Notifier<U: UiHandler> {
    handler: U,
    sent: Ghost<Seq<Notification>>,
}

impl<U: UiHandler> Notifier<U> {
    /// The notifications that the handler was sent through this notifier, in
    /// the order in which they were sent.
    pub closed spec fn sent(&self) -> Seq<Notification> {
        self.sent@
    }

    /// The handler, as it stands.
    pub closed spec fn inner(&self) -> U {
        self.handler
    }

    /// A notifier for `handler`, which has been sent nothing yet.
    pub fn new(handler: U) -> (n: Self)
        ensures
            n.inner() == handler,
            n.sent() == Seq::<Notification>::empty(),
    {
        Notifier { handler, sent: Ghost(Seq::empty()) }
    }

    /// The handler.
    pub fn handler(&self) -> (h: &U)
        ensures
            *h == self.inner(),
    {
        &self.handler
    }

    /// Gives the handler back.
    pub fn into_handler(self) -> (h: U)
        ensures
            h == self.inner(),
    {
        self.handler
    }

    /// Tells the handler that a manifest named `filename` is about to be loaded.
    pub fn begin_load(&mut self, filename: &str)
        ensures
            final(self).sent() == old(self).sent().push(
                Notification::BeginLoad { filename: filename@ },
            ),
    {
        self.handler.begin_load(filename);
        self.sent = Ghost(self.sent@.push(Notification::BeginLoad { filename: filename@ }));
    }

    /// Tells the handler that the manifest has been loaded.
    pub fn end_load(&mut self)
        ensures
            final(self).sent() == old(self).sent().push(Notification::EndLoad),
    {
        self.handler.end_load();
        self.sent = Ghost(self.sent@.push(Notification::EndLoad));
    }

    /// Tells the handler that the comparison of two checksum sets begins.
    pub fn begin_diff(&mut self)
        ensures
            final(self).sent() == old(self).sent().push(Notification::BeginDiff),
    {
        self.handler.begin_diff();
        self.sent = Ghost(self.sent@.push(Notification::BeginDiff));
    }

    /// Tells the handler that the comparison has ended.
    pub fn end_diff(&mut self)
        ensures
            final(self).sent() == old(self).sent().push(Notification::EndDiff),
    {
        self.handler.end_diff();
        self.sent = Ghost(self.sent@.push(Notification::EndDiff));
    }

    /// Tells the handler that the search for candidate files begins.
    pub fn begin_scan(&mut self)
        ensures
            final(self).sent() == old(self).sent().push(Notification::BeginScan),
    {
        self.handler.begin_scan();
        self.sent = Ghost(self.sent@.push(Notification::BeginScan));
    }

    /// Tells the handler that the search for candidate files has ended.
    pub fn end_scan(&mut self)
        ensures
            final(self).sent() == old(self).sent().push(Notification::EndScan),
    {
        self.handler.end_scan();
        self.sent = Ghost(self.sent@.push(Notification::EndScan));
    }

    /// Tells the handler that the sizes of the files at hand are about to be
    /// added up.
    pub fn begin_prepare(&mut self)
        ensures
            final(self).sent() == old(self).sent().push(Notification::BeginPrepare),
    {
        self.handler.begin_prepare();
        self.sent = Ghost(self.sent@.push(Notification::BeginPrepare));
    }

    /// Tells the handler that the total size is known.
    pub fn end_prepare(&mut self)
        ensures
            final(self).sent() == old(self).sent().push(Notification::EndPrepare),
    {
        self.handler.end_prepare();
        self.sent = Ghost(self.sent@.push(Notification::EndPrepare));
    }

    /// Tells the handler that `file_count` files of `total_size` bytes in all
    /// are about to be hashed into a new checksum set.
    pub fn begin_generate(&mut self, file_count: u32, total_size: u64)
        ensures
            final(self).sent() == old(self).sent().push(
                Notification::BeginGenerate { file_count, total_size },
            ),
    {
        self.handler.begin_generate(file_count, total_size);
        self.sent = Ghost(self.sent@.push(Notification::BeginGenerate { file_count, total_size }));
    }

    /// Tells the handler that the checksum set has been generated.
    pub fn end_generate(&mut self)
        ensures
            final(self).sent() == old(self).sent().push(Notification::EndGenerate),
    {
        self.handler.end_generate();
        self.sent = Ghost(self.sent@.push(Notification::EndGenerate));
    }

    /// Tells the handler that `file_count` files of `total_size` bytes in all
    /// are about to be hashed and held against a checksum set.
    pub fn begin_verify(&mut self, file_count: u32, total_size: u64)
        ensures
            final(self).sent() == old(self).sent().push(
                Notification::BeginVerify { file_count, total_size },
            ),
    {
        self.handler.begin_verify(file_count, total_size);
        self.sent = Ghost(self.sent@.push(Notification::BeginVerify { file_count, total_size }));
    }

    /// Tells the handler that the verification has ended.
    pub fn end_verify(&mut self)
        ensures
            final(self).sent() == old(self).sent().push(Notification::EndVerify),
    {
        self.handler.end_verify();
        self.sent = Ghost(self.sent@.push(Notification::EndVerify));
    }

    /// Tells the handler that the file named `filename`, of `size` bytes, is
    /// about to be hashed.
    pub fn begin_file(&mut self, filename: &str, size: u64)
        ensures
            final(self).sent() == old(self).sent().push(
                Notification::BeginFile { filename: filename@, size },
            ),
    {
        self.handler.begin_file(filename, size);
        self.sent = Ghost(self.sent@.push(Notification::BeginFile { filename: filename@, size }));
    }

    /// Tells the handler that another `bytes` bytes of the current file have
    /// been hashed.
    pub fn file_progress(&mut self, bytes: u64)
        ensures
            final(self).sent() == old(self).sent().push(Notification::FileProgress { bytes }),
    {
        self.handler.file_progress(bytes);
        self.sent = Ghost(self.sent@.push(Notification::FileProgress { bytes }));
    }

    /// Tells the handler that the current file has been hashed.
    pub fn end_file(&mut self)
        ensures
            final(self).sent() == old(self).sent().push(Notification::EndFile),
    {
        self.handler.end_file();
        self.sent = Ghost(self.sent@.push(Notification::EndFile));
    }
}

} // verus!
