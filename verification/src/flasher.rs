//! The flash orchestrator: one state machine per operation that sequences
//! preparation, the optional download, the write pass, the optional
//! verification pass and the single terminal outcome, and that owns the
//! progress stream those phases emit.

use vstd::prelude::*;
use crate::common::{BUF_SIZE, SelectedImage};
use crate::digest::{sha256, sha256_of};
use crate::img::ImageStream;
use crate::sd::{MemDevice, cancel_point, flash, flash_cancelled};
use crate::status::{DownloadFlashingStatus, Fraction, lemma_log_push, lemma_terminal_last, rank, valid_log};

verus! {

/// A cooperative cancellation request, honored between chunks: it fires
/// at every checkpoint from the given chunk count on.
#[derive(Debug, Clone, Copy)]
pub struct CancelToken {
    pub cancel_after_chunks: Option<u64>,
}

impl CancelToken {
    /// Whether the checkpoint after `chunks_done` chunks observes the
    /// cancellation request.
    pub open spec fn spec_trips(self, chunks_done: u64) -> bool {
        self.cancel_after_chunks matches Some(c) && chunks_done >= c
    }

    /// A token that never requests cancellation.
    pub fn never() -> (r: Self)
        ensures
            r.cancel_after_chunks is None,
    {
        Self { cancel_after_chunks: None }
    }

    /// A token whose request becomes visible once `c` chunks are done.
    pub fn after_chunks(c: u64) -> (r: Self)
        ensures
            r.cancel_after_chunks == Some(c),
    {
        Self { cancel_after_chunks: Some(c) }
    }

    /// Poll the token at a checkpoint.
    pub fn check(&self, chunks_done: u64) -> (r: bool)
        ensures
            r == self.spec_trips(chunks_done),
    {
        match self.cancel_after_chunks {
            Some(c) => chunks_done >= c,
            None => false,
        }
    }
}

/// The phase a flash operation is in.
#[derive(Debug, Clone, Copy, PartialEq, Eq, Structural)]
pub enum RunState {
    /// Resolving the image source; nothing emitted yet but `Preparing`.
    Preparing,
    /// A remote image is being downloaded.
    Downloading,
    /// The image source is resolved; flashing has not begun.
    Resolved,
    /// The write pass is running.
    Flashing,
    /// The written bytes are being read back and hashed.
    VerifyingData,
    /// The operation reached its single terminal outcome.
    Terminal,
}

/// One flash operation: the progress stream emitted so far and the state
/// that decides what may be emitted next.
///
/// The invariant ties every reachable value to a valid stream: phases in
/// order, fractions monotone within each phase and bounded in `[0, 1]`,
/// and at most one terminal `Finished`, always last, present exactly when
/// the operation succeeded.
pub struct FlashRun {
    log: Vec<DownloadFlashingStatus>,
    state: RunState,
    total: u64,
    written: u64,
    vread: u64,
    dl_total: Option<u64>,
    dl_read: u64,
    succeeded: bool,
}

impl FlashRun {
    /// The progress stream emitted so far.
    pub closed spec fn log(self) -> Seq<DownloadFlashingStatus> {
        self.log@
    }

    /// The phase the operation is in.
    pub closed spec fn state(self) -> RunState {
        self.state
    }

    /// Bytes the write pass will stream in total.
    pub closed spec fn total(self) -> u64 {
        self.total
    }

    /// Bytes written so far.
    pub closed spec fn written(self) -> u64 {
        self.written
    }

    /// Bytes read back by the verification pass so far.
    pub closed spec fn vread(self) -> u64 {
        self.vread
    }

    /// The download size, when the transfer announced one.
    pub closed spec fn dl_total(self) -> Option<u64> {
        self.dl_total
    }

    /// Bytes downloaded so far.
    pub closed spec fn dl_read(self) -> u64 {
        self.dl_read
    }

    /// Whether the terminal outcome was success.
    pub closed spec fn succeeded(self) -> bool {
        self.succeeded
    }

    /// The state invariant: the stream is valid and the last entry
    /// matches the phase.
    pub closed spec fn inv(self) -> bool {
        &&& valid_log(self.log@)
        &&& self.log@.len() >= 1
        &&& self.log@[0] is Preparing
        &&& match self.state {
            RunState::Preparing => self.log@.len() == 1,
            RunState::Downloading => {
                &&& rank(self.log@.last()) <= 1
                &&& self.log@.last() is DownloadingProgress ==> self.dl_total is Some
                &&& self.log@.last() matches DownloadFlashingStatus::DownloadingProgress(f)
                    ==> self.dl_total matches Some(t) ==> f == Fraction::spec_of(self.dl_read, t)
            },
            RunState::Resolved => rank(self.log@.last()) <= 1,
            RunState::Flashing => self.log@.last() == DownloadFlashingStatus::FlashingProgress(
                Fraction::spec_of(self.written, self.total),
            ),
            RunState::VerifyingData => self.log@.last() == DownloadFlashingStatus::VerifyingProgress(
                Fraction::spec_of(self.vread, self.total),
            ),
            RunState::Terminal => if self.succeeded {
                self.log@.last() is Finished
            } else {
                forall|i: int| 0 <= i < self.log@.len() ==> !(#[trigger] self.log@[i] is Finished)
            },
        }
    }

    /// What the invariant guarantees a consumer of the stream: validity,
    /// the opening `Preparing`, and that `Finished` stands exactly at the
    /// end of a successful run and nowhere in any other run.
    pub proof fn lemma_inv_log(self)
        requires
            self.inv(),
        ensures
            valid_log(self.log()),
            self.log().len() >= 1,
            self.log()[0] is Preparing,
            self.state() is Terminal && self.succeeded() ==> self.log().last() is Finished,
            !(self.state() is Terminal && self.succeeded()) ==> forall|i: int|
                0 <= i < self.log().len() ==> !(#[trigger] self.log()[i] is Finished),
            forall|i: int|
                0 <= i < self.log().len() && #[trigger] self.log()[i] is Finished
                    ==> i == self.log().len() - 1,
    {
        lemma_terminal_last(self.log@);
        if !(self.state is Terminal && self.succeeded) {
            assert forall|i: int| 0 <= i < self.log@.len() implies !(#[trigger] self.log@[i] is Finished) by {
                match self.state {
                    RunState::Terminal => {},
                    _ => {
                        assert(!(self.log@.last() is Finished));
                        if self.log@[i] is Finished {
                            assert(i == self.log@.len() - 1);
                        }
                    },
                }
            }
        }
    }

    /// The phase the operation is in, for callers that sequence the
    /// events from outside.
    pub fn phase(&self) -> (r: RunState)
        ensures
            r == self.state(),
    {
        self.state
    }

    /// Read access to the progress stream.
    pub fn statuses(&self) -> (r: &Vec<DownloadFlashingStatus>)
        ensures
            r@ == self.log(),
    {
        &self.log
    }

    /// Start an operation: the single `Preparing` status is emitted.
    pub fn new() -> (r: FlashRun)
        ensures
            r.inv(),
            r.state() is Preparing,
            r.log() == seq![DownloadFlashingStatus::Preparing],
    {
        let mut log: Vec<DownloadFlashingStatus> = Vec::new();
        log.push(DownloadFlashingStatus::Preparing);
        proof {
            assert(log@ =~= seq![DownloadFlashingStatus::Preparing]);
        }
        FlashRun {
            log,
            state: RunState::Preparing,
            total: 0,
            written: 0,
            vread: 0,
            dl_total: None,
            dl_read: 0,
            succeeded: false,
        }
    }

    /// A remote image needs a transfer first; its size is known when the
    /// response announced a content length, and unknown otherwise.
    pub fn begin_download(&mut self, content_length: Option<u64>)
        requires
            old(self).inv(),
            old(self).state() is Preparing,
        ensures
            final(self).inv(),
            final(self).state() is Downloading,
            final(self).log() == old(self).log(),
            final(self).dl_total() == content_length,
            final(self).dl_read() == 0,
    {
        self.state = RunState::Downloading;
        self.dl_total = content_length;
        self.dl_read = 0;
    }

    /// `n` more bytes arrived. With a known size this emits the download
    /// fraction; with an unknown size nothing is emitted, rather than a
    /// fabricated value.
    pub fn download_chunk(&mut self, n: u64)
        requires
            old(self).inv(),
            old(self).state() is Downloading,
            old(self).dl_read() + n <= u64::MAX,
        ensures
            final(self).inv(),
            final(self).state() is Downloading,
            final(self).dl_read() == old(self).dl_read() + n,
            final(self).dl_total() == old(self).dl_total(),
            match old(self).dl_total() {
                Some(t) => final(self).log() == old(self).log().push(
                    DownloadFlashingStatus::DownloadingProgress(
                        Fraction::spec_of((old(self).dl_read() + n) as u64, t),
                    ),
                ),
                None => final(self).log() == old(self).log(),
            },
    {
        self.dl_read = self.dl_read + n;
        match self.dl_total {
            Some(t) => {
                let f = Fraction::of(self.dl_read, t);
                proof {
                    let last = self.log@.last();
                    if last is DownloadingProgress {
                        Fraction::lemma_of_monotone(
                            old(self).dl_read,
                            self.dl_read,
                            t,
                        );
                    }
                    lemma_log_push(self.log@, DownloadFlashingStatus::DownloadingProgress(f));
                }
                self.log.push(DownloadFlashingStatus::DownloadingProgress(f));
            },
            None => {},
        }
    }

    /// The transfer is complete and hashed to `computed`; the caller
    /// expected `expected`. On a match the image source is resolved; on a
    /// mismatch the operation fails here, before anything is flashed.
    pub fn download_done(&mut self, computed: &[u8; 32], expected: &[u8; 32]) -> (ok: bool)
        requires
            old(self).inv(),
            old(self).state() is Downloading,
        ensures
            final(self).inv(),
            ok == (computed@ == expected@),
            final(self).log() == old(self).log(),
            ok ==> final(self).state() is Resolved,
            !ok ==> final(self).state() is Terminal && !final(self).succeeded(),
    {
        let ok = crate::digest::digest_eq(computed, expected);
        if ok {
            self.state = RunState::Resolved;
        } else {
            proof {
                lemma_terminal_last(self.log@);
            }
            self.state = RunState::Terminal;
            self.succeeded = false;
        }
        ok
    }

    /// The write pass begins over a stream of `total` bytes; its opening
    /// zero fraction is emitted.
    pub fn begin_flashing(&mut self, total: u64)
        requires
            old(self).inv(),
            old(self).state() is Preparing || old(self).state() is Resolved,
        ensures
            final(self).inv(),
            final(self).state() is Flashing,
            final(self).total() == total,
            final(self).written() == 0,
            final(self).log() == old(self).log().push(
                DownloadFlashingStatus::FlashingProgress(Fraction::spec_of(0, total)),
            ),
    {
        self.state = RunState::Flashing;
        self.total = total;
        self.written = 0;
        let f = Fraction::of(0, total);
        proof {
            lemma_log_push(self.log@, DownloadFlashingStatus::FlashingProgress(f));
        }
        self.log.push(DownloadFlashingStatus::FlashingProgress(f));
    }

    /// `n` more bytes reached the destination; the new fraction is
    /// emitted. A zero `n` re-emits the current fraction, which the
    /// write pass does when it observes the end of the stream.
    pub fn flashed_chunk(&mut self, n: usize)
        requires
            old(self).inv(),
            old(self).state() is Flashing,
            old(self).written() + n <= u64::MAX,
        ensures
            final(self).inv(),
            final(self).state() is Flashing,
            final(self).written() == old(self).written() + n,
            final(self).total() == old(self).total(),
            final(self).log() == old(self).log().push(
                DownloadFlashingStatus::FlashingProgress(
                    Fraction::spec_of((old(self).written() + n) as u64, old(self).total()),
                ),
            ),
    {
        self.written = self.written + (n as u64);
        let f = Fraction::of(self.written, self.total);
        proof {
            Fraction::lemma_of_monotone(old(self).written, self.written, self.total);
            lemma_log_push(self.log@, DownloadFlashingStatus::FlashingProgress(f));
        }
        self.log.push(DownloadFlashingStatus::FlashingProgress(f));
    }

    /// The write pass is done and a digest is to be checked: the
    /// verification pass begins, announced by `Verifying` and its opening
    /// zero fraction.
    pub fn begin_verifying(&mut self)
        requires
            old(self).inv(),
            old(self).state() is Flashing,
        ensures
            final(self).inv(),
            final(self).state() is VerifyingData,
            final(self).vread() == 0,
            final(self).total() == old(self).total(),
            final(self).log() == old(self).log().push(DownloadFlashingStatus::Verifying).push(
                DownloadFlashingStatus::VerifyingProgress(Fraction::spec_of(0, old(self).total())),
            ),
    {
        self.state = RunState::VerifyingData;
        self.vread = 0;
        proof {
            lemma_log_push(self.log@, DownloadFlashingStatus::Verifying);
        }
        self.log.push(DownloadFlashingStatus::Verifying);
        let f = Fraction::of(0, self.total);
        proof {
            lemma_log_push(self.log@, DownloadFlashingStatus::VerifyingProgress(f));
        }
        self.log.push(DownloadFlashingStatus::VerifyingProgress(f));
    }

    /// `n` more bytes were read back; the new verification fraction is
    /// emitted.
    pub fn verified_chunk(&mut self, n: usize)
        requires
            old(self).inv(),
            old(self).state() is VerifyingData,
            old(self).vread() + n <= u64::MAX,
        ensures
            final(self).inv(),
            final(self).state() is VerifyingData,
            final(self).vread() == old(self).vread() + n,
            final(self).total() == old(self).total(),
            final(self).log() == old(self).log().push(
                DownloadFlashingStatus::VerifyingProgress(
                    Fraction::spec_of((old(self).vread() + n) as u64, old(self).total()),
                ),
            ),
    {
        self.vread = self.vread + (n as u64);
        let f = Fraction::of(self.vread, self.total);
        proof {
            Fraction::lemma_of_monotone(old(self).vread, self.vread, self.total);
            lemma_log_push(self.log@, DownloadFlashingStatus::VerifyingProgress(f));
        }
        self.log.push(DownloadFlashingStatus::VerifyingProgress(f));
    }

    /// The operation succeeded; the single terminal `Finished` is
    /// emitted, after which nothing else ever is.
    pub fn finish(&mut self)
        requires
            old(self).inv(),
            old(self).state() is Flashing || old(self).state() is VerifyingData,
        ensures
            final(self).inv(),
            final(self).state() is Terminal,
            final(self).succeeded(),
            final(self).total() == old(self).total(),
            final(self).log() == old(self).log().push(DownloadFlashingStatus::Finished),
            old(self).state() is Flashing ==> old(self).log().last()
                == DownloadFlashingStatus::FlashingProgress(
                Fraction::spec_of(old(self).written(), old(self).total()),
            ),
            old(self).state() is VerifyingData ==> old(self).log().last()
                == DownloadFlashingStatus::VerifyingProgress(
                Fraction::spec_of(old(self).vread(), old(self).total()),
            ),
    {
        proof {
            lemma_log_push(self.log@, DownloadFlashingStatus::Finished);
        }
        self.log.push(DownloadFlashingStatus::Finished);
        self.state = RunState::Terminal;
        self.succeeded = true;
    }

    /// The operation ends in failure or cancellation: the run becomes
    /// terminal without ever emitting `Finished`.
    pub fn fail(&mut self)
        requires
            old(self).inv(),
            !(old(self).state() is Terminal),
        ensures
            final(self).inv(),
            final(self).state() is Terminal,
            !final(self).succeeded(),
            final(self).total() == old(self).total(),
            final(self).log() == old(self).log(),
    {
        proof {
            lemma_terminal_last(self.log@);
        }
        self.state = RunState::Terminal;
        self.succeeded = false;
    }
}

/// The digest the selected image obliges the downloaded bytes to hash
/// to: remote images are pinned, local files are not.
pub open spec fn expected_digest(img: SelectedImage) -> Option<Seq<u8>> {
    match img {
        SelectedImage::Local(_) => None,
        SelectedImage::Remote { extract_sha256, .. } => Some(extract_sha256@),
    }
}

/// The downloaded bytes fail the integrity check their image demands.
pub open spec fn download_mismatch(img: SelectedImage, payload: Seq<u8>) -> bool {
    &&& expected_digest(img) matches Some(d) && sha256_of(payload) != d
}

/// Run one flash operation over in-memory data: resolve the image (for a
/// remote image: stream the payload under a download phase and validate
/// its digest after the full stream is consumed), then hand the stream to
/// the write engine, which flashes, optionally verifies, and reaches the
/// single terminal outcome.
///
/// `payload` stands for the bytes behind the selected image: the local
/// file's content, or what the network returned for the remote URL.
#[verifier::rlimit(100)]
pub fn download_and_flash(
    img: &SelectedImage,
    payload: Vec<u8>,
    dst: &mut MemDevice,
    verify: bool,
    cancel: CancelToken,
) -> (r: (FlashRun, Result<(), crate::error::Error>))
    requires
        old(dst).wf(),
        old(dst).contents().len() == 0,
    ensures
        final(dst).wf(),
        valid_log(r.0.log()),
        r.0.log().len() >= 1,
        r.0.log()[0] is Preparing,
        r.0.state() is Terminal,
        r.0.succeeded() <==> r.1 is Ok,
        r.1 is Ok <==> r.0.log().last() is Finished,
        r.1 is Err ==> forall|i: int|
            0 <= i < r.0.log().len() ==> !(#[trigger] r.0.log()[i] is Finished),
        forall|i: int|
            0 <= i < r.0.log().len() && #[trigger] r.0.log()[i] is Finished ==> i == r.0.log().len()
                - 1,
        download_mismatch(*img, payload@) ==> r.1 == Err::<(), crate::error::Error>(
            crate::error::Error::DownloadError(crate::download::Error::Sha256Mismatch),
        ) && (forall|i: int| 0 <= i < r.0.log().len() ==> rank(#[trigger] r.0.log()[i]) <= 1)
            && final(dst).contents() == old(dst).contents(),
        !download_mismatch(*img, payload@) && flash_cancelled(cancel, payload@.len() as int)
            ==> r.1 == Err::<(), crate::error::Error>(crate::error::Error::Cancelled)
                && final(dst).contents() == payload@.take(
                cancel_point(cancel, payload@.len() as int),
            ),
        !download_mismatch(*img, payload@) && !flash_cancelled(cancel, payload@.len() as int)
            ==> r.1 == Ok::<(), crate::error::Error>(()) && final(dst).contents() == payload@,
        img is Local ==> forall|i: int|
            0 <= i < r.0.log().len() ==> rank(#[trigger] r.0.log()[i]) != 1,
        img is Local || !verify ==> forall|i: int|
            0 <= i < r.0.log().len() ==> rank(#[trigger] r.0.log()[i]) != 3 && rank(r.0.log()[i])
                != 4,
        img is Remote && !download_mismatch(*img, payload@) ==> exists|i: int|
            0 <= i < r.0.log().len() && rank(#[trigger] r.0.log()[i]) == 1,
        img is Remote && !download_mismatch(*img, payload@) && !flash_cancelled(
            cancel,
            payload@.len() as int,
        ) && verify ==> (exists|i: int|
            0 <= i < r.0.log().len() && rank(#[trigger] r.0.log()[i]) == 3) && (exists|i: int|
            0 <= i < r.0.log().len() && rank(#[trigger] r.0.log()[i]) == 4),
        !download_mismatch(*img, payload@) ==> r.0.total() == payload@.len(),
        r.1 is Ok && (img is Local || !verify) ==> r.0.log()[r.0.log().len() - 2]
            == DownloadFlashingStatus::FlashingProgress(
            Fraction::spec_of(r.0.total(), r.0.total()),
        ),
        r.1 is Ok ==> r.0.log().len() >= 2 && (r.0.log()[r.0.log().len() - 2]
            == DownloadFlashingStatus::FlashingProgress(
            Fraction::spec_of(r.0.total(), r.0.total()),
        ) || r.0.log()[r.0.log().len() - 2] == DownloadFlashingStatus::VerifyingProgress(
            Fraction::spec_of(r.0.total(), r.0.total()),
        )),
{
    let ghost pbytes: Seq<u8> = payload@;
    let mut run = FlashRun::new();
    match img {
        SelectedImage::Local(_) => {
            let mut stream = ImageStream::new(payload, None);
            let ghost s0: ImageStream = stream;
            let ghost pre_log: Seq<DownloadFlashingStatus> = run.log();
            let res = flash(&mut stream, dst, &mut run, verify, cancel);
            proof {
                run.lemma_inv_log();
                assert(run.log()[0] == pre_log[0]);
                assert(!crate::sd::verify_requested(s0, verify));
                assert forall|i: int| 0 <= i < run.log().len() implies rank(
                    #[trigger] run.log()[i],
                ) != 1 && rank(run.log()[i]) != 3 && rank(run.log()[i]) != 4 by {
                    if i == 0 {
                        assert(run.log()[i] is Preparing);
                    } else {
                        assert(rank(run.log()[i]) >= 2);
                        assert(rank(run.log()[i]) != 3 && rank(run.log()[i]) != 4);
                    }
                }
            }
            (run, res)
        },
        SelectedImage::Remote { extract_sha256, .. } => {
            let total = payload.len() as u64;
            run.begin_download(Some(total));
            let mut net = ImageStream::new(payload, None);
            let mut downloaded: Vec<u8> = Vec::new();
            let mut eof = false;
            while !eof
                invariant
                    net.wf(),
                    net.bytes() == pbytes,
                    total == pbytes.len(),
                    downloaded@ == pbytes.take(net.cursor()),
                    run.inv(),
                    run.state() is Downloading,
                    run.dl_total() == Some(total),
                    run.dl_read() == net.cursor(),
                    eof ==> net.cursor() == pbytes.len(),
                    run.log().len() >= 1,
                    run.log()[0] is Preparing,
                    forall|i: int|
                        0 <= i < run.log().len() ==> rank(#[trigger] run.log()[i]) <= 1,
                    run.log().len() == 1 || (run.log().len() >= 2 && run.log()[1]
                        is DownloadingProgress),
                    eof ==> run.log().len() >= 2,
                decreases pbytes.len() - net.cursor() + (if eof {
                    0int
                } else {
                    1int
                }),
            {
                let ghost pre_log: Seq<DownloadFlashingStatus> = run.log();
                let mut chunk = net.read_chunk(BUF_SIZE);
                run.download_chunk(chunk.len() as u64);
                proof {
                    assert forall|i: int| 0 <= i < run.log().len() implies rank(
                        #[trigger] run.log()[i],
                    ) <= 1 by {
                        if i < run.log().len() - 1 {
                            assert(run.log()[i] == pre_log[i]);
                        }
                    }
                    assert(run.log()[0] == pre_log[0]);
                    if pre_log.len() >= 2 {
                        assert(run.log()[1] == pre_log[1]);
                    }
                }
                if chunk.len() == 0 {
                    eof = true;
                } else {
                    downloaded.append(&mut chunk);
                    proof {
                        assert(downloaded@ =~= pbytes.take(net.cursor()));
                    }
                }
            }
            proof {
                assert(downloaded@ =~= pbytes);
            }
            let computed = sha256(downloaded.as_slice());
            let ok = run.download_done(&computed, extract_sha256);
            if !ok {
                proof {
                    run.lemma_inv_log();
                }
                return (
                    run,
                    Err(crate::error::Error::DownloadError(crate::download::Error::Sha256Mismatch)),
                );
            }
            let mut stream = ImageStream::new(downloaded, Some(*extract_sha256));
            let ghost s0: ImageStream = stream;
            let ghost pre_log: Seq<DownloadFlashingStatus> = run.log();
            let res = flash(&mut stream, dst, &mut run, verify, cancel);
            proof {
                run.lemma_inv_log();
                assert(run.log()[0] == pre_log[0]);
                assert(run.log()[1] == pre_log[1]);
                assert(rank(run.log()[1]) == 1);
                if !verify {
                    assert(!crate::sd::verify_requested(s0, verify));
                    assert forall|i: int| 0 <= i < run.log().len() implies rank(
                        #[trigger] run.log()[i],
                    ) != 3 && rank(run.log()[i]) != 4 by {
                        if i < pre_log.len() {
                            assert(run.log()[i] == pre_log[i]);
                            assert(rank(pre_log[i]) <= 1);
                        } else {
                            assert(rank(run.log()[i]) != 3 && rank(run.log()[i]) != 4);
                        }
                    }
                }
            }
            (run, res)
        },
    }
}

} // verus!
