//! The block-device write engine: stream an image to a destination in
//! fixed-size chunks, report progress, and optionally re-read and verify
//! the written bytes against the expected digest.

use vstd::prelude::*;
use crate::common::{BUF_SIZE, Destination};
use crate::digest::{digest_eq, sha256, sha256_of};
use crate::flasher::{CancelToken, FlashRun};
use crate::img::ImageStream;
use crate::status::{DownloadFlashingStatus, Fraction, rank};

verus! {

/// Failures specific to the block-device target class.
#[derive(Debug, Clone, Copy, PartialEq, Eq, Structural)]
pub enum Error {
    /// The written content did not match the expected digest.
    Sha256VerificationError,
    /// The platform query for removable drives failed.
    DriveFetchError,
}

impl Error {
    /// The human-readable description of this failure.
    pub open spec fn message_spec(self) -> Seq<char> {
        match self {
            Error::Sha256VerificationError => "Sha256 verification error"@,
            Error::DriveFetchError => "Failed to get removable flash drives"@,
        }
    }

    /// A human-readable description of this failure.
    pub fn message(&self) -> (r: String)
        ensures
            r@ == self.message_spec(),
    {
        match self {
            Error::Sha256VerificationError => "Sha256 verification error".to_owned(),
            Error::DriveFetchError => "Failed to get removable flash drives".to_owned(),
        }
    }
}

/// An in-memory write destination: the bytes written so far, and a read
/// cursor used by the verification pass.
pub struct MemDevice {
    data: Vec<u8>,
    read_pos: usize,
}

impl MemDevice {
    /// The bytes written to the device so far.
    pub closed spec fn contents(self) -> Seq<u8> {
        self.data@
    }

    /// The cursor of the verification read-back pass.
    pub closed spec fn read_cursor(self) -> int {
        self.read_pos as int
    }

    /// The read cursor never passes the end of the written bytes.
    pub closed spec fn wf(self) -> bool {
        self.read_pos <= self.data.len()
    }

    /// A fresh, empty destination.
    pub fn new() -> (r: Self)
        ensures
            r.wf(),
            r.contents() == Seq::<u8>::empty(),
            r.read_cursor() == 0,
    {
        Self { data: Vec::new(), read_pos: 0 }
    }

    /// Number of bytes written so far.
    pub fn len(&self) -> (r: usize)
        ensures
            r == self.contents().len(),
    {
        self.data.len()
    }

    /// Append one chunk at the end of the written bytes.
    pub fn write_chunk(&mut self, chunk: &[u8])
        requires
            old(self).wf(),
        ensures
            final(self).wf(),
            final(self).contents() == old(self).contents() + chunk@,
            final(self).read_cursor() == old(self).read_cursor(),
    {
        let mut i: usize = 0;
        while i < chunk.len()
            invariant
                0 <= i <= chunk@.len(),
                self.data@ == old(self).data@ + chunk@.subrange(0, i as int),
                self.read_pos == old(self).read_pos,
            decreases chunk@.len() - i,
        {
            self.data.push(chunk[i]);
            assert(self.data@ =~= old(self).data@ + chunk@.subrange(0, i + 1));
            i = i + 1;
        }
        proof {
            assert(chunk@.subrange(0, chunk@.len() as int) =~= chunk@);
        }
    }

    /// Move the read cursor back to the start of the device.
    pub fn seek_start(&mut self)
        requires
            old(self).wf(),
        ensures
            final(self).wf(),
            final(self).contents() == old(self).contents(),
            final(self).read_cursor() == 0,
    {
        self.read_pos = 0;
    }

    /// Read up to `max` bytes at the read cursor. The returned chunk is
    /// empty exactly when the cursor was already at the end.
    pub fn read_chunk(&mut self, max: usize) -> (chunk: Vec<u8>)
        requires
            old(self).wf(),
            max > 0,
        ensures
            final(self).wf(),
            final(self).contents() == old(self).contents(),
            chunk@ == old(self).contents().subrange(
                old(self).read_cursor(),
                old(self).read_cursor() + chunk@.len(),
            ),
            chunk@.len() == if old(self).contents().len() - old(self).read_cursor() < max {
                old(self).contents().len() - old(self).read_cursor()
            } else {
                max as int
            },
            final(self).read_cursor() == old(self).read_cursor() + chunk@.len(),
            (chunk@.len() == 0 <==> old(self).read_cursor() == old(self).contents().len()),
    {
        let remaining = self.data.len() - self.read_pos;
        let n = if remaining < max {
            remaining
        } else {
            max
        };
        let mut chunk: Vec<u8> = Vec::new();
        let mut i: usize = 0;
        while i < n
            invariant
                0 <= i <= n,
                self.read_pos + n <= self.data.len(),
                chunk@ == self.data@.subrange(self.read_pos as int, self.read_pos + i),
            decreases n - i,
        {
            chunk.push(self.data[self.read_pos + i]);
            assert(chunk@ =~= self.data@.subrange(self.read_pos as int, self.read_pos + i + 1));
            i = i + 1;
        }
        self.read_pos = self.read_pos + n;
        chunk
    }
}

/// The chunk index at which a cancellation request first becomes
/// visible: requests are polled only after a chunk was written, so a
/// request for chunk zero is seen at the first checkpoint.
pub open spec fn cancel_chunk(c: u64) -> int {
    if c == 0 {
        1int
    } else {
        c as int
    }
}

/// Whether the write pass over `len` bytes observes the cancellation
/// request at one of its checkpoints: the request must name a checkpoint
/// that the stream, cut into `BUF_SIZE` chunks, still reaches.
pub open spec fn flash_cancelled(cancel: CancelToken, len: int) -> bool {
    &&& cancel.cancel_after_chunks matches Some(c)
        && 1 <= len
        && (cancel_chunk(c) - 1) * (BUF_SIZE as int) < len
}

/// How many bytes have reached the destination when the write pass stops
/// at the cancellation checkpoint.
pub open spec fn cancel_point(cancel: CancelToken, len: int) -> int {
    match cancel.cancel_after_chunks {
        Some(c) => if len < cancel_chunk(c) * (BUF_SIZE as int) {
            len
        } else {
            cancel_chunk(c) * (BUF_SIZE as int)
        },
        None => 0,
    }
}

/// Verification is owed exactly when it was requested and the stream
/// carries an expected digest.
pub open spec fn verify_requested(img: ImageStream, verify: bool) -> bool {
    verify && img.digest() is Some
}

/// The stream's bytes do not hash to the expected digest, so a requested
/// verification pass must fail.
pub open spec fn verify_mismatch(img: ImageStream, verify: bool) -> bool {
    &&& verify
    &&& img.digest() matches Some(d) && sha256_of(img.bytes()) != d
}

/// Stream an image to a destination: `BUF_SIZE` chunks are copied until
/// the stream reports its end (not until a byte counter is met), one
/// progress fraction is emitted per chunk, cancellation is honored
/// between chunks, and when verification is owed the written bytes are
/// re-read, hashed and compared, under their own progress phase.
///
/// On success the destination holds exactly the stream's bytes; on
/// cancellation it holds the prefix written up to the checkpoint and the
/// run ends without a `Finished` status.
pub fn flash(
    img: &mut ImageStream,
    dev: &mut MemDevice,
    run: &mut FlashRun,
    verify: bool,
    cancel: CancelToken,
) -> (r: Result<(), crate::error::Error>)
    requires
        old(img).wf(),
        old(img).cursor() == 0,
        old(dev).wf(),
        old(dev).contents().len() == 0,
        old(run).inv(),
        old(run).state() is Preparing || old(run).state() is Resolved,
    ensures
        final(img).bytes() == old(img).bytes(),
        final(img).digest() == old(img).digest(),
        final(dev).wf(),
        final(run).inv(),
        final(run).state() is Terminal,
        final(run).succeeded() <==> r is Ok,
        final(run).total() == old(img).declared_size(),
        final(run).log().take(old(run).log().len() as int) == old(run).log(),
        final(run).log().len() > old(run).log().len(),
        final(run).log()[old(run).log().len() as int] == DownloadFlashingStatus::FlashingProgress(
            Fraction::spec_of(0, final(run).total()),
        ),
        forall|i: int|
            old(run).log().len() <= i < final(run).log().len() ==> rank(
                #[trigger] final(run).log()[i],
            ) >= 2,
        !(verify_requested(*old(img), verify) && !flash_cancelled(
            cancel,
            old(img).bytes().len() as int,
        )) ==> forall|i: int|
            old(run).log().len() <= i < final(run).log().len() ==> rank(
                #[trigger] final(run).log()[i],
            ) != 3 && rank(final(run).log()[i]) != 4,
        verify_requested(*old(img), verify) && !flash_cancelled(
            cancel,
            old(img).bytes().len() as int,
        ) ==> (exists|i: int|
            old(run).log().len() <= i < final(run).log().len() && rank(
                #[trigger] final(run).log()[i],
            ) == 3) && (exists|i: int|
            old(run).log().len() <= i < final(run).log().len() && rank(
                #[trigger] final(run).log()[i],
            ) == 4),
        flash_cancelled(cancel, old(img).bytes().len() as int) ==> r == Err::<(),
            crate::error::Error,
        >(crate::error::Error::Cancelled) && final(dev).contents() == old(img).bytes().take(
            cancel_point(cancel, old(img).bytes().len() as int),
        ),
        !flash_cancelled(cancel, old(img).bytes().len() as int) ==> final(dev).contents() == old(
            img,
        ).bytes(),
        !flash_cancelled(cancel, old(img).bytes().len() as int) && verify_mismatch(
            *old(img),
            verify,
        ) ==> r == Err::<(), crate::error::Error>(
            crate::error::Error::SdCardError(Error::Sha256VerificationError),
        ),
        !flash_cancelled(cancel, old(img).bytes().len() as int) && !verify_mismatch(
            *old(img),
            verify,
        ) ==> r == Ok::<(), crate::error::Error>(()),
        r is Ok ==> final(run).log().last() is Finished,
        r is Ok ==> final(run).log().len() >= 2 && (final(run).log()[final(run).log().len() - 2]
            == DownloadFlashingStatus::FlashingProgress(
            Fraction::spec_of(old(img).bytes().len() as u64, final(run).total()),
        ) || final(run).log()[final(run).log().len() - 2]
            == DownloadFlashingStatus::VerifyingProgress(
            Fraction::spec_of(old(img).bytes().len() as u64, final(run).total()),
        )),
        r is Ok && !verify_requested(*old(img), verify) ==> final(run).log()[final(run).log().len()
            - 2] == DownloadFlashingStatus::FlashingProgress(
            Fraction::spec_of(old(img).bytes().len() as u64, final(run).total()),
        ),
{
    let ghost glen: int = old(img).bytes().len() as int;
    let ghost base: int = old(run).log().len() as int;
    proof {
        img.lemma_bytes_bound();
        assert(glen <= u64::MAX as int);
    }
    let size = img.size();
    run.begin_flashing(size);
    proof {
        assert(run.log().take(base) =~= old(run).log());
    }
    let mut chunks: u64 = 0;
    let mut eof = false;
    while !eof
        invariant
            img.wf(),
            img.bytes() == old(img).bytes(),
            img.digest() == old(img).digest(),
            glen == old(img).bytes().len(),
            glen <= u64::MAX as int,
            base == old(run).log().len(),
            size == old(img).declared_size(),
            dev.wf(),
            dev.read_cursor() == 0,
            dev.contents() == old(img).bytes().take(img.cursor()),
            run.inv(),
            run.state() is Flashing,
            run.total() == size,
            run.written() == img.cursor(),
            img.cursor() == if (chunks as int) * (BUF_SIZE as int) < glen {
                (chunks as int) * (BUF_SIZE as int)
            } else {
                glen
            },
            eof ==> img.cursor() == glen,
            cancel.cancel_after_chunks matches Some(c) ==> chunks == 0 || (chunks as int)
                < cancel_chunk(c),
            run.log().take(base) == old(run).log(),
            base < run.log().len(),
            run.log()[base] == DownloadFlashingStatus::FlashingProgress(
                Fraction::spec_of(0, size),
            ),
            forall|i: int| base <= i < run.log().len() ==> rank(#[trigger] run.log()[i]) == 2,
        decreases glen - img.cursor() + (if eof {
            0int
        } else {
            1int
        }),
    {
        let ghost pre_cursor: int = img.cursor();
        let ghost pre_log: Seq<DownloadFlashingStatus> = run.log();
        let chunk = img.read_chunk(BUF_SIZE);
        run.flashed_chunk(chunk.len());
        proof {
            assert(run.log().take(base) =~= old(run).log());
            assert forall|i: int| base <= i < run.log().len() implies rank(
                #[trigger] run.log()[i],
            ) == 2 by {
                if i < run.log().len() - 1 {
                    assert(run.log()[i] == pre_log[i]);
                }
            }
        }
        if chunk.len() == 0 {
            eof = true;
        } else {
            dev.write_chunk(chunk.as_slice());
            proof {
                assert(dev.contents() =~= old(img).bytes().take(img.cursor()));
                assert((chunks as int) * (BUF_SIZE as int) == pre_cursor);
                assert((chunks as int) <= (chunks as int) * (BUF_SIZE as int))
                    by (nonlinear_arith)
                    requires
                        chunks as int >= 0,
                        (BUF_SIZE as int) >= 1,
                {}
                assert((chunks as int) < glen);
            }
            let ghost prev_chunks: u64 = chunks;
            chunks = chunks + 1;
            proof {
                assert((chunks as int) * (BUF_SIZE as int) == pre_cursor + (BUF_SIZE as int))
                    by (nonlinear_arith)
                    requires
                        chunks as int == prev_chunks as int + 1,
                        (prev_chunks as int) * (BUF_SIZE as int) == pre_cursor,
                {}
            }
            if cancel.check(chunks) {
                proof {
                    match cancel.cancel_after_chunks {
                        Some(c) => {
                            assert(chunks as int == cancel_chunk(c));
                            assert((cancel_chunk(c) - 1) * (BUF_SIZE as int) == pre_cursor);
                            assert(flash_cancelled(cancel, glen));
                            assert(cancel_point(cancel, glen) == img.cursor());
                        },
                        None => {
                            assert(false);
                        },
                    }
                }
                run.fail();
                return Err(crate::error::Error::Cancelled);
            }
        }
    }
    proof {
        assert(old(img).bytes().take(glen) =~= old(img).bytes());
        match cancel.cancel_after_chunks {
            Some(c) => {
                if glen >= 1 {
                    assert((chunks as int) * (BUF_SIZE as int) >= glen);
                    assert((chunks as int) >= 1) by (nonlinear_arith)
                        requires
                            (chunks as int) * (BUF_SIZE as int) >= glen,
                            glen >= 1,
                            chunks as int >= 0,
                    {}
                    assert((chunks as int) < cancel_chunk(c));
                    assert((chunks as int) * (BUF_SIZE as int) <= (cancel_chunk(c) - 1) * (
                    BUF_SIZE as int)) by (nonlinear_arith)
                        requires
                            (chunks as int) <= cancel_chunk(c) - 1,
                            (BUF_SIZE as int) >= 0,
                    {}
                }
                assert(!flash_cancelled(cancel, glen));
            },
            None => {},
        }
    }
    if verify {
        let digest_opt = img.sha256();
        match digest_opt {
            Some(d) => {
                run.begin_verifying();
                let ghost vidx: int = run.log().len() - 2;
                proof {
                    assert(run.log().take(base) =~= old(run).log());
                    assert(run.log()[vidx] is Verifying);
                    assert(run.log()[vidx + 1] is VerifyingProgress);
                }
                dev.seek_start();
                let mut acc: Vec<u8> = Vec::new();
                let mut veof = false;
                while !veof
                    invariant
                        dev.wf(),
                        dev.contents() == old(img).bytes(),
                        glen == old(img).bytes().len(),
                        base == old(run).log().len(),
                        acc@ == dev.contents().take(dev.read_cursor()),
                        run.inv(),
                        run.state() is VerifyingData,
                        run.total() == size,
                        size == old(img).declared_size(),
                        glen <= u64::MAX as int,
                        run.vread() == dev.read_cursor(),
                        veof ==> dev.read_cursor() == glen,
                        run.log().take(base) == old(run).log(),
                        base < run.log().len(),
                        run.log()[base] == DownloadFlashingStatus::FlashingProgress(
                            Fraction::spec_of(0, size),
                        ),
                        base <= vidx,
                        vidx + 1 < run.log().len(),
                        run.log()[vidx] is Verifying,
                        run.log()[vidx + 1] is VerifyingProgress,
                        forall|i: int|
                            base <= i < run.log().len() ==> 2 <= rank(#[trigger] run.log()[i])
                                <= 4,
                    decreases glen - dev.read_cursor() + (if veof {
                        0int
                    } else {
                        1int
                    }),
                {
                    let ghost pre_log: Seq<DownloadFlashingStatus> = run.log();
                    let mut chunk = dev.read_chunk(BUF_SIZE);
                    run.verified_chunk(chunk.len());
                    proof {
                        assert(run.log().take(base) =~= old(run).log());
                        assert forall|i: int| base <= i < run.log().len() implies 2 <= rank(
                            #[trigger] run.log()[i],
                        ) <= 4 by {
                            if i < run.log().len() - 1 {
                                assert(run.log()[i] == pre_log[i]);
                            }
                        }
                        assert(run.log()[vidx] == pre_log[vidx]);
                        assert(run.log()[vidx + 1] == pre_log[vidx + 1]);
                    }
                    if chunk.len() == 0 {
                        veof = true;
                    } else {
                        let ghost pre_acc: Seq<u8> = acc@;
                        acc.append(&mut chunk);
                        proof {
                            assert(acc@ =~= dev.contents().take(dev.read_cursor()));
                        }
                    }
                }
                proof {
                    assert(acc@ =~= old(img).bytes());
                }
                let computed = sha256(acc.as_slice());
                let ghost pre_log: Seq<DownloadFlashingStatus> = run.log();
                if digest_eq(&computed, &d) {
                    run.finish();
                    proof {
                        assert(run.log().take(base) =~= old(run).log());
                        assert forall|i: int| base <= i < run.log().len() implies rank(
                            #[trigger] run.log()[i],
                        ) >= 2 by {
                            if i < run.log().len() - 1 {
                                assert(run.log()[i] == pre_log[i]);
                            }
                        }
                        assert(run.log()[vidx] == pre_log[vidx]);
                        assert(run.log()[vidx + 1] == pre_log[vidx + 1]);
                    }
                    Ok(())
                } else {
                    run.fail();
                    Err(crate::error::Error::SdCardError(Error::Sha256VerificationError))
                }
            },
            None => {
                let ghost pre_log: Seq<DownloadFlashingStatus> = run.log();
                run.finish();
                proof {
                    assert(run.log().take(base) =~= old(run).log());
                    assert forall|i: int| base <= i < run.log().len() implies rank(
                        #[trigger] run.log()[i],
                    ) >= 2 && rank(run.log()[i]) != 3 && rank(run.log()[i]) != 4 by {
                        if i < run.log().len() - 1 {
                            assert(run.log()[i] == pre_log[i]);
                        }
                    }
                }
                Ok(())
            },
        }
    } else {
        let ghost pre_log: Seq<DownloadFlashingStatus> = run.log();
        run.finish();
        proof {
            assert(run.log().take(base) =~= old(run).log());
            assert forall|i: int| base <= i < run.log().len() implies rank(
                #[trigger] run.log()[i],
            ) >= 2 && rank(run.log()[i]) != 3 && rank(run.log()[i]) != 4 by {
                if i < run.log().len() - 1 {
                    assert(run.log()[i] == pre_log[i]);
                }
            }
        }
        Ok(())
    }
}

/// What the platform's disk-management service reports of one drive.
#[derive(Debug, Clone)]
pub struct DriveInfo {
    pub id: String,
    pub path: String,
    pub size: u64,
    pub removable: bool,
    pub media_removable: bool,
}

/// A drive is a candidate destination when it is removable and its
/// media is removable.
pub open spec fn eligible(d: DriveInfo) -> bool {
    d.removable && d.media_removable
}

/// Whether the list already holds a destination of this identity.
fn contains_identity(v: &Vec<Destination>, name: &String, path: &String) -> (r: bool)
    ensures
        r == exists|i: int|
            0 <= i < v@.len() && (#[trigger] v@[i]).name@ == name@ && v@[i].path@ == path@,
{
    let mut i: usize = 0;
    while i < v.len()
        invariant
            0 <= i <= v@.len(),
            forall|j: int|
                0 <= j < i ==> !((#[trigger] v@[j]).name@ == name@ && v@[j].path@ == path@),
        decreases v@.len() - i,
    {
        if v[i].name == *name && v[i].path == *path {
            return true;
        }
        i = i + 1;
    }
    false
}

/// The destination is exactly what some eligible reported drive gives:
/// its id as the label, its device path, and its byte size.
pub open spec fn from_drive(d: Destination, drives: Seq<DriveInfo>) -> bool {
    exists|j: int|
        0 <= j < drives.len() && eligible(#[trigger] drives[j]) && d.name@ == drives[j].id@
            && d.path@ == drives[j].path@ && d.size == Some(drives[j].size)
}

/// Some listed destination carries this drive's identity.
pub open spec fn represented(drv: DriveInfo, r: Seq<Destination>) -> bool {
    exists|i: int|
        0 <= i < r.len() && (#[trigger] r[i]).name@ == drv.id@ && r[i].path@ == drv.path@
}

/// The candidate block-device destinations among the drives the
/// platform reported: only removable drives with removable media, each
/// identity listed once, with its byte size. On a platform that reports
/// nothing, the result is empty rather than an error.
pub fn destinations(drives: Vec<DriveInfo>) -> (r: Vec<Destination>)
    ensures
        forall|i: int, j: int|
            0 <= i < j < r@.len() ==> !(#[trigger] r@[i]).same_identity(#[trigger] r@[j]),
        forall|i: int| 0 <= i < r@.len() ==> from_drive(#[trigger] r@[i], drives@),
        forall|j: int|
            0 <= j < drives@.len() && eligible(#[trigger] drives@[j]) ==> represented(
                drives@[j],
                r@,
            ),
{
    let mut out: Vec<Destination> = Vec::new();
    let mut j: usize = 0;
    while j < drives.len()
        invariant
            0 <= j <= drives@.len(),
            forall|a: int, b: int|
                0 <= a < b < out@.len() ==> !(#[trigger] out@[a]).same_identity(
                    #[trigger] out@[b],
                ),
            forall|a: int| 0 <= a < out@.len() ==> from_drive(#[trigger] out@[a], drives@),
            forall|b: int|
                0 <= b < j && eligible(#[trigger] drives@[b]) ==> represented(drives@[b], out@),
        decreases drives@.len() - j,
    {
        let ghost gj: int = j as int;
        let ghost pre: Seq<Destination> = out@;
        if drives[j].removable && drives[j].media_removable {
            if !contains_identity(&out, &drives[j].id, &drives[j].path) {
                let d = Destination::sd_card(
                    drives[j].id.clone(),
                    drives[j].size,
                    drives[j].path.clone(),
                );
                out.push(d);
                proof {
                    let last: int = out@.len() - 1;
                    assert(out@[last].name@ == drives@[gj].id@ && out@[last].path@
                        == drives@[gj].path@ && out@[last].size == Some(drives@[gj].size));
                    assert forall|a: int, b: int|
                        0 <= a < b < out@.len() implies !(#[trigger] out@[a]).same_identity(
                        #[trigger] out@[b],
                    ) by {
                        if b < last {
                            assert(out@[a] == pre[a] && out@[b] == pre[b]);
                        } else {
                            assert(out@[a] == pre[a]);
                        }
                    }
                }
            }
        }
        proof {
            assert forall|a: int| 0 <= a < out@.len() implies from_drive(
                #[trigger] out@[a],
                drives@,
            ) by {
                if a < pre.len() {
                    assert(out@[a] == pre[a]);
                    assert(from_drive(pre[a], drives@));
                } else {
                    assert(eligible(drives@[gj]) && out@[a].name@ == drives@[gj].id@
                        && out@[a].path@ == drives@[gj].path@ && out@[a].size == Some(
                        drives@[gj].size,
                    ));
                }
            }
            assert forall|b: int|
                0 <= b <= gj && eligible(#[trigger] drives@[b]) implies represented(
                drives@[b],
                out@,
            ) by {
                if b < gj {
                    assert(represented(drives@[b], pre));
                    let a0 = choose|a0: int|
                        0 <= a0 < pre.len() && (#[trigger] pre[a0]).name@ == drives@[b].id@
                            && pre[a0].path@ == drives@[b].path@;
                    assert(out@[a0] == pre[a0]);
                    assert(0 <= a0 < out@.len() && out@[a0].name@ == drives@[b].id@
                        && out@[a0].path@ == drives@[b].path@);
                } else {
                    if out@.len() > pre.len() {
                        let last: int = out@.len() - 1;
                        assert(0 <= last < out@.len() && out@[last].name@ == drives@[gj].id@
                            && out@[last].path@ == drives@[gj].path@);
                    } else {
                        let a0 = choose|a0: int|
                            0 <= a0 < pre.len() && (#[trigger] pre[a0]).name@ == drives@[gj].id@
                                && pre[a0].path@ == drives@[gj].path@;
                        assert(0 <= a0 < out@.len() && out@[a0].name@ == drives@[gj].id@
                            && out@[a0].path@ == drives@[gj].path@);
                    }
                }
            }
        }
        j = j + 1;
    }
    out
}

/// Whether contents pass verification against an expected digest.
pub open spec fn verify_outcome(contents: Seq<u8>, expected: Seq<u8>) -> bool {
    sha256_of(contents) == expected
}

/// Re-read a destination from its start in chunks and check what was
/// written against the expected digest. The contents are left untouched,
/// so the outcome is a function of them and the digest alone.
pub fn verify_device(dev: &mut MemDevice, expected: &[u8; 32]) -> (r: bool)
    requires
        old(dev).wf(),
    ensures
        final(dev).wf(),
        final(dev).contents() == old(dev).contents(),
        r == verify_outcome(old(dev).contents(), expected@),
{
    dev.seek_start();
    let mut acc: Vec<u8> = Vec::new();
    let mut eof = false;
    while !eof
        invariant
            dev.wf(),
            dev.contents() == old(dev).contents(),
            acc@ == dev.contents().take(dev.read_cursor()),
            eof ==> dev.read_cursor() == dev.contents().len(),
        decreases dev.contents().len() - dev.read_cursor() + (if eof {
            0int
        } else {
            1int
        }),
    {
        let mut chunk = dev.read_chunk(BUF_SIZE);
        if chunk.len() == 0 {
            eof = true;
        } else {
            acc.append(&mut chunk);
            proof {
                assert(acc@ =~= dev.contents().take(dev.read_cursor()));
            }
        }
    }
    proof {
        assert(acc@ =~= old(dev).contents());
    }
    let computed = sha256(acc.as_slice());
    digest_eq(&computed, expected)
}

/// Law: verification is idempotent. On an unmodified destination, any
/// two verification runs against the same expected digest agree, pass
/// or fail, since the outcome is a function of the contents and the
/// digest alone.
pub proof fn lemma_verification_idempotent(
    contents: Seq<u8>,
    expected: Seq<u8>,
    r1: bool,
    r2: bool,
)
    requires
        r1 == verify_outcome(contents, expected),
        r2 == verify_outcome(contents, expected),
    ensures
        r1 == r2,
{
}

} // verus!
