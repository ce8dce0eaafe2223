use bb_imager::common::SelectedImage;
use bb_imager::error::Error;
use bb_imager::flasher::{download_and_flash, CancelToken, FlashRun};
use bb_imager::img::ImageStream;
use bb_imager::sd::{flash, verify_device, MemDevice};
use bb_imager::status::{DownloadFlashingStatus, Fraction};
use sha2::{Digest, Sha256};

const BUF: usize = 32 * 1024;

fn digest_of(data: &[u8]) -> [u8; 32] {
    let mut h = Sha256::new();
    h.update(data);
    h.finalize().into()
}

fn read_back(dev: &mut MemDevice) -> Vec<u8> {
    dev.seek_start();
    let mut out = Vec::new();
    loop {
        let chunk = dev.read_chunk(BUF);
        if chunk.is_empty() {
            break;
        }
        out.extend_from_slice(&chunk);
    }
    out
}

fn frac_le(a: &Fraction, b: &Fraction) -> bool {
    (a.num as u128) * (b.den as u128) <= (b.num as u128) * (a.den as u128)
}

fn check_progress_stream(log: &[DownloadFlashingStatus]) {
    // fractions bounded in [0, 1]
    for s in log {
        match s {
            DownloadFlashingStatus::DownloadingProgress(f)
            | DownloadFlashingStatus::FlashingProgress(f)
            | DownloadFlashingStatus::VerifyingProgress(f) => {
                assert!(f.den > 0);
                assert!(f.num <= f.den);
            }
            _ => {}
        }
    }
    // consecutive fractions of one phase never decrease
    for w in log.windows(2) {
        match (&w[0], &w[1]) {
            (
                DownloadFlashingStatus::DownloadingProgress(a),
                DownloadFlashingStatus::DownloadingProgress(b),
            )
            | (
                DownloadFlashingStatus::FlashingProgress(a),
                DownloadFlashingStatus::FlashingProgress(b),
            )
            | (
                DownloadFlashingStatus::VerifyingProgress(a),
                DownloadFlashingStatus::VerifyingProgress(b),
            ) => {
                assert!(frac_le(a, b));
            }
            _ => {}
        }
    }
    // at most one terminal status, and only in last position
    let finished = log
        .iter()
        .filter(|s| matches!(s, DownloadFlashingStatus::Finished))
        .count();
    assert!(finished <= 1);
    for (i, s) in log.iter().enumerate() {
        if matches!(s, DownloadFlashingStatus::Finished) {
            assert_eq!(i, log.len() - 1);
        }
    }
}

#[test]
fn local_image_sequence() {
    // local image, no digest, verify off: Preparing, Flashing 0..1, Finished
    let payload = vec![7u8; 5];
    let img = SelectedImage::local("disk.img".to_string());
    let mut dst = MemDevice::new();
    let (run, res) = download_and_flash(&img, payload, &mut dst, false, CancelToken::never());
    assert!(res.is_ok());
    let log = run.statuses();
    let expected = vec![
        DownloadFlashingStatus::Preparing,
        DownloadFlashingStatus::FlashingProgress(Fraction { num: 0, den: 5 }),
        DownloadFlashingStatus::FlashingProgress(Fraction { num: 5, den: 5 }),
        DownloadFlashingStatus::FlashingProgress(Fraction { num: 5, den: 5 }),
        DownloadFlashingStatus::Finished,
    ];
    assert_eq!(*log, expected);
    check_progress_stream(log);
}

#[test]
fn local_image_verify_flag_without_digest_skips_verification() {
    // verification is entered only if a digest is known
    let payload = vec![1u8, 2, 3];
    let img = SelectedImage::local("disk.img".to_string());
    let mut dst = MemDevice::new();
    let (run, res) = download_and_flash(&img, payload, &mut dst, true, CancelToken::never());
    assert!(res.is_ok());
    for s in run.statuses() {
        assert!(!matches!(s, DownloadFlashingStatus::Verifying));
        assert!(!matches!(s, DownloadFlashingStatus::VerifyingProgress(_)));
        assert!(!matches!(s, DownloadFlashingStatus::DownloadingProgress(_)));
    }
}

#[test]
fn remote_image_sequence() {
    // remote image with correct digest, verify on: download, flash and
    // verify phases all appear, ending in Finished
    let payload: Vec<u8> = (0..70_000u32).map(|i| (i % 251) as u8).collect();
    let sha = digest_of(&payload);
    let img = SelectedImage::remote(
        "os image".to_string(),
        "https://example.org/os.img".to_string(),
        sha,
        None,
    );
    let mut dst = MemDevice::new();
    let (run, res) =
        download_and_flash(&img, payload.clone(), &mut dst, true, CancelToken::never());
    assert!(res.is_ok());
    let log = run.statuses();
    assert_eq!(log[0], DownloadFlashingStatus::Preparing);
    assert_eq!(*log.last().unwrap(), DownloadFlashingStatus::Finished);
    assert!(log
        .iter()
        .any(|s| matches!(s, DownloadFlashingStatus::DownloadingProgress(_))));
    assert!(log
        .iter()
        .any(|s| matches!(s, DownloadFlashingStatus::FlashingProgress(_))));
    assert!(log.iter().any(|s| matches!(s, DownloadFlashingStatus::Verifying)));
    assert!(log
        .iter()
        .any(|s| matches!(s, DownloadFlashingStatus::VerifyingProgress(_))));
    check_progress_stream(log);
    assert_eq!(read_back(&mut dst), payload);
}

#[test]
fn remote_image_bad_digest() {
    // the operation fails at the download stage, before any flashing
    let payload = vec![9u8; 1000];
    let mut wrong = digest_of(&payload);
    wrong[0] ^= 0xff;
    let img = SelectedImage::remote(
        "os image".to_string(),
        "https://example.org/os.img".to_string(),
        wrong,
        None,
    );
    let mut dst = MemDevice::new();
    let (run, res) = download_and_flash(&img, payload, &mut dst, true, CancelToken::never());
    assert_eq!(
        res,
        Err(Error::DownloadError(bb_imager::download::Error::Sha256Mismatch))
    );
    for s in run.statuses() {
        assert!(!matches!(s, DownloadFlashingStatus::FlashingProgress(_)));
        assert!(!matches!(s, DownloadFlashingStatus::Finished));
    }
    assert_eq!(dst.len(), 0);
}

#[test]
fn round_trip_bytes() {
    // writing N known bytes and reading them back yields the same N bytes
    let payload: Vec<u8> = (0..100_000u32).map(|i| (i * 31 % 256) as u8).collect();
    let img = SelectedImage::local("disk.img".to_string());
    let mut dst = MemDevice::new();
    let (_, res) = download_and_flash(&img, payload.clone(), &mut dst, false, CancelToken::never());
    assert!(res.is_ok());
    assert_eq!(dst.len(), payload.len());
    assert_eq!(read_back(&mut dst), payload);
}

#[test]
fn cancel_after_first_chunk() {
    // a 100 MB synthetic image, cancelled after the first chunk: the run
    // ends cancelled and no Finished status is ever emitted
    let payload = vec![0xABu8; 100 * 1024 * 1024];
    let img = SelectedImage::local("big.img".to_string());
    let mut dst = MemDevice::new();
    let (run, res) =
        download_and_flash(&img, payload, &mut dst, false, CancelToken::after_chunks(1));
    assert_eq!(res, Err(Error::Cancelled));
    for s in run.statuses() {
        assert!(!matches!(s, DownloadFlashingStatus::Finished));
    }
    // exactly one chunk reached the destination
    assert_eq!(dst.len(), BUF);
    check_progress_stream(run.statuses());
}

#[test]
fn write_verification_mismatch_is_distinct() {
    // a stream whose digest does not match what was written fails the
    // write-time check, distinctly from a download failure
    let payload = vec![5u8; 4000];
    let mut wrong = digest_of(&payload);
    wrong[31] ^= 1;
    let mut stream = ImageStream::new(payload, Some(wrong));
    let mut dst = MemDevice::new();
    let mut run = FlashRun::new();
    let res = flash(&mut stream, &mut dst, &mut run, true, CancelToken::never());
    assert_eq!(
        res,
        Err(Error::SdCardError(bb_imager::sd::Error::Sha256VerificationError))
    );
    for s in run.statuses() {
        assert!(!matches!(s, DownloadFlashingStatus::Finished));
    }
}

#[test]
fn verification_idempotent() {
    // verifying an unmodified destination twice gives the same outcome
    let payload = vec![42u8; 50_000];
    let sha = digest_of(&payload);
    let img = SelectedImage::local("disk.img".to_string());
    let mut dst = MemDevice::new();
    let (_, res) = download_and_flash(&img, payload, &mut dst, false, CancelToken::never());
    assert!(res.is_ok());
    let first = verify_device(&mut dst, &sha);
    let second = verify_device(&mut dst, &sha);
    assert!(first);
    assert_eq!(first, second);
    let mut wrong = sha;
    wrong[7] ^= 0x10;
    let first_bad = verify_device(&mut dst, &wrong);
    let second_bad = verify_device(&mut dst, &wrong);
    assert!(!first_bad);
    assert_eq!(first_bad, second_bad);
}

#[test]
fn declared_size_is_informational() {
    // the write pass ends at the end of the stream, never at a byte
    // counter; an inaccurate declared size only skews the reported
    // fractions, which stay clamped to [0, 1]
    let data: Vec<u8> = (0..70_000u32).map(|i| (i % 13) as u8).collect();

    let mut stream = ImageStream::new_with_size(data.clone(), 10, None);
    let mut dst = MemDevice::new();
    let mut run = FlashRun::new();
    let res = flash(&mut stream, &mut dst, &mut run, false, CancelToken::never());
    assert!(res.is_ok());
    assert_eq!(read_back(&mut dst), data);
    check_progress_stream(run.statuses());

    let mut stream2 = ImageStream::new_with_size(data.clone(), 1 << 40, None);
    let mut dst2 = MemDevice::new();
    let mut run2 = FlashRun::new();
    let res2 = flash(&mut stream2, &mut dst2, &mut run2, false, CancelToken::never());
    assert!(res2.is_ok());
    assert_eq!(read_back(&mut dst2), data);
    check_progress_stream(run2.statuses());
}

#[test]
fn indeterminate_download_reports_no_fractions() {
    // without a content length, download progress degrades to no
    // fractional updates rather than fabricated values
    let mut run = FlashRun::new();
    run.begin_download(None);
    run.download_chunk(4096);
    run.download_chunk(4096);
    let body = b"payload".to_vec();
    let sha = {
        let mut h = Sha256::new();
        h.update(&body);
        h.finalize().into()
    };
    assert!(run.download_done(&sha, &sha));
    assert_eq!(*run.statuses(), vec![DownloadFlashingStatus::Preparing]);

    // with a known length the fractions appear
    let mut run2 = FlashRun::new();
    run2.begin_download(Some(8192));
    run2.download_chunk(4096);
    run2.download_chunk(4096);
    assert_eq!(
        *run2.statuses(),
        vec![
            DownloadFlashingStatus::Preparing,
            DownloadFlashingStatus::DownloadingProgress(Fraction { num: 4096, den: 8192 }),
            DownloadFlashingStatus::DownloadingProgress(Fraction { num: 8192, den: 8192 }),
        ]
    );
}

#[test]
fn cancel_token_checkpoints() {
    let never = CancelToken::never();
    assert!(!never.check(0));
    assert!(!never.check(u64::MAX));
    let after2 = CancelToken::after_chunks(2);
    assert!(!after2.check(0));
    assert!(!after2.check(1));
    assert!(after2.check(2));
    assert!(after2.check(3));
}

#[test]
fn empty_image_flashes_cleanly() {
    let img = SelectedImage::local("empty.img".to_string());
    let mut dst = MemDevice::new();
    let (run, res) = download_and_flash(&img, Vec::new(), &mut dst, false, CancelToken::never());
    assert!(res.is_ok());
    assert_eq!(dst.len(), 0);
    assert_eq!(
        *run.statuses().last().unwrap(),
        DownloadFlashingStatus::Finished
    );
    check_progress_stream(run.statuses());
}
