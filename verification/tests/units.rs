use bb_imager::bcf;
use bb_imager::img::ImageStream;
use bb_imager::sd::MemDevice;
use bb_imager::common::{Destination, Error as CommonError};
use bb_imager::customization::{
    BcfCustomization, GuiConfiguration, Pb2Mspm0Customization, SdCustomization,
    SdCustomizationUser, SdCustomizationWifi,
};
use bb_imager::download;
use bb_imager::error::Error;
use bb_imager::sd::{self, DriveInfo};
use bb_imager::status::Fraction;

#[test]
fn image_stream_reads_to_eof() {
    let data = vec![1u8, 2, 3, 4, 5, 6, 7];
    let mut s = ImageStream::new(data.clone(), None);
    assert_eq!(s.size(), 7);
    assert_eq!(s.sha256(), None);
    assert_eq!(s.read_chunk(3), vec![1, 2, 3]);
    assert_eq!(s.read_chunk(3), vec![4, 5, 6]);
    assert_eq!(s.read_chunk(3), vec![7]);
    // past the end: zero bytes, not an error
    assert_eq!(s.read_chunk(3), Vec::<u8>::new());
    assert_eq!(s.read_chunk(3), Vec::<u8>::new());
}

#[test]
fn mem_device_write_seek_read() {
    let mut d = MemDevice::new();
    d.write_chunk(&[10, 11, 12]);
    d.write_chunk(&[13]);
    d.write_chunk(&[]);
    assert_eq!(d.len(), 4);
    d.seek_start();
    assert_eq!(d.read_chunk(2), vec![10, 11]);
    assert_eq!(d.read_chunk(10), vec![12, 13]);
    assert_eq!(d.read_chunk(10), Vec::<u8>::new());
    // seeking back re-reads the same bytes
    d.seek_start();
    assert_eq!(d.read_chunk(10), vec![10, 11, 12, 13]);
}

#[test]
fn destination_constructors() {
    let p = Destination::port("/dev/ttyACM0".to_string());
    assert_eq!(p.name, "/dev/ttyACM0");
    assert_eq!(p.path, "/dev/ttyACM0");
    assert_eq!(p.size, None);

    let s = Destination::sd_card("SD card".to_string(), 1 << 30, "/dev/sdb".to_string());
    assert_eq!(s.name, "SD card");
    assert_eq!(s.path, "/dev/sdb");
    assert_eq!(s.size, Some(1 << 30));

    let f = Destination::from_path("/dev/sdc".to_string());
    assert_eq!(f.name, "/dev/sdc");
    assert_eq!(f.path, "/dev/sdc");
    assert_eq!(f.size, None);
}

fn drive(id: &str, path: &str, size: u64, removable: bool, media: bool) -> DriveInfo {
    DriveInfo {
        id: id.to_string(),
        path: path.to_string(),
        size,
        removable,
        media_removable: media,
    }
}

#[test]
fn sd_destinations_filter_and_dedup() {
    let drives = vec![
        drive("SanDisk", "/dev/sdb", 32 << 30, true, true),
        drive("Internal", "/dev/sda", 512 << 30, false, false),
        drive("SanDisk", "/dev/sdb", 32 << 30, true, true),
        drive("NoMedia", "/dev/sdc", 8 << 30, true, false),
        drive("Kingston", "/dev/sdd", 16 << 30, true, true),
    ];
    let dsts = sd::destinations(drives);
    assert_eq!(dsts.len(), 2);
    assert!(dsts
        .iter()
        .any(|d| d.name == "SanDisk" && d.path == "/dev/sdb" && d.size == Some(32 << 30)));
    assert!(dsts
        .iter()
        .any(|d| d.name == "Kingston" && d.path == "/dev/sdd" && d.size == Some(16 << 30)));
}

#[test]
fn sd_destinations_empty_platform() {
    assert!(sd::destinations(Vec::new()).is_empty());
}

#[test]
fn serial_destinations_dedup() {
    let ports = vec![
        "/dev/ttyACM0".to_string(),
        "/dev/ttyACM1".to_string(),
        "/dev/ttyACM0".to_string(),
    ];
    let dsts = bcf::destinations(ports);
    assert_eq!(dsts.len(), 2);
    assert!(dsts.iter().all(|d| d.size.is_none() && d.name == d.path));
    assert!(dsts.iter().any(|d| d.path == "/dev/ttyACM0"));
    assert!(dsts.iter().any(|d| d.path == "/dev/ttyACM1"));
}

#[test]
fn frame_transfer_retries_are_bounded() {
    let mut t = bcf::FrameTransfer::new(4, 3);
    assert!(!t.is_done());
    // three timeouts on one frame are retried, the fourth fails
    for _ in 0..3 {
        assert_eq!(t.frame_timeout(), bcf::TimeoutAction::Retry);
    }
    assert_eq!(t.frame_timeout(), bcf::TimeoutAction::Fail);
}

#[test]
fn frame_transfer_ack_resets_budget_and_advances() {
    let mut t = bcf::FrameTransfer::new(2, 1);
    assert_eq!(t.frame_timeout(), bcf::TimeoutAction::Retry);
    assert_eq!(t.frame_timeout(), bcf::TimeoutAction::Fail);
    let f1 = t.frame_acked();
    assert_eq!(f1, Fraction { num: 1, den: 2 });
    // the budget is fresh for the next frame
    assert_eq!(t.frame_timeout(), bcf::TimeoutAction::Retry);
    let f2 = t.frame_acked();
    assert_eq!(f2, Fraction { num: 2, den: 2 });
    assert!(t.is_done());
}

#[test]
fn fraction_of_clamps() {
    assert_eq!(Fraction::of(0, 10), Fraction { num: 0, den: 10 });
    assert_eq!(Fraction::of(10, 10), Fraction { num: 10, den: 10 });
    // an overrunning counter is clamped to one
    assert_eq!(Fraction::of(15, 10), Fraction { num: 10, den: 10 });
    // a zero total: zero done reads as zero, anything done as complete
    assert_eq!(Fraction::of(0, 0), Fraction { num: 0, den: 1 });
    assert_eq!(Fraction::of(5, 0), Fraction { num: 1, den: 1 });
}

#[test]
fn error_messages_are_distinct() {
    let msgs = [
        Error::CommanError(CommonError::FailedToOpenDestination("/dev/sdb".to_string()))
            .message(),
        Error::DownloadError(download::Error::Sha256Mismatch).message(),
        Error::SdCardError(sd::Error::Sha256VerificationError).message(),
        Error::Cancelled.message(),
        Error::IoError("broken pipe".to_string()).message(),
        Error::BeagleConnectFreedomError(bcf::Error::ProtocolTimeout).message(),
    ];
    for (i, a) in msgs.iter().enumerate() {
        for (j, b) in msgs.iter().enumerate() {
            if i != j {
                assert_ne!(a, b);
            }
        }
    }
    assert_eq!(
        Error::DownloadError(download::Error::Sha256Mismatch).message(),
        "downloaded content failed integrity check"
    );
    assert_eq!(Error::Cancelled.message(), "cancelled by user");
}

#[test]
fn sd_customization_updates() {
    let c = SdCustomization::default()
        .update_hostname(Some("beaglebone".to_string()))
        .update_timezone(Some("America/New_York".to_string()))
        .update_keymap(Some("us".to_string()));
    assert_eq!(c.hostname.as_deref(), Some("beaglebone"));
    assert_eq!(c.timezone.as_deref(), Some("America/New_York"));
    assert_eq!(c.keymap.as_deref(), Some("us"));
    assert!(c.user.is_none());
    assert!(c.wifi.is_none());

    let c2 = c.update_hostname(None);
    assert!(c2.hostname.is_none());
    assert_eq!(c2.keymap.as_deref(), Some("us"));
}

#[test]
fn sd_customization_user_and_wifi() {
    let u = SdCustomizationUser::new("alice".to_string(), "secret".to_string())
        .update_username("bob".to_string())
        .update_password("hunter2".to_string());
    assert_eq!(u.username, "bob");
    assert_eq!(u.password, "hunter2");
    assert_eq!(SdCustomizationUser::default().password, "");

    let w = SdCustomizationWifi::default()
        .update_ssid("lab".to_string())
        .update_password("wpa2pass".to_string());
    assert_eq!(w.ssid, "lab");
    assert_eq!(w.password, "wpa2pass");

    let c = SdCustomization::default()
        .update_user(Some(u))
        .update_wifi(Some(w));
    assert_eq!(c.user.as_ref().unwrap().username, "bob");
    assert_eq!(c.wifi.as_ref().unwrap().ssid, "lab");
}

#[test]
fn target_flag_defaults() {
    assert!(BcfCustomization::default().verify);
    assert!(!BcfCustomization::default().update_verify(false).verify);
    assert!(Pb2Mspm0Customization::default().persist_eeprom);
    assert!(!Pb2Mspm0Customization::default()
        .update_persist_eeprom(false)
        .persist_eeprom);
}

#[test]
fn gui_configuration_slots() {
    let mut g = GuiConfiguration::default();
    assert!(g.sd_customization().is_none());
    assert!(g.bcf_customization().is_none());
    assert!(g.pb2_mspm0_customization().is_none());

    g.update_sd_customization(
        SdCustomization::default().update_hostname(Some("bb".to_string())),
    );
    g.update_bcf_customization(BcfCustomization::default().update_verify(false));

    assert_eq!(
        g.sd_customization().unwrap().hostname.as_deref(),
        Some("bb")
    );
    assert!(!g.bcf_customization().unwrap().verify);
    assert!(g.pb2_mspm0_customization().is_none());
}
