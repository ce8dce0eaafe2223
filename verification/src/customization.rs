//! Per-target customization settings and the configuration that persists
//! them between sessions. Loading and saving to disk is the caller's
//! concern; this module owns the values and their update rules.

use vstd::prelude::*;

verus! {

/// Overlay settings applied to a Linux SD-card image.
#[derive(Debug, Clone)]
pub struct SdCustomization {
    pub hostname: Option<String>,
    pub timezone: Option<String>,
    pub keymap: Option<String>,
    pub user: Option<SdCustomizationUser>,
    pub wifi: Option<SdCustomizationWifi>,
}

impl SdCustomization {
    /// Replace the hostname override.
    pub fn update_hostname(self, t: Option<String>) -> (r: Self)
        ensures
            r.hostname == t,
            r.timezone == self.timezone,
            r.keymap == self.keymap,
            r.user == self.user,
            r.wifi == self.wifi,
    {
        Self { hostname: t, ..self }
    }

    /// Replace the timezone override.
    pub fn update_timezone(self, t: Option<String>) -> (r: Self)
        ensures
            r.timezone == t,
            r.hostname == self.hostname,
            r.keymap == self.keymap,
            r.user == self.user,
            r.wifi == self.wifi,
    {
        Self { timezone: t, ..self }
    }

    /// Replace the keymap override.
    pub fn update_keymap(self, t: Option<String>) -> (r: Self)
        ensures
            r.keymap == t,
            r.hostname == self.hostname,
            r.timezone == self.timezone,
            r.user == self.user,
            r.wifi == self.wifi,
    {
        Self { keymap: t, ..self }
    }

    /// Replace the default-user credentials.
    pub fn update_user(self, t: Option<SdCustomizationUser>) -> (r: Self)
        ensures
            r.user == t,
            r.hostname == self.hostname,
            r.timezone == self.timezone,
            r.keymap == self.keymap,
            r.wifi == self.wifi,
    {
        Self { user: t, ..self }
    }

    /// Replace the Wi-Fi credentials.
    pub fn update_wifi(self, t: Option<SdCustomizationWifi>) -> (r: Self)
        ensures
            r.wifi == t,
            r.hostname == self.hostname,
            r.timezone == self.timezone,
            r.keymap == self.keymap,
            r.user == self.user,
    {
        Self { wifi: t, ..self }
    }
}

impl Default for SdCustomization {
    /// No overrides at all.
    fn default() -> (r: Self)
        ensures
            r.hostname is None,
            r.timezone is None,
            r.keymap is None,
            r.user is None,
            r.wifi is None,
    {
        Self { hostname: None, timezone: None, keymap: None, user: None, wifi: None }
    }
}

/// The default user configured on the flashed system.
#[derive(Debug, Clone)]
pub struct SdCustomizationUser {
    pub username: String,
    pub password: String,
}

impl SdCustomizationUser {
    /// A user with the given credentials.
    pub fn new(username: String, password: String) -> (r: Self)
        ensures
            r.username == username,
            r.password == password,
    {
        Self { username, password }
    }

    /// Replace the username.
    pub fn update_username(self, t: String) -> (r: Self)
        ensures
            r.username == t,
            r.password == self.password,
    {
        Self { username: t, ..self }
    }

    /// Replace the password.
    pub fn update_password(self, t: String) -> (r: Self)
        ensures
            r.password == t,
            r.username == self.username,
    {
        Self { password: t, ..self }
    }
}

/// Relies on `whoami::username`: the login name of the user running this
/// process. The value depends on the environment, so nothing is promised
/// about it.
#[verifier::external_body]
fn current_username() -> String {
    whoami::username()
}

impl Default for SdCustomizationUser {
    /// The current login name, with an empty password to be filled in.
    fn default() -> (r: Self)
        ensures
            r.password@ == Seq::<char>::empty(),
    {
        Self::new(current_username(), String::new())
    }
}

/// Wi-Fi credentials configured on the flashed system.
#[derive(Debug, Clone)]
pub struct SdCustomizationWifi {
    pub ssid: String,
    pub password: String,
}

impl SdCustomizationWifi {
    /// Replace the network name.
    pub fn update_ssid(self, t: String) -> (r: Self)
        ensures
            r.ssid == t,
            r.password == self.password,
    {
        Self { ssid: t, ..self }
    }

    /// Replace the network password.
    pub fn update_password(self, t: String) -> (r: Self)
        ensures
            r.password == t,
            r.ssid == self.ssid,
    {
        Self { password: t, ..self }
    }
}

impl Default for SdCustomizationWifi {
    /// An empty network name and password.
    fn default() -> (r: Self)
        ensures
            r.ssid@ == Seq::<char>::empty(),
            r.password@ == Seq::<char>::empty(),
    {
        Self { ssid: String::new(), password: String::new() }
    }
}

/// Settings of the serial-bootloader target class.
#[derive(Debug, Clone, Copy, PartialEq, Eq, Structural)]
pub struct BcfCustomization {
    pub verify: bool,
}

impl BcfCustomization {
    /// Replace the verify flag.
    pub fn update_verify(self, t: bool) -> (r: Self)
        ensures
            r.verify == t,
    {
        Self { verify: t }
    }
}

impl Default for BcfCustomization {
    /// Verification is on unless switched off.
    fn default() -> (r: Self)
        ensures
            r.verify == true,
    {
        Self { verify: true }
    }
}

/// Settings of the MSPM0 target class.
#[derive(Debug, Clone, Copy, PartialEq, Eq, Structural)]
pub struct Pb2Mspm0Customization {
    pub persist_eeprom: bool,
}

impl Pb2Mspm0Customization {
    /// Replace the EEPROM-persistence flag.
    pub fn update_persist_eeprom(self, t: bool) -> (r: Self)
        ensures
            r.persist_eeprom == t,
    {
        Self { persist_eeprom: t }
    }
}

impl Default for Pb2Mspm0Customization {
    /// The EEPROM contents are kept unless asked otherwise.
    fn default() -> (r: Self)
        ensures
            r.persist_eeprom == true,
    {
        Self { persist_eeprom: true }
    }
}

/// The customization choices kept between sessions, one slot per target
/// class.
#[derive(Debug, Clone)]
pub struct GuiConfiguration {
    pub sd_customization: Option<SdCustomization>,
    pub bcf_customization: Option<BcfCustomization>,
    pub pb2_mspm0_customization: Option<Pb2Mspm0Customization>,
}

impl GuiConfiguration {
    /// The stored SD-card customization, if any.
    pub fn sd_customization(&self) -> (r: Option<&SdCustomization>)
        ensures
            match r {
                Some(c) => self.sd_customization == Some(*c),
                None => self.sd_customization is None,
            },
    {
        match &self.sd_customization {
            Some(c) => Some(c),
            None => None,
        }
    }

    /// The stored serial-bootloader customization, if any.
    pub fn bcf_customization(&self) -> (r: Option<&BcfCustomization>)
        ensures
            match r {
                Some(c) => self.bcf_customization == Some(*c),
                None => self.bcf_customization is None,
            },
    {
        match &self.bcf_customization {
            Some(c) => Some(c),
            None => None,
        }
    }

    /// The stored MSPM0 customization, if any.
    pub fn pb2_mspm0_customization(&self) -> (r: Option<&Pb2Mspm0Customization>)
        ensures
            match r {
                Some(c) => self.pb2_mspm0_customization == Some(*c),
                None => self.pb2_mspm0_customization is None,
            },
    {
        match &self.pb2_mspm0_customization {
            Some(c) => Some(c),
            None => None,
        }
    }

    /// Store an SD-card customization.
    pub fn update_sd_customization(&mut self, t: SdCustomization)
        ensures
            final(self).sd_customization == Some(t),
            final(self).bcf_customization == old(self).bcf_customization,
            final(self).pb2_mspm0_customization == old(self).pb2_mspm0_customization,
    {
        self.sd_customization = Some(t);
    }

    /// Store a serial-bootloader customization.
    pub fn update_bcf_customization(&mut self, t: BcfCustomization)
        ensures
            final(self).bcf_customization == Some(t),
            final(self).sd_customization == old(self).sd_customization,
            final(self).pb2_mspm0_customization == old(self).pb2_mspm0_customization,
    {
        self.bcf_customization = Some(t);
    }
}

impl Default for GuiConfiguration {
    /// No customization stored for any target class.
    fn default() -> (r: Self)
        ensures
            r.sd_customization is None,
            r.bcf_customization is None,
            r.pb2_mspm0_customization is None,
    {
        Self { sd_customization: None, bcf_customization: None, pb2_mspm0_customization: None }
    }
}

} // verus!
