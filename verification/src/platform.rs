//! Native UI hosts under the desktop umbrella. This build enables no native platform, so each
//! host reports that it cannot attach a native surface and says which feature it would need.

use vstd::prelude::*;

verus! {

/// Which native host is active.
#[derive(Clone, Copy, Debug, PartialEq, Eq, Structural)]
pub enum PlatformId {
    Apple,
    Ms,
    Lin,
    Android,
    DesktopTauri,
}

/// The AppKit host (`tish-apple`).
pub struct ApplePlatformHost;

/// The Windows host (`tish-ms`).
pub struct MsPlatformHost;

/// The Linux host (`tish-lin`).
pub struct LinPlatformHost;

/// The Android host (`tish-android`).
pub struct AndroidPlatformHost;

/// The Tauri-only host, used when no native platform is enabled.
pub struct DesktopOnlyHost;

impl ApplePlatformHost {
    pub fn id(&self) -> (r: PlatformId)
        ensures
            r == PlatformId::Apple,
    {
        PlatformId::Apple
    }

    pub fn name(&self) -> (r: &'static str)
        ensures
            r@ == "apple"@,
    {
        "apple"
    }

    /// Whether this host can create `kind: "native"` surfaces in-process.
    pub fn supports_native_surface(&self) -> (r: bool)
        ensures
            !r,
    {
        false
    }

    /// Attaching a native root needs the `platform-apple` feature.
    pub fn attach_native(&self) -> (r: Result<(), String>)
        ensures
            r matches Err(e) && e@ == "platform-apple not enabled"@,
    {
        Err(String::from_str("platform-apple not enabled"))
    }
}

impl MsPlatformHost {
    pub fn id(&self) -> (r: PlatformId)
        ensures
            r == PlatformId::Ms,
    {
        PlatformId::Ms
    }

    pub fn name(&self) -> (r: &'static str)
        ensures
            r@ == "ms"@,
    {
        "ms"
    }

    pub fn supports_native_surface(&self) -> (r: bool)
        ensures
            !r,
    {
        false
    }

    /// Attaching a native root needs the `platform-ms` feature.
    pub fn attach_native(&self) -> (r: Result<(), String>)
        ensures
            r matches Err(e) && e@ == "platform-ms not enabled"@,
    {
        Err(String::from_str("platform-ms not enabled"))
    }
}

impl LinPlatformHost {
    pub fn id(&self) -> (r: PlatformId)
        ensures
            r == PlatformId::Lin,
    {
        PlatformId::Lin
    }

    pub fn name(&self) -> (r: &'static str)
        ensures
            r@ == "lin"@,
    {
        "lin"
    }

    pub fn supports_native_surface(&self) -> (r: bool)
        ensures
            !r,
    {
        false
    }

    /// Attaching a native root needs the `platform-lin` feature.
    pub fn attach_native(&self) -> (r: Result<(), String>)
        ensures
            r matches Err(e) && e@ == "platform-lin not enabled"@,
    {
        Err(String::from_str("platform-lin not enabled"))
    }
}

impl AndroidPlatformHost {
    pub fn id(&self) -> (r: PlatformId)
        ensures
            r == PlatformId::Android,
    {
        PlatformId::Android
    }

    pub fn name(&self) -> (r: &'static str)
        ensures
            r@ == "android"@,
    {
        "android"
    }

    pub fn supports_native_surface(&self) -> (r: bool)
        ensures
            !r,
    {
        false
    }

    /// Attaching a native root needs the `platform-android` feature.
    pub fn attach_native(&self) -> (r: Result<(), String>)
        ensures
            r matches Err(e) && e@ == "platform-android not enabled"@,
    {
        Err(String::from_str("platform-android not enabled"))
    }
}

impl DesktopOnlyHost {
    pub fn id(&self) -> (r: PlatformId)
        ensures
            r == PlatformId::DesktopTauri,
    {
        PlatformId::DesktopTauri
    }

    pub fn name(&self) -> (r: &'static str)
        ensures
            r@ == "desktop-tauri"@,
    {
        "desktop-tauri"
    }

    pub fn supports_native_surface(&self) -> (r: bool)
        ensures
            !r,
    {
        false
    }

    /// The Tauri-only host attaches no native root.
    pub fn attach_native(&self) -> (r: Result<(), String>)
        ensures
            r matches Err(e) && e@ == "native attach unsupported on this platform"@,
    {
        Err(String::from_str("native attach unsupported on this platform"))
    }
}

/// The host of this build: with no native platform enabled, the Tauri-only host.
pub fn current_host() -> (r: DesktopOnlyHost) {
    DesktopOnlyHost
}

} // verus!
