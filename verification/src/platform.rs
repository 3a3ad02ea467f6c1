//! The platform a build runs on, and the integer code it has on the host side.

use vstd::prelude::*;

verus! {

/// The platforms that the host application tells apart.
#[derive(Clone, Copy, Debug, PartialEq, Eq, Structural)]
pub enum Platform {
    Unknown,
    Android,
    Ios,
    Windows,
    Unix,
    MacIntel,
    MacApple,
    Wasm,
}

/// What the compiler knows about the target of a build.
///
/// The flags are not exclusive: Android and macOS targets are also Unix
/// targets, and an Apple-silicon Mac sets both `macos` and `aarch64`.
#[derive(Clone, Copy, Debug, PartialEq, Eq, Structural)]
pub struct BuildTarget {
    pub windows: bool,
    pub android: bool,
    pub ios: bool,
    pub macos: bool,
    pub aarch64: bool,
    pub wasm: bool,
    pub unix: bool,
}

/// The platform of a build target. A more specific flag wins over a more
/// general one: Android, iOS and macOS are recognised before plain Unix.
pub open spec fn platform_of(target: BuildTarget) -> Platform {
    if target.windows {
        Platform::Windows
    } else if target.android {
        Platform::Android
    } else if target.ios {
        Platform::Ios
    } else if target.macos && target.aarch64 {
        Platform::MacApple
    } else if target.macos {
        Platform::MacIntel
    } else if target.wasm {
        Platform::Wasm
    } else if target.unix {
        Platform::Unix
    } else {
        Platform::Unknown
    }
}

impl Platform {
    /// The integer that stands for this platform on the host side.
    pub open spec fn dart_code(self) -> int {
        match self {
            Platform::Unknown => 0,
            Platform::Android => 1,
            Platform::Ios => 2,
            Platform::Windows => 3,
            Platform::Unix => 4,
            Platform::MacIntel => 5,
            Platform::MacApple => 6,
            Platform::Wasm => 7,
        }
    }

    /// Encodes the platform for the host side.
    pub fn into_dart(self) -> (code: i32)
        ensures
            code == self.dart_code(),
    {
        match self {
            Platform::Unknown => 0,
            Platform::Android => 1,
            Platform::Ios => 2,
            Platform::Windows => 3,
            Platform::Unix => 4,
            Platform::MacIntel => 5,
            Platform::MacApple => 6,
            Platform::Wasm => 7,
        }
    }
}

/// Names the platform of a build target.
pub fn platform(target: BuildTarget) -> (p: Platform)
    ensures
        p == platform_of(target),
{
    if target.windows {
        Platform::Windows
    } else if target.android {
        Platform::Android
    } else if target.ios {
        Platform::Ios
    } else if target.macos {
        if target.aarch64 {
            Platform::MacApple
        } else {
            Platform::MacIntel
        }
    } else if target.wasm {
        Platform::Wasm
    } else if target.unix {
        Platform::Unix
    } else {
        Platform::Unknown
    }
}

/// Whether a build is a release build: one compiled without debug assertions.
pub fn rust_release_mode(debug_assertions: bool) -> (release: bool)
    ensures
        release == !debug_assertions,
{
    !debug_assertions
}

/// Two platforms with the same host-side code are the same platform.
pub proof fn lemma_dart_code_injective(a: Platform, b: Platform)
    requires
        a.dart_code() == b.dart_code(),
    ensures
        a == b,
{
}

} // verus!
