//! The platform variants a release asset can be built for, and the substring
//! of the asset name that identifies each of them.

use vstd::prelude::*;

verus! {

/// A platform a release asset can target.
pub enum OsType {
    Windows64,
    Windows32,
    LinuxArm32,
    LinuxArm64,
    Linux64,
    Linux32,
    Mac,
}

impl OsType {
    /// The substring of a release-asset name that marks this platform.
    pub open spec fn spec_value(&self) -> Seq<char> {
        match *self {
            OsType::Windows64 => "win64"@,
            OsType::Windows32 => "win32"@,
            OsType::LinuxArm32 => "linux.arm32"@,
            OsType::LinuxArm64 => "linux.arm64"@,
            OsType::Linux64 => "linux.x86_64"@,
            OsType::Linux32 => "linux.x86_32"@,
            OsType::Mac => "macos.universal"@,
        }
    }

    /// The asset-name marker of this platform.
    pub fn all(&self) -> (r: String)
        ensures
            r@ == self.spec_value(),
    {
        match *self {
            OsType::Windows64 => String::from_str("win64"),
            OsType::Windows32 => String::from_str("win32"),
            OsType::LinuxArm32 => String::from_str("linux.arm32"),
            OsType::LinuxArm64 => String::from_str("linux.arm64"),
            OsType::Linux64 => String::from_str("linux.x86_64"),
            OsType::Linux32 => String::from_str("linux.x86_32"),
            OsType::Mac => String::from_str("macos.universal"),
        }
    }

    /// The asset-name marker of this platform.
    pub fn value(&self) -> (r: String)
        ensures
            r@ == self.spec_value(),
    {
        self.all()
    }
}

} // verus!
