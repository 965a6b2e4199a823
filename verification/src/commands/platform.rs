//! Where the bundled PDFium library lies for a build target.

use vstd::prelude::*;
use crate::text::str_eq;

verus! {

/// The PDFium library for an operating system and CPU architecture, relative
/// to the resources directory (as the bundle configuration lists them).
pub open spec fn spec_platform_lib_rel(os: Seq<char>, arch: Seq<char>) -> Option<Seq<char>> {
    if os == "windows"@ && arch == "x86_64"@ {
        Some("pdfium/win-x64/pdfium.dll"@)
    } else if os == "macos"@ && arch == "aarch64"@ {
        Some("pdfium/mac-arm64/libpdfium.dylib"@)
    } else if os == "macos"@ && arch == "x86_64"@ {
        Some("pdfium/mac-x64/libpdfium.dylib"@)
    } else if os == "linux"@ && arch == "x86_64"@ {
        Some("pdfium/linux-x64/libpdfium.so"@)
    } else {
        None
    }
}

/// The bundled PDFium library for a target (`std::env::consts::OS`,
/// `std::env::consts::ARCH`); none for a target without one.
pub fn platform_lib_rel(os: &str, arch: &str) -> (r: Option<&'static str>)
    ensures
        match r {
            Some(p) => spec_platform_lib_rel(os@, arch@) == Some(p@),
            None => spec_platform_lib_rel(os@, arch@) is None,
        },
{
    if str_eq(os, "windows") && str_eq(arch, "x86_64") {
        Some("pdfium/win-x64/pdfium.dll")
    } else if str_eq(os, "macos") && str_eq(arch, "aarch64") {
        Some("pdfium/mac-arm64/libpdfium.dylib")
    } else if str_eq(os, "macos") && str_eq(arch, "x86_64") {
        Some("pdfium/mac-x64/libpdfium.dylib")
    } else if str_eq(os, "linux") && str_eq(arch, "x86_64") {
        Some("pdfium/linux-x64/libpdfium.so")
    } else {
        None
    }
}

} // verus!
