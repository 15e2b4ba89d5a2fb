//! Where the Java runtime for a platform is downloaded from.
use vstd::prelude::*;
use crate::pom::structure::text_of;

verus! {

/// Whether two texts are the same.
fn same_text(a: &str, b: &str) -> (same: bool)
    ensures
        same == (a@ == b@),
{
    let left: String = String::from_str(a);
    let right: String = String::from_str(b);
    left == right
}

/// The mirror's name for a target architecture; none for an architecture
/// that the mirror holds no runtime for.
pub open spec fn arch_name(target_arch: Seq<char>) -> Option<Seq<char>> {
    if target_arch == "x86"@ {
        Some("x32"@)
    } else if target_arch == "x86_64"@ {
        Some("x64"@)
    } else if target_arch == "arm"@ {
        Some("arm"@)
    } else if target_arch == "aarch64"@ {
        Some("aarch64"@)
    } else {
        None
    }
}

/// The mirror's name for a target architecture.
pub fn jre_arch(target_arch: &str) -> (name: Option<String>)
    ensures
        text_of(name) == arch_name(target_arch@),
{
    if same_text(target_arch, "x86") {
        Some(String::from_str("x32"))
    } else if same_text(target_arch, "x86_64") {
        Some(String::from_str("x64"))
    } else if same_text(target_arch, "arm") {
        Some(String::from_str("arm"))
    } else if same_text(target_arch, "aarch64") {
        Some(String::from_str("aarch64"))
    } else {
        None
    }
}

/// The suffix of the archive that the mirror holds for an operating system:
/// a zip file for Windows, a compressed tar file for Linux, and none for any
/// other system.
pub open spec fn archive_suffix(target_os: Seq<char>) -> Option<Seq<char>> {
    if target_os == "windows"@ {
        Some(".zip"@)
    } else if target_os == "linux"@ {
        Some(".tar.gz"@)
    } else {
        None
    }
}

/// The suffix of the runtime archive for an operating system.
pub fn jre_suffix(target_os: &str) -> (suffix: Option<String>)
    ensures
        text_of(suffix) == archive_suffix(target_os@),
{
    if same_text(target_os, "windows") {
        Some(String::from_str(".zip"))
    } else if same_text(target_os, "linux") {
        Some(String::from_str(".tar.gz"))
    } else {
        None
    }
}

/// Root of the mirror that holds the runtimes.
pub const BASE_JRE_URL: &'static str = "https://mirrors.tuna.tsinghua.edu.cn/AdoptOpenJDK/11/jre";

/// The address of the runtime archive for an architecture and an operating
/// system: `{root}/{arch}/{os}/OpenJDK11U-jre_{arch}_{os}_openj9_11.0.8_10_openj9-0.21.0{suffix}`.
pub open spec fn jre_url(arch: Seq<char>, os: Seq<char>, suffix: Seq<char>) -> Seq<char> {
    BASE_JRE_URL@ + "/"@ + arch + "/"@ + os + "/OpenJDK11U-jre_"@ + arch + "_"@ + os
        + "_openj9_11.0.8_10_openj9-0.21.0"@ + suffix
}

/// Builds the address of the runtime archive for an architecture and an
/// operating system, with the suffix of the archive format used there.
pub fn jre_download_url(arch: &str, os: &str, suffix: &str) -> (url: String)
    ensures
        url@ == jre_url(arch@, os@, suffix@),
{
    let mut url: String = String::from_str(BASE_JRE_URL);
    url.append("/");
    url.append(arch);
    url.append("/");
    url.append(os);
    url.append("/OpenJDK11U-jre_");
    url.append(arch);
    url.append("_");
    url.append(os);
    url.append("_openj9_11.0.8_10_openj9-0.21.0");
    url.append(suffix);
    url
}

} // verus!
