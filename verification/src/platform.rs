use vstd::prelude::*;

verus! {

/// The operating systems the toolchain runs on.  One value is selected at
/// startup and passed explicitly wherever behaviour differs by platform.
#[derive(Debug, Clone, Copy, PartialEq, Eq, Structural)]
pub enum Platform {
    MacOs,
    Linux,
    Windows,
}

/// Directory under the home directory that holds the SDK by default.
pub open spec fn spec_sdk_dir(p: Platform) -> Seq<char> {
    match p {
        Platform::Windows => "Documents"@,
        _ => "Developer"@,
    }
}

/// Executable mirror of `spec_sdk_dir`.
pub fn sdk_dir(p: Platform) -> (r: &'static str)
    ensures
        r@ == spec_sdk_dir(p),
{
    match p {
        Platform::Windows => "Documents",
        _ => "Developer",
    }
}

/// Name of the cross-compiler driver.
pub open spec fn spec_gcc_path(p: Platform) -> Seq<char> {
    match p {
        Platform::MacOs => "/usr/local/bin/arm-none-eabi-gcc"@,
        Platform::Linux => "arm-none-eabi-gcc"@,
        Platform::Windows => "arm-none-eabi-gcc.exe"@,
    }
}

/// Executable mirror of `spec_gcc_path`.
pub fn gcc_path(p: Platform) -> (r: &'static str)
    ensures
        r@ == spec_gcc_path(p),
{
    match p {
        Platform::MacOs => "/usr/local/bin/arm-none-eabi-gcc",
        Platform::Linux => "arm-none-eabi-gcc",
        Platform::Windows => "arm-none-eabi-gcc.exe",
    }
}

/// Name of the bundle compiler executable.
pub open spec fn spec_pdc_name(p: Platform) -> Seq<char> {
    match p {
        Platform::Windows => "PDC.EXE"@,
        _ => "pdc"@,
    }
}

/// Executable mirror of `spec_pdc_name`.
pub fn pdc_name(p: Platform) -> (r: &'static str)
    ensures
        r@ == spec_pdc_name(p),
{
    match p {
        Platform::Windows => "PDC.EXE",
        _ => "pdc",
    }
}

/// Name of the device utility executable.
pub open spec fn spec_pdutil_name(p: Platform) -> Seq<char> {
    match p {
        Platform::Windows => "PDUTIL.EXE"@,
        _ => "pdutil"@,
    }
}

/// Executable mirror of `spec_pdutil_name`.
pub fn pdutil_name(p: Platform) -> (r: &'static str)
    ensures
        r@ == spec_pdutil_name(p),
{
    match p {
        Platform::Windows => "PDUTIL.EXE",
        _ => "pdutil",
    }
}

} // verus!
