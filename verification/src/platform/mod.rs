//! Platform queries: operating system and architecture predicates,
//! alignment arithmetic and a description of the running platform.
//!
//! Which platform the program runs on is a fact of the build; the caller
//! supplies it as an `OsType`, `Arch` and `Endianness`.

pub mod dylib;

use vstd::prelude::*;
use vstd::string::*;
use crate::memory::{is_pow2, low_mask};

verus! {

/// Operating system.
#[derive(Debug, Clone, Copy, PartialEq, Eq, Structural)]
pub enum OsType {
    /// Windows.
    Windows,
    /// macOS.
    Macos,
    /// Linux.
    Linux,
    /// FreeBSD.
    Freebsd,
    /// NetBSD.
    Netbsd,
    /// Any other system.
    Unknown,
}

/// CPU architecture.
#[derive(Debug, Clone, Copy, PartialEq, Eq, Structural)]
pub enum Arch {
    /// 64-bit x86.
    X86_64,
    /// 32-bit x86.
    X86,
    /// 64-bit ARM.
    Aarch64,
    /// 32-bit ARM.
    Arm,
    /// 64-bit RISC-V.
    Riscv64,
    /// 32-bit RISC-V.
    Riscv32,
    /// Any other architecture.
    Unknown,
}

/// Byte order.
#[derive(Debug, Clone, Copy, PartialEq, Eq, Structural)]
pub enum Endianness {
    /// Least significant byte first.
    Little,
    /// Most significant byte first.
    Big,
}

/// Whether the system is Windows.
pub fn is_windows(os: OsType) -> (b: bool)
    ensures
        b == (os == OsType::Windows),
{
    os == OsType::Windows
}

/// Whether the system is macOS.
pub fn is_macos(os: OsType) -> (b: bool)
    ensures
        b == (os == OsType::Macos),
{
    os == OsType::Macos
}

/// Whether the system is Linux.
pub fn is_linux(os: OsType) -> (b: bool)
    ensures
        b == (os == OsType::Linux),
{
    os == OsType::Linux
}

/// Whether the system is FreeBSD.
pub fn is_freebsd(os: OsType) -> (b: bool)
    ensures
        b == (os == OsType::Freebsd),
{
    os == OsType::Freebsd
}

/// Whether the system is NetBSD.
pub fn is_netbsd(os: OsType) -> (b: bool)
    ensures
        b == (os == OsType::Netbsd),
{
    os == OsType::Netbsd
}

/// Whether the system is Unix-like: every system but Windows.
pub fn is_unix(os: OsType) -> (b: bool)
    ensures
        b == (os != OsType::Windows),
{
    !is_windows(os)
}

/// Whether the system is one of the primarily supported ones: Windows,
/// Linux or macOS.
pub fn is_supported_platform(os: OsType) -> (b: bool)
    ensures
        b == (os == OsType::Windows || os == OsType::Linux || os == OsType::Macos),
{
    is_windows(os) || is_linux(os) || is_macos(os)
}

/// Rounds `size` up with the mask `alignment - 1`: `(size + mask) & !mask`.
/// For a power-of-two alignment this is the smallest multiple of
/// `alignment` that is at least `size`.
pub fn align_size(size: usize, alignment: usize) -> (r: usize)
    requires
        alignment >= 1,
        size + alignment - 1 <= usize::MAX,
    ensures
        r == (((size + alignment - 1) as usize) & !((alignment - 1) as usize)),
        is_pow2(alignment) ==> r % alignment == 0 && size <= r && r - size < alignment,
{
    let mask = alignment - 1;
    let r = (size + mask) & !mask;
    proof {
        if is_pow2(alignment) {
            crate::memory::lemma_pow2_shift(alignment);
            let e = vstd::std_specs::bits::u64_trailing_zeros(alignment as u64) as usize;
            lemma_align_up(size, e);
            crate::memory::lemma_mod_pow2_mask(r, e);
        }
    }
    r
}

/// Rounding up to `2^e` keeps the value, clears the low bits and adds less
/// than `2^e`.
proof fn lemma_align_up(size: usize, e: usize)
    requires
        e < usize::BITS,
        size + (1usize << e) - 1 <= usize::MAX,
    ensures
        ({
            let mask = ((1usize << e) - 1) as usize;
            let r = ((size + mask) as usize) & !mask;
            &&& r & low_mask(e) == 0
            &&& size <= r
            &&& r - size < (1usize << e)
        }),
{
    assert((1usize << e) >= 1) by (bit_vector)
        requires
            e < usize::BITS,
    ;
    let mask = ((1usize << e) - 1) as usize;
    let s2 = (size + mask) as usize;
    assert(s2 == size + mask);
    assert((s2 & !mask) & low_mask(e) == 0 && size <= (s2 & !mask) && (s2 & !mask) - size < (1usize << e)) by (bit_vector)
        requires
            e < usize::BITS,
            mask == ((1usize << e) - 1) as usize,
            s2 == size + mask,
    ;
}

/// Whether the address `addr` is a multiple of `alignment`.
pub fn is_aligned(addr: usize, alignment: usize) -> (b: bool)
    requires
        alignment != 0,
    ensures
        b == (addr % alignment == 0),
{
    addr % alignment == 0
}

/// Description of the running platform.
#[derive(Debug, Clone)]
pub struct PlatformInfo {
    /// Platform name.
    pub name: String,
    /// Size of a pointer in bytes.
    pub pointer_size: usize,
    /// Byte order.
    pub endianness: Endianness,
    /// Operating system.
    pub os_type: OsType,
    /// CPU architecture.
    pub arch: Arch,
}

/// The display name of an operating system.
pub open spec fn os_name(os: OsType) -> Seq<char> {
    match os {
        OsType::Windows => "Windows"@,
        OsType::Macos => "macOS"@,
        OsType::Linux => "Linux"@,
        OsType::Freebsd => "FreeBSD"@,
        OsType::Netbsd => "NetBSD"@,
        OsType::Unknown => "Unknown"@,
    }
}

/// The debug name of an architecture.
pub open spec fn arch_name(arch: Arch) -> Seq<char> {
    match arch {
        Arch::X86_64 => "X86_64"@,
        Arch::X86 => "X86"@,
        Arch::Aarch64 => "Aarch64"@,
        Arch::Arm => "Arm"@,
        Arch::Riscv64 => "Riscv64"@,
        Arch::Riscv32 => "Riscv32"@,
        Arch::Unknown => "Unknown"@,
    }
}

/// The debug name of a byte order.
pub open spec fn endianness_name(e: Endianness) -> Seq<char> {
    match e {
        Endianness::Little => "Little"@,
        Endianness::Big => "Big"@,
    }
}

/// The debug name of an architecture, computed.
fn arch_str(arch: Arch) -> (s: &'static str)
    ensures
        s@ == arch_name(arch),
{
    match arch {
        Arch::X86_64 => "X86_64",
        Arch::X86 => "X86",
        Arch::Aarch64 => "Aarch64",
        Arch::Arm => "Arm",
        Arch::Riscv64 => "Riscv64",
        Arch::Riscv32 => "Riscv32",
        Arch::Unknown => "Unknown",
    }
}

/// The debug name of a byte order, computed.
fn endianness_str(e: Endianness) -> (s: &'static str)
    ensures
        s@ == endianness_name(e),
{
    match e {
        Endianness::Little => "Little",
        Endianness::Big => "Big",
    }
}

impl PlatformInfo {
    /// The description of a platform with the given system, architecture,
    /// byte order and pointer size; its name is that of the system.
    pub fn current(os_type: OsType, arch: Arch, endianness: Endianness, pointer_size: usize) -> (info: Self)
        ensures
            info.name@ == os_name(os_type),
            info.os_type == os_type,
            info.arch == arch,
            info.endianness == endianness,
            info.pointer_size == pointer_size,
    {
        PlatformInfo { name: Self::get_platform_name(os_type), pointer_size, endianness, os_type, arch }
    }

    /// The display name of an operating system.
    pub fn get_platform_name(os: OsType) -> (name: String)
        ensures
            name@ == os_name(os),
    {
        let s = match os {
            OsType::Windows => "Windows",
            OsType::Macos => "macOS",
            OsType::Linux => "Linux",
            OsType::Freebsd => "FreeBSD",
            OsType::Netbsd => "NetBSD",
            OsType::Unknown => "Unknown",
        };
        String::from_str(s)
    }

    /// Whether pointers are 8 bytes.
    pub fn is_64bit(&self) -> (b: bool)
        ensures
            b == (self.pointer_size == 8),
    {
        self.pointer_size == 8
    }

    /// Whether pointers are 4 bytes.
    pub fn is_32bit(&self) -> (b: bool)
        ensures
            b == (self.pointer_size == 4),
    {
        self.pointer_size == 4
    }

    /// Whether the byte order is little-endian.
    pub fn is_little_endian(&self) -> (b: bool)
        ensures
            b == (self.endianness == Endianness::Little),
    {
        self.endianness == Endianness::Little
    }

    /// Whether the byte order is big-endian.
    pub fn is_big_endian(&self) -> (b: bool)
        ensures
            b == (self.endianness == Endianness::Big),
    {
        self.endianness == Endianness::Big
    }

    /// Whether the architecture is 64-bit x86.
    pub fn is_x86_64(&self) -> (b: bool)
        ensures
            b == (self.arch == Arch::X86_64),
    {
        self.arch == Arch::X86_64
    }

    /// Whether the architecture is 32-bit x86.
    pub fn is_x86(&self) -> (b: bool)
        ensures
            b == (self.arch == Arch::X86),
    {
        self.arch == Arch::X86
    }

    /// Whether the architecture is 64-bit ARM.
    pub fn is_aarch64(&self) -> (b: bool)
        ensures
            b == (self.arch == Arch::Aarch64),
    {
        self.arch == Arch::Aarch64
    }

    /// Whether the architecture is 32-bit ARM.
    pub fn is_arm(&self) -> (b: bool)
        ensures
            b == (self.arch == Arch::Arm),
    {
        self.arch == Arch::Arm
    }

    /// Whether the architecture is RISC-V, 64- or 32-bit.
    pub fn is_riscv(&self) -> (b: bool)
        ensures
            b == (self.arch == Arch::Riscv64 || self.arch == Arch::Riscv32),
    {
        self.arch == Arch::Riscv64 || self.arch == Arch::Riscv32
    }

    /// The description `"<name> (<arch>, <64 or 32>bit, <byte order>)"`,
    /// where the width is 64 for 8-byte pointers and 32 otherwise.
    pub fn to_string(&self) -> (s: String)
        ensures
            s@ == self.name@ + " ("@ + arch_name(self.arch) + ", "@
                + (if self.pointer_size == 8 { "64"@ } else { "32"@ }) + "bit, "@
                + endianness_name(self.endianness) + ")"@,
    {
        let mut s = self.name.clone();
        s.append(" (");
        s.append(arch_str(self.arch));
        s.append(", ");
        s.append(if self.is_64bit() { "64" } else { "32" });
        s.append("bit, ");
        s.append(endianness_str(self.endianness));
        s.append(")");
        s
    }
}

} // verus!
