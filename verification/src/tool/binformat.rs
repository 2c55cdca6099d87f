//! Firmware image formats, and what can be learned from an image.
use vstd::prelude::*;

use crate::protocol::wire::le_u32_at;
use crate::version::Version;

use super::common::read_le_u32;
use super::elfimage::{elf_image, flatten_elf, ElfError};

verus! {

/// Binary formats accepted by the tool.
#[derive(Debug, Clone, Copy, PartialEq, Eq, PartialOrd, Ord, Hash)]
pub enum BinaryFormat {
    /// A flat binary.
    Raw,
    /// An packed, obfuscated binary, with a version number and CRC.
    Packed,
    /// An ELF binary.
    Elf,
    /// Automatically decide between Elf and Packed.
    ///
    /// We will never automatically decide raw, because raw images
    /// can't be positively identified.
    Auto,
}

/// Why an image could not be read.
#[derive(Debug, Clone, Copy, PartialEq, Eq, PartialOrd, Ord, Hash)]
pub enum ImageError {
    /// Could not read initial stack pointer.
    NoStackPointer,
    /// Could not read entry point.
    NoEntryPoint,
}

/// Miscellaneous info about a firmware image.
#[derive(Debug, Clone, PartialEq, Eq, PartialOrd, Ord, Hash)]
pub struct BinaryInfo {
    pub version: Option<Version>,
    pub flash_len: usize,
    pub stack_top: usize,
    pub stack_bottom: Option<usize>,
    pub entry_point: usize,
    pub ram_len: Option<usize>,
}

/// The info of a flat Cortex-M0 image: its length, and the initial stack
/// pointer and entry point that its vector table starts with.
pub open spec fn spec_from_image(data: Seq<u8>, version: Option<Version>) -> Result<
    BinaryInfo,
    ImageError,
> {
    if data.len() < 4 {
        Err(ImageError::NoStackPointer)
    } else if data.len() < 8 {
        Err(ImageError::NoEntryPoint)
    } else {
        Ok(
            BinaryInfo {
                version,
                flash_len: data.len() as usize,
                stack_top: le_u32_at(data, 0) as usize,
                stack_bottom: None,
                entry_point: le_u32_at(data, 4) as usize,
                ram_len: None,
            },
        )
    }
}

/// The info with its version replaced by `version`, if one is given.
pub open spec fn with_version(info: BinaryInfo, version: Option<Version>) -> BinaryInfo {
    match version {
        Some(_) => BinaryInfo { version, ..info },
        None => info,
    }
}

impl BinaryInfo {
    /// The info of a flat Cortex-M0 image: its length, and the initial
    /// stack pointer and entry point that its vector table starts with.
    pub fn from_image(data: &[u8], version: Option<Version>) -> (r: Result<Self, ImageError>)
        ensures
            r == spec_from_image(data@, version),
    {
        let flash_len = data.len();
        // initial stack pointer is the first u32 in cortex-m0
        let stack_top = match read_le_u32(data) {
            Some(v) => v,
            None => return Err(ImageError::NoStackPointer),
        };
        // next is entry point
        let rest = vstd::slice::slice_subrange(data, 4, data.len());
        let entry_point = match read_le_u32(rest) {
            Some(v) => v,
            None => return Err(ImageError::NoEntryPoint),
        };
        assert(le_u32_at(rest@, 0) == le_u32_at(data@, 4));
        Ok(
            BinaryInfo {
                version,
                flash_len,
                stack_top: stack_top as usize,
                stack_bottom: None,
                entry_point: entry_point as usize,
                ram_len: None,
            },
        )
    }

    /// Replace the version, if one is given.
    pub fn override_version(&mut self, version: Option<Version>)
        ensures
            *final(self) == with_version(*old(self), version),
    {
        if version.is_some() {
            self.version = version;
        }
    }
}

/// Why a firmware image could not be read.
#[derive(Debug, Clone, Copy, PartialEq, Eq, PartialOrd, Ord, Hash)]
pub enum FirmwareError {
    /// A flat image without a vector table.
    Image(ImageError),
    /// An ELF image that could not be flattened.
    Elf(ElfError),
    /// Packed images are not read by this library.
    PackedUnsupported,
    /// Could not detect binary image format.
    UnknownFormat,
}

/// Whether the result of reading an ELF firmware image is what flattening
/// gives, with the version given in place of the one found; when reading
/// picked the format itself, a failure is a format it did not detect.
pub open spec fn firmware_result_is(
    r: Result<(Vec<u8>, BinaryInfo), FirmwareError>,
    s: Result<(Seq<u8>, BinaryInfo), ElfError>,
    version: Option<Version>,
    auto: bool,
) -> bool {
    match s {
        Ok((flat, info)) => r matches Ok((d, i)) && d@ == flat && i == with_version(info, version),
        Err(e) => r == Err::<(Vec<u8>, BinaryInfo), FirmwareError>(
            if auto {
                FirmwareError::UnknownFormat
            } else {
                FirmwareError::Elf(e)
            },
        ),
    }
}

/// Read a firmware image in the given format into the bytes of flash,
/// with what can be learned of it. A raw image is taken as it is (a
/// version given for it is not used); the version found in an ELF image
/// gives way to one that is given. Packed images are not read: asking for
/// the packed format is an error, and an automatic choice tries ELF only,
/// so that data which is not ELF is of an unknown format.
pub fn read_firmware_from(data: &[u8], format: BinaryFormat, version: Option<Version>) -> (r: Result<
    (Vec<u8>, BinaryInfo),
    FirmwareError,
>)
    ensures
        format == BinaryFormat::Raw ==> match spec_from_image(data@, None) {
            Ok(info) => r matches Ok((d, i)) && d@ == data@ && i == info,
            Err(e) => r == Err::<(Vec<u8>, BinaryInfo), FirmwareError>(FirmwareError::Image(e)),
        },
        format == BinaryFormat::Packed ==> r == Err::<(Vec<u8>, BinaryInfo), FirmwareError>(
            FirmwareError::PackedUnsupported,
        ),
        format == BinaryFormat::Elf || format == BinaryFormat::Auto ==> firmware_result_is(
            r,
            elf_image(data@),
            version,
            format == BinaryFormat::Auto,
        ),
{
    match format {
        BinaryFormat::Raw => {
            let info = match BinaryInfo::from_image(data, None) {
                Ok(info) => info,
                Err(e) => return Err(FirmwareError::Image(e)),
            };
            Ok((vstd::slice::slice_to_vec(data), info))
        },
        BinaryFormat::Packed => Err(FirmwareError::PackedUnsupported),
        BinaryFormat::Elf | BinaryFormat::Auto => {
            let auto = match format {
                BinaryFormat::Auto => true,
                _ => false,
            };
            let r0 = flatten_elf(data);
            let r = match r0 {
                Ok((flat, info)) => {
                    let mut info = info;
                    info.override_version(version);
                    Ok((flat, info))
                },
                Err(e) => if auto {
                    // packed images are not read, so nothing else is detected
                    Err(FirmwareError::UnknownFormat)
                } else {
                    Err(FirmwareError::Elf(e))
                },
            };
            r
        },
    }
}

} // verus!
