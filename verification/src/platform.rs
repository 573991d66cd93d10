//! The emulated platforms and the file names their ROM images go by.

use vstd::prelude::*;

verus! {

/// A console family that the emulator can run.
#[derive(Clone, Copy, Debug, PartialEq, Eq, Structural)]
pub enum Platform {
    Atari,
    GB,
    GBA,
    NES,
    SNES,
    Genesis,
    PCE,
}

impl Platform {
    /// File name of the ROM image inside a game directory.
    pub open spec fn rom_name_spec(self) -> Seq<char> {
        match self {
            Platform::Atari => "rom.a26"@,
            Platform::GB => "rom.gb"@,
            Platform::GBA => "rom.gba"@,
            Platform::NES => "rom.nes"@,
            Platform::SNES => "rom.sfc"@,
            Platform::Genesis => "rom.md"@,
            Platform::PCE => "rom.pce"@,
        }
    }

    /// Display name of the platform, as it appears in game directory names.
    pub open spec fn name_spec(self) -> Seq<char> {
        match self {
            Platform::Atari => "Atari"@,
            Platform::GB => "GB"@,
            Platform::GBA => "GBA"@,
            Platform::NES => "NES"@,
            Platform::SNES => "SNES"@,
            Platform::Genesis => "Genesis"@,
            Platform::PCE => "PCE"@,
        }
    }

    pub fn rom_name(&self) -> (name: &'static str)
        ensures
            name@ == self.rom_name_spec(),
    {
        match self {
            Platform::Atari => "rom.a26",
            Platform::GB => "rom.gb",
            Platform::GBA => "rom.gba",
            Platform::NES => "rom.nes",
            Platform::SNES => "rom.sfc",
            Platform::Genesis => "rom.md",
            Platform::PCE => "rom.pce",
        }
    }

    pub fn as_str(&self) -> (name: &'static str)
        ensures
            name@ == self.name_spec(),
    {
        match self {
            Platform::Atari => "Atari",
            Platform::GB => "GB",
            Platform::GBA => "GBA",
            Platform::NES => "NES",
            Platform::SNES => "SNES",
            Platform::Genesis => "Genesis",
            Platform::PCE => "PCE",
        }
    }
}

} // verus!
