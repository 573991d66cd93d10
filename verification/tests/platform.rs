use retro_rl::platform::Platform;

#[test]
fn rom_names_follow_the_platform() {
    assert_eq!(Platform::Atari.rom_name(), "rom.a26");
    assert_eq!(Platform::GB.rom_name(), "rom.gb");
    assert_eq!(Platform::GBA.rom_name(), "rom.gba");
    assert_eq!(Platform::NES.rom_name(), "rom.nes");
    assert_eq!(Platform::SNES.rom_name(), "rom.sfc");
    assert_eq!(Platform::Genesis.rom_name(), "rom.md");
    assert_eq!(Platform::PCE.rom_name(), "rom.pce");
}

#[test]
fn display_names_follow_the_platform() {
    assert_eq!(Platform::Atari.as_str(), "Atari");
    assert_eq!(Platform::GB.as_str(), "GB");
    assert_eq!(Platform::GBA.as_str(), "GBA");
    assert_eq!(Platform::NES.as_str(), "NES");
    assert_eq!(Platform::SNES.as_str(), "SNES");
    assert_eq!(Platform::Genesis.as_str(), "Genesis");
    assert_eq!(Platform::PCE.as_str(), "PCE");
}
