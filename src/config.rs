//! Machine configuration: the model preset and the settings of a custom
//! model, with what each preset implies.

use vstd::prelude::*;
use crate::kaypro_machine::VideoMode;
use crate::media::MediaFormat;

verus! {

/// Kaypro model presets.
#[derive(Debug, Clone, Copy, PartialEq, Eq, Structural)]
pub enum KayproModel {
    /// Kaypro II: SSDD, memory-mapped video.
    KayproII,
    /// Kaypro 4/83: DSDD, memory-mapped video.
    Kaypro4_83,
    /// Kaypro 2X/4/84: DSDD, SY6545 CRTC.
    Kaypro4_84,
    /// Kaypro 4/84 with TurboROM 3.4.
    TurboRom,
    /// Kaypro 4/84 with the KayPLUS BIOS.
    KayPlus84,
    /// ROM, disk format and video mode given one by one.
    Custom,
}

impl Default for KayproModel {
    fn default() -> (r: KayproModel)
        ensures
            r == KayproModel::Kaypro4_84,
    {
        KayproModel::Kaypro4_84
    }
}

#[derive(Debug, Clone, Copy, PartialEq, Eq, Structural)]
pub enum VideoModeConfig {
    MemoryMapped,
    Sy6545,
}

impl Default for VideoModeConfig {
    fn default() -> (r: VideoModeConfig)
        ensures
            r == VideoModeConfig::Sy6545,
    {
        VideoModeConfig::Sy6545
    }
}

#[derive(Debug, Clone, Copy, PartialEq, Eq, Structural)]
pub enum DiskFormatConfig {
    Ssdd,
    Dsdd,
}

impl Default for DiskFormatConfig {
    fn default() -> (r: DiskFormatConfig)
        ensures
            r == DiskFormatConfig::Dsdd,
    {
        DiskFormatConfig::Dsdd
    }
}

impl VideoModeConfig {
    pub fn to_video_mode(self) -> (r: VideoMode)
        ensures
            r == (if self == VideoModeConfig::MemoryMapped { VideoMode::MemoryMapped } else { VideoMode::Sy6545Crtc }),
    {
        match self {
            VideoModeConfig::MemoryMapped => VideoMode::MemoryMapped,
            VideoModeConfig::Sy6545 => VideoMode::Sy6545Crtc,
        }
    }
}

impl DiskFormatConfig {
    pub fn to_media_format(self) -> (r: MediaFormat)
        ensures
            r == (if self == DiskFormatConfig::Ssdd { MediaFormat::SsDd } else { MediaFormat::DsDd }),
    {
        match self {
            DiskFormatConfig::Ssdd => MediaFormat::SsDd,
            DiskFormatConfig::Dsdd => MediaFormat::DsDd,
        }
    }
}

/// The model of a preset name, if it names one.
pub open spec fn model_named(name: Seq<char>) -> Option<KayproModel> {
    if name == "kaypro_ii"@ {
        Some(KayproModel::KayproII)
    } else if name == "kaypro4_83"@ {
        Some(KayproModel::Kaypro4_83)
    } else if name == "kaypro4_84"@ {
        Some(KayproModel::Kaypro4_84)
    } else if name == "turbo_rom"@ {
        Some(KayproModel::TurboRom)
    } else if name == "kayplus_84"@ {
        Some(KayproModel::KayPlus84)
    } else if name == "custom"@ {
        Some(KayproModel::Custom)
    } else {
        None
    }
}

/// The model a preset name stands for.
pub fn model_from_name(name: &str) -> (r: Option<KayproModel>)
    ensures
        r == model_named(name@),
{
    let n = name.to_owned();
    proof {
        reveal_strlit("kaypro_ii");
        reveal_strlit("kaypro4_83");
        reveal_strlit("kaypro4_84");
        reveal_strlit("turbo_rom");
        reveal_strlit("kayplus_84");
        reveal_strlit("custom");
    }
    if n == "kaypro_ii".to_owned() {
        Some(KayproModel::KayproII)
    } else if n == "kaypro4_83".to_owned() {
        Some(KayproModel::Kaypro4_83)
    } else if n == "kaypro4_84".to_owned() {
        Some(KayproModel::Kaypro4_84)
    } else if n == "turbo_rom".to_owned() {
        Some(KayproModel::TurboRom)
    } else if n == "kayplus_84".to_owned() {
        Some(KayproModel::KayPlus84)
    } else if n == "custom".to_owned() {
        Some(KayproModel::Custom)
    } else {
        None
    }
}

/// The configuration, as read from the configuration file.
#[derive(Debug, Clone)]
pub struct Config {
    pub model: KayproModel,
    /// ROM file (custom model).
    pub rom_file: Option<String>,
    /// Video mode (custom model).
    pub video_mode: VideoModeConfig,
    /// Disk format (custom model).
    pub disk_format: DiskFormatConfig,
    /// Sector ID base of side 1 (custom model): 10 standard, 0 KayPLUS.
    pub side1_sector_base: Option<u8>,
    pub disk_a: Option<String>,
    pub disk_b: Option<String>,
}

impl Default for Config {
    fn default() -> (r: Config)
        ensures
            r.model == KayproModel::Kaypro4_84,
            r.rom_file.is_none(),
            r.video_mode == VideoModeConfig::Sy6545,
            r.disk_format == DiskFormatConfig::Dsdd,
            r.side1_sector_base.is_none(),
            r.disk_a.is_none(),
            r.disk_b.is_none(),
    {
        Config {
            model: KayproModel::Kaypro4_84,
            rom_file: None,
            video_mode: VideoModeConfig::Sy6545,
            disk_format: DiskFormatConfig::Dsdd,
            side1_sector_base: None,
            disk_a: None,
            disk_b: None,
        }
    }
}

fn or_default<'a>(v: &'a Option<String>, d: &'a str) -> (r: &'a str)
    ensures
        r@ == match v {
            Some(s) => s@,
            None => d@,
        },
{
    match v {
        Some(s) => s.as_str(),
        None => d,
    }
}

impl Config {
    /// The default configuration.
    pub fn load() -> (r: Config)
        ensures
            r.model == KayproModel::Kaypro4_84,
            r.rom_file.is_none() && r.disk_a.is_none() && r.disk_b.is_none(),
    {
        Config::default()
    }

    /// Command-line settings over the file's: a known model name replaces the
    /// model (an unknown one keeps it), a ROM implies the custom model, and
    /// drive images replace the file's.
    pub fn apply_cli_overrides(&mut self, model: Option<&str>, rom: Option<&str>, drivea: Option<&str>, driveb: Option<&str>)
        ensures
            final(self).model == if rom.is_some() {
                KayproModel::Custom
            } else {
                match model {
                    Some(m) => match model_named(m@) {
                        Some(k) => k,
                        None => old(self).model,
                    },
                    None => old(self).model,
                }
            },
            rom.is_some() ==> final(self).rom_file.is_some() && final(self).rom_file.unwrap()@ == rom.unwrap()@,
            rom.is_none() ==> final(self).rom_file == old(self).rom_file,
            drivea.is_some() ==> final(self).disk_a.is_some() && final(self).disk_a.unwrap()@ == drivea.unwrap()@,
            drivea.is_none() ==> final(self).disk_a == old(self).disk_a,
            driveb.is_some() ==> final(self).disk_b.is_some() && final(self).disk_b.unwrap()@ == driveb.unwrap()@,
            driveb.is_none() ==> final(self).disk_b == old(self).disk_b,
            final(self).video_mode == old(self).video_mode,
            final(self).disk_format == old(self).disk_format,
            final(self).side1_sector_base == old(self).side1_sector_base,
    {
        if let Some(m) = model {
            if let Some(k) = model_from_name(m) {
                self.model = k;
            }
        }
        if let Some(r) = rom {
            self.rom_file = Some(r.to_owned());
            self.model = KayproModel::Custom;
        }
        if let Some(a) = drivea {
            self.disk_a = Some(a.to_owned());
        }
        if let Some(b) = driveb {
            self.disk_b = Some(b.to_owned());
        }
    }

    /// ROM image of the model.
    pub fn get_rom_path(&self) -> (r: &str)
        ensures
            self.model == KayproModel::KayproII ==> r@ == "roms/81-149c.rom"@,
            self.model == KayproModel::Kaypro4_83 ==> r@ == "roms/81-232.rom"@,
            self.model == KayproModel::Kaypro4_84 ==> r@ == "roms/81-292a.rom"@,
            self.model == KayproModel::TurboRom ==> r@ == "roms/trom34.rom"@,
            self.model == KayproModel::KayPlus84 ==> r@ == "roms/kplus84.rom"@,
            self.model == KayproModel::Custom ==> r@ == match self.rom_file {
                Some(s) => s@,
                None => "roms/81-292a.rom"@,
            },
    {
        match self.model {
            KayproModel::KayproII => "roms/81-149c.rom",
            KayproModel::Kaypro4_83 => "roms/81-232.rom",
            KayproModel::Kaypro4_84 => "roms/81-292a.rom",
            KayproModel::TurboRom => "roms/trom34.rom",
            KayproModel::KayPlus84 => "roms/kplus84.rom",
            KayproModel::Custom => or_default(&self.rom_file, "roms/81-292a.rom"),
        }
    }

    pub fn get_video_mode(&self) -> (r: VideoMode)
        ensures
            r == match self.model {
                KayproModel::KayproII | KayproModel::Kaypro4_83 => VideoMode::MemoryMapped,
                KayproModel::Custom => if self.video_mode == VideoModeConfig::MemoryMapped {
                    VideoMode::MemoryMapped
                } else {
                    VideoMode::Sy6545Crtc
                },
                _ => VideoMode::Sy6545Crtc,
            },
    {
        match self.model {
            KayproModel::KayproII => VideoMode::MemoryMapped,
            KayproModel::Kaypro4_83 => VideoMode::MemoryMapped,
            KayproModel::Kaypro4_84 => VideoMode::Sy6545Crtc,
            KayproModel::TurboRom => VideoMode::Sy6545Crtc,
            KayproModel::KayPlus84 => VideoMode::Sy6545Crtc,
            KayproModel::Custom => self.video_mode.to_video_mode(),
        }
    }

    pub fn get_disk_format(&self) -> (r: MediaFormat)
        ensures
            r == match self.model {
                KayproModel::KayproII => MediaFormat::SsDd,
                KayproModel::Custom => if self.disk_format == DiskFormatConfig::Ssdd {
                    MediaFormat::SsDd
                } else {
                    MediaFormat::DsDd
                },
                _ => MediaFormat::DsDd,
            },
    {
        match self.model {
            KayproModel::KayproII => MediaFormat::SsDd,
            KayproModel::Kaypro4_83 => MediaFormat::DsDd,
            KayproModel::Kaypro4_84 => MediaFormat::DsDd,
            KayproModel::TurboRom => MediaFormat::DsDd,
            KayproModel::KayPlus84 => MediaFormat::DsDd,
            KayproModel::Custom => self.disk_format.to_media_format(),
        }
    }

    /// Sector ID base of side 1: 0 for KayPLUS, the configured one (default
    /// 10) for a custom model, 10 otherwise.
    pub fn get_side1_sector_base(&self) -> (r: u8)
        ensures
            r == match self.model {
                KayproModel::KayPlus84 => 0u8,
                KayproModel::Custom => match self.side1_sector_base {
                    Some(b) => b,
                    None => 10u8,
                },
                _ => 10u8,
            },
    {
        match self.model {
            KayproModel::KayPlus84 => 0,
            KayproModel::Custom => match self.side1_sector_base {
                Some(b) => b,
                None => 10,
            },
            _ => 10,
        }
    }

    /// Boot disk of the model.
    pub fn get_default_disk_a(&self) -> (r: &str)
        ensures
            self.model == KayproModel::KayproII ==> r@ == "disks/system/cpm22-rom149.img"@,
            self.model == KayproModel::Kaypro4_83 ==> r@ == "disks/system/k484-cpm22f-boot.img"@,
            self.model == KayproModel::Kaypro4_84 ==> r@ == "disks/system/cpm22g-rom292a.img"@,
            self.model == KayproModel::TurboRom ==> r@ == "disks/system/k484_turborom_63k_boot.img"@,
            self.model == KayproModel::KayPlus84 ==> r@ == "disks/system/kayplus_boot.img"@,
            self.model == KayproModel::Custom ==> r@ == match self.disk_a {
                Some(s) => s@,
                None => "disks/system/k484-cpm22f-boot.img"@,
            },
    {
        match self.model {
            KayproModel::KayproII => "disks/system/cpm22-rom149.img",
            KayproModel::Kaypro4_83 => "disks/system/k484-cpm22f-boot.img",
            KayproModel::Kaypro4_84 => "disks/system/cpm22g-rom292a.img",
            KayproModel::TurboRom => "disks/system/k484_turborom_63k_boot.img",
            KayproModel::KayPlus84 => "disks/system/kayplus_boot.img",
            KayproModel::Custom => or_default(&self.disk_a, "disks/system/k484-cpm22f-boot.img"),
        }
    }

    /// Disk of drive B for the model.
    pub fn get_default_disk_b(&self) -> (r: &str)
        ensures
            self.model == KayproModel::KayproII ==> r@ == "disks/blank_disks/cpm22-rom149-blank.img"@,
            (self.model != KayproModel::KayproII && self.model != KayproModel::Custom) ==>
                r@ == "disks/blank_disks/cpm22-kaypro4-blank.img"@,
            self.model == KayproModel::Custom ==> r@ == match self.disk_b {
                Some(s) => s@,
                None => "disks/blank_disks/cpm22-kaypro4-blank.img"@,
            },
    {
        match self.model {
            KayproModel::KayproII => "disks/blank_disks/cpm22-rom149-blank.img",
            KayproModel::Custom => or_default(&self.disk_b, "disks/blank_disks/cpm22-kaypro4-blank.img"),
            _ => "disks/blank_disks/cpm22-kaypro4-blank.img",
        }
    }

    /// A description of the configuration.
    pub fn get_description(&self) -> (r: String)
        ensures
            self.model == KayproModel::KayproII ==> r@ == "Kaypro II (SSDD, 81-149c ROM)"@,
            self.model == KayproModel::Kaypro4_83 ==> r@ == "Kaypro 4/83 (DSDD, 81-232 ROM)"@,
            self.model == KayproModel::Kaypro4_84 ==> r@ == "Kaypro 2X/4/84 (DSDD, 81-292a ROM)"@,
            self.model == KayproModel::TurboRom ==> r@ == "Kaypro 4/84 TurboROM 3.4 (DSDD)"@,
            self.model == KayproModel::KayPlus84 ==> r@ == "Kaypro 4/84 KayPLUS (DSDD)"@,
            self.model == KayproModel::Custom ==> r@ == "Custom ("@ + (match self.rom_file {
                Some(s) => s@,
                None => "roms/81-292a.rom"@,
            }) + ")"@,
    {
        match self.model {
            KayproModel::KayproII => "Kaypro II (SSDD, 81-149c ROM)".to_owned(),
            KayproModel::Kaypro4_83 => "Kaypro 4/83 (DSDD, 81-232 ROM)".to_owned(),
            KayproModel::Kaypro4_84 => "Kaypro 2X/4/84 (DSDD, 81-292a ROM)".to_owned(),
            KayproModel::TurboRom => "Kaypro 4/84 TurboROM 3.4 (DSDD)".to_owned(),
            KayproModel::KayPlus84 => "Kaypro 4/84 KayPLUS (DSDD)".to_owned(),
            KayproModel::Custom => {
                let mut s = "Custom (".to_owned();
                s.append(self.get_rom_path());
                s.append(")");
                s
            },
        }
    }

    /// A short name for the emulator's title.
    pub fn get_display_name(&self) -> (r: &str)
        ensures
            self.model == KayproModel::KayproII ==> r@ == "Kaypro II"@,
            self.model == KayproModel::Kaypro4_83 ==> r@ == "Kaypro 4/83"@,
            self.model == KayproModel::Kaypro4_84 ==> r@ == "Kaypro 4-84"@,
            self.model == KayproModel::TurboRom ==> r@ == "Kaypro 4-84 TurboROM"@,
            self.model == KayproModel::KayPlus84 ==> r@ == "Kaypro 4-84 KayPLUS"@,
            self.model == KayproModel::Custom ==> r@ == "Custom Kaypro"@,
    {
        match self.model {
            KayproModel::KayproII => "Kaypro II",
            KayproModel::Kaypro4_83 => "Kaypro 4/83",
            KayproModel::Kaypro4_84 => "Kaypro 4-84",
            KayproModel::TurboRom => "Kaypro 4-84 TurboROM",
            KayproModel::KayPlus84 => "Kaypro 4-84 KayPLUS",
            KayproModel::Custom => "Custom Kaypro",
        }
    }
}

} // verus!
