use izkaypro::floppy_controller::FloppyController;
use izkaypro::hard_disk_image::{ControllerWriteOutcome, ControllerWriteSource, HardDiskImage};
use izkaypro::kaypro_machine::{KayproMachine, NmiAction, NmiLatch, VideoMode};
use izkaypro::media::{detect_media_format, Media, MediaFormat, TrackGeometry};
use izkaypro::sy6545::Sy6545;
use izkaypro::wd1002::Wd1002Controller;

fn media(len: usize, fill: u8, format: MediaFormat) -> Media {
    Media::from_content("m".to_string(), vec![fill; len], format, false, true, 10)
}

fn fdc() -> FloppyController {
    FloppyController::new(media(409600, 0xE5, MediaFormat::DsDd), media(409600, 0xE5, MediaFormat::DsDd))
}

fn machine(mode: VideoMode) -> KayproMachine {
    KayproMachine::new(vec![0xC9u8; 4096], mode, fdc())
}

fn wd() -> Wd1002Controller {
    let mut wd = Wd1002Controller::new(HardDiskImage::blank());
    for _ in 0..1024 {
        wd.step();
    }
    wd
}

#[test]
fn media_format_from_length() {
    assert!(detect_media_format(102400) == MediaFormat::SsSd);
    assert!(detect_media_format(204800) == MediaFormat::SsDd);
    assert!(detect_media_format(205824) == MediaFormat::SsDd);
    assert!(detect_media_format(409600) == MediaFormat::DsDd);
    assert!(detect_media_format(411648) == MediaFormat::DsDd);
    assert!(detect_media_format(300000) == MediaFormat::Unformatted);
}

#[test]
fn sector_index_stays_in_image() {
    let m = media(409600, 0, MediaFormat::DsDd);
    for track in 0..40u8 {
        for sector in 0..10u8 {
            let (ok, a, b) = m.sector_index(false, track, sector);
            assert!(ok);
            assert!(a < b && b <= 409600);
            assert_eq!(b - a, 512);
            assert_eq!(a, (track as usize * 20 + sector as usize) * 512);
        }
        let (ok, a, _) = m.sector_index(true, track, 3);
        assert!(ok);
        assert_eq!(a, (track as usize * 20 + 13) * 512);
    }
    assert!(!m.sector_index(false, 40, 0).0);
    assert!(!m.sector_index(false, 0, 10).0);
    let single = media(204800, 0, MediaFormat::SsDd);
    assert!(!single.sector_index(true, 0, 0).0);
}

#[test]
fn flush_hands_out_dirty_range() {
    let mut m = media(409600, 0, MediaFormat::DsDd);
    assert!(m.flush_disk().is_none());
    m.write_byte(100, 7);
    m.write_byte(90, 5);
    m.write_byte(95, 6);
    let (start, bytes) = m.flush_disk().unwrap();
    assert_eq!(start, 90);
    assert_eq!(bytes.len(), 11);
    assert_eq!(bytes[0], 5);
    assert_eq!(bytes[5], 6);
    assert_eq!(bytes[10], 7);
    assert!(m.flush_disk().is_none());
}

#[test]
fn upgrade_keeps_side_zero() {
    let mut content = vec![0u8; 204800];
    content[5120] = 0x42;
    let mut m = Media::from_content("s".to_string(), content, MediaFormat::SsDd, false, false, 10);
    m.upgrade_to_double_sided();
    assert!(m.format == MediaFormat::DsDd);
    assert_eq!(m.content.len(), 409600);
    assert_eq!(m.content[10240], 0x42);
    assert_eq!(m.content[5120], 0xE5);
    assert_eq!(m.write_min, 0);
    assert_eq!(m.write_max, 409599);
}

#[test]
fn load_disk_refuses_unknown_length() {
    let mut m = media(409600, 0, MediaFormat::DsDd);
    assert!(m.load_disk("x".to_string(), vec![0u8; 1000], false).is_err());
    assert_eq!(m.content.len(), 409600);
    assert!(m.load_disk("y".to_string(), vec![1u8; 204800], true).is_ok());
    assert!(m.format == MediaFormat::SsDd);
    assert!(m.write_protected);
}

#[test]
fn head_saturates_at_both_ends() {
    let mut f = fdc();
    for _ in 0..45 {
        f.put_command(0x50);
    }
    assert_eq!(f.head_position, 39);
    assert_eq!(f.get_track(), 39);
    for _ in 0..3 {
        f.put_command(0x20);
    }
    assert_eq!(f.head_position, 39);
    for _ in 0..45 {
        f.put_command(0x70);
    }
    assert_eq!(f.head_position, 0);
    assert_eq!(f.status & 0x04, 0x04);
}

#[test]
fn seek_checks_track() {
    let mut f = fdc();
    f.data = 12;
    f.put_command(0x10);
    assert_eq!(f.head_position, 12);
    f.data = 50;
    f.put_command(0x10);
    assert_eq!(f.head_position, 12);
    assert_eq!(f.status & 0x10, 0x10);
}

#[test]
fn write_protected_sector_write() {
    let mut f = FloppyController::new(
        Media::from_content("p".to_string(), vec![0xE5u8; 409600], MediaFormat::DsDd, true, false, 10),
        media(409600, 0xE5, MediaFormat::DsDd),
    );
    f.put_command(0xA0);
    assert_eq!(f.status, 0x40);
    assert!(f.raise_nmi);
    f.put_data(1);
    assert_eq!(f.media_a().content[0], 0xE5);
}

#[test]
fn sector_write_then_read() {
    let mut f = fdc();
    f.head_position = 3;
    f.put_sector(4);
    f.put_command(0xA0);
    for i in 0..512u32 {
        f.put_data((i % 251) as u8);
    }
    let off = (3 * 20 + 4) * 512;
    assert_eq!(f.media_a().content[off + 1], 1);
    assert!(!f.media_a().is_write_protected());
    assert!(f.take_flushed().len() >= 1);
    f.put_command(0x80);
    for i in 0..512u32 {
        assert_eq!(f.get_data(), (i % 251) as u8);
    }
}

#[test]
fn multi_sector_read_off_track_end() {
    let mut f = fdc();
    f.put_sector(9);
    f.put_command(0x90);
    for _ in 0..512 {
        f.get_data();
    }
    let status = f.get_status();
    assert_eq!(status & 0x10, 0x10);
    assert_eq!(status & 0x01, 0);
}

#[test]
fn abandoned_transfer_clears_busy() {
    let mut f = fdc();
    f.put_command(0x80);
    let mut last = 0;
    for _ in 0..10 {
        last = f.get_status();
    }
    assert_eq!(last & 0x01, 0);
    assert_eq!(f.read_last, 0);
}

#[test]
fn write_track_single_density_count() {
    let mut f = fdc();
    f.set_single_density(true);
    f.put_command(0xF0);
    for _ in 0..3124 {
        f.put_data(0xFF);
    }
    assert!(f.write_track_active);
    f.put_data(0xFF);
    assert!(!f.write_track_active);
    assert_eq!(f.status, 0);
    let before = f.media_a().content.clone();
    f.put_data(0x12);
    assert!(!f.write_track_active);
    assert!(f.media_a().content == before);
}

#[test]
fn write_track_safety_cap() {
    let mut f = fdc();
    f.put_command(0xF0);
    for _ in 0..11999 {
        f.put_data(0x4E);
    }
    assert!(f.write_track_active);
    f.put_data(0x4E);
    assert!(!f.write_track_active);
}

#[test]
fn read_address_rotates_and_counts_down() {
    let mut f = fdc();
    f.put_command(0xC0);
    assert_eq!(f.get_data(), 0);
    assert_eq!(f.get_data(), 0);
    assert_eq!(f.get_data(), 0);
    assert_eq!(f.get_data(), 2);
    assert_eq!(f.get_data(), 0xde);
    assert_eq!(f.get_data(), 0xad);
    let mut busy_polls = 0;
    for _ in 0..20 {
        if f.get_status() & 0x01 == 0 {
            break;
        }
        busy_polls += 1;
    }
    assert!(busy_polls >= 1 && busy_polls <= 10);
}

#[test]
fn force_interrupt_nmi_only_with_condition() {
    let mut f = fdc();
    f.put_command(0xD0);
    assert!(!f.raise_nmi);
    f.put_command(0xD8);
    assert!(f.raise_nmi);
}

#[test]
fn crtc_transparent_write() {
    let mut m = machine(VideoMode::Sy6545Crtc);
    m.port_out(0x1C, 0x12);
    m.port_out(0x1D, 0x02);
    m.port_out(0x1D, 0x34);
    m.port_out(0x1C, 0x1F);
    m.crtc.vram_dirty = false;
    let before = m.crtc.vram.clone();
    m.port_out(0x1F, 0x41);
    assert_eq!(m.crtc.vram[0x234], 0x41);
    for i in 0..4096 {
        if i != 0x234 {
            assert_eq!(m.crtc.vram[i], before[i]);
        }
    }
    assert!(m.crtc.vram_dirty);
    m.port_out(0x1C, 0x10);
    let after = m.crtc.vram.clone();
    m.port_out(0x1F, 0x42);
    assert!(m.crtc.vram == after);
}

#[test]
fn crtc_registers_and_status() {
    let mut c = Sy6545::new();
    assert_eq!(c.get_vram(5), 0x20);
    assert_eq!(c.get_attr(5), 0);
    c.write_port_1c(12);
    c.write_port_1d(0x01);
    c.write_port_1c(13);
    c.write_port_1d(0x80);
    assert_eq!(c.start_addr(), 0x180);
    c.write_port_1c(10);
    c.write_port_1d(0x65);
    assert_eq!(c.cursor_mode(), 3);
    assert_eq!(c.cursor_start(), 5);
    assert_eq!(c.read_port_1c() & 0x80, 0x80);
    c.write_port_1c(31);
    c.write_port_1d(0);
    c.write_port_1e(0x55);
    assert_eq!(c.addr_latch, 2);
}

#[test]
fn ports_above_decoder_read_zero() {
    let mut m = machine(VideoMode::Sy6545Crtc);
    assert_eq!(m.port_in(0x80), 0);
    assert_eq!(m.port_in(0xC4), 0);
    m.port_out(0x90, 0x12);
    assert_eq!(m.floppy_controller.get_track(), 0);
    assert_eq!(m.port_in(0x0039), 0xca);
    assert_eq!(m.port_in(0x0030), 0xca);
    assert_eq!(m.port_in(0x0051), 0);
}

#[test]
fn port_14_system_bits() {
    let mut m = machine(VideoMode::Sy6545Crtc);
    m.port_out(0x14, 0x17);
    assert_eq!(m.port14_raw, 0xDF);
    m.port_out(0x14, 0x9A);
    assert_eq!(m.port_in(0x14), 0x9A);
    assert!(m.floppy_controller.motor_on);
    assert!(m.floppy_controller.side_2);
    assert_eq!(m.floppy_controller.drive, 0);
    assert_eq!(m.system_bits & 0x80, 0x80);
}

#[test]
fn nmi_vector_and_latch() {
    let mut m = machine(VideoMode::Sy6545Crtc);
    assert!(m.nmi_vector_is_safe());
    m.port_out(0x14, 0x1A);
    m.poke(0x66, 0x00);
    assert!(!m.nmi_vector_is_safe());
    m.poke(0x66, 0xC3);
    m.poke(0x67, 0x00);
    m.poke(0x68, 0x80);
    assert!(m.nmi_vector_is_safe());

    let mut latch = NmiLatch::new();
    assert!(latch.after_instruction(true, 0, false, false) == NmiAction::Run);
    assert!(latch.after_instruction(false, 20_000_000, false, false) == NmiAction::Run);
    assert!(latch.after_instruction(false, 20_000_001, false, true) == NmiAction::Deliver);
    assert!(latch.after_instruction(true, 5, true, false) == NmiAction::Deliver);
    assert!(latch.after_instruction(false, 6, true, false) == NmiAction::Halted);
}

#[test]
fn kayplus_clock_patch() {
    let mut m = machine(VideoMode::Sy6545Crtc);
    m.rtc.host_secs = 1_000_000_000;
    m.port_out(0x20, 4);
    m.port_out(0x24, 0x12);
    m.port_out(0x20, 3);
    m.port_out(0x24, 0x34);
    m.port_out(0x20, 2);
    m.port_out(0x24, 0x56);
    m.port_out(0x20, 2);
    assert_eq!(m.port_in(0x24), 0x56);
    m.kayplus_clock_fixup = true;
    assert_eq!(m.kayplus_clock_step(0x0100), None);
    assert_eq!(m.kayplus_clock_step(0x069E), Some(0x06CE));
    assert_eq!(m.peek(0xFF5C), 12);
    assert_eq!(m.peek(0xFF5D), 34);
    assert_eq!(m.peek(0xFF5E), 56);
}

#[test]
fn rtc_bcd_and_calendar() {
    assert_eq!(izkaypro::rtc::to_bcd(59), 0x59);
    assert_eq!(izkaypro::rtc::from_bcd(0x42), 42);
    assert_eq!(izkaypro::rtc::civil_from_days(0), (1970, 1, 1));
    assert_eq!(izkaypro::rtc::civil_from_days(19723), (2024, 1, 1));
    assert_eq!(izkaypro::rtc::day_of_week(2024, 1, 1), 2);
}

fn wd_task(wd: &mut Wd1002Controller, count: u8, sector: u8, cyl: u16, sdh: u8) {
    wd.port_out(2, count);
    wd.port_out(3, sector);
    wd.port_out(4, (cyl & 0xFF) as u8);
    wd.port_out(5, (cyl >> 8) as u8);
    wd.port_out(6, sdh);
}

#[test]
fn wd1002_multi_sector_read() {
    let mut wd = wd();
    for s in 0..3u64 {
        let pattern: Vec<u8> = (0..512u32).map(|i| ((i as u64 * 7 + s * 31) % 256) as u8).collect();
        wd.image.write_at(s * 512 + 1024 * 0, &pattern).unwrap();
    }
    wd_task(&mut wd, 3, 0, 0, 0x28);
    wd.port_out(7, 0x24);
    let mut bytes = Vec::new();
    for n in 0..1536 {
        assert!(!wd.intrq);
        bytes.push(wd.port_in(0));
        if n < 1535 {
            assert!(!wd.intrq);
        }
    }
    assert!(wd.take_intrq());
    assert!(!wd.take_intrq());
    for s in 0..3usize {
        for i in 0..512usize {
            assert_eq!(bytes[s * 512 + i], ((i * 7 + s * 31) % 256) as u8);
        }
    }
}

#[test]
fn wd1002_write_then_read() {
    for sdh in [0x08u8, 0x28, 0x48, 0x68] {
        let mut wd = wd();
        let size = match (sdh >> 5) & 3 { 0 => 256, 1 => 512, 2 => 1024, _ => 128 };
        wd_task(&mut wd, 1, 3, 17, sdh | 2);
        wd.port_out(7, 0x30);
        for i in 0..size {
            wd.port_out(0, (i % 199) as u8);
        }
        assert!(wd.take_intrq());
        wd_task(&mut wd, 1, 3, 17, sdh | 2);
        wd.port_out(7, 0x20);
        for i in 0..size {
            assert_eq!(wd.port_in(0), (i % 199) as u8);
        }
        assert_eq!(wd.port_in(7) & 0x01, 0);
    }
}

#[test]
fn wd1002_format_whole_track() {
    let mut wd = wd();
    let base = ((3u64 * 4 + 1) * 17 * 512) as u64;
    wd.image.write_at(base, &vec![0xAAu8; 17 * 512]).unwrap();
    wd_task(&mut wd, 0, 0, 3, 0x29);
    wd.port_out(7, 0x50);
    for i in 0..512u32 {
        wd.port_out(0, if i < 17 { i as u8 } else { 0 });
    }
    assert!(wd.take_intrq());
    let data = wd.image.read_at(base, 17 * 512).unwrap();
    assert!(data.iter().all(|&b| b == 0));
    assert!(wd.image.formatted_tracks[3 * 4 + 1]);
}

#[test]
fn wd1002_reset_and_abort() {
    let mut wd = Wd1002Controller::new(HardDiskImage::blank());
    assert_eq!(wd.port_in(7) & 0x80, 0x80);
    wd.port_out(7, 0x20);
    assert_eq!(wd.port_in(1), 0x04);
    for _ in 0..1024 {
        wd.step();
    }
    assert_eq!(wd.port_in(7) & 0x80, 0);
    assert_eq!(wd.port_in(1), 0x01);
    wd.on_system_port_write(0x02);
    assert_eq!(wd.port_in(7) & 0x80, 0x80);
}

#[test]
fn wd1002_seek_deferred() {
    let mut wd = wd();
    wd_task(&mut wd, 0, 0, 400, 0x28);
    wd.port_out(7, 0x70);
    wd.step();
    wd.step();
    assert_eq!(wd.port_in(1), 0x10);
    assert!(wd.take_intrq());
}

#[test]
fn protected_sectors_survive_format() {
    let mut img = HardDiskImage::blank();
    let r = img.write_controller_sector(16 * 512, &vec![0u8; 512], ControllerWriteSource::FormatTrack);
    assert!(r == Ok(ControllerWriteOutcome::PreservedProtectedSector));
    assert_eq!(img.data[16 * 512], 0xFF);
    let r = img.write_controller_sector(16 * 512, &vec![0u8; 512], ControllerWriteSource::WriteData);
    assert!(r == Ok(ControllerWriteOutcome::AppliedProtectedSector));
    assert_eq!(img.data[16 * 512], 0);
    let r = img.write_controller_sector(1024, &vec![1u8; 512], ControllerWriteSource::FormatTrack);
    assert!(r == Ok(ControllerWriteOutcome::Applied));
}

#[test]
fn nmi_jump_into_video_ram_is_unsafe() {
    let mut rom = vec![0u8; 0x100];
    rom[0x66] = 0xC3;
    rom[0x67] = 0x00;
    rom[0x68] = 0x30;
    let m = KayproMachine::new(rom.clone(), VideoMode::MemoryMapped, fdc());
    assert!(m.is_rom_rank());
    assert!(!m.nmi_vector_is_safe());
    rom[0x68] = 0x40;
    let m = KayproMachine::new(rom.clone(), VideoMode::MemoryMapped, fdc());
    assert!(m.nmi_vector_is_safe());
    rom[0x68] = 0x30;
    let m = KayproMachine::new(rom, VideoMode::Sy6545Crtc, fdc());
    assert!(m.nmi_vector_is_safe());
}

#[test]
fn write_protect_refusal_drops_cursor() {
    let mut f = FloppyController::new(
        Media::from_content("p".to_string(), vec![0xE5u8; 409600], MediaFormat::DsDd, true, false, 10),
        media(409600, 0xE5, MediaFormat::DsDd),
    );
    f.put_command(0x80);
    assert!(f.read_last > 0);
    f.put_command(0xA0);
    assert_eq!(f.read_last, 0);
    f.put_data(0x11);
    assert_eq!(f.media_a().content[0], 0xE5);
}

#[test]
fn long_length_codes() {
    let mut m = media(409600, 0, MediaFormat::DsDd);
    m.track_geometry[0] = Some(TrackGeometry { n: 4, sector_count: 2, sector_base: 0 });
    let (ok, a, b) = m.sector_index(false, 0, 1);
    assert!(ok);
    assert_eq!(b - a, 2048);
    m.track_geometry[0] = Some(TrackGeometry { n: 9, sector_count: 2, sector_base: 0 });
    assert!(!m.sector_index(false, 0, 0).0);
}

#[test]
fn write_track_refused_on_protected_image() {
    let mut f = FloppyController::new(
        Media::from_content("p".to_string(), vec![0xE5u8; 409600], MediaFormat::DsDd, true, false, 10),
        media(409600, 0xE5, MediaFormat::DsDd),
    );
    f.put_command(0x80);
    f.put_command(0xF0);
    assert_eq!(f.status, 0x40);
    assert!(!f.write_track_active);
    assert_eq!(f.read_last, 0);
    f.put_data(0x11);
    assert_eq!(f.media_a().content[0], 0xE5);
}
