use izkaypro::diagnostics::{check_for_prompt, PromptMode};
use izkaypro::floppy_controller::FloppyController;
use izkaypro::kaypro_machine::KayproMachine;
use izkaypro::media::Media;
use izkaypro::config::{model_from_name, Config, DiskFormatConfig, KayproModel, VideoModeConfig};
use izkaypro::hard_disk_image::{
    build_putsysu_boot_payload, checksum16, decode_track_map, encode_track_map, has_valid_k10_boot_sector,
    has_valid_k10_defect_sector, header_bytes, is_kaypro10_bootable, k10_logical_offset, parse_format_flag,
    ranges_overlap, seed_kaypro10_from_floppy, track_index, HardDiskImage, TRACK_COUNT,
};
use izkaypro::kaypro_machine::VideoMode;
use izkaypro::keyboard::{decode_input, Command};
use izkaypro::media::MediaFormat;
use izkaypro::rtc::Rtc;
use izkaypro::screen::{translate_char, Screen};
use izkaypro::sio::{decode_baud_rate, Sio};
use izkaypro::wd1002::format_count;

#[test]
fn config_presets() {
    let mut c = Config::default();
    assert_eq!(c.get_rom_path(), "roms/81-292a.rom");
    assert!(c.get_video_mode() == VideoMode::Sy6545Crtc);
    assert!(c.get_disk_format() == MediaFormat::DsDd);
    assert_eq!(c.get_side1_sector_base(), 10);
    assert_eq!(c.get_display_name(), "Kaypro 4-84");
    assert_eq!(c.get_description(), "Kaypro 2X/4/84 (DSDD, 81-292a ROM)");
    c.apply_cli_overrides(Some("kayplus_84"), None, Some("a.img"), None);
    assert!(c.model == KayproModel::KayPlus84);
    assert_eq!(c.get_side1_sector_base(), 0);
    assert_eq!(c.get_default_disk_a(), "disks/system/kayplus_boot.img");
    c.apply_cli_overrides(Some("nonsense"), None, None, None);
    assert!(c.model == KayproModel::KayPlus84);
    c.apply_cli_overrides(None, Some("my.rom"), None, Some("b.img"));
    assert!(c.model == KayproModel::Custom);
    assert_eq!(c.get_rom_path(), "my.rom");
    assert_eq!(c.get_default_disk_a(), "a.img");
    assert_eq!(c.get_default_disk_b(), "b.img");
    assert_eq!(c.get_description(), "Custom (my.rom)");
    c.video_mode = VideoModeConfig::MemoryMapped;
    c.disk_format = DiskFormatConfig::Ssdd;
    assert!(c.get_video_mode() == VideoMode::MemoryMapped);
    assert!(c.get_disk_format() == MediaFormat::SsDd);
    assert!(model_from_name("kaypro_ii") == Some(KayproModel::KayproII));
    assert!(model_from_name("kaypro10").is_none());
    assert!(Config::load().model == KayproModel::Kaypro4_84);
}

#[test]
fn keyboard_decoding() {
    let d = decode_input(&[b'a', 0x7f, 0xE1]);
    assert_eq!(d.keys, vec![b'a', 0x08, 0x61]);
    assert!(d.commands.is_empty());
    let d = decode_input(&[0x1b, b'O', b'P', 0x1b, b'[', b'A', 0x1b, b'[', b'1', b'5', b'~', b'x']);
    assert_eq!(d.keys, vec![0xf1, b'x']);
    assert!(d.commands == vec![Command::Help, Command::SelectDiskA]);
    let d = decode_input(&[0xc3, 0xb1, 0xc3, 0x91]);
    assert_eq!(d.keys, vec![b':', b';']);
}

#[test]
fn screen_characters_and_title() {
    assert_eq!(translate_char(b'A'), 'A');
    assert_eq!(translate_char(0x80 | b'A'), 'A');
    assert_eq!(translate_char(0x00), 'ñ');
    assert_eq!(translate_char(0x7f), '▒');
    let mut s = Screen::new(true, "Kaypro 4-84");
    assert_eq!(s.title_padding(), Some((35, 36)));
    s.set_in_place(false);
    assert!(!s.in_place);
}

#[test]
fn sio_registers() {
    let mut sio = Sio::new();
    assert_eq!(decode_baud_rate(0x0F), 19200);
    assert_eq!(decode_baud_rate(0x07), 1200);
    sio.set_baud_rate_code(0x1A);
    assert_eq!(sio.baud_rate, 2400);
    sio.write_control(0x05);
    sio.write_control(0xEA);
    assert_eq!(sio.wr[5], 0xEA);
    assert!(sio.modem_lines_changed);
    sio.write_control(0x04);
    sio.write_control(0x44);
    assert_eq!(sio.character_time_us(), 100 * 100000 / 2400);
    for b in 0..5u8 {
        sio.push_received(b);
    }
    assert_eq!(sio.read_control() & 0x01, 0x01);
    assert_eq!(sio.read_data(), 0);
    sio.write_control(0x01);
    assert_eq!(sio.read_control() & 0x20, 0x20);
    sio.write_control(0x30);
    sio.write_control(0x01);
    assert_eq!(sio.read_control() & 0x20, 0);
    sio.now_us = 1000;
    sio.write_data(0x41);
    assert_eq!(sio.tx_out, vec![0x41]);
    assert_eq!(sio.read_control() & 0x04, 0);
    sio.now_us = 1000 + 100 * 100000 / 2400;
    assert_eq!(sio.read_control() & 0x04, 0x04);
    sio.write_control(0x18);
    assert!(sio.rx_fifo.is_empty());
}

#[test]
fn rtc_status_line() {
    let mut rtc = Rtc::new();
    rtc.host_secs = 86400 * 31 + 3600 * 13 + 60 * 5 + 9;
    assert_eq!(rtc.status_string(), "RTC:02/01 13:05:09");
    rtc.write_addr(0x0A);
    rtc.write_data(0x77);
    assert_eq!(rtc.read_data(), 0x77);
    rtc.write_addr(0x13);
    rtc.write_data(0xFF);
    rtc.write_addr(0x0A);
    assert_eq!(rtc.read_data(), 0);
    assert_eq!(rtc.read_addr(), 0x0A);
}

#[test]
fn hard_disk_helpers() {
    assert_eq!(checksum16(&[1, 2, 0xFF, 0xFF], 4), 0x201);
    assert_eq!(checksum16(&[1, 2, 3], 2), 3);
    assert_eq!(track_index(305, 3), Some(1223));
    assert_eq!(track_index(306, 0), None);
    assert!(ranges_overlap(0, 512, 511, 1));
    assert!(!ranges_overlap(0, 512, 512, 512));
    assert_eq!(k10_logical_offset(0, 0), Some(0));
    assert_eq!(k10_logical_offset(0, 5), Some(5 * 512 + 128));
    assert_eq!(k10_logical_offset(0, 64), None);
    assert_eq!(format_count(0, 17), 17);
    assert_eq!(format_count(5, 17), 5);
    assert_eq!(format_count(40, 17), 17);

    let mut boot = vec![0u8; 128];
    boot[0] = 0x18;
    boot[6] = 0x34;
    let sum = checksum16(&boot, 126);
    boot[126] = (sum & 0xFF) as u8;
    boot[127] = (sum >> 8) as u8;
    assert!(has_valid_k10_boot_sector(&boot));
    boot[6] = 0;
    assert!(!has_valid_k10_boot_sector(&boot));
    assert!(!has_valid_k10_boot_sector(&vec![0u8; 128]));
    assert!(!has_valid_k10_defect_sector(&vec![0u8; 512]));
    let mut map = vec![0u8; 512];
    map[3] = 7;
    map[510] = 7;
    assert!(has_valid_k10_defect_sector(&map));
    let mut poisoned = vec![0u8; 512];
    poisoned[0] = 0xFF;
    assert!(!has_valid_k10_defect_sector(&poisoned));

    let hdr = header_bytes(true);
    assert_eq!(hdr.len(), 128);
    assert_eq!(&hdr[..22], b"306c4h512z17p1l\nfmt=1\n");
    assert_eq!(parse_format_flag(&hdr), Some(true));
    assert_eq!(parse_format_flag(&header_bytes(false)), Some(false));
    assert_eq!(parse_format_flag(b"306c\nfmt= 1 \n\0\0"), Some(true));
    assert_eq!(parse_format_flag(b"306c\nfmt=2\n"), None);
    assert_eq!(parse_format_flag(&[0u8; 128]), None);

    let mut tracks = vec![false; TRACK_COUNT];
    tracks[0] = true;
    tracks[9] = true;
    tracks[1223] = true;
    let bytes = encode_track_map(&tracks);
    assert_eq!(&bytes[..8], b"K10FMTM1");
    assert_eq!(bytes[8], 0x01);
    assert_eq!(bytes[9], 0x02);
    assert_eq!(decode_track_map(&bytes), Some(tracks));
    assert_eq!(decode_track_map(b"nope"), None);
}

#[test]
fn seeding_makes_image_bootable() {
    let mut hd = HardDiskImage::blank();
    assert!(!is_kaypro10_bootable(&hd));
    assert!(!hd.is_formatted());
    let floppy: Vec<u8> = (0..409600u32).map(|i| (i % 253) as u8).collect();
    assert!(seed_kaypro10_from_floppy(&mut hd, &floppy[..100]).is_err());
    assert!(seed_kaypro10_from_floppy(&mut hd, &floppy).is_ok());
    assert!(is_kaypro10_bootable(&hd));
    assert!(hd.is_formatted());
    assert!(hd.formatted_tracks[5]);
    assert_eq!(hd.data[0], 0x18);
    assert_eq!(hd.data[8704 + 4 * 512 + 10], floppy[14 * 512 + 10]);
    let payload = build_putsysu_boot_payload(&floppy).unwrap();
    assert_eq!(payload.len(), 14 * 512);
    assert_eq!(payload[12 * 512], floppy[18 * 512]);
}

#[test]
fn video_ram_self_tests() {
    let mut crtc = izkaypro::sy6545::Sy6545::new();
    crtc.vram[0x10] = 0x99;
    crtc.vram[0x810] = 0x07;
    let before = crtc.vram.clone();
    let r = izkaypro::diagnostics::test_vram(&mut crtc);
    assert!(r.passed);
    assert_eq!(r.message, "OK (0x0000-0x07FF)");
    assert!(crtc.vram == before);
    let r = izkaypro::diagnostics::test_vram_via_ports(&mut crtc);
    assert!(r.passed);
    assert!(crtc.vram == before);
    let r = izkaypro::diagnostics::test_attr_ram(&mut crtc);
    assert!(r.passed);
    assert_eq!(r.name, "Attribute RAM");
    assert!(crtc.vram == before);
}

#[test]
fn prompt_detection() {
    let media = |_| Media::from_content("m".to_string(), vec![0xE5u8; 409600], MediaFormat::DsDd, false, false, 10);
    let fdc = FloppyController::new(media(0), media(1));
    let mut m = KayproMachine::new(vec![0u8; 4096], VideoMode::Sy6545Crtc, fdc);
    assert_eq!(check_for_prompt(&m, PromptMode::AnyDrivePrompt), None);
    m.crtc.vram[0x7FF] = b'A';
    m.crtc.vram[0x000] = b'0' | 0x80;
    m.crtc.vram[0x001] = b'>';
    assert_eq!(check_for_prompt(&m, PromptMode::StrictA0), Some(b"A0>".to_vec()));
    assert_eq!(check_for_prompt(&m, PromptMode::AnyDrivePrompt), Some(b"A0>".to_vec()));
    m.crtc.vram[0x100] = b'B';
    m.crtc.vram[0x101] = b'>';
    assert_eq!(check_for_prompt(&m, PromptMode::AnyDrivePrompt), Some(b"B>".to_vec()));
}
