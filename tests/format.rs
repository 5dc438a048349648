use izkaypro::floppy_controller::FloppyController;
use izkaypro::media::{Media, MediaFormat};

fn blank_media(len: usize, fill: u8, format: MediaFormat, side1_sector_base: u8) -> Media {
    Media::from_content("test".to_string(), vec![fill; len], format, false, false, side1_sector_base)
}

fn controller(image_size: usize, fill: u8, format: MediaFormat, side1_sector_base: u8) -> FloppyController {
    FloppyController::new(
        blank_media(409600, 0xE5, MediaFormat::DsDd, side1_sector_base),
        blank_media(image_size, fill, format, side1_sector_base),
    )
}

fn build_format_stream(density_sd: bool, track: u8, head: u8, n: u8, sectors: &[u8], fill: u8) -> Vec<u8> {
    let sector_size = 128usize << (n as usize);
    let mut stream = Vec::new();
    if density_sd {
        for _ in 0..16 { stream.push(0xFF); }
        for &sec_id in sectors {
            for _ in 0..3 { stream.push(0x00); }
            stream.push(0xFE);
            stream.push(track);
            stream.push(head);
            stream.push(sec_id);
            stream.push(n);
            stream.push(0xF7);
            for _ in 0..11 { stream.push(0xFF); }
            for _ in 0..3 { stream.push(0x00); }
            stream.push(0xFB);
            for _ in 0..sector_size { stream.push(fill); }
            stream.push(0xF7);
            for _ in 0..10 { stream.push(0xFF); }
        }
        while stream.len() < 3125 {
            stream.push(0xFF);
        }
    } else {
        for _ in 0..80 { stream.push(0x4E); }
        for &sec_id in sectors {
            for _ in 0..12 { stream.push(0x00); }
            for _ in 0..3 { stream.push(0xF5); }
            stream.push(0xFE);
            stream.push(track);
            stream.push(head);
            stream.push(sec_id);
            stream.push(n);
            stream.push(0xF7);
            for _ in 0..22 { stream.push(0x4E); }
            for _ in 0..12 { stream.push(0x00); }
            for _ in 0..3 { stream.push(0xF5); }
            stream.push(0xFB);
            for _ in 0..sector_size { stream.push(fill); }
            stream.push(0xF7);
            for _ in 0..24 { stream.push(0x4E); }
        }
        while stream.len() < 12000 {
            stream.push(0x4E);
        }
    }
    stream
}

fn apply_skew(sector_count: u8, sector_base: u8, skew: u8) -> Vec<u8> {
    if skew == 0 {
        return (sector_base..sector_base + sector_count).collect();
    }
    let mut result = vec![0u8; sector_count as usize];
    let mut pos = 0usize;
    for i in 0..sector_count {
        result[pos] = sector_base + i;
        pos = (pos + skew as usize) % sector_count as usize;
    }
    result
}

fn write_track(fdc: &mut FloppyController, phys_track: u8, stream: &[u8]) {
    fdc.put_track(phys_track);
    fdc.head_position = phys_track;
    fdc.put_command(0xF0);
    for &byte in stream {
        fdc.put_data(byte);
        if !fdc.write_track_active {
            break;
        }
    }
    if fdc.write_track_active {
        fdc.put_command(0xD0);
    }
}

fn read_sector(fdc: &mut FloppyController, sec_id: u8, sector_size: usize) -> Vec<u8> {
    fdc.put_sector(sec_id);
    fdc.put_command(0x80);
    let mut data = Vec::new();
    for _ in 0..sector_size {
        data.push(fdc.get_data());
    }
    for _ in 0..20 {
        if fdc.get_status() & 0x01 == 0 {
            break;
        }
    }
    data
}

fn format_and_verify(
    image_size: usize,
    format: MediaFormat,
    side1_sector_base: u8,
    tracks_config: &[(bool, u8, u8, u8, u8)],
    num_tracks: u8,
    sides: u8,
) -> usize {
    let mut fdc = controller(image_size, 0xE5, format, side1_sector_base);
    fdc.set_drive(1);
    fdc.set_motor(true);
    for phys_track in 0..num_tracks {
        for side in 0..sides {
            fdc.set_side(side == 1);
            let idx = if tracks_config.len() == 1 || phys_track == 0 { 0 } else { 1 };
            let (single_density, n, spt, sector_base, skew) = tracks_config[idx];
            fdc.set_single_density(single_density);
            let sectors = apply_skew(spt, sector_base, skew);
            let stream = build_format_stream(single_density, phys_track, side, n, &sectors, 0xE5);
            write_track(&mut fdc, phys_track, &stream);
        }
    }
    let mut failed = 0;
    for phys_track in 0..num_tracks {
        for side in 0..sides {
            fdc.set_side(side == 1);
            let idx = if tracks_config.len() == 1 || phys_track == 0 { 0 } else { 1 };
            let (single_density, n, spt, sector_base, _skew) = tracks_config[idx];
            let sector_size = 128usize << (n as usize);
            fdc.set_single_density(single_density);
            fdc.head_position = phys_track;
            fdc.put_track(phys_track);
            for sec_idx in 0..spt {
                let data = read_sector(&mut fdc, sector_base + sec_idx, sector_size);
                if !data.iter().all(|&b| b == 0xE5) {
                    failed += 1;
                }
            }
        }
    }
    failed
}

#[test]
fn test_osborne_sssd() {
    let failures = format_and_verify(102400, MediaFormat::SsSd, 0, &[(true, 1, 10, 1, 1)], 40, 1);
    assert_eq!(failures, 0, "Osborne SSSD: {} sectors failed", failures);
}

#[test]
fn test_osborne_ssdd() {
    let failures = format_and_verify(204800, MediaFormat::SsDd, 0, &[(true, 0, 18, 1, 1)], 40, 1);
    assert_eq!(failures, 0, "Osborne SSDD: {} sectors failed", failures);
}

#[test]
fn test_xerox820_sssd() {
    let failures = format_and_verify(204800, MediaFormat::SsDd, 0, &[(false, 2, 10, 0, 0)], 40, 1);
    assert_eq!(failures, 0, "Xerox 820 SSSD: {} sectors failed", failures);
}

#[test]
fn test_xerox820_dssd() {
    let failures = format_and_verify(204800, MediaFormat::SsDd, 0, &[(false, 3, 5, 1, 3)], 40, 1);
    assert_eq!(failures, 0, "Xerox 820 DSSD: {} sectors failed", failures);
}

#[test]
fn test_xerox820ii_ssdd() {
    let failures = format_and_verify(204800, MediaFormat::SsDd, 0, &[(true, 0, 18, 1, 1), (false, 1, 17, 1, 3)], 40, 1);
    assert_eq!(failures, 0, "Xerox 820-II SSDD: {} sectors failed", failures);
}

#[test]
fn test_xerox820ii_dsdd() {
    let failures = format_and_verify(409600, MediaFormat::DsDd, 0, &[(true, 0, 18, 1, 1), (false, 1, 17, 1, 3)], 40, 2);
    assert_eq!(failures, 0, "Xerox 820-II DSDD: {} sectors failed", failures);
}

#[test]
fn test_kaypro_ssdd() {
    let failures = format_and_verify(409600, MediaFormat::DsDd, 0, &[(false, 3, 5, 1, 3)], 40, 1);
    assert_eq!(failures, 0, "Kaypro SSDD: {} sectors failed", failures);
}

#[test]
fn test_kaypro_dsdd() {
    let failures = format_and_verify(409600, MediaFormat::DsDd, 0, &[(false, 2, 10, 0, 0)], 40, 2);
    assert_eq!(failures, 0, "Kaypro DSDD: {} sectors failed", failures);
}

#[test]
fn test_advent_ssdd() {
    let failures = format_and_verify(409600, MediaFormat::DsDd, 0, &[(false, 3, 5, 1, 3)], 40, 1);
    assert_eq!(failures, 0, "Advent 1k SSDD: {} sectors failed", failures);
}

#[test]
fn test_advent_dsdd() {
    let failures = format_and_verify(409600, MediaFormat::DsDd, 0, &[(false, 3, 5, 1, 3)], 40, 2);
    assert_eq!(failures, 0, "Advent 1k DSDD: {} sectors failed", failures);
}

fn build_format_stream_unique(density_sd: bool, track: u8, head: u8, n: u8, sectors: &[u8]) -> Vec<u8> {
    let sector_size = 128usize << (n as usize);
    let mut stream = Vec::new();
    if density_sd {
        for _ in 0..16 { stream.push(0xFF); }
        for &sec_id in sectors {
            let fill = sec_id.wrapping_add(track).wrapping_add(head * 0x40);
            for _ in 0..3 { stream.push(0x00); }
            stream.push(0xFE);
            stream.push(track);
            stream.push(head);
            stream.push(sec_id);
            stream.push(n);
            stream.push(0xF7);
            for _ in 0..11 { stream.push(0xFF); }
            for _ in 0..3 { stream.push(0x00); }
            stream.push(0xFB);
            for _ in 0..sector_size { stream.push(fill); }
            stream.push(0xF7);
            for _ in 0..10 { stream.push(0xFF); }
        }
        while stream.len() < 3125 { stream.push(0xFF); }
    } else {
        for _ in 0..80 { stream.push(0x4E); }
        for &sec_id in sectors {
            let fill = sec_id.wrapping_add(track).wrapping_add(head * 0x40);
            for _ in 0..12 { stream.push(0x00); }
            for _ in 0..3 { stream.push(0xF5); }
            stream.push(0xFE);
            stream.push(track);
            stream.push(head);
            stream.push(sec_id);
            stream.push(n);
            stream.push(0xF7);
            for _ in 0..22 { stream.push(0x4E); }
            for _ in 0..12 { stream.push(0x00); }
            for _ in 0..3 { stream.push(0xF5); }
            stream.push(0xFB);
            for _ in 0..sector_size { stream.push(fill); }
            stream.push(0xF7);
            for _ in 0..24 { stream.push(0x4E); }
        }
        while stream.len() < 12000 { stream.push(0x4E); }
    }
    stream
}

#[test]
fn test_xerox820ii_dsdd_mixed_density() {
    let num_tracks: u8 = 40;
    let sides: u8 = 2;
    let mut fdc = controller(409600, 0x00, MediaFormat::DsDd, 0);
    fdc.set_drive(1);
    fdc.set_motor(true);
    for phys_track in 0..num_tracks {
        for side in 0..sides {
            let side_2 = side == 1;
            fdc.set_side(side_2);
            let (single_density, n, spt, sector_base) = if phys_track == 0 && !side_2 {
                (true, 0u8, 18u8, 1u8)
            } else {
                (false, 1u8, 17u8, 1u8)
            };
            fdc.set_single_density(single_density);
            let sectors: Vec<u8> = (sector_base..sector_base + spt).collect();
            let stream = build_format_stream_unique(single_density, phys_track, side, n, &sectors);
            write_track(&mut fdc, phys_track, &stream);
        }
    }
    let mut failed_sectors = 0;
    for phys_track in 0..num_tracks {
        for side in 0..sides {
            let side_2 = side == 1;
            fdc.set_side(side_2);
            let (single_density, n, spt, sector_base) = if phys_track == 0 && !side_2 {
                (true, 0u8, 18u8, 1u8)
            } else {
                (false, 1u8, 17u8, 1u8)
            };
            let sector_size = 128usize << (n as usize);
            fdc.set_single_density(single_density);
            fdc.head_position = phys_track;
            fdc.put_track(phys_track);
            for sec_idx in 0..spt {
                let sec_id = sector_base + sec_idx;
                let expected_fill = sec_id.wrapping_add(phys_track).wrapping_add(side * 0x40);
                let data = read_sector(&mut fdc, sec_id, sector_size);
                if !data.iter().all(|&b| b == expected_fill) {
                    failed_sectors += 1;
                }
            }
        }
    }
    assert_eq!(failed_sectors, 0, "Xerox 820-II DSDD mixed-density: {} sectors failed", failed_sectors);
}

#[test]
fn test_ssdd_disk_in_dsdd_machine() {
    let mut fdc = controller(204800, 0xE5, MediaFormat::SsDd, 10);
    fdc.set_drive(1);
    fdc.set_motor(true);

    fdc.put_command(0xD0);
    fdc.put_command(0x00);
    assert_eq!(fdc.head_position, 0, "Head should be at track 0 after Restore");
    assert!(fdc.raise_nmi, "Restore should raise NMI");
    fdc.raise_nmi = false;

    let status = fdc.get_status();
    assert!(status & 0x04 != 0, "Track 0 bit should be set");

    fdc.set_side(false);
    fdc.put_command(0xC0);
    assert!(fdc.raise_nmi, "Read Address side 0 should raise NMI");
    fdc.raise_nmi = false;
    for _ in 0..20 {
        let s = fdc.get_status();
        if s & 0x01 == 0 {
            break;
        }
    }
    let status = fdc.get_status();
    assert!(status & 0x10 == 0, "Side 0 Read Address should NOT have RNF error");
    for _ in 0..6 {
        fdc.get_data();
    }

    fdc.set_side(true);
    fdc.put_command(0xC0);
    assert!(fdc.raise_nmi, "Read Address side 1 should raise NMI");
    fdc.raise_nmi = false;
    let mut final_status = fdc.get_status();
    for _ in 0..20 {
        final_status = fdc.get_status();
        if final_status & 0x01 == 0 {
            break;
        }
    }
    assert!(final_status & 0x10 != 0, "Side 1 Read Address should have RNF error");

    fdc.set_side(false);
    fdc.head_position = 0;
    fdc.put_sector(0);
    fdc.put_command(0x80);
    assert!(fdc.raise_nmi, "Read Sector should raise NMI");
    fdc.raise_nmi = false;
    let status = fdc.get_status();
    assert!(status & 0x01 != 0, "Read Sector should be BUSY");
    assert!(status & 0x10 == 0, "Read Sector side 0 sector 0 should NOT have RNF");
    let mut sector_data = Vec::new();
    for _ in 0..512 {
        sector_data.push(fdc.get_data());
    }
    assert!(sector_data.iter().all(|&b| b == 0xE5), "Sector data should be all 0xE5");
}
