use rustos::fat::bytes_to_words;
use rustos::fat::lba28_drive_head;
use rustos::fat::lba28_in_range;
use rustos::fat::lba48_high_bytes;
use rustos::fat::lba_low_bytes;
use rustos::fat::wait_drq_step;
use rustos::fat::wait_not_busy_step;
use rustos::fat::words_to_bytes;
use rustos::fat::AtaDrive;
use rustos::fat::AtaPoll;
use rustos::fat::AtaPioDevice;
use rustos::fat::BlockDevice;
use rustos::fat::DiskIoError;
use rustos::fat::FatDisk;
use rustos::fat::MemBlockDevice;
use rustos::fat::SeekFrom;
use rustos::fat::FAT_SECTOR_SIZE;

#[test]
fn disk_io_error_constructors() {
    assert!(DiskIoError::Interrupted.is_interrupted());
    assert!(!DiskIoError::Timeout.is_interrupted());
    assert_eq!(DiskIoError::new_unexpected_eof_error(), DiskIoError::UnexpectedEof);
    assert_eq!(DiskIoError::new_write_zero_error(), DiskIoError::WriteZero);
}

#[test]
fn mem_device_construction() {
    let d = MemBlockDevice::new_zeroed(3);
    assert_eq!(d.as_bytes().len(), 3 * FAT_SECTOR_SIZE);
    assert!(d.as_bytes().iter().all(|&b| b == 0));

    assert_eq!(
        MemBlockDevice::from_bytes(vec![0u8; 100]).err(),
        Some(DiskIoError::InvalidInput)
    );
    let ok = MemBlockDevice::from_bytes(vec![7u8; 2 * FAT_SECTOR_SIZE]).unwrap();
    assert_eq!(ok.as_bytes()[1023], 7);
}

#[test]
fn mem_device_sector_roundtrip() {
    let mut d = MemBlockDevice::new_zeroed(2);
    assert_eq!(d.sector_count(), 2);

    let mut sector = vec![0u8; FAT_SECTOR_SIZE];
    for (i, b) in sector.iter_mut().enumerate() {
        *b = (i % 251) as u8;
    }
    d.write_sector(1, &sector).unwrap();
    let mut out = vec![0u8; FAT_SECTOR_SIZE];
    d.read_sector(1, &mut out).unwrap();
    assert_eq!(out, sector);

    // Sector 0 stayed zero.
    d.read_sector(0, &mut out).unwrap();
    assert!(out.iter().all(|&b| b == 0));

    // Out of range is rejected.
    assert_eq!(d.read_sector(2, &mut out), Err(DiskIoError::InvalidInput));
    assert_eq!(d.write_sector(9, &sector), Err(DiskIoError::InvalidInput));
}

#[test]
fn mem_device_bytes_mut_edits_show_through() {
    let mut d = MemBlockDevice::new_zeroed(1);
    d.as_bytes_mut()[17] = 0xAB;
    let mut out = vec![0u8; FAT_SECTOR_SIZE];
    d.read_sector(0, &mut out).unwrap();
    assert_eq!(out[17], 0xAB);
}

#[test]
fn fat_disk_read_across_sector_boundary() {
    let mut data = vec![0u8; 2 * FAT_SECTOR_SIZE];
    for (i, b) in data.iter_mut().enumerate() {
        *b = (i % 256) as u8;
    }
    let dev = MemBlockDevice::from_bytes(data.clone()).unwrap();
    let mut disk = FatDisk::new(dev);

    assert_eq!(disk.seek(SeekFrom::Start(510)).unwrap(), 510);
    let mut buf = vec![0u8; 4];
    assert_eq!(disk.read(&mut buf).unwrap(), 4);
    assert_eq!(buf, data[510..514].to_vec());

    // At the end of the stream a read returns nothing.
    assert_eq!(disk.seek(SeekFrom::End(0)).unwrap(), 1024);
    assert_eq!(disk.read(&mut buf).unwrap(), 0);
}

#[test]
fn fat_disk_write_read_modify() {
    let dev = MemBlockDevice::new_zeroed(2);
    let mut disk = FatDisk::new(dev);

    disk.seek(SeekFrom::Start(510)).unwrap();
    assert_eq!(disk.write(&vec![1, 2, 3, 4]).unwrap(), 4);
    assert_eq!(disk.flush(), Ok(()));

    disk.seek(SeekFrom::Start(508)).unwrap();
    let mut buf = vec![0u8; 8];
    assert_eq!(disk.read(&mut buf).unwrap(), 8);
    assert_eq!(buf, vec![0, 0, 1, 2, 3, 4, 0, 0]);
}

#[test]
fn fat_disk_write_stops_at_end() {
    let dev = MemBlockDevice::new_zeroed(1);
    let mut disk = FatDisk::new(dev);
    disk.seek(SeekFrom::Start(508)).unwrap();
    // Only four bytes fit before the end of the stream.
    assert_eq!(disk.write(&vec![9u8; 100]).unwrap(), 4);
    assert_eq!(disk.write(&vec![9u8; 100]).unwrap(), 0);
}

#[test]
fn fat_disk_seek_rules() {
    let dev = MemBlockDevice::new_zeroed(2);
    let mut disk = FatDisk::new(dev);

    assert_eq!(disk.seek(SeekFrom::Start(0)).unwrap(), 0);
    assert_eq!(disk.seek(SeekFrom::End(-24)).unwrap(), 1000);
    assert_eq!(disk.seek(SeekFrom::Current(10)).unwrap(), 1010);
    assert_eq!(disk.seek(SeekFrom::Current(-1010)).unwrap(), 0);

    assert_eq!(disk.seek(SeekFrom::Current(-1)), Err(DiskIoError::InvalidInput));
    assert_eq!(disk.seek(SeekFrom::Start(1025)), Err(DiskIoError::InvalidInput));
    assert_eq!(disk.seek(SeekFrom::End(1)), Err(DiskIoError::InvalidInput));
    // A failed seek leaves the position alone.
    assert_eq!(disk.seek(SeekFrom::Current(0)).unwrap(), 0);
}

#[test]
fn ata_identify_lba28_only() {
    let mut dev = AtaPioDevice::primary_master();
    assert_eq!(dev.drive, AtaDrive::Master);
    assert_eq!(dev.io_base, 0x1F0);
    assert_eq!(dev.ctrl_base, 0x3F6);

    let mut id = vec![0u16; 256];
    id[60] = 0x5678;
    id[61] = 0x1234;
    assert_eq!(dev.apply_identify(&id), Ok(()));
    assert_eq!(dev.total_sectors, 0x1234_5678);
    assert!(!dev.lba48);
}

#[test]
fn ata_identify_prefers_lba48() {
    let mut dev = AtaPioDevice::primary_slave();
    assert_eq!(dev.drive, AtaDrive::Slave);
    let mut id = vec![0u16; 256];
    id[60] = 0x5678;
    id[61] = 0x1234;
    id[83] = 1 << 10;
    id[100] = 0x0001;
    id[101] = 0x0002;
    id[102] = 0x0003;
    id[103] = 0x0004;
    assert_eq!(dev.apply_identify(&id), Ok(()));
    assert!(dev.lba48);
    assert_eq!(dev.total_sectors, 0x0004_0003_0002_0001);
}

#[test]
fn ata_identify_empty_device_not_present() {
    let mut dev = AtaPioDevice::new(0x170, 0x376, AtaDrive::Master);
    let id = vec![0u16; 256];
    assert_eq!(dev.apply_identify(&id), Err(DiskIoError::NotPresent));
}

#[test]
fn ata_status_polling_decisions() {
    assert_eq!(wait_not_busy_step(0x80), AtaPoll::Wait);
    assert_eq!(wait_not_busy_step(0xA1), AtaPoll::Wait);
    assert_eq!(wait_not_busy_step(0x20), AtaPoll::Fail(DiskIoError::DeviceFault));
    assert_eq!(wait_not_busy_step(0x01), AtaPoll::Fail(DiskIoError::InvalidInput));
    assert_eq!(wait_not_busy_step(0x58), AtaPoll::Ready);
    assert_eq!(wait_not_busy_step(0x00), AtaPoll::Ready);

    assert_eq!(wait_drq_step(0x80), AtaPoll::Wait);
    assert_eq!(wait_drq_step(0x20), AtaPoll::Fail(DiskIoError::DeviceFault));
    assert_eq!(wait_drq_step(0x01), AtaPoll::Fail(DiskIoError::InvalidInput));
    assert_eq!(wait_drq_step(0x08), AtaPoll::Ready);
    assert_eq!(wait_drq_step(0x40), AtaPoll::Wait);
}

#[test]
fn ata_register_byte_splits() {
    assert!(lba28_in_range(0x0FFF_FFFF));
    assert!(!lba28_in_range(0x1000_0000));

    assert_eq!(lba_low_bytes(0x00AB_CDEF), (0xEF, 0xCD, 0xAB));
    assert_eq!(lba48_high_bytes(0x0000_7766_5544_3322), (0x55, 0x66, 0x77));

    assert_eq!(lba28_drive_head(AtaDrive::Master, 0x0ABC_DEF0), 0xEA);
    assert_eq!(lba28_drive_head(AtaDrive::Slave, 0x0ABC_DEF0), 0xFA);
    assert_eq!(AtaDrive::Master.select_bits(), 0);
    assert_eq!(AtaDrive::Slave.select_bits(), 0x10);
}

#[test]
fn pio_word_packing_roundtrip() {
    let words = vec![0x1234u16, 0xABCD, 0x0001];
    let bytes = words_to_bytes(&words);
    assert_eq!(bytes, vec![0x34, 0x12, 0xCD, 0xAB, 0x01, 0x00]);
    assert_eq!(bytes_to_words(&bytes), words);
}
