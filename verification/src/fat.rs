//! Disk sector devices and the byte-stream adapter over them.
//!
//! A `BlockDevice` provides raw sector read/write; `MemBlockDevice` is the
//! in-memory implementation, and `FatDisk` turns any sector device into the
//! positioned byte stream a filesystem driver consumes. The legacy ATA
//! controller's decision logic — what its identify data means, which bytes
//! go into which register, when a polled status ends the wait — lives here
//! too; the port reads and writes themselves belong to the hardware side.

use vstd::prelude::*;

verus! {

/// Bytes per sector, fixed for this disk stack.
pub const FAT_SECTOR_SIZE: usize = 512;

/// Errors of the sector and byte-stream layer.
#[derive(Clone, Copy, Debug, Eq, PartialEq, Structural)]
pub enum DiskIoError {
    Interrupted,
    UnexpectedEof,
    WriteZero,
    InvalidInput,
    Timeout,
    DeviceFault,
    NotPresent,
}

impl DiskIoError {
    /// Whether the operation was interrupted and may be retried.
    pub fn is_interrupted(&self) -> (r: bool)
        ensures
            r == (*self == DiskIoError::Interrupted),
    {
        matches!(self, DiskIoError::Interrupted)
    }

    /// The error reported when a read ends before filling its buffer.
    pub fn new_unexpected_eof_error() -> (r: DiskIoError)
        ensures
            r == DiskIoError::UnexpectedEof,
    {
        DiskIoError::UnexpectedEof
    }

    /// The error reported when a write consumes no bytes.
    pub fn new_write_zero_error() -> (r: DiskIoError)
        ensures
            r == DiskIoError::WriteZero,
    {
        DiskIoError::WriteZero
    }
}

/// Raw sector access for a storage backend. The device's bytes are modeled
/// by `contents()`: a whole number of sectors that reads and writes address
/// sector by sector. A device may fail any operation — hardware does — but
/// what it reports on success is pinned down.
pub trait BlockDevice: Sized {
    /// The bytes the device holds.
    spec fn contents(&self) -> Seq<u8>;

    /// The device holds no more than a 64-bit byte count can address; a
    /// trailing partial sector, if any, is unreachable through sectors.
    proof fn contents_wf(&self)
        ensures
            self.contents().len() <= u64::MAX,
    ;

    /// Number of sectors.
    fn sector_count(&self) -> (r: u64)
        ensures
            r == self.contents().len() as int / (FAT_SECTOR_SIZE as int),
    ;

    /// Read sector `lba` into `out`. On success, `out` holds exactly that
    /// sector of the contents; the contents themselves never move.
    fn read_sector(&mut self, lba: u64, out: &mut Vec<u8>) -> (r: Result<(), DiskIoError>)
        requires
            old(out).len() == FAT_SECTOR_SIZE,
        ensures
            final(self).contents() == old(self).contents(),
            final(out).len() == FAT_SECTOR_SIZE,
            r is Ok ==> {
                &&& (lba + 1) * FAT_SECTOR_SIZE <= old(self).contents().len()
                &&& final(out)@ == old(self).contents().subrange(
                    lba as int * FAT_SECTOR_SIZE,
                    lba as int * FAT_SECTOR_SIZE + FAT_SECTOR_SIZE,
                )
            },
    ;

    /// Write `input` as sector `lba`. On success the contents hold `input`
    /// at that sector and are otherwise unchanged; the length never moves.
    fn write_sector(&mut self, lba: u64, input: &Vec<u8>) -> (r: Result<(), DiskIoError>)
        requires
            input.len() == FAT_SECTOR_SIZE,
        ensures
            final(self).contents().len() == old(self).contents().len(),
            r is Ok ==> {
                &&& (lba + 1) * FAT_SECTOR_SIZE <= old(self).contents().len()
                &&& final(self).contents() == old(self).contents().subrange(
                    0,
                    lba as int * FAT_SECTOR_SIZE,
                ) + input@ + old(self).contents().subrange(
                    lba as int * FAT_SECTOR_SIZE + FAT_SECTOR_SIZE,
                    old(self).contents().len() as int,
                )
            },
    ;

    /// Push buffered writes out; the contents do not change.
    fn flush(&mut self) -> (r: Result<(), DiskIoError>)
        ensures
            final(self).contents() == old(self).contents(),
    ;
}

/// Simple in-memory block device, for development and tests.
pub struct MemBlockDevice {
    data: Vec<u8>,
}

impl View for MemBlockDevice {
    type V = Seq<u8>;

    closed spec fn view(&self) -> Seq<u8> {
        self.data@
    }
}

impl MemBlockDevice {
    /// A zero-filled device of `sectors` sectors.
    pub fn new_zeroed(sectors: u64) -> (d: MemBlockDevice)
        requires
            sectors * FAT_SECTOR_SIZE <= usize::MAX,
        ensures
            d@.len() == sectors * FAT_SECTOR_SIZE,
            forall|i: int| 0 <= i < d@.len() ==> d@[i] == 0u8,
    {
        let bytes: usize = (sectors as usize) * FAT_SECTOR_SIZE;
        let mut data: Vec<u8> = Vec::new();
        let mut i: usize = 0;
        while i < bytes
            invariant
                i <= bytes,
                data.len() == i,
                forall|j: int| 0 <= j < i ==> data[j] == 0u8,
            decreases bytes - i,
        {
            data.push(0);
            i = i + 1;
        }
        MemBlockDevice { data }
    }

    /// Adopt `data` as the device's bytes; rejected unless it is a whole
    /// number of sectors.
    pub fn from_bytes(data: Vec<u8>) -> (r: Result<MemBlockDevice, DiskIoError>)
        ensures
            match r {
                Ok(d) => data.len() % FAT_SECTOR_SIZE == 0 && d@ == data@,
                Err(e) => data.len() % FAT_SECTOR_SIZE != 0 && e == DiskIoError::InvalidInput,
            },
    {
        if data.len() % FAT_SECTOR_SIZE != 0 {
            return Err(DiskIoError::InvalidInput);
        }
        Ok(MemBlockDevice { data })
    }

    /// The device's bytes.
    pub fn as_bytes(&self) -> (r: &Vec<u8>)
        ensures
            r@ == self@,
    {
        &self.data
    }

    /// The device's bytes, writable in place.
    pub fn as_bytes_mut(&mut self) -> (r: &mut Vec<u8>)
        ensures
            (*r)@ == old(self)@,
            final(self)@ == (*final(r))@,
    {
        &mut self.data
    }

    /// Byte range of sector `lba`, rejected when it falls outside the data.
    fn sector_bounds(&self, lba: u64) -> (r: Result<(usize, usize), DiskIoError>)
        ensures
            match r {
                Ok(se) => {
                    &&& se.0 == lba * FAT_SECTOR_SIZE
                    &&& se.1 == se.0 + FAT_SECTOR_SIZE
                    &&& se.1 <= self@.len()
                },
                Err(e) => e == DiskIoError::InvalidInput && (lba + 1) * FAT_SECTOR_SIZE
                    > self@.len(),
            },
    {
        proof {
            vstd::std_specs::vec::axiom_spec_len(&self.data);
        }
        if lba > (usize::MAX as u64) {
            proof {
                assert((lba + 1) * FAT_SECTOR_SIZE > usize::MAX) by (nonlinear_arith)
                    requires
                        lba as int > usize::MAX,
                ;
            }
            return Err(DiskIoError::InvalidInput);
        }
        let lba_usize = lba as usize;
        let limit: usize = (usize::MAX - FAT_SECTOR_SIZE) / FAT_SECTOR_SIZE;
        if lba_usize > limit {
            proof {
                assert(lba as int * FAT_SECTOR_SIZE + FAT_SECTOR_SIZE > usize::MAX)
                    by (nonlinear_arith)
                    requires
                        lba as int > ((usize::MAX - FAT_SECTOR_SIZE) as int) / (
                        FAT_SECTOR_SIZE as int),
                ;
                assert(self@.len() <= usize::MAX) by {
                    vstd::std_specs::vec::axiom_spec_len(&self.data);
                }
            }
            return Err(DiskIoError::InvalidInput);
        }
        proof {
            assert(lba_usize as int * FAT_SECTOR_SIZE + FAT_SECTOR_SIZE <= usize::MAX)
                by (nonlinear_arith)
                requires
                    lba_usize as int <= ((usize::MAX - FAT_SECTOR_SIZE) as int) / (
                    FAT_SECTOR_SIZE as int),
            ;
        }
        let start = lba_usize * FAT_SECTOR_SIZE;
        let end = start + FAT_SECTOR_SIZE;
        if end > self.data.len() {
            return Err(DiskIoError::InvalidInput);
        }
        Ok((start, end))
    }
}

impl BlockDevice for MemBlockDevice {
    closed spec fn contents(&self) -> Seq<u8> {
        self.data@
    }

    proof fn contents_wf(&self) {
        vstd::std_specs::vec::axiom_spec_len(&self.data);
    }

    fn sector_count(&self) -> (r: u64) {
        (self.data.len() / FAT_SECTOR_SIZE) as u64
    }

    fn read_sector(&mut self, lba: u64, out: &mut Vec<u8>) -> (r: Result<(), DiskIoError>)
        ensures
            r is Ok <==> (lba + 1) * FAT_SECTOR_SIZE <= old(self).contents().len(),
            r matches Err(e) ==> e == DiskIoError::InvalidInput,
    {
        let (start, _end) = match self.sector_bounds(lba) {
            Ok(se) => se,
            Err(e) => {
                return Err(e);
            },
        };
        let mut i: usize = 0;
        while i < FAT_SECTOR_SIZE
            invariant
                i <= FAT_SECTOR_SIZE,
                out.len() == FAT_SECTOR_SIZE,
                start + FAT_SECTOR_SIZE <= self.data.len(),
                self@ == old(self)@,
                forall|j: int| 0 <= j < i ==> out[j] == self.data[start + j],
                forall|j: int| i <= j < FAT_SECTOR_SIZE ==> out[j] == old(out)[j],
            decreases FAT_SECTOR_SIZE - i,
        {
            let b = self.data[start + i];
            out.set(i, b);
            i = i + 1;
        }
        proof {
            assert(out@ =~= old(self).contents().subrange(
                lba as int * FAT_SECTOR_SIZE,
                lba as int * FAT_SECTOR_SIZE + FAT_SECTOR_SIZE,
            ));
        }
        Ok(())
    }

    fn write_sector(&mut self, lba: u64, input: &Vec<u8>) -> (r: Result<(), DiskIoError>)
        ensures
            r is Ok <==> (lba + 1) * FAT_SECTOR_SIZE <= old(self).contents().len(),
            r matches Err(e) ==> e == DiskIoError::InvalidInput,
            r is Err ==> final(self).contents() == old(self).contents(),
    {
        let (start, _end) = match self.sector_bounds(lba) {
            Ok(se) => se,
            Err(e) => {
                return Err(e);
            },
        };
        let mut i: usize = 0;
        while i < FAT_SECTOR_SIZE
            invariant
                i <= FAT_SECTOR_SIZE,
                input.len() == FAT_SECTOR_SIZE,
                start + FAT_SECTOR_SIZE <= self.data.len(),
                self.data.len() == old(self)@.len(),
                start == lba * FAT_SECTOR_SIZE,
                forall|j: int| 0 <= j < i ==> self.data[start + j] == input[j],
                forall|j: int|
                    0 <= j < self.data.len() && !(start <= j < start + i) ==> self.data[j] == old(
                        self,
                    )@[j],
            decreases FAT_SECTOR_SIZE - i,
        {
            let b = input[i];
            self.data.set(start + i, b);
            i = i + 1;
        }
        proof {
            assert(self.contents() =~= old(self).contents().subrange(
                0,
                lba as int * FAT_SECTOR_SIZE,
            ) + input@ + old(self).contents().subrange(
                lba as int * FAT_SECTOR_SIZE + FAT_SECTOR_SIZE,
                old(self).contents().len() as int,
            ));
        }
        Ok(())
    }

    fn flush(&mut self) -> (r: Result<(), DiskIoError>) {
        Ok(())
    }
}

/// Which device on a legacy ATA channel.
#[derive(Clone, Copy, Debug, Eq, PartialEq, Structural)]
pub enum AtaDrive {
    Master,
    Slave,
}

impl AtaDrive {
    /// The drive-select bit this device contributes to the drive/head
    /// register.
    pub fn select_bits(self) -> (r: u8)
        ensures
            self == AtaDrive::Master ==> r == 0,
            self == AtaDrive::Slave ==> r == 0x10,
    {
        proof {
            assert(1u8 << 4 == 0x10u8) by (bit_vector);
        }
        match self {
            AtaDrive::Master => 0,
            AtaDrive::Slave => 1u8 << 4,
        }
    }
}

/// Data register offset on the ATA command block.
pub const ATA_REG_DATA: u16 = 0;

/// Sector-count register offset.
pub const ATA_REG_SECTOR_COUNT: u16 = 2;

/// Low, middle and high LBA register offsets.
pub const ATA_REG_LBA0: u16 = 3;

pub const ATA_REG_LBA1: u16 = 4;

pub const ATA_REG_LBA2: u16 = 5;

/// Drive/head register offset.
pub const ATA_REG_DRIVE_HEAD: u16 = 6;

/// Status (read) and command (write) register offset.
pub const ATA_REG_STATUS_COMMAND: u16 = 7;

/// Status bit: the last command ended in error.
pub const ATA_STATUS_ERR: u8 = 0x01;

/// Status bit: data is ready to transfer.
pub const ATA_STATUS_DRQ: u8 = 0x08;

/// Status bit: device fault.
pub const ATA_STATUS_DF: u8 = 0x20;

/// Status bit: device busy.
pub const ATA_STATUS_BSY: u8 = 0x80;

/// Command opcodes the driver issues.
pub const ATA_CMD_IDENTIFY: u8 = 0xEC;

pub const ATA_CMD_READ_SECTORS: u8 = 0x20;

pub const ATA_CMD_WRITE_SECTORS: u8 = 0x30;

pub const ATA_CMD_READ_SECTORS_EXT: u8 = 0x24;

pub const ATA_CMD_WRITE_SECTORS_EXT: u8 = 0x34;

pub const ATA_CMD_FLUSH_CACHE: u8 = 0xE7;

pub const ATA_CMD_FLUSH_CACHE_EXT: u8 = 0xEA;

/// How many status polls to spend before giving up on the device.
pub const ATA_WAIT_SPINS: usize = 2_000_000;

/// Highest sector addressable through the 28-bit command set.
pub const ATA_LBA28_MAX: u64 = 0x0FFF_FFFF;

/// What one polled status byte decides.
#[derive(Clone, Copy, Debug, Eq, PartialEq, Structural)]
pub enum AtaPoll {
    /// Keep polling.
    Wait,
    /// The wait is over.
    Ready,
    /// Give up with this error.
    Fail(DiskIoError),
}

/// The decision the busy-wait loop takes on one status byte: wait while
/// busy, then fail on a fault or error bit, else done.
pub fn wait_not_busy_step(status: u8) -> (r: AtaPoll)
    ensures
        status & ATA_STATUS_BSY != 0 ==> r == AtaPoll::Wait,
        status & ATA_STATUS_BSY == 0 && status & ATA_STATUS_DF != 0 ==> r == AtaPoll::Fail(
            DiskIoError::DeviceFault,
        ),
        status & ATA_STATUS_BSY == 0 && status & ATA_STATUS_DF == 0 && status & ATA_STATUS_ERR != 0
            ==> r == AtaPoll::Fail(DiskIoError::InvalidInput),
        status & ATA_STATUS_BSY == 0 && status & ATA_STATUS_DF == 0 && status & ATA_STATUS_ERR == 0
            ==> r == AtaPoll::Ready,
{
    if status & ATA_STATUS_BSY != 0 {
        AtaPoll::Wait
    } else if status & ATA_STATUS_DF != 0 {
        AtaPoll::Fail(DiskIoError::DeviceFault)
    } else if status & ATA_STATUS_ERR != 0 {
        AtaPoll::Fail(DiskIoError::InvalidInput)
    } else {
        AtaPoll::Ready
    }
}

/// The decision the data-request wait loop takes on one status byte: wait
/// while busy, fail on fault or error, done once data is requested, else
/// keep polling.
pub fn wait_drq_step(status: u8) -> (r: AtaPoll)
    ensures
        status & ATA_STATUS_BSY != 0 ==> r == AtaPoll::Wait,
        status & ATA_STATUS_BSY == 0 && status & ATA_STATUS_DF != 0 ==> r == AtaPoll::Fail(
            DiskIoError::DeviceFault,
        ),
        status & ATA_STATUS_BSY == 0 && status & ATA_STATUS_DF == 0 && status & ATA_STATUS_ERR != 0
            ==> r == AtaPoll::Fail(DiskIoError::InvalidInput),
        status & ATA_STATUS_BSY == 0 && status & ATA_STATUS_DF == 0 && status & ATA_STATUS_ERR == 0
            && status & ATA_STATUS_DRQ != 0 ==> r == AtaPoll::Ready,
        status & ATA_STATUS_BSY == 0 && status & ATA_STATUS_DF == 0 && status & ATA_STATUS_ERR == 0
            && status & ATA_STATUS_DRQ == 0 ==> r == AtaPoll::Wait,
{
    if status & ATA_STATUS_BSY != 0 {
        AtaPoll::Wait
    } else if status & ATA_STATUS_DF != 0 {
        AtaPoll::Fail(DiskIoError::DeviceFault)
    } else if status & ATA_STATUS_ERR != 0 {
        AtaPoll::Fail(DiskIoError::InvalidInput)
    } else if status & ATA_STATUS_DRQ != 0 {
        AtaPoll::Ready
    } else {
        AtaPoll::Wait
    }
}

/// Whether a sector number fits the 28-bit command set.
pub fn lba28_in_range(lba: u64) -> (r: bool)
    ensures
        r == (lba <= ATA_LBA28_MAX),
{
    lba <= ATA_LBA28_MAX
}

/// The three low LBA register bytes for a sector number, lowest first.
pub fn lba_low_bytes(lba: u64) -> (r: (u8, u8, u8))
    ensures
        r.0 == lba % 256,
        r.1 == lba / 256 % 256,
        r.2 == lba / 65536 % 256,
{
    proof {
        assert((lba & 0xFF) == lba % 256 && ((lba >> 8) & 0xFF) == lba / 256 % 256 && ((lba >> 16)
            & 0xFF) == lba / 65536 % 256) by (bit_vector);
    }
    ((lba & 0xFF) as u8, ((lba >> 8) & 0xFF) as u8, ((lba >> 16) & 0xFF) as u8)
}

/// The three high LBA register bytes a 48-bit command programs first,
/// lowest of the three first.
pub fn lba48_high_bytes(lba: u64) -> (r: (u8, u8, u8))
    ensures
        r.0 == lba / 0x1000000 % 256,
        r.1 == lba / 0x100000000 % 256,
        r.2 == lba / 0x10000000000 % 256,
{
    proof {
        assert(((lba >> 24) & 0xFF) == lba / 0x1000000 % 256 && ((lba >> 32) & 0xFF) == lba
            / 0x100000000 % 256 && ((lba >> 40) & 0xFF) == lba / 0x10000000000 % 256)
            by (bit_vector);
    }
    (((lba >> 24) & 0xFF) as u8, ((lba >> 32) & 0xFF) as u8, ((lba >> 40) & 0xFF) as u8)
}

/// The drive/head register byte selecting `drive` for a 28-bit command:
/// the fixed LBA-mode bits, the drive-select bit, and the sector number's
/// top four bits.
pub fn lba28_drive_head(drive: AtaDrive, lba: u64) -> (r: u8)
    requires
        lba <= ATA_LBA28_MAX,
    ensures
        drive == AtaDrive::Master ==> r == 0xE0 + lba / 0x1000000,
        drive == AtaDrive::Slave ==> r == 0xF0 + lba / 0x1000000,
{
    let bits = drive.select_bits();
    let top = (((lba >> 24) as u8) & 0x0F);
    proof {
        assert(((lba >> 24) as u8) & 0x0F == lba / 0x1000000 && lba / 0x1000000 <= 0xF)
            by (bit_vector)
            requires
                lba <= 0x0FFF_FFFFu64,
        ;
        assert(0xE0u8 | 0u8 | top == 0xE0 + top && 0xE0u8 | 0x10u8 | top == 0xF0 + top)
            by (bit_vector)
            requires
                top <= 0xFu8,
        ;
    }
    0xE0 | bits | top
}

/// The identify data's 28-bit sector count: words 60 and 61, low word
/// first.
pub open spec fn ident_lba28(id: Seq<u16>) -> int {
    id[61] * 0x10000 + id[60]
}

/// The identify data's 48-bit sector count: words 100 through 103, low
/// word first.
pub open spec fn ident_lba48(id: Seq<u16>) -> int {
    id[103] * 0x1000000000000 + id[102] * 0x100000000 + id[101] * 0x10000 + id[100]
}

/// Whether the identify data advertises the 48-bit command set: bit 10 of
/// word 83.
pub open spec fn ident_lba48_supported(id: Seq<u16>) -> bool {
    id[83] & 0x400 != 0
}

/// Legacy ATA PIO controller in IDE compatibility mode: the channel's port
/// bases, the selected drive, and what its identify data reported. Probing
/// the hardware reads the identify words through the data port; what they
/// mean is decided here, in `apply_identify`.
pub struct AtaPioDevice {
    pub io_base: u16,
    pub ctrl_base: u16,
    pub drive: AtaDrive,
    pub total_sectors: u64,
    pub lba48: bool,
}

impl AtaPioDevice {
    /// The master device of the primary legacy channel, not yet probed.
    pub fn primary_master() -> (d: AtaPioDevice)
        ensures
            d.io_base == 0x1F0,
            d.ctrl_base == 0x3F6,
            d.drive == AtaDrive::Master,
            d.total_sectors == 0,
            !d.lba48,
    {
        AtaPioDevice::new(0x1F0, 0x3F6, AtaDrive::Master)
    }

    /// The slave device of the primary legacy channel, not yet probed.
    pub fn primary_slave() -> (d: AtaPioDevice)
        ensures
            d.io_base == 0x1F0,
            d.ctrl_base == 0x3F6,
            d.drive == AtaDrive::Slave,
            d.total_sectors == 0,
            !d.lba48,
    {
        AtaPioDevice::new(0x1F0, 0x3F6, AtaDrive::Slave)
    }

    /// A device on the given channel, not yet probed: its size and command
    /// set are unknown until the hardware side reads the identify data and
    /// `apply_identify` interprets it.
    pub fn new(io_base: u16, ctrl_base: u16, drive: AtaDrive) -> (d: AtaPioDevice)
        ensures
            d.io_base == io_base,
            d.ctrl_base == ctrl_base,
            d.drive == drive,
            d.total_sectors == 0,
            !d.lba48,
    {
        AtaPioDevice { io_base, ctrl_base, drive, total_sectors: 0, lba48: false }
    }

    /// Interpret the 256 identify words the data port produced: take the
    /// 48-bit sector count when the device advertises it and reports one,
    /// else the 28-bit count; a device reporting no sectors is not present.
    pub fn apply_identify(&mut self, id: &Vec<u16>) -> (r: Result<(), DiskIoError>)
        requires
            id.len() == 256,
        ensures
            final(self).io_base == old(self).io_base,
            final(self).ctrl_base == old(self).ctrl_base,
            final(self).drive == old(self).drive,
            final(self).lba48 == (ident_lba48_supported(id@) && ident_lba48(id@) > 0),
            final(self).total_sectors == if ident_lba48_supported(id@) && ident_lba48(id@) > 0 {
                ident_lba48(id@)
            } else {
                ident_lba28(id@)
            },
            r is Ok <==> final(self).total_sectors != 0,
            r matches Err(e) ==> e == DiskIoError::NotPresent,
    {
        let lba28: u32 = ((id[61] as u32) << 16) | (id[60] as u32);
        let lba48_supported = (id[83] & (1u16 << 10)) != 0;
        let lba48: u64 = ((id[103] as u64) << 48) | ((id[102] as u64) << 32) | ((id[101]
            as u64) << 16) | (id[100] as u64);
        proof {
            let w60 = id@[60];
            let w61 = id@[61];
            assert(((w61 as u32) << 16) | (w60 as u32) == w61 * 0x10000 + w60) by (bit_vector);
            let w100 = id@[100];
            let w101 = id@[101];
            let w102 = id@[102];
            let w103 = id@[103];
            assert(((w103 as u64) << 48) | ((w102 as u64) << 32) | ((w101 as u64) << 16) | (w100
                as u64) == w103 * 0x1000000000000 + w102 * 0x100000000 + w101 * 0x10000 + w100)
                by (bit_vector);
            assert(1u16 << 10 == 0x400u16) by (bit_vector);
        }

        self.lba48 = lba48_supported && lba48 > 0;
        self.total_sectors = if self.lba48 {
            lba48
        } else {
            lba28 as u64
        };
        if self.total_sectors == 0 {
            return Err(DiskIoError::NotPresent);
        }
        Ok(())
    }
}

/// The 16-bit words a PIO data port produces, split into bytes: each word
/// contributes its low byte first. This is the byte order sectors travel
/// over the data register.
pub fn words_to_bytes(words: &Vec<u16>) -> (r: Vec<u8>)
    requires
        words.len() * 2 <= usize::MAX,
    ensures
        r.len() == words.len() * 2,
        forall|i: int|
            0 <= i < words.len() ==> r[2 * i] == words[i] % 256 && r[2 * i + 1] == words[i] / 256,
{
    let mut r: Vec<u8> = Vec::new();
    let mut i: usize = 0;
    while i < words.len()
        invariant
            i <= words.len(),
            words.len() * 2 <= usize::MAX,
            r.len() == 2 * i,
            forall|j: int|
                0 <= j < i ==> r[2 * j] == words[j] % 256 && r[2 * j + 1] == words[j] / 256,
        decreases words.len() - i,
    {
        let w = words[i];
        proof {
            assert((w & 0x00FF) == w % 256 && (w >> 8) == w / 256) by (bit_vector);
        }
        r.push((w & 0x00FF) as u8);
        r.push((w >> 8) as u8);
        i = i + 1;
    }
    r
}

/// Bytes packed into the 16-bit words a PIO data port consumes: low byte
/// of each pair first. Inverse of `words_to_bytes`.
pub fn bytes_to_words(bytes: &Vec<u8>) -> (r: Vec<u16>)
    requires
        bytes.len() % 2 == 0,
    ensures
        r.len() == bytes.len() / 2,
        forall|i: int| 0 <= i < r.len() ==> r[i] == bytes[2 * i] + bytes[2 * i + 1] * 256,
{
    let mut r: Vec<u16> = Vec::new();
    let mut i: usize = 0;
    while i + 1 < bytes.len()
        invariant
            bytes.len() % 2 == 0,
            i % 2 == 0,
            i <= bytes.len(),
            r.len() == i / 2,
            forall|j: int| 0 <= j < r.len() ==> r[j] == bytes[2 * j] + bytes[2 * j + 1] * 256,
        decreases bytes.len() - i,
    {
        let lo = bytes[i] as u16;
        let hi = (bytes[i + 1] as u16) << 8;
        proof {
            let a = bytes@[i as int];
            let b = bytes@[i + 1];
            assert(((b as u16) << 8) == b * 256) by (bit_vector);
            assert((a as u16) | ((b as u16) << 8) == a + b * 256) by (bit_vector);
        }
        r.push(lo | hi);
        i = i + 2;
    }
    r
}

/// Where a seek starts counting.
#[derive(Clone, Copy, Debug, Eq, PartialEq, Structural)]
pub enum SeekFrom {
    Start(u64),
    End(i64),
    Current(i64),
}

/// A sequence with `content` written over it at `at`.
pub open spec fn spliced(s: Seq<u8>, at: int, content: Seq<u8>) -> Seq<u8> {
    s.subrange(0, at) + content + s.subrange(at + content.len(), s.len() as int)
}

/// Wraps a sector device and exposes the positioned byte stream a
/// filesystem driver consumes: reads and writes advance a byte position
/// and go to the device sector by sector through a scratch buffer.
pub struct FatDisk<D: BlockDevice> {
    dev: D,
    pos: u64,
    scratch: Vec<u8>,
}

impl<D: BlockDevice> FatDisk<D> {
    /// The bytes of the underlying device.
    pub closed spec fn disk(&self) -> Seq<u8> {
        self.dev.contents()
    }

    /// The stream position.
    pub closed spec fn spec_pos(&self) -> u64 {
        self.pos
    }

    /// The scratch buffer always spans one sector, and the position never
    /// passes the end of the stream.
    pub closed spec fn wf(&self) -> bool {
        &&& self.scratch.len() == FAT_SECTOR_SIZE
        &&& self.spec_pos() <= self.stream_len()
    }

    /// The stream covers a prefix of the device's bytes.
    proof fn lemma_stream_len(&self)
        ensures
            0 <= self.stream_len() <= self.disk().len(),
    {
        let l = self.disk().len() as int;
        assert(0 <= (l / 512) * 512 <= l) by (nonlinear_arith)
            requires
                l >= 0,
        ;
    }

    /// How many bytes the stream reaches: whole sectors only.
    pub open spec fn stream_len(&self) -> int {
        (self.disk().len() as int / (FAT_SECTOR_SIZE as int)) * (FAT_SECTOR_SIZE as int)
    }

    /// Where a seek would land, before clamping to validity.
    pub open spec fn seek_target(&self, pos: SeekFrom) -> int {
        match pos {
            SeekFrom::Start(p) => p as int,
            SeekFrom::End(delta) => self.stream_len() + delta,
            SeekFrom::Current(delta) => self.spec_pos() + delta,
        }
    }

    /// How many bytes a read or write starting at `pos` moves for a caller
    /// buffer of `buf_len` bytes: up to the end of the stream, and nothing
    /// once the position has reached it.
    pub open spec fn io_amount(&self, buf_len: int) -> int {
        if buf_len == 0 || self.spec_pos() >= self.stream_len() {
            0
        } else if buf_len <= self.stream_len() - self.spec_pos() {
            buf_len
        } else {
            self.stream_len() - self.spec_pos()
        }
    }

    /// Adopt a device; the stream starts at position 0.
    pub fn new(dev: D) -> (d: FatDisk<D>)
        ensures
            d.wf(),
            d.disk() == dev.contents(),
            d.spec_pos() == 0,
    {
        let mut scratch: Vec<u8> = Vec::new();
        let mut i: usize = 0;
        while i < FAT_SECTOR_SIZE
            invariant
                i <= FAT_SECTOR_SIZE,
                scratch.len() == i,
            decreases FAT_SECTOR_SIZE - i,
        {
            scratch.push(0);
            i = i + 1;
        }
        let d = FatDisk { dev, pos: 0, scratch };
        proof {
            d.lemma_stream_len();
        }
        d
    }

    /// The stream's length in bytes.
    fn bytes_len(&self) -> (r: u64)
        ensures
            r == self.stream_len(),
    {
        proof {
            self.dev.contents_wf();
            let l = self.dev.contents().len() as int;
            assert((l / 512) * 512 <= l && 0 <= (l / 512) * 512) by (nonlinear_arith)
                requires
                    l >= 0,
            ;
        }
        let count = self.dev.sector_count();
        count * (FAT_SECTOR_SIZE as u64)
    }

    /// A position is in range when it does not pass the end of the stream.
    fn ensure_in_range(&self, pos: u64) -> (r: Result<(), DiskIoError>)
        ensures
            r is Ok <==> pos <= self.stream_len(),
            r matches Err(e) ==> e == DiskIoError::InvalidInput,
    {
        if pos <= self.bytes_len() {
            Ok(())
        } else {
            Err(DiskIoError::InvalidInput)
        }
    }

    /// Move the stream position. Lands exactly on the requested byte;
    /// rejected, with the position unmoved, when the target falls before
    /// the start or past the end of the stream.
    pub fn seek(&mut self, pos: SeekFrom) -> (r: Result<u64, DiskIoError>)
        requires
            old(self).wf(),
        ensures
            final(self).wf(),
            final(self).disk() == old(self).disk(),
            match r {
                Ok(p) => {
                    &&& 0 <= old(self).seek_target(pos) <= old(self).stream_len()
                    &&& p == old(self).seek_target(pos)
                    &&& final(self).spec_pos() == p
                },
                Err(e) => {
                    &&& e == DiskIoError::InvalidInput
                    &&& !(0 <= old(self).seek_target(pos) <= old(self).stream_len())
                    &&& final(self).spec_pos() == old(self).spec_pos()
                },
            },
    {
        proof {
            self.dev.contents_wf();
        }
        let len = self.bytes_len() as i128;
        let cur = self.pos as i128;

        let next: i128 = match pos {
            SeekFrom::Start(p) => p as i128,
            SeekFrom::End(delta) => len + (delta as i128),
            SeekFrom::Current(delta) => cur + (delta as i128),
        };

        if next < 0 || next > (u64::MAX as i128) {
            return Err(DiskIoError::InvalidInput);
        }

        let next_u64 = next as u64;
        match self.ensure_in_range(next_u64) {
            Ok(_) => {},
            Err(e) => {
                return Err(e);
            },
        }
        self.pos = next_u64;
        Ok(next_u64)
    }

    /// Read from the stream into `buf`: as many bytes as the buffer takes,
    /// stopping at the end of the stream. On success the bytes read are
    /// exactly the stream's bytes at the old position, the rest of the
    /// buffer is untouched, and the position has advanced past what was
    /// read. A device failure surfaces as the device's error, with the
    /// bytes read so far in place.
    pub fn read(&mut self, buf: &mut Vec<u8>) -> (r: Result<usize, DiskIoError>)
        requires
            old(self).wf(),
        ensures
            final(self).wf(),
            final(self).disk() == old(self).disk(),
            final(buf).len() == old(buf).len(),
            match r {
                Ok(n) => {
                    &&& n == old(self).io_amount(old(buf).len() as int)
                    &&& final(self).spec_pos() == old(self).spec_pos() + n
                    &&& forall|i: int|
                        0 <= i < n ==> final(buf)[i] == old(self).disk()[old(self).spec_pos() + i]
                    &&& forall|i: int| n <= i < old(buf).len() ==> final(buf)[i] == old(buf)[i]
                },
                Err(_) => {
                    &&& old(self).spec_pos() <= final(self).spec_pos() <= old(self).spec_pos()
                        + old(buf).len()
                    &&& forall|i: int|
                        0 <= i < final(self).spec_pos() - old(self).spec_pos()
                            ==> final(buf)[i] == old(self).disk()[old(self).spec_pos() + i]
                    &&& forall|i: int|
                        final(self).spec_pos() - old(self).spec_pos() <= i < old(buf).len()
                            ==> final(buf)[i] == old(buf)[i]
                },
            },
    {
        if buf.len() == 0 {
            return Ok(0);
        }

        let disk_len = self.bytes_len();
        if self.pos >= disk_len {
            return Ok(0);
        }

        let remaining = disk_len - self.pos;
        let max_read: usize = if (buf.len() as u64) <= remaining {
            buf.len()
        } else {
            remaining as usize
        };
        let mut done: usize = 0;

        proof {
            self.dev.contents_wf();
        }

        while done < max_read
            invariant
                self.wf(),
                self.disk() == old(self).disk(),
                self.disk().len() <= u64::MAX,
                buf.len() == old(buf).len(),
                done <= max_read,
                max_read == old(self).io_amount(old(buf).len() as int),
                self.pos == old(self).spec_pos() + done,
                old(self).spec_pos() + max_read <= self.stream_len(),
                forall|i: int|
                    0 <= i < done ==> buf[i] == old(self).disk()[old(self).spec_pos() + i],
                forall|i: int| done <= i < buf.len() ==> buf[i] == old(buf)[i],
            decreases max_read - done,
        {
            let lba = self.pos / (FAT_SECTOR_SIZE as u64);
            let off = (self.pos % (FAT_SECTOR_SIZE as u64)) as usize;
            proof {
                vstd::arithmetic::div_mod::lemma_fundamental_div_mod(
                    self.pos as int,
                    FAT_SECTOR_SIZE as int,
                );
                assert((lba + 1) * 512 <= self.disk().len()) by (nonlinear_arith)
                    requires
                        lba == self.pos as int / 512,
                        self.pos < self.stream_len(),
                        self.stream_len() == (self.disk().len() as int / 512) * 512,
                        self.disk().len() >= 0,
                ;
            }

            match self.dev.read_sector(lba, &mut self.scratch) {
                Ok(_) => {},
                Err(e) => {
                    return Err(e);
                },
            }

            let space: usize = FAT_SECTOR_SIZE - off;
            let want: usize = max_read - done;
            let n: usize = if space <= want {
                space
            } else {
                want
            };

            let mut k: usize = 0;
            while k < n
                invariant
                    k <= n,
                    self.wf(),
                    buf.len() == old(buf).len(),
                    done + n <= max_read <= buf.len(),
                    off + n <= FAT_SECTOR_SIZE,
                    self.scratch@ == self.disk().subrange(
                        lba as int * 512,
                        lba as int * 512 + 512,
                    ),
                    lba as int * 512 + 512 <= self.disk().len(),
                    self.pos == lba as int * 512 + off,
                    self.pos == old(self).spec_pos() + done,
                    forall|i: int|
                        0 <= i < done + k ==> buf[i] == old(self).disk()[old(self).spec_pos() + i],
                    forall|i: int| done + k <= i < buf.len() ==> buf[i] == old(buf)[i],
                    self.disk() == old(self).disk(),
                decreases n - k,
            {
                let b = self.scratch[off + k];
                buf.set(done + k, b);
                k = k + 1;
            }

            self.pos = self.pos + (n as u64);
            done = done + n;
        }

        Ok(done)
    }

    /// Write `buf` onto the stream: as many bytes as the buffer holds,
    /// stopping at the end of the stream. Whole sectors are written
    /// directly; a partial sector is read, patched and written back. On
    /// success the device holds the written bytes at the old position and
    /// nothing else moved, and the position has advanced past them.
    pub fn write(&mut self, buf: &Vec<u8>) -> (r: Result<usize, DiskIoError>)
        requires
            old(self).wf(),
        ensures
            final(self).wf(),
            final(self).disk().len() == old(self).disk().len(),
            match r {
                Ok(n) => {
                    &&& n == old(self).io_amount(buf.len() as int)
                    &&& final(self).spec_pos() == old(self).spec_pos() + n
                    &&& final(self).disk() == spliced(
                        old(self).disk(),
                        old(self).spec_pos() as int,
                        buf@.subrange(0, n as int),
                    )
                },
                Err(_) => {
                    &&& old(self).spec_pos() <= final(self).spec_pos() <= old(self).spec_pos()
                        + buf.len()
                },
            },
    {
        proof {
            self.lemma_stream_len();
        }
        if buf.len() == 0 {
            proof {
                assert(spliced(self.disk(), self.spec_pos() as int, buf@.subrange(0, 0)) =~= self
                    .disk());
            }
            return Ok(0);
        }

        let disk_len = self.bytes_len();
        if self.pos >= disk_len {
            proof {
                assert(spliced(self.disk(), self.spec_pos() as int, buf@.subrange(0, 0)) =~= self
                    .disk());
            }
            return Ok(0);
        }

        let remaining = disk_len - self.pos;
        let max_write: usize = if (buf.len() as u64) <= remaining {
            buf.len()
        } else {
            remaining as usize
        };
        let mut done: usize = 0;

        proof {
            self.dev.contents_wf();
            assert(spliced(self.disk(), self.spec_pos() as int, buf@.subrange(0, 0)) =~= self
                .disk());
        }

        while done < max_write
            invariant
                self.wf(),
                self.disk().len() == old(self).disk().len(),
                self.disk().len() <= u64::MAX,
                done <= max_write,
                max_write <= buf.len(),
                max_write == old(self).io_amount(buf.len() as int),
                self.pos == old(self).spec_pos() + done,
                old(self).spec_pos() + max_write <= self.stream_len(),
                self.stream_len() == old(self).stream_len(),
                self.stream_len() <= self.disk().len(),
                self.disk() == spliced(
                    old(self).disk(),
                    old(self).spec_pos() as int,
                    buf@.subrange(0, done as int),
                ),
            decreases max_write - done,
        {
            let lba = self.pos / (FAT_SECTOR_SIZE as u64);
            let off = (self.pos % (FAT_SECTOR_SIZE as u64)) as usize;
            proof {
                vstd::arithmetic::div_mod::lemma_fundamental_div_mod(
                    self.pos as int,
                    FAT_SECTOR_SIZE as int,
                );
                assert((lba + 1) * 512 <= self.disk().len()) by (nonlinear_arith)
                    requires
                        lba == self.pos as int / 512,
                        self.pos < self.stream_len(),
                        self.stream_len() == (self.disk().len() as int / 512) * 512,
                        self.disk().len() >= 0,
                ;
            }

            let space: usize = FAT_SECTOR_SIZE - off;
            let want: usize = max_write - done;
            let n: usize = if space <= want {
                space
            } else {
                want
            };

            if off == 0 && n == FAT_SECTOR_SIZE {
                let mut k: usize = 0;
                while k < FAT_SECTOR_SIZE
                    invariant
                        k <= FAT_SECTOR_SIZE,
                        self.wf(),
                        done + FAT_SECTOR_SIZE <= buf.len(),
                        self.disk().len() == old(self).disk().len(),
                        self.stream_len() <= self.disk().len(),
                        self.stream_len() == old(self).stream_len(),
                        self.pos == old(self).spec_pos() + done,
                        self.disk() == spliced(
                            old(self).disk(),
                            old(self).spec_pos() as int,
                            buf@.subrange(0, done as int),
                        ),
                        forall|i: int| 0 <= i < k ==> self.scratch[i] == buf[done + i],
                    decreases FAT_SECTOR_SIZE - k,
                {
                    let b = buf[done + k];
                    self.scratch.set(k, b);
                    k = k + 1;
                }
            } else {
                match self.dev.read_sector(lba, &mut self.scratch) {
                    Ok(_) => {},
                    Err(e) => {
                        return Err(e);
                    },
                }
                let mut k: usize = 0;
                while k < n
                    invariant
                        k <= n,
                        self.wf(),
                        done + n <= buf.len(),
                        off + n <= FAT_SECTOR_SIZE,
                        lba as int * 512 + 512 <= self.disk().len(),
                        self.disk().len() == old(self).disk().len(),
                        self.stream_len() <= self.disk().len(),
                        self.stream_len() == old(self).stream_len(),
                        self.pos == old(self).spec_pos() + done,
                        self.disk() == spliced(
                            old(self).disk(),
                            old(self).spec_pos() as int,
                            buf@.subrange(0, done as int),
                        ),
                        forall|i: int|
                            0 <= i < k ==> self.scratch[#[trigger] (off + i)] == buf[done + i],
                        forall|i: int|
                            0 <= i < FAT_SECTOR_SIZE && !(off <= i < off + k)
                                ==> self.scratch[i] == self.disk()[lba as int * 512 + i],
                    decreases n - k,
                {
                    let b = buf[done + k];
                    self.scratch.set(off + k, b);
                    k = k + 1;
                }
            }

            proof {
                let p0 = old(self).spec_pos() as int;
                let sector = lba as int * 512;
                assert forall|j: int| 0 <= j < 512 implies self.scratch@[j] == (if p0 + done
                    <= sector + j < p0 + done + n {
                    buf@[sector + j - p0]
                } else {
                    self.disk()[sector + j]
                }) by {
                    if p0 + done <= sector + j < p0 + done + n {
                        let m = sector + j - (p0 + done);
                        if off == 0 && n == FAT_SECTOR_SIZE {
                            assert(self.scratch@[j] == buf@[done + j]);
                        } else {
                            assert(j == off + m);
                            assert(self.scratch@[off + m] == buf@[done + m]);
                        }
                        assert(buf@[done + m] == buf@[sector + j - p0]);
                    }
                }
            }
            let ghost pre_disk = self.disk();
            match self.dev.write_sector(lba, &self.scratch) {
                Ok(_) => {},
                Err(e) => {
                    return Err(e);
                },
            }

            proof {
                let l = old(self).disk().len() as int;
                let p0 = old(self).spec_pos() as int;
                let sector = lba as int * 512;
                let lhs = self.disk();
                let rhs = spliced(old(self).disk(), p0, buf@.subrange(0, done + n));
                assert(p0 + done + n <= l);
                assert(lhs.len() == l);
                assert(rhs.len() == l);
                assert(sector <= p0 + done && p0 + done + n <= sector + 512);
                assert forall|i: int| 0 <= i < l implies lhs[i] == rhs[i] by {
                    if sector <= i < sector + 512 {
                        let j = i - sector;
                        assert(lhs[i] == self.scratch@[j]);
                        if p0 + done <= i < p0 + done + n {
                            // the bytes this iteration wrote
                            assert(self.scratch@[j] == buf@[i - p0]);
                            assert(rhs[i] == buf@[i - p0]);
                        } else if p0 <= i < p0 + done {
                            // bytes of an earlier iteration, read back unpatched
                            assert(self.scratch@[j] == pre_disk[i]);
                            assert(pre_disk[i] == buf@[i - p0]);
                            assert(rhs[i] == buf@[i - p0]);
                        } else {
                            // untouched bytes of the sector
                            assert(self.scratch@[j] == pre_disk[i]);
                            assert(pre_disk[i] == old(self).disk()[i]);
                            assert(rhs[i] == old(self).disk()[i]);
                        }
                    } else {
                        assert(lhs[i] == pre_disk[i]);
                        if p0 <= i < p0 + done {
                            assert(pre_disk[i] == buf@[i - p0]);
                            assert(rhs[i] == buf@[i - p0]);
                        } else {
                            assert(pre_disk[i] == old(self).disk()[i]);
                            assert(rhs[i] == old(self).disk()[i]);
                        }
                    }
                }
                assert(lhs =~= rhs);
            }

            self.pos = self.pos + (n as u64);
            done = done + n;
        }

        Ok(done)
    }

    /// Push buffered writes down to the device.
    pub fn flush(&mut self) -> (r: Result<(), DiskIoError>)
        requires
            old(self).wf(),
        ensures
            final(self).wf(),
            final(self).disk() == old(self).disk(),
            final(self).spec_pos() == old(self).spec_pos(),
    {
        self.dev.flush()
    }
}

} // verus!
