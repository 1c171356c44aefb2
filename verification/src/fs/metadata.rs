//! What is known of a file.

use vstd::prelude::*;

verus! {

/// `libc::S_IFMT` on Linux.
pub const S_IFMT: u32 = 0o170000;

/// `libc::S_IFDIR` on Linux.
pub const S_IFDIR: u32 = 0o040000;

/// `libc::S_IFREG` on Linux.
pub const S_IFREG: u32 = 0o100000;

/// `libc::S_IFLNK` on Linux.
pub const S_IFLNK: u32 = 0o120000;

/// A point in time: seconds from the epoch on, and nanoseconds from there on.
#[derive(Copy, Clone, PartialEq, Eq, Debug, Structural)]
pub struct Timestamp {
    pub secs: i64,
    pub nanos: u32,
}

/// What the extended status call tells of a file.
#[derive(Copy, Clone, PartialEq, Eq, Debug, Structural)]
pub struct Statx {
    pub mode: u16,
    pub size: u64,
    pub dev_major: u32,
    pub dev_minor: u32,
    pub ino: u64,
    pub nlink: u32,
    pub uid: u32,
    pub gid: u32,
    pub rdev_major: u32,
    pub rdev_minor: u32,
    pub atime: Timestamp,
    pub btime: Timestamp,
    pub mtime: Timestamp,
    pub ctime: Timestamp,
    pub blksize: u32,
    pub blocks: u64,
    pub subvol: u64,
    pub attributes: u64,
}

/// What is known of a file.
#[derive(Copy, Clone, PartialEq, Eq, Debug)]
pub struct Fields {
    pub mode: u32,
    pub size: u64,
    pub dev: u64,
    pub ino: u64,
    pub nlink: u64,
    pub uid: u32,
    pub gid: u32,
    pub rdev: u64,
    pub accessed: Timestamp,
    /// When it was created, where the file system tells.
    pub created: Option<Timestamp>,
    pub modified: Timestamp,
    pub changed: Timestamp,
    pub blksize: u64,
    pub blocks: u64,
    pub subvol: Option<u64>,
    pub attributes: Option<u64>,
}

/// The number of a device: the low twelve bits of the major number lie above the low eight of the
/// minor number, and the high bits of the major number above the high bits of the minor number.
pub open spec fn device_number(major: u32, minor: u32) -> u64 {
    ((major as u64 & 0xfff) << 8) | ((major as u64 & 0xffff_f000) << 32) | (minor as u64 & 0xff) | ((
    minor as u64 & 0xffff_ff00) << 12)
}

/// `libc::makedev`: the device number of a major and a minor number, as Linux lays it out.
#[verifier::external_body]
fn makedev(major: u32, minor: u32) -> (device: u64)
    ensures
        device == device_number(major, minor),
{
    libc::makedev(major, minor)
}

/// Whether the mode has the given file type.
pub open spec fn has_type(mode: u32, file_type: u32) -> bool {
    mode & S_IFMT == file_type
}

/// Nanoseconds from the epoch to a point in time, negative before it.
pub open spec fn nanos_since_epoch(t: Timestamp) -> int {
    t.secs * 1000000000 + t.nanos
}

/// Nanoseconds from the epoch to a point in time.
pub fn timestamp_to_nanos(t: Timestamp) -> (nanos: i128)
    ensures
        nanos == nanos_since_epoch(t),
{
    t.secs as i128 * 1000000000 + t.nanos as i128
}

/// The point in time so far after the epoch, or before it.
pub fn timestamp_at(before: bool, secs: u64, nanos: u32) -> (t: Timestamp)
    requires
        secs < i64::MAX,
        nanos < 1000000000,
    ensures
        nanos_since_epoch(t) == if before {
            -(secs * 1000000000 + nanos)
        } else {
            secs * 1000000000 + nanos
        },
        t.nanos < 1000000000,
{
    if !before {
        Timestamp { secs: secs as i64, nanos }
    } else if nanos == 0 {
        Timestamp { secs: -(secs as i64), nanos: 0 }
    } else {
        Timestamp { secs: -(secs as i64) - 1, nanos: 1000000000 - nanos }
    }
}

/// What is known of a file.
#[derive(Copy, Clone, Debug)]
pub struct Metadata {
    fields: Fields,
}

impl Metadata {
    pub closed spec fn view(&self) -> Fields {
        self.fields
    }

    /// From the fields themselves.
    pub fn from_std(fields: Fields) -> (metadata: Self)
        ensures
            metadata@ == fields,
    {
        Metadata { fields }
    }

    /// From the extended status of a file.
    pub fn from_statx(st: Statx) -> (metadata: Self)
        ensures
            metadata@ == (Fields {
                mode: st.mode as u32,
                size: st.size,
                dev: device_number(st.dev_major, st.dev_minor),
                ino: st.ino,
                nlink: st.nlink as u64,
                uid: st.uid,
                gid: st.gid,
                rdev: device_number(st.rdev_major, st.rdev_minor),
                accessed: st.atime,
                created: Some(st.btime),
                modified: st.mtime,
                changed: st.ctime,
                blksize: st.blksize as u64,
                blocks: st.blocks,
                subvol: Some(st.subvol),
                attributes: Some(st.attributes),
            }),
    {
        Metadata {
            fields: Fields {
                mode: st.mode as u32,
                size: st.size,
                dev: makedev(st.dev_major, st.dev_minor),
                ino: st.ino,
                nlink: st.nlink as u64,
                uid: st.uid,
                gid: st.gid,
                rdev: makedev(st.rdev_major, st.rdev_minor),
                accessed: st.atime,
                created: Some(st.btime),
                modified: st.mtime,
                changed: st.ctime,
                blksize: st.blksize as u64,
                blocks: st.blocks,
                subvol: Some(st.subvol),
                attributes: Some(st.attributes),
            },
        }
    }

    /// The size of the file in bytes.
    #[must_use]
    pub fn len(&self) -> (len: u64)
        ensures
            len == self@.size,
    {
        self.fields.size
    }

    /// The type of the file.
    #[must_use]
    pub fn file_type(&self) -> (file_type: FileType)
        ensures
            file_type@ == (has_type(self@.mode, S_IFDIR), has_type(self@.mode, S_IFREG), has_type(
                self@.mode,
                S_IFLNK,
            )),
    {
        FileType {
            is_dir: self.is_dir(),
            is_file: self.is_file(),
            is_symlink: self.is_symlink(),
        }
    }

    /// Whether it is a directory.
    #[must_use]
    pub fn is_dir(&self) -> (is: bool)
        ensures
            is == has_type(self@.mode, S_IFDIR),
            is == (self@.mode / 4096 % 16 == 4),
    {
        proof {
            law_a_type_is_in_its_bits(self@.mode);
        }
        self.fields.mode & S_IFMT == S_IFDIR
    }

    /// Whether it is a regular file.
    #[must_use]
    pub fn is_file(&self) -> (is: bool)
        ensures
            is == has_type(self@.mode, S_IFREG),
            is == (self@.mode / 4096 % 16 == 8),
    {
        proof {
            law_a_type_is_in_its_bits(self@.mode);
        }
        self.fields.mode & S_IFMT == S_IFREG
    }

    /// Whether it is a symbolic link.
    #[must_use]
    pub fn is_symlink(&self) -> (is: bool)
        ensures
            is == has_type(self@.mode, S_IFLNK),
            is == (self@.mode / 4096 % 16 == 10),
    {
        proof {
            law_a_type_is_in_its_bits(self@.mode);
        }
        self.fields.mode & S_IFMT == S_IFLNK
    }

    /// When it was last accessed, in nanoseconds from the epoch on.
    pub fn accessed(&self) -> (nanos: i128)
        ensures
            nanos == nanos_since_epoch(self@.accessed),
    {
        timestamp_to_nanos(self.fields.accessed)
    }

    /// When it was created, in nanoseconds from the epoch on, where the file system tells.
    pub fn created(&self) -> (nanos: Option<i128>)
        ensures
            match self@.created {
                Some(t) => nanos matches Some(n) && n == nanos_since_epoch(t),
                None => nanos is None,
            },
    {
        match self.fields.created {
            Some(t) => Some(timestamp_to_nanos(t)),
            None => None,
        }
    }

    /// When it was last modified, in nanoseconds from the epoch on.
    pub fn modified(&self) -> (nanos: i128)
        ensures
            nanos == nanos_since_epoch(self@.modified),
    {
        timestamp_to_nanos(self.fields.modified)
    }

    /// The subvolume, where the extended status told it.
    #[must_use]
    pub fn st_subvol(&self) -> (subvol: Option<u64>)
        ensures
            subvol == self@.subvol,
    {
        self.fields.subvol
    }

    /// The attributes, where the extended status told them.
    #[must_use]
    pub fn st_attributes(&self) -> (attributes: Option<u64>)
        ensures
            attributes == self@.attributes,
    {
        self.fields.attributes
    }

    /// The device that holds the file.
    #[must_use]
    pub fn st_dev(&self) -> (value: u64)
        ensures
            value == self@.dev,
    {
        self.fields.dev
    }

    /// The inode number.
    #[must_use]
    pub fn st_ino(&self) -> (value: u64)
        ensures
            value == self@.ino,
    {
        self.fields.ino
    }

    /// The type and permissions.
    #[must_use]
    pub fn st_mode(&self) -> (value: u32)
        ensures
            value == self@.mode,
    {
        self.fields.mode
    }

    /// The number of hard links.
    #[must_use]
    pub fn st_nlink(&self) -> (value: u64)
        ensures
            value == self@.nlink,
    {
        self.fields.nlink
    }

    /// The owner.
    #[must_use]
    pub fn st_uid(&self) -> (value: u32)
        ensures
            value == self@.uid,
    {
        self.fields.uid
    }

    /// The group.
    #[must_use]
    pub fn st_gid(&self) -> (value: u32)
        ensures
            value == self@.gid,
    {
        self.fields.gid
    }

    /// The device that a device file stands for.
    #[must_use]
    pub fn st_rdev(&self) -> (value: u64)
        ensures
            value == self@.rdev,
    {
        self.fields.rdev
    }

    /// The size in bytes.
    #[must_use]
    pub fn st_size(&self) -> (value: u64)
        ensures
            value == self@.size,
    {
        self.fields.size
    }

    /// The seconds of the last access.
    #[must_use]
    pub fn st_atime(&self) -> (value: i64)
        ensures
            value == self@.accessed.secs,
    {
        self.fields.accessed.secs
    }

    /// The nanoseconds of the last access.
    #[must_use]
    pub fn st_atime_nsec(&self) -> (value: i64)
        ensures
            value == self@.accessed.nanos,
    {
        self.fields.accessed.nanos as i64
    }

    /// The seconds of the last modification.
    #[must_use]
    pub fn st_mtime(&self) -> (value: i64)
        ensures
            value == self@.modified.secs,
    {
        self.fields.modified.secs
    }

    /// The nanoseconds of the last modification.
    #[must_use]
    pub fn st_mtime_nsec(&self) -> (value: i64)
        ensures
            value == self@.modified.nanos,
    {
        self.fields.modified.nanos as i64
    }

    /// The seconds of the last status change.
    #[must_use]
    pub fn st_ctime(&self) -> (value: i64)
        ensures
            value == self@.changed.secs,
    {
        self.fields.changed.secs
    }

    /// The nanoseconds of the last status change.
    #[must_use]
    pub fn st_ctime_nsec(&self) -> (value: i64)
        ensures
            value == self@.changed.nanos,
    {
        self.fields.changed.nanos as i64
    }

    /// The block size for I/O.
    #[must_use]
    pub fn st_blksize(&self) -> (value: u64)
        ensures
            value == self@.blksize,
    {
        self.fields.blksize
    }

    /// The number of 512 byte blocks.
    #[must_use]
    pub fn st_blocks(&self) -> (value: u64)
        ensures
            value == self@.blocks,
    {
        self.fields.blocks
    }

    /// The device that holds the file.
    #[must_use]
    pub fn dev(&self) -> (value: u64)
        ensures
            value == self@.dev,
    {
        self.fields.dev
    }

    /// The inode number.
    #[must_use]
    pub fn ino(&self) -> (value: u64)
        ensures
            value == self@.ino,
    {
        self.fields.ino
    }

    /// The type and permissions.
    #[must_use]
    pub fn mode(&self) -> (value: u32)
        ensures
            value == self@.mode,
    {
        self.fields.mode
    }

    /// The number of hard links.
    #[must_use]
    pub fn nlink(&self) -> (value: u64)
        ensures
            value == self@.nlink,
    {
        self.fields.nlink
    }

    /// The owner.
    #[must_use]
    pub fn uid(&self) -> (value: u32)
        ensures
            value == self@.uid,
    {
        self.fields.uid
    }

    /// The group.
    #[must_use]
    pub fn gid(&self) -> (value: u32)
        ensures
            value == self@.gid,
    {
        self.fields.gid
    }

    /// The device that a device file stands for.
    #[must_use]
    pub fn rdev(&self) -> (value: u64)
        ensures
            value == self@.rdev,
    {
        self.fields.rdev
    }

    /// The size in bytes.
    #[must_use]
    pub fn size(&self) -> (value: u64)
        ensures
            value == self@.size,
    {
        self.fields.size
    }

    /// The seconds of the last access.
    #[must_use]
    pub fn atime(&self) -> (value: i64)
        ensures
            value == self@.accessed.secs,
    {
        self.fields.accessed.secs
    }

    /// The nanoseconds of the last access.
    #[must_use]
    pub fn atime_nsec(&self) -> (value: i64)
        ensures
            value == self@.accessed.nanos,
    {
        self.fields.accessed.nanos as i64
    }

    /// The seconds of the last modification.
    #[must_use]
    pub fn mtime(&self) -> (value: i64)
        ensures
            value == self@.modified.secs,
    {
        self.fields.modified.secs
    }

    /// The nanoseconds of the last modification.
    #[must_use]
    pub fn mtime_nsec(&self) -> (value: i64)
        ensures
            value == self@.modified.nanos,
    {
        self.fields.modified.nanos as i64
    }

    /// The seconds of the last status change.
    #[must_use]
    pub fn ctime(&self) -> (value: i64)
        ensures
            value == self@.changed.secs,
    {
        self.fields.changed.secs
    }

    /// The nanoseconds of the last status change.
    #[must_use]
    pub fn ctime_nsec(&self) -> (value: i64)
        ensures
            value == self@.changed.nanos,
    {
        self.fields.changed.nanos as i64
    }

    /// The block size for I/O.
    #[must_use]
    pub fn blksize(&self) -> (value: u64)
        ensures
            value == self@.blksize,
    {
        self.fields.blksize
    }

    /// The number of 512 byte blocks.
    #[must_use]
    pub fn blocks(&self) -> (value: u64)
        ensures
            value == self@.blocks,
    {
        self.fields.blocks
    }
}

/// A type of file.
#[derive(Copy, Clone, PartialEq, Eq, Hash, Debug, Structural)]
pub struct FileType {
    is_dir: bool,
    is_file: bool,
    is_symlink: bool,
}

impl FileType {
    /// Whether it is a directory, a regular file, a symbolic link.
    pub closed spec fn view(&self) -> (bool, bool, bool) {
        (self.is_dir, self.is_file, self.is_symlink)
    }

    /// Whether it is a directory.
    #[must_use]
    pub fn is_dir(&self) -> (is: bool)
        ensures
            is == self@.0,
    {
        self.is_dir
    }

    /// Whether it is a regular file.
    #[must_use]
    pub fn is_file(&self) -> (is: bool)
        ensures
            is == self@.1,
    {
        self.is_file
    }

    /// Whether it is a symbolic link.
    #[must_use]
    pub fn is_symlink(&self) -> (is: bool)
        ensures
            is == self@.2,
    {
        self.is_symlink
    }
}

/// A file has at most one of the three types.
pub proof fn law_types_exclude_each_other(mode: u32)
    ensures
        !(has_type(mode, S_IFDIR) && has_type(mode, S_IFREG)),
        !(has_type(mode, S_IFDIR) && has_type(mode, S_IFLNK)),
        !(has_type(mode, S_IFREG) && has_type(mode, S_IFLNK)),
{
}

/// The type of a file is told by the four bits above the permissions, and by no others.
pub proof fn law_a_type_is_in_its_bits(mode: u32)
    ensures
        has_type(mode, S_IFDIR) == (mode / 4096 % 16 == 4),
        has_type(mode, S_IFREG) == (mode / 4096 % 16 == 8),
        has_type(mode, S_IFLNK) == (mode / 4096 % 16 == 10),
{
    assert(mode & 0o170000 == 0o040000 <==> mode / 4096 % 16 == 4) by (bit_vector);
    assert(mode & 0o170000 == 0o100000 <==> mode / 4096 % 16 == 8) by (bit_vector);
    assert(mode & 0o170000 == 0o120000 <==> mode / 4096 % 16 == 10) by (bit_vector);
}

/// Major and minor number are found again in the number of a device, so that no two devices share
/// one.
pub proof fn law_device_numbers_are_told_apart(major: u32, minor: u32)
    ensures
        ({
            let device = device_number(major, minor);
            &&& ((device >> 8) & 0xfff) | ((device >> 32) & 0xffff_f000) == major as u64
            &&& (device & 0xff) | ((device >> 12) & 0xffff_ff00) == minor as u64
        }),
        major < 4096 && minor < 256 ==> device_number(major, minor) == 256 * major + minor,
{
    let a = major as u64;
    let b = minor as u64;
    assert(({
        let d = ((a & 0xfff) << 8) | ((a & 0xffff_f000) << 32) | (b & 0xff) | ((b & 0xffff_ff00)
            << 12);
        &&& ((d >> 8) & 0xfff) | ((d >> 32) & 0xffff_f000) == a
        &&& (d & 0xff) | ((d >> 12) & 0xffff_ff00) == b
        &&& a < 4096 && b < 256 ==> d == 256 * a + b
    })) by (bit_vector)
        requires
            a <= 0xffff_ffff,
            b <= 0xffff_ffff,
    ;
}

/// Nanoseconds from the epoch on tell how far two points in time are apart, and are zero at the epoch.
pub proof fn law_times_keep_their_distance(t: Timestamp, other: Timestamp)
    ensures
        nanos_since_epoch(t) - nanos_since_epoch(other) == (t.secs - other.secs) * 1000000000 + (
        t.nanos - other.nanos),
        t.secs == 0 && t.nanos == 0 ==> nanos_since_epoch(t) == 0,
        t.secs < other.secs && t.nanos < 1000000000 ==> nanos_since_epoch(t) < nanos_since_epoch(
            other,
        ),
{
}

} // verus!
