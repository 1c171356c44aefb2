//! Options for opening files.

use crate::error::{Error, ErrorKind};
use crate::fs::paths::{has_nul, is_c_path};
use vstd::prelude::*;

verus! {

const OPEN_READ: u8 = 1;

const OPEN_WRITE: u8 = 2;

const OPEN_APPEND: u8 = 4;

const OPEN_TRUNCATE: u8 = 8;

const OPEN_CREATE: u8 = 16;

const OPEN_CREATE_NEW: u8 = 32;

/// `libc::O_RDONLY` on Linux.
pub const O_RDONLY: i32 = 0;

/// `libc::O_WRONLY` on Linux.
pub const O_WRONLY: i32 = 1;

/// `libc::O_RDWR` on Linux.
pub const O_RDWR: i32 = 2;

/// `libc::O_CREAT` on Linux.
pub const O_CREAT: i32 = 0o100;

/// `libc::O_EXCL` on Linux.
pub const O_EXCL: i32 = 0o200;

/// `libc::O_TRUNC` on Linux.
pub const O_TRUNC: i32 = 0o1000;

/// `libc::O_APPEND` on Linux.
pub const O_APPEND: i32 = 0o2000;

/// `libc::O_CLOEXEC` on Linux.
pub const O_CLOEXEC: i32 = 0o2000000;

/// The permissions of a file that is created, before the umask.
pub const CREATE_MODE: u32 = 0o666;

/// Which options are on.
pub struct Options {
    pub read: bool,
    pub write: bool,
    pub append: bool,
    pub truncate: bool,
    pub create: bool,
    pub create_new: bool,
}

/// The options as a bitfield.
#[derive(Clone, Copy, Debug)]
pub struct OpenOptionsFlags {
    bits: u8,
}

impl OpenOptionsFlags {
    pub closed spec fn view(&self) -> Options {
        Options {
            read: self.bits & 1 != 0,
            write: self.bits & 2 != 0,
            append: self.bits & 4 != 0,
            truncate: self.bits & 8 != 0,
            create: self.bits & 16 != 0,
            create_new: self.bits & 32 != 0,
        }
    }

    /// All options off.
    pub fn new() -> (flags: Self)
        ensures
            flags@ == (Options {
                read: false,
                write: false,
                append: false,
                truncate: false,
                create: false,
                create_new: false,
            }),
    {
        assert(0u8 & 1 == 0 && 0u8 & 2 == 0 && 0u8 & 4 == 0 && 0u8 & 8 == 0 && 0u8 & 16 == 0 && 0u8
            & 32 == 0) by (bit_vector);
        OpenOptionsFlags { bits: 0 }
    }

    pub fn read(&self) -> (on: bool)
        ensures
            on == self@.read,
    {
        self.bits & OPEN_READ != 0
    }

    pub fn write(&self) -> (on: bool)
        ensures
            on == self@.write,
    {
        self.bits & OPEN_WRITE != 0
    }

    pub fn append(&self) -> (on: bool)
        ensures
            on == self@.append,
    {
        self.bits & OPEN_APPEND != 0
    }

    pub fn truncate(&self) -> (on: bool)
        ensures
            on == self@.truncate,
    {
        self.bits & OPEN_TRUNCATE != 0
    }

    pub fn create(&self) -> (on: bool)
        ensures
            on == self@.create,
    {
        self.bits & OPEN_CREATE != 0
    }

    pub fn create_new(&self) -> (on: bool)
        ensures
            on == self@.create_new,
    {
        self.bits & OPEN_CREATE_NEW != 0
    }

    /// Turns the option of one bit on or off.
    fn set(&mut self, flag: u8, value: bool)
        requires
            flag == 1 || flag == 2 || flag == 4 || flag == 8 || flag == 16 || flag == 32,
        ensures
            final(self)@ == (Options {
                read: if flag == 1 { value } else { old(self)@.read },
                write: if flag == 2 { value } else { old(self)@.write },
                append: if flag == 4 { value } else { old(self)@.append },
                truncate: if flag == 8 { value } else { old(self)@.truncate },
                create: if flag == 16 { value } else { old(self)@.create },
                create_new: if flag == 32 { value } else { old(self)@.create_new },
            }),
    {
        let ghost b = self.bits;
        if value {
            self.bits = self.bits | flag;
        } else {
            self.bits = self.bits & !flag;
        }
        assert(({
            &&& (b | flag) & 1 != 0 <==> flag == 1 || b & 1 != 0
            &&& (b | flag) & 2 != 0 <==> flag == 2 || b & 2 != 0
            &&& (b | flag) & 4 != 0 <==> flag == 4 || b & 4 != 0
            &&& (b | flag) & 8 != 0 <==> flag == 8 || b & 8 != 0
            &&& (b | flag) & 16 != 0 <==> flag == 16 || b & 16 != 0
            &&& (b | flag) & 32 != 0 <==> flag == 32 || b & 32 != 0
            &&& (b & !flag) & 1 != 0 <==> flag != 1 && b & 1 != 0
            &&& (b & !flag) & 2 != 0 <==> flag != 2 && b & 2 != 0
            &&& (b & !flag) & 4 != 0 <==> flag != 4 && b & 4 != 0
            &&& (b & !flag) & 8 != 0 <==> flag != 8 && b & 8 != 0
            &&& (b & !flag) & 16 != 0 <==> flag != 16 && b & 16 != 0
            &&& (b & !flag) & 32 != 0 <==> flag != 32 && b & 32 != 0
        })) by (bit_vector)
            requires
                flag == 1 || flag == 2 || flag == 4 || flag == 8 || flag == 16 || flag == 32,
        ;
    }

    pub fn set_read(&mut self, value: bool)
        ensures
            final(self)@ == (Options { read: value, ..old(self)@ }),
    {
        self.set(OPEN_READ, value);
    }

    pub fn set_write(&mut self, value: bool)
        ensures
            final(self)@ == (Options { write: value, ..old(self)@ }),
    {
        self.set(OPEN_WRITE, value);
    }

    pub fn set_append(&mut self, value: bool)
        ensures
            final(self)@ == (Options { append: value, ..old(self)@ }),
    {
        self.set(OPEN_APPEND, value);
    }

    pub fn set_truncate(&mut self, value: bool)
        ensures
            final(self)@ == (Options { truncate: value, ..old(self)@ }),
    {
        self.set(OPEN_TRUNCATE, value);
    }

    pub fn set_create(&mut self, value: bool)
        ensures
            final(self)@ == (Options { create: value, ..old(self)@ }),
    {
        self.set(OPEN_CREATE, value);
    }

    pub fn set_create_new(&mut self, value: bool)
        ensures
            final(self)@ == (Options { create_new: value, ..old(self)@ }),
    {
        self.set(OPEN_CREATE_NEW, value);
    }
}

/// Whether the options ask for write access.
pub open spec fn writing(o: Options) -> bool {
    o.write || o.append
}

/// What is wrong with the options, if anything is: some access must be asked for, and what changes
/// the file needs write access.
pub open spec fn fault(o: Options) -> Option<Error> {
    if !o.read && !writing(o) {
        Some(Error::Custom(ErrorKind::InvalidInput, "must enable read, write, or append access"))
    } else if (o.truncate || o.create || o.create_new) && !writing(o) {
        Some(
            Error::Custom(
                ErrorKind::InvalidInput,
                "truncate/create options require write or append access",
            ),
        )
    } else {
        None
    }
}

/// The flags for the open call. Creating a new file takes precedence over creating a missing one,
/// and the descriptor is always closed on exec.
pub open spec fn open_flags(o: Options) -> i32 {
    let access = if o.read && writing(o) {
        O_RDWR
    } else if writing(o) {
        O_WRONLY
    } else {
        O_RDONLY
    };
    let append = if o.append { O_APPEND } else { 0 };
    let truncate = if o.truncate { O_TRUNC } else { 0 };
    let create = if o.create_new {
        O_CREAT | O_EXCL
    } else if o.create {
        O_CREAT
    } else {
        0
    };
    access | append | truncate | create | O_CLOEXEC
}

/// `libc::O_ACCMODE` on Linux: the bits that tell the access.
pub const O_ACCMODE: i32 = 3;

/// Whether a file opened with the flags can be read.
pub open spec fn may_read(flags: i32) -> bool {
    flags & O_ACCMODE == O_RDONLY || flags & O_ACCMODE == O_RDWR
}

/// Whether a file opened with the flags can be written.
pub open spec fn may_write(flags: i32) -> bool {
    flags & O_ACCMODE == O_WRONLY || flags & O_ACCMODE == O_RDWR
}

/// An open call to make.
pub struct OpenOp {
    /// The path, with a NUL at its end.
    pub path: Vec<u8>,
    pub flags: i32,
    pub mode: u32,
}

/// Options and flags for opening files.
#[derive(Clone, Copy, Debug)]
pub struct OpenOptions {
    flags: OpenOptionsFlags,
}

impl OpenOptions {
    pub closed spec fn view(&self) -> Options {
        self.flags@
    }

    /// All options off.
    #[must_use]
    pub fn new() -> (options: Self)
        ensures
            options@ == (Options {
                read: false,
                write: false,
                append: false,
                truncate: false,
                create: false,
                create_new: false,
            }),
    {
        OpenOptions { flags: OpenOptionsFlags::new() }
    }

    /// Sets whether the file should be opened for reading.
    pub fn read(&mut self, read: bool) -> (r: &mut Self)
        ensures
            r@ == (Options { read, ..old(self)@ }),
            *final(self) == *final(r),
    {
        self.flags.set_read(read);
        self
    }

    /// Sets whether the file should be opened for writing.
    pub fn write(&mut self, write: bool) -> (r: &mut Self)
        ensures
            r@ == (Options { write, ..old(self)@ }),
            *final(self) == *final(r),
    {
        self.flags.set_write(write);
        self
    }

    /// Sets whether the file should be opened in append mode.
    pub fn append(&mut self, append: bool) -> (r: &mut Self)
        ensures
            r@ == (Options { append, ..old(self)@ }),
            *final(self) == *final(r),
    {
        self.flags.set_append(append);
        self
    }

    /// Sets whether the file should be truncated if it already exists.
    pub fn truncate(&mut self, truncate: bool) -> (r: &mut Self)
        ensures
            r@ == (Options { truncate, ..old(self)@ }),
            *final(self) == *final(r),
    {
        self.flags.set_truncate(truncate);
        self
    }

    /// Sets whether the file should be created if it does not exist.
    pub fn create(&mut self, create: bool) -> (r: &mut Self)
        ensures
            r@ == (Options { create, ..old(self)@ }),
            *final(self) == *final(r),
    {
        self.flags.set_create(create);
        self
    }

    /// Sets whether the file should be created, and must not exist.
    pub fn create_new(&mut self, create_new: bool) -> (r: &mut Self)
        ensures
            r@ == (Options { create_new, ..old(self)@ }),
            *final(self) == *final(r),
    {
        self.flags.set_create_new(create_new);
        self
    }

    /// The options that are on.
    pub fn flags(&self) -> (flags: OpenOptionsFlags)
        ensures
            flags@ == self@,
    {
        self.flags
    }

    /// Refuses options that make no sense together.
    pub fn validate(&self) -> (r: Result<(), Error>)
        ensures
            r is Ok <==> {
                &&& self@.read || self@.write || self@.append
                &&& self@.truncate || self@.create || self@.create_new ==> self@.write
                    || self@.append
            },
            r == match fault(self@) {
                Some(error) => Err::<(), Error>(error),
                None => Ok(()),
            },
    {
        let writing = self.flags.write() || self.flags.append();
        if !self.flags.read() && !writing {
            return Err(
                Error::Custom(
                    ErrorKind::InvalidInput,
                    "must enable read, write, or append access",
                ),
            );
        }
        if (self.flags.truncate() || self.flags.create() || self.flags.create_new()) && !writing {
            return Err(
                Error::Custom(
                    ErrorKind::InvalidInput,
                    "truncate/create options require write or append access",
                ),
            );
        }
        Ok(())
    }

    /// Where reading and writing begins: at the file's end in append mode, whose length is
    /// `len`, and else at its start.
    pub fn initial_cursor_for_append(&self, len: Result<u64, Error>) -> (r: Result<u64, Error>)
        ensures
            r == if self@.append {
                len
            } else {
                Ok::<u64, Error>(0)
            },
    {
        if self.flags.append() {
            len
        } else {
            Ok(0)
        }
    }

    /// The open call for a path.
    pub fn build_open_op(&self, path: Vec<u8>) -> (r: Result<OpenOp, Error>)
        ensures
            r is Ok <==> (self@.read || self@.write || self@.append) && !path@.contains(0),
            if !self@.read && !writing(self@) {
                r == Err::<OpenOp, Error>(
                    Error::Custom(
                        ErrorKind::InvalidInput,
                        "must enable read, write, or append access",
                    ),
                )
            } else if path@.contains(0) {
                r == Err::<OpenOp, Error>(
                    Error::Custom(ErrorKind::InvalidInput, "path contains interior NUL byte"),
                )
            } else {
                r matches Ok(op) && {
                    &&& op.path@ == path@.push(0)
                    &&& is_c_path(op.path@)
                    &&& op.flags == open_flags(self@)
                    &&& may_read(op.flags) == self@.read
                    &&& may_write(op.flags) == (self@.write || self@.append)
                    &&& op.flags & 0o2000 != 0 <==> self@.append
                    &&& op.flags & 0o1000 != 0 <==> self@.truncate
                    &&& op.flags & 0o100 != 0 <==> self@.create || self@.create_new
                    &&& op.flags & 0o200 != 0 <==> self@.create_new
                    &&& op.flags & 0o2000000 != 0
                    &&& op.mode == CREATE_MODE
                }
            },
    {
        let writing = self.flags.write() || self.flags.append();
        let access: i32 = match (self.flags.read(), writing) {
            (true, false) => O_RDONLY,
            (false, true) => O_WRONLY,
            (true, true) => O_RDWR,
            (false, false) => {
                return Err(
                    Error::Custom(
                        ErrorKind::InvalidInput,
                        "must enable read, write, or append access",
                    ),
                );
            },
        };
        let append: i32 = if self.flags.append() {
            O_APPEND
        } else {
            0
        };
        let truncate: i32 = if self.flags.truncate() {
            O_TRUNC
        } else {
            0
        };
        let create: i32 = if self.flags.create_new() {
            O_CREAT | O_EXCL
        } else if self.flags.create() {
            O_CREAT
        } else {
            0
        };
        let flags: i32 = access | append | truncate | create | O_CLOEXEC;
        if has_nul(&path) {
            return Err(Error::Custom(ErrorKind::InvalidInput, "path contains interior NUL byte"));
        }
        proof {
            law_access_is_what_was_asked_for(self@);
        }
        let ghost given = path@;
        let mut path = path;
        path.push(0);
        assert(is_c_path(path@)) by {
            assert forall|i: int| 0 <= i < path@.len() - 1 implies path@[i] != 0 by {
                assert(given[i] == path@[i]);
            }
        }
        Ok(OpenOp { path, flags, mode: CREATE_MODE })
    }
}

impl Default for OpenOptions {
    /// All options off.
    fn default() -> (options: Self)
        ensures
            options@ == (Options {
                read: false,
                write: false,
                append: false,
                truncate: false,
                create: false,
                create_new: false,
            }),
    {
        OpenOptions::new()
    }
}

/// Options that are found valid can be opened: building the call fails for the path alone.
pub proof fn law_valid_options_have_access(o: Options)
    requires
        fault(o) is None,
    ensures
        o.read || writing(o),
        o.truncate || o.create || o.create_new ==> writing(o),
{
}

/// The access of an open call is just what the options ask for: the file can be read if and only if
/// reading is on, and written if and only if writing or appending is. Each other option has its own
/// flag, nothing else is asked for, and the descriptor is closed on exec.
pub proof fn law_access_is_what_was_asked_for(o: Options)
    requires
        o.read || o.write || o.append,
    ensures
        ({
            let flags = open_flags(o);
            &&& flags & 3 == 0 || flags & 3 == 2 <==> o.read
            &&& flags & 3 == 1 || flags & 3 == 2 <==> o.write || o.append
            &&& flags & 3 != 3
            &&& may_read(flags) == o.read
            &&& may_write(flags) == (o.write || o.append)
            &&& flags & 0o2000 != 0 <==> o.append
            &&& flags & 0o1000 != 0 <==> o.truncate
            &&& flags & 0o100 != 0 <==> o.create || o.create_new
            &&& flags & 0o200 != 0 <==> o.create_new
            &&& flags & 0o2000000 != 0
            &&& flags & !0o2003303 == 0
        }),
{
    let access = if o.read && (o.write || o.append) {
        2i32
    } else if o.write || o.append {
        1i32
    } else {
        0i32
    };
    let append = if o.append { 0o2000i32 } else { 0i32 };
    let truncate = if o.truncate { 0o1000i32 } else { 0i32 };
    let create = if o.create_new {
        0o300i32
    } else if o.create {
        0o100i32
    } else {
        0i32
    };
    assert(0o100i32 | 0o200i32 == 0o300i32) by (bit_vector);
    let flags = access | append | truncate | create | 0o2000000i32;
    assert(flags == open_flags(o));
    assert(({
        let f = access | append | truncate | create | 0o2000000i32;
        &&& f & 3 == access
        &&& f & 0o2000 == append
        &&& f & 0o1000 == truncate
        &&& f & 0o300 == create
        &&& f & 0o100 == create & 0o100
        &&& f & 0o200 == create & 0o200
        &&& f & 0o2000000 == 0o2000000
        &&& f & !0o2003303i32 == 0
        &&& 0o300i32 & 0o100 == 0o100 && 0o300i32 & 0o200 == 0o200
        &&& 0o100i32 & 0o100 == 0o100 && 0o100i32 & 0o200 == 0
        &&& 0i32 & 0o100 == 0 && 0i32 & 0o200 == 0
    })) by (bit_vector)
        requires
            access == 0i32 || access == 1i32 || access == 2i32,
            append == 0i32 || append == 0o2000i32,
            truncate == 0i32 || truncate == 0o1000i32,
            create == 0i32 || create == 0o100i32 || create == 0o300i32,
    ;
}

/// What is wrong with options is that they ask for no access, or for a change without the access for
/// it; nothing else is refused.
pub proof fn law_options_are_refused_only_for_want_of_access(o: Options)
    ensures
        fault(o) is Some <==> {
            ||| !o.read && !o.write && !o.append
            ||| (o.truncate || o.create || o.create_new) && !o.write && !o.append
        },
        writing(o) == (o.write || o.append),
        !o.read && !o.write && !o.append ==> fault(o) == Some(
            Error::Custom(ErrorKind::InvalidInput, "must enable read, write, or append access"),
        ),
        o.read && fault(o) is Some ==> fault(o) == Some(
            Error::Custom(
                ErrorKind::InvalidInput,
                "truncate/create options require write or append access",
            ),
        ),
{
}

} // verus!
