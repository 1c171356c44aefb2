use std::collections::HashSet;

use zincio::error::{Error, ErrorKind};
use zincio::fs::dirs::{created_of, CreateDirAll, Created, DirStep, EEXIST, ENOENT, ENOTDIR};
use zincio::fs::file::{
    advance_cursor, blocking_pool_io_error, file_route, Direction, ExactAt, ExactStep,
};
use zincio::fs::metadata::{
    timestamp_at, timestamp_to_nanos, Fields, Metadata, Statx, Timestamp, S_IFDIR, S_IFLNK, S_IFMT, S_IFREG,
};
use zincio::fs::open_options::{
    OpenOptions, O_APPEND, O_CLOEXEC, O_CREAT, O_EXCL, O_RDONLY, O_RDWR, O_TRUNC, O_WRONLY,
};
use zincio::fs::paths::{
    c_path, first_nul, has_nul, open_route, path_route, ReadAll, ReadAllStep, Route, WriteAll,
    WriteAllStep,
};

#[test]
fn flags_and_types_are_those_of_the_system() {
    assert_eq!(O_RDONLY, libc::O_RDONLY);
    assert_eq!(O_WRONLY, libc::O_WRONLY);
    assert_eq!(O_RDWR, libc::O_RDWR);
    assert_eq!(O_CREAT, libc::O_CREAT);
    assert_eq!(O_EXCL, libc::O_EXCL);
    assert_eq!(O_TRUNC, libc::O_TRUNC);
    assert_eq!(O_APPEND, libc::O_APPEND);
    assert_eq!(O_CLOEXEC, libc::O_CLOEXEC);
    assert_eq!(S_IFMT, libc::S_IFMT);
    assert_eq!(S_IFDIR, libc::S_IFDIR);
    assert_eq!(S_IFREG, libc::S_IFREG);
    assert_eq!(S_IFLNK, libc::S_IFLNK);
}

#[test]
fn options_need_access() {
    assert_eq!(
        OpenOptions::new().validate(),
        Err(Error::Custom(
            ErrorKind::InvalidInput,
            "must enable read, write, or append access"
        ))
    );
    let needs_write = Err(Error::Custom(
        ErrorKind::InvalidInput,
        "truncate/create options require write or append access",
    ));
    assert_eq!(
        OpenOptions::new().read(true).truncate(true).validate(),
        needs_write
    );
    assert_eq!(
        OpenOptions::new().read(true).create(true).validate(),
        needs_write
    );
    assert_eq!(
        OpenOptions::new().read(true).create_new(true).validate(),
        needs_write
    );
    assert_eq!(OpenOptions::new().read(true).validate(), Ok(()));
    assert_eq!(
        OpenOptions::default().append(true).create(true).validate(),
        Ok(())
    );
}

#[test]
fn options_are_set_and_cleared_one_by_one() {
    let mut options = OpenOptions::new();
    options
        .read(true)
        .write(true)
        .append(true)
        .truncate(true)
        .create(true)
        .create_new(true);
    let flags = options.flags();
    assert!(flags.read() && flags.write() && flags.append());
    assert!(flags.truncate() && flags.create() && flags.create_new());
    options.write(false).create(false);
    let flags = options.flags();
    assert!(flags.read() && !flags.write() && flags.append());
    assert!(flags.truncate() && !flags.create() && flags.create_new());
}

#[test]
fn open_calls_carry_the_flags() {
    let read = OpenOptions::new()
        .read(true)
        .build_open_op(b"hello.txt".to_vec())
        .unwrap();
    assert_eq!(read.path, b"hello.txt\0");
    assert_eq!(read.flags, libc::O_RDONLY | libc::O_CLOEXEC);
    assert_eq!(read.mode, 0o666);
    let write = OpenOptions::new()
        .write(true)
        .create(true)
        .truncate(true)
        .build_open_op(Vec::new())
        .unwrap();
    assert_eq!(
        write.flags,
        libc::O_WRONLY | libc::O_CREAT | libc::O_TRUNC | libc::O_CLOEXEC
    );
    let new = OpenOptions::new()
        .read(true)
        .append(true)
        .create(true)
        .create_new(true)
        .build_open_op(b"a".to_vec())
        .unwrap();
    assert_eq!(
        new.flags,
        libc::O_RDWR | libc::O_APPEND | libc::O_CREAT | libc::O_EXCL | libc::O_CLOEXEC
    );
    assert_eq!(
        OpenOptions::new()
            .read(true)
            .build_open_op(b"a\0b".to_vec())
            .err(),
        Some(Error::Custom(
            ErrorKind::InvalidInput,
            "path contains interior NUL byte"
        ))
    );
    assert_eq!(
        OpenOptions::new()
            .create(true)
            .build_open_op(b"a\0b".to_vec())
            .err(),
        Some(Error::Custom(
            ErrorKind::InvalidInput,
            "must enable read, write, or append access"
        ))
    );
}

#[test]
fn appending_starts_at_the_end() {
    let mut options = OpenOptions::new();
    assert_eq!(options.initial_cursor_for_append(Ok(9)), Ok(0));
    assert_eq!(options.initial_cursor_for_append(Err(Error::Os(5))), Ok(0));
    options.append(true);
    assert_eq!(options.initial_cursor_for_append(Ok(9)), Ok(9));
    assert_eq!(
        options.initial_cursor_for_append(Err(Error::Os(5))),
        Err(Error::Os(5))
    );
}

#[test]
fn paths_end_at_their_only_nul() {
    assert_eq!(c_path(b"/tmp".to_vec()), Ok(b"/tmp\0".to_vec()));
    assert_eq!(c_path(b"a\0b\0".to_vec()), Err(1));
    assert_eq!(first_nul(&b"abc".to_vec()), None);
    assert!(has_nul(&vec![1, 0]));
}

#[test]
fn operations_take_the_route_that_is_there() {
    assert_eq!(path_route(Some(true), true), Route::Completion);
    assert_eq!(path_route(Some(false), true), Route::Pool);
    assert_eq!(path_route(None, true), Route::Pool);
    assert_eq!(path_route(None, false), Route::Blocking);
    assert_eq!(open_route(Some(true), false), Route::Completion);
    assert_eq!(open_route(Some(false), true), Route::Pool);
    assert_eq!(open_route(Some(false), false), Route::Blocking);
    assert_eq!(open_route(None, true), Route::Blocking);
    assert_eq!(file_route(true, false, false), Route::Completion);
    assert_eq!(file_route(false, true, true), Route::Pool);
    assert_eq!(file_route(false, true, false), Route::Blocking);
    assert_eq!(
        blocking_pool_io_error(),
        Error::Custom(ErrorKind::Other, "can't spawn blocking task for file I/O")
    );
}

#[test]
fn cursors_move_on_by_what_was_done() {
    assert_eq!(advance_cursor(5, &Ok(7)), 12);
    assert_eq!(advance_cursor(5, &Err(Error::Os(1))), 5);
    assert_eq!(advance_cursor(u64::MAX - 1, &Ok(7)), u64::MAX);
}

#[test]
fn whole_buffers_are_read_at_offsets() {
    let file = b"abcdef";
    let mut out = [0u8; 4];
    let (mut exact, mut step) = ExactAt::new(Direction::Read, 4, 2);
    while let ExactStep::Go(offset, done) = step {
        let at = offset as usize;
        let n = (file.len() - at).min(out.len() - done).min(3);
        out[done..done + n].copy_from_slice(&file[at..at + n]);
        step = exact.on_result(Ok(n));
    }
    assert_eq!(step, ExactStep::Done);
    assert_eq!(&out, b"cdef");

    let (mut short, step) = ExactAt::new(Direction::Read, 4, 6);
    assert_eq!(step, ExactStep::Go(6, 0));
    assert_eq!(
        short.on_result(Ok(0)),
        ExactStep::Fail(Error::Custom(
            ErrorKind::UnexpectedEof,
            "failed to fill whole buffer"
        ))
    );
    let (mut write, _) = ExactAt::new(Direction::Write, 4, 0);
    assert_eq!(
        write.on_result(Ok(0)),
        ExactStep::Fail(Error::Custom(
            ErrorKind::UnexpectedEof,
            "failed to write whole buffer"
        ))
    );
    assert_eq!(
        write.on_result(Err(Error::Os(28))),
        ExactStep::Fail(Error::Os(28))
    );
    assert_eq!(ExactAt::new(Direction::Read, 0, 9).1, ExactStep::Done);
}

#[test]
fn whole_files_are_read_and_written() {
    let mut read = ReadAll::new();
    assert_eq!(read.on_read(Ok(b"hello ".to_vec())), ReadAllStep::Read);
    assert_eq!(read.on_read(Ok(b"world".to_vec())), ReadAllStep::Read);
    assert_eq!(
        read.on_read(Err(Error::Os(5))),
        ReadAllStep::Fail(Error::Os(5))
    );
    assert_eq!(read.on_read(Ok(Vec::new())), ReadAllStep::Done);
    assert_eq!(read.bytes, b"hello world");

    let (mut write, step) = WriteAll::new(b"hello world".to_vec());
    assert_eq!(step, WriteAllStep::Write);
    assert_eq!(write.on_write(Ok(6)), WriteAllStep::Write);
    assert_eq!(write.rest, b"world");
    assert_eq!(
        write.on_write(Ok(0)),
        WriteAllStep::Fail(Error::Custom(
            ErrorKind::WriteZero,
            "failed to write whole buffer"
        ))
    );
    assert_eq!(
        write.on_write(Err(Error::Os(5))),
        WriteAllStep::Fail(Error::Os(5))
    );
    assert_eq!(write.on_write(Ok(5)), WriteAllStep::Flush);
    assert_eq!(WriteAll::new(Vec::new()).1, WriteAllStep::Flush);
}

/// Creates `path` and what is missing above it among `dirs`.
fn create_all(dirs: &mut HashSet<String>, files: &HashSet<String>, path: &str) -> Result<(), Error> {
    let mut ancestors = vec![path.to_string()];
    while let Some(end) = ancestors.last().unwrap().rfind('/') {
        let parent = ancestors.last().unwrap()[..end].to_string();
        ancestors.push(parent);
    }
    let (mut create, mut step) = CreateDirAll::new();
    loop {
        step = match step {
            DirStep::Create(level) => {
                let dir = ancestors[level].clone();
                let parent = ancestors.get(level + 1);
                let created = if dirs.contains(&dir) || files.contains(&dir) {
                    Created::Exists(Error::Os(17))
                } else if parent.is_some_and(|p| !dirs.contains(p)) {
                    Created::NoParent(Error::Os(2))
                } else {
                    dirs.insert(dir);
                    Created::New
                };
                create.on_created(created, parent.is_some())
            }
            DirStep::Check(level) => create.on_checked(dirs.contains(&ancestors[level])),
            DirStep::Done => return Ok(()),
            DirStep::Fail(error) => return Err(error),
        };
    }
}

#[test]
fn create_dir_all_works() {
    let mut dirs = HashSet::new();
    let files = HashSet::new();
    create_all(&mut dirs, &files, "base/a/b/c").expect("create_dir_all should succeed");
    assert!(dirs.contains("base/a/b/c"));
    assert!(dirs.remove("base/a/b/c"));
    assert!(dirs.remove("base/a/b"));
    assert!(dirs.remove("base/a"));
    assert!(dirs.remove("base"));
    assert!(dirs.is_empty());
}

#[test]
fn one_missing_directory_takes_one_step() {
    let (mut create, step) = CreateDirAll::new();
    assert_eq!(step, DirStep::Create(0));
    assert_eq!(create.on_created(Created::New, true), DirStep::Done);
}

#[test]
fn a_file_in_the_way_is_an_error() {
    let mut dirs: HashSet<String> = HashSet::from(["base".to_string()]);
    let files: HashSet<String> = HashSet::from(["base/f".to_string()]);
    assert_eq!(
        create_all(&mut dirs, &files, "base/f"),
        Err(Error::Os(17))
    );
    assert_eq!(create_all(&mut dirs, &files, "base"), Ok(()));
    let (mut create, _) = CreateDirAll::new();
    assert_eq!(
        create.on_created(Created::NoParent(Error::Os(2)), false),
        DirStep::Fail(Error::Os(2))
    );
    let (mut create, _) = CreateDirAll::new();
    assert_eq!(
        create.on_created(Created::Failed(Error::Os(13)), true),
        DirStep::Fail(Error::Os(13))
    );
    let (mut create, _) = CreateDirAll::new();
    assert_eq!(
        create.on_created(Created::NoParent(Error::Os(2)), true),
        DirStep::Create(1)
    );
    assert_eq!(create.on_created(Created::New, true), DirStep::Create(0));
    assert_eq!(
        create.on_created(Created::NoParent(Error::Os(2)), true),
        DirStep::Fail(Error::Os(2))
    );
}

fn statx(mode: u32, size: u64) -> Statx {
    let time = Timestamp { secs: 5, nanos: 7 };
    Statx {
        mode: mode as u16,
        size,
        dev_major: 0x1_2345,
        dev_minor: 0x6_7890,
        ino: 11,
        nlink: 2,
        uid: 1000,
        gid: 100,
        rdev_major: 8,
        rdev_minor: 1,
        atime: time,
        btime: Timestamp { secs: -2, nanos: 500_000_000 },
        mtime: Timestamp { secs: 6, nanos: 8 },
        ctime: Timestamp { secs: 7, nanos: 9 },
        blksize: 4096,
        blocks: 8,
        subvol: 3,
        attributes: 4,
    }
}

#[test]
fn symlink_metadata_works() {
    let md = Metadata::from_statx(statx(S_IFLNK | 0o777, 20));
    assert!(md.is_symlink());

    let target_md = Metadata::from_statx(statx(S_IFREG | 0o644, 12));
    assert!(target_md.is_file());
    assert!(!target_md.is_symlink());
    assert_eq!(target_md.len(), 12);
}

#[test]
fn directories_are_told_from_files() {
    let md = Metadata::from_statx(statx(S_IFDIR | 0o755, 0));
    assert!(md.is_dir() && !md.is_file() && !md.is_symlink());
    let file_type = Metadata::from_statx(statx(S_IFREG, 0)).file_type();
    assert!(file_type.is_file() && !file_type.is_dir() && !file_type.is_symlink());
    let socket = Metadata::from_statx(statx(0o140000, 0)).file_type();
    assert!(!socket.is_file() && !socket.is_dir() && !socket.is_symlink());
}

#[test]
fn device_numbers_are_put_together() {
    let md = Metadata::from_statx(statx(S_IFREG, 0));
    assert_eq!(md.dev(), libc::makedev(0x1_2345, 0x6_7890));
    assert_eq!(md.dev(), 0x0001_2000_6783_4590);
    assert_eq!(md.st_dev(), md.dev());
    assert_eq!(md.rdev(), 0x801);
    assert_eq!(md.st_rdev(), 0x801);
}

#[test]
fn the_rest_of_the_status_is_handed_on() {
    let md = Metadata::from_statx(statx(S_IFREG | 0o644, 12));
    assert_eq!((md.ino(), md.st_ino()), (11, 11));
    assert_eq!((md.mode(), md.st_mode()), (0o100644, 0o100644));
    assert_eq!((md.nlink(), md.st_nlink()), (2, 2));
    assert_eq!((md.uid(), md.st_uid(), md.gid(), md.st_gid()), (1000, 1000, 100, 100));
    assert_eq!((md.size(), md.st_size()), (12, 12));
    assert_eq!((md.atime(), md.atime_nsec(), md.st_atime(), md.st_atime_nsec()), (5, 7, 5, 7));
    assert_eq!((md.mtime(), md.mtime_nsec(), md.st_mtime(), md.st_mtime_nsec()), (6, 8, 6, 8));
    assert_eq!((md.ctime(), md.ctime_nsec(), md.st_ctime(), md.st_ctime_nsec()), (7, 9, 7, 9));
    assert_eq!((md.blksize(), md.st_blksize(), md.blocks(), md.st_blocks()), (4096, 4096, 8, 8));
    assert_eq!((md.st_subvol(), md.st_attributes()), (Some(3), Some(4)));
    assert_eq!(md.accessed(), 5_000_000_007);
    assert_eq!(md.modified(), 6_000_000_008);
    assert_eq!(md.created(), Some(-1_500_000_000));
}

#[test]
fn times_before_the_epoch_are_negative() {
    assert_eq!(timestamp_to_nanos(Timestamp { secs: -1, nanos: 0 }), -1_000_000_000);
    assert_eq!(timestamp_to_nanos(Timestamp { secs: -1, nanos: 999_999_999 }), -1);
    assert_eq!(timestamp_to_nanos(Timestamp { secs: 0, nanos: 1 }), 1);
}

#[test]
fn plain_fields_make_metadata_too() {
    let time = Timestamp { secs: 1, nanos: 2 };
    let md = Metadata::from_std(Fields {
        mode: S_IFREG,
        size: 3,
        dev: 4,
        ino: 5,
        nlink: 6,
        uid: 7,
        gid: 8,
        rdev: 9,
        accessed: time,
        created: None,
        modified: time,
        changed: time,
        blksize: 10,
        blocks: 11,
        subvol: None,
        attributes: None,
    });
    assert_eq!(md.created(), None);
    assert_eq!(md.dev(), 4);
    assert_eq!(md.st_subvol(), None);
}

#[test]
fn fs_read_write_helpers_work() {
    let contents = b"hello world";
    // Each write takes at most four bytes, and each read gives at most three.
    let mut file = Vec::new();
    let (mut write, mut step) = WriteAll::new(contents.to_vec());
    loop {
        step = match step {
            WriteAllStep::Write => {
                let n = write.rest.len().min(4);
                file.extend_from_slice(&write.rest[..n]);
                write.on_write(Ok(n))
            }
            WriteAllStep::Flush => break,
            WriteAllStep::Fail(error) => panic!("{error:?}"),
        };
    }
    let mut read = ReadAll::new();
    let mut from = 0;
    loop {
        let to = (from + 3).min(file.len());
        match read.on_read(Ok(file[from..to].to_vec())) {
            ReadAllStep::Read => from = to,
            ReadAllStep::Done => break,
            ReadAllStep::Fail(error) => panic!("{error:?}"),
        }
    }
    assert_eq!(read.bytes, contents);
    assert_eq!(String::from_utf8(read.bytes).unwrap(), "hello world");
}

#[test]
fn file_read_at_and_write_exact_at_work() {
    let mut file: Vec<u8> = Vec::new();
    let buffer = b"abcdef";
    let (mut write, mut step) = ExactAt::new(Direction::Write, buffer.len(), 0);
    while let ExactStep::Go(offset, done) = step {
        let n = (buffer.len() - done).min(4);
        file.resize(file.len().max(offset as usize + n), 0);
        file[offset as usize..offset as usize + n].copy_from_slice(&buffer[done..done + n]);
        step = write.on_result(Ok(n));
    }
    assert_eq!(step, ExactStep::Done);
    let mut out = [0u8; 4];
    let (mut read, mut step) = ExactAt::new(Direction::Read, out.len(), 2);
    while let ExactStep::Go(offset, done) = step {
        out[done] = file[offset as usize];
        step = read.on_result(Ok(1));
    }
    assert_eq!(step, ExactStep::Done);
    assert_eq!(&out, b"cdef");
}

#[test]
fn creating_again_changes_nothing() {
    let mut dirs = HashSet::new();
    let files: HashSet<String> = HashSet::from(["x/file".to_string()]);
    assert_eq!(create_all(&mut dirs, &files, "x/y/z"), Ok(()));
    let before = dirs.clone();
    assert_eq!(create_all(&mut dirs, &files, "x/y/z"), Ok(()));
    assert_eq!(create_all(&mut dirs, &files, "x/y"), Ok(()));
    assert_eq!(create_all(&mut dirs, &files, "x/file"), Err(Error::Os(EEXIST)));
    assert_eq!(dirs, before);
}

#[test]
fn results_of_creating_tell_what_came_of_it() {
    assert_eq!((ENOENT, EEXIST, ENOTDIR), (libc::ENOENT, libc::EEXIST, libc::ENOTDIR));
    assert_eq!(created_of(Ok(())), Created::New);
    assert_eq!(
        created_of(Err(Error::Os(EEXIST))),
        Created::Exists(Error::Os(EEXIST))
    );
    assert_eq!(
        created_of(Err(Error::Os(ENOENT))),
        Created::NoParent(Error::Os(ENOENT))
    );
    assert_eq!(
        created_of(Err(Error::Os(ENOTDIR))),
        Created::Failed(Error::Os(ENOTDIR))
    );
    let gone = Error::Custom(ErrorKind::NotFound, "gone");
    assert_eq!(created_of(Err(gone)), Created::NoParent(gone));
    let other = Error::Custom(ErrorKind::Other, "other");
    assert_eq!(created_of(Err(other)), Created::Failed(other));
}

#[test]
fn spans_from_the_epoch_become_points_in_time() {
    assert_eq!(timestamp_at(false, 5, 7), Timestamp { secs: 5, nanos: 7 });
    assert_eq!(timestamp_at(true, 5, 0), Timestamp { secs: -5, nanos: 0 });
    let early = timestamp_at(true, 0, 1);
    assert_eq!(early, Timestamp { secs: -1, nanos: 999_999_999 });
    assert_eq!(timestamp_to_nanos(early), -1);
}
