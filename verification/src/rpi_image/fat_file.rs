//! Files in the working copy of the boot (FAT) partition, and the paths that
//! lead to them: which directory a file goes in, and which directories must
//! exist (or be created) on the way to it.
use crate::rpi_image::Error;
use crate::text::{chars_of, push_str_chars, string_of};
use vstd::prelude::*;

verus! {

/// A temporary file that holds the bytes of a boot partition, before it is
/// mounted as a [`FatWorkspace`].
#[verifier::external_body]
pub struct WorkspaceFile {
    pub file: tempfile::NamedTempFile,
}

/// The working copy of a boot partition: a FAT file system opened on a
/// temporary file with [`FatWorkspace::mount`].
///
/// `fatfs` hands out directory and file handles that borrow the file system
/// and write through it. Each operation below therefore opens, uses and drops
/// its handles within one call, so that what it does to the files can be
/// stated over the workspace itself.
#[verifier::external_body]
pub struct FatWorkspace {
    fs: fatfs::FileSystem<fscommon::BufStream<tempfile::NamedTempFile>>,
}

/// The contents of the files of a workspace, each file known by an identity
/// of its own (its directory entry), whatever path names it.
pub uninterp spec fn workspace_files(ws: FatWorkspace) -> Map<nat, Seq<u8>>;

/// The file that `path` names in a workspace, where it names one: the file
/// that `Dir::open_file` opens for this path from the root. Several paths
/// may name one file (letters in other case, short names, `..`).
pub uninterp spec fn workspace_file_at(ws: FatWorkspace, path: Seq<char>) -> Option<nat>;

/// The directories of a workspace: the paths that `Dir::open_dir` opens from
/// the root.
pub uninterp spec fn workspace_dirs(ws: FatWorkspace) -> Set<Seq<char>>;

/// What the file that `path` names holds, where it names one.
pub open spec fn contents_at(ws: FatWorkspace, path: Seq<char>) -> Option<Seq<u8>> {
    match workspace_file_at(ws, path) {
        Some(id) => if workspace_files(ws).contains_key(id) {
            Some(workspace_files(ws)[id])
        } else {
            None
        },
        None => None,
    }
}

/// What the file that `path` names holds, or nothing where it names none.
pub open spec fn contents_or_empty(ws: FatWorkspace, path: Seq<char>) -> Seq<u8> {
    match contents_at(ws, path) {
        Some(c) => c,
        None => seq![],
    }
}

/// Whether `after` keeps what `before` holds, but for the file `changed`:
/// a path that named a file still names it, every other file keeps its
/// contents, and no directory goes away.
pub open spec fn keeps_others(before: FatWorkspace, after: FatWorkspace, changed: Option<nat>) -> bool {
    &&& forall|p: Seq<char>| #[trigger]
        workspace_file_at(before, p) is Some ==> workspace_file_at(after, p) == workspace_file_at(before, p)
    &&& forall|id: nat|
        #![trigger workspace_files(after).contains_key(id)]
        #![trigger workspace_files(before).contains_key(id)]
        changed != Some(id) ==> (workspace_files(after).contains_key(id) == workspace_files(before).contains_key(id))
            && (workspace_files(before).contains_key(id) ==> workspace_files(after)[id] == workspace_files(
            before,
        )[id])
    &&& workspace_dirs(before).subset_of(workspace_dirs(after))
}

/// Whether no piece of `path` between slashes is `.` or `..`: such a path
/// names what its names lead to, without going back up.
pub open spec fn dots_free(path: Seq<char>) -> bool {
    forall|i: int|
        0 <= i < path_segments(path).len() ==> #[trigger] path_segments(path)[i] != seq!['.']
            && path_segments(path)[i] != seq!['.', '.']
}

/// Whether `after` differs from `before` in directories only: `after` keeps
/// what `before` holds, and a path without `.` or `..` names the same file,
/// or none, in both.
pub open spec fn dirs_only(before: FatWorkspace, after: FatWorkspace) -> bool {
    &&& keeps_others(before, after, None)
    &&& forall|p: Seq<char>| dots_free(p) ==> #[trigger] workspace_file_at(after, p) == workspace_file_at(before, p)
}

/// What the file that `path` names in `after` held in `before`: nothing
/// where that file is not a file of `before`.
pub open spec fn prior_of(before: FatWorkspace, after: FatWorkspace, path: Seq<char>) -> Seq<u8> {
    match workspace_file_at(after, path) {
        Some(id) => if workspace_files(before).contains_key(id) {
            workspace_files(before)[id]
        } else {
            seq![]
        },
        None => seq![],
    }
}

/// Whether the file that `path` names in `after`, if any, is not a file of
/// `before`.
pub open spec fn names_new_file(before: FatWorkspace, after: FatWorkspace, path: Seq<char>) -> bool {
    workspace_file_at(after, path) matches Some(id) ==> !workspace_files(before).contains_key(id)
}

/// Whether the FAT volume of a workspace is well formed in the ways that
/// keep its files apart when `fatfs` writes to it: the cluster chains of its
/// files and directories share no cluster, and no cluster of a chain is
/// marked free in the FAT; in every directory, no entry has a blank short
/// name, and an entry whose long name `fatfs` would convert to a short name
/// without loss (as it converts the names of the entries it creates) has
/// that short name. `fatfs` does not check this when it mounts a volume; a
/// volume that a FAT formatter made and `fatfs` wrote to is well formed.
pub uninterp spec fn workspace_sound(ws: FatWorkspace) -> bool;

/// Opens the existing directory at `path` from the root (`Dir::open_dir`).
/// Claims that, when it opens, `path` names a directory of the workspace.
#[verifier::external_body]
fn ws_open_dir(ws: &FatWorkspace, path: &str) -> (r: std::io::Result<()>)
    ensures
        r is Ok ==> workspace_dirs(*ws).contains(path@),
{
    ws.fs.root_dir().open_dir(path)?;
    Ok(())
}

/// Creates the directory at `path` from the root, or opens it where it
/// exists (`Dir::create_dir`). On a well-formed volume, claims that it stays
/// well formed, that, when it succeeds, `path` names a directory, and,
/// whatever the outcome, that only directory entries are written: no file
/// changes or goes away, no directory goes away, and a path without `.` or
/// `..` names the same file as before (a new directory holds only its `.`
/// and `..` entries, so only paths through `..` can reach files through it).
/// Of a volume that is not well formed nothing is claimed: a cluster that is
/// marked free but in use, or a cross-linked chain, lets the new directory
/// overwrite other data.
#[verifier::external_body]
fn ws_create_dir(ws: &mut FatWorkspace, path: &str) -> (r: std::io::Result<()>)
    ensures
        workspace_sound(*old(ws)) ==> workspace_sound(*final(ws)) && dirs_only(*old(ws), *final(ws)),
        workspace_sound(*old(ws)) && r is Ok ==> workspace_dirs(*final(ws)).contains(path@),
{
    ws.fs.root_dir().create_dir(path)?;
    Ok(())
}

/// Reads the whole file at `path` (`Dir::open_file`, then
/// `Read::read_to_end`). Claims that what it reads is what the file that
/// `path` names holds.
#[verifier::external_body]
fn ws_read_file(ws: &FatWorkspace, path: &str) -> (r: std::io::Result<Vec<u8>>)
    ensures
        r matches Ok(v) ==> (workspace_file_at(*ws, path@) matches Some(id) && workspace_files(
            *ws,
        ).contains_key(id) && workspace_files(*ws)[id] == v@),
{
    let mut file = ws.fs.root_dir().open_file(path)?;
    let mut buf = Vec::new();
    std::io::Read::read_to_end(&mut file, &mut buf)?;
    Ok(buf)
}

/// Creates (or opens) the file at `path`, cuts it and writes `bytes` into it
/// (`Dir::create_file`, `File::truncate`, `Write::write_all`,
/// `Write::flush`). On a well-formed volume, claims that it stays well
/// formed, that, when all of that succeeds, the file that `path` names holds
/// `bytes`, and, whatever the outcome, that no other file changes. Of a
/// volume that is not well formed nothing is claimed.
#[verifier::external_body]
fn ws_replace_file(ws: &mut FatWorkspace, path: &str, bytes: &[u8]) -> (r: std::io::Result<()>)
    ensures
        workspace_sound(*old(ws)) ==> workspace_sound(*final(ws)) && keeps_others(
            *old(ws),
            *final(ws),
            workspace_file_at(*final(ws), path@),
        ),
        workspace_sound(*old(ws)) && r is Ok ==> contents_at(*final(ws), path@) == Some(bytes@),
{
    let mut file = ws.fs.root_dir().create_file(path)?;
    file.truncate()?;
    std::io::Write::write_all(&mut file, bytes)?;
    std::io::Write::flush(&mut file)
}

/// Opens the existing file at `path` (`Dir::open_file`); where that fails,
/// gives its error and changes nothing. Otherwise writes `bytes` at its end
/// (`Seek::seek` to the end, `Write::write_all`, `Write::flush`) and gives
/// that outcome. On a well-formed volume, claims that it stays well formed,
/// that only that file changes and, when it succeeds, that it holds what it
/// held before followed by `bytes`. Of a volume that is not well formed only
/// the first part is claimed.
#[verifier::external_body]
fn ws_append_existing(ws: &mut FatWorkspace, path: &str, bytes: &[u8]) -> (r: Result<
    std::io::Result<()>,
    std::io::Error,
>)
    ensures
        r is Err ==> *final(ws) == *old(ws),
        r is Ok ==> contents_at(*old(ws), path@) is Some,
        workspace_sound(*old(ws)) ==> workspace_sound(*final(ws)),
        workspace_sound(*old(ws)) && r is Ok ==> keeps_others(
            *old(ws),
            *final(ws),
            workspace_file_at(*old(ws), path@),
        ),
        workspace_sound(*old(ws)) ==> (r matches Ok(w) ==> (w is Ok ==> contents_at(*final(ws), path@) == Some(
            contents_or_empty(*old(ws), path@) + bytes@,
        ))),
{
    let mut file = ws.fs.root_dir().open_file(path)?;
    if let Err(e) = std::io::Seek::seek(&mut file, std::io::SeekFrom::End(0)) {
        return Ok(Err(e));
    }
    if let Err(e) = std::io::Write::write_all(&mut file, bytes) {
        return Ok(Err(e));
    }
    Ok(std::io::Write::flush(&mut file))
}

/// Creates (or opens) the file at `path` (`Dir::create_file`) and writes
/// `bytes` at its end (`Seek::seek` to the end, `Write::write_all`,
/// `Write::flush`). On a well-formed volume, claims that it stays well
/// formed, that no other file changes, that where `path` named no file the
/// file it names afterwards is a new one (`Dir::create_file` looks the name
/// up as `Dir::open_file` does, and creates an entry only where none
/// answers to it), and, when it succeeds, that the file holds what it held
/// before, if it existed, followed by `bytes`. Of a volume that is not well
/// formed nothing is claimed.
#[verifier::external_body]
fn ws_append_created(ws: &mut FatWorkspace, path: &str, bytes: &[u8]) -> (r: std::io::Result<()>)
    ensures
        workspace_sound(*old(ws)) ==> workspace_sound(*final(ws)) && keeps_others(
            *old(ws),
            *final(ws),
            workspace_file_at(*final(ws), path@),
        ),
        workspace_sound(*old(ws)) && contents_at(*old(ws), path@) is None ==> names_new_file(
            *old(ws),
            *final(ws),
            path@,
        ),
        workspace_sound(*old(ws)) && r is Ok ==> contents_at(*final(ws), path@) == Some(
            prior_of(*old(ws), *final(ws), path@) + bytes@,
        ),
{
    let mut file = ws.fs.root_dir().create_file(path)?;
    std::io::Seek::seek(&mut file, std::io::SeekFrom::End(0))?;
    std::io::Write::write_all(&mut file, bytes)?;
    std::io::Write::flush(&mut file)
}

/// Creates (or opens) the file at `path`, cuts it, copies the rest of `src`
/// into it (`Dir::create_file`, `File::truncate`, `std::io::copy`,
/// `Write::flush`) and gives the number of bytes copied. On a well-formed
/// volume, claims that it stays well formed, that no other file changes
/// and, when it succeeds, that the file holds as many bytes as were copied;
/// which bytes depends on `src` and is not claimed. Of a volume that is not
/// well formed nothing is claimed.
#[verifier::external_body]
fn ws_copy_into<R: std::io::Read>(ws: &mut FatWorkspace, path: &str, src: &mut R) -> (r: std::io::Result<u64>)
    ensures
        workspace_sound(*old(ws)) ==> workspace_sound(*final(ws)) && keeps_others(
            *old(ws),
            *final(ws),
            workspace_file_at(*final(ws), path@),
        ),
        workspace_sound(*old(ws)) ==> (r matches Ok(n) ==> (contents_at(*final(ws), path@) matches Some(c)
            && c.len() == n)),
{
    let mut file = ws.fs.root_dir().create_file(path)?;
    file.truncate()?;
    let n = std::io::copy(src, &mut file)?;
    std::io::Write::flush(&mut file)?;
    Ok(n)
}

/// The offset of a workspace file's handle: where its next read or write
/// starts, as `Seek::seek` with `SeekFrom::Current(0)` reports it.
pub uninterp spec fn workspace_file_offset(file: WorkspaceFile) -> u64;

/// Moves a workspace file's offset to its start (`Seek::seek` with
/// `SeekFrom::Start(0)`). Claims that, when it succeeds, it reports the new
/// offset, 0, and the offset is 0.
#[verifier::external_body]
fn rewind_file(file: &mut WorkspaceFile) -> (r: std::io::Result<u64>)
    ensures
        r matches Ok(n) ==> n == 0 && workspace_file_offset(*final(file)) == 0,
{
    std::io::Seek::seek(&mut file.file, std::io::SeekFrom::Start(0))
}

/// Opens the FAT file system held in a workspace file
/// (`fatfs::FileSystem::new` over `fscommon::BufStream::new`, with default
/// options). `FileSystem::new` asserts, in debug builds, that the file is
/// at offset 0; the contract asks for it. Whether the file system opens
/// depends on the bytes in the file; nothing is claimed.
#[verifier::external_body]
fn mount_file(file: WorkspaceFile) -> std::io::Result<FatWorkspace>
    requires
        workspace_file_offset(file) == 0,
{
    let fs = fatfs::FileSystem::new(fscommon::BufStream::new(file.file), fatfs::FsOptions::new())?;
    Ok(FatWorkspace { fs })
}

impl FatWorkspace {
    /// Opens the FAT file system held in `file`, read from its start. A file
    /// that cannot be rewound, or that holds no FAT file system, is an `Io`
    /// error.
    pub fn mount(file: WorkspaceFile) -> (r: Result<FatWorkspace, Error>)
        ensures
            r matches Err(e) ==> e is Io,
    {
        let mut file = file;
        match rewind_file(&mut file) {
            Ok(_) => {},
            Err(e) => {
                return Err(Error::Io(e));
            },
        }
        match mount_file(file) {
            Ok(ws) => Ok(ws),
            Err(e) => Err(Error::Io(e)),
        }
    }
}

/// Whether the directory `path` exists in the workspace: `true` only when it
/// opens.
pub fn dir_exists(fat: &FatWorkspace, path: &str) -> (r: bool)
    ensures
        r ==> workspace_dirs(*fat).contains(path@),
{
    ws_open_dir(fat, path).is_ok()
}

/// `keeps_others` holds along two steps of which the first changes no file.
proof fn lemma_keeps_others_after_dirs(a: FatWorkspace, b: FatWorkspace, c: FatWorkspace, changed: Option<nat>)
    requires
        keeps_others(a, b, None),
        keeps_others(b, c, changed),
    ensures
        keeps_others(a, c, changed),
{
    assert forall|p: Seq<char>| #[trigger] workspace_file_at(a, p) is Some implies workspace_file_at(c, p)
        == workspace_file_at(a, p) by {
        assert(workspace_file_at(b, p) == workspace_file_at(a, p));
    }
    assert forall|id: nat| changed != Some(id) implies (workspace_files(c).contains_key(id)
        == workspace_files(a).contains_key(id)) && (workspace_files(a).contains_key(id)
        ==> workspace_files(c)[id] == workspace_files(a)[id]) by {
        assert(workspace_files(b).contains_key(id) == workspace_files(a).contains_key(id));
        assert(workspace_files(c).contains_key(id) == workspace_files(b).contains_key(id));
    }
}

/// A step that changes no file changes at most any one file.
proof fn lemma_keeps_others_weaken(a: FatWorkspace, b: FatWorkspace, changed: Option<nat>)
    requires
        keeps_others(a, b, None),
    ensures
        keeps_others(a, b, changed),
{
    assert forall|id: nat| changed != Some(id) implies (workspace_files(b).contains_key(id)
        == workspace_files(a).contains_key(id)) && (workspace_files(a).contains_key(id)
        ==> workspace_files(b)[id] == workspace_files(a)[id]) by {
        assert(workspace_files(b).contains_key(id) == workspace_files(a).contains_key(id));
    }
}

/// `dirs_only` holds along two steps that each change directories only.
proof fn lemma_dirs_only_trans(a: FatWorkspace, b: FatWorkspace, c: FatWorkspace)
    requires
        dirs_only(a, b),
        dirs_only(b, c),
    ensures
        dirs_only(a, c),
{
    lemma_keeps_others_after_dirs(a, b, c, None);
    assert forall|p: Seq<char>| dots_free(p) implies #[trigger] workspace_file_at(c, p) == workspace_file_at(
        a,
        p,
    ) by {
        assert(workspace_file_at(b, p) == workspace_file_at(a, p));
    }
}

/// A step that changes nothing changes directories only.
proof fn lemma_dirs_only_refl(a: FatWorkspace)
    ensures
        dirs_only(a, a),
{
}

/// `names` joined with slashes: the path of the directory that the names
/// lead to from the root.
pub open spec fn joined_path(names: Seq<Seq<char>>) -> Seq<char>
    decreases names.len(),
{
    if names.len() == 0 {
        seq![]
    } else if names.len() == 1 {
        names[0]
    } else {
        joined_path(names.drop_last()) + seq!['/'] + names.last()
    }
}

/// Whether every directory along `path` exists in `ws`: for each of its
/// names, the path that leads from the root to it.
pub open spec fn has_dirs_along(ws: FatWorkspace, path: Seq<char>) -> bool {
    forall|i: int|
        0 <= i < path_segments(path).len() ==> workspace_dirs(ws).contains(
            #[trigger] joined_path(path_segments(path).take(i + 1)),
        )
}

/// Whether the directories that lead to the file `path` exist in `ws`.
pub open spec fn has_parent_dirs(ws: FatWorkspace, path: Seq<char>) -> bool {
    match parent_dir_model(path) {
        Some(d) => has_dirs_along(ws, d),
        None => true,
    }
}

/// Opens every directory along `fat_path` from the root, creating each one
/// that cannot be opened; a path with no names (empty, or only slashes) needs
/// nothing. A directory that can be neither opened nor created is an `Io`
/// error. On a well-formed volume, afterwards every directory along the path
/// exists, the volume is still well formed, and only directories are added:
/// no file changes, and no directory goes away.
pub fn create_dir_r(fat: &mut FatWorkspace, fat_path: &str) -> (r: Result<(), Error>)
    ensures
        workspace_sound(*old(fat)) ==> workspace_sound(*final(fat)) && dirs_only(*old(fat), *final(fat)),
        workspace_sound(*old(fat)) && r is Ok ==> has_dirs_along(*final(fat), fat_path@),
        r matches Err(e) ==> e is Io,
{
    let names = dir_components(fat_path);
    let ghost segs = path_segments(fat_path@);
    let mut prefix: Vec<char> = Vec::new();
    let mut i: usize = 0;
    proof {
        lemma_dirs_only_refl(*fat);
    }
    while i < names.len()
        invariant
            names@.map_values(|s: String| s@) == segs,
            segs == path_segments(fat_path@),
            i <= names@.len(),
            i == 0 ==> prefix@ == Seq::<char>::empty(),
            i > 0 ==> prefix@ == joined_path(segs.take(i as int)),
            workspace_sound(*old(fat)) ==> workspace_sound(*fat) && dirs_only(*old(fat), *fat),
            workspace_sound(*old(fat)) ==> forall|j: int|
                0 <= j < i ==> workspace_dirs(*fat).contains(#[trigger] joined_path(segs.take(j + 1))),
        decreases names@.len() - i,
    {
        if i > 0 {
            prefix.push('/');
        }
        push_str_chars(&mut prefix, names[i].as_str());
        proof {
            let t = segs.take(i + 1);
            assert(names@[i as int]@ == segs[i as int]);
            assert(t.last() == segs[i as int]);
            if i > 0 {
                assert(t.drop_last() =~= segs.take(i as int));
            } else {
                assert(seq![segs[0]] =~= t);
            }
            assert(prefix@ =~= joined_path(t));
        }
        let dir = string_of(prefix.as_slice());
        match ws_open_dir(fat, dir.as_str()) {
            Ok(()) => {},
            Err(_) => {
                let ghost before = *fat;
                let made = ws_create_dir(fat, dir.as_str());
                proof {
                    if workspace_sound(*old(fat)) {
                        lemma_dirs_only_trans(*old(fat), before, *fat);
                    }
                }
                match made {
                    Ok(()) => {},
                    Err(e) => {
                        return Err(Error::Io(e));
                    },
                }
            },
        }
        i = i + 1;
    }
    Ok(())
}

/// Directories that exist keep existing as more are made.
proof fn lemma_parent_dirs_kept(before: FatWorkspace, after: FatWorkspace, path: Seq<char>)
    requires
        has_parent_dirs(before, path),
        workspace_dirs(before).subset_of(workspace_dirs(after)),
    ensures
        has_parent_dirs(after, path),
{
    if let Some(d) = parent_dir_model(path) {
        assert forall|i: int| 0 <= i < path_segments(d).len() implies workspace_dirs(after).contains(
            #[trigger] joined_path(path_segments(d).take(i + 1)),
        ) by {
            assert(workspace_dirs(before).contains(joined_path(path_segments(d).take(i + 1))));
        }
    }
}

/// Creates the directories that lead to the file `fat_path`, where the path
/// has a directory part.
fn create_parent_dirs(fat: &mut FatWorkspace, fat_path: &str) -> (r: Result<(), Error>)
    ensures
        workspace_sound(*old(fat)) ==> workspace_sound(*final(fat)) && dirs_only(*old(fat), *final(fat)),
        workspace_sound(*old(fat)) && r is Ok ==> has_parent_dirs(*final(fat), fat_path@),
        r matches Err(e) ==> e is Io,
{
    match parent_dir(fat_path) {
        Some(dir) => create_dir_r(fat, dir.as_str()),
        None => {
            proof {
                lemma_dirs_only_refl(*fat);
            }
            Ok(())
        },
    }
}

/// The contents of the file at `fat_path`: what the file that the path names
/// holds. A file that cannot be opened or read is an `Io` error.
pub fn read_file(fat: &FatWorkspace, fat_path: &str) -> (r: Result<Vec<u8>, Error>)
    ensures
        r matches Ok(v) ==> contents_at(*fat, fat_path@) == Some(v@),
        r matches Err(e) ==> e is Io,
{
    match ws_read_file(fat, fat_path) {
        Ok(v) => Ok(v),
        Err(e) => Err(Error::Io(e)),
    }
}

/// Creates or replaces the file at `fat_path`, with the directories that lead
/// to it, with the rest of `external_file`; returns the number of bytes
/// copied. A failure is an `Io` error. On a well-formed volume, the file then
/// holds as many bytes as were copied, the volume is still well formed, and
/// no other file changes.
pub fn write_file<R: std::io::Read>(fat: &mut FatWorkspace, fat_path: &str, external_file: &mut R) -> (r:
    Result<u64, Error>)
    ensures
        workspace_sound(*old(fat)) ==> workspace_sound(*final(fat)) && keeps_others(
            *old(fat),
            *final(fat),
            workspace_file_at(*final(fat), fat_path@),
        ),
        workspace_sound(*old(fat)) ==> (r matches Ok(n) ==> (contents_at(*final(fat), fat_path@) matches Some(c)
            && c.len() == n)),
        workspace_sound(*old(fat)) && r is Ok ==> has_parent_dirs(*final(fat), fat_path@),
        r matches Err(e) ==> e is Io,
{
    let made = create_parent_dirs(fat, fat_path);
    let ghost w1 = *fat;
    match made {
        Ok(()) => {},
        Err(e) => {
            proof {
                if workspace_sound(*old(fat)) {
                    lemma_keeps_others_weaken(*old(fat), w1, workspace_file_at(w1, fat_path@));
                }
            }
            return Err(e);
        },
    }
    let r = ws_copy_into(fat, fat_path, external_file);
    proof {
        if workspace_sound(*old(fat)) {
            lemma_parent_dirs_kept(w1, *fat, fat_path@);
            lemma_keeps_others_after_dirs(*old(fat), w1, *fat, workspace_file_at(*fat, fat_path@));
        }
    }
    match r {
        Ok(n) => Ok(n),
        Err(e) => Err(Error::Io(e)),
    }
}

/// Creates or replaces the file at `fat_path` with `bytes`, creating the
/// directories that lead to it where needed; returns the number of bytes
/// written, which is all of them. A failure is an `Io` error. On a
/// well-formed volume, afterwards the path names a file that holds exactly
/// `bytes`, the volume is still well formed, and no other file has changed.
pub fn write_bytes(fat: &mut FatWorkspace, fat_path: &str, bytes: &[u8]) -> (r: Result<u64, Error>)
    ensures
        workspace_sound(*old(fat)) ==> workspace_sound(*final(fat)) && keeps_others(
            *old(fat),
            *final(fat),
            workspace_file_at(*final(fat), fat_path@),
        ),
        r matches Ok(n) ==> n == bytes@.len(),
        workspace_sound(*old(fat)) && r is Ok ==> contents_at(*final(fat), fat_path@) == Some(bytes@),
        workspace_sound(*old(fat)) && r is Ok ==> has_parent_dirs(*final(fat), fat_path@),
        r matches Err(e) ==> e is Io,
{
    let made = create_parent_dirs(fat, fat_path);
    let ghost w1 = *fat;
    match made {
        Ok(()) => {},
        Err(e) => {
            proof {
                if workspace_sound(*old(fat)) {
                    lemma_keeps_others_weaken(*old(fat), w1, workspace_file_at(w1, fat_path@));
                }
            }
            return Err(e);
        },
    }
    let r = ws_replace_file(fat, fat_path, bytes);
    proof {
        if workspace_sound(*old(fat)) {
            lemma_parent_dirs_kept(w1, *fat, fat_path@);
            lemma_keeps_others_after_dirs(*old(fat), w1, *fat, workspace_file_at(*fat, fat_path@));
        }
    }
    match r {
        Ok(()) => Ok(bytes.len() as u64),
        Err(e) => Err(Error::Io(e)),
    }
}

/// A step that changes no file leaves every file's contents as they were.
proof fn lemma_dirs_keep_files(a: FatWorkspace, b: FatWorkspace)
    requires
        keeps_others(a, b, None),
    ensures
        workspace_files(b) == workspace_files(a),
{
    assert forall|id: nat| #[trigger] workspace_files(b).contains_key(id) == workspace_files(a).contains_key(id)
        by {}
    assert(workspace_files(b) =~= workspace_files(a));
}

/// Adds `bytes` at the end of the file at `fat_path`, creating it and the
/// directories that lead to it where needed; returns the number of bytes
/// written, which is all of them. A failure is an `Io` error. On a
/// well-formed volume the volume is still well formed, no other file changes,
/// and afterwards the path names a file that holds what that file held
/// before (nothing, where it is new) followed by `bytes`. Where the path
/// named a file before, that is the same file; where it named none and has
/// no `.` or `..` piece, the file is new.
pub fn append_bytes(fat: &mut FatWorkspace, fat_path: &str, bytes: &[u8]) -> (r: Result<u64, Error>)
    ensures
        workspace_sound(*old(fat)) ==> workspace_sound(*final(fat)) && keeps_others(
            *old(fat),
            *final(fat),
            workspace_file_at(*final(fat), fat_path@),
        ),
        r matches Ok(n) ==> n == bytes@.len(),
        workspace_sound(*old(fat)) && r is Ok ==> contents_at(*final(fat), fat_path@) == Some(
            prior_of(*old(fat), *final(fat), fat_path@) + bytes@,
        ),
        workspace_sound(*old(fat)) && r is Ok && contents_at(*old(fat), fat_path@) is None && dots_free(
            fat_path@,
        ) ==> names_new_file(*old(fat), *final(fat), fat_path@),
        workspace_sound(*old(fat)) && r is Ok ==> has_parent_dirs(*final(fat), fat_path@),
        r matches Err(e) ==> e is Io,
{
    let made = create_parent_dirs(fat, fat_path);
    let ghost w1 = *fat;
    match made {
        Ok(()) => {},
        Err(e) => {
            proof {
                if workspace_sound(*old(fat)) {
                    lemma_keeps_others_weaken(*old(fat), w1, workspace_file_at(w1, fat_path@));
                }
            }
            return Err(e);
        },
    }
    proof {
        if workspace_sound(*old(fat)) {
            lemma_dirs_keep_files(*old(fat), w1);
            if dots_free(fat_path@) {
                assert(workspace_file_at(w1, fat_path@) == workspace_file_at(*old(fat), fat_path@));
                assert(contents_at(w1, fat_path@) == contents_at(*old(fat), fat_path@));
            }
        }
    }
    let written = match ws_append_existing(fat, fat_path, bytes) {
        Ok(w) => {
            proof {
                if workspace_sound(*old(fat)) {
                    let id = workspace_file_at(w1, fat_path@);
                    assert(workspace_file_at(*fat, fat_path@) == id);
                    assert(prior_of(w1, *fat, fat_path@) == contents_or_empty(w1, fat_path@));
                }
            }
            w
        },
        Err(_) => ws_append_created(fat, fat_path, bytes),
    };
    proof {
        if workspace_sound(*old(fat)) {
            lemma_parent_dirs_kept(w1, *fat, fat_path@);
            lemma_keeps_others_after_dirs(*old(fat), w1, *fat, workspace_file_at(*fat, fat_path@));
            assert(prior_of(w1, *fat, fat_path@) == prior_of(*old(fat), *fat, fat_path@));
        }
    }
    match written {
        Ok(()) => Ok(bytes.len() as u64),
        Err(e) => Err(Error::Io(e)),
    }
}

/// A read of a path gives back what the last write to it put there, though
/// other files were written in between: once a write has left `bytes` in
/// the file that `path` names (in `written`), a step to `later` that changes
/// at most a file other than that one (such as, on a well-formed volume, a
/// `write_bytes`, `append_bytes` or `write_file` to a path that names
/// another file, or `create_dir_r`) keeps it, so a read of `path` from
/// `later` that succeeds gives `bytes`.
pub proof fn lemma_read_after_write(
    written: FatWorkspace,
    later: FatWorkspace,
    path: Seq<char>,
    bytes: Seq<u8>,
    changed: Option<nat>,
    read: Seq<u8>,
)
    requires
        contents_at(written, path) == Some(bytes),
        keeps_others(written, later, changed),
        changed != workspace_file_at(later, path),
        contents_at(later, path) == Some(read),
    ensures
        read == bytes,
{
    let id = workspace_file_at(written, path)->0;
    assert(workspace_file_at(later, path) == workspace_file_at(written, path));
    assert(workspace_files(written).contains_key(id));
}

/// Writing a file changes no other file: when a step changes at most the
/// file that `path` names afterwards, every file that another path `other`
/// named before, other than that one, keeps its contents.
pub proof fn lemma_write_keeps_other_files(before: FatWorkspace, after: FatWorkspace, path: Seq<char>, other: Seq<char>)
    requires
        keeps_others(before, after, workspace_file_at(after, path)),
        contents_at(before, other) is Some,
        workspace_file_at(before, other) != workspace_file_at(after, path),
    ensures
        contents_at(after, other) == contents_at(before, other),
{
    let id = workspace_file_at(before, other)->0;
    assert(workspace_file_at(after, other) == workspace_file_at(before, other));
    assert(workspace_files(before).contains_key(id));
}

/// A read after an append gives what the file held before followed by the
/// appended bytes. Once `append_bytes` has taken a well-formed workspace
/// from `before` to `after` (so that only the file that `path` names in
/// `after` changed, and it holds what it held in `before`, if anything,
/// followed by `bytes`), a read of `path` from `after` gives the old
/// contents of the file that `path` named and then `bytes`. Where `path`
/// named no file, it gives `bytes` exactly when the file it names now held
/// nothing before, as a new file does; a path through `..` and a directory
/// that the append created can lead to a file that already held bytes.
pub proof fn lemma_read_after_append(
    before: FatWorkspace,
    after: FatWorkspace,
    path: Seq<char>,
    bytes: Seq<u8>,
    read: Seq<u8>,
)
    requires
        keeps_others(before, after, workspace_file_at(after, path)),
        contents_at(after, path) == Some(prior_of(before, after, path) + bytes),
        contents_at(after, path) == Some(read),
    ensures
        read == prior_of(before, after, path) + bytes,
        contents_at(before, path) matches Some(o) ==> read == o + bytes,
        contents_at(before, path) is None && prior_of(before, after, path).len() == 0 ==> read == bytes,
        names_new_file(before, after, path) ==> prior_of(before, after, path).len() == 0,
{
    if let Some(o) = contents_at(before, path) {
        assert(workspace_file_at(after, path) == workspace_file_at(before, path));
    } else if prior_of(before, after, path).len() == 0 {
        assert(prior_of(before, after, path) + bytes =~= bytes);
    }
}

/// `s` without its leading slashes.
pub open spec fn trim_slashes_start(s: Seq<char>) -> Seq<char>
    decreases s.len(),
{
    if s.len() > 0 && s[0] == '/' {
        trim_slashes_start(s.drop_first())
    } else {
        s
    }
}

/// `s` without its trailing slashes.
pub open spec fn trim_slashes_end(s: Seq<char>) -> Seq<char>
    decreases s.len(),
{
    if s.len() > 0 && s.last() == '/' {
        trim_slashes_end(s.drop_last())
    } else {
        s
    }
}

/// `s` without slashes at either end (`str::trim_matches('/')`).
pub open spec fn trim_slashes(s: Seq<char>) -> Seq<char> {
    trim_slashes_end(trim_slashes_start(s))
}

/// How many characters come before the first slash of `s`.
pub open spec fn name_len(s: Seq<char>) -> nat
    decreases s.len(),
{
    if s.len() > 0 && s[0] != '/' {
        1 + name_len(s.drop_first())
    } else {
        0
    }
}

/// What `split_path` gives: of the path without slashes at either end, the
/// text before the first slash, and the text after it if there is a slash.
pub open spec fn split_path_model(path: Seq<char>) -> (Seq<char>, Option<Seq<char>>) {
    let t = trim_slashes(path);
    let k = name_len(t);
    if k < t.len() {
        (t.take(k as int), Some(t.skip(k as int + 1)))
    } else {
        (t, None)
    }
}

/// The non-empty pieces of `s` between slashes, given the piece being built.
pub open spec fn seg_scan(s: Seq<char>, cur: Seq<char>) -> Seq<Seq<char>>
    decreases s.len(),
{
    if s.len() == 0 {
        if cur.len() > 0 {
            seq![cur]
        } else {
            seq![]
        }
    } else if s[0] == '/' {
        if cur.len() > 0 {
            seq![cur] + seg_scan(s.drop_first(), seq![])
        } else {
            seg_scan(s.drop_first(), seq![])
        }
    } else {
        seg_scan(s.drop_first(), cur.push(s[0]))
    }
}

/// The directory names along a path: its non-empty pieces between slashes.
pub open spec fn path_segments(s: Seq<char>) -> Seq<Seq<char>> {
    seg_scan(s, seq![])
}

/// Splits a path, without slashes at either end, at its first slash.
pub fn split_path(path: &[char]) -> (r: (Vec<char>, Option<Vec<char>>))
    ensures
        r.0@ == split_path_model(path@).0,
        match (r.1, split_path_model(path@).1) {
            (Some(a), Some(b)) => a@ == b,
            (None, None) => true,
            _ => false,
        },
{
    let t = trim_slash_chars(path);
    let n = t.len();
    let mut k: usize = 0;
    assert(t@.skip(0) =~= t@);
    while k < n && t[k] != '/'
        invariant
            n == t@.len(),
            k <= n,
            name_len(t@) == k + name_len(t@.skip(k as int)),
        decreases n - k,
    {
        assert(t@.skip(k as int).drop_first() =~= t@.skip(k + 1));
        k = k + 1;
    }
    assert(name_len(t@.skip(k as int)) == 0) by {
        if k < n {
            assert(t@.skip(k as int)[0] == t@[k as int]);
        }
    }
    let mut name: Vec<char> = Vec::new();
    let mut i: usize = 0;
    while i < k
        invariant
            n == t@.len(),
            i <= k <= n,
            name@ == t@.take(i as int),
        decreases k - i,
    {
        name.push(t[i]);
        i = i + 1;
        assert(name@ =~= t@.take(i as int));
    }
    if k < n {
        let mut rest: Vec<char> = Vec::new();
        let mut j: usize = k + 1;
        while j < n
            invariant
                n == t@.len(),
                k < n,
                k + 1 <= j <= n,
                rest@ == t@.subrange(k + 1, j as int),
            decreases n - j,
        {
            rest.push(t[j]);
            j = j + 1;
            assert(rest@ =~= t@.subrange(k + 1, j as int));
        }
        assert(rest@ =~= t@.skip(k + 1));
        (name, Some(rest))
    } else {
        assert(name@ =~= t@);
        (name, None)
    }
}

proof fn lemma_trim_start_step(s: Seq<char>, i: int)
    requires
        0 <= i < s.len(),
        s[i] == '/',
    ensures
        trim_slashes_start(s.skip(i)) == trim_slashes_start(s.skip(i + 1)),
{
    assert(s.skip(i).drop_first() =~= s.skip(i + 1));
}

proof fn lemma_trim_end_step(s: Seq<char>, j: int)
    requires
        0 < j <= s.len(),
        s[j - 1] == '/',
    ensures
        trim_slashes_end(s.take(j)) == trim_slashes_end(s.take(j - 1)),
{
    assert(s.take(j).drop_last() =~= s.take(j - 1));
}

/// Removes the slashes at both ends of a path.
fn trim_slash_chars(s: &[char]) -> (r: Vec<char>)
    ensures
        r@ == trim_slashes(s@),
{
    let n = s.len();
    let mut i: usize = 0;
    assert(s@.skip(0) =~= s@);
    while i < n && s[i] == '/'
        invariant
            n == s@.len(),
            i <= n,
            trim_slashes_start(s@) == trim_slashes_start(s@.skip(i as int)),
        decreases n - i,
    {
        proof {
            lemma_trim_start_step(s@, i as int);
        }
        i = i + 1;
    }
    let ghost t = s@.skip(i as int);
    assert(trim_slashes_start(s@) == t) by {
        if t.len() > 0 {
            assert(t[0] == s@[i as int]);
        }
    }
    let mut j: usize = n;
    assert(t.take(n - i) =~= t);
    while j > i && s[j - 1] == '/'
        invariant
            n == s@.len(),
            i <= j <= n,
            t == s@.skip(i as int),
            trim_slashes_end(t) == trim_slashes_end(t.take(j - i)),
        decreases j,
    {
        proof {
            assert(t[j - i - 1] == s@[j - 1]);
            lemma_trim_end_step(t, (j - i) as int);
        }
        j = j - 1;
    }
    let mut r: Vec<char> = Vec::new();
    let mut k: usize = i;
    while k < j
        invariant
            n == s@.len(),
            i <= k <= j <= n,
            r@ == s@.subrange(i as int, k as int),
        decreases j - k,
    {
        r.push(s[k]);
        k = k + 1;
        assert(r@ =~= s@.subrange(i as int, k as int));
    }
    proof {
        let u = t.take(j - i);
        assert(u =~= r@);
        if u.len() > 0 {
            assert(u.last() == s@[j - 1]);
        }
        assert(trim_slashes_end(u) == u);
    }
    r
}

/// The directory a file path names, if it names one: the text before its
/// last slash (`str::rsplit_once('/')`).
pub open spec fn parent_dir_model(path: Seq<char>) -> Option<Seq<char>> {
    if exists|i: int| 0 <= i < path.len() && path[i] == '/' {
        let i = choose|i: int|
            0 <= i < path.len() && path[i] == '/' && forall|j: int| i < j < path.len() ==> path[j] != '/';
        Some(path.take(i))
    } else {
        None
    }
}

/// The directory part of a FAT path: the text before its last slash, or
/// `None` when the path has no slash.
pub fn parent_dir(fat_path: &str) -> (r: Option<String>)
    ensures
        match (r, parent_dir_model(fat_path@)) {
            (Some(a), Some(b)) => a@ == b,
            (None, None) => true,
            _ => false,
        },
{
    let s = chars_of(fat_path);
    let mut k = s.len();
    while k > 0 && s[k - 1] != '/'
        invariant
            k <= s@.len(),
            s@ == fat_path@,
            forall|j: int| k <= j < s@.len() ==> s@[j] != '/',
        decreases k,
    {
        k = k - 1;
    }
    if k == 0 {
        return None;
    }
    let i = k - 1;
    let mut d: Vec<char> = Vec::new();
    let mut m: usize = 0;
    while m < i
        invariant
            i < s@.len(),
            m <= i,
            d@ == s@.take(m as int),
        decreases i - m,
    {
        d.push(s[m]);
        m = m + 1;
        assert(d@ =~= s@.take(m as int));
    }
    proof {
        let p = fat_path@;
        assert(p[i as int] == '/');
        let c = choose|c: int|
            0 <= c < p.len() && p[c] == '/' && forall|j: int| c < j < p.len() ==> p[j] != '/';
        assert(c == i) by {
            if c < i {
                assert(p[i as int] != '/');
            } else if c > i {
                assert(p[c] != '/');
            }
        }
    }
    Some(string_of(d.as_slice()))
}

/// The pieces of a path between slashes, in order, each non-empty: the
/// directories that must exist for the path to be a directory.
pub fn dir_components(fat_path: &str) -> (r: Vec<String>)
    ensures
        r@.map_values(|s: String| s@) == path_segments(fat_path@),
{
    let s = chars_of(fat_path);
    let mut remaining = trim_slash_chars(s.as_slice());
    let mut out: Vec<String> = Vec::new();
    proof {
        lemma_segments_trim(fat_path@);
    }
    assert(out@.map_values(|s: String| s@) + path_segments(remaining@) =~= path_segments(fat_path@));
    assert(remaining@.len() > 0 ==> remaining@.last() != '/') by {
        let t = trim_slashes_start(s@);
        if remaining@.len() > 0 {
            assert(trim_slashes_end(t).len() > 0);
            lemma_trim_end_last(t);
        }
    }
    while remaining.len() > 0
        invariant
            out@.map_values(|s: String| s@) + path_segments(remaining@) == path_segments(fat_path@),
            remaining@.len() > 0 ==> remaining@.last() != '/',
        decreases remaining@.len(),
    {
        let ghost rem = remaining@;
        proof {
            lemma_segments_split(rem);
        }
        let (name, rest) = split_path(remaining.as_slice());
        let ghost before = out@.map_values(|s: String| s@);
        out.push(string_of(name.as_slice()));
        assert(out@.map_values(|s: String| s@) =~= before.push(name@));
        match rest {
            Some(r) => {
                assert(out@.map_values(|s: String| s@) + path_segments(r@) =~= before + (seq![
                    name@] + path_segments(r@)));
                remaining = r;
            },
            None => {
                assert(out@.map_values(|s: String| s@) =~= path_segments(fat_path@));
                return out;
            },
        }
    }
    assert(path_segments(remaining@) =~= Seq::<Seq<char>>::empty());
    assert(out@.map_values(|s: String| s@) =~= path_segments(fat_path@));
    out
}

proof fn lemma_trim_end_last(s: Seq<char>)
    requires
        trim_slashes_end(s).len() > 0,
    ensures
        trim_slashes_end(s).last() != '/',
    decreases s.len(),
{
    if s.len() > 0 && s.last() == '/' {
        lemma_trim_end_last(s.drop_last());
    }
}

/// Slashes at the start of a path change nothing.
proof fn lemma_segments_trim_start(s: Seq<char>)
    ensures
        path_segments(trim_slashes_start(s)) == path_segments(s),
    decreases s.len(),
{
    if s.len() > 0 && s[0] == '/' {
        lemma_segments_trim_start(s.drop_first());
    }
}

/// A run of slashes has no segments.
proof fn lemma_segments_of_slashes(r: Seq<char>)
    requires
        forall|i: int| 0 <= i < r.len() ==> r[i] == '/',
    ensures
        seg_scan(r, seq![]) == Seq::<Seq<char>>::empty(),
    decreases r.len(),
{
    if r.len() > 0 {
        lemma_segments_of_slashes(r.drop_first());
    }
}

/// Slashes at the end of a text change nothing.
proof fn lemma_segments_trailing(t: Seq<char>, r: Seq<char>, cur: Seq<char>)
    requires
        forall|i: int| 0 <= i < r.len() ==> r[i] == '/',
    ensures
        seg_scan(t + r, cur) == seg_scan(t, cur),
    decreases t.len(),
{
    if t.len() == 0 {
        assert(t + r =~= r);
        if r.len() > 0 {
            lemma_segments_of_slashes(r.drop_first());
            assert(seg_scan(r.drop_first(), seq![]) + Seq::<Seq<char>>::empty() =~= seg_scan(
                r.drop_first(),
                seq![],
            ));
            if cur.len() > 0 {
                assert(seq![cur] + Seq::<Seq<char>>::empty() =~= seq![cur]);
            }
        }
    } else {
        assert((t + r).drop_first() =~= t.drop_first() + r);
        assert((t + r)[0] == t[0]);
        if t[0] == '/' {
            lemma_segments_trailing(t.drop_first(), r, seq![]);
        } else {
            lemma_segments_trailing(t.drop_first(), r, cur.push(t[0]));
        }
    }
}

proof fn lemma_trim_end_is_prefix(s: Seq<char>)
    ensures
        exists|r: Seq<char>| s == trim_slashes_end(s) + r && forall|i: int| 0 <= i < r.len() ==> r[i] == '/',
    decreases s.len(),
{
    if s.len() > 0 && s.last() == '/' {
        lemma_trim_end_is_prefix(s.drop_last());
        let r = choose|r: Seq<char>|
            s.drop_last() == trim_slashes_end(s.drop_last()) + r && forall|i: int| 0 <= i < r.len() ==> r[i] == '/';
        let r2 = r.push('/');
        assert(trim_slashes_end(s) == trim_slashes_end(s.drop_last()));
        assert(s =~= s.drop_last().push('/'));
        assert(s =~= trim_slashes_end(s) + r2);
        assert(forall|i: int| 0 <= i < r2.len() ==> r2[i] == '/');
    } else {
        assert(s =~= trim_slashes_end(s) + Seq::<char>::empty());
        assert(forall|i: int| 0 <= i < Seq::<char>::empty().len() ==> Seq::<char>::empty()[i] == '/');
    }
}

/// Slashes at either end of a path change nothing.
proof fn lemma_segments_trim(s: Seq<char>)
    ensures
        path_segments(trim_slashes(s)) == path_segments(s),
{
    lemma_segments_trim_start(s);
    let t = trim_slashes_start(s);
    lemma_trim_end_is_prefix(t);
    let r = choose|r: Seq<char>|
        t == trim_slashes_end(t) + r && forall|i: int| 0 <= i < r.len() ==> r[i] == '/';
    lemma_segments_trailing(trim_slashes_end(t), r, seq![]);
}

/// A piece without slashes ends the piece being built.
proof fn lemma_segments_piece(x: Seq<char>, y: Seq<char>, cur: Seq<char>)
    requires
        forall|i: int| 0 <= i < x.len() ==> x[i] != '/',
    ensures
        seg_scan(x + seq!['/'] + y, cur) == (if (cur + x).len() > 0 {
            seq![cur + x]
        } else {
            Seq::<Seq<char>>::empty()
        }) + seg_scan(y, seq![]),
        seg_scan(x, cur) == (if (cur + x).len() > 0 {
            seq![cur + x]
        } else {
            Seq::<Seq<char>>::empty()
        }),
    decreases x.len(),
{
    if x.len() == 0 {
        assert(x + seq!['/'] + y =~= seq!['/'] + y);
        assert((seq!['/'] + y).drop_first() =~= y);
        assert(cur + x =~= cur);
        if cur.len() == 0 {
            assert(Seq::<Seq<char>>::empty() + seg_scan(y, seq![]) =~= seg_scan(y, seq![]));
        }
    } else {
        assert((x + seq!['/'] + y).drop_first() =~= x.drop_first() + seq!['/'] + y);
        assert((x + seq!['/'] + y)[0] == x[0]);
        lemma_segments_piece(x.drop_first(), y, cur.push(x[0]));
        assert(cur.push(x[0]) + x.drop_first() =~= cur + x);
    }
}

proof fn lemma_name_len(s: Seq<char>)
    ensures
        name_len(s) <= s.len(),
        name_len(s) < s.len() ==> s[name_len(s) as int] == '/',
        forall|i: int| 0 <= i < name_len(s) ==> s[i] != '/',
    decreases s.len(),
{
    if s.len() > 0 && s[0] != '/' {
        lemma_name_len(s.drop_first());
        assert forall|i: int| 0 <= i < name_len(s) implies s[i] != '/' by {
            if i > 0 {
                assert(s[i] == s.drop_first()[i - 1]);
            }
        }
    }
}

proof fn lemma_trim_start_suffix(s: Seq<char>)
    ensures
        trim_slashes_start(s).len() <= s.len(),
        trim_slashes_start(s) == s.skip(s.len() - trim_slashes_start(s).len()),
        forall|i: int| 0 <= i < s.len() - trim_slashes_start(s).len() ==> s[i] == '/',
        trim_slashes_start(s).len() > 0 ==> trim_slashes_start(s)[0] != '/',
    decreases s.len(),
{
    if s.len() > 0 && s[0] == '/' {
        lemma_trim_start_suffix(s.drop_first());
        let t = trim_slashes_start(s);
        assert(s.drop_first().skip(s.drop_first().len() - t.len()) =~= s.skip(s.len() - t.len()));
        assert forall|i: int| 0 <= i < s.len() - t.len() implies s[i] == '/' by {
            if i > 0 {
                assert(s[i] == s.drop_first()[i - 1]);
            }
        }
    } else {
        assert(s.skip(0) =~= s);
    }
}

/// The segments of a path that is non-empty and does not end with a slash
/// are its first name followed by the segments of what follows its first
/// slash; that rest is again non-empty, shorter, and does not end with a
/// slash.
proof fn lemma_segments_split(rem: Seq<char>)
    requires
        rem.len() > 0,
        rem.last() != '/',
    ensures
        ({
            let (name, rest) = split_path_model(rem);
            &&& path_segments(rem) == seq![name] + match rest {
                Some(r) => path_segments(r),
                None => Seq::<Seq<char>>::empty(),
            }
            &&& (rest matches Some(r) ==> 0 < r.len() < rem.len() && r.last() != '/')
        }),
{
    lemma_trim_start_suffix(rem);
    let ts = trim_slashes_start(rem);
    if ts.len() == 0 {
        assert(rem[rem.len() - 1] == '/');
    }
    assert(ts.last() == rem.last());
    assert(trim_slashes_end(ts) == ts);
    let t = trim_slashes(rem);
    assert(t == ts);
    lemma_segments_trim(rem);
    lemma_name_len(t);
    let k = name_len(t) as int;
    assert(k > 0);
    let x = t.take(k);
    assert(forall|i: int| 0 <= i < x.len() ==> x[i] != '/');
    if k < t.len() {
        let y = t.skip(k + 1);
        assert(t =~= x + seq!['/'] + y);
        lemma_segments_piece(x, y, seq![]);
        assert(Seq::<char>::empty() + x =~= x);
        assert(k != t.len() - 1);
        assert(y.last() == t.last());
    } else {
        assert(x =~= t);
        lemma_segments_piece(t, seq![], seq![]);
        assert(Seq::<char>::empty() + t =~= t);
    }
}

} // verus!
