//! A rotation job and its execution: validate the configuration, apply the
//! size and name filters, groom the existing generations through the
//! lifecycle rule, and migrate the live instance by the job's mode, walking
//! directory trees with an explicit work list bounded by the depth limit.

use vstd::prelude::*;
use vstd::string::StringExecFns;

use crate::RotateError;
use crate::byte_size::ByteSize;
use crate::matcher::{Matcher, regex_match};
use crate::path_rule::{
    DefaultRule, PathRule, MAX_NUM, lemma_next_in_slots, lemma_renames_desc_elems, path_views,
    slot_path,
};
use crate::util;
use crate::util::{FileMeta, spec_file_name};

verus! {

/// The content-migration strategy.
#[derive(Clone, Copy, Debug, PartialEq, Eq, Structural)]
pub enum Mode {
    /// Rename the live path to the next generation and recreate an empty
    /// file at the original name.
    MoveCreate,
    /// Duplicate the bytes into the next generation and truncate the
    /// original in place, keeping the original inode open and stable for a
    /// writer that holds a descriptor.
    CopyTruncate,
}

/// Whether the storage footprint passes the optional threshold: rotation
/// proceeds only when the footprint strictly exceeds it.
pub open spec fn spec_size_check(sz_opt: Option<usize>, m: FileMeta) -> bool {
    match sz_opt {
        Some(sz) => m.blocks as int * 512 > sz,
        None => true,
    }
}

/// Whether the storage footprint passes the optional threshold.
pub fn size_check(sz_opt: Option<usize>, m: &FileMeta) -> (r: bool)
    ensures
        r == spec_size_check(sz_opt, *m),
{
    match sz_opt {
        None => true,
        Some(sz) => util::stat_size(m) > sz as u128,
    }
}

/// Whether the optional name matcher accepts the path's file name.
pub fn regex_check(re_opt: Option<&Matcher>, path: &str) -> (r: bool)
    ensures
        r == match re_opt {
            Some(re) => regex_match(re@, spec_file_name(path@)),
            None => true,
        },
{
    match re_opt {
        None => true,
        Some(re) => {
            let name = util::file_name_part(path);
            re.is_match(name.as_str())
        },
    }
}

/// What to do with a regular file under the given mode and filters.
#[derive(Clone, Copy, Debug, PartialEq, Eq, Structural)]
pub enum FileAction {
    /// A filter rejected the file: it stays untouched at the source and no
    /// destination is created.
    Skip,
    /// Rename the file to the destination, then recreate an empty file at
    /// the source.
    RenameCreate,
    /// Duplicate the bytes sparse-aware, then truncate the source in place.
    CopyData,
    /// Zero allocated storage under copy-truncate: create an empty
    /// destination without invoking the duplication primitive, which cannot
    /// find a data region in an all-hole file.
    CreateEmpty,
}

/// The decision for a regular file: a file whose footprint does not exceed
/// the threshold, or whose name the matcher rejects, is skipped; otherwise
/// move-create renames, and copy-truncate copies -- except that a file with
/// no allocated storage only gets an empty destination.
pub open spec fn spec_file_action(
    mode: Mode,
    m: FileMeta,
    sz_opt: Option<usize>,
    name_ok: bool,
) -> FileAction {
    if !spec_size_check(sz_opt, m) || !name_ok {
        FileAction::Skip
    } else if mode is MoveCreate {
        FileAction::RenameCreate
    } else if m.blocks == 0 {
        FileAction::CreateEmpty
    } else {
        FileAction::CopyData
    }
}

/// Decides what to do with a regular file.
pub fn plan_file_action(mode: &Mode, m: &FileMeta, sz_opt: Option<usize>, name_ok: bool) -> (r:
    FileAction)
    ensures
        r == spec_file_action(*mode, *m, sz_opt, name_ok),
{
    if !size_check(sz_opt, m) || !name_ok {
        FileAction::Skip
    } else {
        match mode {
            Mode::MoveCreate => FileAction::RenameCreate,
            Mode::CopyTruncate => {
                if m.blocks == 0 {
                    FileAction::CreateEmpty
                } else {
                    FileAction::CopyData
                }
            },
        }
    }
}

/// A rotation job: the live path, the retention count, the optional depth
/// bound, size threshold and name matcher, and the migration mode.  Stateless
/// between invocations; every rotation re-derives its state from the
/// filesystem.
#[derive(Debug)]
pub struct Rotate {
    pub path: String,
    pub keep: usize,
    pub depth_opt: Option<i32>,
    pub sz_opt: Option<ByteSize>,
    pub re_opt: Option<Matcher>,
    pub mode: Mode,
}

impl Rotate {
    /// Whether the configuration is usable: an absolute path with a
    /// non-empty file name, and a retention count within the slot bound.
    pub open spec fn valid_config(&self) -> bool {
        &&& self.path@.len() > 0
        &&& self.path@[0] == '/'
        &&& self.path@.last() != '/'
        &&& 2 <= self.keep < MAX_NUM
    }

    /// Builds a job.
    pub fn new(
        path: String,
        keep: usize,
        depth_opt: Option<i32>,
        sz_opt: Option<ByteSize>,
        re_opt: Option<Matcher>,
        mode: Mode,
    ) -> (r: Rotate)
        ensures
            r.path == path,
            r.keep == keep,
            r.depth_opt == depth_opt,
            r.sz_opt == sz_opt,
            r.re_opt == re_opt,
            r.mode == mode,
    {
        Rotate { path, keep, depth_opt, sz_opt, re_opt, mode }
    }

    /// The live path this job rotates.
    pub fn get_path(&self) -> (r: &String)
        ensures
            r@ == self.path@,
    {
        &self.path
    }

    fn check_config(&self) -> (r: bool)
        ensures
            r == self.valid_config(),
    {
        let n = self.path.as_str().unicode_len();
        if n == 0 {
            return false;
        }
        if self.path.as_str().get_char(0) != '/' {
            return false;
        }
        if self.path.as_str().get_char(n - 1) == '/' {
            return false;
        }
        2 <= self.keep && self.keep < MAX_NUM
    }

    /// One rotation: validates the configuration, grooms the generations,
    /// and migrates the live instance when one exists.  An unusable
    /// configuration is the only source of `InvalidConfiguration`, rejected
    /// before any filesystem mutation.
    pub fn rotate(&self) -> (r: Result<(), RotateError>)
        ensures
            !self.valid_config() ==> r == Err::<(), RotateError>(RotateError::InvalidConfiguration),
            self.valid_config() ==> r != Err::<(), RotateError>(RotateError::InvalidConfiguration),
    {
        let target = match self.groom() {
            Ok(t) => t,
            Err(e) => {
                return Err(e);
            },
        };
        match target {
            Some((src, dst)) => self.migrate(src.as_str(), dst.as_str()),
            None => Ok(()),
        }
    }

    /// Validates the job, stats the live path, applies the size and name
    /// filters when it is a regular file, deletes the delete-set paths,
    /// renames the rename-set paths highest generation first, and returns
    /// the live migration pair when a live instance exists -- without
    /// migrating, so a caller can run its own steps around the migration.
    /// A live path that cannot be read is treated as absent: the numbered
    /// history is still groomed and the call reports success with no
    /// migration pair.
    /// `crate::model::lemma_plan_sound` shows that applying the rule's lists
    /// in this order realises the rotation model.
    pub fn groom(&self) -> (r: Result<Option<(String, String)>, RotateError>)
        ensures
            !self.valid_config() ==> r == Err::<Option<(String, String)>, RotateError>(
                RotateError::InvalidConfiguration,
            ),
            self.valid_config() ==> r != Err::<Option<(String, String)>, RotateError>(
                RotateError::InvalidConfiguration,
            ),
            r matches Ok(Some(pair)) ==> pair.0@ == self.path@ && pair.1@ == slot_path(
                self.path@,
                1,
            ),
    {
        if !self.check_config() {
            return Err(RotateError::InvalidConfiguration);
        }
        let sz_opt = match &self.sz_opt {
            Some(b) => Some(b.bytes),
            None => None,
        };
        match util::stat_meta(self.path.as_str()) {
            Err(_) => (),
            Ok(meta) => {
                if util::is_file(&meta) {
                    if !size_check(sz_opt, &meta) {
                        return Ok(None);
                    }
                    if !regex_check(self.re_opt.as_ref(), self.path.as_str()) {
                        return Ok(None);
                    }
                }
            },
        }
        let parent = util::parent_dir(self.path.as_str());
        let names = match util::list_dir(parent.as_str()) {
            Ok(v) => v,
            Err(e) => {
                return Err(e);
            },
        };
        let mut paths: Vec<String> = Vec::new();
        let mut i: usize = 0;
        while i < names.len()
            invariant
                i <= names@.len(),
            decreases names@.len() - i,
        {
            paths.push(util::dir_join(parent.as_str(), names[i].as_str()));
            i += 1;
        }

        let ghost listing = path_views(paths@);
        let rule = DefaultRule::new(self.path.clone(), paths, self.keep);

        let mut di: usize = 0;
        while di < rule.deletes.len()
            invariant
                di <= rule.deletes@.len(),
            decreases rule.deletes@.len() - di,
        {
            let p = &rule.deletes[di];
            match util::stat_meta(p.as_str()) {
                Err(_) => (),
                Ok(m) => {
                    if util::is_file(&m) {
                        match util::remove_file(p.as_str()) {
                            Ok(_) => (),
                            Err(e) => {
                                return Err(e);
                            },
                        }
                    } else if util::is_dir(&m) {
                        match util::remove_tree(p.as_str()) {
                            Ok(_) => (),
                            Err(e) => {
                                return Err(e);
                            },
                        }
                    }
                },
            }
            di += 1;
        }

        let ghost init_view = self.path@;
        let mut ri: usize = 0;
        while ri < rule.renames.len()
            invariant
                ri <= rule.renames@.len(),
            decreases rule.renames@.len() - ri,
        {
            let p = &rule.renames[ri];
            proof {
                let rv = path_views(rule.renames@);
                assert(rv[ri as int] == p@);
                assert(rv.contains(p@));
                lemma_renames_desc_elems(init_view, listing, (self.keep - 2) as nat);
                let j = choose|j: nat|
                    1 <= j < self.keep - 1 && p@ == #[trigger] slot_path(init_view, j);
                lemma_next_in_slots(rule.set@, init_view, j);
            }
            let nxt = match rule.next_path(p.as_str()) {
                Some(q) => q,
                None => {
                    return Err(RotateError::Filesystem);
                },
            };
            match util::rename_path(p.as_str(), nxt.as_str()) {
                Ok(_) => (),
                Err(e) => {
                    return Err(e);
                },
            }
            ri += 1;
        }

        match rule.init_path() {
            None => Ok(None),
            Some(live) => {
                proof {
                    assert(live@ == slot_path(init_view, 0));
                    lemma_next_in_slots(rule.set@, init_view, 0);
                }
                let dst = match rule.next_path(live.as_str()) {
                    Some(q) => q,
                    None => {
                        return Err(RotateError::Filesystem);
                    },
                };
                Ok(Some((live, dst)))
            },
        }
    }

    /// Migrates `src` onto `dst` by this job's mode, depth bound and
    /// filters.  A depth bound of zero or less does nothing.
    pub fn migrate(&self, src: &str, dst: &str) -> (r: Result<(), RotateError>)
        ensures
            r != Err::<(), RotateError>(RotateError::InvalidConfiguration),
            (self.depth_opt matches Some(n) && n <= 0) ==> r == Ok::<(), RotateError>(()),
    {
        let sz_opt = match &self.sz_opt {
            Some(b) => Some(b.bytes),
            None => None,
        };
        match self.mode {
            Mode::MoveCreate => move_create(src, dst, self.depth_opt, sz_opt, self.re_opt.as_ref()),
            Mode::CopyTruncate => copy_truncate(
                src,
                dst,
                self.depth_opt,
                sz_opt,
                self.re_opt.as_ref(),
            ),
        }
    }
}

/// Migrates a tree in move-create mode: a passing regular file is renamed to
/// the destination and recreated empty at the source; a directory is
/// recreated at the destination and its entries are visited with the depth
/// bound decremented.
pub fn move_create(
    src: &str,
    dst: &str,
    depth_opt: Option<i32>,
    sz_opt: Option<usize>,
    re_opt: Option<&Matcher>,
) -> (r: Result<(), RotateError>)
    ensures
        r != Err::<(), RotateError>(RotateError::InvalidConfiguration),
        (depth_opt matches Some(n) && n <= 0) ==> r == Ok::<(), RotateError>(()),
{
    migrate_tree(&Mode::MoveCreate, src, dst, depth_opt, sz_opt, re_opt)
}

/// Migrates a tree in copy-truncate mode: a passing regular file is
/// duplicated sparse-aware into the destination and truncated in place
/// (or, with no allocated storage, merely gets an empty destination); a
/// directory is recreated at the destination and its entries are visited
/// with the depth bound decremented.
pub fn copy_truncate(
    src: &str,
    dst: &str,
    depth_opt: Option<i32>,
    sz_opt: Option<usize>,
    re_opt: Option<&Matcher>,
) -> (r: Result<(), RotateError>)
    ensures
        r != Err::<(), RotateError>(RotateError::InvalidConfiguration),
        (depth_opt matches Some(n) && n <= 0) ==> r == Ok::<(), RotateError>(()),
{
    migrate_tree(&Mode::CopyTruncate, src, dst, depth_opt, sz_opt, re_opt)
}

/// The migration engine: an explicit work list of (source, destination,
/// remaining depth) frames.  Each frame re-stats its source; filters apply
/// per regular file, never to a directory; file types that are neither
/// regular nor directories are a deliberate no-op.  An error abandons the
/// remaining work and propagates; what was already migrated stays.
fn migrate_tree(
    mode: &Mode,
    src: &str,
    dst: &str,
    depth_opt: Option<i32>,
    sz_opt: Option<usize>,
    re_opt: Option<&Matcher>,
) -> (r: Result<(), RotateError>)
    ensures
        r != Err::<(), RotateError>(RotateError::InvalidConfiguration),
        (depth_opt matches Some(n) && n <= 0) ==> r == Ok::<(), RotateError>(()),
{
    match depth_opt {
        Some(n) => {
            if n <= 0 {
                return Ok(());
            }
        },
        None => (),
    }
    let mut frames: Vec<(String, String, Option<i32>)> = Vec::new();
    frames.push((src.to_owned(), dst.to_owned(), depth_opt));
    // A walk over filesystem state has no intrinsic bound; the step budget
    // makes termination checkable and is never reached in practice.
    let mut rounds: u64 = 0;
    loop
        decreases u64::MAX - rounds,
    {
        if frames.len() == 0 {
            break ;
        }
        if rounds == u64::MAX {
            return Err(RotateError::Filesystem);
        }
        rounds += 1;
        let frame = match frames.pop() {
            Some(f) => f,
            None => {
                return Err(RotateError::Filesystem);
            },
        };
        let (s, d, dep) = frame;
        let gated = match dep {
            Some(n) => n <= 0,
            None => false,
        };
        if gated {
            continue ;
        }
        let meta = match util::stat_meta(s.as_str()) {
            Ok(m) => m,
            Err(e) => {
                return Err(e);
            },
        };
        if util::is_file(&meta) {
            let name_ok = regex_check(re_opt, s.as_str());
            match plan_file_action(mode, &meta, sz_opt, name_ok) {
                FileAction::Skip => (),
                FileAction::RenameCreate => {
                    match util::rename_path(s.as_str(), d.as_str()) {
                        Ok(_) => (),
                        Err(e) => {
                            return Err(e);
                        },
                    }
                    match util::create_empty(s.as_str()) {
                        Ok(_) => (),
                        Err(e) => {
                            return Err(e);
                        },
                    }
                },
                FileAction::CreateEmpty => {
                    match util::create_empty(d.as_str()) {
                        Ok(_) => (),
                        Err(e) => {
                            return Err(e);
                        },
                    }
                },
                FileAction::CopyData => {
                    match util::copy_truncate(s.as_str(), d.as_str()) {
                        Ok(_) => (),
                        Err(e) => {
                            return Err(e);
                        },
                    }
                },
            }
        } else if util::is_dir(&meta) {
            match util::make_dir(d.as_str()) {
                Ok(_) => (),
                Err(e) => {
                    return Err(e);
                },
            }
            let names = match util::list_dir(s.as_str()) {
                Ok(v) => v,
                Err(e) => {
                    return Err(e);
                },
            };
            let next_dep = match dep {
                Some(n) => Some(n - 1),
                None => None,
            };
            let mut i: usize = 0;
            while i < names.len()
                invariant
                    i <= names@.len(),
                decreases names@.len() - i,
            {
                let child_src = util::dir_join(s.as_str(), names[i].as_str());
                let child_dst = util::dir_join(d.as_str(), names[i].as_str());
                frames.push((child_src, child_dst, next_dep));
                i += 1;
            }
        }
    }
    Ok(())
}

} // verus!
