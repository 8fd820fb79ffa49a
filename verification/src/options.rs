//! Transfer options builder.
//!
//! Maps to rsync's command-line flags. The builder pattern allows
//! constructing options incrementally, with sensible defaults.
//! All fields are private; use the builder or getter methods. Paths are byte
//! strings.

use vstd::prelude::*;

use crate::filelist::entry::{copy_bytes, copy_opt_bytes, opt_bytes};

verus! {

/// Delete mode for `--delete` variants.
#[derive(Debug, Clone, Copy, PartialEq, Eq, Structural)]
pub enum DeleteMode {
    /// No deletion of extraneous files.
    Off,
    /// Delete before transfer (`--delete-before`).
    Before,
    /// Delete during transfer (`--delete-during`, the default for `--delete`).
    During,
    /// Delete after transfer (`--delete-after`).
    After,
    /// Delete excluded files too (`--delete-excluded`).
    Excluded,
}

impl Default for DeleteMode {
    fn default() -> (r: Self)
        ensures
            r == DeleteMode::Off,
    {
        DeleteMode::Off
    }
}

/// Verbosity level.
#[derive(Debug, Clone, Copy, PartialEq, Eq, PartialOrd, Ord, Structural)]
pub enum Verbosity {
    /// Quiet (`-q`).
    Quiet,
    /// Normal (no flag).
    Normal,
    /// Verbose (`-v`).
    Verbose,
    /// Very verbose (`-vv`).
    VeryVerbose,
    /// Debug (`-vvv`).
    Debug,
}

impl Default for Verbosity {
    fn default() -> (r: Self)
        ensures
            r == Verbosity::Normal,
    {
        Verbosity::Normal
    }
}

/// What a scan does with directories.
#[derive(Debug, Clone, Copy, PartialEq, Eq, Structural)]
pub enum DirectoryMode {
    /// Descend into directories (`-r`).
    Recurse,
    /// List directories without descending (`-d`).
    List,
    /// Leave directories out.
    Skip,
}

// ---------------------------------------------------------------------------
// Lists of texts and paths
// ---------------------------------------------------------------------------

/// The views of a list of strings.
pub open spec fn text_views(s: Seq<String>) -> Seq<Seq<char>> {
    Seq::new(s.len(), |i: int| s[i]@)
}

/// The views of a list of paths.
pub open spec fn path_views(s: Seq<Vec<u8>>) -> Seq<Seq<u8>> {
    Seq::new(s.len(), |i: int| s[i]@)
}

/// The view of an optional reference to a path.
pub open spec fn opt_path(o: Option<&Vec<u8>>) -> Option<Seq<u8>> {
    match o {
        Some(p) => Some(p@),
        None => None,
    }
}

/// A copy of a list of strings.
pub fn copy_texts(v: &[String]) -> (r: Vec<String>)
    ensures
        text_views(r@) == text_views(v@),
{
    let mut out: Vec<String> = Vec::new();
    let mut i: usize = 0;
    while i < v.len()
        invariant
            i <= v.len(),
            out.len() == i,
            forall|j: int| 0 <= j < i ==> out@[j]@ == v@[j]@,
        decreases v.len() - i,
    {
        out.push(v[i].clone());
        i += 1;
    }
    assert(text_views(out@) =~= text_views(v@));
    out
}

/// A copy of a list of paths.
pub fn copy_paths(v: &[Vec<u8>]) -> (r: Vec<Vec<u8>>)
    ensures
        path_views(r@) == path_views(v@),
{
    let mut out: Vec<Vec<u8>> = Vec::new();
    let mut i: usize = 0;
    while i < v.len()
        invariant
            i <= v.len(),
            out.len() == i,
            forall|j: int| 0 <= j < i ==> out@[j]@ == v@[j]@,
        decreases v.len() - i,
    {
        out.push(copy_bytes(v[i].as_slice()));
        i += 1;
    }
    assert(path_views(out@) =~= path_views(v@));
    out
}

fn push_string(v: &mut Vec<String>, s: &str)
    ensures
        text_views(final(v)@) == text_views(old(v)@).push(s@),
{
    v.push(s.to_owned());
    assert(text_views(v@) =~= text_views(old(v)@).push(s@));
}

fn push_path(v: &mut Vec<Vec<u8>>, p: Vec<u8>)
    ensures
        path_views(final(v)@) == path_views(old(v)@).push(p@),
{
    v.push(p);
    assert(path_views(v@) =~= path_views(old(v)@).push(p@));
}

// ---------------------------------------------------------------------------
// Groups of options
// ---------------------------------------------------------------------------

/// The components of archive mode (`-a`).
#[derive(Debug, Clone, Copy, PartialEq, Eq, Structural)]
pub struct ArchiveFlags {
    /// Recurse into directories (`-r`).
    pub recursive: bool,
    /// Preserve symlinks as symlinks (`-l`).
    pub preserve_links: bool,
    /// Preserve permissions (`-p`).
    pub preserve_perms: bool,
    /// Preserve modification times (`-t`).
    pub preserve_times: bool,
    /// Preserve group (`-g`).
    pub preserve_group: bool,
    /// Preserve owner (`-o`, requires root).
    pub preserve_owner: bool,
    /// Preserve device files (`-D` component).
    pub preserve_devices: bool,
    /// Preserve special files (`-D` component).
    pub preserve_specials: bool,
}

impl ArchiveFlags {
    /// The values before anything is set.
    pub open spec fn initial() -> ArchiveFlags {
        ArchiveFlags {
            recursive: false,
            preserve_links: false,
            preserve_perms: false,
            preserve_times: false,
            preserve_group: false,
            preserve_owner: false,
            preserve_devices: false,
            preserve_specials: false,
        }
    }
}

impl Default for ArchiveFlags {
    fn default() -> (r: Self)
        ensures
            r == ArchiveFlags::initial(),
    {
        ArchiveFlags {
            recursive: false,
            preserve_links: false,
            preserve_perms: false,
            preserve_times: false,
            preserve_group: false,
            preserve_owner: false,
            preserve_devices: false,
            preserve_specials: false,
        }
    }
}

/// How files are compared and written.
#[derive(Debug, Clone, Copy, PartialEq, Eq, Structural)]
pub struct BehaviorFlags {
    /// Use checksums for change detection (`-c`).
    pub checksum_mode: bool,
    /// Whole-file transfer (`--whole-file`).
    pub whole_file: bool,
    /// Update only: skip files newer on receiver (`-u`).
    pub update: bool,
    /// In-place file updates (`--inplace`).
    pub inplace: bool,
    /// Append mode (`--append`).
    pub append: bool,
    /// Append with checksum of the old data (`--append-verify`).
    pub append_verify: bool,
    /// Transfer files even where size and time agree (`-I`).
    pub ignore_times: bool,
    /// Skip files that agree in size (`--size-only`).
    pub size_only: bool,
    /// Skip creating new files on the receiver (`--existing`).
    pub existing: bool,
    /// Skip updating files that exist on the receiver (`--ignore-existing`).
    pub ignore_existing: bool,
    /// Find a similar file as basis (`-y`).
    pub fuzzy: bool,
    /// Keep partially transferred files (`--partial`).
    pub partial: bool,
    /// Sparse file handling (`--sparse`).
    pub sparse: bool,
    /// Whether backup is enabled (`-b`).
    pub backup: bool,
}

impl BehaviorFlags {
    /// The values before anything is set.
    pub open spec fn initial() -> BehaviorFlags {
        BehaviorFlags {
            checksum_mode: false,
            whole_file: false,
            update: false,
            inplace: false,
            append: false,
            append_verify: false,
            ignore_times: false,
            size_only: false,
            existing: false,
            ignore_existing: false,
            fuzzy: false,
            partial: false,
            sparse: false,
            backup: false,
        }
    }
}

impl Default for BehaviorFlags {
    fn default() -> (r: Self)
        ensures
            r == BehaviorFlags::initial(),
    {
        BehaviorFlags {
            checksum_mode: false,
            whole_file: false,
            update: false,
            inplace: false,
            append: false,
            append_verify: false,
            ignore_times: false,
            size_only: false,
            existing: false,
            ignore_existing: false,
            fuzzy: false,
            partial: false,
            sparse: false,
            backup: false,
        }
    }
}

/// How the file tree is walked and which attributes go along.
#[derive(Debug, Clone, Copy, PartialEq, Eq, Structural)]
pub struct TreeFlags {
    /// Keep relative path names (`-R`).
    pub relative: bool,
    /// Follow symlinks (`-L`).
    pub copy_links: bool,
    /// Ignore symlinks that point outside the tree (`--safe-links`).
    pub safe_links: bool,
    /// Treat a symlinked directory on the receiver as a directory (`-K`).
    pub keep_dirlinks: bool,
    /// Remove source files after transfer (`--remove-source-files`).
    pub remove_source_files: bool,
    /// Transfer directories without recursing (`-d`).
    pub dirs: bool,
    /// Prune empty directories (`-m`).
    pub prune_empty_dirs: bool,
    /// Ignore files the way CVS does (`-C`).
    pub cvs_exclude: bool,
    /// Don't cross filesystem boundaries (`-x`).
    pub one_file_system: bool,
    /// Preserve hard links (`-H`).
    pub preserve_hard_links: bool,
    /// Preserve ACLs (`-A`).
    pub preserve_acls: bool,
    /// Preserve extended attributes (`-X`).
    pub preserve_xattrs: bool,
    /// Use numeric uid/gid (`--numeric-ids`).
    pub numeric_ids: bool,
    /// Store privileged attributes in xattrs (`--fake-super`).
    pub fake_super: bool,
}

impl TreeFlags {
    /// The values before anything is set.
    pub open spec fn initial() -> TreeFlags {
        TreeFlags {
            relative: false,
            copy_links: false,
            safe_links: false,
            keep_dirlinks: false,
            remove_source_files: false,
            dirs: false,
            prune_empty_dirs: false,
            cvs_exclude: false,
            one_file_system: false,
            preserve_hard_links: false,
            preserve_acls: false,
            preserve_xattrs: false,
            numeric_ids: false,
            fake_super: false,
        }
    }
}

impl Default for TreeFlags {
    fn default() -> (r: Self)
        ensures
            r == TreeFlags::initial(),
    {
        TreeFlags {
            relative: false,
            copy_links: false,
            safe_links: false,
            keep_dirlinks: false,
            remove_source_files: false,
            dirs: false,
            prune_empty_dirs: false,
            cvs_exclude: false,
            one_file_system: false,
            preserve_hard_links: false,
            preserve_acls: false,
            preserve_xattrs: false,
            numeric_ids: false,
            fake_super: false,
        }
    }
}

/// Compression, reporting and deletion.
#[derive(Debug, Clone, Copy, PartialEq, Eq, Structural)]
pub struct OutputFlags {
    /// Whether compression is enabled (`-z`).
    pub compress: bool,
    /// Whether per-file transfer progress is enabled (`--progress`).
    pub progress: bool,
    /// Whether transfer statistics are printed at end (`--stats`).
    pub stats: bool,
    /// Dry run mode (`-n`).
    pub dry_run: bool,
    /// Whether itemized changes are enabled (`-i`).
    pub itemize_changes: bool,
    /// List files instead of copying them (`--list-only`).
    pub list_only: bool,
    /// How to handle extraneous files on the receiver.
    pub delete: DeleteMode,
    /// Current verbosity level.
    pub verbosity: Verbosity,
}

impl OutputFlags {
    /// The values before anything is set.
    pub open spec fn initial() -> OutputFlags {
        OutputFlags {
            compress: false,
            progress: false,
            stats: false,
            dry_run: false,
            itemize_changes: false,
            list_only: false,
            delete: DeleteMode::Off,
            verbosity: Verbosity::Normal,
        }
    }
}

impl Default for OutputFlags {
    fn default() -> (r: Self)
        ensures
            r == OutputFlags::initial(),
    {
        OutputFlags {
            compress: false,
            progress: false,
            stats: false,
            dry_run: false,
            itemize_changes: false,
            list_only: false,
            delete: DeleteMode::Off,
            verbosity: Verbosity::Normal,
        }
    }
}

/// Numbers that bound or tune a transfer.
#[derive(Debug, Clone, Copy, PartialEq, Eq, Structural)]
pub struct Limits {
    /// Compression level (1-9).
    pub compress_level: u32,
    /// Number of concurrent file transfers (`--concurrent`).
    pub concurrent: usize,
    /// Per-directory filter file level: 0 is off, 1 is `-F`, 2 is `-FF`.
    pub filter_merge_files: u8,
    /// Tolerated difference of modification times in seconds (`--modify-window`).
    pub modify_window: u32,
    /// Bandwidth limit in bytes/sec.
    pub bwlimit: Option<u64>,
    /// Maximum file size to transfer.
    pub max_size: Option<u64>,
    /// Minimum file size to transfer.
    pub min_size: Option<u64>,
    /// Timeout in seconds.
    pub timeout: Option<u64>,
    /// Maximum number of files to delete (`--max-delete`).
    pub max_delete: Option<u64>,
    /// Fixed checksum block size (`--block-size`).
    pub block_size: Option<i32>,
    /// Owner to set on the receiver (`--chown`).
    pub chown_uid: Option<u32>,
    /// Group to set on the receiver (`--chown`).
    pub chown_gid: Option<u32>,
}

impl Limits {
    /// The values before anything is set.
    pub open spec fn initial() -> Limits {
        Limits {
            compress_level: 6,
            concurrent: 1,
            filter_merge_files: 0,
            modify_window: 0,
            bwlimit: None,
            max_size: None,
            min_size: None,
            timeout: None,
            max_delete: None,
            block_size: None,
            chown_uid: None,
            chown_gid: None,
        }
    }
}

impl Default for Limits {
    fn default() -> (r: Self)
        ensures
            r == Limits::initial(),
    {
        Limits {
            compress_level: 6,
            concurrent: 1,
            filter_merge_files: 0,
            modify_window: 0,
            bwlimit: None,
            max_size: None,
            min_size: None,
            timeout: None,
            max_delete: None,
            block_size: None,
            chown_uid: None,
            chown_gid: None,
        }
    }
}

/// Patterns, rules and other texts.
#[derive(Debug)]
pub struct TextOptions {
    /// Exclude patterns (`--exclude`).
    pub exclude: Vec<String>,
    /// Patterns to keep.
    pub include_patterns: Vec<String>,
    /// Filter rules (`--filter`).
    pub filter: Vec<String>,
    /// Permission changes (`--chmod`).
    pub chmod: Vec<String>,
    /// Suffix for backup files.
    pub suffix: String,
}

/// The view of [`TextOptions`].
pub struct TextOptionsView {
    pub exclude: Seq<Seq<char>>,
    pub include_patterns: Seq<Seq<char>>,
    pub filter: Seq<Seq<char>>,
    pub chmod: Seq<Seq<char>>,
    pub suffix: Seq<char>,
}

impl View for TextOptions {
    type V = TextOptionsView;

    open spec fn view(&self) -> TextOptionsView {
        TextOptionsView {
            exclude: text_views(self.exclude@),
            include_patterns: text_views(self.include_patterns@),
            filter: text_views(self.filter@),
            chmod: text_views(self.chmod@),
            suffix: self.suffix@,
        }
    }
}

/// Paths, as byte strings.
#[derive(Debug)]
pub struct PathOptions {
    /// Source path(s).
    pub source: Vec<Vec<u8>>,
    /// Hard-link basis directories (`--link-dest`).
    pub link_dest: Vec<Vec<u8>>,
    /// Copy basis directories (`--copy-dest`).
    pub copy_dest: Vec<Vec<u8>>,
    /// Compare basis directories (`--compare-dest`).
    pub compare_dest: Vec<Vec<u8>>,
    /// Files with exclude patterns (`--exclude-from`).
    pub exclude_from: Vec<Vec<u8>>,
    /// Files with patterns to keep.
    pub include_from: Vec<Vec<u8>>,
    /// Destination path.
    pub dest: Option<Vec<u8>>,
    /// Backup directory path.
    pub backup_dir: Option<Vec<u8>>,
    /// Partial transfer directory.
    pub partial_dir: Option<Vec<u8>>,
    /// Files-from path.
    pub files_from: Option<Vec<u8>>,
}

/// The view of [`PathOptions`].
pub struct PathOptionsView {
    pub source: Seq<Seq<u8>>,
    pub link_dest: Seq<Seq<u8>>,
    pub copy_dest: Seq<Seq<u8>>,
    pub compare_dest: Seq<Seq<u8>>,
    pub exclude_from: Seq<Seq<u8>>,
    pub include_from: Seq<Seq<u8>>,
    pub dest: Option<Seq<u8>>,
    pub backup_dir: Option<Seq<u8>>,
    pub partial_dir: Option<Seq<u8>>,
    pub files_from: Option<Seq<u8>>,
}

impl View for PathOptions {
    type V = PathOptionsView;

    open spec fn view(&self) -> PathOptionsView {
        PathOptionsView {
            source: path_views(self.source@),
            link_dest: path_views(self.link_dest@),
            copy_dest: path_views(self.copy_dest@),
            compare_dest: path_views(self.compare_dest@),
            exclude_from: path_views(self.exclude_from@),
            include_from: path_views(self.include_from@),
            dest: opt_bytes(self.dest),
            backup_dir: opt_bytes(self.backup_dir),
            partial_dir: opt_bytes(self.partial_dir),
            files_from: opt_bytes(self.files_from),
        }
    }
}

// ---------------------------------------------------------------------------
// Options
// ---------------------------------------------------------------------------

/// Transfer options controlling rsync behavior.
///
/// Construct via [`TransferOptions::builder()`]. Access fields via getter methods.
#[derive(Debug)]
pub struct TransferOptions {
    archive: ArchiveFlags,
    behavior: BehaviorFlags,
    tree: TreeFlags,
    output: OutputFlags,
    limits: Limits,
    texts: TextOptions,
    paths: PathOptions,
}

/// The same options under the name that the wire layer uses.
pub type TransferConfig = TransferOptions;

/// The view of [`TransferOptions`] and of its builder.
pub struct OptionsView {
    pub archive: ArchiveFlags,
    pub behavior: BehaviorFlags,
    pub tree: TreeFlags,
    pub output: OutputFlags,
    pub limits: Limits,
    pub texts: TextOptionsView,
    pub paths: PathOptionsView,
}

impl OptionsView {
    /// The options that nothing was set in.
    pub open spec fn initial() -> OptionsView {
        OptionsView {
            archive: ArchiveFlags::initial(),
            behavior: BehaviorFlags::initial(),
            tree: TreeFlags::initial(),
            output: OutputFlags::initial(),
            limits: Limits::initial(),
            texts: TextOptionsView {
                exclude: Seq::empty(),
                include_patterns: Seq::empty(),
                filter: Seq::empty(),
                chmod: Seq::empty(),
                suffix: seq!['~'],
            },
            paths: PathOptionsView {
                source: Seq::empty(),
                link_dest: Seq::empty(),
                copy_dest: Seq::empty(),
                compare_dest: Seq::empty(),
                exclude_from: Seq::empty(),
                include_from: Seq::empty(),
                dest: None,
                backup_dir: None,
                partial_dir: None,
                files_from: None,
            },
        }
    }

    /// Whether all flags of archive mode (`-rlptgoD`) are set.
    pub open spec fn is_archive(self) -> bool {
        let a = self.archive;
        a.recursive && a.preserve_links && a.preserve_perms && a.preserve_times && a.preserve_group
            && a.preserve_owner && a.preserve_devices && a.preserve_specials
    }

    /// What a scan does with directories under these options.
    pub open spec fn directory_mode(self) -> DirectoryMode {
        if self.archive.recursive {
            DirectoryMode::Recurse
        } else if self.tree.dirs {
            DirectoryMode::List
        } else {
            DirectoryMode::Skip
        }
    }
}

impl View for TransferOptions {
    type V = OptionsView;

    closed spec fn view(&self) -> OptionsView {
        OptionsView {
            archive: self.archive,
            behavior: self.behavior,
            tree: self.tree,
            output: self.output,
            limits: self.limits,
            texts: self.texts@,
            paths: self.paths@,
        }
    }
}

impl Default for TransferOptions {
    fn default() -> (r: Self)
        ensures
            r@ == OptionsView::initial(),
    {
        let texts = TextOptions {
            exclude: Vec::new(),
            include_patterns: Vec::new(),
            filter: Vec::new(),
            chmod: Vec::new(),
            suffix: "~".to_owned(),
        };
        let paths = PathOptions {
            source: Vec::new(),
            link_dest: Vec::new(),
            copy_dest: Vec::new(),
            compare_dest: Vec::new(),
            exclude_from: Vec::new(),
            include_from: Vec::new(),
            dest: None,
            backup_dir: None,
            partial_dir: None,
            files_from: None,
        };
        proof {
            reveal_strlit("~");
            assert(texts.suffix@ =~= seq!['~']);
            assert(text_views(texts.exclude@) =~= Seq::empty());
            assert(text_views(texts.include_patterns@) =~= Seq::empty());
            assert(text_views(texts.filter@) =~= Seq::empty());
            assert(text_views(texts.chmod@) =~= Seq::empty());
            assert(path_views(paths.source@) =~= Seq::empty());
            assert(path_views(paths.link_dest@) =~= Seq::empty());
            assert(path_views(paths.copy_dest@) =~= Seq::empty());
            assert(path_views(paths.compare_dest@) =~= Seq::empty());
            assert(path_views(paths.exclude_from@) =~= Seq::empty());
            assert(path_views(paths.include_from@) =~= Seq::empty());
        }
        TransferOptions {
            archive: ArchiveFlags::default(),
            behavior: BehaviorFlags::default(),
            tree: TreeFlags::default(),
            output: OutputFlags::default(),
            limits: Limits::default(),
            texts,
            paths,
        }
    }
}

impl Clone for TransferOptions {
    fn clone(&self) -> (r: Self)
        ensures
            r@ == self@,
    {
        TransferOptions {
            archive: self.archive,
            behavior: self.behavior,
            tree: self.tree,
            output: self.output,
            limits: self.limits,
            texts: TextOptions {
                exclude: copy_texts(self.texts.exclude.as_slice()),
                include_patterns: copy_texts(self.texts.include_patterns.as_slice()),
                filter: copy_texts(self.texts.filter.as_slice()),
                chmod: copy_texts(self.texts.chmod.as_slice()),
                suffix: self.texts.suffix.clone(),
            },
            paths: PathOptions {
                source: copy_paths(self.paths.source.as_slice()),
                link_dest: copy_paths(self.paths.link_dest.as_slice()),
                copy_dest: copy_paths(self.paths.copy_dest.as_slice()),
                compare_dest: copy_paths(self.paths.compare_dest.as_slice()),
                exclude_from: copy_paths(self.paths.exclude_from.as_slice()),
                include_from: copy_paths(self.paths.include_from.as_slice()),
                dest: copy_opt_bytes(&self.paths.dest),
                backup_dir: copy_opt_bytes(&self.paths.backup_dir),
                partial_dir: copy_opt_bytes(&self.paths.partial_dir),
                files_from: copy_opt_bytes(&self.paths.files_from),
            },
        }
    }
}

impl TransferOptions {
    /// Create a new builder for transfer options.
    pub fn builder() -> (r: TransferOptionsBuilder)
        ensures
            r@ == OptionsView::initial(),
    {
        TransferOptionsBuilder::default()
    }

    /// Returns `true` if archive mode flags are all set (`-a` = `-rlptgoD`).
    pub fn is_archive(&self) -> (r: bool)
        ensures
            r == self@.is_archive(),
    {
        let a = self.archive;
        a.recursive && a.preserve_links && a.preserve_perms && a.preserve_times && a.preserve_group
            && a.preserve_owner && a.preserve_devices && a.preserve_specials
    }

    /// What a scan does with directories under these options.
    pub fn directory_mode(&self) -> (r: DirectoryMode)
        ensures
            r == self@.directory_mode(),
    {
        if self.archive.recursive {
            DirectoryMode::Recurse
        } else if self.tree.dirs {
            DirectoryMode::List
        } else {
            DirectoryMode::Skip
        }
    }

    /// Recurse into directories (`-r`).
    pub fn recursive(&self) -> (r: bool)
        ensures
            r == self@.archive.recursive,
    {
        self.archive.recursive
    }

    /// Preserve symlinks as symlinks (`-l`).
    pub fn preserve_links(&self) -> (r: bool)
        ensures
            r == self@.archive.preserve_links,
    {
        self.archive.preserve_links
    }

    /// Preserve permissions (`-p`).
    pub fn preserve_perms(&self) -> (r: bool)
        ensures
            r == self@.archive.preserve_perms,
    {
        self.archive.preserve_perms
    }

    /// Preserve modification times (`-t`).
    pub fn preserve_times(&self) -> (r: bool)
        ensures
            r == self@.archive.preserve_times,
    {
        self.archive.preserve_times
    }

    /// Preserve group (`-g`).
    pub fn preserve_group(&self) -> (r: bool)
        ensures
            r == self@.archive.preserve_group,
    {
        self.archive.preserve_group
    }

    /// Preserve owner (`-o`, requires root).
    pub fn preserve_owner(&self) -> (r: bool)
        ensures
            r == self@.archive.preserve_owner,
    {
        self.archive.preserve_owner
    }

    /// Preserve device files (`-D` component).
    pub fn preserve_devices(&self) -> (r: bool)
        ensures
            r == self@.archive.preserve_devices,
    {
        self.archive.preserve_devices
    }

    /// Preserve special files (`-D` component).
    pub fn preserve_specials(&self) -> (r: bool)
        ensures
            r == self@.archive.preserve_specials,
    {
        self.archive.preserve_specials
    }

    /// Use checksums for change detection (`-c`).
    pub fn checksum_mode(&self) -> (r: bool)
        ensures
            r == self@.behavior.checksum_mode,
    {
        self.behavior.checksum_mode
    }

    /// Whole-file transfer (`--whole-file`).
    pub fn whole_file(&self) -> (r: bool)
        ensures
            r == self@.behavior.whole_file,
    {
        self.behavior.whole_file
    }

    /// Update only: skip files newer on receiver (`-u`).
    pub fn update(&self) -> (r: bool)
        ensures
            r == self@.behavior.update,
    {
        self.behavior.update
    }

    /// In-place file updates (`--inplace`).
    pub fn inplace(&self) -> (r: bool)
        ensures
            r == self@.behavior.inplace,
    {
        self.behavior.inplace
    }

    /// Append mode (`--append`).
    pub fn append(&self) -> (r: bool)
        ensures
            r == self@.behavior.append,
    {
        self.behavior.append
    }

    /// Append with checksum of the old data (`--append-verify`).
    pub fn append_verify(&self) -> (r: bool)
        ensures
            r == self@.behavior.append_verify,
    {
        self.behavior.append_verify
    }

    /// Transfer files even where size and time agree (`-I`).
    pub fn ignore_times(&self) -> (r: bool)
        ensures
            r == self@.behavior.ignore_times,
    {
        self.behavior.ignore_times
    }

    /// Skip files that agree in size (`--size-only`).
    pub fn size_only(&self) -> (r: bool)
        ensures
            r == self@.behavior.size_only,
    {
        self.behavior.size_only
    }

    /// Skip creating new files on the receiver (`--existing`).
    pub fn existing(&self) -> (r: bool)
        ensures
            r == self@.behavior.existing,
    {
        self.behavior.existing
    }

    /// Skip updating files that exist on the receiver (`--ignore-existing`).
    pub fn ignore_existing(&self) -> (r: bool)
        ensures
            r == self@.behavior.ignore_existing,
    {
        self.behavior.ignore_existing
    }

    /// Find a similar file as basis (`-y`).
    pub fn fuzzy(&self) -> (r: bool)
        ensures
            r == self@.behavior.fuzzy,
    {
        self.behavior.fuzzy
    }

    /// Keep partially transferred files (`--partial`).
    pub fn partial(&self) -> (r: bool)
        ensures
            r == self@.behavior.partial,
    {
        self.behavior.partial
    }

    /// Sparse file handling (`--sparse`).
    pub fn sparse(&self) -> (r: bool)
        ensures
            r == self@.behavior.sparse,
    {
        self.behavior.sparse
    }

    /// Whether backup is enabled (`-b`).
    pub fn backup(&self) -> (r: bool)
        ensures
            r == self@.behavior.backup,
    {
        self.behavior.backup
    }

    /// Keep relative path names (`-R`).
    pub fn relative(&self) -> (r: bool)
        ensures
            r == self@.tree.relative,
    {
        self.tree.relative
    }

    /// Follow symlinks (`-L`).
    pub fn copy_links(&self) -> (r: bool)
        ensures
            r == self@.tree.copy_links,
    {
        self.tree.copy_links
    }

    /// Ignore symlinks that point outside the tree (`--safe-links`).
    pub fn safe_links(&self) -> (r: bool)
        ensures
            r == self@.tree.safe_links,
    {
        self.tree.safe_links
    }

    /// Treat a symlinked directory on the receiver as a directory (`-K`).
    pub fn keep_dirlinks(&self) -> (r: bool)
        ensures
            r == self@.tree.keep_dirlinks,
    {
        self.tree.keep_dirlinks
    }

    /// Remove source files after transfer (`--remove-source-files`).
    pub fn remove_source_files(&self) -> (r: bool)
        ensures
            r == self@.tree.remove_source_files,
    {
        self.tree.remove_source_files
    }

    /// Transfer directories without recursing (`-d`).
    pub fn dirs(&self) -> (r: bool)
        ensures
            r == self@.tree.dirs,
    {
        self.tree.dirs
    }

    /// Prune empty directories (`-m`).
    pub fn prune_empty_dirs(&self) -> (r: bool)
        ensures
            r == self@.tree.prune_empty_dirs,
    {
        self.tree.prune_empty_dirs
    }

    /// Ignore files the way CVS does (`-C`).
    pub fn cvs_exclude(&self) -> (r: bool)
        ensures
            r == self@.tree.cvs_exclude,
    {
        self.tree.cvs_exclude
    }

    /// Don't cross filesystem boundaries (`-x`).
    pub fn one_file_system(&self) -> (r: bool)
        ensures
            r == self@.tree.one_file_system,
    {
        self.tree.one_file_system
    }

    /// Preserve hard links (`-H`).
    pub fn preserve_hard_links(&self) -> (r: bool)
        ensures
            r == self@.tree.preserve_hard_links,
    {
        self.tree.preserve_hard_links
    }

    /// Preserve ACLs (`-A`).
    pub fn preserve_acls(&self) -> (r: bool)
        ensures
            r == self@.tree.preserve_acls,
    {
        self.tree.preserve_acls
    }

    /// Preserve extended attributes (`-X`).
    pub fn preserve_xattrs(&self) -> (r: bool)
        ensures
            r == self@.tree.preserve_xattrs,
    {
        self.tree.preserve_xattrs
    }

    /// Use numeric uid/gid (`--numeric-ids`).
    pub fn numeric_ids(&self) -> (r: bool)
        ensures
            r == self@.tree.numeric_ids,
    {
        self.tree.numeric_ids
    }

    /// Store privileged attributes in xattrs (`--fake-super`).
    pub fn fake_super(&self) -> (r: bool)
        ensures
            r == self@.tree.fake_super,
    {
        self.tree.fake_super
    }

    /// Whether compression is enabled (`-z`).
    pub fn compress(&self) -> (r: bool)
        ensures
            r == self@.output.compress,
    {
        self.output.compress
    }

    /// Whether per-file transfer progress is enabled (`--progress`).
    pub fn progress(&self) -> (r: bool)
        ensures
            r == self@.output.progress,
    {
        self.output.progress
    }

    /// Whether transfer statistics are printed at end (`--stats`).
    pub fn stats(&self) -> (r: bool)
        ensures
            r == self@.output.stats,
    {
        self.output.stats
    }

    /// Dry run mode (`-n`).
    pub fn dry_run(&self) -> (r: bool)
        ensures
            r == self@.output.dry_run,
    {
        self.output.dry_run
    }

    /// Whether itemized changes are enabled (`-i`).
    pub fn itemize_changes(&self) -> (r: bool)
        ensures
            r == self@.output.itemize_changes,
    {
        self.output.itemize_changes
    }

    /// List files instead of copying them (`--list-only`).
    pub fn list_only(&self) -> (r: bool)
        ensures
            r == self@.output.list_only,
    {
        self.output.list_only
    }

    /// How to handle extraneous files on the receiver.
    pub fn delete(&self) -> (r: DeleteMode)
        ensures
            r == self@.output.delete,
    {
        self.output.delete
    }

    /// Current verbosity level.
    pub fn verbosity(&self) -> (r: Verbosity)
        ensures
            r == self@.output.verbosity,
    {
        self.output.verbosity
    }

    /// Compression level (1-9).
    pub fn compress_level(&self) -> (r: u32)
        ensures
            r == self@.limits.compress_level,
    {
        self.limits.compress_level
    }

    /// Number of concurrent file transfers (`--concurrent`).
    pub fn concurrent(&self) -> (r: usize)
        ensures
            r == self@.limits.concurrent,
    {
        self.limits.concurrent
    }

    /// Per-directory filter file level: 0 is off, 1 is `-F`, 2 is `-FF`.
    pub fn filter_merge_files(&self) -> (r: u8)
        ensures
            r == self@.limits.filter_merge_files,
    {
        self.limits.filter_merge_files
    }

    /// Tolerated difference of modification times in seconds (`--modify-window`).
    pub fn modify_window(&self) -> (r: u32)
        ensures
            r == self@.limits.modify_window,
    {
        self.limits.modify_window
    }

    /// Bandwidth limit in bytes/sec.
    pub fn bwlimit(&self) -> (r: Option<u64>)
        ensures
            r == self@.limits.bwlimit,
    {
        self.limits.bwlimit
    }

    /// Maximum file size to transfer.
    pub fn max_size(&self) -> (r: Option<u64>)
        ensures
            r == self@.limits.max_size,
    {
        self.limits.max_size
    }

    /// Minimum file size to transfer.
    pub fn min_size(&self) -> (r: Option<u64>)
        ensures
            r == self@.limits.min_size,
    {
        self.limits.min_size
    }

    /// Timeout in seconds.
    pub fn timeout(&self) -> (r: Option<u64>)
        ensures
            r == self@.limits.timeout,
    {
        self.limits.timeout
    }

    /// Maximum number of files to delete (`--max-delete`).
    pub fn max_delete(&self) -> (r: Option<u64>)
        ensures
            r == self@.limits.max_delete,
    {
        self.limits.max_delete
    }

    /// Fixed checksum block size (`--block-size`).
    pub fn block_size(&self) -> (r: Option<i32>)
        ensures
            r == self@.limits.block_size,
    {
        self.limits.block_size
    }

    /// Owner to set on the receiver (`--chown`).
    pub fn chown_uid(&self) -> (r: Option<u32>)
        ensures
            r == self@.limits.chown_uid,
    {
        self.limits.chown_uid
    }

    /// Group to set on the receiver (`--chown`).
    pub fn chown_gid(&self) -> (r: Option<u32>)
        ensures
            r == self@.limits.chown_gid,
    {
        self.limits.chown_gid
    }

    /// Exclude patterns (`--exclude`).
    pub fn exclude(&self) -> (r: &[String])
        ensures
            text_views(r@) == self@.texts.exclude,
    {
        self.texts.exclude.as_slice()
    }

    /// Patterns to keep.
    pub fn include_patterns(&self) -> (r: &[String])
        ensures
            text_views(r@) == self@.texts.include_patterns,
    {
        self.texts.include_patterns.as_slice()
    }

    /// Filter rules (`--filter`).
    pub fn filter(&self) -> (r: &[String])
        ensures
            text_views(r@) == self@.texts.filter,
    {
        self.texts.filter.as_slice()
    }

    /// Permission changes (`--chmod`).
    pub fn chmod(&self) -> (r: &[String])
        ensures
            text_views(r@) == self@.texts.chmod,
    {
        self.texts.chmod.as_slice()
    }

    /// Suffix for backup files.
    pub fn suffix(&self) -> (r: &str)
        ensures
            r@ == self@.texts.suffix,
    {
        self.texts.suffix.as_str()
    }

    /// Source path(s).
    pub fn source(&self) -> (r: &[Vec<u8>])
        ensures
            path_views(r@) == self@.paths.source,
    {
        self.paths.source.as_slice()
    }

    /// Hard-link basis directories (`--link-dest`).
    pub fn link_dest(&self) -> (r: &[Vec<u8>])
        ensures
            path_views(r@) == self@.paths.link_dest,
    {
        self.paths.link_dest.as_slice()
    }

    /// Copy basis directories (`--copy-dest`).
    pub fn copy_dest(&self) -> (r: &[Vec<u8>])
        ensures
            path_views(r@) == self@.paths.copy_dest,
    {
        self.paths.copy_dest.as_slice()
    }

    /// Compare basis directories (`--compare-dest`).
    pub fn compare_dest(&self) -> (r: &[Vec<u8>])
        ensures
            path_views(r@) == self@.paths.compare_dest,
    {
        self.paths.compare_dest.as_slice()
    }

    /// Files with exclude patterns (`--exclude-from`).
    pub fn exclude_from(&self) -> (r: &[Vec<u8>])
        ensures
            path_views(r@) == self@.paths.exclude_from,
    {
        self.paths.exclude_from.as_slice()
    }

    /// Files with patterns to keep.
    pub fn include_from(&self) -> (r: &[Vec<u8>])
        ensures
            path_views(r@) == self@.paths.include_from,
    {
        self.paths.include_from.as_slice()
    }

    /// Destination path.
    pub fn dest(&self) -> (r: Option<&Vec<u8>>)
        ensures
            opt_path(r) == self@.paths.dest,
    {
        self.paths.dest.as_ref()
    }

    /// Backup directory path.
    pub fn backup_dir(&self) -> (r: Option<&Vec<u8>>)
        ensures
            opt_path(r) == self@.paths.backup_dir,
    {
        self.paths.backup_dir.as_ref()
    }

    /// Partial transfer directory.
    pub fn partial_dir(&self) -> (r: Option<&Vec<u8>>)
        ensures
            opt_path(r) == self@.paths.partial_dir,
    {
        self.paths.partial_dir.as_ref()
    }

    /// Files-from path.
    pub fn files_from(&self) -> (r: Option<&Vec<u8>>)
        ensures
            opt_path(r) == self@.paths.files_from,
    {
        self.paths.files_from.as_ref()
    }

}

/// Builder for [`TransferOptions`].
#[derive(Debug)]
pub struct TransferOptionsBuilder {
    opts: TransferOptions,
}

impl View for TransferOptionsBuilder {
    type V = OptionsView;

    closed spec fn view(&self) -> OptionsView {
        self.opts@
    }
}

impl Default for TransferOptionsBuilder {
    fn default() -> (r: Self)
        ensures
            r@ == OptionsView::initial(),
    {
        TransferOptionsBuilder { opts: TransferOptions::default() }
    }
}

impl TransferOptionsBuilder {
    /// Enable archive mode (`-a` = `-rlptgoD`).
    pub fn archive(self) -> (r: Self)
        ensures
            r@ == (OptionsView {
                archive: ArchiveFlags {
                    recursive: true,
                    preserve_links: true,
                    preserve_perms: true,
                    preserve_times: true,
                    preserve_group: true,
                    preserve_owner: true,
                    preserve_devices: true,
                    preserve_specials: true,
                },
                ..self@
            }),
    {
        let archive = ArchiveFlags {
            recursive: true,
            preserve_links: true,
            preserve_perms: true,
            preserve_times: true,
            preserve_group: true,
            preserve_owner: true,
            preserve_devices: true,
            preserve_specials: true,
        };
        TransferOptionsBuilder { opts: TransferOptions { archive, ..self.opts } }
    }

    /// Recurse into directories (`-r`).
    pub fn recursive(self, v: bool) -> (r: Self)
        ensures
            r@ == (OptionsView {
                archive: ArchiveFlags { recursive: v, ..self@.archive },
                ..self@
            }),
    {
        let archive = ArchiveFlags { recursive: v, ..self.opts.archive };
        TransferOptionsBuilder { opts: TransferOptions { archive, ..self.opts } }
    }

    /// Preserve symlinks as symlinks (`-l`).
    pub fn preserve_links(self, v: bool) -> (r: Self)
        ensures
            r@ == (OptionsView {
                archive: ArchiveFlags { preserve_links: v, ..self@.archive },
                ..self@
            }),
    {
        let archive = ArchiveFlags { preserve_links: v, ..self.opts.archive };
        TransferOptionsBuilder { opts: TransferOptions { archive, ..self.opts } }
    }

    /// Preserve permissions (`-p`).
    pub fn preserve_perms(self, v: bool) -> (r: Self)
        ensures
            r@ == (OptionsView {
                archive: ArchiveFlags { preserve_perms: v, ..self@.archive },
                ..self@
            }),
    {
        let archive = ArchiveFlags { preserve_perms: v, ..self.opts.archive };
        TransferOptionsBuilder { opts: TransferOptions { archive, ..self.opts } }
    }

    /// Preserve modification times (`-t`).
    pub fn preserve_times(self, v: bool) -> (r: Self)
        ensures
            r@ == (OptionsView {
                archive: ArchiveFlags { preserve_times: v, ..self@.archive },
                ..self@
            }),
    {
        let archive = ArchiveFlags { preserve_times: v, ..self.opts.archive };
        TransferOptionsBuilder { opts: TransferOptions { archive, ..self.opts } }
    }

    /// Preserve group (`-g`).
    pub fn preserve_group(self, v: bool) -> (r: Self)
        ensures
            r@ == (OptionsView {
                archive: ArchiveFlags { preserve_group: v, ..self@.archive },
                ..self@
            }),
    {
        let archive = ArchiveFlags { preserve_group: v, ..self.opts.archive };
        TransferOptionsBuilder { opts: TransferOptions { archive, ..self.opts } }
    }

    /// Preserve owner (`-o`, requires root).
    pub fn preserve_owner(self, v: bool) -> (r: Self)
        ensures
            r@ == (OptionsView {
                archive: ArchiveFlags { preserve_owner: v, ..self@.archive },
                ..self@
            }),
    {
        let archive = ArchiveFlags { preserve_owner: v, ..self.opts.archive };
        TransferOptionsBuilder { opts: TransferOptions { archive, ..self.opts } }
    }

    /// Preserve device files (`-D` component).
    pub fn preserve_devices(self, v: bool) -> (r: Self)
        ensures
            r@ == (OptionsView {
                archive: ArchiveFlags { preserve_devices: v, ..self@.archive },
                ..self@
            }),
    {
        let archive = ArchiveFlags { preserve_devices: v, ..self.opts.archive };
        TransferOptionsBuilder { opts: TransferOptions { archive, ..self.opts } }
    }

    /// Preserve special files (`-D` component).
    pub fn preserve_specials(self, v: bool) -> (r: Self)
        ensures
            r@ == (OptionsView {
                archive: ArchiveFlags { preserve_specials: v, ..self@.archive },
                ..self@
            }),
    {
        let archive = ArchiveFlags { preserve_specials: v, ..self.opts.archive };
        TransferOptionsBuilder { opts: TransferOptions { archive, ..self.opts } }
    }

    /// Use checksums for change detection (`-c`).
    pub fn checksum_mode(self, v: bool) -> (r: Self)
        ensures
            r@ == (OptionsView {
                behavior: BehaviorFlags { checksum_mode: v, ..self@.behavior },
                ..self@
            }),
    {
        let behavior = BehaviorFlags { checksum_mode: v, ..self.opts.behavior };
        TransferOptionsBuilder { opts: TransferOptions { behavior, ..self.opts } }
    }

    /// Whole-file transfer (`--whole-file`).
    pub fn whole_file(self, v: bool) -> (r: Self)
        ensures
            r@ == (OptionsView {
                behavior: BehaviorFlags { whole_file: v, ..self@.behavior },
                ..self@
            }),
    {
        let behavior = BehaviorFlags { whole_file: v, ..self.opts.behavior };
        TransferOptionsBuilder { opts: TransferOptions { behavior, ..self.opts } }
    }

    /// Update only: skip files newer on receiver (`-u`).
    pub fn update(self, v: bool) -> (r: Self)
        ensures
            r@ == (OptionsView {
                behavior: BehaviorFlags { update: v, ..self@.behavior },
                ..self@
            }),
    {
        let behavior = BehaviorFlags { update: v, ..self.opts.behavior };
        TransferOptionsBuilder { opts: TransferOptions { behavior, ..self.opts } }
    }

    /// In-place file updates (`--inplace`).
    pub fn inplace(self, v: bool) -> (r: Self)
        ensures
            r@ == (OptionsView {
                behavior: BehaviorFlags { inplace: v, ..self@.behavior },
                ..self@
            }),
    {
        let behavior = BehaviorFlags { inplace: v, ..self.opts.behavior };
        TransferOptionsBuilder { opts: TransferOptions { behavior, ..self.opts } }
    }

    /// Append mode (`--append`).
    pub fn append(self, v: bool) -> (r: Self)
        ensures
            r@ == (OptionsView {
                behavior: BehaviorFlags { append: v, ..self@.behavior },
                ..self@
            }),
    {
        let behavior = BehaviorFlags { append: v, ..self.opts.behavior };
        TransferOptionsBuilder { opts: TransferOptions { behavior, ..self.opts } }
    }

    /// Append with checksum of the old data (`--append-verify`).
    pub fn append_verify(self, v: bool) -> (r: Self)
        ensures
            r@ == (OptionsView {
                behavior: BehaviorFlags { append_verify: v, ..self@.behavior },
                ..self@
            }),
    {
        let behavior = BehaviorFlags { append_verify: v, ..self.opts.behavior };
        TransferOptionsBuilder { opts: TransferOptions { behavior, ..self.opts } }
    }

    /// Transfer files even where size and time agree (`-I`).
    pub fn ignore_times(self, v: bool) -> (r: Self)
        ensures
            r@ == (OptionsView {
                behavior: BehaviorFlags { ignore_times: v, ..self@.behavior },
                ..self@
            }),
    {
        let behavior = BehaviorFlags { ignore_times: v, ..self.opts.behavior };
        TransferOptionsBuilder { opts: TransferOptions { behavior, ..self.opts } }
    }

    /// Skip files that agree in size (`--size-only`).
    pub fn size_only(self, v: bool) -> (r: Self)
        ensures
            r@ == (OptionsView {
                behavior: BehaviorFlags { size_only: v, ..self@.behavior },
                ..self@
            }),
    {
        let behavior = BehaviorFlags { size_only: v, ..self.opts.behavior };
        TransferOptionsBuilder { opts: TransferOptions { behavior, ..self.opts } }
    }

    /// Skip creating new files on the receiver (`--existing`).
    pub fn existing(self, v: bool) -> (r: Self)
        ensures
            r@ == (OptionsView {
                behavior: BehaviorFlags { existing: v, ..self@.behavior },
                ..self@
            }),
    {
        let behavior = BehaviorFlags { existing: v, ..self.opts.behavior };
        TransferOptionsBuilder { opts: TransferOptions { behavior, ..self.opts } }
    }

    /// Skip updating files that exist on the receiver (`--ignore-existing`).
    pub fn ignore_existing(self, v: bool) -> (r: Self)
        ensures
            r@ == (OptionsView {
                behavior: BehaviorFlags { ignore_existing: v, ..self@.behavior },
                ..self@
            }),
    {
        let behavior = BehaviorFlags { ignore_existing: v, ..self.opts.behavior };
        TransferOptionsBuilder { opts: TransferOptions { behavior, ..self.opts } }
    }

    /// Find a similar file as basis (`-y`).
    pub fn fuzzy(self, v: bool) -> (r: Self)
        ensures
            r@ == (OptionsView {
                behavior: BehaviorFlags { fuzzy: v, ..self@.behavior },
                ..self@
            }),
    {
        let behavior = BehaviorFlags { fuzzy: v, ..self.opts.behavior };
        TransferOptionsBuilder { opts: TransferOptions { behavior, ..self.opts } }
    }

    /// Keep partially transferred files (`--partial`).
    pub fn partial(self, v: bool) -> (r: Self)
        ensures
            r@ == (OptionsView {
                behavior: BehaviorFlags { partial: v, ..self@.behavior },
                ..self@
            }),
    {
        let behavior = BehaviorFlags { partial: v, ..self.opts.behavior };
        TransferOptionsBuilder { opts: TransferOptions { behavior, ..self.opts } }
    }

    /// Sparse file handling (`--sparse`).
    pub fn sparse(self, v: bool) -> (r: Self)
        ensures
            r@ == (OptionsView {
                behavior: BehaviorFlags { sparse: v, ..self@.behavior },
                ..self@
            }),
    {
        let behavior = BehaviorFlags { sparse: v, ..self.opts.behavior };
        TransferOptionsBuilder { opts: TransferOptions { behavior, ..self.opts } }
    }

    /// Whether backup is enabled (`-b`).
    pub fn backup(self, v: bool) -> (r: Self)
        ensures
            r@ == (OptionsView {
                behavior: BehaviorFlags { backup: v, ..self@.behavior },
                ..self@
            }),
    {
        let behavior = BehaviorFlags { backup: v, ..self.opts.behavior };
        TransferOptionsBuilder { opts: TransferOptions { behavior, ..self.opts } }
    }

    /// Keep relative path names (`-R`).
    pub fn relative(self, v: bool) -> (r: Self)
        ensures
            r@ == (OptionsView {
                tree: TreeFlags { relative: v, ..self@.tree },
                ..self@
            }),
    {
        let tree = TreeFlags { relative: v, ..self.opts.tree };
        TransferOptionsBuilder { opts: TransferOptions { tree, ..self.opts } }
    }

    /// Follow symlinks (`-L`).
    pub fn copy_links(self, v: bool) -> (r: Self)
        ensures
            r@ == (OptionsView {
                tree: TreeFlags { copy_links: v, ..self@.tree },
                ..self@
            }),
    {
        let tree = TreeFlags { copy_links: v, ..self.opts.tree };
        TransferOptionsBuilder { opts: TransferOptions { tree, ..self.opts } }
    }

    /// Ignore symlinks that point outside the tree (`--safe-links`).
    pub fn safe_links(self, v: bool) -> (r: Self)
        ensures
            r@ == (OptionsView {
                tree: TreeFlags { safe_links: v, ..self@.tree },
                ..self@
            }),
    {
        let tree = TreeFlags { safe_links: v, ..self.opts.tree };
        TransferOptionsBuilder { opts: TransferOptions { tree, ..self.opts } }
    }

    /// Treat a symlinked directory on the receiver as a directory (`-K`).
    pub fn keep_dirlinks(self, v: bool) -> (r: Self)
        ensures
            r@ == (OptionsView {
                tree: TreeFlags { keep_dirlinks: v, ..self@.tree },
                ..self@
            }),
    {
        let tree = TreeFlags { keep_dirlinks: v, ..self.opts.tree };
        TransferOptionsBuilder { opts: TransferOptions { tree, ..self.opts } }
    }

    /// Remove source files after transfer (`--remove-source-files`).
    pub fn remove_source_files(self, v: bool) -> (r: Self)
        ensures
            r@ == (OptionsView {
                tree: TreeFlags { remove_source_files: v, ..self@.tree },
                ..self@
            }),
    {
        let tree = TreeFlags { remove_source_files: v, ..self.opts.tree };
        TransferOptionsBuilder { opts: TransferOptions { tree, ..self.opts } }
    }

    /// Transfer directories without recursing (`-d`).
    pub fn dirs(self, v: bool) -> (r: Self)
        ensures
            r@ == (OptionsView {
                tree: TreeFlags { dirs: v, ..self@.tree },
                ..self@
            }),
    {
        let tree = TreeFlags { dirs: v, ..self.opts.tree };
        TransferOptionsBuilder { opts: TransferOptions { tree, ..self.opts } }
    }

    /// Prune empty directories (`-m`).
    pub fn prune_empty_dirs(self, v: bool) -> (r: Self)
        ensures
            r@ == (OptionsView {
                tree: TreeFlags { prune_empty_dirs: v, ..self@.tree },
                ..self@
            }),
    {
        let tree = TreeFlags { prune_empty_dirs: v, ..self.opts.tree };
        TransferOptionsBuilder { opts: TransferOptions { tree, ..self.opts } }
    }

    /// Ignore files the way CVS does (`-C`).
    pub fn cvs_exclude(self, v: bool) -> (r: Self)
        ensures
            r@ == (OptionsView {
                tree: TreeFlags { cvs_exclude: v, ..self@.tree },
                ..self@
            }),
    {
        let tree = TreeFlags { cvs_exclude: v, ..self.opts.tree };
        TransferOptionsBuilder { opts: TransferOptions { tree, ..self.opts } }
    }

    /// Don't cross filesystem boundaries (`-x`).
    pub fn one_file_system(self, v: bool) -> (r: Self)
        ensures
            r@ == (OptionsView {
                tree: TreeFlags { one_file_system: v, ..self@.tree },
                ..self@
            }),
    {
        let tree = TreeFlags { one_file_system: v, ..self.opts.tree };
        TransferOptionsBuilder { opts: TransferOptions { tree, ..self.opts } }
    }

    /// Preserve hard links (`-H`).
    pub fn preserve_hard_links(self, v: bool) -> (r: Self)
        ensures
            r@ == (OptionsView {
                tree: TreeFlags { preserve_hard_links: v, ..self@.tree },
                ..self@
            }),
    {
        let tree = TreeFlags { preserve_hard_links: v, ..self.opts.tree };
        TransferOptionsBuilder { opts: TransferOptions { tree, ..self.opts } }
    }

    /// Preserve ACLs (`-A`).
    pub fn preserve_acls(self, v: bool) -> (r: Self)
        ensures
            r@ == (OptionsView {
                tree: TreeFlags { preserve_acls: v, ..self@.tree },
                ..self@
            }),
    {
        let tree = TreeFlags { preserve_acls: v, ..self.opts.tree };
        TransferOptionsBuilder { opts: TransferOptions { tree, ..self.opts } }
    }

    /// Preserve extended attributes (`-X`).
    pub fn preserve_xattrs(self, v: bool) -> (r: Self)
        ensures
            r@ == (OptionsView {
                tree: TreeFlags { preserve_xattrs: v, ..self@.tree },
                ..self@
            }),
    {
        let tree = TreeFlags { preserve_xattrs: v, ..self.opts.tree };
        TransferOptionsBuilder { opts: TransferOptions { tree, ..self.opts } }
    }

    /// Use numeric uid/gid (`--numeric-ids`).
    pub fn numeric_ids(self, v: bool) -> (r: Self)
        ensures
            r@ == (OptionsView {
                tree: TreeFlags { numeric_ids: v, ..self@.tree },
                ..self@
            }),
    {
        let tree = TreeFlags { numeric_ids: v, ..self.opts.tree };
        TransferOptionsBuilder { opts: TransferOptions { tree, ..self.opts } }
    }

    /// Store privileged attributes in xattrs (`--fake-super`).
    pub fn fake_super(self, v: bool) -> (r: Self)
        ensures
            r@ == (OptionsView {
                tree: TreeFlags { fake_super: v, ..self@.tree },
                ..self@
            }),
    {
        let tree = TreeFlags { fake_super: v, ..self.opts.tree };
        TransferOptionsBuilder { opts: TransferOptions { tree, ..self.opts } }
    }

    /// Whether compression is enabled (`-z`).
    pub fn compress(self, v: bool) -> (r: Self)
        ensures
            r@ == (OptionsView {
                output: OutputFlags { compress: v, ..self@.output },
                ..self@
            }),
    {
        let output = OutputFlags { compress: v, ..self.opts.output };
        TransferOptionsBuilder { opts: TransferOptions { output, ..self.opts } }
    }

    /// Whether per-file transfer progress is enabled (`--progress`).
    pub fn progress(self, v: bool) -> (r: Self)
        ensures
            r@ == (OptionsView {
                output: OutputFlags { progress: v, ..self@.output },
                ..self@
            }),
    {
        let output = OutputFlags { progress: v, ..self.opts.output };
        TransferOptionsBuilder { opts: TransferOptions { output, ..self.opts } }
    }

    /// Whether transfer statistics are printed at end (`--stats`).
    pub fn stats(self, v: bool) -> (r: Self)
        ensures
            r@ == (OptionsView {
                output: OutputFlags { stats: v, ..self@.output },
                ..self@
            }),
    {
        let output = OutputFlags { stats: v, ..self.opts.output };
        TransferOptionsBuilder { opts: TransferOptions { output, ..self.opts } }
    }

    /// Dry run mode (`-n`).
    pub fn dry_run(self, v: bool) -> (r: Self)
        ensures
            r@ == (OptionsView {
                output: OutputFlags { dry_run: v, ..self@.output },
                ..self@
            }),
    {
        let output = OutputFlags { dry_run: v, ..self.opts.output };
        TransferOptionsBuilder { opts: TransferOptions { output, ..self.opts } }
    }

    /// Whether itemized changes are enabled (`-i`).
    pub fn itemize_changes(self, v: bool) -> (r: Self)
        ensures
            r@ == (OptionsView {
                output: OutputFlags { itemize_changes: v, ..self@.output },
                ..self@
            }),
    {
        let output = OutputFlags { itemize_changes: v, ..self.opts.output };
        TransferOptionsBuilder { opts: TransferOptions { output, ..self.opts } }
    }

    /// List files instead of copying them (`--list-only`).
    pub fn list_only(self, v: bool) -> (r: Self)
        ensures
            r@ == (OptionsView {
                output: OutputFlags { list_only: v, ..self@.output },
                ..self@
            }),
    {
        let output = OutputFlags { list_only: v, ..self.opts.output };
        TransferOptionsBuilder { opts: TransferOptions { output, ..self.opts } }
    }

    /// How to handle extraneous files on the receiver.
    pub fn delete(self, v: DeleteMode) -> (r: Self)
        ensures
            r@ == (OptionsView {
                output: OutputFlags { delete: v, ..self@.output },
                ..self@
            }),
    {
        let output = OutputFlags { delete: v, ..self.opts.output };
        TransferOptionsBuilder { opts: TransferOptions { output, ..self.opts } }
    }

    /// Current verbosity level.
    pub fn verbosity(self, v: Verbosity) -> (r: Self)
        ensures
            r@ == (OptionsView {
                output: OutputFlags { verbosity: v, ..self@.output },
                ..self@
            }),
    {
        let output = OutputFlags { verbosity: v, ..self.opts.output };
        TransferOptionsBuilder { opts: TransferOptions { output, ..self.opts } }
    }

    /// Compression level (1-9), clamped to 1 through 9.
    pub fn compress_level(self, v: u32) -> (r: Self)
        ensures
            r@ == (OptionsView {
                limits: Limits { compress_level: clamped_u32(v, 1, 9), ..self@.limits },
                ..self@
            }),
    {
        let limits = Limits { compress_level: clamp_u32(v, 1, 9), ..self.opts.limits };
        TransferOptionsBuilder { opts: TransferOptions { limits, ..self.opts } }
    }

    /// Number of concurrent file transfers (`--concurrent`), clamped to 1 through 64.
    pub fn concurrent(self, v: usize) -> (r: Self)
        ensures
            r@ == (OptionsView {
                limits: Limits { concurrent: clamped_usize(v, 1, 64), ..self@.limits },
                ..self@
            }),
    {
        let limits = Limits { concurrent: clamp_usize(v, 1, 64), ..self.opts.limits };
        TransferOptionsBuilder { opts: TransferOptions { limits, ..self.opts } }
    }

    /// Per-directory filter file level: 0 is off, 1 is `-F`, 2 is `-FF`.
    pub fn filter_merge_files(self, v: u8) -> (r: Self)
        ensures
            r@ == (OptionsView {
                limits: Limits { filter_merge_files: v, ..self@.limits },
                ..self@
            }),
    {
        let limits = Limits { filter_merge_files: v, ..self.opts.limits };
        TransferOptionsBuilder { opts: TransferOptions { limits, ..self.opts } }
    }

    /// Tolerated difference of modification times in seconds (`--modify-window`).
    pub fn modify_window(self, v: u32) -> (r: Self)
        ensures
            r@ == (OptionsView {
                limits: Limits { modify_window: v, ..self@.limits },
                ..self@
            }),
    {
        let limits = Limits { modify_window: v, ..self.opts.limits };
        TransferOptionsBuilder { opts: TransferOptions { limits, ..self.opts } }
    }

    /// Bandwidth limit in bytes/sec.
    pub fn bwlimit(self, v: u64) -> (r: Self)
        ensures
            r@ == (OptionsView {
                limits: Limits { bwlimit: Some(v), ..self@.limits },
                ..self@
            }),
    {
        let limits = Limits { bwlimit: Some(v), ..self.opts.limits };
        TransferOptionsBuilder { opts: TransferOptions { limits, ..self.opts } }
    }

    /// Maximum file size to transfer.
    pub fn max_size(self, v: u64) -> (r: Self)
        ensures
            r@ == (OptionsView {
                limits: Limits { max_size: Some(v), ..self@.limits },
                ..self@
            }),
    {
        let limits = Limits { max_size: Some(v), ..self.opts.limits };
        TransferOptionsBuilder { opts: TransferOptions { limits, ..self.opts } }
    }

    /// Minimum file size to transfer.
    pub fn min_size(self, v: u64) -> (r: Self)
        ensures
            r@ == (OptionsView {
                limits: Limits { min_size: Some(v), ..self@.limits },
                ..self@
            }),
    {
        let limits = Limits { min_size: Some(v), ..self.opts.limits };
        TransferOptionsBuilder { opts: TransferOptions { limits, ..self.opts } }
    }

    /// Timeout in seconds.
    pub fn timeout(self, v: u64) -> (r: Self)
        ensures
            r@ == (OptionsView {
                limits: Limits { timeout: Some(v), ..self@.limits },
                ..self@
            }),
    {
        let limits = Limits { timeout: Some(v), ..self.opts.limits };
        TransferOptionsBuilder { opts: TransferOptions { limits, ..self.opts } }
    }

    /// Maximum number of files to delete (`--max-delete`).
    pub fn max_delete(self, v: u64) -> (r: Self)
        ensures
            r@ == (OptionsView {
                limits: Limits { max_delete: Some(v), ..self@.limits },
                ..self@
            }),
    {
        let limits = Limits { max_delete: Some(v), ..self.opts.limits };
        TransferOptionsBuilder { opts: TransferOptions { limits, ..self.opts } }
    }

    /// Fixed checksum block size (`--block-size`).
    pub fn block_size(self, v: i32) -> (r: Self)
        ensures
            r@ == (OptionsView {
                limits: Limits { block_size: Some(v), ..self@.limits },
                ..self@
            }),
    {
        let limits = Limits { block_size: Some(v), ..self.opts.limits };
        TransferOptionsBuilder { opts: TransferOptions { limits, ..self.opts } }
    }

    /// Owner to set on the receiver (`--chown`).
    pub fn chown_uid(self, v: u32) -> (r: Self)
        ensures
            r@ == (OptionsView {
                limits: Limits { chown_uid: Some(v), ..self@.limits },
                ..self@
            }),
    {
        let limits = Limits { chown_uid: Some(v), ..self.opts.limits };
        TransferOptionsBuilder { opts: TransferOptions { limits, ..self.opts } }
    }

    /// Group to set on the receiver (`--chown`).
    pub fn chown_gid(self, v: u32) -> (r: Self)
        ensures
            r@ == (OptionsView {
                limits: Limits { chown_gid: Some(v), ..self@.limits },
                ..self@
            }),
    {
        let limits = Limits { chown_gid: Some(v), ..self.opts.limits };
        TransferOptionsBuilder { opts: TransferOptions { limits, ..self.opts } }
    }

    /// Adds one to: exclude patterns (`--exclude`).
    pub fn exclude(self, v: &str) -> (r: Self)
        ensures
            r@ == (OptionsView {
                texts: TextOptionsView { exclude: self@.texts.exclude.push(v@), ..self@.texts },
                ..self@
            }),
    {
        let mut texts = self.opts.texts;
        push_string(&mut texts.exclude, v);
        TransferOptionsBuilder { opts: TransferOptions { texts, ..self.opts } }
    }

    /// Replaces all: exclude patterns (`--exclude`).
    pub fn excludes(self, v: Vec<String>) -> (r: Self)
        ensures
            r@ == (OptionsView {
                texts: TextOptionsView { exclude: text_views(v@), ..self@.texts },
                ..self@
            }),
    {
        let mut texts = self.opts.texts;
        texts.exclude = v;
        TransferOptionsBuilder { opts: TransferOptions { texts, ..self.opts } }
    }

    /// Adds one to: patterns to keep.
    pub fn include_pattern(self, v: &str) -> (r: Self)
        ensures
            r@ == (OptionsView {
                texts: TextOptionsView { include_patterns: self@.texts.include_patterns.push(v@), ..self@.texts },
                ..self@
            }),
    {
        let mut texts = self.opts.texts;
        push_string(&mut texts.include_patterns, v);
        TransferOptionsBuilder { opts: TransferOptions { texts, ..self.opts } }
    }

    /// Replaces all: patterns to keep.
    pub fn includes(self, v: Vec<String>) -> (r: Self)
        ensures
            r@ == (OptionsView {
                texts: TextOptionsView { include_patterns: text_views(v@), ..self@.texts },
                ..self@
            }),
    {
        let mut texts = self.opts.texts;
        texts.include_patterns = v;
        TransferOptionsBuilder { opts: TransferOptions { texts, ..self.opts } }
    }

    /// Adds one to: filter rules (`--filter`).
    pub fn filter(self, v: &str) -> (r: Self)
        ensures
            r@ == (OptionsView {
                texts: TextOptionsView { filter: self@.texts.filter.push(v@), ..self@.texts },
                ..self@
            }),
    {
        let mut texts = self.opts.texts;
        push_string(&mut texts.filter, v);
        TransferOptionsBuilder { opts: TransferOptions { texts, ..self.opts } }
    }

    /// Replaces all: filter rules (`--filter`).
    pub fn filters(self, v: Vec<String>) -> (r: Self)
        ensures
            r@ == (OptionsView {
                texts: TextOptionsView { filter: text_views(v@), ..self@.texts },
                ..self@
            }),
    {
        let mut texts = self.opts.texts;
        texts.filter = v;
        TransferOptionsBuilder { opts: TransferOptions { texts, ..self.opts } }
    }

    /// Adds one to: permission changes (`--chmod`).
    pub fn chmod(self, v: &str) -> (r: Self)
        ensures
            r@ == (OptionsView {
                texts: TextOptionsView { chmod: self@.texts.chmod.push(v@), ..self@.texts },
                ..self@
            }),
    {
        let mut texts = self.opts.texts;
        push_string(&mut texts.chmod, v);
        TransferOptionsBuilder { opts: TransferOptions { texts, ..self.opts } }
    }

    /// Suffix for backup files.
    pub fn suffix(self, v: &str) -> (r: Self)
        ensures
            r@ == (OptionsView {
                texts: TextOptionsView { suffix: v@, ..self@.texts },
                ..self@
            }),
    {
        let mut texts = self.opts.texts;
        texts.suffix = v.to_owned();
        TransferOptionsBuilder { opts: TransferOptions { texts, ..self.opts } }
    }

    /// Adds one to: source path(s).
    pub fn source(self, v: Vec<u8>) -> (r: Self)
        ensures
            r@ == (OptionsView {
                paths: PathOptionsView { source: self@.paths.source.push(v@), ..self@.paths },
                ..self@
            }),
    {
        let mut paths = self.opts.paths;
        push_path(&mut paths.source, v);
        TransferOptionsBuilder { opts: TransferOptions { paths, ..self.opts } }
    }

    /// Replaces all: source path(s).
    pub fn sources(self, v: Vec<Vec<u8>>) -> (r: Self)
        ensures
            r@ == (OptionsView {
                paths: PathOptionsView { source: path_views(v@), ..self@.paths },
                ..self@
            }),
    {
        let mut paths = self.opts.paths;
        paths.source = v;
        TransferOptionsBuilder { opts: TransferOptions { paths, ..self.opts } }
    }

    /// Adds one to: hard-link basis directories (`--link-dest`).
    pub fn link_dest(self, v: Vec<u8>) -> (r: Self)
        ensures
            r@ == (OptionsView {
                paths: PathOptionsView { link_dest: self@.paths.link_dest.push(v@), ..self@.paths },
                ..self@
            }),
    {
        let mut paths = self.opts.paths;
        push_path(&mut paths.link_dest, v);
        TransferOptionsBuilder { opts: TransferOptions { paths, ..self.opts } }
    }

    /// Replaces all: hard-link basis directories (`--link-dest`).
    pub fn link_dests(self, v: Vec<Vec<u8>>) -> (r: Self)
        ensures
            r@ == (OptionsView {
                paths: PathOptionsView { link_dest: path_views(v@), ..self@.paths },
                ..self@
            }),
    {
        let mut paths = self.opts.paths;
        paths.link_dest = v;
        TransferOptionsBuilder { opts: TransferOptions { paths, ..self.opts } }
    }

    /// Adds one to: copy basis directories (`--copy-dest`).
    pub fn copy_dest(self, v: Vec<u8>) -> (r: Self)
        ensures
            r@ == (OptionsView {
                paths: PathOptionsView { copy_dest: self@.paths.copy_dest.push(v@), ..self@.paths },
                ..self@
            }),
    {
        let mut paths = self.opts.paths;
        push_path(&mut paths.copy_dest, v);
        TransferOptionsBuilder { opts: TransferOptions { paths, ..self.opts } }
    }

    /// Replaces all: copy basis directories (`--copy-dest`).
    pub fn copy_dests(self, v: Vec<Vec<u8>>) -> (r: Self)
        ensures
            r@ == (OptionsView {
                paths: PathOptionsView { copy_dest: path_views(v@), ..self@.paths },
                ..self@
            }),
    {
        let mut paths = self.opts.paths;
        paths.copy_dest = v;
        TransferOptionsBuilder { opts: TransferOptions { paths, ..self.opts } }
    }

    /// Adds one to: compare basis directories (`--compare-dest`).
    pub fn compare_dest(self, v: Vec<u8>) -> (r: Self)
        ensures
            r@ == (OptionsView {
                paths: PathOptionsView { compare_dest: self@.paths.compare_dest.push(v@), ..self@.paths },
                ..self@
            }),
    {
        let mut paths = self.opts.paths;
        push_path(&mut paths.compare_dest, v);
        TransferOptionsBuilder { opts: TransferOptions { paths, ..self.opts } }
    }

    /// Replaces all: compare basis directories (`--compare-dest`).
    pub fn compare_dests(self, v: Vec<Vec<u8>>) -> (r: Self)
        ensures
            r@ == (OptionsView {
                paths: PathOptionsView { compare_dest: path_views(v@), ..self@.paths },
                ..self@
            }),
    {
        let mut paths = self.opts.paths;
        paths.compare_dest = v;
        TransferOptionsBuilder { opts: TransferOptions { paths, ..self.opts } }
    }

    /// Adds one to: files with exclude patterns (`--exclude-from`).
    pub fn exclude_from(self, v: Vec<u8>) -> (r: Self)
        ensures
            r@ == (OptionsView {
                paths: PathOptionsView { exclude_from: self@.paths.exclude_from.push(v@), ..self@.paths },
                ..self@
            }),
    {
        let mut paths = self.opts.paths;
        push_path(&mut paths.exclude_from, v);
        TransferOptionsBuilder { opts: TransferOptions { paths, ..self.opts } }
    }

    /// Adds one to: files with patterns to keep.
    pub fn include_from(self, v: Vec<u8>) -> (r: Self)
        ensures
            r@ == (OptionsView {
                paths: PathOptionsView { include_from: self@.paths.include_from.push(v@), ..self@.paths },
                ..self@
            }),
    {
        let mut paths = self.opts.paths;
        push_path(&mut paths.include_from, v);
        TransferOptionsBuilder { opts: TransferOptions { paths, ..self.opts } }
    }

    /// Destination path.
    pub fn dest(self, v: Vec<u8>) -> (r: Self)
        ensures
            r@ == (OptionsView {
                paths: PathOptionsView { dest: Some(v@), ..self@.paths },
                ..self@
            }),
    {
        let mut paths = self.opts.paths;
        paths.dest = Some(v);
        TransferOptionsBuilder { opts: TransferOptions { paths, ..self.opts } }
    }

    /// Backup directory path.
    pub fn backup_dir(self, v: Vec<u8>) -> (r: Self)
        ensures
            r@ == (OptionsView {
                paths: PathOptionsView { backup_dir: Some(v@), ..self@.paths },
                ..self@
            }),
    {
        let mut paths = self.opts.paths;
        paths.backup_dir = Some(v);
        TransferOptionsBuilder { opts: TransferOptions { paths, ..self.opts } }
    }

    /// Partial transfer directory.
    pub fn partial_dir(self, v: Vec<u8>) -> (r: Self)
        ensures
            r@ == (OptionsView {
                paths: PathOptionsView { partial_dir: Some(v@), ..self@.paths },
                ..self@
            }),
    {
        let mut paths = self.opts.paths;
        paths.partial_dir = Some(v);
        TransferOptionsBuilder { opts: TransferOptions { paths, ..self.opts } }
    }

    /// Files-from path.
    pub fn files_from(self, v: Vec<u8>) -> (r: Self)
        ensures
            r@ == (OptionsView {
                paths: PathOptionsView { files_from: Some(v@), ..self@.paths },
                ..self@
            }),
    {
        let mut paths = self.opts.paths;
        paths.files_from = Some(v);
        TransferOptionsBuilder { opts: TransferOptions { paths, ..self.opts } }
    }

    /// The options of one group.
    pub(crate) fn archive_group(&self) -> (r: ArchiveFlags)
        ensures
            r == self@.archive,
    {
        self.opts.archive
    }

    /// Replaces the options of one group.
    pub(crate) fn with_archive_group(self, archive: ArchiveFlags) -> (r: Self)
        ensures
            r@ == (OptionsView { archive, ..self@ }),
    {
        TransferOptionsBuilder { opts: TransferOptions { archive, ..self.opts } }
    }

    /// The options of one group.
    pub(crate) fn behavior_group(&self) -> (r: BehaviorFlags)
        ensures
            r == self@.behavior,
    {
        self.opts.behavior
    }

    /// Replaces the options of one group.
    pub(crate) fn with_behavior_group(self, behavior: BehaviorFlags) -> (r: Self)
        ensures
            r@ == (OptionsView { behavior, ..self@ }),
    {
        TransferOptionsBuilder { opts: TransferOptions { behavior, ..self.opts } }
    }

    /// The options of one group.
    pub(crate) fn tree_group(&self) -> (r: TreeFlags)
        ensures
            r == self@.tree,
    {
        self.opts.tree
    }

    /// Replaces the options of one group.
    pub(crate) fn with_tree_group(self, tree: TreeFlags) -> (r: Self)
        ensures
            r@ == (OptionsView { tree, ..self@ }),
    {
        TransferOptionsBuilder { opts: TransferOptions { tree, ..self.opts } }
    }

    /// The options of one group.
    pub(crate) fn output_group(&self) -> (r: OutputFlags)
        ensures
            r == self@.output,
    {
        self.opts.output
    }

    /// Replaces the options of one group.
    pub(crate) fn with_output_group(self, output: OutputFlags) -> (r: Self)
        ensures
            r@ == (OptionsView { output, ..self@ }),
    {
        TransferOptionsBuilder { opts: TransferOptions { output, ..self.opts } }
    }

    /// Build the [`TransferOptions`].
    pub fn build(self) -> (r: TransferOptions)
        ensures
            r@ == self@,
    {
        self.opts
    }
}

/// A number moved into a range.
pub open spec fn clamped_u32(v: u32, lo: u32, hi: u32) -> u32 {
    if v < lo {
        lo
    } else if v > hi {
        hi
    } else {
        v
    }
}

/// Moves a number into a range.
pub fn clamp_u32(v: u32, lo: u32, hi: u32) -> (r: u32)
    ensures
        r == clamped_u32(v, lo, hi),
{
    if v < lo {
        lo
    } else if v > hi {
        hi
    } else {
        v
    }
}

/// A number moved into a range.
pub open spec fn clamped_usize(v: usize, lo: usize, hi: usize) -> usize {
    if v < lo {
        lo
    } else if v > hi {
        hi
    } else {
        v
    }
}

/// Moves a number into a range.
pub fn clamp_usize(v: usize, lo: usize, hi: usize) -> (r: usize)
    ensures
        r == clamped_usize(v, lo, hi),
{
    if v < lo {
        lo
    } else if v > hi {
        hi
    } else {
        v
    }
}

} // verus!
