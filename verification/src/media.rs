//! The media index: which local files stand for the attachments of the
//! export, and which of them a replay has already claimed.

use crate::model::{
    image_extension, image_extensions, views, AttachmentInfo, MediaSource, MediaSourceView,
    MessageInfo, IMAGE_EXTENSION_COUNT,
};
use crate::paths::{
    is_image_file, is_image_name, is_url, is_url_text, is_zip_file, is_zip_name,
    make_variant_name, split_extension, split_path, variant_of,
};
use crate::text::{
    ascii_lower, chars_of, decimal, lowercase, push_all, push_decimal, push_str, string_of, texts,
};
use vstd::hash_map::StringHashMap;
use vstd::hash_set::StringHashSet;
use vstd::prelude::*;

verus! {

/// The highest number that a numbered duplicate of a file can bear.
pub const VARIANT_LIMIT: u64 = 999;

/// What a media root is, judged by its spelling.
#[derive(Clone, Copy, Debug, PartialEq, Eq)]
pub enum MediaRootKind {
    /// No media root was given: every attachment keeps its recorded address.
    Absent,
    /// An archive to download.
    RemoteArchive,
    /// An archive on disk.
    LocalArchive,
    /// A directory on disk.
    Directory,
}

/// What the media root `media_path` is: a web address is a remote archive,
/// a name ending in `zip` a local archive, anything else a directory.
pub open spec fn root_kind(media_path: Option<Seq<char>>) -> MediaRootKind {
    match media_path {
        None => MediaRootKind::Absent,
        Some(path) => if is_url_text(path) {
            MediaRootKind::RemoteArchive
        } else if is_zip_name(path) {
            MediaRootKind::LocalArchive
        } else {
            MediaRootKind::Directory
        },
    }
}

/// Judges a media root by its spelling.
pub fn media_root_kind(media_path: &Option<String>) -> (kind: MediaRootKind)
    ensures
        kind == root_kind(
            match *media_path {
                Some(p) => Some(p@),
                None => None,
            },
        ),
{
    match media_path {
        None => MediaRootKind::Absent,
        Some(path) => {
            if is_url(path.as_str()) {
                MediaRootKind::RemoteArchive
            } else if is_zip_file(path.as_str()) {
                MediaRootKind::LocalArchive
            } else {
                MediaRootKind::Directory
            }
        },
    }
}

/// What a look at the media root found.
#[derive(Clone, Copy, Debug, PartialEq, Eq)]
pub struct RootLayout {
    /// The root holds at least one directory.
    pub has_subdirs: bool,
    /// `avatars` is a directory of the root.
    pub avatars: bool,
    /// `emojis` is a directory of the root.
    pub emojis: bool,
    /// `icons` is a directory of the root.
    pub icons: bool,
    /// `channels` is a directory of the root.
    pub channels: bool,
    /// `channels` holds a directory named after the export.
    pub channel_export: bool,
}

/// A directory to scan, relative to the media root.
#[derive(Clone, Copy, Debug, PartialEq, Eq)]
pub enum MediaDir {
    /// The root itself.
    Root,
    Avatars,
    Emojis,
    Icons,
    /// All of `channels`.
    Channels,
    /// The directory of `channels` named after the export.
    ChannelExport,
}

/// `dir` if `present`, else nothing.
pub open spec fn dir_if(present: bool, dir: MediaDir) -> Seq<MediaDir> {
    if present {
        seq![dir]
    } else {
        Seq::empty()
    }
}

/// The directories to scan under a media root.
///
/// A root without directories is scanned itself. Otherwise those of
/// `avatars`, `emojis` and `icons` that exist are scanned, in that order,
/// then the export's own directory under `channels`, or all of `channels`
/// where the export has none. If that leaves nothing, the root is scanned.
pub open spec fn media_dirs(layout: RootLayout) -> Seq<MediaDir> {
    if !layout.has_subdirs {
        seq![MediaDir::Root]
    } else {
        let named = dir_if(layout.avatars, MediaDir::Avatars) + dir_if(
            layout.emojis,
            MediaDir::Emojis,
        ) + dir_if(layout.icons, MediaDir::Icons) + dir_if(
            layout.channels,
            if layout.channel_export {
                MediaDir::ChannelExport
            } else {
                MediaDir::Channels
            },
        );
        if named.len() == 0 {
            seq![MediaDir::Root]
        } else {
            named
        }
    }
}

/// Chooses the directories to scan under a media root.
pub fn locate_media_dirs(layout: &RootLayout) -> (dirs: Vec<MediaDir>)
    ensures
        dirs@ == media_dirs(*layout),
{
    let mut dirs: Vec<MediaDir> = Vec::new();
    if !layout.has_subdirs {
        dirs.push(MediaDir::Root);
        return dirs;
    }
    if layout.avatars {
        dirs.push(MediaDir::Avatars);
    }
    if layout.emojis {
        dirs.push(MediaDir::Emojis);
    }
    if layout.icons {
        dirs.push(MediaDir::Icons);
    }
    if layout.channels {
        if layout.channel_export {
            dirs.push(MediaDir::ChannelExport);
        } else {
            dirs.push(MediaDir::Channels);
        }
    }
    if dirs.len() == 0 {
        dirs.push(MediaDir::Root);
    }
    dirs
}

/// One entry that a walk of the media tree met.
#[derive(Debug, PartialEq, Eq)]
pub struct ScannedEntry {
    /// The entry's path.
    pub path: String,
    /// The last component of the path.
    pub file_name: String,
    /// Whether the entry is a regular file.
    pub is_file: bool,
}

/// The paths of the regular files among `entries` whose name, in small
/// letters, is `key`, in the order of the walk.
pub open spec fn paths_named(entries: Seq<ScannedEntry>, key: Seq<char>) -> Seq<Seq<char>>
    decreases entries.len(),
{
    if entries.len() == 0 {
        Seq::empty()
    } else {
        let before = paths_named(entries.drop_last(), key);
        let e = entries.last();
        if e.is_file && ascii_lower(e.file_name@) == key {
            before.push(e.path@)
        } else {
            before
        }
    }
}

/// Whether `path` is the path of one of `entries`.
pub open spec fn was_scanned(entries: Seq<ScannedEntry>, path: Seq<char>) -> bool {
    exists|i: int| 0 <= i < entries.len() && (#[trigger] entries[i]).path@ == path
}

/// The files of a scanned media tree, by name.
pub struct FileIndex {
    /// From a file name in small letters to the paths that bear it.
    by_name: StringHashMap<Vec<String>>,
    /// Every path that the walk met.
    present: StringHashSet,
}

impl FileIndex {
    /// The paths of the files named `key`, in the order of the walk. `key`
    /// is in small letters.
    pub closed spec fn candidates(&self, key: Seq<char>) -> Seq<Seq<char>> {
        if self.by_name@.contains_key(key) {
            texts(self.by_name@[key]@)
        } else {
            Seq::empty()
        }
    }

    /// Whether the walk met `path`.
    pub closed spec fn has_path(&self, path: Seq<char>) -> bool {
        self.present@.contains(path)
    }

    /// An index of nothing.
    pub fn new() -> (index: FileIndex)
        ensures
            forall|key: Seq<char>| #[trigger] index.candidates(key) == Seq::<Seq<char>>::empty(),
            forall|path: Seq<char>| !#[trigger] index.has_path(path),
    {
        FileIndex { by_name: StringHashMap::new(), present: StringHashSet::new() }
    }

    /// The paths of the files named `key`; `None` where there is none.
    pub fn lookup(&self, key: &str) -> (r: Option<&Vec<String>>)
        ensures
            match r {
                Some(paths) => texts(paths@) == self.candidates(key@),
                None => self.candidates(key@) == Seq::<Seq<char>>::empty(),
            },
    {
        self.by_name.get(key)
    }

    /// Whether the walk met `path`.
    pub fn contains_path(&self, path: &str) -> (r: bool)
        ensures
            r == self.has_path(path@),
    {
        self.present.contains(path)
    }

    /// Records one entry of the walk.
    fn record(&mut self, entry: &ScannedEntry)
        ensures
            forall|key: Seq<char>| #[trigger]
                final(self).candidates(key) == (if entry.is_file && ascii_lower(entry.file_name@)
                    == key {
                    old(self).candidates(key).push(entry.path@)
                } else {
                    old(self).candidates(key)
                }),
            forall|path: Seq<char>| #[trigger]
                final(self).has_path(path) == (old(self).has_path(path) || path == entry.path@),
    {
        self.present.insert(entry.path.clone());
        if entry.is_file {
            let key = string_of(&lowercase(&chars_of(entry.file_name.as_str())));
            let mut paths = match self.by_name.get(key.as_str()) {
                Some(known) => copy_strings(known),
                None => Vec::new(),
            };
            let ghost before = texts(paths@);
            paths.push(entry.path.clone());
            assert(texts(paths@) == before.push(entry.path@));
            self.by_name.insert(key, paths);
        }
    }
}

/// A copy of a list of strings.
pub fn copy_strings(list: &Vec<String>) -> (r: Vec<String>)
    ensures
        r@ == list@,
{
    let mut r: Vec<String> = Vec::new();
    let mut i: usize = 0;
    while i < list.len()
        invariant
            i <= list.len(),
            r@ == list@.take(i as int),
        decreases list.len() - i,
    {
        r.push(list[i].clone());
        i += 1;
    }
    r
}

/// Builds the index of a walk of the media tree.
///
/// A file name, in small letters, leads to the paths of the regular files
/// that bear it, in the order in which the walk met them.
pub fn scan_files(entries: &[ScannedEntry]) -> (index: FileIndex)
    ensures
        forall|key: Seq<char>| #[trigger] index.candidates(key) == paths_named(entries@, key),
        forall|path: Seq<char>| #[trigger] index.has_path(path) == was_scanned(entries@, path),
{
    let mut index = FileIndex::new();
    let mut i: usize = 0;
    assert(entries@.take(0) == Seq::<ScannedEntry>::empty());
    while i < entries.len()
        invariant
            i <= entries.len(),
            forall|key: Seq<char>| #[trigger]
                index.candidates(key) == paths_named(entries@.take(i as int), key),
            forall|path: Seq<char>| #[trigger]
                index.has_path(path) == was_scanned(entries@.take(i as int), path),
        decreases entries.len() - i,
    {
        let ghost before = entries@.take(i as int);
        let ghost after = entries@.take(i + 1);
        assert(after.drop_last() == before);
        assert(after.last() == entries@[i as int]);
        index.record(&entries[i]);
        assert forall|path: Seq<char>| #[trigger]
            index.has_path(path) == was_scanned(after, path) by {
            if was_scanned(before, path) {
                let k = choose|k: int|
                    0 <= k < before.len() && (#[trigger] before[k]).path@ == path;
                assert(after[k].path@ == path);
            }
            if path == entries@[i as int].path@ {
                assert(after[i as int].path@ == path);
            }
            if was_scanned(after, path) {
                let k = choose|k: int| 0 <= k < after.len() && (#[trigger] after[k]).path@ == path;
                if k < i {
                    assert(before[k].path@ == path);
                }
            }
        }
        i += 1;
    }
    assert(entries@.take(entries.len() as int) == entries@);
    index
}

/// The local files that a replay has claimed so far. A file is claimed by
/// at most one attachment; the set only grows.
pub struct SeenPaths {
    paths: StringHashSet,
}

impl View for SeenPaths {
    type V = Set<Seq<char>>;

    closed spec fn view(&self) -> Set<Seq<char>> {
        self.paths@
    }
}

impl SeenPaths {
    /// Nothing claimed yet.
    pub fn new() -> (seen: SeenPaths)
        ensures
            seen@ == Set::<Seq<char>>::empty(),
    {
        SeenPaths { paths: StringHashSet::new() }
    }

    /// Whether `path` is claimed.
    pub fn contains(&self, path: &str) -> (r: bool)
        ensures
            r == self@.contains(path@),
    {
        self.paths.contains(path)
    }

    /// Claims `path`. Returns whether it was free.
    pub fn claim(&mut self, path: String) -> (fresh: bool)
        ensures
            final(self)@ == old(self)@.insert(path@),
            fresh == !old(self)@.contains(path@),
    {
        self.paths.insert(path)
    }
}

/// The name under which the avatar of author `id` is stored with the
/// image extension of rank `rank`.
pub open spec fn avatar_name(id: u64, rank: int) -> Seq<char> {
    decimal(id as nat) + seq!['.'] + image_extensions()[rank]
}

/// The avatar of author `id`, looked for from the extension of rank `rank`
/// on: its path and its name.
pub open spec fn avatar_from(index: FileIndex, id: u64, rank: int) -> Option<
    (Seq<char>, Seq<char>),
>
    decreases image_extensions().len() - rank,
{
    if rank < 0 || rank >= image_extensions().len() {
        None
    } else {
        let found = index.candidates(avatar_name(id, rank));
        if found.len() > 0 {
            Some((found[0], avatar_name(id, rank)))
        } else {
            avatar_from(index, id, rank + 1)
        }
    }
}

/// The texts of a pair of strings.
pub open spec fn pair_text(p: (String, String)) -> (Seq<char>, Seq<char>) {
    (p.0@, p.1@)
}

/// The texts of a list of pairs of strings.
pub open spec fn pair_texts(list: Seq<(String, String)>) -> Seq<(Seq<char>, Seq<char>)> {
    Seq::new(list.len(), |i: int| pair_text(list[i]))
}

/// Finds the stored avatar of an author: the first file named
/// `<id>.<ext>`, the extensions tried in their fixed order.
pub fn find_avatar(author_id: u64, file_index: &FileIndex) -> (r: Option<(String, String)>)
    ensures
        match r {
            Some(p) => avatar_from(*file_index, author_id, 0) == Some(pair_text(p)),
            None => avatar_from(*file_index, author_id, 0) is None,
        },
{
    let mut rank: usize = 0;
    while rank < IMAGE_EXTENSION_COUNT
        invariant
            rank <= IMAGE_EXTENSION_COUNT,
            image_extensions().len() == IMAGE_EXTENSION_COUNT,
            avatar_from(*file_index, author_id, rank as int) == avatar_from(
                *file_index,
                author_id,
                0,
            ),
        decreases IMAGE_EXTENSION_COUNT - rank,
    {
        let mut name: Vec<char> = Vec::new();
        push_decimal(&mut name, author_id);
        name.push('.');
        push_str(&mut name, image_extension(rank));
        assert(name@ == avatar_name(author_id, rank as int));
        let filename = string_of(&name);
        match file_index.lookup(filename.as_str()) {
            Some(paths) => {
                if paths.len() > 0 {
                    assert(texts(paths@)[0] == paths@[0]@);
                    return Some((paths[0].clone(), filename));
                }
            },
            None => {},
        }
        rank += 1;
    }
    None
}

/// The first of `candidates`, from position `at` on, that is not in `seen`.
pub open spec fn first_unclaimed(candidates: Seq<Seq<char>>, seen: Set<Seq<char>>, at: int)
    -> Option<Seq<char>>
    decreases candidates.len() - at,
{
    if at < 0 || at >= candidates.len() {
        None
    } else if !seen.contains(candidates[at]) {
        Some(candidates[at])
    } else {
        first_unclaimed(candidates, seen, at + 1)
    }
}

/// The numbered duplicates of the file at `path`, from number `i` on, up to
/// the first number that the walk did not meet or the limit: those that are
/// free, in rising order, and the claims after all that were met are
/// claimed.
pub open spec fn variants_from(index: FileIndex, path: Seq<char>, i: nat, seen: Set<Seq<char>>)
    -> (Seq<(Seq<char>, Seq<char>)>, Set<Seq<char>>)
    decreases VARIANT_LIMIT + 1 - i,
{
    if i > VARIANT_LIMIT {
        (Seq::empty(), seen)
    } else {
        match variant_of(path, i) {
            None => (Seq::empty(), seen),
            Some(v) => if !index.has_path(v.0) {
                (Seq::empty(), seen)
            } else {
                let rest = variants_from(index, path, i + 1, seen.insert(v.0));
                if seen.contains(v.0) {
                    rest
                } else {
                    (seq![v] + rest.0, rest.1)
                }
            },
        }
    }
}

/// The local files that stand for the attachment `filename`, each as its path
/// and its name, and the claims afterwards.
///
/// The file is the first free one among those that bear the name, whatever
/// the case of its letters; it goes by `filename`. Where all are claimed,
/// there is no file and no duplicate either. After the file come its
/// numbered duplicates `<stem>_001.<ext>`, `<stem>_002.<ext>`, ... from the
/// same directory, under their own names.
pub open spec fn local_files(index: FileIndex, filename: Seq<char>, seen: Set<Seq<char>>) -> (
    Seq<(Seq<char>, Seq<char>)>,
    Set<Seq<char>>,
) {
    match first_unclaimed(index.candidates(ascii_lower(filename)), seen, 0) {
        None => (Seq::empty(), seen),
        Some(path) => {
            let rest = variants_from(index, path, 1, seen.insert(path));
            (seq![(path, filename)] + rest.0, rest.1)
        },
    }
}

/// Claims the first free path among `candidates`.
fn claim_first(candidates: &Vec<String>, seen_paths: &mut SeenPaths) -> (r: Option<String>)
    ensures
        match r {
            Some(path) => first_unclaimed(texts(candidates@), old(seen_paths)@, 0) == Some(path@)
                && final(seen_paths)@ == old(seen_paths)@.insert(path@),
            None => first_unclaimed(texts(candidates@), old(seen_paths)@, 0) is None
                && final(seen_paths)@ == old(seen_paths)@,
        },
{
    let mut at: usize = 0;
    while at < candidates.len()
        invariant
            at <= candidates.len(),
            seen_paths@ == old(seen_paths)@,
            first_unclaimed(texts(candidates@), seen_paths@, at as int) == first_unclaimed(
                texts(candidates@),
                seen_paths@,
                0,
            ),
        decreases candidates.len() - at,
    {
        assert(texts(candidates@)[at as int] == candidates@[at as int]@);
        if seen_paths.claim(candidates[at].clone()) {
            return Some(candidates[at].clone());
        }
        assert(seen_paths@ == old(seen_paths)@);
        at += 1;
    }
    None
}

/// Finds and claims the local files that stand for one attachment.
pub fn find_local_files(
    filename: &str,
    file_index: &FileIndex,
    seen_paths: &mut SeenPaths,
) -> (found: Vec<(String, String)>)
    ensures
        (pair_texts(found@), final(seen_paths)@) == local_files(
            *file_index,
            filename@,
            old(seen_paths)@,
        ),
{
    let mut found: Vec<(String, String)> = Vec::new();
    let key = string_of(&lowercase(&chars_of(filename)));
    let first = match file_index.lookup(key.as_str()) {
        Some(candidates) => claim_first(candidates, seen_paths),
        None => None,
    };
    let path = match first {
        Some(path) => path,
        None => {
            assert(pair_texts(found@) == Seq::<(Seq<char>, Seq<char>)>::empty());
            return found;
        },
    };
    let path_chars = chars_of(path.as_str());
    let name = string_of(&chars_of(filename));
    found.push((path, name));
    assert(pair_texts(found@) == seq![(path_chars@, filename@)]);
    let parts = match split_path(&path_chars) {
        Some(parts) => parts,
        None => {
            return found;
        },
    };
    let (stem, ext) = match split_extension(&parts.name) {
        Some(split) => split,
        None => {
            return found;
        },
    };
    let ghost all = variants_from(*file_index, path_chars@, 1, seen_paths@);
    let ghost head = pair_texts(found@);
    let mut i: u64 = 1;
    while i <= VARIANT_LIMIT
        invariant
            1 <= i <= VARIANT_LIMIT + 1,
            (head + all.0, all.1) == local_files(*file_index, filename@, old(seen_paths)@),
            crate::paths::file_name(path_chars@) == Some(parts.name@),
            crate::paths::dir_part(path_chars@) == parts.dir@,
            crate::paths::extension_of(parts.name@) == Some(ext@),
            crate::paths::stem_of(parts.name@) == stem@,
            ({
                let rest = variants_from(*file_index, path_chars@, i as nat, seen_paths@);
                &&& pair_texts(found@) + rest.0 == head + all.0
                &&& rest.1 == all.1
            }),
        decreases VARIANT_LIMIT + 1 - i,
    {
        let variant_name = make_variant_name(&stem, &ext, i);
        let mut variant_path: Vec<char> = Vec::new();
        push_all(&mut variant_path, &parts.dir);
        push_all(&mut variant_path, &variant_name);
        let ghost v = (variant_path@, variant_name@);
        assert(variant_of(path_chars@, i as nat) == Some(v)) by {
            assert(Seq::<char>::empty() + parts.dir@ + variant_name@ == parts.dir@
                + variant_name@);
        }
        let variant = string_of(&variant_path);
        if !file_index.contains_path(variant.as_str()) {
            assert(pair_texts(found@) + Seq::<(Seq<char>, Seq<char>)>::empty() == pair_texts(
                found@,
            ));
            return found;
        }
        let ghost seen_before = seen_paths@;
        let ghost found_before = pair_texts(found@);
        let ghost rest = variants_from(
            *file_index,
            path_chars@,
            (i + 1) as nat,
            seen_before.insert(v.0),
        );
        if seen_paths.claim(string_of(&variant_path)) {
            found.push((variant, string_of(&variant_name)));
            assert(pair_texts(found@) == found_before.push(v));
            assert(found_before.push(v) + rest.0 == found_before + (seq![v] + rest.0));
        }
        i += 1;
    }
    assert(pair_texts(found@) + Seq::<(Seq<char>, Seq<char>)>::empty() == pair_texts(found@));
    found
}

/// Which attachments of a message are replayed as media.
#[derive(Clone, Copy, Debug, PartialEq, Eq)]
pub enum AttachmentFilter {
    /// Every attachment.
    All,
    /// Those whose file name marks an image.
    Images,
}

impl AttachmentFilter {
    /// Whether the filter lets `attachment` through.
    pub open spec fn admits(self, attachment: AttachmentInfo) -> bool {
        self is All || is_image_name(attachment.file_name@)
    }
}

/// The local files in `found` as media sources.
pub open spec fn as_local_sources(found: Seq<(Seq<char>, Seq<char>)>) -> Seq<MediaSourceView> {
    Seq::new(found.len(), |i: int| MediaSourceView::Local(found[i].0, found[i].1))
}

/// The media sources of one attachment and the claims afterwards: its local
/// files where the index has a free one, else its recorded address.
pub open spec fn sources_of(
    attachment: AttachmentInfo,
    index: Option<FileIndex>,
    seen: Set<Seq<char>>,
) -> (Seq<MediaSourceView>, Set<Seq<char>>) {
    let found = match index {
        Some(ix) => local_files(ix, attachment.file_name@, seen),
        None => (Seq::empty(), seen),
    };
    if found.0.len() > 0 {
        (as_local_sources(found.0), found.1)
    } else {
        (seq![MediaSourceView::Remote(attachment.url@)], found.1)
    }
}

/// The media sources of the attachments from position `at` on that the
/// filter admits, in order, and the claims afterwards.
pub open spec fn sources_from(
    attachments: Seq<AttachmentInfo>,
    at: int,
    index: Option<FileIndex>,
    seen: Set<Seq<char>>,
    filter: AttachmentFilter,
) -> (Seq<MediaSourceView>, Set<Seq<char>>)
    decreases attachments.len() - at,
{
    if at < 0 || at >= attachments.len() {
        (Seq::empty(), seen)
    } else if !filter.admits(attachments[at]) {
        sources_from(attachments, at + 1, index, seen, filter)
    } else {
        let here = sources_of(attachments[at], index, seen);
        let rest = sources_from(attachments, at + 1, index, here.1, filter);
        (here.0 + rest.0, rest.1)
    }
}

/// Resolves the attachments of a message that the filter admits into media
/// sources, claiming the local files it uses.
pub fn collect_sources(
    message: &MessageInfo,
    file_index: &Option<FileIndex>,
    seen_paths: &mut SeenPaths,
    filter: AttachmentFilter,
) -> (sources: Vec<MediaSource>)
    ensures
        (views(sources@), final(seen_paths)@) == sources_from(
            message.attachments@,
            0,
            *file_index,
            old(seen_paths)@,
            filter,
        ),
{
    let mut sources: Vec<MediaSource> = Vec::new();
    let ghost all = sources_from(message.attachments@, 0, *file_index, seen_paths@, filter);
    let mut at: usize = 0;
    assert(views(sources@) == Seq::<MediaSourceView>::empty());
    assert(Seq::<MediaSourceView>::empty() + all.0 == all.0);
    while at < message.attachments.len()
        invariant
            at <= message.attachments.len(),
            ({
                let rest = sources_from(
                    message.attachments@,
                    at as int,
                    *file_index,
                    seen_paths@,
                    filter,
                );
                &&& views(sources@) + rest.0 == all.0
                &&& rest.1 == all.1
            }),
        decreases message.attachments.len() - at,
    {
        let attachment = &message.attachments[at];
        let admitted = match filter {
            AttachmentFilter::All => true,
            AttachmentFilter::Images => is_image_file(attachment.file_name.as_str()),
        };
        if admitted {
            let ghost before = views(sources@);
            let ghost seen_before = seen_paths@;
            let ghost here = sources_of(*attachment, *file_index, seen_before);
            let found: Vec<(String, String)> = match file_index {
                Some(index) => find_local_files(attachment.file_name.as_str(), index, seen_paths),
                None => Vec::new(),
            };
            assert(pair_texts(found@).len() == found.len());
            if found.len() == 0 {
                sources.push(MediaSource::Remote(attachment.url.clone()));
                assert(views(sources@) == before + here.0);
            } else {
                let ghost found_texts = pair_texts(found@);
                let mut k: usize = 0;
                assert(before + as_local_sources(found_texts).take(0) == before);
                while k < found.len()
                    invariant
                        k <= found.len(),
                        found_texts == pair_texts(found@),
                        views(sources@) == before + as_local_sources(found_texts).take(
                            k as int,
                        ),
                    decreases found.len() - k,
                {
                    let ghost sofar = views(sources@);
                    let path = found[k].0.clone();
                    let name = found[k].1.clone();
                    sources.push(MediaSource::Local(path, name));
                    assert(views(sources@) == sofar.push(as_local_sources(found_texts)[k as int]));
                    assert(as_local_sources(found_texts).take(k + 1) == as_local_sources(
                        found_texts,
                    ).take(k as int).push(as_local_sources(found_texts)[k as int]));
                    k += 1;
                }
                assert(as_local_sources(found_texts).take(found.len() as int) == as_local_sources(
                    found_texts,
                ));
            }
            proof {
                let rest = sources_from(
                    message.attachments@,
                    at + 1,
                    *file_index,
                    seen_paths@,
                    filter,
                );
                assert(before + here.0 + rest.0 == before + (here.0 + rest.0));
            }
        }
        at += 1;
    }
    assert(views(sources@) + Seq::<MediaSourceView>::empty() == views(sources@));
    sources
}

/// The numbered duplicates that a search hands out were all free before
/// and are all claimed after, no two of them are the same file, and no
/// claim is lost.
pub proof fn lemma_variants_are_fresh(
    index: FileIndex,
    path: Seq<char>,
    i: nat,
    seen: Set<Seq<char>>,
)
    ensures
        ({
            let r = variants_from(index, path, i, seen);
            &&& seen.subset_of(r.1)
            &&& forall|k: int|
                0 <= k < r.0.len() ==> !seen.contains((#[trigger] r.0[k]).0) && r.1.contains(
                    r.0[k].0,
                )
            &&& forall|k: int, l: int| 0 <= k < l < r.0.len() ==> r.0[k].0 != r.0[l].0
        }),
    decreases VARIANT_LIMIT + 1 - i,
{
    if i <= VARIANT_LIMIT {
        match variant_of(path, i) {
            None => {},
            Some(v) => {
                if index.has_path(v.0) {
                    lemma_variants_are_fresh(index, path, i + 1, seen.insert(v.0));
                    let rest = variants_from(index, path, i + 1, seen.insert(v.0));
                    let r = variants_from(index, path, i, seen);
                    assert(seen.insert(v.0).contains(v.0));
                    if !seen.contains(v.0) {
                        assert(r.0 == seq![v] + rest.0);
                        assert forall|k: int| 0 <= k < r.0.len() implies !seen.contains(
                            (#[trigger] r.0[k]).0,
                        ) && r.1.contains(r.0[k].0) by {
                            if k > 0 {
                                assert(r.0[k] == rest.0[k - 1]);
                            }
                        }
                        assert forall|k: int, l: int| 0 <= k < l < r.0.len() implies r.0[k].0
                            != r.0[l].0 by {
                            assert(r.0[l] == rest.0[l - 1]);
                            if k > 0 {
                                assert(r.0[k] == rest.0[k - 1]);
                            }
                        }
                    }
                }
            },
        }
    }
}

/// No file is handed out twice: the files that a search hands out were all
/// free before and are all claimed after, no two of them are the same file,
/// and no claim is lost.
pub proof fn law_claims_are_fresh(index: FileIndex, filename: Seq<char>, seen: Set<Seq<char>>)
    ensures
        ({
            let r = local_files(index, filename, seen);
            &&& seen.subset_of(r.1)
            &&& forall|k: int|
                0 <= k < r.0.len() ==> !seen.contains((#[trigger] r.0[k]).0) && r.1.contains(
                    r.0[k].0,
                )
            &&& forall|k: int, l: int| 0 <= k < l < r.0.len() ==> r.0[k].0 != r.0[l].0
        }),
{
    let candidates = index.candidates(ascii_lower(filename));
    lemma_first_unclaimed(candidates, seen, 0);
    match first_unclaimed(candidates, seen, 0) {
        None => {},
        Some(path) => {
            lemma_variants_are_fresh(index, path, 1, seen.insert(path));
            let rest = variants_from(index, path, 1, seen.insert(path));
            let r = local_files(index, filename, seen);
            assert(seen.insert(path).contains(path));
            assert forall|k: int| 0 <= k < r.0.len() implies !seen.contains((#[trigger] r.0[k]).0)
                && r.1.contains(r.0[k].0) by {
                if k > 0 {
                    assert(r.0[k] == rest.0[k - 1]);
                }
            }
            assert forall|k: int, l: int| 0 <= k < l < r.0.len() implies r.0[k].0 != r.0[l].0 by {
                assert(r.0[l] == rest.0[l - 1]);
                if k > 0 {
                    assert(r.0[k] == rest.0[k - 1]);
                }
            }
        },
    }
}

/// The first free candidate is free.
pub proof fn lemma_first_unclaimed(candidates: Seq<Seq<char>>, seen: Set<Seq<char>>, at: int)
    ensures
        first_unclaimed(candidates, seen, at) matches Some(path) ==> !seen.contains(path),
    decreases candidates.len() - at,
{
    if 0 <= at < candidates.len() && seen.contains(candidates[at]) {
        lemma_first_unclaimed(candidates, seen, at + 1);
    }
}

/// Once every file that bears a name is claimed, a search for that name
/// finds nothing and claims nothing.
pub proof fn law_claimed_files_are_not_found(
    index: FileIndex,
    filename: Seq<char>,
    seen: Set<Seq<char>>,
)
    requires
        forall|i: int|
            0 <= i < index.candidates(ascii_lower(filename)).len() ==> seen.contains(
                #[trigger] index.candidates(ascii_lower(filename))[i],
            ),
    ensures
        local_files(index, filename, seen) == (Seq::<(Seq<char>, Seq<char>)>::empty(), seen),
{
    lemma_all_claimed(index.candidates(ascii_lower(filename)), seen, 0);
}

/// Where every candidate is claimed, none is free.
proof fn lemma_all_claimed(candidates: Seq<Seq<char>>, seen: Set<Seq<char>>, at: int)
    requires
        0 <= at,
        forall|i: int| 0 <= i < candidates.len() ==> seen.contains(#[trigger] candidates[i]),
    ensures
        first_unclaimed(candidates, seen, at) is None,
    decreases candidates.len() - at,
{
    if at < candidates.len() {
        lemma_all_claimed(candidates, seen, at + 1);
    }
}

/// Resolving attachments never gives a claim up.
pub proof fn law_claims_only_grow(
    attachments: Seq<AttachmentInfo>,
    at: int,
    index: Option<FileIndex>,
    seen: Set<Seq<char>>,
    filter: AttachmentFilter,
)
    requires
        0 <= at,
    ensures
        seen.subset_of(sources_from(attachments, at, index, seen, filter).1),
    decreases attachments.len() - at,
{
    if at < attachments.len() {
        if filter.admits(attachments[at]) {
            let here = sources_of(attachments[at], index, seen);
            match index {
                Some(ix) => law_claims_are_fresh(ix, attachments[at].file_name@, seen),
                None => {},
            }
            law_claims_only_grow(attachments, at + 1, index, here.1, filter);
        } else {
            law_claims_only_grow(attachments, at + 1, index, seen, filter);
        }
    }
}

} // verus!
