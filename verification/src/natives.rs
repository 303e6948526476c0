//! The native extractor: picks every platform shared library out of a
//! downloaded archive, flattening any internal directory structure, so
//! the shell can write the binaries into the natives directory.
//!
//! Decoding the archive container is the zip crate's work and stands
//! behind one trusted item; which entries leave the archive, and under
//! what name, is verified logic, and extraction is bound to succeed
//! whenever the decode of the bytes does.
use vstd::prelude::*;
use vstd::string::StrSliceExecFns;

use crate::errors::LauncherError;
use crate::text::str_eq;

verus! {

/// One entry of a decoded archive, as plain values.
#[derive(Debug)]
pub struct ArchiveEntry {
    pub name: String,
    pub data: Vec<u8>,
    pub is_dir: bool,
}

pub open spec fn spec_entry_views(entries: Seq<ArchiveEntry>) -> Seq<(Seq<char>, Seq<u8>, bool)> {
    entries.map_values(|e: ArchiveEntry| (e.name@, e.data@, e.is_dir))
}

/// What zip decodes from a byte sequence: each entry's name, decompressed
/// contents and directory flag, in archive order; `None` where the
/// container cannot be opened or any entry cannot be decompressed. The
/// whole decode is a function of the bytes alone.
pub uninterp spec fn zip_entries(bytes: Seq<u8>) -> Option<Seq<(Seq<char>, Seq<u8>, bool)>>;

/// Relies on `zip::ZipArchive::new` over an in-memory cursor,
/// `ZipArchive::len`, `ZipArchive::by_index`, `ZipFile::name`,
/// `ZipFile::is_dir` and `std::io::Read::read_to_end`: decodes the whole
/// archive into plain values, `None` where the container or any entry is
/// unreadable. The outcome is a function of the bytes alone.
#[verifier::external_body]
fn decode_archive(bytes: &Vec<u8>) -> (r: Option<Vec<ArchiveEntry>>)
    ensures
        match r {
            Some(entries) => zip_entries(bytes@) == Some(spec_entry_views(entries@)),
            None => zip_entries(bytes@) is None,
        },
{
    let mut archive = zip::ZipArchive::new(std::io::Cursor::new(bytes.as_slice())).ok()?;
    let mut entries = Vec::new();
    for index in 0..archive.len() {
        let mut file = archive.by_index(index).ok()?;
        let name = file.name().to_owned();
        let is_dir = file.is_dir();
        let mut data = Vec::new();
        std::io::Read::read_to_end(&mut file, &mut data).ok()?;
        entries.push(ArchiveEntry { name, data, is_dir });
    }
    Some(entries)
}

/// Whether `s` ends in `suffix`.
pub open spec fn spec_ends_with(s: Seq<char>, suffix: Seq<char>) -> bool {
    s.len() >= suffix.len() && s.skip(s.len() - suffix.len()) == suffix
}

fn ends_with(s: &str, suffix: &str) -> (r: bool)
    ensures
        r == spec_ends_with(s@, suffix@),
{
    let n: usize = s.unicode_len();
    let k: usize = suffix.unicode_len();
    if n < k {
        return false;
    }
    let tail: &str = s.substring_char(n - k, n);
    proof {
        assert(tail@ =~= s@.skip(s@.len() - suffix@.len()));
    }
    str_eq(tail, suffix)
}

/// The platform shared-library suffixes whose entries leave the archive.
pub open spec fn spec_is_native_name(name: Seq<char>) -> bool {
    spec_ends_with(name, ".dll"@) || spec_ends_with(name, ".so"@) || spec_ends_with(
        name,
        ".dylib"@,
    )
}

fn is_native_name(name: &str) -> (r: bool)
    ensures
        r == spec_is_native_name(name@),
{
    ends_with(name, ".dll") || ends_with(name, ".so") || ends_with(name, ".dylib")
}

/// The path separators archive entry names can carry: forward slashes by
/// the zip convention, backslashes from careless producers.
pub open spec fn spec_is_separator(c: char) -> bool {
    c == '/' || c == '\\'
}

/// An entry name with everything up to its last path separator removed:
/// the flat name under which the binary lands in the natives directory.
pub open spec fn spec_base_name(s: Seq<char>) -> Seq<char>
    decreases s.len(),
{
    if s.len() == 0 {
        Seq::empty()
    } else if spec_is_separator(s.last()) {
        Seq::empty()
    } else {
        spec_base_name(s.drop_last()).push(s.last())
    }
}

proof fn lemma_base_name_after_separator(s: Seq<char>, p: int)
    requires
        0 <= p < s.len(),
        spec_is_separator(s[p]),
        forall|j: int| p < j < s.len() ==> !spec_is_separator(#[trigger] s[j]),
    ensures
        spec_base_name(s) == s.skip(p + 1),
    decreases s.len(),
{
    if p == s.len() - 1 {
        assert(s.skip(p + 1) =~= Seq::<char>::empty());
    } else {
        assert(!spec_is_separator(s.last()));
        lemma_base_name_after_separator(s.drop_last(), p);
        assert(s.drop_last().skip(p + 1) =~= s.skip(p + 1).drop_last());
        assert(s.skip(p + 1).drop_last().push(s.last()) =~= s.skip(p + 1));
    }
}

proof fn lemma_base_name_no_separator(s: Seq<char>)
    requires
        forall|j: int| 0 <= j < s.len() ==> !spec_is_separator(#[trigger] s[j]),
    ensures
        spec_base_name(s) == s,
    decreases s.len(),
{
    if s.len() > 0 {
        lemma_base_name_no_separator(s.drop_last());
        assert(s.drop_last().push(s.last()) =~= s);
    }
}

fn base_name(name: &str) -> (r: String)
    ensures
        r@ == spec_base_name(name@),
{
    let n: usize = name.unicode_len();
    let mut last_sep: usize = n;
    for i in 0..n
        invariant
            n == name@.len(),
            last_sep == n || (last_sep < n && spec_is_separator(name@[last_sep as int])),
            forall|j: int| last_sep < j < i ==> !spec_is_separator(#[trigger] name@[j]),
            last_sep == n ==> forall|j: int| 0 <= j < i ==> !spec_is_separator(
                #[trigger] name@[j],
            ),
    {
        let c: char = name.get_char(i);
        if c == '/' || c == '\\' {
            last_sep = i;
        }
    }
    if last_sep == n {
        proof {
            lemma_base_name_no_separator(name@);
        }
        name.to_owned()
    } else {
        let tail: &str = name.substring_char(last_sep + 1, n);
        proof {
            lemma_base_name_after_separator(name@, last_sep as int);
            assert(tail@ =~= name@.skip(last_sep as int + 1));
        }
        tail.to_owned()
    }
}

/// A byte-for-byte copy of an entry's contents.
fn clone_bytes(data: &Vec<u8>) -> (r: Vec<u8>)
    ensures
        r@ == data@,
{
    let copied: Vec<u8> = data.clone();
    proof {
        assert forall|k: int| 0 <= k < data@.len() implies copied@[k] == data@[k] by {
            assert(cloned::<u8>(data@[k], copied@[k]));
        }
        assert(copied@ =~= data@);
    }
    copied
}

/// One shared library selected out of an archive.
#[derive(Debug)]
pub struct NativeFile {
    /// The flat file name the binary lands under.
    pub file_name: String,
    pub data: Vec<u8>,
}

pub struct NativeFileView {
    pub file_name: Seq<char>,
    pub data: Seq<u8>,
}

impl View for NativeFile {
    type V = NativeFileView;

    open spec fn view(&self) -> NativeFileView {
        NativeFileView { file_name: self.file_name@, data: self.data@ }
    }
}

pub open spec fn spec_native_file_views(files: Seq<NativeFile>) -> Seq<NativeFileView> {
    files.map_values(|f: NativeFile| f@)
}

/// The selection predicate: an entry leaves the archive when it is not a
/// directory and its name ends in a platform shared-library suffix.
pub open spec fn spec_native_pred() -> spec_fn((Seq<char>, Seq<u8>, bool)) -> bool {
    |e: (Seq<char>, Seq<u8>, bool)| !e.2 && spec_is_native_name(e.0)
}

/// What extraction produces from an archive's entries: the selected
/// entries, in archive order, each under its flattened name.
pub open spec fn spec_native_selection(entries: Seq<(Seq<char>, Seq<u8>, bool)>) -> Seq<
    NativeFileView,
> {
    entries.filter(spec_native_pred()).map_values(
        |e: (Seq<char>, Seq<u8>, bool)| NativeFileView { file_name: spec_base_name(e.0), data: e.1 },
    )
}

proof fn lemma_native_selection_step(entries: Seq<(Seq<char>, Seq<u8>, bool)>, i: int)
    requires
        0 <= i < entries.len(),
    ensures
        spec_native_selection(entries.take(i + 1)) == if spec_native_pred()(entries[i]) {
            spec_native_selection(entries.take(i)).push(
                NativeFileView { file_name: spec_base_name(entries[i].0), data: entries[i].1 },
            )
        } else {
            spec_native_selection(entries.take(i))
        },
{
    let pred = spec_native_pred();
    let prefix = entries.take(i);
    let next_prefix = entries.take(i + 1);
    let x = entries[i];
    reveal_with_fuel(Seq::filter, 3);
    assert(next_prefix =~= prefix + seq![x]);
    Seq::<(Seq<char>, Seq<u8>, bool)>::filter_distributes_over_add(prefix, seq![x], pred);
    assert(seq![x].drop_last() =~= Seq::<(Seq<char>, Seq<u8>, bool)>::empty());
    assert(Seq::<(Seq<char>, Seq<u8>, bool)>::empty().filter(pred) =~= Seq::<
        (Seq<char>, Seq<u8>, bool),
    >::empty());
    if pred(x) {
        assert(seq![x].filter(pred) =~= seq![x]);
        assert(prefix.filter(pred) + seq![x] =~= prefix.filter(pred).push(x));
        assert(spec_native_selection(next_prefix) =~= spec_native_selection(prefix).push(
            NativeFileView { file_name: spec_base_name(x.0), data: x.1 },
        ));
    } else {
        assert(seq![x].filter(pred) =~= Seq::<(Seq<char>, Seq<u8>, bool)>::empty());
        assert(prefix.filter(pred) + Seq::<(Seq<char>, Seq<u8>, bool)>::empty() =~= prefix.filter(
            pred,
        ));
        assert(spec_native_selection(next_prefix) =~= spec_native_selection(prefix));
    }
}

/// Select every platform shared library out of a downloaded archive.
///
/// Whenever the bytes decode as an archive, the call succeeds and the
/// result holds exactly the entries that are not directories and end in
/// `.dll`, `.so` or `.dylib`, in archive order, each flattened to its
/// base name. An archive whose container cannot be opened, or one of
/// whose entries cannot be decompressed, is the one hard error.
pub fn extract_native_entries(bytes: Vec<u8>) -> (r: Result<Vec<NativeFile>, LauncherError>)
    ensures
        match zip_entries(bytes@) {
            None => r matches Err(e) && e == LauncherError::ArchiveUnreadable,
            Some(entries) => r matches Ok(files) && spec_native_file_views(files@)
                == spec_native_selection(entries),
        },
{
    let entries: Vec<ArchiveEntry> = match decode_archive(&bytes) {
        Some(entries) => entries,
        None => {
            return Err(LauncherError::ArchiveUnreadable);
        },
    };
    let ghost entry_views = spec_entry_views(entries@);
    let mut files: Vec<NativeFile> = Vec::new();
    let n: usize = entries.len();
    proof {
        reveal_with_fuel(Seq::filter, 2);
        assert(entry_views.take(0) =~= Seq::<(Seq<char>, Seq<u8>, bool)>::empty());
        assert(spec_native_selection(entry_views.take(0)) =~= Seq::<NativeFileView>::empty());
        assert(spec_native_file_views(files@) =~= Seq::<NativeFileView>::empty());
    }
    for i in 0..n
        invariant
            n == entries@.len(),
            entry_views == spec_entry_views(entries@),
            entry_views.len() == n,
            spec_native_file_views(files@) == spec_native_selection(entry_views.take(i as int)),
    {
        proof {
            lemma_native_selection_step(entry_views, i as int);
            assert(entry_views[i as int] == (
                entries@[i as int].name@,
                entries@[i as int].data@,
                entries@[i as int].is_dir,
            ));
        }
        let entry: &ArchiveEntry = &entries[i];
        if !entry.is_dir && is_native_name(entry.name.as_str()) {
            let ghost old_files = files@;
            let flat: String = base_name(entry.name.as_str());
            files.push(NativeFile { file_name: flat, data: clone_bytes(&entry.data) });
            proof {
                assert(spec_native_file_views(files@) =~= spec_native_file_views(old_files).push(
                    NativeFileView {
                        file_name: spec_base_name(entry_views[i as int].0),
                        data: entry_views[i as int].1,
                    },
                ));
            }
        }
    }
    proof {
        assert(entry_views.take(n as int) =~= entry_views);
    }
    Ok(files)
}

} // verus!
