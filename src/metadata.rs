use vstd::prelude::*;
use crate::desktop_entry::{
    entry_pairs, lines_of, lookup, parse_desktop_lines, parse_desktop_text, views, DesktopEntry,
};
use crate::error::AppimageError;

verus! {

/// What a bundle tells about itself through its desktop entry.
#[derive(Debug, Clone)]
pub struct AppimageMetadata {
    /// The `Name` key, or `Unknown Name`.
    pub name: String,
    /// The `Version` key, else `X-AppImage-Version`, else `Unknown Version`.
    pub version: String,
    /// The `Exec` key, the command that starts the application.
    pub exec_command: Option<String>,
    /// The `Icon` key.
    pub icon: Option<String>,
    /// Every line of the desktop entry file, as read.
    pub desktop_entry: Vec<String>,
}

pub open spec fn name_key() -> Seq<char> {
    seq!['N', 'a', 'm', 'e']
}

pub open spec fn version_key() -> Seq<char> {
    seq!['V', 'e', 'r', 's', 'i', 'o', 'n']
}

pub open spec fn appimage_version_key() -> Seq<char> {
    seq!['X', '-', 'A', 'p', 'p', 'I', 'm', 'a', 'g', 'e', '-', 'V', 'e', 'r', 's', 'i', 'o', 'n']
}

pub open spec fn exec_key() -> Seq<char> {
    seq!['E', 'x', 'e', 'c']
}

pub open spec fn icon_key() -> Seq<char> {
    seq!['I', 'c', 'o', 'n']
}

pub open spec fn unknown_name() -> Seq<char> {
    seq!['U', 'n', 'k', 'n', 'o', 'w', 'n', ' ', 'N', 'a', 'm', 'e']
}

pub open spec fn unknown_version() -> Seq<char> {
    seq!['U', 'n', 'k', 'n', 'o', 'w', 'n', ' ', 'V', 'e', 'r', 's', 'i', 'o', 'n']
}

pub open spec fn desktop_suffix() -> Seq<char> {
    seq!['.', 'd', 'e', 's', 'k', 't', 'o', 'p']
}

/// The value of `o`, or `d` when there is none.
pub open spec fn or_else(o: Option<Seq<char>>, d: Seq<char>) -> Seq<char> {
    match o {
        Some(v) => v,
        None => d,
    }
}

/// The name that a set of entry pairs resolves to.
pub open spec fn resolved_name(es: Seq<(Seq<char>, Seq<char>)>) -> Seq<char> {
    or_else(lookup(es, name_key()), unknown_name())
}

/// The version that a set of entry pairs resolves to: `Version`, falling
/// back to `X-AppImage-Version`, falling back to `Unknown Version`.
pub open spec fn resolved_version(es: Seq<(Seq<char>, Seq<char>)>) -> Seq<char> {
    match lookup(es, version_key()) {
        Some(v) => v,
        None => or_else(lookup(es, appimage_version_key()), unknown_version()),
    }
}

/// The view of an optional string.
pub open spec fn opt_view(o: Option<String>) -> Option<Seq<char>> {
    match o {
        Some(s) => Some(s@),
        None => None,
    }
}

/// The record is the one that `es` and `lines` resolve to.
pub open spec fn describes(
    md: AppimageMetadata,
    es: Seq<(Seq<char>, Seq<char>)>,
    lines: Seq<String>,
) -> bool {
    &&& md.name@ == resolved_name(es)
    &&& md.version@ == resolved_version(es)
    &&& opt_view(md.exec_command) == lookup(es, exec_key())
    &&& opt_view(md.icon) == lookup(es, icon_key())
    &&& md.desktop_entry@ == lines
}

/// `s` ends with `.desktop`.
pub open spec fn is_desktop_name(s: Seq<char>) -> bool {
    s.len() >= 8 && s.skip(s.len() - 8) == desktop_suffix()
}

/// Builds the metadata record of a parsed desktop entry.
pub fn metadata_from_entry(doc: DesktopEntry) -> (md: AppimageMetadata)
    ensures
        describes(md, doc.entries_view(), doc.lines@),
{
    let name_k = String::from_str("Name");
    let version_k = String::from_str("Version");
    let appimage_version_k = String::from_str("X-AppImage-Version");
    let exec_k = String::from_str("Exec");
    let icon_k = String::from_str("Icon");
    proof {
        reveal_strlit("Name");
        reveal_strlit("Version");
        reveal_strlit("X-AppImage-Version");
        reveal_strlit("Exec");
        reveal_strlit("Icon");
        reveal_strlit("Unknown Name");
        reveal_strlit("Unknown Version");
        assert(name_k@ =~= name_key());
        assert(version_k@ =~= version_key());
        assert(appimage_version_k@ =~= appimage_version_key());
        assert(exec_k@ =~= exec_key());
        assert(icon_k@ =~= icon_key());
        assert("Unknown Name"@ =~= unknown_name());
        assert("Unknown Version"@ =~= unknown_version());
    }
    let name = match doc.get(&name_k) {
        Some(v) => v,
        None => String::from_str("Unknown Name"),
    };
    let version = match doc.get(&version_k) {
        Some(v) => v,
        None => match doc.get(&appimage_version_k) {
            Some(v) => v,
            None => String::from_str("Unknown Version"),
        },
    };
    let exec_command = doc.get(&exec_k);
    let icon = doc.get(&icon_k);
    AppimageMetadata { name, version, exec_command, icon, desktop_entry: doc.lines }
}

/// Parses the lines of a desktop entry file and builds the metadata record.
pub fn metadata_from_lines(lines: Vec<String>) -> (md: AppimageMetadata)
    ensures
        describes(md, entry_pairs(views(lines@)), lines@),
{
    metadata_from_entry(parse_desktop_lines(lines))
}

/// Parses the text of a desktop entry file and builds the metadata record.
pub fn metadata_from_text(text: &str) -> (md: AppimageMetadata)
    ensures
        describes(md, entry_pairs(lines_of(text@)), md.desktop_entry@),
        views(md.desktop_entry@) == lines_of(text@),
{
    metadata_from_entry(parse_desktop_text(text))
}

/// Whether `s` ends with `.desktop`.
pub fn is_desktop_file_name(s: &String) -> (r: bool)
    ensures
        r == is_desktop_name(s@),
{
    let cs = crate::text::chars_of(s.as_str());
    let suffix: Vec<char> = vec!['.', 'd', 'e', 's', 'k', 't', 'o', 'p'];
    assert(suffix@ =~= desktop_suffix());
    if cs.len() < 8 {
        return false;
    }
    let base = cs.len() - 8;
    let mut i: usize = 0;
    while i < 8
        invariant
            cs@ == s@,
            cs@.len() >= 8,
            base == cs@.len() - 8,
            base + 8 == cs.len(),
            suffix@ == desktop_suffix(),
            i <= 8,
            forall|j: int| 0 <= j < i ==> cs@[base + j] == suffix@[j],
        decreases 8 - i,
    {
        if cs[base + i] != suffix[i] {
            assert(s@.skip(base as int)[i as int] != desktop_suffix()[i as int]);
            return false;
        }
        i = i + 1;
    }
    assert(s@.skip(base as int) =~= desktop_suffix());
    true
}

/// The first entry of a bundle's file list whose name ends with `.desktop`.
pub fn find_desktop_entry(files: &Vec<String>) -> (r: Result<String, AppimageError>)
    ensures
        r matches Ok(f) ==> exists|i: int|
            0 <= i < files@.len() && files@[i] == f && is_desktop_name(f@) && forall|j: int|
                0 <= j < i ==> !is_desktop_name(#[trigger] files@[j]@),
        r is Err ==> r == Err::<String, AppimageError>(AppimageError::DescriptorNotFound)
            && forall|j: int| 0 <= j < files@.len() ==> !is_desktop_name(#[trigger] files@[j]@),
{
    let mut i: usize = 0;
    while i < files.len()
        invariant
            i <= files@.len(),
            forall|j: int| 0 <= j < i ==> !is_desktop_name(#[trigger] files@[j]@),
        decreases files@.len() - i,
    {
        if is_desktop_file_name(&files[i]) {
            return Ok(files[i].clone());
        }
        i = i + 1;
    }
    Err(AppimageError::DescriptorNotFound)
}

} // verus!
