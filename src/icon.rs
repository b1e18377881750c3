//! Turning icon files into stored payloads, and payloads into render handles.
use vstd::prelude::*;

use crate::record::{is_empty_path, is_known_absent, CachedAppDescriptor, CachedIcon, IconHandle, RasterImage};

verus! {

/// What the `image` crate decodes a byte buffer to, as width, height and
/// RGBA pixels; `None` where the bytes are no image it can read.
pub uninterp spec fn rgba_of(bytes: Seq<u8>) -> Option<(u32, u32, Seq<u8>)>;

/// What `Path::extension` gives for a path: the text after the last dot of the
/// file name, if there is one and it is valid text.
pub uninterp spec fn extension_of(path: Seq<char>) -> Option<Seq<char>>;

/// Relies on `image::load_from_memory` and `DynamicImage::to_rgba8`: the
/// decoded image as width, height and RGBA pixels.
#[verifier::external_body]
fn decode_rgba(bytes: &[u8]) -> (r: Option<(u32, u32, Vec<u8>)>)
    ensures
        r is None <==> rgba_of(bytes@) is None,
        r matches Some((w, h, p)) ==> rgba_of(bytes@) == Some((w, h, p@)),
{
    let rgba = image::load_from_memory(bytes).ok()?.to_rgba8();
    let (width, height) = rgba.dimensions();
    Some((width, height, rgba.into_raw()))
}

/// Relies on `Path::extension` and `OsStr::to_str`.
#[verifier::external_body]
fn file_extension(path: &String) -> (r: Option<String>)
    ensures
        r is None <==> extension_of(path@) is None,
        r matches Some(e) ==> extension_of(path@) == Some(e@),
{
    std::path::Path::new(path.as_str()).extension().and_then(|e| e.to_str()).map(|e| e.to_string())
}

/// The pixel size asked of the icon theme.
pub const DEFAULT_ICON_SIZE: u16 = 48;

/// Relies on `freedesktop_icons::lookup(..).with_size(..).with_cache().find()`:
/// the icon theme's file for a name, if it has one. The answer depends on the
/// themes installed, so nothing is stated of it. A path that is not valid
/// text is taken as no answer.
#[verifier::external_body]
fn find_theme_icon(name: &String, size: u16) -> (r: Option<String>) {
    freedesktop_icons::lookup(name).with_size(size).with_cache().find().and_then(
        |path| path.to_str().map(|p| p.to_string()),
    )
}

/// Looks an icon name up in the installed icon themes, at the default size.
pub fn lookup_theme_icon(name: &String) -> (r: Option<String>) {
    find_theme_icon(name, DEFAULT_ICON_SIZE)
}

/// `s` equals the lower-case ASCII word `word` when case is ignored.
pub open spec fn eq_ignore_ascii_case(s: Seq<char>, word: Seq<char>) -> bool {
    &&& s.len() == word.len()
    &&& forall|i: int|
        0 <= i < s.len() ==> (s[i] == word[i] || (s[i] as u32) + 32 == (word[i] as u32))
}

/// Whether an extension names a vector image format.
pub open spec fn is_vector_extension(ext: Seq<char>) -> bool {
    eq_ignore_ascii_case(ext, seq!['s', 'v', 'g']) || eq_ignore_ascii_case(
        ext,
        seq!['s', 'v', 'g', 'z'],
    )
}

/// Whether a path names a vector image file.
pub open spec fn is_vector_path(path: Seq<char>) -> bool {
    extension_of(path) matches Some(e) && is_vector_extension(e)
}

/// The payload that the bytes of the file at `path` give: the bytes themselves
/// for a vector file, otherwise the decoded raster image, if it decodes.
pub open spec fn icon_from_bytes(icon: Option<CachedIcon>, path: Seq<char>, bytes: Seq<u8>) -> bool {
    if is_vector_path(path) {
        icon matches Some(CachedIcon::Svg(b)) && b@ == bytes
    } else {
        match rgba_of(bytes) {
            None => icon is None,
            Some((w, h, p)) => icon matches Some(CachedIcon::Rgba { width, height, pixels }) && width
                == w && height == h && pixels@ == p,
        }
    }
}

/// Compares `s` with a lower-case ASCII word, ignoring ASCII case.
fn matches_word(s: &String, word: &str) -> (r: bool)
    requires
        forall|i: int| 0 <= i < word@.len() ==> 'a' <= #[trigger] word@[i] <= 'z',
    ensures
        r == eq_ignore_ascii_case(s@, word@),
{
    let n = s.as_str().unicode_len();
    if n != word.unicode_len() {
        return false;
    }
    let mut i: usize = 0;
    while i < n
        invariant
            n == s@.len() == word@.len(),
            0 <= i <= n,
            forall|j: int|
                0 <= j < i ==> (s@[j] == word@[j] || (s@[j] as u32) + 32 == (word@[j] as u32)),
        decreases n - i,
    {
        let c = s.as_str().get_char(i);
        let w = word.get_char(i);
        if c != w && (c as u32) + 32 != (w as u32) {
            return false;
        }
        i = i + 1;
    }
    true
}

/// Whether `path` names a vector image file, by its extension, ignoring case.
pub fn has_vector_extension(path: &String) -> (r: bool)
    ensures
        r == is_vector_path(path@),
{
    match file_extension(path) {
        None => false,
        Some(ext) => {
            proof {
                reveal_strlit("svg");
                reveal_strlit("svgz");
            }
            let svg = matches_word(&ext, "svg");
            let svgz = matches_word(&ext, "svgz");
            assert("svg"@ =~= seq!['s', 'v', 'g']);
            assert("svgz"@ =~= seq!['s', 'v', 'g', 'z']);
            svg || svgz
        },
    }
}

/// Decodes raster bytes to an explicit RGBA image; `None` where they do not decode.
pub fn decode_raster(bytes: &[u8]) -> (r: Option<CachedIcon>)
    ensures
        match rgba_of(bytes@) {
            None => r is None,
            Some((w, h, p)) => r matches Some(CachedIcon::Rgba { width, height, pixels }) && width
                == w && height == h && pixels@ == p,
        },
{
    match decode_rgba(bytes) {
        None => None,
        Some((width, height, pixels)) => Some(CachedIcon::Rgba { width, height, pixels }),
    }
}

/// The payload for the bytes read from the icon file at `path`.
pub fn icon_data_from_bytes(path: &String, bytes: Vec<u8>) -> (r: Option<CachedIcon>)
    ensures
        icon_from_bytes(r, path@, bytes@),
{
    if has_vector_extension(path) {
        Some(CachedIcon::Svg(bytes))
    } else {
        decode_raster(bytes.as_slice())
    }
}

/// `icon` is what the file at `path` gives when `read_file` returned `read`:
/// nothing where the file could not be read, else the payload of its bytes.
pub open spec fn icon_from_read(icon: Option<CachedIcon>, path: Seq<char>, read: Option<Vec<u8>>) -> bool {
    match read {
        None => icon is None,
        Some(bytes) => icon_from_bytes(icon, path, bytes@),
    }
}

/// `icon` is what the file at `path` gives through `read_file`: nothing for the
/// empty path, else the payload of what one read of the file returned.
pub open spec fn icon_from_file<R: Fn(&String) -> Option<Vec<u8>>>(
    read_file: R,
    path: String,
    icon: Option<CachedIcon>,
) -> bool {
    if path@.len() == 0 {
        icon is None
    } else {
        exists|read: Option<Vec<u8>>|
            #[trigger] read_file.ensures((&path,), read) && icon_from_read(icon, path@, read)
    }
}

/// Reads the icon file at `path` through `read_file` and decodes it; the empty
/// path, which records that no icon exists, is not read.
pub fn icon_data_from_path<R: Fn(&String) -> Option<Vec<u8>>>(path: &String, read_file: &R) -> (r:
    Option<CachedIcon>)
    requires
        forall|p: &String| read_file.requires((p,)),
    ensures
        icon_from_file(*read_file, *path, r),
{
    if is_empty_path(path) {
        return None;
    }
    match read_file(path) {
        None => None,
        Some(bytes) => icon_data_from_bytes(path, bytes),
    }
}

/// A record whose icon is settled: its payload is stored, or it is known that
/// no icon exists. Resolution leaves such a record alone.
pub open spec fn icon_settled(entry: CachedAppDescriptor) -> bool {
    entry.icon_data is Some || is_known_absent(entry.icon_path)
}

/// The fields that icon resolution never touches are equal.
pub open spec fn same_identity(a: CachedAppDescriptor, b: CachedAppDescriptor) -> bool {
    &&& a.appid == b.appid
    &&& a.title == b.title
    &&& a.lower_title == b.lower_title
    &&& a.command == b.command
    &&& a.exec_count == b.exec_count
    &&& a.icon_name == b.icon_name
}

/// The stored path of `entry` gave no payload: there is none, or reading and
/// decoding it gave nothing.
pub open spec fn path_gave_nothing<R: Fn(&String) -> Option<Vec<u8>>>(
    entry: CachedAppDescriptor,
    read_file: R,
) -> bool {
    match entry.icon_path {
        None => true,
        Some(p) => icon_from_file(read_file, p, None),
    }
}

/// What one resolution step does to a record `old`, giving `new` and
/// reporting `changed`, with `lookup` for the theme lookup and `read_file` for
/// reading icon files.
pub open spec fn icon_resolution<L: Fn(&String) -> Option<String>, R: Fn(&String) -> Option<Vec<u8>>>(
    old: CachedAppDescriptor,
    new: CachedAppDescriptor,
    changed: bool,
    lookup: L,
    read_file: R,
) -> bool {
    &&& same_identity(new, old)
    // a settled record is left as it is: a second call does no work
    &&& icon_settled(old) ==> !changed && new == old
    &&& !icon_settled(old) ==> {
        // decoded from the stored path
        ||| {
            &&& old.icon_path matches Some(p)
            &&& new.icon_path == old.icon_path
            &&& new.icon_data is Some
            &&& icon_from_file(read_file, p, new.icon_data)
            &&& changed
        }
        // nothing from the path, and no name to look up
        ||| {
            &&& path_gave_nothing(old, read_file)
            &&& old.icon_name is None
            &&& new == old
            &&& !changed
        }
        // nothing from the path, and the lookup missed
        ||| {
            &&& path_gave_nothing(old, read_file)
            &&& old.icon_name matches Some(n)
            &&& lookup.ensures((&n,), None)
            &&& is_known_absent(new.icon_path)
            &&& new.icon_data is None
            &&& changed
        }
        // nothing from the path, and the lookup found a file
        ||| {
            &&& path_gave_nothing(old, read_file)
            &&& old.icon_name matches Some(n)
            &&& new.icon_path matches Some(q)
            &&& lookup.ensures((&n,), Some(q))
            &&& icon_from_file(read_file, q, new.icon_data)
            &&& changed == (new.icon_data is Some || !(old.icon_path matches Some(
                p,
            ) && p@ == q@))
        }
    }
}

/// Resolves the icon payload of an unsettled record: from its stored path,
/// else through a theme lookup of its icon name. A lookup miss records the
/// empty path, so that later calls skip the lookup. Returns whether the record
/// changed.
pub fn populate_icon_data<L, R>(entry: &mut CachedAppDescriptor, lookup: &L, read_file: &R) -> (changed: bool) where
    L: Fn(&String) -> Option<String>,
    R: Fn(&String) -> Option<Vec<u8>>,

    requires
        forall|n: &String| lookup.requires((n,)),
        forall|p: &String| read_file.requires((p,)),
    ensures
        icon_resolution(*old(entry), *final(entry), changed, *lookup, *read_file),
        // resolving a settled record again does no work and reports no change
        icon_settled(*old(entry)) ==> !changed && *final(entry) == *old(entry),
{
    if entry.icon_data.is_some() {
        return false;
    }
    if let Some(p) = &entry.icon_path {
        if is_empty_path(p) {
            return false;
        }
        let data = icon_data_from_path(p, read_file);
        if data.is_some() {
            entry.icon_data = data;
            return true;
        }
    }
    let found = match &entry.icon_name {
        None => {
            return false;
        },
        Some(name) => lookup(name),
    };
    match found {
        None => {
            entry.icon_path = Some(String::new());
            true
        },
        Some(q) => {
            let data = icon_data_from_path(&q, read_file);
            let same_path = match &entry.icon_path {
                Some(p) => *p == q,
                None => false,
            };
            let changed = data.is_some() || !same_path;
            entry.icon_path = Some(q);
            entry.icon_data = data;
            changed
        },
    }
}

/// The render handle of a payload: raster for encoded or decoded raster
/// images, vector for vector images.
pub open spec fn handle_of(data: CachedIcon) -> IconHandle {
    match data {
        CachedIcon::Raster(bytes) => IconHandle::Raster(RasterImage::Encoded(bytes)),
        CachedIcon::Rgba { width, height, pixels } => IconHandle::Raster(
            RasterImage::Rgba { width, height, pixels },
        ),
        CachedIcon::Svg(bytes) => IconHandle::Vector(bytes),
    }
}

/// Builds the render handle of a payload; decoded images keep their explicit
/// size, so nothing is decoded again.
pub fn icon_handle_from_data(data: CachedIcon) -> (r: IconHandle)
    ensures
        r == handle_of(data),
{
    match data {
        CachedIcon::Raster(bytes) => IconHandle::Raster(RasterImage::Encoded(bytes)),
        CachedIcon::Rgba { width, height, pixels } => IconHandle::Raster(
            RasterImage::Rgba { width, height, pixels },
        ),
        CachedIcon::Svg(bytes) => IconHandle::Vector(bytes),
    }
}

} // verus!
