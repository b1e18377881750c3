//! Application records, their persisted form and the icon payloads they carry.
use vstd::prelude::*;

use crate::icon::{handle_of, icon_data_from_path, icon_from_file, icon_handle_from_data};

verus! {

/// A raster image ready to render: either still encoded, or decoded to RGBA.
#[derive(Debug, Clone, PartialEq)]
pub enum RasterImage {
    Encoded(Vec<u8>),
    Rgba { width: u32, height: u32, pixels: Vec<u8> },
}

/// The render form of an application's icon.
#[derive(Debug, Clone, PartialEq)]
pub enum IconHandle {
    Raster(RasterImage),
    Vector(Vec<u8>),
    /// The built-in icon shown when no icon could be found.
    Fallback,
    /// No icon was resolved yet; the UI may look one up on demand.
    NotLoaded,
}

/// The persisted icon payload.
#[derive(Debug, Clone, PartialEq)]
pub enum CachedIcon {
    Raster(Vec<u8>),
    Rgba { width: u32, height: u32, pixels: Vec<u8> },
    Svg(Vec<u8>),
}

/// An application as the launcher shows it.
#[derive(Debug, Clone, PartialEq)]
pub struct AppDescriptor {
    pub appid: String,
    pub title: String,
    pub lower_title: String,
    pub command: Option<String>,
    pub exec_count: usize,
    pub icon_name: Option<String>,
    /// A resolved icon file; the empty path records that none exists.
    pub icon_path: Option<String>,
    pub icon_handle: IconHandle,
}

/// An application as the cache stores it.
#[derive(Debug, Clone, PartialEq)]
pub struct CachedAppDescriptor {
    pub appid: String,
    pub title: String,
    pub lower_title: String,
    pub command: Option<String>,
    pub exec_count: usize,
    pub icon_name: Option<String>,
    pub icon_path: Option<String>,
    pub icon_data: Option<CachedIcon>,
}

/// A record in the older shape, stored before icons were cached.
#[derive(Debug, Clone, PartialEq)]
pub struct LegacyRecord {
    pub appid: String,
    pub title: String,
    pub lower_title: String,
    pub command: String,
    pub exec_count: usize,
    pub icon_name: Option<String>,
}

/// What `str::to_lowercase` makes of a string.
pub uninterp spec fn lower_of(s: Seq<char>) -> Seq<char>;

/// Relies on `str::to_lowercase`: its result depends on the characters alone.
#[verifier::external_body]
fn lowercase(s: &String) -> (r: String)
    ensures
        r@ == lower_of(s@),
{
    s.to_lowercase()
}

/// Whether a path is the empty path that records "no icon exists".
pub open spec fn is_known_absent(path: Option<String>) -> bool {
    path matches Some(p) && p@.len() == 0
}

/// The lower-case title of a record: the stored one, or the title lowercased
/// when none was stored.
pub open spec fn normal_lower_title(title: Seq<char>, lower_title: Seq<char>) -> Seq<char> {
    if lower_title.len() == 0 {
        lower_of(title)
    } else {
        lower_title
    }
}

pub fn is_empty_path(path: &String) -> (r: bool)
    ensures
        r == (path@.len() == 0),
{
    path.as_str().is_empty()
}

impl CachedAppDescriptor {
    /// Fills in a missing lower-case title.
    pub fn normalize(self) -> (r: Self)
        ensures
            r.lower_title@ == normal_lower_title(self.title@, self.lower_title@),
            r.appid == self.appid,
            r.title == self.title,
            r.command == self.command,
            r.exec_count == self.exec_count,
            r.icon_name == self.icon_name,
            r.icon_path == self.icon_path,
            r.icon_data == self.icon_data,
    {
        let mut r = self;
        if r.lower_title.as_str().is_empty() {
            r.lower_title = lowercase(&r.title);
        }
        r
    }
}


/// The icon handle that a record shows: from its payload; the fallback where
/// no icon exists; else not loaded yet.
pub open spec fn shown_handle(icon_path: Option<String>, icon_data: Option<CachedIcon>) -> IconHandle {
    match icon_data {
        Some(d) => handle_of(d),
        None => if is_known_absent(icon_path) {
            IconHandle::Fallback
        } else {
            IconHandle::NotLoaded
        },
    }
}

/// `a` is the descriptor that the stored record `c` reads back as.
pub open spec fn describes(a: AppDescriptor, c: CachedAppDescriptor) -> bool {
    &&& a.appid == c.appid
    &&& a.title == c.title
    &&& a.lower_title@ == normal_lower_title(c.title@, c.lower_title@)
    &&& a.command == c.command
    &&& a.exec_count == c.exec_count
    &&& a.icon_name == c.icon_name
    &&& a.icon_path == c.icon_path
    &&& a.icon_handle == shown_handle(c.icon_path, c.icon_data)
}

/// `c` stores the descriptor `a` with the payload `icon_data`.
pub open spec fn stores(c: CachedAppDescriptor, a: AppDescriptor, icon_data: Option<CachedIcon>) -> bool {
    &&& c.appid == a.appid
    &&& c.title == a.title
    &&& c.lower_title@ == normal_lower_title(a.title@, a.lower_title@)
    &&& c.command == a.command
    &&& c.exec_count == a.exec_count
    &&& c.icon_name == a.icon_name
    &&& c.icon_path == a.icon_path
    &&& c.icon_data == icon_data
}

impl CachedAppDescriptor {
    /// The record for a descriptor. Its payload is `cached_icon` where one is
    /// given, else what the descriptor's icon file gives.
    pub fn from_app_descriptor<R: Fn(&String) -> Option<Vec<u8>>>(
        app: AppDescriptor,
        cached_icon: Option<CachedIcon>,
        read_file: &R,
    ) -> (r: CachedAppDescriptor)
        requires
            forall|p: &String| read_file.requires((p,)),
        ensures
            stores(r, app, r.icon_data),
            cached_icon is Some ==> r.icon_data == cached_icon,
            cached_icon is None ==> match app.icon_path {
                None => r.icon_data is None,
                Some(p) => icon_from_file(*read_file, p, r.icon_data),
            },
    {
        let icon_data = match cached_icon {
            Some(d) => Some(d),
            None => match &app.icon_path {
                None => None,
                Some(p) => icon_data_from_path(p, read_file),
            },
        };
        let AppDescriptor { appid, title, lower_title, command, exec_count, icon_name, icon_path, .. } = app;
        CachedAppDescriptor {
            appid,
            title,
            lower_title,
            command,
            exec_count,
            icon_name,
            icon_path,
            icon_data,
        }.normalize()
    }

    /// The record for a descriptor in the older shape: its lower-case title
    /// filled in, its icon not resolved.
    pub fn from_legacy(old: LegacyRecord) -> (r: CachedAppDescriptor)
        ensures
            r.appid == old.appid,
            r.title == old.title,
            r.lower_title@ == normal_lower_title(old.title@, old.lower_title@),
            r.command == Some(old.command),
            r.exec_count == old.exec_count,
            r.icon_name == old.icon_name,
            r.icon_path is None,
            r.icon_data is None,
    {
        let LegacyRecord { appid, title, lower_title, command, exec_count, icon_name } = old;
        CachedAppDescriptor {
            appid,
            title,
            lower_title,
            command: Some(command),
            exec_count,
            icon_name,
            icon_path: None,
            icon_data: None,
        }.normalize()
    }

    /// The descriptor that this record reads back as.
    pub fn into_app_descriptor(self) -> (r: AppDescriptor)
        ensures
            describes(r, self),
    {
        let CachedAppDescriptor {
            appid,
            title,
            lower_title,
            command,
            exec_count,
            icon_name,
            icon_path,
            icon_data,
        } = self;
        let lower_title = if lower_title.as_str().is_empty() {
            lowercase(&title)
        } else {
            lower_title
        };
        let known_absent = match &icon_path {
            Some(p) => is_empty_path(p),
            None => false,
        };
        let icon_handle = match icon_data {
            Some(d) => icon_handle_from_data(d),
            None => if known_absent {
                IconHandle::Fallback
            } else {
                IconHandle::NotLoaded
            },
        };
        AppDescriptor {
            appid,
            title,
            lower_title,
            command,
            exec_count,
            icon_name,
            icon_path,
            icon_handle,
        }
    }
}

/// A stored value decoded: in the current shape where that decode succeeded,
/// else upgraded from the older shape; `None` where neither shape fits.
pub fn decode_record(current: Option<CachedAppDescriptor>, legacy: Option<LegacyRecord>) -> (r:
    Option<CachedAppDescriptor>)
    ensures
        match (current, legacy) {
            (Some(c), _) => r matches Some(x) && x.lower_title@ == normal_lower_title(
                c.title@,
                c.lower_title@,
            ) && x.appid == c.appid && x.title == c.title && x.command == c.command
                && x.exec_count == c.exec_count && x.icon_name == c.icon_name && x.icon_path
                == c.icon_path && x.icon_data == c.icon_data,
            (None, Some(l)) => r matches Some(x) && x.lower_title@ == normal_lower_title(
                l.title@,
                l.lower_title@,
            ) && x.appid == l.appid && x.title == l.title && x.command == Some(l.command)
                && x.exec_count == l.exec_count && x.icon_name == l.icon_name && x.icon_path is None
                && x.icon_data is None,
            (None, None) => r is None,
        },
{
    match current {
        Some(c) => Some(c.normalize()),
        None => match legacy {
            Some(l) => Some(CachedAppDescriptor::from_legacy(l)),
            None => None,
        },
    }
}

} // verus!
