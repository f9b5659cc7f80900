use vstd::prelude::*;

use crate::text::Chars;

verus! {

/// The characters of an optional string.
pub open spec fn opt_chars(o: Option<String>) -> Option<Chars> {
    match o {
        Some(s) => Some(s@),
        None => None,
    }
}

/// A launchable application parsed from a `.desktop` file.
#[derive(Debug, Clone)]
pub struct AppEntry {
    /// Display name (e.g. "Firefox")
    pub name: String,
    /// Exec command with field codes stripped (e.g. "firefox")
    pub command: String,
    /// Icon name or path (e.g. "firefox")
    pub icon: Option<String>,
    /// Resolved absolute path to the icon file (png, svg)
    pub icon_path: Option<String>,
    /// Short description (Comment field)
    pub description: Option<String>,
}

/// The model of an [`AppEntry`]: its fields as character sequences.
pub struct AppEntryView {
    pub name: Chars,
    pub command: Chars,
    pub icon: Option<Chars>,
    pub icon_path: Option<Chars>,
    pub description: Option<Chars>,
}

impl View for AppEntry {
    type V = AppEntryView;

    open spec fn view(&self) -> AppEntryView {
        AppEntryView {
            name: self.name@,
            command: self.command@,
            icon: opt_chars(self.icon),
            icon_path: opt_chars(self.icon_path),
            description: opt_chars(self.description),
        }
    }
}

/// A file or directory listed by the file browser.
#[derive(Debug, Clone, PartialEq, Eq)]
pub struct FileEntry {
    pub name: String,
    pub path: String,
    pub is_dir: bool,
    pub icon_path: Option<String>,
}

/// The model of a [`FileEntry`].
pub struct FileEntryView {
    pub name: Chars,
    pub path: Chars,
    pub is_dir: bool,
    pub icon_path: Option<Chars>,
}

impl View for FileEntry {
    type V = FileEntryView;

    open spec fn view(&self) -> FileEntryView {
        FileEntryView {
            name: self.name@,
            path: self.path@,
            is_dir: self.is_dir,
            icon_path: opt_chars(self.icon_path),
        }
    }
}

/// Copies an optional string.
pub fn clone_opt(o: &Option<String>) -> (r: Option<String>)
    ensures
        opt_chars(r) == opt_chars(*o),
{
    match o {
        Some(s) => Some(s.clone()),
        None => None,
    }
}

impl AppEntry {
    /// Copies an entry, field by field.
    pub fn duplicate(&self) -> (r: AppEntry)
        ensures
            r@ == self@,
    {
        AppEntry {
            name: self.name.clone(),
            command: self.command.clone(),
            icon: clone_opt(&self.icon),
            icon_path: clone_opt(&self.icon_path),
            description: clone_opt(&self.description),
        }
    }
}

impl FileEntry {
    /// Copies an entry, field by field.
    pub fn duplicate(&self) -> (r: FileEntry)
        ensures
            r@ == self@,
    {
        FileEntry {
            name: self.name.clone(),
            path: self.path.clone(),
            is_dir: self.is_dir,
            icon_path: clone_opt(&self.icon_path),
        }
    }
}

} // verus!
