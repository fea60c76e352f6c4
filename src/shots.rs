use vstd::prelude::*;
use vstd::string::*;

verus! {

/// Where a capture was stored when it was taken.
#[derive(Clone, Copy, Debug, PartialEq, Eq, Structural)]
pub enum StorageKind {
    Local,
    Clipboard,
}

impl StorageKind {
    pub open spec fn label_spec(self) -> Seq<char> {
        match self {
            StorageKind::Local => "Local"@,
            StorageKind::Clipboard => "Clipboard"@,
        }
    }

    /// The provenance label shown in a card's caption.
    pub fn label(&self) -> (r: &'static str)
        ensures
            r@ == self.label_spec(),
    {
        match self {
            StorageKind::Local => "Local",
            StorageKind::Clipboard => "Clipboard",
        }
    }
}

/// One screenshot or recording in the gallery.
///
/// `taken_at` is a reading of the application's monotonic clock in
/// milliseconds; `name` is the display name, which also keys the texture
/// cache; `path_on_disk` is where the backing image file lives.
pub struct RecentShot {
    pub taken_at: u64,
    pub name: String,
    pub stored_in: StorageKind,
    pub path_on_disk: String,
}

/// The directory that holds the backing files of recent captures.
pub open spec fn shots_dir() -> Seq<char> {
    "./assets/recent_shots/"@
}

impl RecentShot {
    /// A capture record whose backing file is `name` inside the captures
    /// directory.
    pub fn new(taken_at: u64, name: String, stored_in: StorageKind) -> (r: Self)
        ensures
            r.taken_at == taken_at,
            r.name@ == name@,
            r.stored_in == stored_in,
            r.path_on_disk@ == shots_dir() + name@,
    {
        let dir = String::from_str("./assets/recent_shots/");
        let path_on_disk = dir.concat(name.as_str());
        RecentShot { taken_at, name, stored_in, path_on_disk }
    }
}

} // verus!
