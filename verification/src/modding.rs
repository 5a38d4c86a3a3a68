//! Where mods are looked for.

use std::collections::BTreeMap;
use std::path::PathBuf;
use vstd::prelude::*;
use vstd::string::StringExecFns;

verus! {

/// `std::path::PathBuf`: an owned file system path. Opaque here.
#[verifier::external_type_specification]
#[verifier::external_body]
pub struct ExPathBuf(std::path::PathBuf);

/// The path that `Path::join` makes of the path `base` and the name `name`.
pub uninterp spec fn joined_path(base: PathBuf, name: Seq<char>) -> PathBuf;

/// The text that `Path::to_string_lossy` gives for `path`.
pub uninterp spec fn path_as_text(path: PathBuf) -> Seq<char>;

/// `Path::join` copies `base` and pushes `name` onto the copy, as the
/// platform writes paths. The joined path depends on the two arguments
/// alone; more is not claimed about it.
#[verifier::external_body]
fn join_path(base: &PathBuf, name: &str) -> (joined: PathBuf)
    ensures
        joined == joined_path(*base, name@),
{
    base.join(name)
}

/// `Path::to_string_lossy` gives the path as text, with a replacement
/// character for what is not Unicode. The text depends on the path alone;
/// more is not claimed about it.
#[verifier::external_body]
fn path_text(path: &PathBuf) -> (text: String)
    ensures
        text@ == path_as_text(*path),
{
    path.to_string_lossy().into_owned()
}

/// The file name of the script that a mod starts with.
pub open spec fn default_entry_point() -> Seq<char> {
    "init.lua"@
}

/// The name of the directory that holds the mods.
pub open spec fn default_directory_name() -> Seq<char> {
    "mods"@
}

/// Settings of the mod hub.
pub struct ModSettings {
    /// Filename for initial script.
    pub entry_point: String,
    /// Directory that contains all mods.
    pub directory_path: PathBuf,
}

impl ModSettings {
    /// The text of the settings: the entry point, then the directory.
    pub open spec fn described(self) -> Seq<char> {
        "entry_point: "@ + self.entry_point@ + ",\ndirectory_path: "@ + path_as_text(
            self.directory_path,
        )
    }

    /// The settings as text: the entry point, then the directory.
    pub fn describe(&self) -> (text: String)
        ensures
            text@ == self.described(),
    {
        let directory = path_text(&self.directory_path);
        let mut text = String::from_str("entry_point: ");
        text.append(self.entry_point.as_str());
        text.append(",\ndirectory_path: ");
        text.append(directory.as_str());
        text
    }
}

/// What is known of a mod before it is loaded.
pub struct ModMeta {
    pub name: String,
}

/// A loaded mod.
pub struct Mod {
    pub priority: u16,
}

/// The mods of a simulation and where they are looked for.
pub struct ModHub {
    mods: BTreeMap<String, Mod>,
    settings: ModSettings,
}

impl ModHub {
    /// The settings of the hub.
    pub closed spec fn view(&self) -> ModSettings {
        self.settings
    }

    /// The loaded mods, by name.
    pub closed spec fn mods(&self) -> Map<String, Mod> {
        self.mods@
    }

    /// A hub without mods that looks for mods in the directory `mods` below
    /// `current_dir` and starts each with the script `init.lua`.
    pub fn new(current_dir: PathBuf) -> (hub: Self)
        ensures
            hub@.entry_point@ == default_entry_point(),
            hub@.directory_path == joined_path(current_dir, default_directory_name()),
            hub.mods() == Map::<String, Mod>::empty(),
    {
        let directory_path = join_path(&current_dir, "mods");
        ModHub {
            mods: BTreeMap::new(),
            settings: ModSettings { entry_point: String::from_str("init.lua"), directory_path },
        }
    }

    /// The settings of the hub.
    pub fn settings(&self) -> (settings: &ModSettings)
        ensures
            *settings == self@,
    {
        &self.settings
    }
}

} // verus!
