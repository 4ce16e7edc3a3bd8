//! Where the game keeps its per-user files.
use vstd::prelude::*;

verus! {

/// The directory of the game under the local application-data directory.
pub const COD4_APPDATA_DIR: &'static str = "CallofDuty4MW";

/// The directory of the launcher's binaries under the game's directory.
pub const BIN_DIR: &'static str = "bin";

/// A path: a base directory and the names joined onto it, in order.
pub struct JoinedPath {
    pub base: String,
    pub parts: Vec<String>,
}

impl View for JoinedPath {
    type V = (Seq<char>, Seq<Seq<char>>);

    open spec fn view(&self) -> (Seq<char>, Seq<Seq<char>>) {
        (self.base@, self.parts@.map_values(|p: String| p@))
    }
}

impl JoinedPath {
    /// The path of the directory `base`.
    pub fn from_base(base: String) -> (path: JoinedPath)
        ensures
            path@ == (base@, Seq::<Seq<char>>::empty()),
    {
        let path = JoinedPath { base, parts: Vec::new() };
        assert(path@.1 =~= Seq::<Seq<char>>::empty());
        path
    }

    /// This path with `part` joined onto it.
    pub fn join(self, part: &str) -> (path: JoinedPath)
        ensures
            path@ == (self@.0, self@.1.push(part@)),
    {
        let JoinedPath { base, mut parts } = self;
        let ghost old_parts = parts@;
        parts.push(String::from_str(part));
        let path = JoinedPath { base, parts };
        assert(path@.1 =~= old_parts.map_values(|p: String| p@).push(part@));
        path
    }
}

/// What the environment holds for a variable.
pub enum EnvVar {
    /// The variable is set to this text.
    Present(String),
    /// The variable is set, but its value is not Unicode.
    NotUnicode,
    /// The variable is not set.
    NotPresent,
}

/// Why the local application-data directory could not be had; the same
/// distinction as `std::env::VarError`.
#[derive(Debug, Clone, Copy, PartialEq, Eq, Structural)]
pub enum AppDataError {
    /// `LOCALAPPDATA` is not set, and the system has no known folder for it.
    NotPresent,
    /// `LOCALAPPDATA` is set, but its value is not Unicode.
    NotUnicode,
}

/// The local application-data directory: the `LOCALAPPDATA` environment variable
/// when it is set (a sandbox may point it elsewhere); the system's known folder
/// only when the variable is absent. A value that is not Unicode is an error, and
/// the known folder is not consulted for it.
pub open spec fn local_appdata(from_env: EnvVar, known_folder: Option<String>) -> Result<Seq<char>, AppDataError> {
    match from_env {
        EnvVar::Present(dir) => Ok(dir@),
        EnvVar::NotUnicode => Err(AppDataError::NotUnicode),
        EnvVar::NotPresent => match known_folder {
            Some(dir) => Ok(dir@),
            None => Err(AppDataError::NotPresent),
        },
    }
}

/// A set `LOCALAPPDATA` is the directory, whatever the known folder; a value that
/// is not Unicode is `NotUnicode`, whatever the known folder; the known folder
/// counts only when the variable is absent.
pub proof fn law_environment_first(dir: String, known: Option<String>, other: Option<String>)
    ensures
        local_appdata(EnvVar::Present(dir), known) == Ok::<Seq<char>, AppDataError>(dir@),
        local_appdata(EnvVar::NotUnicode, known) == Err::<Seq<char>, AppDataError>(AppDataError::NotUnicode),
        local_appdata(EnvVar::NotPresent, known) is Ok <==> known is Some,
        known matches Some(k) ==> local_appdata(EnvVar::NotPresent, known) == Ok::<Seq<char>, AppDataError>(k@),
{
}

/// The game's directory under the local application-data directory (see
/// `local_appdata`). `known_folder` is read only when `from_env` is `NotPresent`.
pub fn get_appdata_cod4_path(from_env: EnvVar, known_folder: Option<String>) -> (path: Result<JoinedPath, AppDataError>)
    ensures
        from_env matches EnvVar::Present(dir) ==> path matches Ok(p) && p@ == (dir@, seq![COD4_APPDATA_DIR@]),
        match local_appdata(from_env, known_folder) {
            Ok(dir) => path matches Ok(p) && p@ == (dir, seq![COD4_APPDATA_DIR@]),
            Err(e) => path matches Err(e2) && e2 == e,
        },
{
    let app_data = match from_env {
        EnvVar::Present(dir) => dir,
        EnvVar::NotUnicode => return Err(AppDataError::NotUnicode),
        EnvVar::NotPresent => match known_folder {
            Some(dir) => dir,
            None => return Err(AppDataError::NotPresent),
        },
    };
    let path = JoinedPath::from_base(app_data).join(COD4_APPDATA_DIR);
    assert(Seq::<Seq<char>>::empty().push(COD4_APPDATA_DIR@) =~= seq![COD4_APPDATA_DIR@]);
    Ok(path)
}

/// The directory of the launcher's binaries: `bin` in the game's directory.
pub fn appdata_bin_path(from_env: EnvVar, known_folder: Option<String>) -> (path: Result<JoinedPath, AppDataError>)
    ensures
        from_env matches EnvVar::Present(dir) ==> path matches Ok(p) && p@ == (dir@, seq![COD4_APPDATA_DIR@, BIN_DIR@]),
        match local_appdata(from_env, known_folder) {
            Ok(dir) => path matches Ok(p) && p@ == (dir, seq![COD4_APPDATA_DIR@, BIN_DIR@]),
            Err(e) => path matches Err(e2) && e2 == e,
        },
{
    match get_appdata_cod4_path(from_env, known_folder) {
        Ok(path) => {
            let bin = path.join(BIN_DIR);
            assert(seq![COD4_APPDATA_DIR@].push(BIN_DIR@) =~= seq![COD4_APPDATA_DIR@, BIN_DIR@]);
            Ok(bin)
        },
        Err(e) => Err(e),
    }
}

} // verus!
