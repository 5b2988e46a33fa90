//! What the program remembers between two runs, and where it keeps it.

use vstd::prelude::*;
use directories::ProjectDirs;
use std::path::PathBuf;

verus! {

#[verifier::external_type_specification]
#[verifier::external_body]
pub struct ExProjectDirs(directories::ProjectDirs);

#[verifier::external_type_specification]
#[verifier::external_body]
pub struct ExPathBuf(std::path::PathBuf);

/// The name of the file that holds the preferences.
pub const PREFERENCES_FILE: &'static str = "preferences.ron";

/// Why the preferences could not be read or written.
#[derive(Debug)]
pub enum PreferenceError {
    /// No place for the preference file is known.
    NoPath,
    /// The preference file does not exist.
    FileNotFound,
    /// The preference file at this path could not be opened.
    OpenFile(PathBuf),
    /// The preference file does not hold preferences.
    Deserialize,
    /// The preferences could not be written out.
    Serialize,
}

/// The values of the form at the time of the last list that was written.
#[derive(Debug, Clone)]
pub struct Preferences {
    /// The path of the workbook that was read.
    pub src_path: String,
    /// The name of the sheet that was read.
    pub src_sheet: String,
    /// The label of the grouping column.
    pub src_column: String,
    /// The path of the list that was written.
    pub dest_path: String,
    /// The additional columns, each with its heading and its column label.
    pub auxiliaries: Option<Vec<(String, String)>>,
}

impl Default for Preferences {
    /// Preferences with every field empty.
    fn default() -> (preferences: Preferences)
        ensures
            preferences.src_path@.len() == 0,
            preferences.src_sheet@.len() == 0,
            preferences.src_column@.len() == 0,
            preferences.dest_path@.len() == 0,
            preferences.auxiliaries is None,
    {
        Preferences {
            src_path: String::new(),
            src_sheet: String::new(),
            src_column: String::new(),
            dest_path: String::new(),
            auxiliaries: None,
        }
    }
}

/// `ProjectDirs::from`: the directories that the platform assigns to a
/// project of this name, or nothing where the user's home directory cannot
/// be found. The answer depends on the machine and on the environment, so
/// nothing is claimed of it.
#[verifier::external_body]
fn project_dirs_from(qualifier: &str, organization: &str, application: &str) -> (dirs: Option<
    ProjectDirs,
>) {
    ProjectDirs::from(qualifier, organization, application)
}

/// `ProjectDirs::config_dir`: the project's configuration directory.
#[verifier::external_body]
fn config_dir(dirs: &ProjectDirs) -> (dir: PathBuf) {
    dirs.config_dir().to_path_buf()
}

/// `Path::join`: the path of `name` inside `dir`.
#[verifier::external_body]
fn path_join(dir: &PathBuf, name: &str) -> (path: PathBuf) {
    dir.join(name)
}

/// What the platform's answer means: its directories, or that there is no
/// place for the preference file where it knows none.
pub fn dirs_or_no_path(found: Option<ProjectDirs>) -> (dirs: Result<ProjectDirs, PreferenceError>)
    ensures
        match found {
            Some(known) => dirs == Ok::<ProjectDirs, PreferenceError>(known),
            None => dirs == Err::<ProjectDirs, PreferenceError>(PreferenceError::NoPath),
        },
{
    match found {
        Some(known) => Ok(known),
        None => Err(PreferenceError::NoPath),
    }
}

/// The directories of this program, where the platform knows any. Whether
/// it does depends on the machine and on the environment: the platform is
/// asked for the project `sir` of the organization `chronophylos`, and
/// [`dirs_or_no_path`] says what each of its answers gives.
pub fn get_proj_dirs() -> (dirs: Result<ProjectDirs, PreferenceError>)
    ensures
        dirs matches Err(why) ==> why is NoPath,
{
    dirs_or_no_path(project_dirs_from("com", "chronophylos", "sir"))
}

/// The path of the preference file among the given directories.
pub fn preferences_path_in(dirs: Result<ProjectDirs, PreferenceError>) -> (path: Result<
    PathBuf,
    PreferenceError,
>)
    ensures
        path is Ok <==> dirs is Ok,
        path matches Err(why) ==> dirs == Err::<ProjectDirs, PreferenceError>(why),
{
    match dirs {
        Ok(dirs) => Ok(path_join(&config_dir(&dirs), PREFERENCES_FILE)),
        Err(why) => Err(why),
    }
}

/// The path of the preference file: the file [`PREFERENCES_FILE`] in the
/// configuration directory of this program. There is a path exactly where
/// the platform knows the program's directories, which depends on the
/// machine and on the environment; [`preferences_path_in`] says what each
/// answer gives.
pub fn get_preferences_path() -> (path: Result<PathBuf, PreferenceError>)
    ensures
        path matches Err(why) ==> why is NoPath,
{
    preferences_path_in(get_proj_dirs())
}

} // verus!
