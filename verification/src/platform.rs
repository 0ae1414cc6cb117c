//! Where the application keeps its files.
//!
//! An Android application has no writable installation prefix: its
//! directories are resolved inside its sandbox at runtime. Each of them can be
//! pointed elsewhere with an environment variable, for debugging without
//! rebuilding.

use vstd::prelude::*;

verus! {

/// A directory, as chosen from the candidates.
pub enum DirChoice<P> {
    /// The directory given by the environment, used as it is.
    Given(P),
    /// The directory to which the name of the wanted directory is appended.
    Under(P),
}

/// The directory where the translations are installed, given the value of the
/// environment variable that overrides it, the GLib system data directories
/// and the GLib user data directory.
///
/// Unlike the data of the user, the translations are part of the installation:
/// they are shipped as assets and unpacked into the read-only data directory
/// of the application. That is the first of the GLib system data directories,
/// which the GTK Android backend sets from the context of the application; the
/// `locale` directory is under it.
pub fn localedir_choice<P>(env_value: Option<P>, system_data_dirs: Vec<P>, user_data_dir: P) -> (choice:
    DirChoice<P>)
    ensures
        match env_value {
            Some(dir) => choice == DirChoice::Given(dir),
            None => if system_data_dirs@.len() > 0 {
                choice == DirChoice::Under(system_data_dirs@[0])
            } else {
                choice == DirChoice::Under(user_data_dir)
            },
        },
{
    match env_value {
        Some(dir) => DirChoice::Given(dir),
        None => {
            let mut dirs = system_data_dirs;
            if dirs.len() > 0 {
                DirChoice::Under(dirs.remove(0))
            } else {
                DirChoice::Under(user_data_dir)
            }
        },
    }
}

/// The writable directory for a purpose inside the sandbox of the
/// application, given the value of the environment variable that overrides it
/// and the GLib user data directory, which the GTK Android backend initializes
/// from the context of the application.
///
/// Without an override, the directory is under the user data directory.
pub fn app_dir_choice<P>(env_value: Option<P>, user_data_dir: P) -> (choice: DirChoice<P>)
    ensures
        match env_value {
            Some(dir) => choice == DirChoice::Given(dir),
            None => choice == DirChoice::Under(user_data_dir),
        },
{
    match env_value {
        Some(dir) => DirChoice::Given(dir),
        None => DirChoice::Under(user_data_dir),
    }
}

} // verus!
