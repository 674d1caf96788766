use vstd::prelude::*;

verus! {

/// Where to install, as a directory or as a place below one. Joining the
/// parts is left to the caller, who knows the platform's separator.
#[derive(Clone, Debug, PartialEq, Eq)]
pub enum InstallPath {
    /// This directory itself.
    Exact(String),
    /// The directory `bin` below this one.
    BinUnder(String),
    /// The directory `.cargo/bin` below this one.
    CargoBinUnder(String),
}

/// What the resolver is told of the world outside.
#[derive(Clone, Debug)]
pub struct Surroundings {
    /// The install-root variable, `CARGO_INSTALL_ROOT`, where it is set.
    pub install_root: Option<String>,
    /// The home-directory variable of cargo, `CARGO_HOME`, where it is set.
    pub cargo_home: Option<String>,
    /// The user's home directory, where it is known.
    pub home: Option<String>,
    /// Whether `.cargo/bin` below the user's home directory exists.
    pub home_cargo_bin_exists: bool,
    /// The per-user directory for executables that the system provides.
    pub executable_dir: Option<String>,
}

/// The install path by priority: the explicit override; `bin` below the
/// install root; `bin` below cargo's home; `.cargo/bin` below the user's
/// home where that directory exists; the system's directory for
/// executables; else nothing.
pub open spec fn install_path(given: Option<String>, around: Surroundings) -> Option<InstallPath> {
    if let Some(path) = given {
        Some(InstallPath::Exact(path))
    } else if let Some(root) = around.install_root {
        Some(InstallPath::BinUnder(root))
    } else if let Some(cargo_home) = around.cargo_home {
        Some(InstallPath::BinUnder(cargo_home))
    } else if around.home is Some && around.home_cargo_bin_exists {
        Some(InstallPath::CargoBinUnder(around.home->0))
    } else if let Some(dir) = around.executable_dir {
        Some(InstallPath::Exact(dir))
    } else {
        None
    }
}

/// Resolves the install path from the explicit override and the
/// surroundings, by the priority of `install_path`. It changes nothing.
pub fn get_install_path(install_path: Option<String>, around: Surroundings) -> (resolved: Option<
    InstallPath,
>)
    ensures
        resolved == self::install_path(install_path, around),
{
    if let Some(path) = install_path {
        return Some(InstallPath::Exact(path));
    }
    if let Some(root) = around.install_root {
        return Some(InstallPath::BinUnder(root));
    }
    if let Some(cargo_home) = around.cargo_home {
        return Some(InstallPath::BinUnder(cargo_home));
    }
    if around.home_cargo_bin_exists {
        if let Some(home) = around.home {
            return Some(InstallPath::CargoBinUnder(home));
        }
    }
    match around.executable_dir {
        Some(dir) => Some(InstallPath::Exact(dir)),
        None => None,
    }
}

} // verus!
