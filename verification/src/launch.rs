//! What the program does with its command line.
use vstd::prelude::*;

use crate::text::{join3, same_text};

verus! {

/// What is known of the file that the command line names.
#[derive(Debug)]
pub struct PackageFile {
    pub exists: bool,
    /// The extension of its name, if it has one.
    pub extension: Option<String>,
}

/// What the program is to do.
#[derive(Debug, Clone, Copy, PartialEq, Eq, Structural)]
pub enum Launch {
    /// Show the user interface for the package file.
    Ui,
    /// Serve as the backend.
    Backend,
    /// Say that the package file does not exist, and fail.
    NoSuchPackage,
    /// Say how the program is used, and fail.
    Usage,
}

/// What the program is to do: a package file takes precedence over the backend, and must exist
/// and be named `.deb`.
pub open spec fn launch_for(package: Option<PackageFile>, backend: bool) -> Launch {
    match package {
        Some(file) => if !file.exists {
            Launch::NoSuchPackage
        } else if file.extension is Some && (file.extension->0)@ == "deb"@ {
            Launch::Ui
        } else {
            Launch::Usage
        },
        None => if backend {
            Launch::Backend
        } else {
            Launch::Usage
        },
    }
}

/// Decides what the program is to do.
pub fn choose_launch(package: &Option<PackageFile>, backend: bool) -> (launch: Launch)
    ensures
        launch == launch_for(*package, backend),
{
    match package {
        Some(file) => {
            if !file.exists {
                return Launch::NoSuchPackage;
            }
            match &file.extension {
                Some(extension) => if same_text(extension.as_str(), "deb") {
                    Launch::Ui
                } else {
                    Launch::Usage
                },
                None => Launch::Usage,
            }
        },
        None => if backend {
            Launch::Backend
        } else {
            Launch::Usage
        },
    }
}

/// Says how the program is used.
pub fn usage(program: &str) -> (text: String)
    ensures
        text@ == "Usage: "@ + program@ + " /path/to/package.deb"@,
{
    join3("Usage: ", program, " /path/to/package.deb")
}

/// A package file decides alone: one that does not exist is reported, and one that exists is shown
/// if and only if its extension is `deb`, in that spelling. Without one, the program serves as the
/// backend if and only if it was asked to.
pub proof fn law_launch(file: PackageFile, backend: bool)
    ensures
        launch_for(Some(file), backend) == launch_for(Some(file), !backend),
        launch_for(Some(file), backend) == Launch::NoSuchPackage <==> !file.exists,
        launch_for(Some(file), backend) == Launch::Ui <==> file.exists && (file.extension matches Some(
            extension,
        ) && extension@ == seq!['d', 'e', 'b']),
        launch_for(Some(file), backend) != Launch::Backend,
        launch_for(None, true) == Launch::Backend,
        launch_for(None, false) == Launch::Usage,
{
    reveal_strlit("deb");
    assert("deb"@ =~= seq!['d', 'e', 'b']);
}

} // verus!
