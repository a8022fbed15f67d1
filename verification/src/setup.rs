//! Where the vault lies.

use vstd::prelude::*;

verus! {

/// The name of the vault's directory in the user's home directory.
pub const VAULT_DIR: &'static str = ".knot_vault";

/// The name of the directory in the vault that shows it to be a repository.
pub const REPOSITORY_DIR: &'static str = ".git";

/// Why the vault could not be located.
#[derive(Clone, Copy, Debug, PartialEq, Eq, Structural)]
pub enum VaultError {
    /// The user has no home directory.
    HomeNotFound,
}

impl VaultError {
    /// The error in words.
    pub fn message(&self) -> (text: &'static str)
        ensures
            text@ == "Home dir not found"@,
    {
        match self {
            VaultError::HomeNotFound => "Home dir not found",
        }
    }
}

/// The components of the path of the vault's root, given the user's home
/// directory: the vault is the directory `VAULT_DIR` in it.
pub fn vault_root(home: Option<String>) -> (root: Result<Vec<String>, VaultError>)
    ensures
        match home {
            Some(dir) => root matches Ok(path) && path.deep_view() == seq![dir@, VAULT_DIR@],
            None => root == Err::<Vec<String>, VaultError>(VaultError::HomeNotFound),
        },
{
    match home {
        Some(dir) => {
            let mut path: Vec<String> = Vec::new();
            let ghost name = dir@;
            path.push(dir);
            path.push(VAULT_DIR.to_owned());
            assert(path.deep_view() =~= seq![name, VAULT_DIR@]);
            Ok(path)
        },
        None => Err(VaultError::HomeNotFound),
    }
}

/// The components of the path whose presence shows the vault at `root` to
/// be a repository.
pub fn repository_marker(root: &Vec<String>) -> (path: Vec<String>)
    ensures
        path.deep_view() == root.deep_view().push(REPOSITORY_DIR@),
{
    let mut path = root.clone();
    path.push(REPOSITORY_DIR.to_owned());
    assert(path.deep_view() =~= root.deep_view().push(REPOSITORY_DIR@));
    path
}

} // verus!
