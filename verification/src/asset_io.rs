use vstd::prelude::*;

verus! {

/// The errors an asset source reports.
#[derive(Debug, PartialEq, Eq)]
pub enum AssetIoError {
    /// Nothing is found at the path.
    NotFound(String),
}

/// The kind of an entry of an asset source.
#[derive(Debug, Clone, Copy, PartialEq, Eq, Structural)]
pub enum FileType {
    Directory,
    File,
}

/// What an asset source tells of an entry.
#[derive(Debug, Clone, Copy, PartialEq, Eq, Structural)]
pub struct Metadata {
    pub file_type: FileType,
}

/// Whether `result` is a not-found error with an empty path.
pub open spec fn is_not_found_empty<T>(result: Result<T, AssetIoError>) -> bool {
    match result {
        Err(AssetIoError::NotFound(path)) => path@ == Seq::<char>::empty(),
        _ => false,
    }
}

/// An asset source for a device with no readable asset files: nothing can
/// be loaded from it, its directories are empty, and watching for changes
/// is accepted and does nothing.
pub struct NoAssetIO {}

impl NoAssetIO {
    /// Creates a new `NoAssetIO`; the root path is not used.
    pub fn new<P>(path: P) -> (io: NoAssetIO)
        ensures
            io == (NoAssetIO {}),
    {
        NoAssetIO {}
    }

    /// Loading any path fails with a not-found error for the empty path.
    pub fn load_path(&self, path: &str) -> (bytes: Result<Vec<u8>, AssetIoError>)
        ensures
            is_not_found_empty(bytes),
    {
        Err(AssetIoError::NotFound(String::new()))
    }

    /// Every directory reads as empty.
    pub fn read_directory(&self, path: &str) -> (entries: Result<Vec<String>, AssetIoError>)
        ensures
            entries matches Ok(list) && list@.len() == 0,
    {
        Ok(Vec::new())
    }

    /// Watching a path for changes is accepted and does nothing.
    pub fn watch_path_for_changes(&self, to_watch: &str, to_reload: Option<String>) -> (done: Result<
        (),
        AssetIoError,
    >)
        ensures
            done is Ok,
    {
        Ok(())
    }

    /// Watching for changes is accepted and does nothing.
    pub fn watch_for_changes(&self) -> (done: Result<(), AssetIoError>)
        ensures
            done is Ok,
    {
        Ok(())
    }

    /// Metadata of any path fails with a not-found error for the empty path.
    pub fn get_metadata(&self, path: &str) -> (metadata: Result<Metadata, AssetIoError>)
        ensures
            is_not_found_empty(metadata),
    {
        Err(AssetIoError::NotFound(String::new()))
    }
}

} // verus!
