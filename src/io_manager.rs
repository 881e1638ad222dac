use vstd::prelude::*;
use crate::model::{FileData, FileDefinition};

verus! {

/// Byte storage for file contents, keyed by file id.
pub trait IOManager {
    fn get_file_content(&self, file: &FileDefinition) -> Result<Vec<u8>, String>;

    fn store_file_content(&self, file: &FileData) -> Result<(), String>;

    fn create_empty(&self, file: &FileDefinition) -> Result<bool, String>;

    fn delete_file(&self, file_def: &FileDefinition) -> Result<bool, String>;
}

} // verus!
