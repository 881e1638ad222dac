use std::cell::RefCell;
use std::collections::HashMap;

use sync_server::model::{ChangeType, FileData, FileDefinition, FileRepositoryState, RevisionHistory, FileChange};
use sync_server::io_manager::IOManager;
use sync_server::repository::{FileRepository, RepoError};

struct MemoryStore {
    blobs: RefCell<HashMap<String, Vec<u8>>>,
}

impl MemoryStore {
    fn new() -> Self {
        MemoryStore { blobs: RefCell::new(HashMap::new()) }
    }
}

impl IOManager for MemoryStore {
    fn get_file_content(&self, file: &FileDefinition) -> Result<Vec<u8>, String> {
        let id = file.id.clone().unwrap();
        self.blobs.borrow().get(&id).cloned().ok_or("File not found.".to_string())
    }
    fn store_file_content(&self, file: &FileData) -> Result<(), String> {
        let id = file.definition.id.clone().unwrap();
        self.blobs.borrow_mut().insert(id, file.content.clone());
        Ok(())
    }
    fn create_empty(&self, file: &FileDefinition) -> Result<bool, String> {
        self.blobs.borrow_mut().insert(file.id.clone().unwrap(), Vec::new());
        Ok(true)
    }
    fn delete_file(&self, file_def: &FileDefinition) -> Result<bool, String> {
        match self.blobs.borrow_mut().remove(file_def.id.as_ref().unwrap()) {
            Some(_) => Ok(true),
            None => Err("missing".to_string()),
        }
    }
}

struct BrokenStore;

impl IOManager for BrokenStore {
    fn get_file_content(&self, _file: &FileDefinition) -> Result<Vec<u8>, String> {
        Err("disk".to_string())
    }
    fn store_file_content(&self, _file: &FileData) -> Result<(), String> {
        Err("disk".to_string())
    }
    fn create_empty(&self, _file: &FileDefinition) -> Result<bool, String> {
        Err("disk".to_string())
    }
    fn delete_file(&self, _file_def: &FileDefinition) -> Result<bool, String> {
        Err("disk".to_string())
    }
}

fn proposal(name: &str, path: &str) -> FileDefinition {
    FileDefinition {
        name: name.to_string(),
        path: path.to_string(),
        id: None,
        size: None,
        checksum: None,
        last_update: None,
    }
}

#[test]
fn create_empty_file_in_repository() {
    let store = MemoryStore::new();
    let mut repository = FileRepository::new();
    let id = repository.create_empty(&store, &proposal("test_file.txt", "test_dir")).unwrap();
    assert!(repository.exists_id(&id));
    assert_eq!(id.len(), 16);
    let def = repository.get_definition(&id).unwrap();
    assert_eq!(def.size, Some(0));
    assert_eq!(def.checksum, None);
    assert_eq!(repository.get_revision(), 1);
    assert!(store.blobs.borrow().contains_key(&id));
}

#[test]
fn create_with_existing_name_and_path_fails() {
    let store = MemoryStore::new();
    let mut repository = FileRepository::new();
    repository.create_empty(&store, &proposal("a.txt", "/")).unwrap();
    let r = repository.create_empty(&store, &proposal("a.txt", "/"));
    assert!(matches!(r, Err(RepoError::AlreadyExists)));
    assert_eq!(repository.get_revision(), 1);
    assert_eq!(repository.get_all_entries().len(), 1);
    let other_path = repository.create_empty(&store, &proposal("a.txt", "/docs"));
    assert!(other_path.is_ok());
    let other_case = repository.create_empty(&store, &proposal("A.txt", "/"));
    assert!(other_case.is_ok());
    assert_eq!(repository.get_revision(), 3);
}

#[test]
fn create_with_taken_id_fails() {
    let store = MemoryStore::new();
    let mut repository = FileRepository::new();
    repository.create_empty_with_id(&store, &proposal("a.txt", "/"), "X".to_string()).unwrap();
    let r = repository.create_empty_with_id(&store, &proposal("b.txt", "/"), "X".to_string());
    assert!(matches!(r, Err(RepoError::AlreadyExists)));
    assert_eq!(repository.get_revision(), 1);
}

#[test]
fn create_with_empty_name_is_invalid() {
    let store = MemoryStore::new();
    let mut repository = FileRepository::new();
    assert!(matches!(repository.create_empty(&store, &proposal("", "/")), Err(RepoError::InvalidInput)));
    assert!(matches!(repository.create_empty(&store, &proposal("a", "")), Err(RepoError::InvalidInput)));
    assert_eq!(repository.get_revision(), 0);
}

#[test]
fn create_with_failing_store_changes_nothing() {
    let mut repository = FileRepository::new();
    let r = repository.create_empty(&BrokenStore, &proposal("a.txt", "/"));
    assert!(matches!(r, Err(RepoError::IOError(_))));
    assert_eq!(repository.get_revision(), 0);
    assert!(repository.get_all_entries().is_empty());
}

#[test]
fn update_file_in_repository() {
    let store = MemoryStore::new();
    let mut repository = FileRepository::new();
    let id = repository.create_empty(&store, &proposal("test_file.txt", "test_dir")).unwrap();
    let def = repository.get_definition(&id).unwrap();
    let data = FileData::new(def, b"updated content".to_vec());
    assert!(matches!(repository.update(&store, &data, 1000), Ok(true)));
    let updated = repository.get_definition(&id).unwrap();
    assert_eq!(updated.size, Some(15));
    assert_eq!(updated.checksum, Some(sync_server::util::Util::checksum(&data.content)));
    assert_eq!(updated.last_update, Some(1000));
    assert_eq!(updated.name, "test_file.txt");
    assert_eq!(repository.get_revision(), 2);
    let read = repository.get_file_data(&store, &id).unwrap();
    assert_eq!(read.content, b"updated content".to_vec());
    assert_eq!(read.definition.size, Some(15));
}

#[test]
fn update_without_id_is_invalid() {
    let store = MemoryStore::new();
    let mut repository = FileRepository::new();
    let data = FileData::new(proposal("a.txt", "/"), b"x".to_vec());
    assert!(matches!(repository.update(&store, &data, 1), Err(RepoError::InvalidInput)));
    assert_eq!(repository.get_revision(), 0);
}

#[test]
fn update_unknown_id_is_not_found() {
    let store = MemoryStore::new();
    let mut repository = FileRepository::new();
    let def = FileDefinition::new("nope".to_string(), "a.txt".to_string(), "/".to_string());
    let data = FileData::new(def, b"x".to_vec());
    assert!(matches!(repository.update(&store, &data, 1), Err(RepoError::NotFound)));
    assert_eq!(repository.get_revision(), 0);
}

#[test]
fn update_with_failing_store_changes_nothing() {
    let store = MemoryStore::new();
    let mut repository = FileRepository::new();
    let id = repository.create_empty(&store, &proposal("a.txt", "/")).unwrap();
    let def = repository.get_definition(&id).unwrap();
    let data = FileData::new(def, b"x".to_vec());
    assert!(matches!(repository.update(&BrokenStore, &data, 1), Err(RepoError::IOError(_))));
    assert_eq!(repository.get_revision(), 1);
    assert_eq!(repository.get_definition(&id).unwrap().size, Some(0));
}

#[test]
fn delete_file_in_repository() {
    let store = MemoryStore::new();
    let mut repository = FileRepository::new();
    let created_id = repository.create_empty(&store, &proposal("test_file.txt", "test_dir")).unwrap();
    let result = repository.delete(&store, &created_id);
    assert!(result.is_ok());
    assert_eq!(result.unwrap().name, "test_file.txt");
    assert!(!repository.exists_id(&created_id));
    assert!(repository.get_all_entries().is_empty());
    assert_eq!(repository.get_revision(), 2);
    assert_eq!(repository.state().history.revisions[1].change, ChangeType::Delete);
}

#[test]
fn delete_unknown_id_is_not_found() {
    let store = MemoryStore::new();
    let mut repository = FileRepository::new();
    repository.create_empty(&store, &proposal("a.txt", "/")).unwrap();
    assert!(matches!(repository.delete(&store, "missing"), Err(RepoError::NotFound)));
    assert_eq!(repository.get_revision(), 1);
}

#[test]
fn read_unknown_id_is_not_found() {
    let store = MemoryStore::new();
    let repository = FileRepository::new();
    assert!(matches!(repository.get_file_data(&store, "missing"), Err(RepoError::NotFound)));
}

#[test]
fn read_with_failing_store_is_io_error() {
    let store = MemoryStore::new();
    let mut repository = FileRepository::new();
    let id = repository.create_empty(&store, &proposal("a.txt", "/")).unwrap();
    assert!(matches!(repository.get_file_data(&BrokenStore, &id), Err(RepoError::IOError(_))));
}

#[test]
fn history_records_each_mutation() {
    let store = MemoryStore::new();
    let mut repository = FileRepository::new();
    let id = repository.create_empty(&store, &proposal("a.txt", "/")).unwrap();
    let def = repository.get_definition(&id).unwrap();
    repository.update(&store, &FileData::new(def, b"hello".to_vec()), 5).unwrap();
    let state = repository.state();
    assert_eq!(state.current_revision, 2);
    assert_eq!(state.history.revisions.len(), 2);
    assert_eq!(state.history.revisions[0].change, ChangeType::Create);
    assert_eq!(state.history.revisions[1].change, ChangeType::Update);
    assert_eq!(state.history.revisions[1].file.size, Some(5));
}

#[test]
fn exists_named_matches_exactly() {
    let store = MemoryStore::new();
    let mut repository = FileRepository::new();
    repository.create_empty(&store, &proposal("a.txt", "/")).unwrap();
    assert!(repository.exists_named(&proposal("a.txt", "/")));
    assert!(!repository.exists_named(&proposal("a.txt", "/x")));
}

#[test]
fn restore_checks_the_state() {
    let def = FileDefinition::new("X".to_string(), "a.txt".to_string(), "/".to_string());
    let state = FileRepositoryState {
        current_revision: 1,
        history: RevisionHistory { revisions: vec![FileChange::new(def.duplicate(), ChangeType::Create)] },
    };
    let repository = FileRepository::restore(state, vec![def.duplicate()]).unwrap();
    assert_eq!(repository.get_revision(), 1);
    assert!(repository.exists_id("X"));

    let bad_counter = FileRepositoryState { current_revision: 3, history: RevisionHistory { revisions: Vec::new() } };
    assert!(matches!(FileRepository::restore(bad_counter, Vec::new()), Err(RepoError::SerializationError)));

    let empty = FileRepositoryState { current_revision: 0, history: RevisionHistory { revisions: Vec::new() } };
    let twice = vec![def.duplicate(), def.duplicate()];
    assert!(matches!(FileRepository::restore(empty, twice), Err(RepoError::SerializationError)));
}

#[test]
fn save_paths_are_under_base() {
    assert_eq!(FileRepository::get_save_state_path(), "storage/.sync-state");
    assert_eq!(FileRepository::get_save_contents_path(), "storage/.sync-contents");
}

#[test]
fn finish_create_follows_the_store_answer() {
    let mut repository = FileRepository::new();
    let def = FileDefinition::new("X".to_string(), "a.txt".to_string(), "/".to_string());
    let r = repository.finish_create(def.duplicate(), Err("disk full".to_string()));
    assert!(matches!(r, Err(RepoError::IOError(ref m)) if m == "disk full"));
    assert_eq!(repository.get_revision(), 0);
    assert!(repository.get_all_entries().is_empty());
    let r = repository.finish_create(def, Ok(true));
    assert_eq!(r.unwrap(), "X");
    assert_eq!(repository.get_revision(), 1);
    assert!(repository.exists_id("X"));
}

#[test]
fn finish_update_follows_the_store_answer() {
    let store = MemoryStore::new();
    let mut repository = FileRepository::new();
    let id = repository.create_empty(&store, &proposal("a.txt", "/")).unwrap();
    let data = FileData::new(repository.get_definition(&id).unwrap(), b"hello".to_vec());
    let r = repository.finish_update(0, &data, 42, Err("denied".to_string()));
    assert!(matches!(r, Err(RepoError::IOError(ref m)) if m == "denied"));
    assert_eq!(repository.get_revision(), 1);
    assert_eq!(repository.get_definition(&id).unwrap().size, Some(0));
    assert!(matches!(repository.finish_update(0, &data, 42, Ok(())), Ok(true)));
    let def = repository.get_definition(&id).unwrap();
    assert_eq!(def.size, Some(5));
    assert_eq!(def.checksum, Some("5d41402abc4b2a76b9719d911017c592".to_string()));
    assert_eq!(def.last_update, Some(42));
    assert_eq!(repository.get_revision(), 2);
}

#[test]
fn finish_delete_follows_the_store_answer() {
    let store = MemoryStore::new();
    let mut repository = FileRepository::new();
    let id = repository.create_empty(&store, &proposal("a.txt", "/")).unwrap();
    let r = repository.finish_delete(0, Err("busy".to_string()));
    assert!(matches!(r, Err(RepoError::IOError(ref m)) if m == "busy"));
    assert!(repository.exists_id(&id));
    assert_eq!(repository.get_revision(), 1);
    let removed = repository.finish_delete(0, Ok(true)).unwrap();
    assert_eq!(removed.id, Some(id.clone()));
    assert!(!repository.exists_id(&id));
    assert_eq!(repository.get_revision(), 2);
}

#[test]
fn finish_read_pairs_definition_and_content() {
    let def = FileDefinition::new("X".to_string(), "a.txt".to_string(), "/".to_string());
    let data = FileRepository::finish_read(def.duplicate(), Ok(b"abc".to_vec())).unwrap();
    assert_eq!(data.content, b"abc".to_vec());
    assert_eq!(data.definition.id, Some("X".to_string()));
    let err = FileRepository::finish_read(def, Err("gone".to_string()));
    assert!(matches!(err, Err(RepoError::IOError(ref m)) if m == "gone"));
}
