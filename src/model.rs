use vstd::prelude::*;

verus! {

/// Abstract value of an optional string field.
pub open spec fn opt_str(o: Option<String>) -> Option<Seq<char>> {
    match o {
        Some(s) => Some(s@),
        None => None,
    }
}

/// Mathematical model of a [`FileDefinition`].
pub struct FileDefinitionModel {
    pub name: Seq<char>,
    pub path: Seq<char>,
    pub id: Option<Seq<char>>,
    pub size: Option<u64>,
    pub checksum: Option<Seq<char>>,
    pub last_update: Option<u64>,
}

/// Metadata of one logical file. `last_update` is a timestamp in milliseconds
/// since the Unix epoch.
#[derive(Clone, Debug)]
pub struct FileDefinition {
    pub name: String,
    pub path: String,
    pub id: Option<String>,
    pub size: Option<u64>,
    pub checksum: Option<String>,
    pub last_update: Option<u64>,
}

impl View for FileDefinition {
    type V = FileDefinitionModel;

    open spec fn view(&self) -> FileDefinitionModel {
        FileDefinitionModel {
            name: self.name@,
            path: self.path@,
            id: opt_str(self.id),
            size: self.size,
            checksum: opt_str(self.checksum),
            last_update: self.last_update,
        }
    }
}

/// Copies an optional string, keeping its value.
pub fn copy_opt_str(o: &Option<String>) -> (r: Option<String>)
    ensures
        r == *o,
{
    match o {
        Some(s) => Some(s.clone()),
        None => None,
    }
}

/// Compares two optional strings by their characters.
pub fn opt_str_eq(a: &Option<String>, b: &Option<String>) -> (r: bool)
    ensures
        r == (opt_str(*a) == opt_str(*b)),
{
    match (a, b) {
        (Some(x), Some(y)) => *x == *y,
        (None, None) => true,
        _ => false,
    }
}

impl FileDefinition {
    pub fn new(id: String, name: String, path: String) -> (r: Self)
        ensures
            r@ == (FileDefinitionModel {
                name: name@,
                path: path@,
                id: Some(id@),
                size: Some(0u64),
                checksum: None,
                last_update: None,
            }),
    {
        FileDefinition { name, path, id: Some(id), size: Some(0), checksum: None, last_update: None }
    }

    pub fn with_checksum(id: String, name: String, path: String, checksum: String) -> (r: Self)
        ensures
            r@ == (FileDefinitionModel {
                name: name@,
                path: path@,
                id: Some(id@),
                size: Some(0u64),
                checksum: Some(checksum@),
                last_update: None,
            }),
    {
        FileDefinition {
            name,
            path,
            id: Some(id),
            size: Some(0),
            checksum: Some(checksum),
            last_update: None,
        }
    }

    /// A definition is valid when it carries an id and non-empty name and path.
    pub open spec fn is_valid(&self) -> bool {
        &&& self.id is Some
        &&& self.name@.len() > 0
        &&& self.path@.len() > 0
    }

    pub fn validate(&self) -> (r: bool)
        ensures
            r == self.is_valid(),
    {
        self.id.is_some() && !self.name.as_str().is_empty() && !self.path.as_str().is_empty()
    }

    /// A field-by-field copy.
    pub fn duplicate(&self) -> (r: Self)
        ensures
            r == *self,
    {
        FileDefinition {
            name: self.name.clone(),
            path: self.path.clone(),
            id: copy_opt_str(&self.id),
            size: self.size,
            checksum: copy_opt_str(&self.checksum),
            last_update: self.last_update,
        }
    }
}

/// Kind of a change: the first three are mutations recorded in the history,
/// the last two are transfer directives of a patch.
#[derive(PartialEq, Eq, Structural, Clone, Copy, Debug)]
pub enum ChangeType {
    Create,
    Update,
    Delete,
    DoDownload,
    DoUpload,
}

/// Mathematical model of a [`FileChange`].
pub struct FileChangeModel {
    pub file: FileDefinitionModel,
    pub change: ChangeType,
}

#[derive(Debug)]
pub struct FileChange {
    pub file: FileDefinition,
    pub change: ChangeType,
}

impl View for FileChange {
    type V = FileChangeModel;

    open spec fn view(&self) -> FileChangeModel {
        FileChangeModel { file: self.file@, change: self.change }
    }
}

impl FileChange {
    pub fn new(file: FileDefinition, change: ChangeType) -> (r: Self)
        ensures
            r.file == file,
            r.change == change,
    {
        FileChange { file, change }
    }
}

/// The abstract sequence of a list of changes.
pub open spec fn changes_view(v: Seq<FileChange>) -> Seq<FileChangeModel> {
    v.map_values(|c: FileChange| c@)
}

/// Mathematical model of a [`ChangePatch`].
pub struct ChangePatchModel {
    pub revision: u64,
    pub changes: Seq<FileChangeModel>,
}

pub struct ChangePatch {
    pub revision: u64,
    pub changes: Vec<FileChange>,
}

impl View for ChangePatch {
    type V = ChangePatchModel;

    open spec fn view(&self) -> ChangePatchModel {
        ChangePatchModel { revision: self.revision, changes: changes_view(self.changes@) }
    }
}

impl ChangePatch {
    pub fn new(revision: u64, changes: Vec<FileChange>) -> (r: Self)
        ensures
            r.revision == revision,
            r.changes == changes,
    {
        ChangePatch { revision, changes }
    }
}

/// Append-only log of the mutations of a repository.
pub struct RevisionHistory {
    pub revisions: Vec<FileChange>,
}

/// Revision counter and history of a repository.
pub struct FileRepositoryState {
    pub current_revision: u64,
    pub history: RevisionHistory,
}

impl FileRepositoryState {
    /// The counter equals the number of recorded changes.
    pub open spec fn wf(&self) -> bool {
        self.current_revision == self.history.revisions@.len()
    }

    pub fn add_revision(&mut self, change: FileChange)
        requires
            old(self).current_revision < u64::MAX,
        ensures
            final(self).current_revision == old(self).current_revision + 1,
            final(self).history.revisions@ == old(self).history.revisions@.push(change),
    {
        self.current_revision = self.current_revision + 1;
        self.history.revisions.push(change);
    }
}

/// A definition together with its full content.
pub struct FileData {
    pub definition: FileDefinition,
    pub content: Vec<u8>,
}

impl FileData {
    pub fn new(definition: FileDefinition, content: Vec<u8>) -> (r: Self)
        ensures
            r.definition == definition,
            r.content == content,
    {
        FileData { definition, content }
    }
}

} // verus!
