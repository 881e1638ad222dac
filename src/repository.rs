use vstd::prelude::*;
use vstd::string::StringExecFns;
use crate::model::{copy_opt_str, opt_str_eq, FileDefinition, FileDefinitionModel, FileChange, FileChangeModel, ChangeType, FileData, FileRepositoryState, RevisionHistory, changes_view};
use crate::util::{Util, BASE_PATH, md5_hex};
use crate::io_manager::IOManager;

verus! {

/// Failures of repository operations.
#[derive(Debug, Clone)]
pub enum RepoError {
    /// The id is unknown.
    NotFound,
    /// Another file has the same name and path (or the id is taken).
    AlreadyExists,
    /// The definition is incomplete.
    InvalidInput,
    /// The content store failed, with its message.
    IOError(String),
    /// Persisted state could not be read back.
    SerializationError,
}

/// Abstract sequence of a list of definitions.
pub open spec fn defs_view(v: Seq<FileDefinition>) -> Seq<FileDefinitionModel> {
    v.map_values(|d: FileDefinition| d@)
}

/// Some entry carries this id.
pub open spec fn has_id(s: Seq<FileDefinitionModel>, id: Seq<char>) -> bool {
    exists|i: int| 0 <= i < s.len() && #[trigger] s[i].id == Some(id)
}

/// Position of the entry with this id.
pub open spec fn index_of_id(s: Seq<FileDefinitionModel>, id: Seq<char>) -> int {
    choose|i: int| 0 <= i < s.len() && #[trigger] s[i].id == Some(id)
}

/// Some entry has this name and path.
pub open spec fn has_named(s: Seq<FileDefinitionModel>, name: Seq<char>, path: Seq<char>) -> bool {
    exists|i: int| 0 <= i < s.len() && #[trigger] s[i].name == name && s[i].path == path
}

/// Every entry has an id, and no two share an id or a name and path.
pub open spec fn entries_wf(s: Seq<FileDefinitionModel>) -> bool {
    &&& forall|i: int| 0 <= i < s.len() ==> (#[trigger] s[i]).id is Some
    &&& forall|i: int, j: int|
        0 <= i < s.len() && 0 <= j < s.len() && i != j ==> #[trigger] s[i].id != #[trigger] s[j].id
    &&& forall|i: int, j: int|
        0 <= i < s.len() && 0 <= j < s.len() && i != j ==> !(#[trigger] s[i].name == #[trigger] s[j].name
            && s[i].path == s[j].path)
}

/// In a well-formed index, the entry found with an id is the one `index_of_id` names.
pub proof fn lemma_index_of_id(s: Seq<FileDefinitionModel>, id: Seq<char>, i: int)
    requires
        entries_wf(s),
        0 <= i < s.len(),
        s[i].id == Some(id),
    ensures
        index_of_id(s, id) == i,
        has_id(s, id),
{
    let j = index_of_id(s, id);
    assert(0 <= j < s.len() && s[j].id == Some(id));
}

/// Definition that a creation enters into the index.
pub open spec fn created_def(name: Seq<char>, path: Seq<char>, id: Seq<char>) -> FileDefinitionModel {
    FileDefinitionModel {
        name,
        path,
        id: Some(id),
        size: Some(0u64),
        checksum: None,
        last_update: None,
    }
}

/// Definition after its content was replaced by `content` at time `now`.
pub open spec fn updated_def(d: FileDefinitionModel, content: Seq<u8>, now: u64) -> FileDefinitionModel {
    FileDefinitionModel {
        size: Some(content.len() as u64),
        checksum: Some(md5_hex(content)),
        last_update: Some(now),
        ..d
    }
}

/// Checks that every definition has an id and that no two share an id or a
/// name and path.
pub fn entries_valid(contents: &Vec<FileDefinition>) -> (r: bool)
    ensures
        r == entries_wf(defs_view(contents@)),
{
    let ghost s = defs_view(contents@);
    let mut a: usize = 0;
    while a < contents.len()
        invariant
            s == defs_view(contents@),
            a <= s.len(),
            forall|i: int| 0 <= i < a ==> (#[trigger] s[i]).id is Some,
            forall|i: int, j: int| 0 <= i < a && 0 <= j < a && i != j ==> #[trigger] s[i].id != #[trigger] s[j].id,
            forall|i: int, j: int| 0 <= i < a && 0 <= j < a && i != j ==> !(#[trigger] s[i].name == #[trigger] s[j].name
                && s[i].path == s[j].path),
        decreases s.len() - a,
    {
        if contents[a].id.is_none() {
            assert(s[a as int].id is None);
            return false;
        }
        let mut b: usize = 0;
        while b < a
            invariant
                s == defs_view(contents@),
                a < s.len(),
                b <= a,
                forall|j: int| 0 <= j < b ==> s[a as int].id != #[trigger] s[j].id,
                forall|j: int| 0 <= j < b ==> !(s[a as int].name == #[trigger] s[j].name && s[a as int].path == s[j].path),
            decreases a - b,
        {
            if opt_str_eq(&contents[a].id, &contents[b].id) {
                assert(s[a as int].id == s[b as int].id);
                return false;
            }
            if contents[a].name == contents[b].name && contents[a].path == contents[b].path {
                assert(s[a as int].name == s[b as int].name && s[a as int].path == s[b as int].path);
                return false;
            }
            b = b + 1;
        }
        a = a + 1;
    }
    true
}

/// Owner of the current file definitions, the revision counter and the history.
pub struct FileRepository {
    pub(crate) state: FileRepositoryState,
    pub(crate) contents: Vec<FileDefinition>,
}

impl FileRepository {
    /// Current definitions, in index order.
    pub open(crate) spec fn entries(&self) -> Seq<FileDefinitionModel> {
        defs_view(self.contents@)
    }

    /// Recorded changes, oldest first.
    pub open(crate) spec fn history(&self) -> Seq<FileChangeModel> {
        changes_view(self.state.history.revisions@)
    }

    pub open(crate) spec fn revision(&self) -> u64 {
        self.state.current_revision
    }

    pub open(crate) spec fn wf(&self) -> bool {
        &&& self.state.wf()
        &&& entries_wf(self.entries())
    }

    /// An empty repository at revision zero.
    pub fn new() -> (r: Self)
        ensures
            r.wf(),
            r.revision() == 0,
            r.entries().len() == 0,
            r.history().len() == 0,
    {
        FileRepository {
            state: FileRepositoryState {
                current_revision: 0,
                history: RevisionHistory { revisions: Vec::new() },
            },
            contents: Vec::new(),
        }
    }

    pub(crate) fn find_index(&self, id: &str) -> (r: Option<usize>)
        requires
            self.wf(),
        ensures
            r is None <==> !has_id(self.entries(), id@),
            r matches Some(i) ==> i < self.entries().len() && i == index_of_id(self.entries(), id@)
                && self.entries()[i as int].id == Some(id@),
    {
        let key = id.to_owned();
        let mut i: usize = 0;
        while i < self.contents.len()
            invariant
                self.wf(),
                i <= self.contents@.len(),
                key@ == id@,
                forall|k: int| 0 <= k < i ==> self.entries()[k].id != Some(id@),
            decreases self.contents@.len() - i,
        {
            let found = match &self.contents[i].id {
                Some(s) => *s == key,
                None => false,
            };
            if found {
                proof {
                    lemma_index_of_id(self.entries(), id@, i as int);
                }
                return Some(i);
            }
            i = i + 1;
        }
        None
    }

    pub fn get_revision(&self) -> (r: u64)
        ensures
            r == self.revision(),
    {
        self.state.current_revision
    }

    /// All current definitions.
    pub fn get_all_entries(&self) -> (r: &Vec<FileDefinition>)
        ensures
            defs_view(r@) == self.entries(),
    {
        &self.contents
    }

    pub fn exists_id(&self, id: &str) -> (r: bool)
        requires
            self.wf(),
        ensures
            r == has_id(self.entries(), id@),
    {
        self.find_index(id).is_some()
    }

    /// Whether an entry has the name and path of `file_def` (exact match).
    pub fn exists_named(&self, file_def: &FileDefinition) -> (r: bool)
        ensures
            r == has_named(self.entries(), file_def.name@, file_def.path@),
    {
        let mut i: usize = 0;
        while i < self.contents.len()
            invariant
                i <= self.contents@.len(),
                forall|k: int| 0 <= k < i ==> !(#[trigger] self.entries()[k].name == file_def.name@
                    && self.entries()[k].path == file_def.path@),
            decreases self.contents@.len() - i,
        {
            let f = &self.contents[i];
            if f.name == file_def.name && f.path == file_def.path {
                assert(self.entries()[i as int].name == file_def.name@);
                return true;
            }
            i = i + 1;
        }
        false
    }

    /// A copy of the current definition with this id.
    pub fn get_definition(&self, id: &str) -> (r: Option<FileDefinition>)
        requires
            self.wf(),
        ensures
            r is Some <==> has_id(self.entries(), id@),
            r matches Some(d) ==> d@ == self.entries()[index_of_id(self.entries(), id@)],
    {
        match self.find_index(id) {
            Some(i) => Some(self.contents[i].duplicate()),
            None => None,
        }
    }

    /// Records one mutation in the history.
    fn add_change(&mut self, change: FileChange)
        requires
            old(self).state.wf(),
            old(self).revision() < u64::MAX,
        ensures
            final(self).state.wf(),
            final(self).contents == old(self).contents,
            final(self).revision() == old(self).revision() + 1,
            final(self).history() == old(self).history().push(change@),
    {
        self.state.add_revision(change);
        proof {
            assert(self.history() =~= old(self).history().push(change@));
        }
    }

    /// Enters an empty file named as `file_def` under the id `new_id`, after
    /// the content store created its blob.
    pub fn create_empty_with_id<M: IOManager>(&mut self, io: &M, file_def: &FileDefinition, new_id: String) -> (r: Result<String, RepoError>)
        requires
            old(self).wf(),
            old(self).revision() < u64::MAX,
        ensures
            final(self).wf(),
            file_def.name@.len() == 0 || file_def.path@.len() == 0 ==> r == Err::<String, RepoError>(RepoError::InvalidInput),
            file_def.name@.len() > 0 && file_def.path@.len() > 0 && (has_named(old(self).entries(), file_def.name@, file_def.path@)
                || has_id(old(self).entries(), new_id@)) ==> r == Err::<String, RepoError>(RepoError::AlreadyExists),
            file_def.name@.len() > 0 && file_def.path@.len() > 0 && !has_named(old(self).entries(), file_def.name@, file_def.path@)
                && !has_id(old(self).entries(), new_id@) ==> (r is Ok || r matches Err(RepoError::IOError(_))),
            r is Err ==> *final(self) == *old(self),
            r is Ok ==> r->Ok_0@ == new_id@ && {
                let d = created_def(file_def.name@, file_def.path@, new_id@);
                &&& has_id(final(self).entries(), new_id@)
                &&& final(self).entries()[index_of_id(final(self).entries(), new_id@)] == d
                &&& final(self).entries() == old(self).entries().push(d)
                &&& final(self).history() == old(self).history().push(FileChangeModel { file: d, change: ChangeType::Create })
                &&& final(self).revision() == old(self).revision() + 1
            },
    {
        if file_def.name.as_str().is_empty() || file_def.path.as_str().is_empty() {
            return Err(RepoError::InvalidInput);
        }
        if self.exists_named(file_def) || self.exists_id(new_id.as_str()) {
            return Err(RepoError::AlreadyExists);
        }
        let definition = FileDefinition::new(new_id.clone(), file_def.name.clone(), file_def.path.clone());
        let stored = io.create_empty(&definition);
        self.finish_create(definition, stored)
    }

    /// Completes a creation once the content store answered `stored` for the
    /// blob of `definition`: on success the definition enters the index and a
    /// `Create` change is recorded.
    pub fn finish_create(&mut self, definition: FileDefinition, stored: Result<bool, String>) -> (r: Result<String, RepoError>)
        requires
            old(self).wf(),
            old(self).revision() < u64::MAX,
            definition.id is Some,
            definition@ == created_def(definition.name@, definition.path@, definition.id.unwrap()@),
            !has_id(old(self).entries(), definition.id.unwrap()@),
            !has_named(old(self).entries(), definition.name@, definition.path@),
        ensures
            final(self).wf(),
            stored matches Err(e) ==> r == Err::<String, RepoError>(RepoError::IOError(e)) && *final(self) == *old(self),
            stored is Ok ==> {
                let id = definition.id.unwrap();
                &&& r == Ok::<String, RepoError>(id)
                &&& has_id(final(self).entries(), id@)
                &&& final(self).entries()[index_of_id(final(self).entries(), id@)] == definition@
                &&& final(self).entries() == old(self).entries().push(definition@)
                &&& final(self).history() == old(self).history().push(FileChangeModel { file: definition@, change: ChangeType::Create })
                &&& final(self).revision() == old(self).revision() + 1
            },
    {
        match stored {
            Err(e) => Err(RepoError::IOError(e)),
            Ok(_) => {
                let id = definition.id.as_ref().unwrap().clone();
                let ghost d = definition@;
                self.contents.push(definition.duplicate());
                proof {
                    let s = self.entries();
                    assert(s =~= old(self).entries().push(d));
                    assert forall|i: int, j: int|
                        0 <= i < s.len() && 0 <= j < s.len() && i != j implies #[trigger] s[i].id != #[trigger] s[j].id by {
                        if i == s.len() - 1 {
                            assert(old(self).entries()[j].id != Some(id@));
                        }
                        if j == s.len() - 1 {
                            assert(old(self).entries()[i].id != Some(id@));
                        }
                    }
                    assert forall|i: int, j: int|
                        0 <= i < s.len() && 0 <= j < s.len() && i != j implies !(#[trigger] s[i].name == #[trigger] s[j].name
                            && s[i].path == s[j].path) by {
                        if i == s.len() - 1 && s[j].name == d.name {
                            assert(old(self).entries()[j].name == definition.name@);
                        }
                        if j == s.len() - 1 && s[i].name == d.name {
                            assert(old(self).entries()[i].name == definition.name@);
                        }
                    }
                }
                proof {
                    lemma_index_of_id(self.entries(), id@, self.entries().len() - 1);
                }
                self.add_change(FileChange::new(definition, ChangeType::Create));
                Ok(id)
            },
        }
    }

    /// Enters an empty file named as `file_def` under a fresh random id.
    pub fn create_empty<M: IOManager>(&mut self, io: &M, file_def: &FileDefinition) -> (r: Result<String, RepoError>)
        requires
            old(self).wf(),
            old(self).revision() < u64::MAX,
        ensures
            final(self).wf(),
            file_def.name@.len() == 0 || file_def.path@.len() == 0 ==> r == Err::<String, RepoError>(RepoError::InvalidInput),
            file_def.name@.len() > 0 && file_def.path@.len() > 0 && has_named(old(self).entries(), file_def.name@, file_def.path@)
                ==> r == Err::<String, RepoError>(RepoError::AlreadyExists),
            r is Err ==> *final(self) == *old(self),
            r matches Ok(id) ==> {
                let d = created_def(file_def.name@, file_def.path@, id@);
                &&& id@.len() == 16
                &&& !has_id(old(self).entries(), id@)
                &&& has_id(final(self).entries(), id@)
                &&& final(self).entries()[index_of_id(final(self).entries(), id@)] == d
                &&& final(self).entries() == old(self).entries().push(d)
                &&& final(self).history() == old(self).history().push(FileChangeModel { file: d, change: ChangeType::Create })
                &&& final(self).revision() == old(self).revision() + 1
            },
    {
        let new_id = Util::new_id();
        self.create_empty_with_id(io, file_def, new_id)
    }

    /// Replaces the content of the file that `file_data.definition` names by id,
    /// stamping it with the time `now` (milliseconds since the Unix epoch).
    pub fn update<M: IOManager>(&mut self, io: &M, file_data: &FileData, now: u64) -> (r: Result<bool, RepoError>)
        requires
            old(self).wf(),
            old(self).revision() < u64::MAX,
        ensures
            final(self).wf(),
            file_data.definition.id is None ==> r == Err::<bool, RepoError>(RepoError::InvalidInput),
            file_data.definition.id matches Some(id) && !has_id(old(self).entries(), id@)
                ==> r == Err::<bool, RepoError>(RepoError::NotFound),
            file_data.definition.id matches Some(id) && has_id(old(self).entries(), id@)
                ==> (r == Ok::<bool, RepoError>(true) || r matches Err(RepoError::IOError(_))),
            r is Err ==> *final(self) == *old(self),
            r is Ok ==> {
                let id = file_data.definition.id.unwrap()@;
                let i = index_of_id(old(self).entries(), id);
                let d = updated_def(old(self).entries()[i], file_data.content@, now);
                &&& has_id(final(self).entries(), id)
                &&& final(self).entries()[index_of_id(final(self).entries(), id)] == d
                &&& d.size == Some(file_data.content@.len() as u64)
                &&& d.checksum == Some(md5_hex(file_data.content@))
                &&& final(self).entries() == old(self).entries().update(i, d)
                &&& final(self).history() == old(self).history().push(FileChangeModel { file: d, change: ChangeType::Update })
                &&& final(self).revision() == old(self).revision() + 1
            },
    {
        let id = match &file_data.definition.id {
            Some(id) => id,
            None => return Err(RepoError::InvalidInput),
        };
        let i = match self.find_index(id.as_str()) {
            Some(i) => i,
            None => return Err(RepoError::NotFound),
        };
        let stored = io.store_file_content(file_data);
        let r = self.finish_update(i, file_data, now, stored);
        proof {
            if r is Ok {
                lemma_index_of_id(self.entries(), id@, i as int);
            }
        }
        r
    }

    /// Completes a content write once the content store answered `stored`:
    /// on success entry `i` takes the new size, checksum and time and an
    /// `Update` change is recorded.
    pub fn finish_update(&mut self, i: usize, file_data: &FileData, now: u64, stored: Result<(), String>) -> (r: Result<bool, RepoError>)
        requires
            old(self).wf(),
            old(self).revision() < u64::MAX,
            i < old(self).entries().len(),
        ensures
            final(self).wf(),
            stored matches Err(e) ==> r == Err::<bool, RepoError>(RepoError::IOError(e)) && *final(self) == *old(self),
            stored is Ok ==> {
                let d = updated_def(old(self).entries()[i as int], file_data.content@, now);
                &&& r == Ok::<bool, RepoError>(true)
                &&& final(self).entries() == old(self).entries().update(i as int, d)
                &&& final(self).history() == old(self).history().push(FileChangeModel { file: d, change: ChangeType::Update })
                &&& final(self).revision() == old(self).revision() + 1
            },
    {
        match stored {
            Err(e) => Err(RepoError::IOError(e)),
            Ok(_) => {
                let current = &self.contents[i];
                let updated = FileDefinition {
                    name: current.name.clone(),
                    path: current.path.clone(),
                    id: copy_opt_str(&current.id),
                    size: Some(file_data.content.len() as u64),
                    checksum: Some(Util::checksum(&file_data.content)),
                    last_update: Some(now),
                };
                let ghost d = updated@;
                assert(d == updated_def(old(self).entries()[i as int], file_data.content@, now));
                self.contents.set(i, updated.duplicate());
                proof {
                    let s = self.entries();
                    let o = old(self).entries();
                    assert(s =~= o.update(i as int, d));
                    assert forall|a: int| 0 <= a < s.len() implies s[a].id == o[a].id && s[a].name == o[a].name
                        && s[a].path == o[a].path by {}
                    assert forall|a: int, b: int|
                        0 <= a < s.len() && 0 <= b < s.len() && a != b implies #[trigger] s[a].id != #[trigger] s[b].id by {
                        assert(o[a].id != o[b].id);
                    }
                    assert forall|a: int, b: int|
                        0 <= a < s.len() && 0 <= b < s.len() && a != b implies !(#[trigger] s[a].name == #[trigger] s[b].name
                            && s[a].path == s[b].path) by {
                        assert(!(o[a].name == o[b].name && o[a].path == o[b].path));
                    }
                }
                self.add_change(FileChange::new(updated, ChangeType::Update));
                Ok(true)
            },
        }
    }

    /// The current definition with this id, with its content as the store holds it.
    pub fn get_file_data<M: IOManager>(&self, io: &M, id: &str) -> (r: Result<FileData, RepoError>)
        requires
            self.wf(),
        ensures
            !has_id(self.entries(), id@) ==> r == Err::<FileData, RepoError>(RepoError::NotFound),
            has_id(self.entries(), id@) ==> (r is Ok || r matches Err(RepoError::IOError(_))),
            r matches Ok(d) ==> d.definition@ == self.entries()[index_of_id(self.entries(), id@)],
    {
        let file_def = match self.get_definition(id) {
            Some(d) => d,
            None => return Err(RepoError::NotFound),
        };
        let read = io.get_file_content(&file_def);
        Self::finish_read(file_def, read)
    }

    /// Pairs a definition with what the content store answered for its blob.
    pub fn finish_read(definition: FileDefinition, read: Result<Vec<u8>, String>) -> (r: Result<FileData, RepoError>)
        ensures
            match read {
                Ok(content) => r is Ok && r->Ok_0.definition == definition && r->Ok_0.content == content,
                Err(e) => r == Err::<FileData, RepoError>(RepoError::IOError(e)),
            },
    {
        match read {
            Ok(content) => Ok(FileData::new(definition, content)),
            Err(e) => Err(RepoError::IOError(e)),
        }
    }

    /// Removes the file with this id, after the content store deleted its
    /// blob, and returns its last definition.
    pub fn delete<M: IOManager>(&mut self, io: &M, id: &str) -> (r: Result<FileDefinition, RepoError>)
        requires
            old(self).wf(),
            old(self).revision() < u64::MAX,
        ensures
            final(self).wf(),
            !has_id(old(self).entries(), id@) ==> r == Err::<FileDefinition, RepoError>(RepoError::NotFound),
            has_id(old(self).entries(), id@) ==> (r is Ok || r matches Err(RepoError::IOError(_))),
            r is Err ==> *final(self) == *old(self),
            r matches Ok(d) ==> {
                let i = index_of_id(old(self).entries(), id@);
                &&& d@ == old(self).entries()[i]
                &&& final(self).entries() == old(self).entries().remove(i)
                &&& !has_id(final(self).entries(), id@)
                &&& final(self).history() == old(self).history().push(FileChangeModel { file: d@, change: ChangeType::Delete })
                &&& final(self).revision() == old(self).revision() + 1
            },
    {
        let i = match self.find_index(id) {
            Some(i) => i,
            None => return Err(RepoError::NotFound),
        };
        let stored = io.delete_file(&self.contents[i]);
        self.finish_delete(i, stored)
    }

    /// Completes a deletion once the content store answered `stored` for the
    /// blob of entry `i`: on success the entry leaves the index and a `Delete`
    /// change carrying it is recorded.
    pub fn finish_delete(&mut self, i: usize, stored: Result<bool, String>) -> (r: Result<FileDefinition, RepoError>)
        requires
            old(self).wf(),
            old(self).revision() < u64::MAX,
            i < old(self).entries().len(),
        ensures
            final(self).wf(),
            stored matches Err(e) ==> r == Err::<FileDefinition, RepoError>(RepoError::IOError(e)) && *final(self) == *old(self),
            stored is Ok ==> {
                let d = old(self).entries()[i as int];
                &&& r is Ok && r->Ok_0@ == d
                &&& final(self).entries() == old(self).entries().remove(i as int)
                &&& !has_id(final(self).entries(), d.id.unwrap())
                &&& final(self).history() == old(self).history().push(FileChangeModel { file: d, change: ChangeType::Delete })
                &&& final(self).revision() == old(self).revision() + 1
            },
    {
        match stored {
            Err(e) => Err(RepoError::IOError(e)),
            Ok(_) => {
                let removed = self.contents.remove(i);
                proof {
                    let s = self.entries();
                    let o = old(self).entries();
                    assert(s =~= o.remove(i as int));
                    assert forall|a: int| 0 <= a < s.len() implies #[trigger] s[a] == o[if a < i { a } else { a + 1 }] by {}
                    assert forall|a: int, b: int|
                        0 <= a < s.len() && 0 <= b < s.len() && a != b implies #[trigger] s[a].id != #[trigger] s[b].id by {
                        let a1 = if a < i { a } else { a + 1 };
                        let b1 = if b < i { b } else { b + 1 };
                        assert(o[a1].id != o[b1].id);
                    }
                    assert forall|a: int, b: int|
                        0 <= a < s.len() && 0 <= b < s.len() && a != b implies !(#[trigger] s[a].name == #[trigger] s[b].name
                            && s[a].path == s[b].path) by {
                        let a1 = if a < i { a } else { a + 1 };
                        let b1 = if b < i { b } else { b + 1 };
                        assert(!(o[a1].name == o[b1].name && o[a1].path == o[b1].path));
                    }
                    if has_id(s, old(self).entries()[i as int].id.unwrap()) {
                        let a = choose|a: int| 0 <= a < s.len() && #[trigger] s[a].id == Some(old(self).entries()[i as int].id.unwrap());
                        let a1 = if a < i { a } else { a + 1 };
                        assert(o[a1].id == o[i as int].id);
                    }
                }
                self.add_change(FileChange::new(removed.duplicate(), ChangeType::Delete));
                Ok(removed)
            },
        }
    }

    /// Rebuilds a repository from a persisted state and index, refusing them
    /// when the counter disagrees with the history or the index is malformed.
    pub fn restore(state: FileRepositoryState, contents: Vec<FileDefinition>) -> (r: Result<Self, RepoError>)
        ensures
            state.wf() && entries_wf(defs_view(contents@)) <==> r is Ok,
            r is Err ==> r == Err::<Self, RepoError>(RepoError::SerializationError),
            r matches Ok(repo) ==> repo.wf() && repo.revision() == state.current_revision
                && repo.history() == changes_view(state.history.revisions@) && repo.entries() == defs_view(contents@),
    {
        if state.history.revisions.len() as u64 != state.current_revision || !entries_valid(&contents) {
            return Err(RepoError::SerializationError);
        }
        Ok(FileRepository { state, contents })
    }

    /// The revision counter and the history, as they are persisted.
    pub fn state(&self) -> (r: &FileRepositoryState)
        ensures
            r.current_revision == self.revision(),
            changes_view(r.history.revisions@) == self.history(),
    {
        &self.state
    }

    /// Location of the persisted revision counter and history.
    pub fn get_save_state_path() -> (r: String)
        ensures
            r@ == BASE_PATH@ + "/.sync-state"@,
    {
        String::from_str(BASE_PATH).concat("/.sync-state")
    }

    /// Location of the persisted index of definitions.
    pub fn get_save_contents_path() -> (r: String)
        ensures
            r@ == BASE_PATH@ + "/.sync-contents"@,
    {
        String::from_str(BASE_PATH).concat("/.sync-contents")
    }
}

} // verus!
