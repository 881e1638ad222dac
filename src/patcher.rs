use vstd::prelude::*;
use crate::model::{
    FileDefinition, FileDefinitionModel, FileChange, FileChangeModel, ChangeType, ChangePatch,
    ChangePatchModel, changes_view, opt_str_eq,
};
use vstd::set_lib::{set_int_range, lemma_int_range, lemma_map_size, lemma_subset_equality};
use crate::repository::{FileRepository, defs_view, has_id, index_of_id, entries_wf, lemma_index_of_id};

verus! {

/// Equality of two definitions on name, path, size and checksum alone.
pub open spec fn fuzzy_eq(a: FileDefinitionModel, b: FileDefinitionModel) -> bool {
    &&& a.name == b.name
    &&& a.path == b.path
    &&& a.size == b.size
    &&& a.checksum == b.checksum
}

/// Order of optional timestamps, an absent one before any present one.
pub open spec fn stamp_le(a: Option<u64>, b: Option<u64>) -> bool {
    match (a, b) {
        (None, _) => true,
        (Some(_), None) => false,
        (Some(x), Some(y)) => x <= y,
    }
}

/// One of the first `j` client entries carries this id.
pub open spec fn seen_before(cs: Seq<FileDefinitionModel>, j: int, id: Option<Seq<char>>) -> bool {
    exists|k: int| 0 <= k < j && #[trigger] cs[k].id == id
}

/// What the client entry at `j` contributes to a patch. An entry whose id the
/// server lacks, or whose server entry an earlier client entry already matched,
/// is taken as deleted on the server when the server is ahead and as new on the
/// client otherwise; a matched entry that differs goes in the direction of the
/// more recent timestamp, the server's on a tie.
pub open spec fn client_step(
    cs: Seq<FileDefinitionModel>,
    j: int,
    server: Seq<FileDefinitionModel>,
    ahead: bool,
) -> Seq<FileChangeModel> {
    let c = cs[j];
    if !has_id(server, c.id.unwrap()) || seen_before(cs, j, c.id) {
        seq![FileChangeModel { file: c, change: if ahead { ChangeType::Delete } else { ChangeType::Create } }]
    } else {
        let s = server[index_of_id(server, c.id.unwrap())];
        if fuzzy_eq(c, s) {
            Seq::empty()
        } else if stamp_le(c.last_update, s.last_update) {
            seq![FileChangeModel { file: s, change: ChangeType::DoDownload }]
        } else {
            seq![FileChangeModel { file: c, change: ChangeType::DoUpload }]
        }
    }
}

/// Changes contributed by the first `n` client entries, in client order.
pub open spec fn client_changes(
    cs: Seq<FileDefinitionModel>,
    n: int,
    server: Seq<FileDefinitionModel>,
    ahead: bool,
) -> Seq<FileChangeModel>
    decreases n,
{
    if n <= 0 {
        Seq::empty()
    } else {
        client_changes(cs, n - 1, server, ahead) + client_step(cs, n - 1, server, ahead)
    }
}

/// Downloads of the first `n` server entries that no client entry mentions.
pub open spec fn server_only(
    server: Seq<FileDefinitionModel>,
    n: int,
    cs: Seq<FileDefinitionModel>,
) -> Seq<FileChangeModel>
    decreases n,
{
    if n <= 0 {
        Seq::empty()
    } else {
        server_only(server, n - 1, cs) + if seen_before(cs, cs.len() as int, server[n - 1].id) {
            Seq::empty()
        } else {
            seq![FileChangeModel { file: server[n - 1], change: ChangeType::DoDownload }]
        }
    }
}

/// Patch for a fresh client: every server entry is to be downloaded.
pub open spec fn initial_patch(server: Seq<FileDefinitionModel>, latest: u64) -> ChangePatchModel {
    ChangePatchModel {
        revision: latest,
        changes: server.map_values(|s: FileDefinitionModel| FileChangeModel { file: s, change: ChangeType::DoDownload }),
    }
}

/// Patch for a client at revision `rev` holding `cs`.
pub open spec fn incremental_patch(
    cs: Seq<FileDefinitionModel>,
    server: Seq<FileDefinitionModel>,
    rev: u64,
    latest: u64,
) -> ChangePatchModel {
    ChangePatchModel {
        revision: latest,
        changes: client_changes(cs, cs.len() as int, server, latest > rev)
            + server_only(server, server.len() as int, cs),
    }
}

/// Fuzzy comparison is symmetric, and changing the id or the timestamp of
/// either side does not change its outcome.
pub proof fn lemma_fuzzy_compare_laws(
    a: FileDefinitionModel,
    b: FileDefinitionModel,
    id_a: Option<Seq<char>>,
    id_b: Option<Seq<char>>,
    time_a: Option<u64>,
    time_b: Option<u64>,
)
    ensures
        fuzzy_eq(a, b) == fuzzy_eq(b, a),
        fuzzy_eq(a, b) == fuzzy_eq(
            FileDefinitionModel { id: id_a, last_update: time_a, ..a },
            FileDefinitionModel { id: id_b, last_update: time_b, ..b },
        ),
{
}

/// Ids are carried by every entry of the list, each by one entry only.
pub open spec fn ids_unique(cs: Seq<FileDefinitionModel>) -> bool {
    &&& forall|j: int| 0 <= j < cs.len() ==> (#[trigger] cs[j]).id is Some
    &&& forall|a: int, b: int| 0 <= a < cs.len() && 0 <= b < cs.len() && a != b ==> #[trigger] cs[a].id != #[trigger] cs[b].id
}

/// The client list holds the server's entries: each client entry has a server
/// entry with its id and equal name, path, size and checksum, and each server
/// entry's id is in the client list.
pub open spec fn matches_server(cs: Seq<FileDefinitionModel>, sv: Seq<FileDefinitionModel>) -> bool {
    &&& forall|j: int| 0 <= j < cs.len() ==> exists|i: int| 0 <= i < sv.len() && #[trigger] sv[i].id == #[trigger] cs[j].id
        && fuzzy_eq(cs[j], sv[i])
    &&& forall|i: int| 0 <= i < sv.len() ==> seen_before(cs, cs.len() as int, #[trigger] sv[i].id)
}

proof fn lemma_matching_client_changes(cs: Seq<FileDefinitionModel>, sv: Seq<FileDefinitionModel>, ahead: bool, n: int)
    requires
        entries_wf(sv),
        ids_unique(cs),
        matches_server(cs, sv),
        0 <= n <= cs.len(),
    ensures
        client_changes(cs, n, sv, ahead).len() == 0,
    decreases n,
{
    if n > 0 {
        lemma_matching_client_changes(cs, sv, ahead, n - 1);
        let j = n - 1;
        let c = cs[j];
        let i = choose|i: int| 0 <= i < sv.len() && #[trigger] sv[i].id == #[trigger] cs[j].id && fuzzy_eq(cs[j], sv[i]);
        lemma_index_of_id(sv, c.id.unwrap(), i);
        if seen_before(cs, j, c.id) {
            let k = choose|k: int| 0 <= k < j && #[trigger] cs[k].id == c.id;
            assert(cs[k].id != cs[j].id);
        }
        assert(client_step(cs, j, sv, ahead).len() == 0);
    }
}

proof fn lemma_matching_server_only(cs: Seq<FileDefinitionModel>, sv: Seq<FileDefinitionModel>, n: int)
    requires
        matches_server(cs, sv),
        0 <= n <= sv.len(),
    ensures
        server_only(sv, n, cs).len() == 0,
    decreases n,
{
    if n > 0 {
        lemma_matching_server_only(cs, sv, n - 1);
        assert(seen_before(cs, cs.len() as int, sv[n - 1].id));
    }
}

/// A client at a non-zero revision that holds exactly the server's entries
/// gets a patch without changes.
pub proof fn lemma_matching_client_gets_empty_patch(
    cs: Seq<FileDefinitionModel>,
    sv: Seq<FileDefinitionModel>,
    rev: u64,
    latest: u64,
)
    requires
        entries_wf(sv),
        ids_unique(cs),
        matches_server(cs, sv),
        rev != 0,
    ensures
        incremental_patch(cs, sv, rev, latest).changes.len() == 0,
{
    lemma_matching_client_changes(cs, sv, latest > rev, cs.len() as int);
    lemma_matching_server_only(cs, sv, sv.len() as int);
}

/// A client at a non-zero revision whose list is as long as the server's,
/// repeats no id, and has for every server entry an entry with its id and
/// equal name, path, size and checksum, gets a patch without changes.
pub proof fn lemma_covering_client_gets_empty_patch(
    cs: Seq<FileDefinitionModel>,
    sv: Seq<FileDefinitionModel>,
    rev: u64,
    latest: u64,
)
    requires
        entries_wf(sv),
        ids_unique(cs),
        cs.len() == sv.len(),
        forall|i: int| 0 <= i < sv.len() ==> exists|j: int| 0 <= j < cs.len() && #[trigger] cs[j].id == #[trigger] sv[i].id
            && fuzzy_eq(cs[j], sv[i]),
        rev != 0,
    ensures
        incremental_patch(cs, sv, rev, latest).changes.len() == 0,
{
    let n = sv.len() as int;
    let f = |i: int| choose|j: int| 0 <= j < cs.len() && #[trigger] cs[j].id == sv[i].id && fuzzy_eq(cs[j], sv[i]);
    let x = set_int_range(0, n);
    let y = x.map(f);
    lemma_int_range(0, n);
    assert forall|i: int| x.contains(i) implies 0 <= #[trigger] f(i) < n && cs[f(i)].id == sv[i].id
        && fuzzy_eq(cs[f(i)], sv[i]) by {
        assert(0 <= i < sv.len());
    }
    assert forall|a: int, b: int| x.contains(a) && x.contains(b) && #[trigger] f(a) == #[trigger] f(b) implies a == b by {
        assert(sv[a].id == sv[b].id);
    }
    assert(vstd::relations::injective_on(f, x));
    lemma_map_size(x, y, f);
    assert(y.subset_of(x));
    lemma_subset_equality(y, x);
    assert forall|j: int| 0 <= j < cs.len() implies exists|i: int| 0 <= i < sv.len() && #[trigger] sv[i].id == #[trigger] cs[j].id
        && fuzzy_eq(cs[j], sv[i]) by {
        assert(x.contains(j));
        assert(y.contains(j));
        let i = choose|i: int| x.contains(i) && j == f(i);
        assert(0 <= i < sv.len() && sv[i].id == cs[j].id && fuzzy_eq(cs[j], sv[i]));
    }
    assert forall|i: int| 0 <= i < sv.len() implies seen_before(cs, cs.len() as int, #[trigger] sv[i].id) by {
        assert(x.contains(i));
        assert(cs[f(i)].id == sv[i].id);
    }
    lemma_matching_client_gets_empty_patch(cs, sv, rev, latest);
}

fn stamp_le_exec(a: Option<u64>, b: Option<u64>) -> (r: bool)
    ensures
        r == stamp_le(a, b),
{
    match (a, b) {
        (None, _) => true,
        (Some(_), None) => false,
        (Some(x), Some(y)) => x <= y,
    }
}

pub struct Patcher;

impl Patcher {
    /// Compares two definitions on name, path, size and checksum.
    pub fn fuzzy_compare(a: &FileDefinition, b: &FileDefinition) -> (r: bool)
        ensures
            r == fuzzy_eq(a@, b@),
    {
        a.name == b.name && a.path == b.path && a.size == b.size && opt_str_eq(&a.checksum, &b.checksum)
    }

    fn build_initial_patch(repository: &FileRepository) -> (r: ChangePatch)
        ensures
            r@ == initial_patch(repository.entries(), repository.revision()),
    {
        let revision = repository.get_revision();
        let entries = repository.get_all_entries();
        let mut changes: Vec<FileChange> = Vec::new();
        let mut i: usize = 0;
        while i < entries.len()
            invariant
                i <= entries@.len(),
                defs_view(entries@) == repository.entries(),
                changes_view(changes@) == initial_patch(repository.entries(), revision).changes.take(i as int),
            decreases entries@.len() - i,
        {
            let ghost before = changes@;
            changes.push(FileChange::new(entries[i].duplicate(), ChangeType::DoDownload));
            proof {
                assert(changes_view(changes@) =~= changes_view(before).push(changes@[i as int]@));
                assert(initial_patch(repository.entries(), revision).changes.take(i + 1) =~=
                    initial_patch(repository.entries(), revision).changes.take(i as int).push(changes@[i as int]@));
            }
            i = i + 1;
        }
        proof {
            assert(initial_patch(repository.entries(), revision).changes.take(i as int) =~=
                initial_patch(repository.entries(), revision).changes);
        }
        ChangePatch::new(revision, changes)
    }

    fn build_patch_for(rev: u64, client_list: &Vec<FileDefinition>, repository: &FileRepository) -> (r: ChangePatch)
        requires
            repository.wf(),
            forall|j: int| 0 <= j < client_list@.len() ==> (#[trigger] client_list@[j]).id is Some,
        ensures
            r@ == incremental_patch(defs_view(client_list@), repository.entries(), rev, repository.revision()),
    {
        let ghost cs = defs_view(client_list@);
        let ghost sv = repository.entries();
        let latest_rev = repository.get_revision();
        let server_ahead = latest_rev > rev;
        let server_list = repository.get_all_entries();
        let mut res: Vec<FileChange> = Vec::new();
        let mut matched: Vec<bool> = Vec::new();
        let mut i: usize = 0;
        while i < server_list.len()
            invariant
                i <= server_list@.len(),
                matched@.len() == i,
                forall|k: int| 0 <= k < i ==> !#[trigger] matched@[k],
            decreases server_list@.len() - i,
        {
            matched.push(false);
            i = i + 1;
        }
        assert forall|k: int| 0 <= k < sv.len() implies matched@[k] == seen_before(cs, 0, #[trigger] sv[k].id) by {}
        let mut j: usize = 0;
        while j < client_list.len()
            invariant
                repository.wf(),
                cs == defs_view(client_list@),
                sv == repository.entries(),
                defs_view(server_list@) == sv,
                server_ahead == (repository.revision() > rev),
                forall|j: int| 0 <= j < client_list@.len() ==> (#[trigger] client_list@[j]).id is Some,
                j <= client_list@.len(),
                matched@.len() == sv.len(),
                forall|k: int| 0 <= k < sv.len() ==> matched@[k] == seen_before(cs, j as int, #[trigger] sv[k].id),
                changes_view(res@) == client_changes(cs, j as int, sv, server_ahead),
            decreases client_list@.len() - j,
        {
            let ghost before = res@;
            let client_fd = &client_list[j];
            let client_id = client_fd.id.as_ref().unwrap();
            let found = repository.find_index(client_id.as_str());
            let missing = match found {
                Some(k) => matched[k],
                None => true,
            };
            assert(cs[j as int] == client_fd@);
            if missing {
                proof {
                    if let Some(k) = found {
                        assert(sv[k as int].id == cs[j as int].id);
                    }
                }
                if server_ahead {
                    res.push(FileChange::new(client_fd.duplicate(), ChangeType::Delete));
                } else {
                    res.push(FileChange::new(client_fd.duplicate(), ChangeType::Create));
                }
                proof {
                    assert(changes_view(res@) =~= changes_view(before) + client_step(cs, j as int, sv, server_ahead));
                }
            } else {
                let k = found.unwrap();
                let server_fd = &server_list[k];
                assert(sv[k as int] == server_fd@);
                assert(!seen_before(cs, j as int, cs[j as int].id));
                if !Self::fuzzy_compare(client_fd, server_fd) {
                    if stamp_le_exec(client_fd.last_update, server_fd.last_update) {
                        res.push(FileChange::new(server_fd.duplicate(), ChangeType::DoDownload));
                    } else {
                        res.push(FileChange::new(client_fd.duplicate(), ChangeType::DoUpload));
                    }
                }
                proof {
                    assert(changes_view(res@) =~= changes_view(before) + client_step(cs, j as int, sv, server_ahead));
                }
                matched.set(k, true);
            }
            proof {
                assert forall|m: int| 0 <= m < sv.len() implies matched@[m] == seen_before(cs, j + 1, #[trigger] sv[m].id) by {
                    if seen_before(cs, j as int, sv[m].id) {
                        let w = choose|w: int| 0 <= w < j && #[trigger] cs[w].id == sv[m].id;
                        assert(0 <= w < j + 1 && cs[w].id == sv[m].id);
                    }
                    if sv[m].id == cs[j as int].id {
                        assert(found is Some);
                        assert(found.unwrap() == m);
                    } else {
                        if seen_before(cs, j + 1, sv[m].id) {
                            let w = choose|w: int| 0 <= w < j + 1 && #[trigger] cs[w].id == sv[m].id;
                            assert(w != j);
                        }
                    }
                }
            }
            j = j + 1;
        }
        let mut i: usize = 0;
        while i < server_list.len()
            invariant
                cs == defs_view(client_list@),
                j == client_list@.len(),
                defs_view(server_list@) == sv,
                i <= sv.len(),
                matched@.len() == sv.len(),
                forall|k: int| 0 <= k < sv.len() ==> matched@[k] == seen_before(cs, cs.len() as int, #[trigger] sv[k].id),
                changes_view(res@) == client_changes(cs, cs.len() as int, sv, server_ahead) + server_only(sv, i as int, cs),
            decreases sv.len() - i,
        {
            let ghost before = res@;
            assert(sv[i as int] == server_list@[i as int]@);
            if !matched[i] {
                res.push(FileChange::new(server_list[i].duplicate(), ChangeType::DoDownload));
            }
            proof {
                let cc = client_changes(cs, cs.len() as int, sv, server_ahead);
                let tail = if seen_before(cs, cs.len() as int, sv[i as int].id) {
                    Seq::empty()
                } else {
                    seq![FileChangeModel { file: sv[i as int], change: ChangeType::DoDownload }]
                };
                assert(server_only(sv, i + 1, cs) == server_only(sv, i as int, cs) + tail);
                assert(changes_view(res@) =~= changes_view(before) + tail);
                assert(cc + server_only(sv, i + 1, cs) =~= cc + server_only(sv, i as int, cs) + tail);
            }
            i = i + 1;
        }
        ChangePatch::new(latest_rev, res)
    }

    /// The patch that brings a client at revision `rev` holding `file_list` to
    /// the repository's current state. A client at revision zero must hold
    /// nothing: otherwise the request is refused.
    pub fn get_patch(rev: u64, file_list: &Vec<FileDefinition>, repository: &FileRepository) -> (r: Option<ChangePatch>)
        requires
            repository.wf(),
            rev != 0 ==> forall|j: int| 0 <= j < file_list@.len() ==> (#[trigger] file_list@[j]).id is Some,
        ensures
            rev == 0 && file_list@.len() > 0 <==> r is None,
            rev == 0 && file_list@.len() == 0 ==> (r matches Some(p) && p@ == initial_patch(
                repository.entries(),
                repository.revision(),
            )),
            rev != 0 ==> (r matches Some(p) && p@ == incremental_patch(
                defs_view(file_list@),
                repository.entries(),
                rev,
                repository.revision(),
            )),
    {
        if rev == 0 {
            if file_list.len() > 0 {
                None
            } else {
                Some(Self::build_initial_patch(repository))
            }
        } else {
            Some(Self::build_patch_for(rev, file_list, repository))
        }
    }
}

} // verus!
