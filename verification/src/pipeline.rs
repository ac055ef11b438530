//! Report publication: where a recovery's artifacts go, and the claim that makes exactly one
//! producer publish a given recovery.
use vstd::prelude::*;
use crate::text::{push_str, string_from_chars};

verus! {

/// Result of publishing an artifact without ever replacing an existing one.
#[derive(Debug, Clone, Copy, PartialEq, Eq, Structural)]
pub enum Publication {
    Created,
    AlreadyExists,
}

/// `Path::new(base).join(name)` as text, for the platform the crate is built for.
pub uninterp spec fn joined_path(base: Seq<char>, name: Seq<char>) -> Seq<char>;

/// `Path::with_extension(path, extension)` as text, for the platform the crate is built for.
pub uninterp spec fn path_with_extension(path: Seq<char>, extension: Seq<char>) -> Seq<char>;

/// The text of `Path::new(dir).components()` collected back into a path, for the platform the
/// crate is built for.
pub uninterp spec fn path_components_key(dir: Seq<char>) -> Seq<char>;

/// `Path::components`, collected back into a path: the path rebuilt from its components, so
/// that two spellings with the same components (`/out` and `/out/`, `a//b`, `a/./b` and `a/b`)
/// give the same text, as `PathBuf` equality, which compares components, treats them alike.
#[verifier::external_body]
fn component_path(dir: &str) -> (r: String)
    ensures
        r@ == path_components_key(dir@),
{
    std::path::Path::new(dir).components().collect::<std::path::PathBuf>().to_string_lossy().into_owned()
}

/// `Path::join`: `name` appended to `base` with the platform separator (`name` replaces
/// `base` when it is absolute).
#[verifier::external_body]
fn join_path(base: &str, name: &str) -> (r: String)
    ensures
        r@ == joined_path(base@, name@),
{
    std::path::Path::new(base).join(name).to_string_lossy().into_owned()
}

/// Whether `s` holds no path separator (`/`, nor `\\` which separates paths on Windows).
pub open spec fn no_separator(s: Seq<char>) -> bool {
    forall|i: int| 0 <= i < s.len() ==> s[i] != '/' && s[i] != '\\'
}

/// `Path::with_extension`: the file name's extension replaced by (or set to) `extension`. It
/// panics when `extension` holds a path separator, so such an extension is not admitted.
#[verifier::external_body]
fn with_extension(path: &str, extension: &str) -> (r: String)
    requires
        no_separator(extension@),
    ensures
        r@ == path_with_extension(path@, extension@),
{
    std::path::Path::new(path).with_extension(extension).to_string_lossy().into_owned()
}

/// Where the artifacts of one recovery are published.
#[derive(Debug, Clone)]
pub struct ReportPipeline {
    pub out_dir: String,
    pub filename: String,
}

impl ReportPipeline {
    /// A pipeline publishing `filename.*` into `out_dir`.
    pub fn new(out_dir: &str, filename: String) -> (p: ReportPipeline)
        ensures
            p.out_dir@ == out_dir@,
            p.filename@ == filename@,
    {
        ReportPipeline { out_dir: String::from_str(out_dir), filename }
    }

    /// The JSON report path: `out_dir/filename` with extension `json`.
    pub fn json_path(&self) -> (r: String)
        ensures
            r@ == path_with_extension(joined_path(self.out_dir@, self.filename@), "json"@),
    {
        let joined = join_path(self.out_dir.as_str(), self.filename.as_str());
        proof {
            reveal_strlit("json");
        }
        with_extension(joined.as_str(), "json")
    }

    /// The Tacview recording path: `out_dir/filename` with extension `zip.acmi`.
    pub fn acmi_path(&self) -> (r: String)
        ensures
            r@ == path_with_extension(joined_path(self.out_dir@, self.filename@), "zip.acmi"@),
    {
        let joined = join_path(self.out_dir.as_str(), self.filename.as_str());
        proof {
            reveal_strlit("zip.acmi");
        }
        with_extension(joined.as_str(), "zip.acmi")
    }

    /// Claims the right to publish recovery `recovery_id` into this pipeline's directory. The
    /// claim is keyed by the directory's components and the recovery id, never by display
    /// filename nor by how the directory is spelled: a second claim of the same recovery, under
    /// any filename, gets `None` while the first is held or once it was committed.
    pub fn claim_recovery(&self, claims: &mut RecoveryClaims, recovery_id: &str) -> (r: Option<RecoveryClaim>)
        requires
            old(claims).wf(),
        ensures
            final(claims).wf(),
            r is Some <==> !old(claims)@.contains((path_components_key(self.out_dir@), recovery_id@)),
            final(claims)@ == old(claims)@.insert((path_components_key(self.out_dir@), recovery_id@)),
            r matches Some(c) ==> c.key_view() == Some((path_components_key(self.out_dir@), recovery_id@))
                && !c.is_committed(),
    {
        let key = (component_path(self.out_dir.as_str()), String::from_str(recovery_id));
        if claims.insert(key.0.clone(), key.1.clone()) {
            Some(RecoveryClaim { key: Some(key), committed: false })
        } else {
            None
        }
    }
}

/// The recoveries claimed so far, as (directory, recovery id) pairs.
#[derive(Debug)]
pub struct RecoveryClaims {
    keys: Vec<(String, String)>,
}

/// The view of a key.
pub open spec fn key_of(k: (String, String)) -> (Seq<char>, Seq<char>) {
    (k.0@, k.1@)
}

impl View for RecoveryClaims {
    type V = Set<(Seq<char>, Seq<char>)>;

    closed spec fn view(&self) -> Set<(Seq<char>, Seq<char>)> {
        Set::new(|k: (Seq<char>, Seq<char>)| exists|i: int| 0 <= i < self.keys@.len() && key_of(#[trigger] self.keys@[i]) == k)
    }
}

impl RecoveryClaims {
    /// No key occurs twice.
    pub closed spec fn wf(&self) -> bool {
        forall|i: int, j: int| 0 <= i < j < self.keys@.len() ==> key_of(#[trigger] self.keys@[i]) != key_of(#[trigger] self.keys@[j])
    }

    /// No recovery claimed.
    pub fn new() -> (c: RecoveryClaims)
        ensures
            c.wf(),
            c@ == Set::<(Seq<char>, Seq<char>)>::empty(),
    {
        let c = RecoveryClaims { keys: Vec::new() };
        assert(c@ =~= Set::<(Seq<char>, Seq<char>)>::empty());
        c
    }

    /// The position of a key, if claimed.
    fn position(&self, dir: &String, id: &String) -> (r: Option<usize>)
        ensures
            r is Some <==> self@.contains((dir@, id@)),
            r matches Some(i) ==> i < self.keys@.len() && key_of(self.keys@[i as int]) == (dir@, id@),
    {
        let mut i: usize = 0;
        while i < self.keys.len()
            invariant
                i <= self.keys@.len(),
                forall|j: int| 0 <= j < i ==> key_of(#[trigger] self.keys@[j]) != (dir@, id@),
            decreases self.keys@.len() - i,
        {
            let same_dir = self.keys[i].0 == *dir;
            let same_id = self.keys[i].1 == *id;
            if same_dir && same_id {
                assert(self@.contains((dir@, id@)));
                return Some(i);
            }
            i += 1;
        }
        None
    }

    /// Claims a key; returns whether it was free.
    pub fn insert(&mut self, dir: String, id: String) -> (inserted: bool)
        requires
            old(self).wf(),
        ensures
            final(self).wf(),
            inserted == !old(self)@.contains((dir@, id@)),
            final(self)@ == old(self)@.insert((dir@, id@)),
    {
        match self.position(&dir, &id) {
            Some(_) => {
                assert(self@ =~= old(self)@.insert((dir@, id@)));
                false
            },
            None => {
                let ghost k = (dir@, id@);
                let ghost before = self.keys@;
                self.keys.push((dir, id));
                assert(key_of(self.keys@[self.keys@.len() - 1]) == k);
                assert forall|x: (Seq<char>, Seq<char>)| self@.contains(x) <==> old(self)@.insert(k).contains(x) by {
                    if self@.contains(x) {
                        let i = choose|i: int| 0 <= i < self.keys@.len() && key_of(#[trigger] self.keys@[i]) == x;
                        if i < before.len() {
                            assert(self.keys@[i] == before[i]);
                            assert(old(self)@.contains(x));
                        }
                    }
                    if old(self)@.insert(k).contains(x) {
                        if x != k {
                            assert(old(self)@.contains(x));
                            let i = choose|i: int| 0 <= i < before.len() && key_of(#[trigger] before[i]) == x;
                            assert(self.keys@[i] == before[i]);
                        }
                    }
                }
                assert(self@ =~= old(self)@.insert(k));
                true
            },
        }
    }

    /// Frees a key.
    pub fn remove(&mut self, dir: &String, id: &String)
        requires
            old(self).wf(),
        ensures
            final(self).wf(),
            final(self)@ == old(self)@.remove((dir@, id@)),
    {
        match self.position(dir, id) {
            Some(i) => {
                let ghost before = self.keys@;
                self.keys.remove(i);
                assert(forall|j: int| 0 <= j < self.keys@.len() ==> #[trigger] self.keys@[j] == if j < i {
                    before[j]
                } else {
                    before[j + 1]
                });
                let ghost k = (dir@, id@);
                assert forall|x: (Seq<char>, Seq<char>)| self@.contains(x) <==> old(self)@.remove(k).contains(x) by {
                    if self@.contains(x) {
                        let j = choose|j: int| 0 <= j < self.keys@.len() && key_of(#[trigger] self.keys@[j]) == x;
                        let oj = if j < i { j } else { j + 1 };
                        assert(before[oj] == self.keys@[j]);
                        assert(old(self)@.contains(x));
                        assert(oj != i);
                        assert(key_of(before[oj]) != key_of(before[i as int]));
                    }
                    if old(self)@.remove(k).contains(x) {
                        let oj = choose|j: int| 0 <= j < before.len() && key_of(#[trigger] before[j]) == x;
                        assert(oj != i);
                        let j = if oj < i { oj } else { oj - 1 };
                        assert(self.keys@[j] == before[oj]);
                    }
                }
                assert(self@ =~= old(self)@.remove((dir@, id@)));
            },
            None => {
                assert(self@ =~= old(self)@.remove((dir@, id@)));
            },
        }
    }
}

/// A claim on one recovery. Committing it keeps the recovery claimed for good; releasing an
/// uncommitted claim frees the recovery for another producer.
#[derive(Debug)]
pub struct RecoveryClaim {
    key: Option<(String, String)>,
    committed: bool,
}

impl RecoveryClaim {
    /// The claimed key.
    pub closed spec fn key_view(&self) -> Option<(Seq<char>, Seq<char>)> {
        match self.key {
            Some(k) => Some(key_of(k)),
            None => None,
        }
    }

    /// Whether the claim was committed.
    pub closed spec fn is_committed(&self) -> bool {
        self.committed
    }

    /// Marks the recovery as published.
    pub fn commit(&mut self)
        ensures
            final(self).is_committed(),
            final(self).key_view() == old(self).key_view(),
    {
        self.committed = true;
    }

    /// Ends the claim: an uncommitted claim gives its recovery back.
    pub fn release(self, claims: &mut RecoveryClaims)
        requires
            old(claims).wf(),
        ensures
            final(claims).wf(),
            final(claims)@ == if !self.is_committed() && self.key_view() is Some {
                old(claims)@.remove(self.key_view()->0)
            } else {
                old(claims)@
            },
    {
        if self.committed {
            return;
        }
        match &self.key {
            Some(k) => claims.remove(&k.0, &k.1),
            None => {},
        }
    }
}

/// What a recording does once it tried to publish its JSON report.
#[derive(Debug, Clone, Copy, PartialEq, Eq, Structural)]
pub enum JsonPublicationStep {
    /// This producer created the report: it goes on with the recording, the database row, the
    /// charts and the notifications of the recovery.
    Continue,
    /// Another producer had already published the report: nothing more is written.
    Stop,
    /// Writing the report failed: the recording fails.
    Fail,
}

/// The JSON report gates everything else a recovery publishes: only the producer that created
/// it goes on; one that found it already published stops; a failed write (`None`) fails.
pub open spec fn spec_after_json(published: Option<Publication>) -> JsonPublicationStep {
    match published {
        Some(Publication::Created) => JsonPublicationStep::Continue,
        Some(Publication::AlreadyExists) => JsonPublicationStep::Stop,
        None => JsonPublicationStep::Fail,
    }
}

/// The step after publishing the JSON report (`None` when writing it failed). A report that
/// exists, whoever wrote it, commits the claim, so the recovery is never published again; a
/// failed write leaves the claim uncommitted, to be given back.
pub fn after_json_publication(published: Option<Publication>, claim: &mut RecoveryClaim) -> (s: JsonPublicationStep)
    ensures
        s == spec_after_json(published),
        final(claim).is_committed() == (old(claim).is_committed() || published is Some),
        final(claim).key_view() == old(claim).key_view(),
{
    match published {
        Some(Publication::Created) => {
            claim.commit();
            JsonPublicationStep::Continue
        },
        Some(Publication::AlreadyExists) => {
            claim.commit();
            JsonPublicationStep::Stop
        },
        None => JsonPublicationStep::Fail,
    }
}

/// Whether the recording keeps the path of its ACMI file: only when it created the file; one
/// that already existed is a conflict and a failed write is logged, and neither is reported.
pub fn acmi_published(published: Option<Publication>) -> (b: bool)
    ensures
        b == (published == Some(Publication::Created)),
{
    match published {
        Some(Publication::Created) => true,
        _ => false,
    }
}

/// Only the producer that created the JSON report publishes the ACMI file, the database row,
/// the charts and the notifications of a recovery.
pub proof fn lemma_json_ownership_gates(published: Option<Publication>)
    ensures
        spec_after_json(published) == JsonPublicationStep::Continue <==> published == Some(Publication::Created),
{
}

/// Whether publishing a path succeeded in creating it; a path that already existed is refused,
/// with the message for the error.
pub fn ensure_created(path: &str, publication: Publication) -> (r: Result<(), String>)
    ensures
        publication == Publication::Created ==> r is Ok,
        publication == Publication::AlreadyExists ==> (r matches Err(m) && m@
            == "refusing to replace previously published artifact `"@ + path@ + "`"@),
{
    match publication {
        Publication::Created => Ok(()),
        Publication::AlreadyExists => {
            let mut m: Vec<char> = Vec::new();
            push_str(&mut m, "refusing to replace previously published artifact `");
            push_str(&mut m, path);
            push_str(&mut m, "`");
            Err(string_from_chars(&m))
        },
    }
}

/// A held or committed claim keeps out every other producer of the same recovery in the same
/// directory, whatever its filename; only releasing an uncommitted claim lets one in again.
pub proof fn lemma_claim_exclusive(claimed: Set<(Seq<char>, Seq<char>)>, dir: Seq<char>, id: Seq<char>)
    requires
        claimed.contains((dir, id)),
    ensures
        claimed.insert((dir, id)) == claimed,
        !claimed.remove((dir, id)).contains((dir, id)),
{
    assert(claimed.insert((dir, id)) =~= claimed);
}

} // verus!
