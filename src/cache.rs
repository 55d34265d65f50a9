//! The two-tier read-through cache, as decisions. The near tier is an
//! in-process TTL cache and the far tier a remote key-value store; both are
//! reached asynchronously, so the caller performs each read and write and
//! hands the outcome to the next decision here. Values are the JSON text of
//! the cached type; a reserved marker records that the source has no entity
//! under a key.
use vstd::prelude::*;
use crate::error::ApiError;
use crate::extractor::opt_text;

verus! {

/// The marker stored in both tiers for a key whose entity does not exist. It
/// is not valid JSON, so no serialised value equals it.
pub open spec fn not_found_marker() -> Seq<char> {
    "__not_found__"@
}

pub fn marker() -> (r: String)
    ensures
        r@ == not_found_marker(),
{
    "__not_found__".to_owned()
}

/// What went wrong while reading through the cache.
pub enum CacheError {
    /// The far tier could not be reached.
    Redis(String),
    /// The producer (an HTTP request or a database query) failed.
    Reqwest(String),
    Serialization(String),
    /// The source has no entity under the key.
    NotFound,
}

pub open spec fn cache_error_as_api(err: CacheError, r: ApiError) -> bool {
    match err {
        CacheError::Redis(e) => r matches ApiError::Redis(m) && m@ == e@,
        CacheError::Reqwest(e) => r matches ApiError::Reqwest(m) && m@ == e@,
        CacheError::Serialization(e) => r matches ApiError::Serialization(m) && m@ == e@,
        CacheError::NotFound => r matches ApiError::NotFound(m) && m@ == "Resource not found"@,
    }
}

impl CacheError {
    /// The API error that a cache error surfaces as.
    pub fn into_api_error(self) -> (r: ApiError)
        ensures
            cache_error_as_api(self, r),
    {
        match self {
            CacheError::Redis(e) => ApiError::Redis(e),
            CacheError::Reqwest(e) => ApiError::Reqwest(e),
            CacheError::Serialization(e) => ApiError::Serialization(e),
            CacheError::NotFound => ApiError::NotFound("Resource not found".to_owned()),
        }
    }
}

/// A write that the caller performs on the tiers, under the key at hand.
pub enum TierWrite {
    /// Store the text in the near tier.
    Near(String),
    /// Store the text in the far tier, with the cache's TTL.
    Far(String),
    /// Drop the key from the near tier.
    InvalidateNear,
    /// Drop the key from the far tier.
    DeleteFar,
}

/// Where a read-through goes next.
pub enum FetchNext {
    /// Read the key from the far tier.
    ReadFar,
    /// Run the producer.
    Produce,
    /// Deserialise this cached text and return it.
    Return(String),
    /// Return the value that the producer gave.
    ReturnProduced,
    /// Return `CacheError::NotFound`.
    NotFound,
    /// Return this error.
    Fail(CacheError),
}

/// One decision: the writes to perform, in order, and where to go next.
pub struct FetchStep {
    pub writes: Vec<TierWrite>,
    pub next: FetchNext,
}

/// The two tiers, as maps from key to stored text.
pub ghost struct Tiers {
    pub near: Map<Seq<char>, Seq<char>>,
    pub far: Map<Seq<char>, Seq<char>>,
}

pub open spec fn apply_write(t: Tiers, key: Seq<char>, w: TierWrite) -> Tiers {
    match w {
        TierWrite::Near(s) => Tiers { near: t.near.insert(key, s@), ..t },
        TierWrite::Far(s) => Tiers { far: t.far.insert(key, s@), ..t },
        TierWrite::InvalidateNear => Tiers { near: t.near.remove(key), ..t },
        TierWrite::DeleteFar => Tiers { far: t.far.remove(key), ..t },
    }
}

/// The tiers after the writes `ws` under `key`, in order.
pub open spec fn apply_writes(t: Tiers, key: Seq<char>, ws: Seq<TierWrite>) -> Tiers
    decreases ws.len(),
{
    if ws.len() == 0 {
        t
    } else {
        apply_write(apply_writes(t, key, ws.drop_last()), key, ws.last())
    }
}

pub open spec fn lookup(m: Map<Seq<char>, Seq<char>>, key: Seq<char>) -> Option<Seq<char>> {
    if m.contains_key(key) {
        Some(m[key])
    } else {
        None
    }
}

/// The writes in `ws` store exactly `texts` in the tiers named by `near`.
pub open spec fn writes_are(ws: Seq<TierWrite>, texts: Seq<(bool, Seq<char>)>) -> bool {
    &&& ws.len() == texts.len()
    &&& forall|i: int| 0 <= i < ws.len() ==> match #[trigger] ws[i] {
        TierWrite::Near(s) => texts[i] == (true, s@),
        TierWrite::Far(s) => texts[i] == (false, s@),
        _ => false,
    }
}

fn write_both(s: String) -> (r: Vec<TierWrite>)
    ensures
        writes_are(r@, seq![(true, s@), (false, s@)]),
{
    let mut r: Vec<TierWrite> = Vec::new();
    r.push(TierWrite::Near(s.clone()));
    r.push(TierWrite::Far(s));
    r
}

/// What a tier's entry for a key says.
pub ghost enum Answer {
    /// Text that deserialises: the value.
    Value(Seq<char>),
    /// The marker: the source has no such entity.
    NotFound,
    /// Nothing usable: ask the next tier, or the producer.
    Continue,
}

/// Reads a tier's entry: the marker means not found, text that deserialises
/// is an answer, and an absent entry or text of another shape is no answer.
pub open spec fn tier_answer(cached: Option<Seq<char>>, parses: bool) -> Answer {
    match cached {
        Some(s) => if s == not_found_marker() {
            Answer::NotFound
        } else if parses {
            Answer::Value(s)
        } else {
            Answer::Continue
        },
        None => Answer::Continue,
    }
}

/// Decision after reading the near tier: the marker means not found; text
/// that deserialises is returned; anything else (absent, or stale text of
/// another shape) goes on to the far tier.
pub fn after_near_read(cached: Option<String>, parses: bool) -> (r: FetchStep)
    ensures
        r.writes@.len() == 0,
        match tier_answer(opt_text(cached), parses) {
            Answer::NotFound => r.next is NotFound,
            Answer::Value(s) => r.next matches FetchNext::Return(v) && v@ == s,
            Answer::Continue => r.next is ReadFar,
        },
{
    let writes: Vec<TierWrite> = Vec::new();
    match cached {
        Some(s) => {
            if s == marker() {
                FetchStep { writes, next: FetchNext::NotFound }
            } else if parses {
                FetchStep { writes, next: FetchNext::Return(s) }
            } else {
                FetchStep { writes, next: FetchNext::ReadFar }
            }
        },
        None => FetchStep { writes, next: FetchNext::ReadFar },
    }
}

/// The outcome of reading the far tier.
pub enum FarRead {
    /// No connection could be had; the text says why.
    Unavailable(String),
    /// What the far tier held under the key (a failed read counts as absent),
    /// and whether that text deserialises.
    Read(Option<String>, bool),
}

/// Decision after reading the far tier: an unreachable tier fails the read;
/// the marker or deserialisable text is copied into the near tier and
/// answered; anything else goes on to the producer.
pub fn after_far_read(read: FarRead) -> (r: FetchStep)
    ensures
        match read {
            FarRead::Unavailable(e) => r.writes@.len() == 0 && (r.next matches FetchNext::Fail(
                CacheError::Redis(m),
            ) && m == e),
            FarRead::Read(cached, parses) => match tier_answer(opt_text(cached), parses) {
                Answer::NotFound => writes_are(r.writes@, seq![(true, not_found_marker())])
                    && r.next is NotFound,
                Answer::Value(s) => writes_are(r.writes@, seq![(true, s)]) && (
                r.next matches FetchNext::Return(v) && v@ == s),
                Answer::Continue => r.writes@.len() == 0 && r.next is Produce,
            },
        },
{
    match read {
        FarRead::Unavailable(e) => FetchStep {
            writes: Vec::new(),
            next: FetchNext::Fail(CacheError::Redis(e)),
        },
        FarRead::Read(Some(s), parses) => {
            if s == marker() {
                let mut writes: Vec<TierWrite> = Vec::new();
                writes.push(TierWrite::Near(s));
                FetchStep { writes, next: FetchNext::NotFound }
            } else if parses {
                let mut writes: Vec<TierWrite> = Vec::new();
                writes.push(TierWrite::Near(s.clone()));
                FetchStep { writes, next: FetchNext::Return(s) }
            } else {
                FetchStep { writes: Vec::new(), next: FetchNext::Produce }
            }
        },
        FarRead::Read(None, _) => FetchStep { writes: Vec::new(), next: FetchNext::Produce },
    }
}

/// The outcome of running the producer.
pub enum Produced {
    /// The producer failed; the text says why.
    Failed(String),
    /// The source has no entity under the key.
    Absent,
    /// The source has one; its JSON text, where serialising it succeeded.
    Present(Option<String>),
}

/// Decision after running the producer: a failure is passed on with no
/// write; absence stores the marker in both tiers and answers not found; a
/// value is stored in both tiers (where it serialised) and returned.
pub fn after_produce(produced: Produced) -> (r: FetchStep)
    ensures
        match produced {
            Produced::Failed(e) => r.writes@.len() == 0 && (r.next matches FetchNext::Fail(
                CacheError::Reqwest(m),
            ) && m == e),
            Produced::Absent => writes_are(
                r.writes@,
                seq![(true, not_found_marker()), (false, not_found_marker())],
            ) && r.next is NotFound,
            Produced::Present(Some(s)) => writes_are(r.writes@, seq![(true, s@), (false, s@)])
                && r.next is ReturnProduced,
            Produced::Present(None) => r.writes@.len() == 0 && r.next is ReturnProduced,
        },
{
    match produced {
        Produced::Failed(e) => FetchStep {
            writes: Vec::new(),
            next: FetchNext::Fail(CacheError::Reqwest(e)),
        },
        Produced::Absent => FetchStep { writes: not_found_writes(), next: FetchNext::NotFound },
        Produced::Present(Some(s)) => FetchStep {
            writes: write_both(s),
            next: FetchNext::ReturnProduced,
        },
        Produced::Present(None) => FetchStep {
            writes: Vec::new(),
            next: FetchNext::ReturnProduced,
        },
    }
}

/// The writes that record that the source has no entity under a key: the
/// marker, in the near tier and then in the far tier.
pub fn not_found_writes() -> (r: Vec<TierWrite>)
    ensures
        writes_are(r@, seq![(true, not_found_marker()), (false, not_found_marker())]),
{
    write_both(marker())
}

/// The writes of `set`: none when the near tier already holds exactly this
/// text, else the text in the near tier and then in the far tier.
pub fn set_writes(serialized: String, near_current: Option<String>) -> (r: Vec<TierWrite>)
    ensures
        match near_current {
            Some(c) if c@ == serialized@ => r@.len() == 0,
            _ => writes_are(r@, seq![(true, serialized@), (false, serialized@)]),
        },
{
    match near_current {
        Some(c) => {
            if c == serialized {
                Vec::new()
            } else {
                write_both(serialized)
            }
        },
        None => write_both(serialized),
    }
}

/// The writes of `delete`: invalidate the near tier, then delete in the far
/// tier.
pub fn delete_writes() -> (r: Vec<TierWrite>)
    ensures
        r@.len() == 2,
        r@[0] is InvalidateNear,
        r@[1] is DeleteFar,
{
    let mut r: Vec<TierWrite> = Vec::new();
    r.push(TierWrite::InvalidateNear);
    r.push(TierWrite::DeleteFar);
    r
}

/// Storing `texts` (near or far, and the text) under `key`, in order.
pub open spec fn store_all(t: Tiers, key: Seq<char>, texts: Seq<(bool, Seq<char>)>) -> Tiers
    decreases texts.len(),
{
    if texts.len() == 0 {
        t
    } else {
        let prev = store_all(t, key, texts.drop_last());
        if texts.last().0 {
            Tiers { near: prev.near.insert(key, texts.last().1), ..prev }
        } else {
            Tiers { far: prev.far.insert(key, texts.last().1), ..prev }
        }
    }
}

pub proof fn lemma_apply_writes_are(t: Tiers, key: Seq<char>, ws: Seq<TierWrite>, texts: Seq<(bool, Seq<char>)>)
    requires
        writes_are(ws, texts),
    ensures
        apply_writes(t, key, ws) == store_all(t, key, texts),
    decreases ws.len(),
{
    if ws.len() > 0 {
        let n = ws.len() - 1;
        assert(writes_are(ws.drop_last(), texts.drop_last())) by {
            assert forall|i: int| 0 <= i < ws.drop_last().len() implies match #[trigger] ws.drop_last()[i] {
                TierWrite::Near(s) => texts.drop_last()[i] == (true, s@),
                TierWrite::Far(s) => texts.drop_last()[i] == (false, s@),
                _ => false,
            } by {
                assert(ws.drop_last()[i] == ws[i]);
            }
        }
        lemma_apply_writes_are(t, key, ws.drop_last(), texts.drop_last());
        assert(match ws[n] {
            TierWrite::Near(s) => texts[n] == (true, s@),
            TierWrite::Far(s) => texts[n] == (false, s@),
            _ => false,
        });
    }
}

/// After `set` stores a value's text `s` under `key`, the next read-through
/// of `key` in the same process (while the near entry lives) returns `s`
/// from the near tier, and neither reads the far tier nor runs the producer.
pub proof fn lemma_set_then_read_hits(t: Tiers, key: Seq<char>, s: Seq<char>, ws: Seq<TierWrite>)
    requires
        s != not_found_marker(),
        lookup(t.near, key) == Some(s) ==> ws.len() == 0,
        lookup(t.near, key) != Some(s) ==> writes_are(ws, seq![(true, s), (false, s)]),
    ensures
        lookup(apply_writes(t, key, ws).near, key) == Some(s),
        tier_answer(lookup(apply_writes(t, key, ws).near, key), true) == Answer::Value(s),
{
    reveal_with_fuel(store_all, 3);
    if lookup(t.near, key) != Some(s) {
        lemma_apply_writes_are(t, key, ws, seq![(true, s), (false, s)]);
        let texts = seq![(true, s), (false, s)];
        assert(texts.drop_last().drop_last() =~= Seq::<(bool, Seq<char>)>::empty());
        assert(texts.drop_last() =~= seq![(true, s)]);
    }
}

/// After the marker is recorded under `key`, a read-through of `key` answers
/// not found without running the producer: from the near tier while its
/// entry lives, and from the far tier (within the TTL) once it is gone.
pub proof fn lemma_not_found_then_read_misses(t: Tiers, key: Seq<char>, ws: Seq<TierWrite>)
    requires
        writes_are(ws, seq![(true, not_found_marker()), (false, not_found_marker())]),
    ensures
        lookup(apply_writes(t, key, ws).near, key) == Some(not_found_marker()),
        lookup(apply_writes(t, key, ws).far, key) == Some(not_found_marker()),
        forall|parses: bool|
            tier_answer(lookup(apply_writes(t, key, ws).near, key), parses) == Answer::NotFound
                && tier_answer(lookup(apply_writes(t, key, ws).far, key), parses)
                == Answer::NotFound,
{
    reveal_with_fuel(store_all, 3);
    let texts = seq![(true, not_found_marker()), (false, not_found_marker())];
    lemma_apply_writes_are(t, key, ws, texts);
    assert(texts.drop_last().drop_last() =~= Seq::<(bool, Seq<char>)>::empty());
    assert(texts.drop_last() =~= seq![(true, not_found_marker())]);
}

} // verus!
