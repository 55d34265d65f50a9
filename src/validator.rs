//! Authenticity of signed init data: a URL-encoded `key=value&...` payload
//! whose `hash` parameter is the HMAC-SHA256, under a derived key, of its
//! canonical data-check string.
use vstd::prelude::*;
use vstd::string::StringSliceAdditionalSpecFns;
use crate::bytes::{
    bytes_equal, bytes_equal_constant_time, bytes_less, bytes_lt, copy_range, hex_encode, hex_lower, parse_u64,  lemma_bytes_lt_irreflexive, lemma_bytes_lt_total,
    lemma_bytes_lt_transitive, parse_u64_spec,
};

verus! {

/// Longest payload accepted, in bytes.
pub const MAX_INIT_DATA_LEN: usize = 1024;

/// How old `auth_date` may be, in seconds.
pub const AUTH_DATE_WINDOW: u64 = 3600;

pub const AMPERSAND: u8 = 38;

pub const EQUALS: u8 = 61;

pub const NEWLINE: u8 = 10;

/// A byte that may stand in a payload. This is the set that
/// `c.is_ascii() && !c.is_control() || c == '&' || c == '='` admits: the two
/// delimiters are printable ASCII already, so the last two tests add nothing.
pub open spec fn allowed_byte(b: u8) -> bool {
    0x20 <= b <= 0x7e
}

pub open spec fn hash_key() -> Seq<u8> {
    seq![104u8, 97u8, 115u8, 104u8]
}

pub open spec fn auth_date_key() -> Seq<u8> {
    seq![97u8, 117u8, 116u8, 104u8, 95u8, 100u8, 97u8, 116u8, 101u8]
}

/// The pieces of `s` between separators, as `str::split` yields them: never
/// empty, and `n` separators give `n + 1` pieces.
pub open spec fn split_on(s: Seq<u8>, sep: u8) -> Seq<Seq<u8>>
    decreases s.len(),
{
    if s.len() == 0 {
        seq![seq![]]
    } else if s.last() == sep {
        split_on(s.drop_last(), sep).push(seq![])
    } else {
        let p = split_on(s.drop_last(), sep);
        p.update(p.len() - 1, p.last().push(s.last()))
    }
}

/// `i` is the first `=` of `p`.
pub open spec fn first_equals_at(p: Seq<u8>, i: int) -> bool {
    0 <= i < p.len() && p[i] == EQUALS && forall|j: int| 0 <= j < i ==> p[j] != EQUALS
}

pub open spec fn has_equals(p: Seq<u8>) -> bool {
    exists|i: int| first_equals_at(p, i)
}

pub open spec fn equals_index(p: Seq<u8>) -> int {
    choose|i: int| first_equals_at(p, i)
}

/// A piece is a pair: it holds exactly one `=`.
pub open spec fn is_pair(p: Seq<u8>) -> bool {
    has_equals(p) && forall|k: int| equals_index(p) < k < p.len() ==> p[k] != EQUALS
}

/// Every `&`-separated piece of `s` is a `key=value` pair.
pub open spec fn all_pairs(s: Seq<u8>) -> bool {
    forall|k: int| 0 <= k < split_on(s, AMPERSAND).len() ==> is_pair(#[trigger] split_on(s, AMPERSAND)[k])
}

/// The part of a piece before its first `=`.
pub open spec fn key_of(p: Seq<u8>) -> Seq<u8> {
    p.subrange(0, equals_index(p))
}

/// The part of a piece after its first `=`.
pub open spec fn value_of(p: Seq<u8>) -> Seq<u8> {
    p.subrange(equals_index(p) + 1, p.len() as int)
}

/// What the parameter scan has gathered from some pieces: the parameters
/// other than `hash` (a later piece overrides an earlier one with the same
/// key), and the value of the last `hash` piece. Pieces without `=` are
/// skipped.
pub open spec fn scan(pieces: Seq<Seq<u8>>) -> (Map<Seq<u8>, Seq<u8>>, Option<Seq<u8>>)
    decreases pieces.len(),
{
    if pieces.len() == 0 {
        (Map::empty(), None)
    } else {
        let prev = scan(pieces.drop_last());
        let p = pieces.last();
        if !has_equals(p) {
            prev
        } else if key_of(p) == hash_key() {
            (prev.0, Some(value_of(p)))
        } else {
            (prev.0.insert(key_of(p), value_of(p)), prev.1)
        }
    }
}

pub open spec fn params_of(s: Seq<u8>) -> Map<Seq<u8>, Seq<u8>> {
    scan(split_on(s, AMPERSAND)).0
}

pub open spec fn hash_of(s: Seq<u8>) -> Option<Seq<u8>> {
    scan(split_on(s, AMPERSAND)).1
}

/// A key and its value, as bytes.
pub struct Param {
    pub key: Vec<u8>,
    pub value: Vec<u8>,
}

pub open spec fn param_views(v: Seq<Param>) -> Seq<(Seq<u8>, Seq<u8>)> {
    v.map_values(|p: Param| (p.key@, p.value@))
}

/// Keys strictly ascending in byte order (so no key twice).
pub open spec fn sorted_strict(e: Seq<(Seq<u8>, Seq<u8>)>) -> bool {
    forall|i: int, j: int| 0 <= i < j < e.len() ==> bytes_lt(#[trigger] e[i].0, #[trigger] e[j].0)
}

/// The entries list exactly the map.
pub open spec fn represents(e: Seq<(Seq<u8>, Seq<u8>)>, m: Map<Seq<u8>, Seq<u8>>) -> bool {
    &&& forall|i: int| 0 <= i < e.len() ==> #[trigger] m.contains_key(e[i].0) && m[e[i].0] == e[i].1
    &&& forall|k: Seq<u8>| #[trigger] m.contains_key(k) ==> exists|i: int| 0 <= i < e.len() && e[i].0 == k
}

/// `key=value`.
pub open spec fn pair_line(e: (Seq<u8>, Seq<u8>)) -> Seq<u8> {
    e.0 + seq![EQUALS] + e.1
}

/// The lines `key=value`, joined by newlines, with no trailing newline.
pub open spec fn join_lines(e: Seq<(Seq<u8>, Seq<u8>)>) -> Seq<u8>
    decreases e.len(),
{
    if e.len() == 0 {
        seq![]
    } else if e.len() == 1 {
        pair_line(e[0])
    } else {
        join_lines(e.drop_last()) + seq![NEWLINE] + pair_line(e.last())
    }
}

/// Why a payload was refused before its signature was checked.
#[derive(Clone, Copy, Debug, PartialEq, Eq, Structural)]
pub enum InitDataError {
    TooLong,
    InvalidCharacters,
    MalformedPair,
    MissingHash,
    MissingAuthDate,
    InvalidAuthDate,
    Expired,
}

pub open spec fn init_data_error_text(e: InitDataError) -> Seq<char> {
    match e {
        InitDataError::TooLong => "Input data too long"@,
        InitDataError::InvalidCharacters => "Invalid characters in input"@,
        InitDataError::MalformedPair => "Malformed key=value pair"@,
        InitDataError::MissingHash => "Missing 'hash' parameter"@,
        InitDataError::MissingAuthDate => "Missing 'auth_date' parameter"@,
        InitDataError::InvalidAuthDate => "Invalid 'auth_date' value"@,
        InitDataError::Expired => "auth_date expired"@,
    }
}

impl InitDataError {
    /// The text that the log records for this refusal.
    pub fn message(&self) -> (r: &'static str)
        ensures
            r@ == init_data_error_text(*self),
    {
        match self {
            InitDataError::TooLong => "Input data too long",
            InitDataError::InvalidCharacters => "Invalid characters in input",
            InitDataError::MalformedPair => "Malformed key=value pair",
            InitDataError::MissingHash => "Missing 'hash' parameter",
            InitDataError::MissingAuthDate => "Missing 'auth_date' parameter",
            InitDataError::InvalidAuthDate => "Invalid 'auth_date' value",
            InitDataError::Expired => "auth_date expired",
        }
    }
}

/// The first check that a payload fails, if any.
pub open spec fn init_data_error(s: Seq<u8>, now: u64) -> Option<InitDataError> {
    if s.len() > MAX_INIT_DATA_LEN {
        Some(InitDataError::TooLong)
    } else if exists|i: int| 0 <= i < s.len() && !allowed_byte(#[trigger] s[i]) {
        Some(InitDataError::InvalidCharacters)
    } else if !all_pairs(s) {
        Some(InitDataError::MalformedPair)
    } else if hash_of(s) is None {
        Some(InitDataError::MissingHash)
    } else if !params_of(s).contains_key(auth_date_key()) {
        Some(InitDataError::MissingAuthDate)
    } else if parse_u64_spec(params_of(s)[auth_date_key()]) is None {
        Some(InitDataError::InvalidAuthDate)
    } else if now > parse_u64_spec(params_of(s)[auth_date_key()])->0 + AUTH_DATE_WINDOW {
        Some(InitDataError::Expired)
    } else {
        None
    }
}

/// A payload that passed every check but the signature.
pub struct InitDataCheck {
    /// The parameters but `hash`, sorted by key.
    pub params: Vec<Param>,
    /// The data-check string that the signature covers.
    pub data_check: Vec<u8>,
    /// The value of `hash`.
    pub hash: Vec<u8>,
    pub auth_date: u64,
}

/// `r` is the canonical form of the payload `s`.
pub open spec fn is_check_of(r: InitDataCheck, s: Seq<u8>) -> bool {
    &&& sorted_strict(param_views(r.params@))
    &&& represents(param_views(r.params@), params_of(s))
    &&& r.data_check@ == join_lines(param_views(r.params@))
    &&& hash_of(s) == Some(r.hash@)
    &&& parse_u64_spec(params_of(s)[auth_date_key()]) == Some(r.auth_date)
}

proof fn lemma_first_equals_unique(p: Seq<u8>, i: int)
    requires
        first_equals_at(p, i),
    ensures
        has_equals(p),
        equals_index(p) == i,
{
    let c = equals_index(p);
    assert(first_equals_at(p, c));
    if c < i {
        assert(p[c] != EQUALS);
    } else if i < c {
        assert(p[i] != EQUALS);
    }
}

/// Inserts `key` with `value`, or replaces the value of `key`, keeping the
/// keys strictly sorted.
fn upsert(params: &mut Vec<Param>, key: Vec<u8>, value: Vec<u8>, Ghost(m): Ghost<Map<Seq<u8>, Seq<u8>>>)
    requires
        sorted_strict(param_views(old(params)@)),
        represents(param_views(old(params)@), m),
    ensures
        sorted_strict(param_views(final(params)@)),
        represents(param_views(final(params)@), m.insert(key@, value@)),
        final(params)@.len() <= old(params)@.len() + 1,
{
    let ghost old_e = param_views(params@);
    let mut p: usize = 0;
    while p < params.len() && bytes_less(params[p].key.as_slice(), key.as_slice())
        invariant
            p <= params@.len(),
            params@ == old(params)@,
            old_e == param_views(params@),
            forall|i: int| 0 <= i < p ==> bytes_lt(#[trigger] old_e[i].0, key@),
        decreases params.len() - p,
    {
        p = p + 1;
    }
    let ghost k = key@;
    let ghost v = value@;
    let ghost m2 = m.insert(k, v);
    if p < params.len() && bytes_equal(params[p].key.as_slice(), key.as_slice()) {
        params.remove(p);
        params.insert(p, Param { key, value });
        let ghost e = param_views(params@);
        assert(e =~= old_e.update(p as int, (k, v)));
        assert forall|i: int, j: int| 0 <= i < j < e.len() implies bytes_lt(#[trigger] e[i].0, #[trigger] e[j].0) by {
            assert(e[i].0 == old_e[i].0);
            assert(e[j].0 == old_e[j].0);
        }
        assert forall|i: int| 0 <= i < e.len() implies #[trigger] m2.contains_key(e[i].0) && m2[e[i].0] == e[i].1 by {
            if i != p {
                assert(e[i] == old_e[i]);
                assert(m.contains_key(old_e[i].0));
                lemma_bytes_lt_total(old_e[i].0, old_e[p as int].0);
                if i < p {
                    assert(bytes_lt(old_e[i].0, old_e[p as int].0));
                } else {
                    assert(bytes_lt(old_e[p as int].0, old_e[i].0));
                }
                lemma_bytes_lt_irreflexive(k);
            }
        }
        assert forall|kk: Seq<u8>| #[trigger] m2.contains_key(kk) implies exists|i: int| 0 <= i < e.len() && e[i].0 == kk by {
            if kk == k {
                assert(e[p as int].0 == kk);
            } else {
                assert(m.contains_key(kk));
                let i = choose|i: int| 0 <= i < old_e.len() && old_e[i].0 == kk;
                assert(e[i].0 == kk);
            }
        }
    } else {
        proof {
            if p < params@.len() {
                lemma_bytes_lt_total(old_e[p as int].0, k);
            }
        }
        params.insert(p, Param { key, value });
        let ghost e = param_views(params@);
        assert(e =~= old_e.insert(p as int, (k, v)));
        assert forall|i: int, j: int| 0 <= i < j < e.len() implies bytes_lt(#[trigger] e[i].0, #[trigger] e[j].0) by {
            if j < p {
                assert(e[i].0 == old_e[i].0 && e[j].0 == old_e[j].0);
            } else if j == p {
                assert(e[i].0 == old_e[i].0);
            } else if i == p {
                assert(e[j].0 == old_e[j - 1].0);
                if j - 1 > p {
                    assert(bytes_lt(old_e[p as int].0, old_e[j - 1].0));
                    lemma_bytes_lt_transitive(k, old_e[p as int].0, old_e[j - 1].0);
                }
            } else if i < p {
                assert(e[i].0 == old_e[i].0 && e[j].0 == old_e[j - 1].0);
                if j - 1 > i {
                    assert(bytes_lt(old_e[i].0, old_e[j - 1].0));
                } else {
                    lemma_bytes_lt_transitive(old_e[i].0, k, old_e[j - 1].0);
                }
            } else {
                assert(e[i].0 == old_e[i - 1].0 && e[j].0 == old_e[j - 1].0);
            }
        }
        assert forall|i: int| 0 <= i < e.len() implies #[trigger] m2.contains_key(e[i].0) && m2[e[i].0] == e[i].1 by {
            if i != p {
                let oi = if i < p { i } else { i - 1 };
                assert(e[i] == old_e[oi]);
                assert(m.contains_key(old_e[oi].0));
                if old_e[oi].0 == k {
                    if oi < p {
                        lemma_bytes_lt_irreflexive(k);
                    } else {
                        assert(oi == p || bytes_lt(old_e[p as int].0, old_e[oi].0));
                        if oi > p {
                            lemma_bytes_lt_transitive(k, old_e[p as int].0, k);
                        }
                        lemma_bytes_lt_irreflexive(k);
                    }
                }
            }
        }
        assert forall|kk: Seq<u8>| #[trigger] m2.contains_key(kk) implies exists|i: int| 0 <= i < e.len() && e[i].0 == kk by {
            if kk == k {
                assert(e[p as int].0 == kk);
            } else {
                assert(m.contains_key(kk));
                let i = choose|i: int| 0 <= i < old_e.len() && old_e[i].0 == kk;
                if i < p {
                    assert(e[i].0 == kk);
                } else {
                    assert(e[i + 1].0 == kk);
                }
            }
        }
    }
}

/// Two strictly sorted listings of one map are the same listing.
pub proof fn lemma_sorted_listing_unique(
    e1: Seq<(Seq<u8>, Seq<u8>)>,
    e2: Seq<(Seq<u8>, Seq<u8>)>,
    m: Map<Seq<u8>, Seq<u8>>,
)
    requires
        sorted_strict(e1),
        sorted_strict(e2),
        represents(e1, m),
        represents(e2, m),
    ensures
        e1 == e2,
    decreases e1.len() + e2.len(),
{
    if e1.len() == 0 || e2.len() == 0 {
        if e1.len() > 0 {
            assert(m.contains_key(e1[0].0));
        } else if e2.len() > 0 {
            assert(m.contains_key(e2[0].0));
        } else {
            assert(e1 =~= e2);
        }
    } else {
        let l1 = e1.len() - 1;
        let l2 = e2.len() - 1;
        let k1 = e1[l1].0;
        let k2 = e2[l2].0;
        assert(m.contains_key(k1));
        assert(m.contains_key(k2));
        let j = choose|j: int| 0 <= j < e2.len() && e2[j].0 == k1;
        let i = choose|i: int| 0 <= i < e1.len() && e1[i].0 == k2;
        if k1 != k2 {
            assert(j < l2 && i < l1);
            assert(bytes_lt(e2[j].0, e2[l2].0));
            assert(bytes_lt(e1[i].0, e1[l1].0));
            lemma_bytes_lt_total(k1, k2);
            assert(false);
        }
        let m2 = m.remove(k1);
        let d1 = e1.drop_last();
        let d2 = e2.drop_last();
        assert forall|a: int| 0 <= a < d1.len() implies #[trigger] m2.contains_key(d1[a].0) && m2[d1[a].0] == d1[a].1 by {
            assert(bytes_lt(e1[a].0, e1[l1].0));
            lemma_bytes_lt_irreflexive(k1);
            assert(m.contains_key(e1[a].0));
        }
        assert forall|k: Seq<u8>| #[trigger] m2.contains_key(k) implies exists|a: int| 0 <= a < d1.len() && d1[a].0 == k by {
            assert(m.contains_key(k));
            let a = choose|a: int| 0 <= a < e1.len() && e1[a].0 == k;
            assert(d1[a].0 == k);
        }
        assert forall|a: int| 0 <= a < d2.len() implies #[trigger] m2.contains_key(d2[a].0) && m2[d2[a].0] == d2[a].1 by {
            assert(bytes_lt(e2[a].0, e2[l2].0));
            lemma_bytes_lt_irreflexive(k1);
            assert(m.contains_key(e2[a].0));
        }
        assert forall|k: Seq<u8>| #[trigger] m2.contains_key(k) implies exists|a: int| 0 <= a < d2.len() && d2[a].0 == k by {
            assert(m.contains_key(k));
            let a = choose|a: int| 0 <= a < e2.len() && e2[a].0 == k;
            assert(d2[a].0 == k);
        }
        assert(sorted_strict(d1));
        assert(sorted_strict(d2));
        lemma_sorted_listing_unique(d1, d2, m2);
        assert(e1[l1] == e2[l2]);
        assert(e1 =~= d1.push(e1[l1]));
        assert(e2 =~= d2.push(e2[l2]));
    }
}

/// The entries of a map, sorted by key.
pub open spec fn sorted_listing(m: Map<Seq<u8>, Seq<u8>>) -> Seq<(Seq<u8>, Seq<u8>)> {
    choose|e: Seq<(Seq<u8>, Seq<u8>)>| sorted_strict(e) && represents(e, m)
}

/// The parameters of a payload, sorted by key.
pub open spec fn sorted_params(s: Seq<u8>) -> Seq<(Seq<u8>, Seq<u8>)> {
    sorted_listing(params_of(s))
}

/// The data-check string of a payload: its parameters but `hash`, sorted by
/// key, as `key=value` lines joined by newlines.
pub open spec fn data_check_of(s: Seq<u8>) -> Seq<u8> {
    join_lines(sorted_params(s))
}

pub proof fn lemma_sorted_params(s: Seq<u8>, e: Seq<(Seq<u8>, Seq<u8>)>)
    requires
        sorted_strict(e),
        represents(e, params_of(s)),
    ensures
        sorted_params(s) == e,
        data_check_of(s) == join_lines(e),
{
    let c = sorted_params(s);
    assert(sorted_strict(c) && represents(c, params_of(s)));
    lemma_sorted_listing_unique(c, e, params_of(s));
}

pub open spec fn opt_bytes(o: Option<Vec<u8>>) -> Option<Seq<u8>> {
    match o {
        Some(v) => Some(v@),
        None => None,
    }
}

/// Folds the piece `s[start..end]` into the parameters gathered so far.
fn take_piece(
    s: &[u8],
    start: usize,
    end: usize,
    params: &mut Vec<Param>,
    hash: &mut Option<Vec<u8>>,
    Ghost(done): Ghost<Seq<Seq<u8>>>,
) -> (pair: bool)
    requires
        start <= end <= s@.len(),
        sorted_strict(param_views(old(params)@)),
        represents(param_views(old(params)@), scan(done).0),
        opt_bytes(*old(hash)) == scan(done).1,
    ensures
        sorted_strict(param_views(final(params)@)),
        represents(
            param_views(final(params)@),
            scan(done.push(s@.subrange(start as int, end as int))).0,
        ),
        opt_bytes(*final(hash)) == scan(done.push(s@.subrange(start as int, end as int))).1,
        pair == is_pair(s@.subrange(start as int, end as int)),
{
    let ghost p = s@.subrange(start as int, end as int);
    assert(done.push(p).drop_last() =~= done);
    let mut j: usize = start;
    while j < end && s[j] != EQUALS
        invariant
            start <= j <= end <= s@.len(),
            forall|k: int| start <= k < j ==> s@[k] != EQUALS,
        decreases end - j,
    {
        j = j + 1;
    }
    if j == end {
        assert(!has_equals(p)) by {
            if has_equals(p) {
                let i = choose|i: int| first_equals_at(p, i);
                assert(p[i] == s@[start + i]);
            }
        }
        return false;
    }
    proof {
        assert forall|k: int| 0 <= k < j - start implies p[k] != EQUALS by {
            assert(p[k] == s@[start + k]);
        }
        assert(first_equals_at(p, j - start));
        lemma_first_equals_unique(p, j - start);
    }
    let mut k: usize = j + 1;
    while k < end && s[k] != EQUALS
        invariant
            j < k <= end + 1,
            j < end <= s@.len(),
            forall|m: int| j < m < k ==> s@[m] != EQUALS,
        decreases end + 1 - k,
    {
        k = k + 1;
    }
    let pair = k >= end;
    proof {
        if pair {
            assert forall|m: int| equals_index(p) < m < p.len() implies p[m] != EQUALS by {
                assert(p[m] == s@[start + m]);
            }
        } else {
            assert(p[k - start] == s@[k as int]);
        }
    }
    let key = copy_range(s, start, j);
    let value = copy_range(s, j + 1, end);
    assert(key@ =~= key_of(p));
    assert(value@ =~= value_of(p));
    if key.len() == 4 && key[0] == 104 && key[1] == 97 && key[2] == 115 && key[3] == 104 {
        assert(key@ =~= hash_key());
        *hash = Some(value);
    } else {
        assert(key@ != hash_key());
        upsert(params, key, value, Ghost(scan(done).0));
    }
    pair
}

/// Gathers the parameters and the `hash` value of a payload.
proof fn lemma_all_pairs_push(done: Seq<Seq<u8>>, p: Seq<u8>)
    ensures
        (forall|k: int| 0 <= k < done.push(p).len() ==> is_pair(#[trigger] done.push(p)[k])) == (
        (forall|k: int| 0 <= k < done.len() ==> is_pair(#[trigger] done[k])) && is_pair(p)),
{
    if forall|k: int| 0 <= k < done.len() ==> is_pair(#[trigger] done[k]) {
        if is_pair(p) {
            assert forall|k: int| 0 <= k < done.push(p).len() implies is_pair(#[trigger] done.push(p)[k]) by {
                if k < done.len() {
                    assert(done.push(p)[k] == done[k]);
                }
            }
        }
    } else {
        let k = choose|k: int| 0 <= k < done.len() && !is_pair(#[trigger] done[k]);
        assert(done.push(p)[k] == done[k]);
    }
    assert(done.push(p)[done.len() as int] == p);
}

fn collect_params(s: &[u8]) -> (r: (Vec<Param>, Option<Vec<u8>>, bool))
    ensures
        r.2 == all_pairs(s@),
        sorted_strict(param_views(r.0@)),
        represents(param_views(r.0@), params_of(s@)),
        opt_bytes(r.1) == hash_of(s@),
{
    let mut params: Vec<Param> = Vec::new();
    let mut hash: Option<Vec<u8>> = None;
    let mut start: usize = 0;
    let mut i: usize = 0;
    let mut pairs_ok = true;
    assert(param_views(params@) =~= Seq::<(Seq<u8>, Seq<u8>)>::empty());
    assert(split_on(s@.subrange(0, 0), AMPERSAND).drop_last() =~= Seq::<Seq<u8>>::empty());
    assert(s@.subrange(0, 0) =~= Seq::<u8>::empty());
    while i < s.len()
        invariant
            start <= i <= s@.len(),
            split_on(s@.subrange(0, i as int), AMPERSAND).len() > 0,
            split_on(s@.subrange(0, i as int), AMPERSAND).last() == s@.subrange(
                start as int,
                i as int,
            ),
            sorted_strict(param_views(params@)),
            represents(
                param_views(params@),
                scan(split_on(s@.subrange(0, i as int), AMPERSAND).drop_last()).0,
            ),
            opt_bytes(hash) == scan(split_on(s@.subrange(0, i as int), AMPERSAND).drop_last()).1,
            pairs_ok == forall|k: int|
                0 <= k < split_on(s@.subrange(0, i as int), AMPERSAND).drop_last().len() ==> is_pair(
                    #[trigger] split_on(s@.subrange(0, i as int), AMPERSAND).drop_last()[k],
                ),
        decreases s.len() - i,
    {
        let ghost pre = s@.subrange(0, i as int);
        let ghost pieces = split_on(pre, AMPERSAND);
        assert(s@.subrange(0, i + 1).drop_last() =~= pre);
        assert(s@.subrange(0, i + 1).last() == s@[i as int]);
        if s[i] == AMPERSAND {
            let pair = take_piece(s, start, i, &mut params, &mut hash, Ghost(pieces.drop_last()));
            assert(pieces.drop_last().push(pieces.last()) =~= pieces);
            proof {
                lemma_all_pairs_push(pieces.drop_last(), pieces.last());
            }
            pairs_ok = pairs_ok && pair;
            assert(split_on(s@.subrange(0, i + 1), AMPERSAND).drop_last() =~= pieces);
            start = i + 1;
            assert(s@.subrange(start as int, i + 1) =~= Seq::<u8>::empty());
        } else {
            assert(split_on(s@.subrange(0, i + 1), AMPERSAND).drop_last() =~= pieces.drop_last());
            assert(s@.subrange(start as int, i + 1) =~= s@.subrange(start as int, i as int).push(
                s@[i as int],
            ));
        }
        i = i + 1;
    }
    assert(s@.subrange(0, s@.len() as int) =~= s@);
    let ghost pieces = split_on(s@, AMPERSAND);
    let pair = take_piece(s, start, s.len(), &mut params, &mut hash, Ghost(pieces.drop_last()));
    assert(pieces.drop_last().push(pieces.last()) =~= pieces);
    proof {
        lemma_all_pairs_push(pieces.drop_last(), pieces.last());
    }
    (params, hash, pairs_ok && pair)
}

fn append_bytes(out: &mut Vec<u8>, b: &[u8])
    ensures
        final(out)@ == old(out)@ + b@,
{
    let mut i: usize = 0;
    while i < b.len()
        invariant
            i <= b@.len(),
            out@ == old(out)@ + b@.subrange(0, i as int),
        decreases b.len() - i,
    {
        out.push(b[i]);
        assert(old(out)@ + b@.subrange(0, i + 1) =~= old(out)@ + b@.subrange(0, i as int) + seq![b@[i as int]]);
        i = i + 1;
    }
    assert(b@.subrange(0, b@.len() as int) =~= b@);
}

/// The `key=value` lines of `params`, joined by newlines.
fn join_params(params: &Vec<Param>) -> (r: Vec<u8>)
    ensures
        r@ == join_lines(param_views(params@)),
{
    let ghost e = param_views(params@);
    let mut r: Vec<u8> = Vec::new();
    let mut i: usize = 0;
    assert(e.subrange(0, 0) =~= Seq::<(Seq<u8>, Seq<u8>)>::empty());
    while i < params.len()
        invariant
            i <= params@.len(),
            e == param_views(params@),
            r@ == join_lines(e.subrange(0, i as int)),
        decreases params.len() - i,
    {
        let ghost before = r@;
        if i > 0 {
            r.push(NEWLINE);
        }
        append_bytes(&mut r, params[i].key.as_slice());
        r.push(EQUALS);
        append_bytes(&mut r, params[i].value.as_slice());
        assert(e.subrange(0, i + 1).drop_last() =~= e.subrange(0, i as int));
        assert(e[i as int] == (params@[i as int].key@, params@[i as int].value@));
        if i > 0 {
            assert(r@ =~= before + seq![NEWLINE] + pair_line(e[i as int]));
        } else {
            assert(r@ =~= pair_line(e[i as int]));
        }
        i = i + 1;
    }
    assert(e.subrange(0, i as int) =~= e);
    r
}

/// Finds the value of `key` among sorted parameters.
fn find_param<'a>(params: &'a Vec<Param>, key: &[u8], Ghost(m): Ghost<Map<Seq<u8>, Seq<u8>>>) -> (r: Option<&'a Vec<u8>>)
    requires
        represents(param_views(params@), m),
    ensures
        r is Some <==> m.contains_key(key@),
        r matches Some(v) ==> v@ == m[key@],
{
    let mut i: usize = 0;
    while i < params.len()
        invariant
            i <= params@.len(),
            represents(param_views(params@), m),
            forall|j: int| 0 <= j < i ==> params@[j].key@ != key@,
        decreases params.len() - i,
    {
        if bytes_equal(params[i].key.as_slice(), key) {
            assert(param_views(params@)[i as int].0 == key@);
            assert(m.contains_key(param_views(params@)[i as int].0));
            return Some(&params[i].value);
        }
        i = i + 1;
    }
    proof {
        if m.contains_key(key@) {
            let j = choose|j: int| 0 <= j < param_views(params@).len() && param_views(params@)[j].0 == key@;
            assert(params@[j].key@ == key@);
        }
    }
    None
}

/// Checks a payload up to its signature, and puts its parameters in
/// canonical form.
pub fn parse_init_data(s: &[u8], now: u64) -> (r: Result<InitDataCheck, InitDataError>)
    ensures
        match r {
            Ok(c) => init_data_error(s@, now) is None && is_check_of(c, s@),
            Err(e) => init_data_error(s@, now) == Some(e),
        },
{
    if s.len() > MAX_INIT_DATA_LEN {
        return Err(InitDataError::TooLong);
    }
    let mut i: usize = 0;
    while i < s.len()
        invariant
            i <= s@.len(),
            s@.len() <= MAX_INIT_DATA_LEN,
            forall|j: int| 0 <= j < i ==> allowed_byte(#[trigger] s@[j]),
        decreases s.len() - i,
    {
        if s[i] < 0x20 || s[i] > 0x7e {
            assert(!allowed_byte(s@[i as int]));
            assert(exists|j: int| 0 <= j < s@.len() && !allowed_byte(#[trigger] s@[j]));
            return Err(InitDataError::InvalidCharacters);
        }
        i = i + 1;
    }
    let (params, hash, pairs_ok) = collect_params(s);
    if !pairs_ok {
        return Err(InitDataError::MalformedPair);
    }
    let hash = match hash {
        Some(h) => h,
        None => {
            return Err(InitDataError::MissingHash);
        },
    };
    let auth_key: Vec<u8> = vec![97u8, 117u8, 116u8, 104u8, 95u8, 100u8, 97u8, 116u8, 101u8];
    assert(auth_key@ =~= auth_date_key());
    let auth_raw = match find_param(&params, auth_key.as_slice(), Ghost(params_of(s@))) {
        Some(v) => v,
        None => {
            return Err(InitDataError::MissingAuthDate);
        },
    };
    let auth_date = match parse_u64(auth_raw.as_slice()) {
        Some(d) => d,
        None => {
            return Err(InitDataError::InvalidAuthDate);
        },
    };
    if auth_date <= u64::MAX - AUTH_DATE_WINDOW && now > auth_date + AUTH_DATE_WINDOW {
        return Err(InitDataError::Expired);
    }
    let data_check = join_params(&params);
    Ok(InitDataCheck { params, data_check, hash, auth_date })
}

/// HMAC-SHA256 of a message under a key.
pub uninterp spec fn hmac_sha256(key: Seq<u8>, msg: Seq<u8>) -> Seq<u8>;

/// Relies on hmac's `Hmac<Sha256>` (`Mac::new_from_slice`, `update`,
/// `finalize`): the tag depends on key and message alone, and is SHA-256's
/// 32 output bytes. `new_from_slice` takes a key of any length.
#[verifier::external_body]
fn hmac_sha256_tag(key: &[u8], msg: &[u8]) -> (r: Vec<u8>)
    ensures
        r@ == hmac_sha256(key@, msg@),
        r@.len() == 32,
{
    let mut mac = <hmac::Hmac<sha2::Sha256> as hmac::Mac>::new_from_slice(key)
        .expect("HMAC takes a key of any length");
    hmac::Mac::update(&mut mac, msg);
    hmac::Mac::finalize(mac).into_bytes().to_vec()
}

/// The label under which the bot token is turned into the verification key.
pub open spec fn web_app_data() -> Seq<u8> {
    seq![87u8, 101u8, 98u8, 65u8, 112u8, 112u8, 68u8, 97u8, 116u8, 97u8]
}

/// The key that init data is signed with: HMAC-SHA256 of the bot token under
/// the key `WebAppData`.
pub fn derive_secret_key(bot_token: &str) -> (r: Vec<u8>)
    ensures
        r@ == hmac_sha256(web_app_data(), bot_token.spec_bytes()),
{
    let label: Vec<u8> = vec![87u8, 101u8, 98u8, 65u8, 112u8, 112u8, 68u8, 97u8, 116u8, 97u8];
    assert(label@ =~= web_app_data());
    hmac_sha256_tag(label.as_slice(), bot_token.as_bytes())
}

/// Whether the reported `hash` is the lowercase hex form of the computed tag,
/// compared in constant time.
pub fn signature_matches(tag: &[u8], hash: &[u8]) -> (r: bool)
    ensures
        r == (hex_lower(tag@) == hash@),
{
    let computed = hex_encode(tag);
    bytes_equal_constant_time(computed.as_slice(), hash)
}

/// The outcome of checking a payload `s` under `key` at time `now`.
pub open spec fn init_data_verdict(s: Seq<u8>, key: Seq<u8>, now: u64) -> Result<bool, InitDataError> {
    match init_data_error(s, now) {
        Some(e) => Err(e),
        None => Ok(hex_lower(hmac_sha256(key, data_check_of(s))) == hash_of(s)->0),
    }
}

/// Checks a decoded init-data payload against the signing key at time `now`
/// (seconds since the epoch): `Ok(true)` when it is authentic, `Ok(false)`
/// when its signature does not match, and an error when it is malformed or
/// expired.
pub fn validate_init_data(init_data: &str, secret_key: &[u8], now: u64) -> (r: Result<bool, InitDataError>)
    ensures
        r == init_data_verdict(init_data.spec_bytes(), secret_key@, now),
{
    let s = init_data.as_bytes();
    let check = match parse_init_data(s, now) {
        Ok(c) => c,
        Err(e) => {
            return Err(e);
        },
    };
    proof {
        lemma_sorted_params(s@, param_views(check.params@));
    }
    let tag = hmac_sha256_tag(secret_key, check.data_check.as_slice());
    Ok(signature_matches(tag.as_slice(), check.hash.as_slice()))
}

/// A well-formed, fresh payload is accepted exactly when its `hash` is the
/// lowercase hex HMAC-SHA256 of its data-check string under the key; any
/// other `hash` is refused.
pub proof fn lemma_init_data_accepted_iff_signed(s: Seq<u8>, key: Seq<u8>, now: u64)
    requires
        init_data_error(s, now) is None,
    ensures
        init_data_verdict(s, key, now) == Ok::<bool, InitDataError>(true) <==> hash_of(s) == Some(
            hex_lower(hmac_sha256(key, data_check_of(s))),
        ),
        init_data_verdict(s, key, now) is Ok,
{
}

/// The value of the parameter `key` in a payload (the last one where it
/// repeats), such as the JSON of `user`; never the `hash`.
pub fn init_data_param(init_data: &str, key: &[u8]) -> (r: Option<Vec<u8>>)
    ensures
        opt_bytes(r) == (if params_of(init_data.spec_bytes()).contains_key(key@) {
            Some(params_of(init_data.spec_bytes())[key@])
        } else {
            None
        }),
{
    let s = init_data.as_bytes();
    let (params, _, _) = collect_params(s);
    match find_param(&params, key, Ghost(params_of(s@))) {
        Some(v) => {
            let r = copy_range(v.as_slice(), 0, v.len());
            assert(r@ =~= v@);
            Some(r)
        },
        None => None,
    }
}

/// `&hash=` followed by a value: how a payload ends that carries its
/// signature last.
pub open spec fn hash_suffix(h: Seq<u8>) -> Seq<u8> {
    seq![AMPERSAND] + hash_key() + seq![EQUALS] + h
}

pub open spec fn has_no(s: Seq<u8>, b: u8) -> bool {
    forall|i: int| 0 <= i < s.len() ==> s[i] != b
}

proof fn lemma_split_after_separator(a: Seq<u8>, b: Seq<u8>)
    requires
        has_no(b, AMPERSAND),
    ensures
        split_on(a + seq![AMPERSAND] + b, AMPERSAND) == split_on(a, AMPERSAND).push(b),
    decreases b.len(),
{
    let s = a + seq![AMPERSAND] + b;
    if b.len() == 0 {
        assert(s.drop_last() =~= a);
        assert(b =~= Seq::<u8>::empty());
    } else {
        let b1 = b.drop_last();
        lemma_split_after_separator(a, b1);
        assert(s.drop_last() =~= a + seq![AMPERSAND] + b1);
        assert(s.last() == b.last());
        assert(b1.push(b.last()) =~= b);
        assert(split_on(a, AMPERSAND).push(b1).update(split_on(a, AMPERSAND).len() as int, b)
            =~= split_on(a, AMPERSAND).push(b));
    }
}

proof fn lemma_scan_hash_last(body: Seq<u8>, h: Seq<u8>)
    requires
        has_no(h, AMPERSAND),
    ensures
        params_of(body + hash_suffix(h)) == params_of(body),
        hash_of(body + hash_suffix(h)) == Some(h),
{
    let x = hash_key() + seq![EQUALS] + h;
    assert(body + hash_suffix(h) =~= body + seq![AMPERSAND] + x);
    assert(has_no(x, AMPERSAND)) by {
        assert forall|i: int| 0 <= i < x.len() implies x[i] != AMPERSAND by {
            if i >= 5 {
                assert(x[i] == h[i - 5]);
            }
        }
    }
    lemma_split_after_separator(body, x);
    let pieces = split_on(body, AMPERSAND).push(x);
    assert(pieces.drop_last() =~= split_on(body, AMPERSAND));
    assert(first_equals_at(x, 4));
    lemma_first_equals_unique(x, 4);
    assert(key_of(x) =~= hash_key());
    assert(value_of(x) =~= h);
}

/// Replacing the signature of an accepted payload that carries it last,
/// `body&hash=h`, by any other value without `&` makes the payload refused:
/// the data-check string does not cover the signature.
pub proof fn lemma_other_hash_refused(body: Seq<u8>, h: Seq<u8>, h2: Seq<u8>, key: Seq<u8>, now: u64)
    requires
        has_no(h, AMPERSAND),
        has_no(h2, AMPERSAND),
        h != h2,
        init_data_verdict(body + hash_suffix(h), key, now) == Ok::<bool, InitDataError>(true),
    ensures
        init_data_verdict(body + hash_suffix(h2), key, now) != Ok::<bool, InitDataError>(true),
{
    lemma_scan_hash_last(body, h);
    lemma_scan_hash_last(body, h2);
    assert(data_check_of(body + hash_suffix(h)) == data_check_of(body + hash_suffix(h2)));
}

} // verus!
