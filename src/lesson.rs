//! Lesson selection: which stored lessons a learner may be given, and the
//! uniform pick among them.
use vstd::prelude::*;

verus! {

/// CEFR level.
#[derive(Clone, Copy, Debug, PartialEq, Eq, Structural)]
pub enum Level {
    A1,
    A2,
    B1,
    B2,
    C1,
    C2,
}

/// A language, by its upper-case code.
#[derive(Clone, Copy, Debug, PartialEq, Eq, Structural)]
pub enum Language {
    EN,
    ES,
    ZH,
    AR,
    PT,
    RU,
    JP,
    DE,
    KO,
    FR,
    TR,
    IT,
    UK,
    PL,
    CZ,
}

/// The level that a wire name denotes (exact, upper case).
pub open spec fn level_of_name(s: Seq<char>) -> Option<Level> {
    if s == "A1"@ {
        Some(Level::A1)
    } else if s == "A2"@ {
        Some(Level::A2)
    } else if s == "B1"@ {
        Some(Level::B1)
    } else if s == "B2"@ {
        Some(Level::B2)
    } else if s == "C1"@ {
        Some(Level::C1)
    } else if s == "C2"@ {
        Some(Level::C2)
    } else {
        None
    }
}

pub open spec fn level_name(l: Level) -> Seq<char> {
    match l {
        Level::A1 => "A1"@,
        Level::A2 => "A2"@,
        Level::B1 => "B1"@,
        Level::B2 => "B2"@,
        Level::C1 => "C1"@,
        Level::C2 => "C2"@,
    }
}

fn same_text(a: &str, b: &str) -> (r: bool)
    ensures
        r == (a@ == b@),
{
    a.to_owned() == b.to_owned()
}

impl Level {
    /// Parses a level name such as `B2`.
    pub fn from_name(input: &str) -> (r: Result<Level, ()>)
        ensures
            match level_of_name(input@) {
                Some(l) => r == Ok::<Level, ()>(l),
                None => r is Err,
            },
    {
        if same_text(input, "A1") {
            Ok(Level::A1)
        } else if same_text(input, "A2") {
            Ok(Level::A2)
        } else if same_text(input, "B1") {
            Ok(Level::B1)
        } else if same_text(input, "B2") {
            Ok(Level::B2)
        } else if same_text(input, "C1") {
            Ok(Level::C1)
        } else if same_text(input, "C2") {
            Ok(Level::C2)
        } else {
            Err(())
        }
    }

    /// The wire name, as the store's enum and the generator take it.
    pub fn as_str(&self) -> (r: &'static str)
        ensures
            r@ == level_name(*self),
    {
        match self {
            Level::A1 => "A1",
            Level::A2 => "A2",
            Level::B1 => "B1",
            Level::B2 => "B2",
            Level::C1 => "C1",
            Level::C2 => "C2",
        }
    }
}

impl std::str::FromStr for Level {
    type Err = ();

    fn from_str(input: &str) -> Result<Level, ()> {
        Level::from_name(input)
    }
}

/// The lower-case form of a string.
pub uninterp spec fn lower_of(s: Seq<char>) -> Seq<char>;

/// The lower-case form of an ASCII character: `A` to `Z` become `a` to `z`,
/// every other character stays.
pub open spec fn ascii_lower(c: char) -> char {
    if 'A' <= c && c <= 'Z' {
        ((c as u8) + 32) as u8 as char
    } else {
        c
    }
}

pub open spec fn is_ascii_text(s: Seq<char>) -> bool {
    forall|i: int| 0 <= i < s.len() ==> (#[trigger] s[i] as u32) < 128
}

/// The lower-case form of a string, spelled out for ASCII.
pub open spec fn lowered(s: Seq<char>) -> Seq<char> {
    if is_ascii_text(s) {
        s.map_values(|c: char| ascii_lower(c))
    } else {
        lower_of(s)
    }
}

/// Relies on `str::to_lowercase`: the result depends on the characters
/// alone, and an ASCII string is lowered character by character, `A` to `Z`
/// becoming `a` to `z`.
#[verifier::external_body]
fn lowercase(s: &str) -> (r: String)
    ensures
        r@ == lower_of(s@),
        is_ascii_text(s@) ==> r@ == s@.map_values(|c: char| ascii_lower(c)),
{
    s.to_lowercase()
}

/// The language that a lower-case code denotes.
pub open spec fn language_of_code(s: Seq<char>) -> Option<Language> {
    if s == "en"@ {
        Some(Language::EN)
    } else if s == "es"@ {
        Some(Language::ES)
    } else if s == "zh"@ {
        Some(Language::ZH)
    } else if s == "ar"@ {
        Some(Language::AR)
    } else if s == "pt"@ {
        Some(Language::PT)
    } else if s == "ru"@ {
        Some(Language::RU)
    } else if s == "jp"@ {
        Some(Language::JP)
    } else if s == "de"@ {
        Some(Language::DE)
    } else if s == "ko"@ {
        Some(Language::KO)
    } else if s == "fr"@ {
        Some(Language::FR)
    } else if s == "tr"@ {
        Some(Language::TR)
    } else if s == "it"@ {
        Some(Language::IT)
    } else if s == "uk"@ {
        Some(Language::UK)
    } else if s == "pl"@ {
        Some(Language::PL)
    } else if s == "cz"@ {
        Some(Language::CZ)
    } else {
        None
    }
}

pub open spec fn language_code(l: Language) -> Seq<char> {
    match l {
        Language::EN => "EN"@,
        Language::ES => "ES"@,
        Language::ZH => "ZH"@,
        Language::AR => "AR"@,
        Language::PT => "PT"@,
        Language::RU => "RU"@,
        Language::JP => "JP"@,
        Language::DE => "DE"@,
        Language::KO => "KO"@,
        Language::FR => "FR"@,
        Language::TR => "TR"@,
        Language::IT => "IT"@,
        Language::UK => "UK"@,
        Language::PL => "PL"@,
        Language::CZ => "CZ"@,
    }
}

pub open spec fn language_name(l: Language) -> Seq<char> {
    match l {
        Language::EN => "English"@,
        Language::ES => "Spanish"@,
        Language::ZH => "Chinese"@,
        Language::AR => "Arabic"@,
        Language::PT => "Portuguese"@,
        Language::RU => "Russian"@,
        Language::JP => "Japanese"@,
        Language::DE => "German"@,
        Language::KO => "Korean"@,
        Language::FR => "French"@,
        Language::TR => "Turkish"@,
        Language::IT => "Italian"@,
        Language::UK => "Ukrainian"@,
        Language::PL => "Polish"@,
        Language::CZ => "Czech"@,
    }
}

impl Language {
    /// The language of an already lower-cased code such as `de`.
    pub fn from_lower_code(code: &str) -> (r: Result<Language, ()>)
        ensures
            match language_of_code(code@) {
                Some(l) => r == Ok::<Language, ()>(l),
                None => r is Err,
            },
    {
        if same_text(code, "en") {
            Ok(Language::EN)
        } else if same_text(code, "es") {
            Ok(Language::ES)
        } else if same_text(code, "zh") {
            Ok(Language::ZH)
        } else if same_text(code, "ar") {
            Ok(Language::AR)
        } else if same_text(code, "pt") {
            Ok(Language::PT)
        } else if same_text(code, "ru") {
            Ok(Language::RU)
        } else if same_text(code, "jp") {
            Ok(Language::JP)
        } else if same_text(code, "de") {
            Ok(Language::DE)
        } else if same_text(code, "ko") {
            Ok(Language::KO)
        } else if same_text(code, "fr") {
            Ok(Language::FR)
        } else if same_text(code, "tr") {
            Ok(Language::TR)
        } else if same_text(code, "it") {
            Ok(Language::IT)
        } else if same_text(code, "uk") {
            Ok(Language::UK)
        } else if same_text(code, "pl") {
            Ok(Language::PL)
        } else if same_text(code, "cz") {
            Ok(Language::CZ)
        } else {
            Err(())
        }
    }

    /// Parses a language code in either case, such as `DE` or `de`.
    pub fn from_code(input: &str) -> (r: Result<Language, ()>)
        ensures
            match language_of_code(lowered(input@)) {
                Some(l) => r == Ok::<Language, ()>(l),
                None => r is Err,
            },
    {
        let lower = lowercase(input);
        Language::from_lower_code(lower.as_str())
    }

    /// The upper-case code, as the store's enum and the generator take it.
    pub fn code(&self) -> (r: &'static str)
        ensures
            r@ == language_code(*self),
    {
        match self {
            Language::EN => "EN",
            Language::ES => "ES",
            Language::ZH => "ZH",
            Language::AR => "AR",
            Language::PT => "PT",
            Language::RU => "RU",
            Language::JP => "JP",
            Language::DE => "DE",
            Language::KO => "KO",
            Language::FR => "FR",
            Language::TR => "TR",
            Language::IT => "IT",
            Language::UK => "UK",
            Language::PL => "PL",
            Language::CZ => "CZ",
        }
    }

    /// The English name of the language.
    pub fn as_name(&self) -> (r: &'static str)
        ensures
            r@ == language_name(*self),
    {
        match self {
            Language::EN => "English",
            Language::ES => "Spanish",
            Language::ZH => "Chinese",
            Language::AR => "Arabic",
            Language::PT => "Portuguese",
            Language::RU => "Russian",
            Language::JP => "Japanese",
            Language::DE => "German",
            Language::KO => "Korean",
            Language::FR => "French",
            Language::TR => "Turkish",
            Language::IT => "Italian",
            Language::UK => "Ukrainian",
            Language::PL => "Polish",
            Language::CZ => "Czech",
        }
    }
}

impl std::str::FromStr for Language {
    type Err = ();

    fn from_str(input: &str) -> Result<Language, ()> {
        Language::from_code(input)
    }
}

/// The query of a lesson request.
pub struct LessonQuery {
    pub level: Level,
    pub source_language: Language,
    pub target_language: Language,
}

/// A stored lesson, as selection reads it.
pub struct LessonRow {
    pub id: String,
    pub studied_lang: Language,
    pub lesson_lang: Language,
    pub level: Level,
}

/// A stored assignment of a lesson to a user. `next_available` is set by
/// scoring; an unscored assignment has none.
pub struct UserLessonRow {
    pub id: String,
    pub user_id: i64,
    pub lesson_id: String,
    pub next_available: Option<i64>,
}

/// The lesson is in the requested language pair and level: it teaches the
/// target language, in the source language.
pub open spec fn matches_query(l: LessonRow, q: LessonQuery) -> bool {
    l.studied_lang == q.target_language && l.lesson_lang == q.source_language && l.level == q.level
}

/// Every assignment of the lesson to the user has cooled down before `now`.
pub open spec fn is_available(l: LessonRow, uls: Seq<UserLessonRow>, user: i64, now: i64) -> bool {
    forall|j: int|
        0 <= j < uls.len() && (#[trigger] uls[j]).user_id == user && uls[j].lesson_id@ == l.id@
            ==> (uls[j].next_available matches Some(t) && t < now)
}

pub open spec fn eligible(l: LessonRow, uls: Seq<UserLessonRow>, user: i64, q: LessonQuery, now: i64) -> bool {
    matches_query(l, q) && is_available(l, uls, user, now)
}

/// The positions of the eligible lessons, in order.
pub open spec fn candidates(
    ls: Seq<LessonRow>,
    uls: Seq<UserLessonRow>,
    user: i64,
    q: LessonQuery,
    now: i64,
) -> Seq<int>
    decreases ls.len(),
{
    if ls.len() == 0 {
        seq![]
    } else {
        let c = candidates(ls.drop_last(), uls, user, q, now);
        if eligible(ls.last(), uls, user, q, now) {
            c.push(ls.len() - 1)
        } else {
            c
        }
    }
}

fn available(lesson: &LessonRow, assignments: &Vec<UserLessonRow>, user_id: i64, now: i64) -> (r: bool)
    ensures
        r == is_available(*lesson, assignments@, user_id, now),
{
    let mut j: usize = 0;
    while j < assignments.len()
        invariant
            j <= assignments@.len(),
            forall|k: int|
                0 <= k < j && (#[trigger] assignments@[k]).user_id == user_id
                    && assignments@[k].lesson_id@ == lesson.id@ ==> (
                assignments@[k].next_available matches Some(t) && t < now),
        decreases assignments.len() - j,
    {
        let a = &assignments[j];
        if a.user_id == user_id && a.lesson_id == lesson.id {
            match a.next_available {
                Some(t) => {
                    if t >= now {
                        return false;
                    }
                },
                None => {
                    return false;
                },
            }
        }
        j = j + 1;
    }
    true
}

/// Picks, uniformly by `draw`, one of the lessons that the user may be given
/// now: one in the requested pair and level with no assignment to the user
/// still cooling down. Its position is `candidates[draw % n]` among the `n`
/// eligible ones; there is none when `n` is zero.
pub fn select_lesson(
    lessons: &Vec<LessonRow>,
    assignments: &Vec<UserLessonRow>,
    user_id: i64,
    query: &LessonQuery,
    now: i64,
    draw: u64,
) -> (r: Option<usize>)
    ensures
        ({
            let c = candidates(lessons@, assignments@, user_id, *query, now);
            if c.len() == 0 {
                r is None
            } else {
                r == Some(c[(draw % (c.len() as u64)) as int] as usize)
            }
        }),
{
    let mut found: Vec<usize> = Vec::new();
    let mut i: usize = 0;
    while i < lessons.len()
        invariant
            i <= lessons@.len(),
            found@.len() <= i,
            found@.map_values(|x: usize| x as int) == candidates(
                lessons@.subrange(0, i as int),
                assignments@,
                user_id,
                *query,
                now,
            ),
        decreases lessons.len() - i,
    {
        let ghost before = found@;
        let l = &lessons[i];
        assert(lessons@.subrange(0, i + 1).drop_last() =~= lessons@.subrange(0, i as int));
        if l.studied_lang == query.target_language && l.lesson_lang == query.source_language
            && l.level == query.level && available(l, assignments, user_id, now) {
            found.push(i);
            assert(found@.map_values(|x: usize| x as int) =~= before.map_values(|x: usize| x as int).push(i as int));
        }
        i = i + 1;
    }
    assert(lessons@.subrange(0, lessons@.len() as int) =~= lessons@);
    let n = found.len();
    if n == 0 {
        return None;
    }
    let k = (draw % (n as u64)) as usize;
    assert(found@.map_values(|x: usize| x as int)[k as int] == found@[k as int] as int);
    Some(found[k])
}

/// Every candidate is a position of a lesson that matches the query and has
/// no assignment to the user that is unscored or cooling down at `now`.
pub proof fn lemma_candidates_eligible(
    ls: Seq<LessonRow>,
    uls: Seq<UserLessonRow>,
    user: i64,
    q: LessonQuery,
    now: i64,
)
    ensures
        forall|k: int|
            0 <= k < candidates(ls, uls, user, q, now).len() ==> {
                let i = #[trigger] candidates(ls, uls, user, q, now)[k];
                &&& 0 <= i < ls.len()
                &&& matches_query(ls[i], q)
                &&& forall|j: int|
                    0 <= j < uls.len() && (#[trigger] uls[j]).user_id == user && uls[j].lesson_id@
                        == ls[i].id@ ==> (uls[j].next_available matches Some(t) && t < now)
            },
    decreases ls.len(),
{
    if ls.len() > 0 {
        lemma_candidates_eligible(ls.drop_last(), uls, user, q, now);
        let c = candidates(ls, uls, user, q, now);
        let p = candidates(ls.drop_last(), uls, user, q, now);
        assert forall|k: int| 0 <= k < c.len() implies {
            let i = #[trigger] c[k];
            &&& 0 <= i < ls.len()
            &&& matches_query(ls[i], q)
            &&& forall|j: int|
                0 <= j < uls.len() && (#[trigger] uls[j]).user_id == user && uls[j].lesson_id@
                    == ls[i].id@ ==> (uls[j].next_available matches Some(t) && t < now)
        } by {
            if k < p.len() {
                assert(c[k] == p[k]);
                assert(ls.drop_last()[p[k]] == ls[p[k]]);
            }
        }
    }
}

/// With exactly one eligible lesson, every draw selects it.
pub proof fn lemma_single_candidate(
    ls: Seq<LessonRow>,
    uls: Seq<UserLessonRow>,
    user: i64,
    q: LessonQuery,
    now: i64,
    draw: u64,
)
    requires
        candidates(ls, uls, user, q, now).len() == 1,
    ensures
        (draw % (candidates(ls, uls, user, q, now).len() as u64)) as int == 0,
{
}

} // verus!
