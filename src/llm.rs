//! What the lesson generator is asked.
use vstd::prelude::*;
use crate::lesson::{language_code, level_name, LessonQuery};

verus! {

/// The request sent, as JSON, to the lesson generator.
pub struct LanguageLearningRequest {
    pub level: String,
    pub source_language: String,
    pub target_language: String,
}

impl LanguageLearningRequest {
    pub fn new(level: &str, source_language: &str, target_language: &str) -> (r: Self)
        ensures
            r.level@ == level@,
            r.source_language@ == source_language@,
            r.target_language@ == target_language@,
    {
        LanguageLearningRequest {
            level: level.to_owned(),
            source_language: source_language.to_owned(),
            target_language: target_language.to_owned(),
        }
    }

    /// The request for a lesson query: the level's name and the two
    /// languages' upper-case codes.
    pub fn for_query(query: &LessonQuery) -> (r: Self)
        ensures
            r.level@ == level_name(query.level),
            r.source_language@ == language_code(query.source_language),
            r.target_language@ == language_code(query.target_language),
    {
        LanguageLearningRequest::new(
            query.level.as_str(),
            query.source_language.code(),
            query.target_language.code(),
        )
    }
}

} // verus!
