//! The body of a generated lesson.
use vstd::prelude::*;
use std::collections::HashMap;

verus! {

/// One exercise. `error_explanation` maps a wrong answer to why it is wrong.
pub enum Task {
    FillInTheBlank {
        question: String,
        options: Vec<String>,
        answer: String,
        hint: String,
        error_explanation: HashMap<String, String>,
    },
    RearrangeSentence {
        question: Vec<String>,
        answer: String,
        hint: String,
        error_explanation: HashMap<String, String>,
    },
    TranslateSentence {
        question: String,
        answer: String,
        hint: String,
        error_explanation: HashMap<String, String>,
    },
    ChooseTranslation {
        question: String,
        options: Vec<String>,
        answer: String,
        hint: String,
        error_explanation: HashMap<String, String>,
    },
}

pub struct ErrorExplanation {
    /// The option that is incorrect.
    pub option: String,
    /// Why that option is incorrect.
    pub explanation: String,
}

pub struct Lesson {
    pub level: String,
    pub tasks: Vec<Task>,
}

pub struct Input {
    /// The learner's level, such as A1.
    pub level: String,
    /// The language the learner knows, such as "en".
    pub source_language: String,
    /// The language the learner studies, such as "de".
    pub target_language: String,
}

} // verus!
