//! How a question is laid out in storage: its distractors are kept as one
//! JSON array of strings.
use vstd::prelude::*;
use crate::quiz::{Question, texts};

verus! {

#[verifier::external_type_specification]
#[verifier::external_body]
pub struct ExJsonError(serde_json::Error);

/// The JSON text of a list of strings, as serde_json writes it.
pub uninterp spec fn json_of_strings(items: Seq<Seq<char>>) -> Seq<char>;

/// The list of strings that a JSON text holds, if it holds one.
pub uninterp spec fn strings_of_json(s: Seq<char>) -> Option<Seq<Seq<char>>>;

/// Relies on serde_json::to_string, on a list of strings: the JSON array of
/// them.
#[verifier::external_body]
fn strings_to_json(items: &Vec<String>) -> (r: Result<String, serde_json::Error>)
    ensures
        r matches Ok(s) ==> s@ == json_of_strings(texts(items@)),
{
    serde_json::to_string(items)
}

/// Relies on serde_json::from_str, read as a list of strings: it succeeds
/// exactly when the text holds such a list, and gives its items.
#[verifier::external_body]
fn strings_from_json(s: &str) -> (r: Result<Vec<String>, serde_json::Error>)
    ensures
        r is Ok <==> strings_of_json(s@) is Some,
        r matches Ok(v) ==> texts(v@) == strings_of_json(s@)->0,
{
    serde_json::from_str::<Vec<String>>(s)
}

/// Why a stored question could not be written or read.
#[derive(Clone, Copy, Debug, PartialEq, Eq, Structural)]
pub enum StoreError {
    /// The distractors could not be written as JSON.
    Encode,
    /// The stored distractors are not a JSON array of strings.
    Decode,
}

/// The stored form of a question's distractors.
pub fn encode_distractors(q: &Question) -> (r: Result<String, StoreError>)
    ensures
        r matches Ok(s) ==> s@ == json_of_strings(texts(q.distractors@)),
        r matches Err(e) ==> e == StoreError::Encode,
{
    match strings_to_json(&q.distractors) {
        Ok(s) => Ok(s),
        Err(_) => Err(StoreError::Encode),
    }
}

/// The question stored under `id` with the given columns; it carries no
/// tags. Fails exactly when `distractors` is not a JSON array of strings.
pub fn question_from_columns(id: i64, description: String, answer: String, distractors: &str) -> (r:
    Result<Question, StoreError>)
    ensures
        r is Err <==> strings_of_json(distractors@) is None,
        r matches Err(e) ==> e == StoreError::Decode,
        r matches Ok(q) ==> {
            &&& q.id == Some(id)
            &&& q.description@ == description@
            &&& q.answer@ == answer@
            &&& texts(q.distractors@) == strings_of_json(distractors@)->0
            &&& q.tags@.len() == 0
        },
{
    match strings_from_json(distractors) {
        Ok(ds) => Ok(Question { id: Some(id), description, answer, distractors: ds, tags: Vec::new() }),
        Err(_) => Err(StoreError::Decode),
    }
}

/// The parameters of the tag-filter query: the wanted tags, then the
/// refused ones.
pub fn query_params(has_tags: Vec<String>, no_tags: Vec<String>) -> (r: Vec<String>)
    ensures
        r@ == has_tags@ + no_tags@,
{
    let mut r = has_tags;
    let mut rest = no_tags;
    r.append(&mut rest);
    r
}

/// Questions fetched once and then served again without asking the store.
#[derive(Debug)]
pub struct QuestionCache {
    questions: Option<Vec<Question>>,
}

impl QuestionCache {
    /// What the cache holds, if it has been filled.
    pub closed spec fn spec_cached(&self) -> Option<Seq<Question>> {
        match self.questions {
            Some(v) => Some(v@),
            None => None,
        }
    }

    /// An empty cache.
    pub fn new() -> (r: Self)
        ensures
            r.spec_cached() is None,
    {
        QuestionCache { questions: None }
    }

    /// The questions held, if the cache has been filled.
    pub fn cached(&self) -> (r: Option<&Vec<Question>>)
        ensures
            r is Some <==> self.spec_cached() is Some,
            r matches Some(v) ==> v@ == self.spec_cached()->0,
    {
        match &self.questions {
            Some(v) => Some(v),
            None => None,
        }
    }

    /// Fills the cache with `questions`, replacing what it held.
    pub fn fill(&mut self, questions: Vec<Question>)
        ensures
            final(self).spec_cached() == Some(questions@),
    {
        self.questions = Some(questions);
    }
}

} // verus!
