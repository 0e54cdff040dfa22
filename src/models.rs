use vstd::prelude::*;

use crate::ai::AIEvaluation;
use crate::optimizations::{is_blank, trimmed};
use crate::json::json_array_text;
use crate::workflow::{stored_grade, stored_suggestions, suggestions_of};
use crate::parsers::DocumentParser;
use crate::text::{chars_of, opt_text, same_text};

verus! {

/// The format of a stored document.
#[derive(Debug, Clone, Copy, PartialEq, Eq, Structural)]
pub enum DocumentType {
    Pdf,
    Epub,
    Txt,
}

pub open spec fn document_tag(t: DocumentType) -> Seq<char> {
    match t {
        DocumentType::Pdf => "pdf"@,
        DocumentType::Epub => "epub"@,
        DocumentType::Txt => "txt"@,
    }
}

pub open spec fn document_type_of_tag(tag: Seq<char>) -> Option<DocumentType> {
    if tag == "pdf"@ {
        Some(DocumentType::Pdf)
    } else if tag == "epub"@ {
        Some(DocumentType::Epub)
    } else if tag == "txt"@ {
        Some(DocumentType::Txt)
    } else {
        None
    }
}

pub open spec fn type_of_parser(parser: DocumentParser) -> DocumentType {
    match parser {
        DocumentParser::Pdf => DocumentType::Pdf,
        DocumentParser::Epub => DocumentType::Epub,
        DocumentParser::Txt => DocumentType::Txt,
    }
}

impl DocumentType {
    /// The tag under which the format is stored.
    pub fn as_str(&self) -> (r: &'static str)
        ensures
            r@ == document_tag(*self),
    {
        match self {
            DocumentType::Pdf => "pdf",
            DocumentType::Epub => "epub",
            DocumentType::Txt => "txt",
        }
    }

    /// The format that a stored tag names; any other tag is refused rather
    /// than read as plain text.
    pub fn from_tag(tag: &str) -> (r: Option<DocumentType>)
        ensures
            r == document_type_of_tag(tag@),
    {
        if same_text(tag, "pdf") {
            Some(DocumentType::Pdf)
        } else if same_text(tag, "epub") {
            Some(DocumentType::Epub)
        } else if same_text(tag, "txt") {
            Some(DocumentType::Txt)
        } else {
            None
        }
    }

    /// The format that an extractor reads.
    pub fn of_parser(parser: DocumentParser) -> (r: DocumentType)
        ensures
            r == type_of_parser(parser),
    {
        match parser {
            DocumentParser::Pdf => DocumentType::Pdf,
            DocumentParser::Epub => DocumentType::Epub,
            DocumentParser::Txt => DocumentType::Txt,
        }
    }

    /// The extractor for the format.
    pub fn parser(&self) -> (r: DocumentParser)
        ensures
            type_of_parser(r) == *self,
    {
        match self {
            DocumentType::Pdf => DocumentParser::Pdf,
            DocumentType::Epub => DocumentParser::Epub,
            DocumentType::Txt => DocumentParser::Txt,
        }
    }
}

/// A provider as the stored settings name it.
#[derive(Debug, Clone, Copy, PartialEq, Eq, Structural)]
pub enum AIProvider {
    DeepSeek,
    Local,
    OpenAI,
}

pub open spec fn provider_tag(p: AIProvider) -> Seq<char> {
    match p {
        AIProvider::DeepSeek => "deepseek"@,
        AIProvider::Local => "local"@,
        AIProvider::OpenAI => "openai"@,
    }
}

impl AIProvider {
    /// The provider that a stored tag names, if any.
    pub fn from_tag(tag: &str) -> (r: Option<AIProvider>)
        ensures
            r matches Some(p) ==> provider_tag(p) == tag@,
            r is None ==> tag@ != "deepseek"@ && tag@ != "local"@ && tag@ != "openai"@,
    {
        if same_text(tag, "deepseek") {
            Some(AIProvider::DeepSeek)
        } else if same_text(tag, "local") {
            Some(AIProvider::Local)
        } else if same_text(tag, "openai") {
            Some(AIProvider::OpenAI)
        } else {
            None
        }
    }

    pub fn as_str(&self) -> (r: &'static str)
        ensures
            r@ == provider_tag(*self),
    {
        match self {
            AIProvider::DeepSeek => "deepseek",
            AIProvider::Local => "local",
            AIProvider::OpenAI => "openai",
        }
    }
}

/// Whether the number of characters of `s` lies in `[min, max]`.
pub open spec fn length_within(s: Seq<char>, min: nat, max: nat) -> bool {
    min <= s.len() && s.len() <= max
}

fn char_count(s: &str) -> (r: usize)
    ensures
        r == s@.len(),
{
    chars_of(s).len()
}

pub const ANSWER_LENGTH_MESSAGE: &'static str = "Answer must be between 1 and 5000 characters";

pub const NAME_LENGTH_MESSAGE: &'static str = "Name must be between 1 and 255 characters";

pub const DESCRIPTION_LENGTH_MESSAGE: &'static str = "Description must be less than 1000 characters";

pub const QUESTIONS_COUNT_MESSAGE: &'static str = "Questions count must be greater than 0";

pub const REVIEW_COUNT_MESSAGE: &'static str = "Count must be between 1 and 20";

pub const EMPTY_ANSWER_MESSAGE: &'static str = "Answer cannot be empty";

/// A failed check of one field of a request.
#[derive(Debug, PartialEq, Eq)]
pub struct FieldError {
    pub field: String,
    pub message: String,
}

fn field_error(field: &str, message: &str) -> (r: FieldError)
    ensures
        r.field@ == field@,
        r.message@ == message@,
{
    FieldError { field: field.to_string(), message: message.to_string() }
}

pub open spec fn field_errors_view(v: Seq<FieldError>) -> Seq<(Seq<char>, Seq<char>)> {
    v.map_values(|e: FieldError| (e.field@, e.message@))
}

/// `field: message` for one failed check.
pub open spec fn error_line(e: (Seq<char>, Seq<char>)) -> Seq<char> {
    e.0 + ": "@ + e.1
}

/// The failed checks as one line: each `field: message`, separated by `, `.
pub open spec fn error_summary(v: Seq<(Seq<char>, Seq<char>)>) -> Seq<char>
    decreases v.len(),
{
    if v.len() == 0 {
        Seq::empty()
    } else if v.len() == 1 {
        error_line(v[0])
    } else {
        error_summary(v.drop_last()) + ", "@ + error_line(v.last())
    }
}

/// Describes failed checks in one line, as a validation error reports them.
pub fn describe_field_errors(errors: &Vec<FieldError>) -> (r: String)
    ensures
        r@ == error_summary(field_errors_view(errors@)),
{
    let ghost views = field_errors_view(errors@);
    let mut r = String::new();
    let mut i: usize = 0;
    while i < errors.len()
        invariant
            i <= errors.len(),
            views == field_errors_view(errors@),
            r@ == error_summary(views.take(i as int)),
        decreases errors.len() - i,
    {
        assert(views.take(i + 1).drop_last() == views.take(i as int));
        assert(views.take(i + 1).last() == views[i as int]);
        if i > 0 {
            r.append(", ");
        }
        r.append(errors[i].field.as_str());
        r.append(": ");
        r.append(errors[i].message.as_str());
        if i == 0 {
            assert(views.take(1)[0] == views[0]);
            assert(r@ == Seq::<char>::empty() + error_line(views[0]));
            assert(Seq::<char>::empty() + error_line(views[0]) == error_line(views[0]));
        }
        i = i + 1;
    }
    assert(views.take(errors.len() as int) == views);
    r
}

/// An answer submitted to a question.
pub struct AnswerRequest {
    pub user_answer: String,
}

impl AnswerRequest {
    /// An answer holds between 1 and 5000 characters.
    pub fn validate(&self) -> (r: Vec<FieldError>)
        ensures
            field_errors_view(r@) == if length_within(self.user_answer@, 1, 5000) {
                Seq::empty()
            } else {
                seq![("user_answer"@, ANSWER_LENGTH_MESSAGE@)]
            },
    {
        let mut r: Vec<FieldError> = Vec::new();
        let n = char_count(self.user_answer.as_str());
        if n < 1 || n > 5000 {
            r.push(field_error("user_answer", ANSWER_LENGTH_MESSAGE));
        }
        assert(field_errors_view(r@) =~= if length_within(self.user_answer@, 1, 5000) {
            Seq::empty()
        } else {
            seq![("user_answer"@, ANSWER_LENGTH_MESSAGE@)]
        });
        r
    }
}

/// The errors of a knowledge base's name and description: a name holds
/// between 1 and 255 characters, a description at most 1000.
pub open spec fn knowledge_base_errors(name: Seq<char>, description: Option<Seq<char>>) -> Seq<
    (Seq<char>, Seq<char>),
> {
    let n = if length_within(name, 1, 255) {
        Seq::empty()
    } else {
        seq![("name"@, NAME_LENGTH_MESSAGE@)]
    };
    let d = match description {
        Some(d) => if d.len() <= 1000 {
            Seq::empty()
        } else {
            seq![("description"@, DESCRIPTION_LENGTH_MESSAGE@)]
        },
        None => Seq::empty(),
    };
    n + d
}

fn opt_char_count(o: &Option<String>) -> (r: Option<usize>)
    ensures
        match o {
            Some(s) => r == Some(s@.len() as usize) && s@.len() <= usize::MAX,
            None => r is None,
        },
{
    match o {
        Some(s) => Some(char_count(s.as_str())),
        None => None,
    }
}

fn check_knowledge_base(name: &String, description: &Option<String>) -> (r: Vec<FieldError>)
    ensures
        field_errors_view(r@) == knowledge_base_errors(name@, opt_text(*description)),
{
    let mut r: Vec<FieldError> = Vec::new();
    let n = char_count(name.as_str());
    if n < 1 || n > 255 {
        r.push(field_error("name", NAME_LENGTH_MESSAGE));
    }
    match opt_char_count(description) {
        Some(d) => if d > 1000 {
            r.push(field_error("description", DESCRIPTION_LENGTH_MESSAGE));
        },
        None => {},
    }
    assert(field_errors_view(r@) =~= knowledge_base_errors(name@, opt_text(*description)));
    r
}

/// A request to create a knowledge base.
pub struct CreateKnowledgeBaseRequest {
    pub name: String,
    pub description: Option<String>,
}

impl CreateKnowledgeBaseRequest {
    pub fn validate(&self) -> (r: Vec<FieldError>)
        ensures
            field_errors_view(r@) == knowledge_base_errors(self.name@, opt_text(self.description)),
    {
        check_knowledge_base(&self.name, &self.description)
    }
}

/// A request to rename or describe a knowledge base anew.
pub struct UpdateKnowledgeBaseRequest {
    pub name: String,
    pub description: Option<String>,
}

impl UpdateKnowledgeBaseRequest {
    pub fn validate(&self) -> (r: Vec<FieldError>)
        ensures
            field_errors_view(r@) == knowledge_base_errors(self.name@, opt_text(self.description)),
    {
        check_knowledge_base(&self.name, &self.description)
    }
}

/// A knowledge base as the listing shows it, with its times in RFC 3339.
pub struct KnowledgeBaseResponse {
    pub id: String,
    pub name: String,
    pub description: Option<String>,
    pub created_at: String,
    pub updated_at: String,
    pub document_count: i64,
}

/// The listing of knowledge bases.
pub struct ListKnowledgeBasesResponse {
    pub knowledge_bases: Vec<KnowledgeBaseResponse>,
}

/// A request to open a review session over a knowledge base.
pub struct CreateReviewSessionRequest {
    pub knowledge_base_id: String,
    pub questions_count: i32,
}

impl CreateReviewSessionRequest {
    /// A session asks for at least one question, and no more than the
    /// history holds.
    pub fn validate(&self, available: usize) -> (r: Result<(), String>)
        ensures
            r is Ok <==> 0 < self.questions_count && self.questions_count <= available,
            self.questions_count <= 0 ==> (r matches Err(m) && m@ == QUESTIONS_COUNT_MESSAGE@),
    {
        if self.questions_count <= 0 {
            return Err(QUESTIONS_COUNT_MESSAGE.to_string());
        }
        if (self.questions_count as usize) > available {
            return Err(not_enough_history(self.questions_count, available));
        }
        Ok(())
    }
}

fn not_enough_history(requested: i32, available: usize) -> String {
    let mut m = "Not enough history available. Requested: ".to_string();
    crate::numeric::write_i32(requested, &mut m);
    m.append(", Available: ");
    crate::numeric::write_decimal(available as u64, &mut m);
    m
}

/// How many review questions to draw.
pub struct ReviewQuestionsRequest {
    pub count: Option<i32>,
}

impl ReviewQuestionsRequest {
    /// The requested count, 5 when none is given; it must lie in [1, 20].
    pub fn resolved_count(&self) -> (r: Result<i32, String>)
        ensures
            ({
                let c = match self.count {
                    Some(c) => c,
                    None => 5,
                };
                if 1 <= c && c <= 20 {
                    r == Ok::<i32, String>(c)
                } else {
                    r matches Err(m) && m@ == REVIEW_COUNT_MESSAGE@
                }
            }),
    {
        let c = match self.count {
            Some(c) => c,
            None => 5,
        };
        if c <= 0 || c > 20 {
            Err(REVIEW_COUNT_MESSAGE.to_string())
        } else {
            Ok(c)
        }
    }
}

/// An answer given during a review.
pub struct ReviewAnswerRequest {
    pub question_id: String,
    pub user_answer: String,
    pub session_id: Option<String>,
}

impl ReviewAnswerRequest {
    /// An answer must hold more than white space.
    pub fn validate(&self) -> (r: Result<(), String>)
        ensures
            r is Ok <==> trimmed(self.user_answer@).len() > 0,
            r matches Err(m) ==> m@ == EMPTY_ANSWER_MESSAGE@,
    {
        if is_blank(self.user_answer.as_str()) {
            Err(EMPTY_ANSWER_MESSAGE.to_string())
        } else {
            Ok(())
        }
    }
}

/// A generated question; times are milliseconds since the Unix epoch.
pub struct Question {
    pub id: String,
    pub knowledge_base_id: String,
    pub question_text: String,
    pub context_snippet: Option<String>,
    pub generated_at: i64,
}

impl Question {
    /// A question with the given id and generation time.
    pub fn new(
        id: String,
        knowledge_base_id: String,
        question_text: String,
        context_snippet: Option<String>,
        generated_at: i64,
    ) -> (r: Question)
        ensures
            r == (Question { id, knowledge_base_id, question_text, context_snippet, generated_at }),
    {
        Question { id, knowledge_base_id, question_text, context_snippet, generated_at }
    }
}

/// An answer to a question, with its grade once it has one.
pub struct Answer {
    pub id: String,
    pub question_id: String,
    pub user_answer: String,
    pub ai_score: Option<i32>,
    pub ai_feedback: Option<String>,
    pub ai_suggestions: Option<String>,
    pub answered_at: i64,
}

impl Answer {
    /// An answer not graded yet.
    pub fn new(id: String, question_id: String, user_answer: String, answered_at: i64) -> (r: Answer)
        ensures
            r == (Answer {
                id,
                question_id,
                user_answer,
                ai_score: None,
                ai_feedback: None,
                ai_suggestions: None,
                answered_at,
            }),
    {
        Answer { id, question_id, user_answer, ai_score: None, ai_feedback: None, ai_suggestions: None, answered_at }
    }

    /// Records an evaluation as the answer's grade.
    pub fn grade(&mut self, evaluation: AIEvaluation)
        ensures
            final(self).id == old(self).id,
            final(self).question_id == old(self).question_id,
            final(self).user_answer == old(self).user_answer,
            final(self).answered_at == old(self).answered_at,
            final(self).ai_score == Some(evaluation.score as i32),
            final(self).ai_feedback matches Some(f) && f@ == evaluation.feedback@,
            final(self).ai_suggestions matches Some(s) && s@ == json_array_text(
                evaluation.suggestions@.map_values(|t: String| t@),
            ),
    {
        let g = stored_grade(evaluation);
        self.ai_score = Some(g.ai_score);
        self.ai_feedback = Some(g.ai_feedback);
        self.ai_suggestions = Some(g.ai_suggestions);
    }
}

/// A question as it is shown.
pub struct QuestionResponse {
    pub id: String,
    pub question_text: String,
    pub context_snippet: Option<String>,
    pub generated_at: i64,
}

impl QuestionResponse {
    pub fn from_question(question: Question) -> (r: QuestionResponse)
        ensures
            r == (QuestionResponse {
                id: question.id,
                question_text: question.question_text,
                context_snippet: question.context_snippet,
                generated_at: question.generated_at,
            }),
    {
        QuestionResponse {
            id: question.id,
            question_text: question.question_text,
            context_snippet: question.context_snippet,
            generated_at: question.generated_at,
        }
    }
}

/// An answer as it is shown, with its suggestions as a list.
pub struct AnswerResponse {
    pub id: String,
    pub question_id: String,
    pub user_answer: String,
    pub ai_score: Option<i32>,
    pub ai_feedback: Option<String>,
    pub ai_suggestions: Vec<String>,
    pub answered_at: i64,
}

impl AnswerResponse {
    /// The answer's fields, with the stored suggestions read back as a list.
    pub fn from_answer(answer: Answer) -> (r: AnswerResponse)
        ensures
            r.id == answer.id,
            r.question_id == answer.question_id,
            r.user_answer == answer.user_answer,
            r.ai_score == answer.ai_score,
            r.ai_feedback == answer.ai_feedback,
            r.answered_at == answer.answered_at,
            r.ai_suggestions@.map_values(|s: String| s@) == suggestions_of(opt_text(answer.ai_suggestions)),
            forall|w: Seq<Seq<char>>| answer.ai_suggestions is Some && #[trigger] json_array_text(w)
                == answer.ai_suggestions->0@ ==> r.ai_suggestions@.map_values(|s: String| s@) == w,
    {
        let ai_suggestions = stored_suggestions(answer.ai_suggestions);
        AnswerResponse {
            id: answer.id,
            question_id: answer.question_id,
            user_answer: answer.user_answer,
            ai_score: answer.ai_score,
            ai_feedback: answer.ai_feedback,
            ai_suggestions,
            answered_at: answer.answered_at,
        }
    }
}

} // verus!
