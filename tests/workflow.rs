use moon_reader::ai::AIEvaluation;
use moon_reader::models::{
    describe_field_errors, AIProvider, Answer, AnswerRequest, AnswerResponse, Question, QuestionResponse, CreateKnowledgeBaseRequest, CreateReviewSessionRequest, DocumentType, ReviewAnswerRequest,
    ReviewQuestionsRequest, UpdateKnowledgeBaseRequest,
};
use moon_reader::parsers::DocumentParser;
use moon_reader::progress::{summarize_progress, Trend};
use moon_reader::workflow::{
    build_quiz_context, check_provider_requirements, context_is_usable, file_extension, provider_settings,
    stored_grade, stored_suggestions, upload_format, SettingsIssue, UploadRejection,
};

#[test]
fn extensions_and_upload_checks() {
    assert_eq!(file_extension("book.tar.EPUB"), "EPUB");
    assert_eq!(file_extension("README"), "README");
    assert_eq!(file_extension("trailing."), "");
    assert_eq!(upload_format("Notes.TXT", 10), Ok(DocumentParser::Txt));
    assert_eq!(upload_format("a.pdf", 104857600), Ok(DocumentParser::Pdf));
    assert_eq!(upload_format("a.pdf", 104857601), Err(UploadRejection::TooLarge));
    assert_eq!(upload_format("a.DOC", 1), Err(UploadRejection::UnsupportedType("doc".to_string())));
}

#[test]
fn document_types_round_trip_their_tags() {
    for t in [DocumentType::Pdf, DocumentType::Epub, DocumentType::Txt] {
        assert_eq!(DocumentType::from_tag(t.as_str()), Some(t));
        assert_eq!(DocumentType::of_parser(t.parser()), t);
    }
    assert_eq!(DocumentType::from_tag("docx"), None);
    assert_eq!(DocumentType::from_tag("PDF"), None);
}

#[test]
fn quiz_context_and_snippet() {
    let long = "x".repeat(600);
    let contents = vec![None, Some(String::new()), Some(long.clone()), Some("tail".to_string())];
    let (context, snippet) = build_quiz_context(&contents);
    assert_eq!(context, format!("\n\n{}\n\ntail\n\n", long));
    assert_eq!(snippet, format!("{}...", "x".repeat(500)));
    let (context, snippet) = build_quiz_context(&vec![Some("short".to_string())]);
    assert_eq!((context.as_str(), snippet.as_str()), ("short\n\n", "short"));
    assert!(!context_is_usable("\n\n \n\n"));
    assert!(context_is_usable(" a "));
}

#[test]
fn provider_settings_from_stored_configuration() {
    let (kind, config) = provider_settings(
        AIProvider::DeepSeek,
        Some("key".to_string()),
        None,
        Some("m".to_string()),
        1500,
        "0.7".to_string(),
    )
    .unwrap();
    assert_eq!(kind, moon_reader::ai::AIProviderType::DeepSeek);
    assert_eq!(config.get("api_key").map(|s| s.as_str()), Some("key"));
    assert_eq!(config.get("max_tokens").map(|s| s.as_str()), Some("1500"));
    assert_eq!(config.get("model").map(|s| s.as_str()), Some("m"));
    assert!(matches!(
        provider_settings(AIProvider::OpenAI, Some("k".to_string()), None, None, 1, "1".to_string()),
        Err(SettingsIssue::NotImplemented(_))
    ));
    assert!(matches!(
        provider_settings(AIProvider::Local, Some("k".to_string()), None, None, 1, "1".to_string()),
        Err(SettingsIssue::Missing(_))
    ));
    assert_eq!(AIProvider::from_tag("local"), Some(AIProvider::Local));
    assert_eq!(AIProvider::from_tag("gpt"), None);
}

#[test]
fn provider_requirements_on_save() {
    assert!(check_provider_requirements(AIProvider::DeepSeek, &Some("k".to_string()), &None).is_ok());
    assert_eq!(
        check_provider_requirements(AIProvider::DeepSeek, &Some("  ".to_string()), &None),
        Err("API key is required for DeepSeek provider".to_string())
    );
    assert!(check_provider_requirements(AIProvider::Local, &None, &Some("http://x".to_string())).is_ok());
    assert!(check_provider_requirements(AIProvider::OpenAI, &None, &Some("http://x".to_string())).is_err());
}

#[test]
fn test_answer_response_from_answer() {
    let answer = Answer {
        id: "test-id".to_string(),
        question_id: "question-id".to_string(),
        user_answer: "Test answer".to_string(),
        ai_score: Some(85),
        ai_feedback: Some("Good answer".to_string()),
        ai_suggestions: Some(r#"["Suggestion 1", "Suggestion 2"]"#.to_string()),
        answered_at: 1_700_000_000_000,
    };
    let response = AnswerResponse::from_answer(answer);
    assert_eq!(response.id, "test-id");
    assert_eq!(response.question_id, "question-id");
    assert_eq!(response.user_answer, "Test answer");
    assert_eq!(response.ai_score, Some(85));
    assert_eq!(response.ai_feedback, Some("Good answer".to_string()));
    assert_eq!(response.ai_suggestions, vec!["Suggestion 1", "Suggestion 2"]);
}

#[test]
fn test_question_response_from_question() {
    let question = Question {
        id: "test-id".to_string(),
        knowledge_base_id: "kb-id".to_string(),
        question_text: "What is AI?".to_string(),
        context_snippet: Some("AI context".to_string()),
        generated_at: 1_700_000_000_000,
    };
    let response = QuestionResponse::from_question(question);
    assert_eq!(response.id, "test-id");
    assert_eq!(response.question_text, "What is AI?");
    assert_eq!(response.context_snippet, Some("AI context".to_string()));
}

#[test]
fn stored_suggestions_edges() {
    assert_eq!(stored_suggestions(Some("free text".to_string())), vec!["free text".to_string()]);
    assert_eq!(stored_suggestions(Some("[1, 2]".to_string())), vec!["[1, 2]".to_string()]);
    assert_eq!(stored_suggestions(Some("[]".to_string())), Vec::<String>::new());
    assert!(stored_suggestions(None).is_empty());
    let mut answer = Answer::new("a".to_string(), "q".to_string(), "text".to_string(), 5);
    assert_eq!(AnswerResponse::from_answer(Answer::new("a".to_string(), "q".to_string(), "t".to_string(), 5)).ai_suggestions.len(), 0);
    answer.grade(AIEvaluation { score: 70, feedback: "f".to_string(), suggestions: vec!["s".to_string()] });
    assert_eq!(answer.ai_score, Some(70));
    assert_eq!(answer.ai_suggestions.as_deref(), Some("[\"s\"]"));
    assert_eq!(AnswerResponse::from_answer(answer).ai_suggestions, vec!["s".to_string()]);
}

#[test]
fn grades_are_stored_as_json() {
    let g = stored_grade(AIEvaluation {
        score: 85,
        feedback: "Good answer".to_string(),
        suggestions: vec!["a\"b".to_string(), "c".to_string()],
    });
    assert_eq!(g.ai_score, 85);
    assert_eq!(g.ai_feedback, "Good answer");
    assert_eq!(g.ai_suggestions, "[\"a\\\"b\",\"c\"]");
    let g2 = stored_grade(AIEvaluation {
        score: 1,
        feedback: String::new(),
        suggestions: vec!["tab\tnl\nbell\u{7}/é".to_string()],
    });
    assert_eq!(g2.ai_suggestions, "[\"tab\\tnl\\nbell\\u0007/é\"]");
    assert_eq!(stored_suggestions(Some(g2.ai_suggestions)), vec!["tab\tnl\nbell\u{7}/é".to_string()]);
    assert_eq!(stored_suggestions(Some(g.ai_suggestions)), vec!["a\"b".to_string(), "c".to_string()]);
}

#[test]
fn request_validation() {
    assert!(AnswerRequest { user_answer: String::new() }.validate().len() == 1);
    assert!(AnswerRequest { user_answer: "é".repeat(5000) }.validate().is_empty());
    assert!(AnswerRequest { user_answer: "a".repeat(5001) }.validate().len() == 1);
    let errors = CreateKnowledgeBaseRequest { name: String::new(), description: Some("d".repeat(1001)) }.validate();
    let fields: Vec<&str> = errors.iter().map(|e| e.field.as_str()).collect();
    assert_eq!(fields, vec!["name", "description"]);
    assert_eq!(
        describe_field_errors(&errors),
        "name: Name must be between 1 and 255 characters, description: Description must be less than 1000 characters"
    );
    assert_eq!(describe_field_errors(&vec![]), "");
    assert!(UpdateKnowledgeBaseRequest { name: "n".to_string(), description: None }.validate().is_empty());
    let session = CreateReviewSessionRequest { knowledge_base_id: "kb".to_string(), questions_count: 3 };
    assert!(session.validate(3).is_ok());
    assert_eq!(
        session.validate(2),
        Err("Not enough history available. Requested: 3, Available: 2".to_string())
    );
    let zero = CreateReviewSessionRequest { knowledge_base_id: "kb".to_string(), questions_count: 0 };
    assert_eq!(zero.validate(9), Err("Questions count must be greater than 0".to_string()));
    assert_eq!(ReviewQuestionsRequest { count: None }.resolved_count(), Ok(5));
    assert!(ReviewQuestionsRequest { count: Some(21) }.resolved_count().is_err());
    let answer = ReviewAnswerRequest { question_id: "q".to_string(), user_answer: " \t".to_string(), session_id: None };
    assert_eq!(answer.validate(), Err("Answer cannot be empty".to_string()));
}

#[test]
fn test_learning_progress() {
    // Newest first: scores 95, 90, 80, 70, 60 were given in the order 60..95.
    let history = vec![Some(95), Some(90), Some(80), Some(70), Some(60)];
    let p = summarize_progress(&history);
    assert_eq!(p.total_questions_answered, 5);
    assert_eq!((p.score_sum, p.score_count), (395, 5));
    assert_eq!(p.score_sum as f64 / p.score_count as f64, 79.0);
    assert_eq!(p.improvement_trend, Some(Trend::Improving));
    assert_eq!(p.improvement_trend.unwrap().as_str(), "improving");
}

#[test]
fn progress_edges() {
    let p = summarize_progress(&vec![]);
    assert_eq!((p.total_questions_answered, p.score_count, p.improvement_trend), (0, 0, None));
    let p = summarize_progress(&vec![Some(60), Some(70), Some(80), Some(90)]);
    assert_eq!(p.improvement_trend, Some(Trend::Declining));
    let p = summarize_progress(&vec![Some(75), Some(70), Some(70), Some(70)]);
    assert_eq!(p.improvement_trend, Some(Trend::Stable));
    let mut history = vec![None; 3];
    history.extend((0..12).map(Some));
    let p = summarize_progress(&history);
    assert_eq!((p.recent_score_count, p.recent_score_sum), (7, 21));
    assert_eq!((p.score_count, p.total_questions_answered), (12, 15));
}
