use quiz_services::access::{require_self, require_staff};
use quiz_services::error::{ErrorKind, ServiceError};
use quiz_services::identity::Identity;
use quiz_services::profile::{authorize_score_change, check_increment, next_score, ProfileLedger};
use quiz_services::quiz::{
    check_new_question, distinct_question_ids, grade_normalized, grade_submission, submission_rows, validate_draft,
    AnswerInput, KeyEntry, QuestionDraft, QuizLedger,
};

fn who(name: &str, staff: bool) -> Option<Identity> {
    Some(Identity {
        username: name.to_string(),
        email: None,
        first_name: None,
        last_name: None,
        is_staff: staff,
    })
}

fn draft(correct: &str) -> QuestionDraft {
    QuestionDraft {
        question_text: "2 + 2?".to_string(),
        option_a: "4".to_string(),
        option_b: "5".to_string(),
        option_c: "6".to_string(),
        option_d: "7".to_string(),
        correct_option: correct.to_string(),
    }
}

fn answer(id: i32, sel: &str) -> AnswerInput {
    AnswerInput { question_id: id, selected_option: sel.to_string() }
}

#[test]
fn increments_five_and_three_reach_eight_in_either_order() {
    let me = who("kim", false);
    let mut first = ProfileLedger::new();
    first.adjust_score("kim".to_string(), &me, 5).unwrap();
    let r = first.adjust_score("kim".to_string(), &me, 3).unwrap();
    assert_eq!(r.new_score, 8);
    let mut second = ProfileLedger::new();
    second.adjust_score("kim".to_string(), &me, 3).unwrap();
    let r = second.adjust_score("kim".to_string(), &me, 5).unwrap();
    assert_eq!(r.new_score, 8);
    assert_eq!(r.increment, 5);
    assert_eq!(r.username, "kim");
}

#[test]
fn first_adjustment_creates_profile_with_increment() {
    let mut ledger = ProfileLedger::new();
    let r = ledger.adjust_score("lee".to_string(), &who("lee", false), -4).unwrap();
    assert_eq!(r.new_score, -4);
    let p = ledger.profile(&"lee".to_string()).unwrap();
    assert_eq!(p.score, -4);
    assert_eq!(p.email, None);
}

#[test]
fn adjusting_one_user_leaves_another_alone() {
    let mut ledger = ProfileLedger::new();
    ledger.adjust_score("a".to_string(), &who("a", false), 10).unwrap();
    ledger.adjust_score("b".to_string(), &who("b", false), 1).unwrap();
    ledger.adjust_score("a".to_string(), &who("a", false), 10).unwrap();
    assert_eq!(ledger.profile(&"a".to_string()).unwrap().score, 20);
    assert_eq!(ledger.profile(&"b".to_string()).unwrap().score, 1);
}

#[test]
fn adjusting_someone_else_is_forbidden_and_changes_nothing() {
    let mut ledger = ProfileLedger::new();
    ledger.adjust_score("owner".to_string(), &who("owner", false), 7).unwrap();
    let err = ledger.adjust_score("owner".to_string(), &who("intruder", true), 100).unwrap_err();
    assert_eq!(err, ServiceError::NotSelf);
    assert_eq!(err.status(), 403);
    assert_eq!(ledger.profile(&"owner".to_string()).unwrap().score, 7);
    assert_eq!(ledger.profile(&"intruder".to_string()).unwrap_err(), ServiceError::UserNotFound);
}

#[test]
fn zero_increment_and_missing_identity_are_refused() {
    let mut ledger = ProfileLedger::new();
    assert_eq!(
        ledger.adjust_score("m".to_string(), &who("m", false), 0).unwrap_err(),
        ServiceError::ZeroIncrement
    );
    assert_eq!(ledger.adjust_score("m".to_string(), &None, 2).unwrap_err(), ServiceError::InvalidToken);
    assert_eq!(ServiceError::InvalidToken.status(), 401);
    assert_eq!(authorize_score_change(&"m".to_string(), &None, 0), Err(ServiceError::ZeroIncrement));
    assert_eq!(authorize_score_change(&"m".to_string(), &who("m", false), 1), Ok(()));
    assert_eq!(ledger.profile(&"m".to_string()).unwrap_err().status(), 404);
}

#[test]
fn score_overflow_is_refused() {
    assert_eq!(next_score(Some(i32::MAX), 1), Err(ServiceError::ScoreOutOfRange));
    assert_eq!(next_score(Some(i32::MIN), -1), Err(ServiceError::ScoreOutOfRange));
    assert_eq!(next_score(None, 9), Ok(9));
    assert_eq!(next_score(Some(40), 2), Ok(42));
    let mut ledger = ProfileLedger::new();
    let me = who("n", false);
    ledger.adjust_score("n".to_string(), &me, i32::MAX).unwrap();
    assert_eq!(ledger.adjust_score("n".to_string(), &me, 1).unwrap_err(), ServiceError::ScoreOutOfRange);
    assert_eq!(ledger.profile(&"n".to_string()).unwrap().score, i32::MAX);
}

#[test]
fn listing_profiles_is_staff_only() {
    let mut ledger = ProfileLedger::new();
    ledger.adjust_score("o".to_string(), &who("o", false), 3).unwrap();
    assert_eq!(ledger.list_all(&who("o", false)).unwrap_err(), ServiceError::StaffOnly);
    assert_eq!(ledger.list_all(&None).unwrap_err(), ServiceError::InvalidToken);
    let all = ledger.list_all(&who("boss", true)).unwrap();
    assert_eq!(all.len(), 1);
    assert_eq!(all[0].username, "o");
    assert_eq!(all[0].score, 3);
}

#[test]
fn access_rules() {
    assert_eq!(require_staff(&who("s", true)), Ok(()));
    assert_eq!(require_staff(&who("s", false)), Err(ServiceError::StaffOnly));
    assert_eq!(require_self(&who("s", false), &"s".to_string()), Ok(()));
    assert_eq!(require_self(&who("s", true), &"t".to_string()), Err(ServiceError::NotSelf));
    assert_eq!(ServiceError::StaffOnly.kind(), ErrorKind::Forbidden);
}

#[test]
fn create_question_needs_staff() {
    let mut quiz = QuizLedger::new();
    let err = quiz.create_question(&who("pupil", false), draft("A")).unwrap_err();
    assert_eq!(err, ServiceError::StaffOnly);
    assert_eq!(err.status(), 403);
    let err = quiz.create_question(&None, draft("A")).unwrap_err();
    assert_eq!(err, ServiceError::InvalidToken);
    assert_eq!(err.status(), 401);
    assert!(quiz.list_questions().is_empty());
}

#[test]
fn create_question_assigns_increasing_ids_and_hides_answer() {
    let mut quiz = QuizLedger::new();
    let staff = who("teacher", true);
    assert_eq!(quiz.create_question(&staff, draft(" a ")), Ok(1));
    assert_eq!(quiz.create_question(&staff, draft("d")), Ok(2));
    let listed = quiz.list_questions();
    assert_eq!(listed.len(), 2);
    assert_eq!(listed[0].id, 1);
    assert_eq!(listed[1].id, 2);
    assert_eq!(listed[0].question_text, "2 + 2?");
    assert_eq!(listed[0].option_a, "4");
}

#[test]
fn question_drafts_are_validated() {
    let mut blank = draft("A");
    blank.option_c = "   ".to_string();
    assert_eq!(validate_draft(&blank), Err(ServiceError::MissingQuestionFields));
    assert_eq!(validate_draft(&draft("E")), Err(ServiceError::BadCorrectOption));
    assert_eq!(validate_draft(&draft("AB")), Err(ServiceError::BadCorrectOption));
    assert_eq!(validate_draft(&draft("")), Err(ServiceError::BadCorrectOption));
    assert_eq!(validate_draft(&draft("  c\t")), Ok("C".to_string()));
    assert_eq!(check_new_question(&who("t", false), &blank), Err(ServiceError::StaffOnly));
    let mut quiz = QuizLedger::new();
    assert_eq!(quiz.create_question(&who("t", true), blank).unwrap_err().status(), 400);
}

#[test]
fn grading_one_right_one_wrong() {
    let mut quiz = QuizLedger::new();
    let staff = who("teacher", true);
    let q1 = quiz.create_question(&staff, draft("A")).unwrap();
    let q2 = quiz.create_question(&staff, draft("C")).unwrap();
    let s = quiz.grade_and_submit(&who("pupil", false), &vec![answer(q1, "A"), answer(q2, "B")]).unwrap();
    assert_eq!(s.total_questions, 2);
    assert_eq!(s.correct_answers, 1);
    assert_eq!(s.submission_id, 1);
    assert_eq!(s.username, "pupil");
    assert_eq!(s.answers.len(), 2);
    assert!(s.answers[0].is_correct);
    assert!(!s.answers[1].is_correct);
    assert_eq!(s.answers[1].correct_option.as_deref(), Some("C"));
}

#[test]
fn repeated_question_is_graded_per_entry() {
    let mut quiz = QuizLedger::new();
    let q = quiz.create_question(&who("teacher", true), draft("B")).unwrap();
    let s = quiz
        .grade_and_submit(&who("pupil", false), &vec![answer(q, " b"), answer(q, "C"), answer(q, "B")])
        .unwrap();
    assert_eq!(s.total_questions, 3);
    assert_eq!(s.correct_answers, 2);
    assert_eq!(s.answers[0].selected_option, "B");
    assert!(s.answers[0].is_correct);
    assert!(!s.answers[1].is_correct);
    assert_eq!(s.answers[1].correct_option.as_deref(), Some("B"));
    let rows = submission_rows(s.submission_id, &s.answers);
    assert_eq!(rows.len(), 3);
    assert!(rows.iter().all(|r| r.submission_id == s.submission_id && r.question_id == q));
}

#[test]
fn unknown_question_is_wrong_but_not_an_error() {
    let mut quiz = QuizLedger::new();
    let q = quiz.create_question(&who("teacher", true), draft("A")).unwrap();
    let s = quiz.grade_and_submit(&who("p", false), &vec![answer(999, "A"), answer(q, "a")]).unwrap();
    assert!(!s.answers[0].is_correct);
    assert_eq!(s.answers[0].correct_option, None);
    assert!(s.answers[1].is_correct);
    assert_eq!(s.correct_answers, 1);
}

#[test]
fn submission_refusals() {
    let mut quiz = QuizLedger::new();
    let q = quiz.create_question(&who("teacher", true), draft("A")).unwrap();
    assert_eq!(quiz.grade_and_submit(&None, &vec![answer(q, "A")]).unwrap_err(), ServiceError::InvalidToken);
    assert_eq!(quiz.grade_and_submit(&who("p", false), &vec![]).unwrap_err(), ServiceError::EmptyAnswers);
    let none = quiz.grade_and_submit(&who("p", false), &vec![answer(41, "A"), answer(42, "B")]).unwrap_err();
    assert_eq!(none, ServiceError::NoMatchingQuestions);
    assert_eq!(none.status(), 400);
    let s = quiz.grade_and_submit(&who("p", false), &vec![answer(q, "A")]).unwrap();
    assert_eq!(s.submission_id, 1);
}

#[test]
fn grading_against_a_fetched_key() {
    let key = vec![KeyEntry { question_id: 7, correct_option: " d ".to_string() }];
    let g = grade_submission(&who("p", false), &vec![answer(7, "d"), answer(8, "D")], &key).unwrap();
    assert_eq!(g.total_questions, 2);
    assert_eq!(g.correct_answers, 1);
    assert_eq!(g.answers[0].correct_option.as_deref(), Some("D"));
    assert_eq!(g.answers[1].correct_option, None);
    assert_eq!(
        grade_submission(&who("p", false), &vec![answer(8, "D")], &key).unwrap_err(),
        ServiceError::NoMatchingQuestions
    );
}

#[test]
fn distinct_ids_keep_first_appearance() {
    let ids = distinct_question_ids(&vec![answer(3, "A"), answer(1, "B"), answer(3, "C"), answer(2, "D")]);
    assert_eq!(ids, vec![3, 1, 2]);
    assert!(distinct_question_ids(&vec![]).is_empty());
}

#[test]
fn ids_exhausted_is_a_dependency_error() {
    assert_eq!(ServiceError::IdsExhausted.kind(), ErrorKind::Dependency);
    assert_eq!(ServiceError::HashingFailed.status(), 500);
}

#[test]
fn increment_is_checked_on_its_own() {
    assert_eq!(check_increment(0), Err(ServiceError::ZeroIncrement));
    assert_eq!(check_increment(-3), Ok(()));
}

#[test]
fn normalized_grading_compares_exactly() {
    let right = grade_normalized(4, "B".to_string(), Some("B".to_string()));
    assert!(right.is_correct);
    assert_eq!(right.question_id, 4);
    let wrong = grade_normalized(4, "A".to_string(), Some("B".to_string()));
    assert!(!wrong.is_correct);
    assert_eq!(wrong.correct_option.as_deref(), Some("B"));
    let unknown = grade_normalized(5, "A".to_string(), None);
    assert!(!unknown.is_correct);
    assert_eq!(unknown.correct_option, None);
}
