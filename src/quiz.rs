use vstd::prelude::*;
use vstd::string::StrSliceExecFns;

use crate::access::{refusal_to_result, require_staff, staff_refusal};
use crate::error::ServiceError;
use crate::identity::Identity;
use crate::lookup::{first_index, first_index_from, lemma_first_index_found};
use crate::text::{is_blank, normalize_option, normalized, trim_of};

verus! {

/// A question as a staff member submits it.
pub struct QuestionDraft {
    pub question_text: String,
    pub option_a: String,
    pub option_b: String,
    pub option_c: String,
    pub option_d: String,
    pub correct_option: String,
}

/// A stored question; its correct option is one of "A", "B", "C", "D".
#[derive(Debug)]
pub struct Question {
    pub id: i32,
    pub question_text: String,
    pub option_a: String,
    pub option_b: String,
    pub option_c: String,
    pub option_d: String,
    pub correct_option: String,
}

/// A question as it is listed publicly, without its correct option.
#[derive(Debug)]
pub struct PublicQuestion {
    pub id: i32,
    pub question_text: String,
    pub option_a: String,
    pub option_b: String,
    pub option_c: String,
    pub option_d: String,
}

/// One answer of a submission.
pub struct AnswerInput {
    pub question_id: i32,
    pub selected_option: String,
}

/// The correct option fetched for a question id.
pub struct KeyEntry {
    pub question_id: i32,
    pub correct_option: String,
}

/// How one answer was graded; `correct_option` is absent for an unknown question.
#[derive(Debug)]
pub struct AnswerResult {
    pub question_id: i32,
    pub selected_option: String,
    pub is_correct: bool,
    pub correct_option: Option<String>,
}

/// A graded answer list, ready to be recorded.
#[derive(Debug)]
pub struct Grading {
    pub username: String,
    pub total_questions: i32,
    pub correct_answers: i32,
    pub answers: Vec<AnswerResult>,
}

/// A recorded submission.
#[derive(Debug)]
pub struct Submission {
    pub id: i32,
    pub username: String,
    pub total_questions: i32,
    pub correct_answers: i32,
}

/// One recorded answer of a submission.
#[derive(Debug)]
pub struct SubmissionAnswer {
    pub submission_id: i32,
    pub question_id: i32,
    pub selected_option: String,
    pub is_correct: bool,
}

/// What recording a submission hands back.
#[derive(Debug)]
pub struct SubmitSummary {
    pub username: String,
    pub submission_id: i32,
    pub total_questions: i32,
    pub correct_answers: i32,
    pub answers: Vec<AnswerResult>,
}

pub open spec fn is_option_letter(s: Seq<char>) -> bool {
    s == seq!['A'] || s == seq!['B'] || s == seq!['C'] || s == seq!['D']
}

/// Why a draft cannot become a question, if it can.
pub open spec fn draft_refusal(d: QuestionDraft) -> Option<ServiceError> {
    if trim_of(d.question_text@).len() == 0 || trim_of(d.option_a@).len() == 0 || trim_of(
        d.option_b@,
    ).len() == 0 || trim_of(d.option_c@).len() == 0 || trim_of(d.option_d@).len() == 0 {
        Some(ServiceError::MissingQuestionFields)
    } else if !is_option_letter(normalized(d.correct_option@)) {
        Some(ServiceError::BadCorrectOption)
    } else {
        None
    }
}

/// Why `caller` cannot create a question from `d`, if it can: authorization first.
pub open spec fn creation_refusal(caller: Option<Identity>, d: QuestionDraft) -> Option<ServiceError> {
    if staff_refusal(caller) is Some {
        staff_refusal(caller)
    } else {
        draft_refusal(d)
    }
}

pub open spec fn key_pred(id: i32) -> spec_fn(KeyEntry) -> bool {
    |e: KeyEntry| e.question_id == id
}

/// Whether `r` is the grading of answer `a` against `key`: the selection is
/// normalized, and an answer to a question missing from the key is wrong, with
/// no correct option.
pub open spec fn grades(r: AnswerResult, a: AnswerInput, key: Seq<KeyEntry>) -> bool {
    let k = first_index(key, key_pred(a.question_id));
    &&& r.question_id == a.question_id
    &&& r.selected_option@ == normalized(a.selected_option@)
    &&& k < 0 ==> r.correct_option is None && !r.is_correct
    &&& k >= 0 ==> r.correct_option is Some && r.correct_option->0@ == normalized(
        key[k].correct_option@,
    ) && r.is_correct == (normalized(a.selected_option@) == normalized(key[k].correct_option@))
}

/// Whether `rs` grades `answers` one for one, in order.
pub open spec fn grades_all(rs: Seq<AnswerResult>, answers: Seq<AnswerInput>, key: Seq<KeyEntry>) -> bool {
    &&& rs.len() == answers.len()
    &&& forall|i: int| 0 <= i < rs.len() ==> grades(#[trigger] rs[i], answers[i], key)
}

/// How many of the graded answers are correct.
pub open spec fn count_correct(rs: Seq<AnswerResult>) -> nat
    decreases rs.len(),
{
    if rs.len() == 0 {
        0
    } else {
        count_correct(rs.drop_last()) + if rs.last().is_correct {
            1nat
        } else {
            0nat
        }
    }
}

/// Whether some answered question is in the key.
pub open spec fn any_known(answers: Seq<AnswerInput>, key: Seq<KeyEntry>) -> bool {
    exists|i: int|
        0 <= i < answers.len() && first_index(key, key_pred(#[trigger] answers[i].question_id)) >= 0
}

/// Why a submission is refused before any question is looked up, if it is:
/// an unresolved caller, then an empty list.
pub open spec fn early_refusal(caller: Option<Identity>, answers: Seq<AnswerInput>) -> Option<
    ServiceError,
> {
    if caller is None {
        Some(ServiceError::InvalidToken)
    } else if answers.len() == 0 {
        Some(ServiceError::EmptyAnswers)
    } else {
        None
    }
}

/// Why a submission is refused, if it is: the early refusals, then a list that
/// names no known question.
pub open spec fn submission_refusal(
    caller: Option<Identity>,
    answers: Seq<AnswerInput>,
    key: Seq<KeyEntry>,
) -> Option<ServiceError> {
    if early_refusal(caller, answers) is Some {
        early_refusal(caller, answers)
    } else if !any_known(answers, key) {
        Some(ServiceError::NoMatchingQuestions)
    } else {
        None
    }
}

/// The row recorded for a graded answer.
pub open spec fn answer_row(submission_id: i32, r: AnswerResult) -> SubmissionAnswer {
    SubmissionAnswer {
        submission_id,
        question_id: r.question_id,
        selected_option: r.selected_option,
        is_correct: r.is_correct,
    }
}

/// Checks a draft and returns its normalized correct option.
pub fn validate_draft(d: &QuestionDraft) -> (r: Result<String, ServiceError>)
    ensures
        draft_refusal(*d) matches Some(e) ==> r == Err::<String, ServiceError>(e),
        draft_refusal(*d) is None ==> (r matches Ok(c) && c@ == normalized(d.correct_option@)),
{
    if is_blank(d.question_text.as_str()) || is_blank(d.option_a.as_str()) || is_blank(
        d.option_b.as_str(),
    ) || is_blank(d.option_c.as_str()) || is_blank(d.option_d.as_str()) {
        return Err(ServiceError::MissingQuestionFields);
    }
    let c = normalize_option(d.correct_option.as_str());
    let mut letter = false;
    if c.as_str().unicode_len() == 1 {
        let ch = c.as_str().get_char(0);
        letter = ch == 'A' || ch == 'B' || ch == 'C' || ch == 'D';
        proof {
            if letter {
                assert(c@ =~= seq![ch]);
            }
        }
    }
    if !letter {
        return Err(ServiceError::BadCorrectOption);
    }
    Ok(c)
}

/// Checks that `caller` may create a question from `d`; returns the normalized
/// correct option.
pub fn check_new_question(caller: &Option<Identity>, d: &QuestionDraft) -> (r: Result<
    String,
    ServiceError,
>)
    ensures
        creation_refusal(*caller, *d) matches Some(e) ==> r == Err::<String, ServiceError>(e),
        creation_refusal(*caller, *d) is None ==> (r matches Ok(c) && c@ == normalized(
            d.correct_option@,
        )),
{
    match require_staff(caller) {
        Err(e) => {
            return Err(e);
        },
        Ok(()) => {},
    }
    validate_draft(d)
}

/// The checks on a submission that need no question lookup.
pub fn check_submission(caller: &Option<Identity>, answers: &Vec<AnswerInput>) -> (r: Result<
    (),
    ServiceError,
>)
    ensures
        r == refusal_to_result(early_refusal(*caller, answers@)),
{
    if caller.is_none() {
        return Err(ServiceError::InvalidToken);
    }
    if answers.len() == 0 {
        return Err(ServiceError::EmptyAnswers);
    }
    Ok(())
}

fn find_key(key: &Vec<KeyEntry>, id: i32) -> (r: Option<usize>)
    ensures
        r matches Some(k) ==> k == first_index(key@, key_pred(id)) && k < key@.len(),
        r is None ==> first_index(key@, key_pred(id)) < 0,
{
    let ghost p = key_pred(id);
    let mut i: usize = 0;
    while i < key.len()
        invariant
            i <= key@.len(),
            p == key_pred(id),
            first_index(key@, p) == first_index_from(key@, p, i as int),
        decreases key@.len() - i,
    {
        if key[i].question_id == id {
            assert(p(key@[i as int]));
            return Some(i);
        }
        i = i + 1;
    }
    None
}

/// Grades an already normalized selection against the normalized correct
/// option of its question, absent when the question is unknown: it is right
/// exactly when the two are equal.
pub fn grade_normalized(question_id: i32, selected: String, correct: Option<String>) -> (r:
    AnswerResult)
    ensures
        r.question_id == question_id,
        r.selected_option == selected,
        r.correct_option == correct,
        r.is_correct == (correct is Some && correct->0@ == selected@),
{
    let ok = match &correct {
        Some(c) => *c == selected,
        None => false,
    };
    AnswerResult { question_id, selected_option: selected, is_correct: ok, correct_option: correct }
}

/// Grades one answer against the key.
pub fn grade_answer(a: &AnswerInput, key: &Vec<KeyEntry>) -> (r: AnswerResult)
    ensures
        grades(r, *a, key@),
{
    let sel = normalize_option(a.selected_option.as_str());
    let correct = match find_key(key, a.question_id) {
        Some(k) => Some(normalize_option(key[k].correct_option.as_str())),
        None => None,
    };
    grade_normalized(a.question_id, sel, correct)
}

proof fn lemma_count_correct_push(rs: Seq<AnswerResult>, x: AnswerResult)
    ensures
        count_correct(rs.push(x)) == count_correct(rs) + if x.is_correct {
            1nat
        } else {
            0nat
        },
        count_correct(rs) <= rs.len(),
    decreases rs.len(),
{
    assert(rs.push(x).drop_last() =~= rs);
    if rs.len() > 0 {
        lemma_count_correct_push(rs.drop_last(), rs.last());
        assert(rs.drop_last().push(rs.last()) =~= rs);
    }
}

/// Grades every answer, in order, one result per answer even where a question
/// id repeats, and counts the correct ones. The caller's identity must be
/// resolved, the list non-empty and some answered question in the key.
pub fn grade_submission(caller: &Option<Identity>, answers: &Vec<AnswerInput>, key: &Vec<KeyEntry>) -> (r:
    Result<Grading, ServiceError>)
    requires
        answers@.len() <= i32::MAX,
    ensures
        submission_refusal(*caller, answers@, key@) matches Some(e) ==> r == Err::<
            Grading,
            ServiceError,
        >(e),
        submission_refusal(*caller, answers@, key@) is None ==> (r matches Ok(g) && {
            &&& g.username == caller->0.username
            &&& g.total_questions == answers@.len()
            &&& g.correct_answers == count_correct(g.answers@)
            &&& grades_all(g.answers@, answers@, key@)
        }),
{
    match check_submission(caller, answers) {
        Err(e) => {
            return Err(e);
        },
        Ok(()) => {},
    }
    let username = match caller {
        None => {
            return Err(ServiceError::InvalidToken);
        },
        Some(id) => id.username.clone(),
    };
    let mut results: Vec<AnswerResult> = Vec::new();
    let mut correct: i32 = 0;
    let mut known = false;
    let mut i: usize = 0;
    while i < answers.len()
        invariant
            i <= answers@.len() <= i32::MAX,
            results@.len() == i,
            correct == count_correct(results@),
            forall|j: int| 0 <= j < i ==> grades(#[trigger] results@[j], answers@[j], key@),
            known == exists|j: int|
                0 <= j < i && first_index(key@, key_pred(#[trigger] answers@[j].question_id))
                    >= 0,
        decreases answers@.len() - i,
    {
        let res = grade_answer(&answers[i], key);
        if res.correct_option.is_some() {
            known = true;
        }
        proof {
            lemma_count_correct_push(results@, res);
            lemma_count_correct_push(results@.push(res), res);
        }
        if res.is_correct {
            correct = correct + 1;
        }
        results.push(res);
        i = i + 1;
    }
    if !known {
        return Err(ServiceError::NoMatchingQuestions);
    }
    Ok(Grading { username, total_questions: answers.len() as i32, correct_answers: correct, answers: results })
}

/// The rows that record the graded answers under one submission, in order.
pub fn submission_rows(submission_id: i32, results: &Vec<AnswerResult>) -> (r: Vec<SubmissionAnswer>)
    ensures
        r@.len() == results@.len(),
        forall|i: int| 0 <= i < r@.len() ==> #[trigger] r@[i] == answer_row(submission_id, results@[i]),
{
    let mut rows: Vec<SubmissionAnswer> = Vec::new();
    let mut i: usize = 0;
    while i < results.len()
        invariant
            i <= results@.len(),
            rows@.len() == i,
            forall|j: int| 0 <= j < i ==> #[trigger] rows@[j] == answer_row(submission_id, results@[j]),
        decreases results@.len() - i,
    {
        let res = &results[i];
        rows.push(
            SubmissionAnswer {
                submission_id,
                question_id: res.question_id,
                selected_option: res.selected_option.clone(),
                is_correct: res.is_correct,
            },
        );
        i = i + 1;
    }
    rows
}

pub open spec fn answer_pred(id: i32) -> spec_fn(AnswerInput) -> bool {
    |a: AnswerInput| a.question_id == id
}

/// Where question `id` first appears among the answers, or -1.
pub open spec fn first_appearance(answers: Seq<AnswerInput>, id: i32) -> int {
    first_index(answers, answer_pred(id))
}

/// Each question id the answers name, once, in order of first appearance.
pub fn distinct_question_ids(answers: &Vec<AnswerInput>) -> (r: Vec<i32>)
    ensures
        r@.no_duplicates(),
        forall|x: i32|
            r@.contains(x) <==> exists|j: int|
                0 <= j < answers@.len() && #[trigger] answers@[j].question_id == x,
        forall|a: int, b: int|
            0 <= a < b < r@.len() ==> first_appearance(answers@, #[trigger] r@[a])
                < first_appearance(answers@, #[trigger] r@[b]),
{
    let mut ids: Vec<i32> = Vec::new();
    let mut i: usize = 0;
    while i < answers.len()
        invariant
            i <= answers@.len(),
            ids@.no_duplicates(),
            forall|x: i32|
                ids@.contains(x) <==> exists|j: int|
                    0 <= j < i && #[trigger] answers@[j].question_id == x,
            forall|k: int|
                0 <= k < ids@.len() ==> 0 <= first_appearance(answers@, #[trigger] ids@[k]) < i,
            forall|a: int, b: int|
                0 <= a < b < ids@.len() ==> first_appearance(answers@, #[trigger] ids@[a])
                    < first_appearance(answers@, #[trigger] ids@[b]),
        decreases answers@.len() - i,
    {
        let id = answers[i].question_id;
        let mut seen = false;
        let mut k: usize = 0;
        while k < ids.len()
            invariant
                k <= ids@.len(),
                seen == exists|m: int| 0 <= m < k && ids@[m] == id,
            decreases ids@.len() - k,
        {
            if ids[k] == id {
                seen = true;
            }
            k = k + 1;
        }
        let ghost before = ids@;
        if !seen {
            ids.push(id);
        }
        proof {
            assert forall|x: i32|
                ids@.contains(x) <==> exists|j: int|
                    0 <= j < i + 1 && #[trigger] answers@[j].question_id == x by {
                if ids@.contains(x) {
                    let m = choose|m: int| 0 <= m < ids@.len() && ids@[m] == x;
                    if m < before.len() {
                        assert(before[m] == x);
                        assert(before.contains(x));
                    } else {
                        assert(answers@[i as int].question_id == x);
                    }
                }
                if exists|j: int| 0 <= j < i + 1 && #[trigger] answers@[j].question_id == x {
                    let j = choose|j: int| 0 <= j < i + 1 && #[trigger] answers@[j].question_id == x;
                    if j < i {
                        assert(before.contains(x));
                        let m = choose|m: int| 0 <= m < before.len() && before[m] == x;
                        assert(ids@[m] == x);
                    } else if seen {
                        let m = choose|m: int| 0 <= m < before.len() && before[m] == id;
                        assert(ids@[m] == x);
                    } else {
                        assert(ids@[before.len() as int] == x);
                    }
                }
            }
            if !seen {
                assert forall|a: int, b: int| 0 <= a < b < ids@.len() implies ids@[a] != ids@[b] by {
                    if b == before.len() {
                        assert(before[a] != id);
                    }
                }
                lemma_first_index_found(answers@, answer_pred(id), 0);
                assert(answer_pred(id)(answers@[i as int]));
                assert forall|j: int| 0 <= j < i implies !answer_pred(id)(#[trigger] answers@[j]) by {
                    if answers@[j].question_id == id {
                        assert(before.contains(id));
                        let m = choose|m: int| 0 <= m < before.len() && before[m] == id;
                        assert(ids@[m] == id);
                    }
                }
                assert(first_appearance(answers@, id) == i);
            }
            assert forall|k: int| 0 <= k < ids@.len() implies 0 <= first_appearance(
                answers@,
                #[trigger] ids@[k],
            ) < i + 1 by {
                if k < before.len() {
                    assert(ids@[k] == before[k]);
                }
            }
            assert forall|a: int, b: int| 0 <= a < b < ids@.len() implies first_appearance(
                answers@,
                #[trigger] ids@[a],
            ) < first_appearance(answers@, #[trigger] ids@[b]) by {
                assert(ids@[a] == before[a]);
                if b < before.len() {
                    assert(ids@[b] == before[b]);
                }
            }
        }
        i = i + 1;
    }
    ids
}

/// The key a question bank gives: each question's id and correct option.
pub open spec fn bank_key(qs: Seq<Question>) -> Seq<KeyEntry> {
    Seq::new(
        qs.len(),
        |i: int| KeyEntry { question_id: qs[i].id, correct_option: qs[i].correct_option },
    )
}

/// The listing form of a question.
pub open spec fn public_of(q: Question) -> PublicQuestion {
    PublicQuestion {
        id: q.id,
        question_text: q.question_text,
        option_a: q.option_a,
        option_b: q.option_b,
        option_c: q.option_c,
        option_d: q.option_d,
    }
}

/// The id the next question receives.
pub open spec fn next_question_id(qs: Seq<Question>) -> int {
    if qs.len() == 0 {
        1
    } else {
        qs.last().id + 1
    }
}

/// The id the next submission receives.
pub open spec fn next_submission_id(ss: Seq<Submission>) -> int {
    if ss.len() == 0 {
        1
    } else {
        ss.last().id + 1
    }
}

/// Whether a submission with this id is recorded.
pub open spec fn has_submission(subs: Seq<Submission>, id: i32) -> bool {
    exists|k: int| 0 <= k < subs.len() && #[trigger] subs[k].id == id
}

/// How many answer rows belong to the submission with this id.
pub open spec fn rows_for(rows: Seq<SubmissionAnswer>, id: i32) -> nat
    decreases rows.len(),
{
    if rows.len() == 0 {
        0
    } else {
        rows_for(rows.drop_last(), id) + if rows.last().submission_id == id {
            1nat
        } else {
            0nat
        }
    }
}

/// Rows of two row lists count separately.
proof fn lemma_rows_for_concat(a: Seq<SubmissionAnswer>, b: Seq<SubmissionAnswer>, id: i32)
    ensures
        rows_for(a + b, id) == rows_for(a, id) + rows_for(b, id),
    decreases b.len(),
{
    if b.len() == 0 {
        assert(a + b =~= a);
    } else {
        assert((a + b).drop_last() =~= a + b.drop_last());
        assert((a + b).last() == b.last());
        lemma_rows_for_concat(a, b.drop_last(), id);
    }
}

/// Rows that all belong to one submission count fully for it and not at all
/// for any other.
proof fn lemma_rows_for_uniform(b: Seq<SubmissionAnswer>, sid: i32, id: i32)
    requires
        forall|i: int| 0 <= i < b.len() ==> (#[trigger] b[i]).submission_id == sid,
    ensures
        rows_for(b, id) == if id == sid {
            b.len()
        } else {
            0
        },
    decreases b.len(),
{
    if b.len() > 0 {
        assert(b.last() == b[b.len() - 1]);
        assert forall|i: int| 0 <= i < b.drop_last().len() implies (#[trigger] b.drop_last()[i]).submission_id
            == sid by {
            assert(b.drop_last()[i] == b[i]);
        }
        lemma_rows_for_uniform(b.drop_last(), sid, id);
    }
}

/// Rows none of which belongs to submission `id` count nothing for it.
proof fn lemma_rows_for_absent(rows: Seq<SubmissionAnswer>, id: i32)
    requires
        forall|i: int| 0 <= i < rows.len() ==> (#[trigger] rows[i]).submission_id != id,
    ensures
        rows_for(rows, id) == 0,
    decreases rows.len(),
{
    if rows.len() > 0 {
        assert(rows.last() == rows[rows.len() - 1]);
        assert forall|i: int| 0 <= i < rows.drop_last().len() implies (#[trigger] rows.drop_last()[i]).submission_id
            != id by {
            assert(rows.drop_last()[i] == rows[i]);
        }
        lemma_rows_for_absent(rows.drop_last(), id);
    }
}

/// The question bank and the submission history.
pub struct QuizLedger {
    questions: Vec<Question>,
    submissions: Vec<Submission>,
    answers: Vec<SubmissionAnswer>,
}

impl QuizLedger {
    pub closed spec fn questions(&self) -> Seq<Question> {
        self.questions@
    }

    pub closed spec fn submissions(&self) -> Seq<Submission> {
        self.submissions@
    }

    pub closed spec fn answer_rows(&self) -> Seq<SubmissionAnswer> {
        self.answers@
    }

    /// Question and submission ids are positive and increase in order of
    /// creation; every stored correct option is a letter A to D; every answer
    /// row belongs to a recorded submission, and every submission has exactly
    /// as many answer rows as its question count.
    pub open spec fn wf(&self) -> bool {
        &&& forall|i: int| 0 <= i < self.questions().len() ==> #[trigger] self.questions()[i].id >= 1
        &&& forall|i: int, j: int|
            0 <= i < j < self.questions().len() ==> #[trigger] self.questions()[i].id
                < #[trigger] self.questions()[j].id
        &&& forall|i: int|
            0 <= i < self.questions().len() ==> is_option_letter(
                #[trigger] self.questions()[i].correct_option@,
            )
        &&& forall|i: int| 0 <= i < self.submissions().len() ==> #[trigger] self.submissions()[i].id >= 1
        &&& forall|i: int, j: int|
            0 <= i < j < self.submissions().len() ==> #[trigger] self.submissions()[i].id
                < #[trigger] self.submissions()[j].id
        &&& forall|i: int|
            0 <= i < self.answer_rows().len() ==> has_submission(
                self.submissions(),
                #[trigger] self.answer_rows()[i].submission_id,
            )
        &&& forall|k: int|
            0 <= k < self.submissions().len() ==> rows_for(
                self.answer_rows(),
                #[trigger] self.submissions()[k].id,
            ) == self.submissions()[k].total_questions
    }

    /// An empty bank with no submissions.
    pub fn new() -> (r: Self)
        ensures
            r.wf(),
            r.questions() == Seq::<Question>::empty(),
            r.submissions() == Seq::<Submission>::empty(),
            r.answer_rows() == Seq::<SubmissionAnswer>::empty(),
    {
        QuizLedger { questions: Vec::new(), submissions: Vec::new(), answers: Vec::new() }
    }

    /// Adds a question for a staff caller, with the next id and its correct
    /// option normalized. A refused or failed creation changes nothing.
    pub fn create_question(&mut self, caller: &Option<Identity>, draft: QuestionDraft) -> (r: Result<
        i32,
        ServiceError,
    >)
        requires
            old(self).wf(),
        ensures
            final(self).wf(),
            final(self).submissions() == old(self).submissions(),
            final(self).answer_rows() == old(self).answer_rows(),
            creation_refusal(*caller, draft) is Some ==> r == Err::<i32, ServiceError>(
                creation_refusal(*caller, draft)->0,
            ),
            creation_refusal(*caller, draft) is None && next_question_id(old(self).questions())
                > i32::MAX ==> r == Err::<i32, ServiceError>(ServiceError::IdsExhausted),
            creation_refusal(*caller, draft) is None && next_question_id(old(self).questions())
                <= i32::MAX ==> {
                let q = final(self).questions().last();
                &&& r == Ok::<i32, ServiceError>(q.id)
                &&& q.id == next_question_id(old(self).questions())
                &&& final(self).questions() == old(self).questions().push(q)
                &&& q.question_text == draft.question_text
                &&& q.option_a == draft.option_a
                &&& q.option_b == draft.option_b
                &&& q.option_c == draft.option_c
                &&& q.option_d == draft.option_d
                &&& q.correct_option@ == normalized(draft.correct_option@)
            },
            r is Err ==> final(self).questions() == old(self).questions(),
    {
        let correct = match check_new_question(caller, &draft) {
            Ok(c) => c,
            Err(e) => {
                return Err(e);
            },
        };
        let n = self.questions.len();
        let id = if n == 0 {
            1
        } else {
            let last = self.questions[n - 1].id;
            if last == i32::MAX {
                return Err(ServiceError::IdsExhausted);
            }
            last + 1
        };
        let q = Question {
            id,
            question_text: draft.question_text,
            option_a: draft.option_a,
            option_b: draft.option_b,
            option_c: draft.option_c,
            option_d: draft.option_d,
            correct_option: correct,
        };
        let ghost before = old(self).questions();
        self.questions.push(q);
        proof {
            let s = self.questions@;
            assert(s.drop_last() =~= before);
            assert(self.submissions@ =~= old(self).submissions@);
            assert(self.answers@ =~= old(self).answers@);
            assert forall|i: int| 0 <= i < self.submissions().len() implies #[trigger] self.submissions()[i].id >= 1 by {
                assert(self.submissions()[i] == old(self).submissions()[i]);
            }
            assert forall|i: int, j: int| 0 <= i < j < self.submissions().len() implies #[trigger] self.submissions()[i].id
                < #[trigger] self.submissions()[j].id by {
                assert(self.submissions()[i] == old(self).submissions()[i]);
                assert(self.submissions()[j] == old(self).submissions()[j]);
            }
            assert forall|i: int, j: int| 0 <= i < j < s.len() implies #[trigger] s[i].id
                < #[trigger] s[j].id by {
                if j == s.len() - 1 && i < j {
                    assert(s[i] == before[i]);
                    if i < before.len() - 1 {
                        assert(before[i].id < before[before.len() - 1].id);
                    }
                }
            }
            assert forall|i: int| 0 <= i < s.len() implies is_option_letter(
                #[trigger] s[i].correct_option@,
            ) by {
                if i < before.len() {
                    assert(s[i] == before[i]);
                }
            }
            assert forall|i: int| 0 <= i < s.len() implies #[trigger] s[i].id >= 1 by {
                if i < before.len() {
                    assert(s[i] == before[i]);
                }
            }
            assert forall|i: int| 0 <= i < self.answer_rows().len() implies has_submission(
                self.submissions(),
                #[trigger] self.answer_rows()[i].submission_id,
            ) by {
                assert(old(self).answer_rows()[i] == self.answer_rows()[i]);
                assert(self.submissions() == old(self).submissions());
            }
            assert forall|k: int| 0 <= k < self.submissions().len() implies rows_for(
                self.answer_rows(),
                #[trigger] self.submissions()[k].id,
            ) == self.submissions()[k].total_questions by {
                assert(self.submissions()[k] == old(self).submissions()[k]);
                assert(self.answer_rows() == old(self).answer_rows());
            }
        }
        Ok(id)
    }

    /// Every question in id order, without its correct option.
    pub fn list_questions(&self) -> (r: Vec<PublicQuestion>)
        ensures
            r@.len() == self.questions().len(),
            forall|i: int| 0 <= i < r@.len() ==> #[trigger] r@[i] == public_of(self.questions()[i]),
    {
        let mut out: Vec<PublicQuestion> = Vec::new();
        let mut i: usize = 0;
        while i < self.questions.len()
            invariant
                i <= self.questions@.len(),
                out@.len() == i,
                forall|j: int| 0 <= j < i ==> #[trigger] out@[j] == public_of(self.questions@[j]),
            decreases self.questions@.len() - i,
        {
            let q = &self.questions[i];
            out.push(
                PublicQuestion {
                    id: q.id,
                    question_text: q.question_text.clone(),
                    option_a: q.option_a.clone(),
                    option_b: q.option_b.clone(),
                    option_c: q.option_c.clone(),
                    option_d: q.option_d.clone(),
                },
            );
            i = i + 1;
        }
        out
    }

    /// The key of the whole bank, as one lookup fetches it.
    fn answer_key(&self) -> (r: Vec<KeyEntry>)
        ensures
            r@ == bank_key(self.questions()),
    {
        let mut key: Vec<KeyEntry> = Vec::new();
        let mut i: usize = 0;
        while i < self.questions.len()
            invariant
                i <= self.questions@.len(),
                key@ == bank_key(self.questions@).subrange(0, i as int),
            decreases self.questions@.len() - i,
        {
            let q = &self.questions[i];
            key.push(KeyEntry { question_id: q.id, correct_option: q.correct_option.clone() });
            i = i + 1;
            assert(key@ =~= bank_key(self.questions@).subrange(0, i as int));
        }
        assert(key@ =~= bank_key(self.questions@));
        key
    }

    /// Grades the caller's answers against the bank and records the submission
    /// with one answer row per answer, all together or not at all.
    pub fn grade_and_submit(&mut self, caller: &Option<Identity>, answers: &Vec<AnswerInput>) -> (r:
        Result<SubmitSummary, ServiceError>)
        requires
            old(self).wf(),
            answers@.len() <= i32::MAX,
        ensures
            final(self).wf(),
            final(self).questions() == old(self).questions(),
            ({
                let key = bank_key(old(self).questions());
                let refusal = submission_refusal(*caller, answers@, key);
                let sid = next_submission_id(old(self).submissions());
                &&& refusal is Some ==> r == Err::<SubmitSummary, ServiceError>(refusal->0)
                &&& refusal is None && sid > i32::MAX ==> r == Err::<SubmitSummary, ServiceError>(
                    ServiceError::IdsExhausted,
                )
                &&& refusal is None && sid <= i32::MAX ==> (r matches Ok(s) && {
                    &&& s.username == caller->0.username
                    &&& s.submission_id == sid
                    &&& s.total_questions == answers@.len()
                    &&& s.correct_answers == count_correct(s.answers@)
                    &&& grades_all(s.answers@, answers@, key)
                    &&& final(self).submissions() == old(self).submissions().push(
                        Submission {
                            id: s.submission_id,
                            username: s.username,
                            total_questions: s.total_questions,
                            correct_answers: s.correct_answers,
                        },
                    )
                    &&& final(self).answer_rows().len() == old(self).answer_rows().len()
                        + answers@.len()
                    &&& final(self).answer_rows().subrange(0, old(self).answer_rows().len() as int)
                        == old(self).answer_rows()
                    &&& forall|i: int|
                        0 <= i < answers@.len() ==> #[trigger] final(self).answer_rows()[old(
                            self,
                        ).answer_rows().len() + i] == answer_row(sid as i32, s.answers@[i])
                })
            }),
            r is Err ==> final(self).submissions() == old(self).submissions()
                && final(self).answer_rows() == old(self).answer_rows(),
    {
        let key = self.answer_key();
        let g = match grade_submission(caller, answers, &key) {
            Ok(g) => g,
            Err(e) => {
                return Err(e);
            },
        };
        let n = self.submissions.len();
        let sid = if n == 0 {
            1
        } else {
            let last = self.submissions[n - 1].id;
            if last == i32::MAX {
                return Err(ServiceError::IdsExhausted);
            }
            last + 1
        };
        let mut rows = submission_rows(sid, &g.answers);
        let ghost old_subs = old(self).submissions();
        let ghost old_rows = old(self).answer_rows();
        let ghost new_rows = rows@;
        self.submissions.push(
            Submission {
                id: sid,
                username: g.username.clone(),
                total_questions: g.total_questions,
                correct_answers: g.correct_answers,
            },
        );
        self.answers.append(&mut rows);
        proof {
            let s = self.submissions@;
            let a = self.answers@;
            assert(s.drop_last() =~= old_subs);
            assert(a.subrange(0, old_rows.len() as int) =~= old_rows);
            assert(self.questions@ =~= old(self).questions@);
            assert forall|i: int, j: int| 0 <= i < j < s.len() implies #[trigger] s[i].id
                < #[trigger] s[j].id by {
                if j == s.len() - 1 && i < j {
                    assert(s[i] == old_subs[i]);
                    if i < old_subs.len() - 1 {
                        assert(old_subs[i].id < old_subs[old_subs.len() - 1].id);
                    }
                }
            }
            assert forall|i: int| 0 <= i < s.len() implies #[trigger] s[i].id >= 1 by {
                if i < old_subs.len() {
                    assert(s[i] == old_subs[i]);
                }
            }
            assert forall|i: int| 0 <= i < a.len() implies has_submission(
                s,
                #[trigger] a[i].submission_id,
            ) by {
                if i < old_rows.len() {
                    assert(a[i] == old_rows[i]);
                    assert(has_submission(old_subs, old_rows[i].submission_id));
                    let k = choose|k: int|
                        0 <= k < old_subs.len() && #[trigger] old_subs[k].id
                            == old_rows[i].submission_id;
                    assert(s[k] == old_subs[k]);
                } else {
                    assert(a[i] == new_rows[i - old_rows.len()]);
                    assert(s[s.len() - 1].id == sid);
                }
            }
            assert forall|i: int| 0 <= i < answers@.len() implies #[trigger] a[old_rows.len() + i]
                == answer_row(sid as i32, g.answers@[i]) by {
                assert(a[old_rows.len() + i] == new_rows[i]);
            }
            assert(a =~= old_rows + new_rows);
            assert forall|i: int| 0 <= i < new_rows.len() implies (#[trigger] new_rows[i]).submission_id
                == sid by {}
            assert forall|k: int| 0 <= k < s.len() implies rows_for(a, #[trigger] s[k].id)
                == s[k].total_questions by {
                lemma_rows_for_concat(old_rows, new_rows, s[k].id);
                lemma_rows_for_uniform(new_rows, sid, s[k].id);
                if k < old_subs.len() {
                    assert(s[k] == old_subs[k]);
                    if k < old_subs.len() - 1 {
                        assert(old_subs[k].id < old_subs[old_subs.len() - 1].id);
                    }
                } else {
                    assert forall|i: int| 0 <= i < old_rows.len() implies (
                    #[trigger] old_rows[i]).submission_id != sid by {
                        assert(has_submission(old_subs, old_rows[i].submission_id));
                        let m = choose|m: int|
                            0 <= m < old_subs.len() && #[trigger] old_subs[m].id
                                == old_rows[i].submission_id;
                        if m < old_subs.len() - 1 {
                            assert(old_subs[m].id < old_subs[old_subs.len() - 1].id);
                        }
                    }
                    lemma_rows_for_absent(old_rows, sid);
                }
            }
        }
        Ok(
            SubmitSummary {
                username: g.username,
                submission_id: sid,
                total_questions: g.total_questions,
                correct_answers: g.correct_answers,
                answers: g.answers,
            },
        )
    }
}

/// Two answers to the same question are graded against the same correct
/// option, each on its own selection: equal selections get equal verdicts.
pub proof fn lemma_repeated_question_graded_alike(
    r1: AnswerResult,
    a1: AnswerInput,
    r2: AnswerResult,
    a2: AnswerInput,
    key: Seq<KeyEntry>,
)
    requires
        grades(r1, a1, key),
        grades(r2, a2, key),
        a1.question_id == a2.question_id,
    ensures
        r1.correct_option is Some <==> r2.correct_option is Some,
        r1.correct_option is Some ==> r1.correct_option->0@ == r2.correct_option->0@,
        normalized(a1.selected_option@) == normalized(a2.selected_option@) ==> r1.is_correct
            == r2.is_correct,
{
}

} // verus!
