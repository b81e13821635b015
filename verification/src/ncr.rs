//! NCR defect-code suggestions powered by TypeSafe AI's System One API (the
//! `jev` model).
//!
//! Every defect code of the catalog is turned into one yes/no question — "is
//! the described non-conformance an instance of this code?" — and all of them
//! are sent in a single request with the NCR description as the state. The
//! model answers each question with the probability that the code matches the
//! description; that probability becomes the suggestion's confidence, and codes
//! at or above the threshold are auto-selected.
//!
//! One question per code — rather than a single choice question — keeps the
//! codes independent, so a description can legitimately match several codes.

use vstd::prelude::*;
use vstd::string::*;

use crate::catalog::{catalog, defect_codes, law_catalog_in_order, lemma_code_ids, views};
use crate::double::{law_bits_decide, lemma_rank_orders_numbers, Double};
use crate::json::{Json, Tree};
use crate::text::{blank, is_blank, join, join3, quoted, quoted_text, same_text};
use crate::text_map::{names_distinct, pairs_map};
use crate::typesafe::answer::{Answer, SystemOneResult};
use crate::typesafe::client::{
    configuration, is_http_failure, law_room_for_the_built_in_headers, no_options, Call, ClientView,
    Environment, Method, TypeSafeClient, SYSTEMONE_PATH,
};
use crate::typesafe::error::{Error, ErrorView};
use crate::typesafe::question::{
    law_criteria_wire, law_question_wire, question_result, NoulCriteriaView, Question, QuestionView,
};
use crate::typesafe::request::{
    has_blank_id, law_questions_wire, law_request_is_accepted, law_request_wire, lemma_pair_is_kept,
    question_views, request_of, RequestView, SystemOneRequest,
};

verus! {

/// A defect code of the catalog.
#[derive(Debug, PartialEq)]
pub struct DefectCode {
    /// Stable identifier, e.g. `D-001`. Also used as the id of the question
    /// sent to the API.
    pub id: String,
    /// Short human-readable name of the defect code.
    pub title: String,
    /// What kinds of non-conformances the defect code covers.
    pub description: String,
}

/// What a [`DefectCode`] says.
pub struct DefectCodeView {
    pub id: Seq<char>,
    pub title: Seq<char>,
    pub description: Seq<char>,
}

impl View for DefectCode {
    type V = DefectCodeView;

    open spec fn view(&self) -> DefectCodeView {
        DefectCodeView { id: self.id@, title: self.title@, description: self.description@ }
    }
}

impl Clone for DefectCode {
    fn clone(&self) -> (copy: Self)
        ensures
            copy == *self,
    {
        DefectCode {
            id: self.id.clone(),
            title: self.title.clone(),
            description: self.description.clone(),
        }
    }
}

/// The defect codes suggested for an NCR description.
#[derive(Debug, Clone, PartialEq)]
pub struct Suggestion {
    /// Every known defect code with its confidence, sorted from most
    /// probable to least probable.
    pub defect_codes: Vec<DefectCodeSuggestion>,
}

/// One defect code matched against an NCR description.
#[derive(Debug, Clone, PartialEq)]
pub struct DefectCodeSuggestion {
    /// The defect code that was evaluated.
    pub defect_code: DefectCode,
    /// Whether this defect code was auto-selected based on the threshold.
    pub selected: bool,
    /// Confidence that this defect code matched the given description.
    pub confidence: Double,
}

/// What a [`DefectCodeSuggestion`] says.
pub struct MatchView {
    pub code: DefectCodeView,
    pub selected: bool,
    pub confidence: Double,
}

impl View for DefectCodeSuggestion {
    type V = MatchView;

    open spec fn view(&self) -> MatchView {
        MatchView {
            code: self.defect_code@,
            selected: self.selected,
            confidence: self.confidence,
        }
    }
}

/// Auto-select defect codes whose confidence is above or at this threshold:
/// the bits of 0.8.
pub const AUTO_SELECT_THRESHOLD: u64 = 0x3FE9_9999_9999_999A;

/// The threshold as a number.
pub open spec fn threshold() -> Double {
    Double { bits: AUTO_SELECT_THRESHOLD }
}

// ---------------------------------------------------------------------------
// The catalog
// ---------------------------------------------------------------------------

/// Whether a code lacks an id, a title or a description.
pub open spec fn has_gap(code: DefectCodeView) -> bool {
    is_blank(code.id) || is_blank(code.title) || is_blank(code.description)
}

/// Whether one of `codes` has this id.
pub open spec fn has_id(codes: Seq<DefectCodeView>, id: Seq<char>) -> bool {
    exists|i: int| 0 <= i < codes.len() && (#[trigger] codes[i]).id == id
}

/// What is wrong with the first code with which something is: that it has a
/// gap, or the id of a code before it.
pub open spec fn first_code_fault(codes: Seq<DefectCodeView>) -> Option<Seq<char>>
    decreases codes.len(),
{
    if codes.len() == 0 {
        None
    } else {
        match first_code_fault(codes.drop_last()) {
            Some(fault) => Some(fault),
            None => {
                let code = codes.last();
                if has_gap(code) {
                    Some(
                        "defect code "@ + quoted_text(code.id)
                            + " has an empty id, title, or description"@,
                    )
                } else if has_id(codes.drop_last(), code.id) {
                    Some("duplicate defect code id "@ + quoted_text(code.id))
                } else {
                    None
                }
            },
        }
    }
}

/// What is wrong with a catalog, if anything.
pub open spec fn catalog_fault(codes: Seq<DefectCodeView>) -> Option<Seq<char>> {
    if codes.len() == 0 {
        Some("the catalog needs at least one defect code"@)
    } else {
        first_code_fault(codes)
    }
}

/// A catalog that holds at least one code, each with a title and a description
/// and an id of its own.
pub open spec fn is_catalog(codes: Seq<DefectCodeView>) -> bool {
    &&& codes.len() > 0
    &&& forall|i: int| 0 <= i < codes.len() ==> !has_gap(#[trigger] codes[i])
    &&& forall|i: int, j: int|
        0 <= i < j < codes.len() ==> (#[trigger] codes[i]).id != (#[trigger] codes[j]).id
}

/// A fault of the first codes is the fault of all of them.
proof fn lemma_code_fault_stays(codes: Seq<DefectCodeView>, n: int)
    requires
        0 <= n <= codes.len(),
        first_code_fault(codes.take(n)) is Some,
    ensures
        first_code_fault(codes) == first_code_fault(codes.take(n)),
    decreases codes.len(),
{
    if n < codes.len() {
        assert(codes.drop_last().take(n) =~= codes.take(n));
        lemma_code_fault_stays(codes.drop_last(), n);
    } else {
        assert(codes.take(n) =~= codes);
    }
}

/// Codes without a fault are complete and have an id each of their own, and the
/// other way round.
proof fn lemma_no_code_fault(codes: Seq<DefectCodeView>)
    ensures
        first_code_fault(codes) is None <==> {
            &&& forall|i: int| 0 <= i < codes.len() ==> !has_gap(#[trigger] codes[i])
            &&& forall|i: int, j: int|
                0 <= i < j < codes.len() ==> (#[trigger] codes[i]).id != (#[trigger] codes[j]).id
        },
    decreases codes.len(),
{
    if codes.len() > 0 {
        let init = codes.drop_last();
        let last = codes.len() - 1;
        lemma_no_code_fault(init);
        if first_code_fault(codes) is None {
            assert forall|i: int| 0 <= i < codes.len() implies !has_gap(#[trigger] codes[i]) by {
                if i < last {
                    assert(!has_gap(init[i]));
                }
            }
            assert forall|i: int, j: int| 0 <= i < j < codes.len() implies (#[trigger] codes[i]).id
                != (#[trigger] codes[j]).id by {
                if j < last {
                    assert(init[i].id != init[j].id);
                } else {
                    assert(init[i] == codes[i]);
                }
            }
        }
        if (forall|i: int| 0 <= i < codes.len() ==> !has_gap(#[trigger] codes[i])) && (forall|
            i: int,
            j: int,
        |
            0 <= i < j < codes.len() ==> (#[trigger] codes[i]).id != (#[trigger] codes[j]).id) {
            assert forall|i: int| 0 <= i < init.len() implies !has_gap(#[trigger] init[i]) by {
                assert(!has_gap(codes[i]));
            }
            assert forall|i: int, j: int| 0 <= i < j < init.len() implies (#[trigger] init[i]).id != (
            #[trigger] init[j]).id by {
                assert(codes[i].id != codes[j].id);
            }
            assert(!has_gap(codes[last]));
            assert(!has_id(init, codes.last().id)) by {
                if has_id(init, codes.last().id) {
                    let i = choose|i: int|
                        0 <= i < init.len() && (#[trigger] init[i]).id == codes.last().id;
                    assert(codes[i].id != codes[last].id);
                }
            }
        }
    }
}

/// A catalog is accepted exactly when it holds at least one code, each with a
/// title and a description and an id of its own.
pub proof fn law_catalog_is_accepted(codes: Seq<DefectCodeView>)
    ensures
        catalog_fault(codes) is None <==> is_catalog(codes),
{
    lemma_no_code_fault(codes);
}

/// The sample catalog is one.
pub proof fn law_own_catalog_is_accepted()
    ensures
        is_catalog(catalog()),
{
    law_catalog_in_order();
    let codes = catalog();
    assert forall|i: int| 0 <= i < codes.len() implies !has_gap(#[trigger] codes[i]) by {
        lemma_code_ids((1 + i) as nat, 0);
    }
    assert forall|i: int, j: int| 0 <= i < j < codes.len() implies (#[trigger] codes[i]).id != (
    #[trigger] codes[j]).id by {
        lemma_code_ids((1 + i) as nat, (1 + j) as nat);
    }
}

/// What codes say, where they could be read.
pub open spec fn catalog_result(
    r: Result<Vec<DefectCode>, String>,
    parsed: Result<Vec<DefectCode>, String>,
) -> bool {
    match parsed {
        Err(message) => r is Err && r->Err_0@ == message@,
        Ok(codes) => match catalog_fault(views(codes@)) {
            Some(fault) => r is Err && r->Err_0@ == fault,
            None => r is Ok && r->Ok_0@ == codes@,
        },
    }
}

/// Validate a defect code catalog that was read as JSON, or that could not be
/// read with the error that tells why.
///
/// Catalogs need at least one entry, and every entry needs a unique,
/// non-empty `id`, and a non-empty `title` and `description`.
pub fn parse_defect_codes(parsed: Result<Vec<DefectCode>, String>) -> (r: Result<
    Vec<DefectCode>,
    String,
>)
    ensures
        catalog_result(r, parsed),
        match (parsed, r) {
            (Err(message), Err(told)) => told@ == message@,
            (Err(_), Ok(_)) => false,
            (Ok(given), Ok(codes)) => codes@ == given@ && is_catalog(views(given@)),
            (Ok(given), Err(told)) => !is_catalog(views(given@)) && catalog_fault(views(given@))
                == Some(told@),
        },
{
    let codes = match parsed {
        Ok(codes) => codes,
        Err(message) => return Err(message),
    };
    if codes.is_empty() {
        return Err("the catalog needs at least one defect code".to_owned());
    }
    let ghost all = views(codes@);
    proof {
        law_catalog_is_accepted(all);
    }
    let mut i: usize = 0;
    assert(all.take(0) =~= Seq::empty());
    while i < codes.len()
        invariant
            parsed == Ok::<Vec<DefectCode>, String>(codes),
            catalog_fault(all) is None <==> is_catalog(all),
            all == views(codes@),
            all.len() > 0,
            i <= codes@.len(),
            first_code_fault(all.take(i as int)) is None,
        decreases codes@.len() - i,
    {
        let code = &codes[i];
        proof {
            assert(all.take(i + 1).drop_last() =~= all.take(i as int));
            assert(all.take(i + 1).last() == code@);
            if first_code_fault(all.take(i + 1)) is Some {
                lemma_code_fault_stays(all, i + 1);
            }
        }
        if blank(code.id.as_str()) || blank(code.title.as_str()) || blank(
            code.description.as_str(),
        ) {
            return Err(
                join3(
                    "defect code ",
                    quoted(code.id.as_str()).as_str(),
                    " has an empty id, title, or description",
                ),
            );
        }
        if id_occurs(&codes, i, code.id.as_str()) {
            return Err(join("duplicate defect code id ", quoted(code.id.as_str()).as_str()));
        }
        i = i + 1;
    }
    assert(all.take(all.len() as int) =~= all);
    Ok(codes)
}

/// Whether one of the first `n` codes has this id.
fn id_occurs(codes: &Vec<DefectCode>, n: usize, id: &str) -> (r: bool)
    requires
        n <= codes@.len(),
    ensures
        r == has_id(views(codes@).take(n as int), id@),
{
    let ghost first = views(codes@).take(n as int);
    let mut i: usize = 0;
    while i < n
        invariant
            i <= n <= codes@.len(),
            first == views(codes@).take(n as int),
            forall|k: int| 0 <= k < i ==> (#[trigger] first[k]).id != id@,
        decreases n - i,
    {
        assert(first[i as int].id == codes@[i as int].id@);
        if same_text(codes[i].id.as_str(), id) {
            return true;
        }
        i = i + 1;
    }
    false
}

// ---------------------------------------------------------------------------
// Questions
// ---------------------------------------------------------------------------

/// The instructions of the question about a code.
pub open spec fn code_instructions(code: DefectCodeView) -> Seq<char> {
    "Is the described non-conformance an instance of defect code "@ + code.id + " — "@ + code.title
        + "?"@
}

/// What a no means in the question about a code.
pub open spec fn code_refusal() -> Seq<char> {
    "Description points to another defect code, is too vague or unclear to assign this defect code."@
}

/// The question about a code, or what is wrong with it.
pub open spec fn code_question(code: DefectCodeView) -> Result<QuestionView, Seq<char>> {
    if is_blank(code.description) {
        Err("criteria description must not be empty"@)
    } else {
        Ok(
            QuestionView::Noul {
                instructions: Tree::Text(code_instructions(code)),
                criteria: Some(
                    NoulCriteriaView {
                        true_description: Some(Tree::Text(code.description)),
                        false_description: Some(Tree::Text(code_refusal())),
                    },
                ),
            },
        )
    }
}

/// The noul question asking whether the described non-conformance is an
/// instance of `code`. The question id is the defect code's id.
pub fn question_for(code: &DefectCode) -> (r: Result<Question, Error>)
    ensures
        question_result(r, code_question(code@)),
{
    let mut instructions = join3(
        "Is the described non-conformance an instance of defect code ",
        code.id.as_str(),
        " — ",
    );
    instructions.append(code.title.as_str());
    instructions.append("?");
    proof {
        reveal_strlit("Is the described non-conformance an instance of defect code ");
        assert(!is_blank(instructions@)) by {
            assert(instructions@[0] == 'I');
        }
        reveal_strlit(
            "Description points to another defect code, is too vague or unclear to assign this defect code.",
        );
        assert(!is_blank(code_refusal())) by {
            assert(code_refusal()[0] == 'D');
        }
        reveal_strlit("criteria description must not be empty");
        reveal_strlit("criteria description");
        reveal_strlit(" must not be empty");
        assert("criteria description"@ + " must not be empty"@
            =~= "criteria description must not be empty"@);
    }
    let question = match Question::noul(Json::Text(instructions)) {
        Ok(question) => question,
        Err(error) => return Err(error),
    };
    let question = match question.criteria_true(Json::Text(code.description.clone())) {
        Ok(question) => question,
        Err(error) => return Err(error),
    };
    question.criteria_false(
        Json::text(
            "Description points to another defect code, is too vague or unclear to assign this defect code.",
        ),
    )
}

/// The questions about codes, each under the id of its code, up to the first
/// code with which something is wrong.
pub open spec fn code_questions(codes: Seq<DefectCodeView>) -> Result<
    Seq<(Seq<char>, QuestionView)>,
    Seq<char>,
>
    decreases codes.len(),
{
    if codes.len() == 0 {
        Ok(Seq::empty())
    } else {
        match (code_questions(codes.drop_last()), code_question(codes.last())) {
            (Err(fault), _) => Err(fault),
            (Ok(_), Err(fault)) => Err(fault),
            (Ok(questions), Ok(question)) => Ok(questions.push((codes.last().id, question))),
        }
    }
}

/// The request that matches a description against codes, none where the
/// description is blank, or what is wrong with it.
pub open spec fn suggestion_request_of(
    description: Seq<char>,
    codes: Seq<DefectCodeView>,
) -> Result<Option<RequestView>, Seq<char>> {
    if is_blank(description) {
        Ok(None)
    } else {
        match code_questions(codes) {
            Err(fault) => Err(fault),
            Ok(questions) => match request_of(Tree::Text(description), questions) {
                Err(fault) => Err(fault),
                Ok(request) => Ok(Some(request)),
            },
        }
    }
}

proof fn lemma_question_fault_stays(codes: Seq<DefectCodeView>, n: int)
    requires
        0 <= n <= codes.len(),
        code_questions(codes.take(n)) is Err,
    ensures
        code_questions(codes) == code_questions(codes.take(n)),
    decreases codes.len(),
{
    if n < codes.len() {
        assert(codes.drop_last().take(n) =~= codes.take(n));
        lemma_question_fault_stays(codes.drop_last(), n);
    } else {
        assert(codes.take(n) =~= codes);
    }
}

/// The request that matches an NCR description against codes: one noul
/// question per code, the description as the state. A blank description needs
/// none.
pub fn suggestion_request(ncr_description: &str, codes: &Vec<DefectCode>) -> (r: Result<
    Option<SystemOneRequest>,
    Error,
>)
    ensures
        match (r, suggestion_request_of(ncr_description@, views(codes@))) {
            (Ok(None), Ok(None)) => true,
            (Ok(Some(request)), Ok(Some(view))) => request@ == view,
            (Err(error), Err(message)) => error@ == ErrorView::InvalidRequest(message),
            _ => false,
        },
{
    if blank(ncr_description) {
        return Ok(None);
    }
    let ghost all = views(codes@);
    let mut questions: Vec<(String, Question)> = Vec::new();
    let mut i: usize = 0;
    assert(all.take(0) =~= Seq::empty());
    assert(question_views(questions@) =~= Seq::empty());
    while i < codes.len()
        invariant
            i <= codes@.len(),
            !is_blank(ncr_description@),
            all == views(codes@),
            code_questions(all.take(i as int)) == Ok::<Seq<(Seq<char>, QuestionView)>, Seq<char>>(
                question_views(questions@),
            ),
        decreases codes@.len() - i,
    {
        let code = &codes[i];
        proof {
            assert(all.take(i + 1).drop_last() =~= all.take(i as int));
            assert(all.take(i + 1).last() == code@);
            if code_question(code@) is Err {
                lemma_question_fault_stays(all, i + 1);
            }
        }
        let question = match question_for(code) {
            Ok(question) => question,
            Err(error) => return Err(error),
        };
        let ghost before = questions@;
        questions.push((code.id.clone(), question));
        assert(question_views(questions@) =~= question_views(before).push((code.id@, question@)));
        i = i + 1;
    }
    assert(all.take(all.len() as int) =~= all);
    match SystemOneRequest::new(Json::text(ncr_description), questions) {
        Ok(request) => Ok(Some(request)),
        Err(error) => Err(error),
    }
}

/// The questions about the codes of a catalog stand in its order, each under
/// the id of its code.
proof fn lemma_code_questions(codes: Seq<DefectCodeView>)
    requires
        forall|i: int| 0 <= i < codes.len() ==> !has_gap(#[trigger] codes[i]),
    ensures
        code_questions(codes) is Ok,
        code_questions(codes)->Ok_0.len() == codes.len(),
        forall|i: int|
            0 <= i < codes.len() ==> (#[trigger] code_questions(codes)->Ok_0[i]) == (
                codes[i].id,
                code_question(codes[i])->Ok_0,
            ),
    decreases codes.len(),
{
    if codes.len() > 0 {
        let init = codes.drop_last();
        assert forall|i: int| 0 <= i < init.len() implies !has_gap(#[trigger] init[i]) by {
            assert(!has_gap(codes[i]));
        }
        lemma_code_questions(init);
        assert(!has_gap(codes[codes.len() - 1]));
    }
}

/// A description that is not blank can be matched against every catalog, and
/// the request asks about each of its codes under the id of the code.
pub proof fn law_every_code_is_asked_about(
    description: Seq<char>,
    codes: Seq<DefectCodeView>,
    i: int,
)
    requires
        !is_blank(description),
        is_catalog(codes),
        0 <= i < codes.len(),
    ensures
        suggestion_request_of(description, codes) matches Ok(Some(request)) && {
            &&& request.state == Tree::Text(description)
            &&& request.model is None
            &&& request.questions.contains_key(codes[i].id)
            &&& Ok::<QuestionView, Seq<char>>(request.questions[codes[i].id]) == code_question(
                codes[i],
            )
        },
{
    lemma_code_questions(codes);
    let questions = code_questions(codes)->Ok_0;
    assert(!has_blank_id(questions)) by {
        if has_blank_id(questions) {
            let k = choose|k: int| 0 <= k < questions.len() && is_blank((#[trigger] questions[k]).0);
            assert(!has_gap(codes[k]));
        }
    }
    assert(names_distinct(questions)) by {
        assert forall|j: int, k: int| 0 <= j < k < questions.len() implies (#[trigger] questions[j]).0
            != (#[trigger] questions[k]).0 by {
            assert(codes[j].id != codes[k].id);
        }
    }
    assert(!has_gap(codes[i]));
    assert(questions[i] == (codes[i].id, code_question(codes[i])->Ok_0));
    lemma_pair_is_kept(questions, i);
}

// ---------------------------------------------------------------------------
// Suggestions
// ---------------------------------------------------------------------------

/// The confidence that the answers give a code: 0 where it was not answered.
pub open spec fn confidence_of(result: SystemOneResult, id: Seq<char>) -> Double {
    match result.noul_value(id) {
        Some(confidence) => confidence,
        None => Double { bits: 0 },
    }
}

/// A code with the confidence that the answers give it, selected from the
/// threshold on.
pub open spec fn match_of(result: SystemOneResult, code: DefectCodeView) -> MatchView {
    MatchView {
        code,
        selected: confidence_of(result, code.id).at_least(threshold()),
        confidence: confidence_of(result, code.id),
    }
}

/// Each code with its confidence, in the order of the catalog.
pub open spec fn matches_of(result: SystemOneResult, codes: Seq<DefectCodeView>) -> Seq<MatchView> {
    Seq::new(codes.len(), |i: int| match_of(result, codes[i]))
}

/// What suggestions say.
pub open spec fn match_views(suggestions: Seq<DefectCodeSuggestion>) -> Seq<MatchView> {
    Seq::new(suggestions.len(), |i: int| suggestions[i]@)
}

/// The matches with a confidence of this rank, in order.
pub open spec fn of_rank(matches: Seq<MatchView>, rank: int) -> Seq<MatchView>
    decreases matches.len(),
{
    if matches.len() == 0 {
        Seq::empty()
    } else if matches.last().confidence.rank() == rank {
        of_rank(matches.drop_last(), rank).push(matches.last())
    } else {
        of_rank(matches.drop_last(), rank)
    }
}

/// Whether the confidence never rises.
pub open spec fn falls(matches: Seq<MatchView>) -> bool {
    forall|i: int, j: int|
        0 <= i < j < matches.len() ==> (#[trigger] matches[i]).confidence.rank() >= (
        #[trigger] matches[j]).confidence.rank()
}

/// Whether `sorted` holds the matches of `given`, most probable first, those
/// of equal confidence in the order they had.
pub open spec fn ranked(given: Seq<MatchView>, sorted: Seq<MatchView>) -> bool {
    &&& sorted.len() == given.len()
    &&& falls(sorted)
    &&& forall|rank: int| #[trigger] of_rank(sorted, rank) == of_rank(given, rank)
}

proof fn lemma_of_rank_concat(a: Seq<MatchView>, b: Seq<MatchView>, rank: int)
    ensures
        of_rank(a + b, rank) == of_rank(a, rank) + of_rank(b, rank),
    decreases b.len(),
{
    if b.len() == 0 {
        assert(a + b =~= a);
    } else {
        assert((a + b).drop_last() =~= a + b.drop_last());
        lemma_of_rank_concat(a, b.drop_last(), rank);
        assert(of_rank(a + b, rank) =~= of_rank(a, rank) + of_rank(b, rank));
    }
}

proof fn lemma_of_rank_none(matches: Seq<MatchView>, rank: int)
    requires
        forall|i: int| 0 <= i < matches.len() ==> (#[trigger] matches[i]).confidence.rank() != rank,
    ensures
        of_rank(matches, rank) == Seq::<MatchView>::empty(),
    decreases matches.len(),
{
    if matches.len() > 0 {
        assert forall|i: int| 0 <= i < matches.len() - 1 implies (
        #[trigger] matches.drop_last()[i]).confidence.rank() != rank by {
            assert(matches[i].confidence.rank() != rank);
        }
        lemma_of_rank_none(matches.drop_last(), rank);
        assert(matches[matches.len() - 1].confidence.rank() != rank);
    }
}

/// Putting a match behind all that are as probable keeps the list ranked.
proof fn lemma_put_in_place(
    given: Seq<MatchView>,
    sorted: Seq<MatchView>,
    place: int,
    next: MatchView,
)
    requires
        ranked(given, sorted),
        0 <= place <= sorted.len(),
        forall|i: int|
            0 <= i < place ==> (#[trigger] sorted[i]).confidence.rank() >= next.confidence.rank(),
        place < sorted.len() ==> sorted[place].confidence.rank() < next.confidence.rank(),
    ensures
        ranked(given.push(next), sorted.insert(place, next)),
{
    let out = sorted.insert(place, next);
    let (head, tail) = (sorted.take(place), sorted.skip(place));
    assert(out =~= head + seq![next] + tail);
    assert(sorted =~= head + tail);
    assert forall|i: int, j: int| 0 <= i < j < out.len() implies (#[trigger] out[i]).confidence.rank()
        >= (#[trigger] out[j]).confidence.rank() by {
        if i < place && j < place {
            assert(sorted[i].confidence.rank() >= sorted[j].confidence.rank());
        } else if i < place && j > place {
            assert(sorted[i].confidence.rank() >= sorted[j - 1].confidence.rank());
        } else if i < place {
            assert(out[i] == sorted[i]);
        } else if i == place {
            assert(out[j] == sorted[j - 1]);
            if j - 1 > place {
                assert(sorted[place].confidence.rank() >= sorted[j - 1].confidence.rank());
            }
        } else {
            assert(sorted[i - 1].confidence.rank() >= sorted[j - 1].confidence.rank());
        }
    }
    assert forall|rank: int| #[trigger] of_rank(out, rank) == of_rank(given.push(next), rank) by {
        assert(given.push(next).drop_last() =~= given);
        lemma_of_rank_concat(head + seq![next], tail, rank);
        lemma_of_rank_concat(head, seq![next], rank);
        lemma_of_rank_concat(head, tail, rank);
        let single = seq![next];
        assert(single.drop_last() =~= Seq::empty());
        assert(of_rank(single.drop_last(), rank) =~= Seq::empty());
        assert(of_rank(sorted, rank) == of_rank(given, rank));
        if next.confidence.rank() == rank {
            assert forall|i: int| 0 <= i < tail.len() implies (#[trigger] tail[i]).confidence.rank()
                != rank by {
                assert(tail[i] == sorted[place + i]);
                if i > 0 {
                    assert(sorted[place].confidence.rank() >= sorted[place + i].confidence.rank());
                }
            }
            lemma_of_rank_none(tail, rank);
            assert(of_rank(single, rank) =~= single);
            assert(of_rank(out, rank) =~= of_rank(given, rank).push(next));
        } else {
            assert(of_rank(single, rank) =~= Seq::empty());
            assert(of_rank(out, rank) =~= of_rank(given, rank));
        }
    }
}

/// Turn a System One response into a ranked [`Suggestion`]: one entry per
/// defect code, sorted most probable first.
///
/// Codes the model did not answer (which should not happen) count as
/// confidence zero, and codes with equal confidence keep their catalog
/// order.
pub fn parse_result(result: &SystemOneResult, codes: &Vec<DefectCode>) -> (r: Suggestion)
    ensures
        ranked(matches_of(*result, views(codes@)), match_views(r.defect_codes@)),
        r.defect_codes@.len() == codes@.len(),
        forall|j: int|
            0 <= j < r.defect_codes@.len() ==> {
                let item = #[trigger] r.defect_codes@[j];
                let id = item.defect_code.id@;
                &&& result.answers@.contains_key(id) && result.answers@[id] is Noul
                    ==> item.confidence == result.answers@[id]->Noul_0.noul
                &&& !(result.answers@.contains_key(id) && result.answers@[id] is Noul)
                    ==> item.confidence.bits == 0
                &&& item.selected <==> 0x3FE9_9999_9999_999A <= item.confidence.bits
                    <= 0x7FF0_0000_0000_0000
            },
{
    let ghost given = matches_of(*result, views(codes@));
    let mut sorted: Vec<DefectCodeSuggestion> = Vec::new();
    let mut i: usize = 0;
    assert(given.take(0) =~= Seq::empty());
    assert(match_views(sorted@) =~= Seq::empty());
    while i < codes.len()
        invariant
            i <= codes@.len(),
            given == matches_of(*result, views(codes@)),
            ranked(given.take(i as int), match_views(sorted@)),
        decreases codes@.len() - i,
    {
        let code = &codes[i];
        let confidence = match result.noul(code.id.as_str()) {
            Some(confidence) => confidence,
            None => Double { bits: 0 },
        };
        let next = DefectCodeSuggestion {
            defect_code: code.clone(),
            selected: confidence.ge(&Double { bits: AUTO_SELECT_THRESHOLD }),
            confidence,
        };
        assert(next@ == given[i as int]);
        let ghost before = match_views(sorted@);
        let mut place: usize = 0;
        while place < sorted.len() && !sorted[place].confidence.before(&next.confidence)
            invariant
                place <= sorted@.len(),
                before == match_views(sorted@),
                forall|k: int|
                    0 <= k < place ==> (#[trigger] before[k]).confidence.rank()
                        >= next.confidence.rank(),
            decreases sorted@.len() - place,
        {
            assert(before[place as int].confidence == sorted@[place as int].confidence);
            place = place + 1;
        }
        proof {
            if place < sorted@.len() {
                assert(before[place as int].confidence == sorted@[place as int].confidence);
            }
            lemma_put_in_place(given.take(i as int), before, place as int, next@);
            assert(given.take(i + 1) =~= given.take(i as int).push(next@));
        }
        sorted.insert(place, next);
        assert(match_views(sorted@) =~= before.insert(place as int, next@));
        i = i + 1;
    }
    assert(given.take(given.len() as int) =~= given);
    proof {
        assert forall|j: int| 0 <= j < sorted@.len() implies {
            let item = #[trigger] sorted@[j];
            let id = item.defect_code.id@;
            &&& result.answers@.contains_key(id) && result.answers@[id] is Noul ==> item.confidence
                == result.answers@[id]->Noul_0.noul
            &&& !(result.answers@.contains_key(id) && result.answers@[id] is Noul)
                ==> item.confidence.bits == 0
            &&& item.selected <==> 0x3FE9_9999_9999_999A <= item.confidence.bits
                <= 0x7FF0_0000_0000_0000
        } by {
            law_answers_become_confidences(*result, views(codes@), match_views(sorted@), j);
            assert(match_views(sorted@)[j] == sorted@[j]@);
        }
    }
    Suggestion { defect_codes: sorted }
}

/// Only one list ranks given matches.
pub proof fn law_ranking_is_unique(given: Seq<MatchView>, a: Seq<MatchView>, b: Seq<MatchView>)
    requires
        ranked(given, a),
        ranked(given, b),
    ensures
        a == b,
    decreases given.len(),
{
    assert forall|rank: int| #[trigger] of_rank(a, rank) == of_rank(b, rank) by {
        assert(of_rank(a, rank) == of_rank(given, rank));
        assert(of_rank(b, rank) == of_rank(given, rank));
    }
    lemma_same_ranking(a, b);
}

proof fn lemma_same_ranking(a: Seq<MatchView>, b: Seq<MatchView>)
    requires
        a.len() == b.len(),
        falls(a),
        falls(b),
        forall|rank: int| #[trigger] of_rank(a, rank) == of_rank(b, rank),
    ensures
        a == b,
    decreases a.len(),
{
    if a.len() > 0 {
        let last = a.len() - 1;
        let (ra, rb) = (a.last().confidence.rank(), b.last().confidence.rank());
        // The rank of the last match is the least that occurs.
        if ra < rb {
            assert forall|i: int| 0 <= i < b.len() implies (#[trigger] b[i]).confidence.rank() != ra by {
                if i < last {
                    assert(b[i].confidence.rank() >= b[last].confidence.rank());
                }
            }
            lemma_of_rank_none(b, ra);
            assert(of_rank(a, ra).len() > 0);
            assert(of_rank(a, ra) == of_rank(b, ra));
        }
        if rb < ra {
            assert forall|i: int| 0 <= i < a.len() implies (#[trigger] a[i]).confidence.rank() != rb by {
                if i < last {
                    assert(a[i].confidence.rank() >= a[last].confidence.rank());
                }
            }
            lemma_of_rank_none(a, rb);
            assert(of_rank(b, rb).len() > 0);
            assert(of_rank(a, rb) == of_rank(b, rb));
        }
        assert(of_rank(a, ra) == of_rank(b, ra));
        assert(of_rank(a, ra).last() == a.last());
        assert(of_rank(b, ra).last() == b.last());
        let (x, y) = (a.drop_last(), b.drop_last());
        assert forall|rank: int| #[trigger] of_rank(x, rank) == of_rank(y, rank) by {
            assert(of_rank(a, rank) == of_rank(b, rank));
            if rank == ra {
                assert(of_rank(a, rank).drop_last() =~= of_rank(x, rank));
                assert(of_rank(b, rank).drop_last() =~= of_rank(y, rank));
            }
        }
        assert(falls(x)) by {
            assert forall|i: int, j: int| 0 <= i < j < x.len() implies (
            #[trigger] x[i]).confidence.rank() >= (#[trigger] x[j]).confidence.rank() by {
                assert(a[i].confidence.rank() >= a[j].confidence.rank());
            }
        }
        assert(falls(y)) by {
            assert forall|i: int, j: int| 0 <= i < j < y.len() implies (
            #[trigger] y[i]).confidence.rank() >= (#[trigger] y[j]).confidence.rank() by {
                assert(b[i].confidence.rank() >= b[j].confidence.rank());
            }
        }
        lemma_same_ranking(x, y);
        assert(a =~= x.push(a.last()));
        assert(b =~= y.push(b.last()));
    } else {
        assert(a =~= b);
    }
}

/// Codes of equal confidence keep the order of the catalog: those of one rank
/// are the same list before and after ranking, and two confidences have one
/// rank exactly when they are the same number.
pub proof fn law_equal_confidences_keep_order(
    given: Seq<MatchView>,
    sorted: Seq<MatchView>,
    one: MatchView,
    other: MatchView,
)
    requires
        ranked(given, sorted),
    ensures
        of_rank(sorted, one.confidence.rank()) == of_rank(given, one.confidence.rank()),
        one.confidence.number() == other.confidence.number() <==> one.confidence.rank()
            == other.confidence.rank(),
{
    lemma_rank_orders_numbers(one.confidence, other.confidence);
    lemma_rank_orders_numbers(other.confidence, one.confidence);
}

/// Most probable first: as long as the confidences are numbers, none is below
/// one that comes after it.
pub proof fn law_most_probable_first(given: Seq<MatchView>, sorted: Seq<MatchView>, i: int, j: int)
    requires
        ranked(given, sorted),
        0 <= i < j < sorted.len(),
        !sorted[i].confidence.is_nan(),
        !sorted[j].confidence.is_nan(),
    ensures
        sorted[i].confidence.at_least(sorted[j].confidence),
{
    lemma_rank_orders_numbers(sorted[j].confidence, sorted[i].confidence);
}

/// Selected codes come before those that are not, as long as the confidences
/// are numbers.
pub proof fn law_selected_first(
    result: SystemOneResult,
    codes: Seq<DefectCodeView>,
    sorted: Seq<MatchView>,
    i: int,
    j: int,
)
    requires
        ranked(matches_of(result, codes), sorted),
        0 <= i < j < sorted.len(),
        !sorted[i].confidence.is_nan(),
        sorted[j].selected,
    ensures
        sorted[i].selected,
{
    let given = matches_of(result, codes);
    lemma_is_given(given, sorted, i);
    lemma_is_given(given, sorted, j);
    assert(sorted[j].confidence.at_least(threshold()));
    law_most_probable_first(given, sorted, i, j);
}

/// Every ranked match is one of those that were given.
pub proof fn lemma_is_given(given: Seq<MatchView>, sorted: Seq<MatchView>, i: int)
    requires
        ranked(given, sorted),
        0 <= i < sorted.len(),
    ensures
        exists|k: int| 0 <= k < given.len() && #[trigger] given[k] == sorted[i],
{
    let rank = sorted[i].confidence.rank();
    lemma_of_rank_holds(sorted, i);
    assert(of_rank(sorted, rank) == of_rank(given, rank));
    let n = choose|n: int|
        0 <= n < of_rank(sorted, rank).len() && #[trigger] of_rank(sorted, rank)[n] == sorted[i];
    lemma_of_rank_given(given, rank, n);
}

/// Every match that was given is ranked.
pub proof fn law_every_code_is_ranked(given: Seq<MatchView>, sorted: Seq<MatchView>, k: int)
    requires
        ranked(given, sorted),
        0 <= k < given.len(),
    ensures
        exists|i: int| 0 <= i < sorted.len() && #[trigger] sorted[i] == given[k],
{
    let rank = given[k].confidence.rank();
    lemma_of_rank_holds(given, k);
    assert(of_rank(sorted, rank) == of_rank(given, rank));
    let n = choose|n: int|
        0 <= n < of_rank(given, rank).len() && #[trigger] of_rank(given, rank)[n] == given[k];
    lemma_of_rank_given(sorted, rank, n);
}

proof fn lemma_of_rank_holds(matches: Seq<MatchView>, i: int)
    requires
        0 <= i < matches.len(),
    ensures
        exists|n: int|
            0 <= n < of_rank(matches, matches[i].confidence.rank()).len() && #[trigger] of_rank(
                matches,
                matches[i].confidence.rank(),
            )[n] == matches[i],
    decreases matches.len(),
{
    let rank = matches[i].confidence.rank();
    let init = matches.drop_last();
    if i == matches.len() - 1 {
        assert(of_rank(matches, rank)[of_rank(init, rank).len() as int] == matches[i]);
    } else {
        lemma_of_rank_holds(init, i);
        let n = choose|n: int|
            0 <= n < of_rank(init, rank).len() && #[trigger] of_rank(init, rank)[n] == matches[i];
        assert(of_rank(matches, rank)[n] == matches[i]);
    }
}

proof fn lemma_of_rank_given(matches: Seq<MatchView>, rank: int, n: int)
    requires
        0 <= n < of_rank(matches, rank).len(),
    ensures
        exists|k: int|
            0 <= k < matches.len() && #[trigger] matches[k] == of_rank(matches, rank)[n],
    decreases matches.len(),
{
    let init = matches.drop_last();
    if n < of_rank(init, rank).len() {
        lemma_of_rank_given(init, rank, n);
        let k = choose|k: int|
            0 <= k < init.len() && #[trigger] init[k] == of_rank(init, rank)[n];
        assert(matches[k] == of_rank(matches, rank)[n]);
    } else {
        assert(matches[matches.len() - 1] == of_rank(matches, rank)[n]);
    }
}

// ---------------------------------------------------------------------------
// Suggesting
// ---------------------------------------------------------------------------

/// What it takes to suggest defect codes for a description.
#[derive(Debug)]
pub enum Plan {
    /// Nothing: this is the suggestion.
    Done(Suggestion),
    /// This request. Its result goes to [`parse_result`] with the catalog.
    Ask(Call),
    /// A request that the client has too many additional headers for.
    TooManyHeaders,
}

/// Whether `plan` is what a client does about a description: a blank one gets
/// an empty suggestion, any other is asked about in one request.
/// `codes` are the codes that it is matched against.
pub open spec fn is_plan(
    plan: Plan,
    client: ClientView,
    description: Seq<char>,
    codes: Seq<DefectCodeView>,
) -> bool {
    match plan {
        Plan::Done(suggestion) => is_blank(description) && suggestion.defect_codes@.len() == 0,
        Plan::Ask(call) => !is_blank(description) && exists|request: SystemOneRequest|
            {
                &&& suggestion_request_of(description, codes) == Ok::<
                    Option<RequestView>,
                    Seq<char>,
                >(Some(request@))
                &&& request.well_formed()
                &&& call@ == client.call(
                    Method::Post,
                    SYSTEMONE_PATH@,
                    Some(#[trigger] request.wire(client.default_model)),
                )
            },
        Plan::TooManyHeaders => !is_blank(description) && client.crowded(true),
    }
}

/// Suggest codes of a catalog for an NCR description, against an explicit
/// client.
///
/// A blank description yields an empty suggestion without an API call.
///
/// # Errors
///
/// Returns [`Error::InvalidRequest`] when the codes are no catalog, so that
/// they cannot be asked about.
pub fn suggest_with_codes(
    client: &TypeSafeClient,
    ncr_description: &str,
    codes: &Vec<DefectCode>,
) -> (r: Result<Plan, Error>)
    ensures
        match (r, suggestion_request_of(ncr_description@, views(codes@))) {
            (Ok(plan), Ok(_)) => is_plan(plan, client@, ncr_description@, views(codes@)),
            (Err(error), Err(message)) => error@ == ErrorView::InvalidRequest(message),
            _ => false,
        },
{
    let request = match suggestion_request(ncr_description, codes) {
        Ok(Some(request)) => request,
        Ok(None) => return Ok(Plan::Done(Suggestion { defect_codes: Vec::new() })),
        Err(error) => return Err(error),
    };
    let ghost asked = request;
    proof {
        let questions = code_questions(views(codes@))->Ok_0;
        assert(asked@.questions == pairs_map(questions));
        assert(asked@.questions.contains_key(questions.last().0));
        assert(asked.questions@.contains_key(questions.last().0));
    }
    match client.system_one(request) {
        Ok(Some(call)) => {
            assert(call@ == client@.call(
                Method::Post,
                SYSTEMONE_PATH@,
                Some(asked.wire(client@.default_model)),
            ));
            Ok(Plan::Ask(call))
        },
        Ok(None) => Ok(Plan::TooManyHeaders),
        Err(error) => Err(error),
    }
}

/// Suggest codes of the sample catalog for an NCR description, against an
/// explicit client.
///
/// A blank description yields an empty suggestion without an API call.
pub fn suggest_with(client: &TypeSafeClient, ncr_description: &str) -> (r: Result<Plan, Error>)
    ensures
        r is Ok,
        is_plan(r->Ok_0, client@, ncr_description@, catalog()),
{
    proof {
        law_own_catalog_is_accepted();
        if !is_blank(ncr_description@) {
            law_every_code_is_asked_about(ncr_description@, catalog(), 0);
        }
    }
    suggest_with_codes(client, ncr_description, &defect_codes())
}

/// Suggest defect codes for an NCR description using the TypeSafe API.
///
/// Every code of the sample catalog is matched against the description in a
/// single System One request — one noul question per code — and ranked by the
/// returned confidence. The client is configured from the environment
/// (`TYPESAFE_API_KEY`, `TYPESAFE_BASE_URL`, `TYPESAFE_DEFAULT_MODEL`), so
/// this must run on the server.
///
/// A blank description yields an empty suggestion without an API call.
///
/// # Errors
///
/// Returns [`Error::Config`] when the client is misconfigured (for example a
/// missing API key).
pub fn suggest_defect_codes(env: Environment, ncr_description: &str) -> (r: Result<
    (TypeSafeClient, Plan),
    Error,
>)
    ensures
        match (r, configuration(no_options(), env@)) {
            (Err(error), Err(message)) => error@ == ErrorView::Config(message),
            (Ok((client, plan)), Ok(view)) => client@ == view && !(plan is TooManyHeaders)
                && is_plan(plan, view, ncr_description@, catalog()),
            (Err(error), Ok(_)) => is_http_failure(error@),
            (Ok(_), Err(_)) => false,
        },
{
    let client = match TypeSafeClient::from_env(env) {
        Ok(client) => client,
        Err(error) => return Err(error),
    };
    proof {
        law_room_for_the_built_in_headers(client@, true);
    }
    match suggest_with(&client, ncr_description) {
        Ok(plan) => Ok((client, plan)),
        Err(error) => Err(error),
    }
}

// ---------------------------------------------------------------------------
// More laws
// ---------------------------------------------------------------------------

/// A suggestion carries the probability that the model answered for its code,
/// bit for bit, or zero where it did not answer with one, and is selected
/// exactly when that is a number from 0.8 up.
pub proof fn law_answers_become_confidences(
    result: SystemOneResult,
    codes: Seq<DefectCodeView>,
    sorted: Seq<MatchView>,
    j: int,
)
    requires
        ranked(matches_of(result, codes), sorted),
        0 <= j < sorted.len(),
    ensures
        ({
            let id = sorted[j].code.id;
            &&& result.answers@.contains_key(id) && result.answers@[id] is Noul
                ==> sorted[j].confidence == result.answers@[id]->Noul_0.noul
            &&& !(result.answers@.contains_key(id) && result.answers@[id] is Noul)
                ==> sorted[j].confidence.bits == 0
        }),
        sorted[j].selected <==> 0x3FE9_9999_9999_999A <= sorted[j].confidence.bits
            <= 0x7FF0_0000_0000_0000,
        exists|i: int| 0 <= i < codes.len() && #[trigger] codes[i] == sorted[j].code,
{
    let given = matches_of(result, codes);
    lemma_is_given(given, sorted, j);
    let k = choose|k: int| 0 <= k < given.len() && #[trigger] given[k] == sorted[j];
    assert(codes[k] == sorted[j].code);
    law_bits_decide(sorted[j].confidence, threshold());
    if sorted[j].confidence.bits == 0x8000_0000_0000_0000 {
        let zero = Double { bits: 0 };
        law_bits_decide(zero, sorted[j].confidence);
        law_bits_decide(zero, threshold());
        assert(sorted[j].confidence.number() == zero.number());
    }
}

/// Every code of the catalog is suggested, with the probability that the model
/// answered for it.
pub proof fn law_every_code_is_suggested(
    result: SystemOneResult,
    codes: Seq<DefectCodeView>,
    sorted: Seq<MatchView>,
    i: int,
    probability: Double,
)
    requires
        ranked(matches_of(result, codes), sorted),
        0 <= i < codes.len(),
        result.answers@.contains_key(codes[i].id),
        result.answers@[codes[i].id] matches Answer::Noul(answer) && answer.noul == probability,
    ensures
        sorted.len() == codes.len(),
        exists|j: int|
            {
                &&& 0 <= j < sorted.len()
                &&& (#[trigger] sorted[j]).code == codes[i]
                &&& sorted[j].confidence == probability
            },
{
    let given = matches_of(result, codes);
    law_every_code_is_ranked(given, sorted, i);
    let j = choose|j: int| 0 <= j < sorted.len() && #[trigger] sorted[j] == given[i];
    assert(sorted[j].code == codes[i]);
}

/// A code that the model did not answer is suggested with zero, and is not
/// selected.
pub proof fn law_unanswered_codes_are_zero(
    result: SystemOneResult,
    codes: Seq<DefectCodeView>,
    sorted: Seq<MatchView>,
    i: int,
)
    requires
        ranked(matches_of(result, codes), sorted),
        0 <= i < codes.len(),
        !(result.answers@.contains_key(codes[i].id) && result.answers@[codes[i].id] is Noul),
    ensures
        exists|j: int|
            {
                &&& 0 <= j < sorted.len()
                &&& (#[trigger] sorted[j]).code == codes[i]
                &&& sorted[j].confidence.bits == 0
                &&& !sorted[j].selected
            },
{
    let given = matches_of(result, codes);
    law_every_code_is_ranked(given, sorted, i);
    let j = choose|j: int| 0 <= j < sorted.len() && #[trigger] sorted[j] == given[i];
    law_answers_become_confidences(result, codes, sorted, j);
    assert(sorted[j].code == codes[i]);
}

/// Probabilities, which are numbers from zero up, fall from one suggestion to
/// the next.
pub proof fn law_probabilities_fall(given: Seq<MatchView>, sorted: Seq<MatchView>, i: int, j: int)
    requires
        ranked(given, sorted),
        0 <= i < j < sorted.len(),
        sorted[i].confidence.bits <= 0x7FF0_0000_0000_0000,
        sorted[j].confidence.bits <= 0x7FF0_0000_0000_0000,
    ensures
        sorted[i].confidence.bits >= sorted[j].confidence.bits,
{
    law_bits_decide(sorted[i].confidence, sorted[j].confidence);
}

/// Of two codes with the same probability, the one that comes first in the
/// catalog is suggested first.
pub proof fn law_ties_keep_catalog_order(
    result: SystemOneResult,
    codes: Seq<DefectCodeView>,
    sorted: Seq<MatchView>,
    p: int,
    q: int,
    a: int,
    b: int,
)
    requires
        is_catalog(codes),
        ranked(matches_of(result, codes), sorted),
        0 <= p < q < codes.len(),
        0 <= a < sorted.len(),
        0 <= b < sorted.len(),
        sorted[a].code == codes[p],
        sorted[b].code == codes[q],
        sorted[a].confidence.bits == sorted[b].confidence.bits,
    ensures
        a < b,
{
    let given = matches_of(result, codes);
    let rank = sorted[a].confidence.rank();
    let list = of_rank(given, rank);
    assert(given.no_duplicates()) by {
        assert forall|i: int, j: int| 0 <= i < given.len() && 0 <= j < given.len() && i != j implies
            given[i] != given[j] by {
            if i < j {
                assert(codes[i].id != codes[j].id);
            } else {
                assert(codes[j].id != codes[i].id);
            }
            assert(given[i].code == codes[i] && given[j].code == codes[j]);
        }
    }
    lemma_of_rank_distinct(given, rank);
    assert(of_rank(sorted, rank) == list);
    lemma_match_of_a_code(result, codes, sorted, a, p);
    lemma_match_of_a_code(result, codes, sorted, b, q);
    lemma_of_rank_place(given, rank, p);
    lemma_of_rank_place(given, rank, q);
    lemma_of_rank_place(sorted, rank, a);
    lemma_of_rank_place(sorted, rank, b);
    lemma_of_rank_grows(given, rank, p, q);
    if b <= a {
        if b < a {
            lemma_of_rank_grows(sorted, rank, b, a);
        }
        let m = of_rank(given.take(p), rank).len() as int;
        let n = of_rank(given.take(q), rank).len() as int;
        let x = of_rank(sorted.take(a), rank).len() as int;
        let y = of_rank(sorted.take(b), rank).len() as int;
        assert(list[m] == list[x]);
        assert(list[n] == list[y]);
        assert(m == x && n == y);
    }
}

/// The entry of a code among the suggestions is the one that the answers give
/// it.
proof fn lemma_match_of_a_code(
    result: SystemOneResult,
    codes: Seq<DefectCodeView>,
    sorted: Seq<MatchView>,
    a: int,
    p: int,
)
    requires
        is_catalog(codes),
        ranked(matches_of(result, codes), sorted),
        0 <= a < sorted.len(),
        0 <= p < codes.len(),
        sorted[a].code == codes[p],
    ensures
        sorted[a] == matches_of(result, codes)[p],
{
    let given = matches_of(result, codes);
    lemma_is_given(given, sorted, a);
    let k = choose|k: int| 0 <= k < given.len() && #[trigger] given[k] == sorted[a];
    assert(given[k].code == codes[k]);
    if k < p {
        assert(codes[k].id != codes[p].id);
    }
    if p < k {
        assert(codes[p].id != codes[k].id);
    }
}

/// A match stands among those of its rank behind those before it.
proof fn lemma_of_rank_place(matches: Seq<MatchView>, rank: int, i: int)
    requires
        0 <= i < matches.len(),
        matches[i].confidence.rank() == rank,
    ensures
        of_rank(matches.take(i), rank).len() < of_rank(matches, rank).len(),
        of_rank(matches, rank)[of_rank(matches.take(i), rank).len() as int] == matches[i],
{
    let (head, tail) = (matches.take(i + 1), matches.skip(i + 1));
    assert(matches =~= head + tail);
    lemma_of_rank_concat(head, tail, rank);
    assert(head.drop_last() =~= matches.take(i));
    assert(head.last() == matches[i]);
}

/// The later of two matches of a rank has more of that rank before it.
proof fn lemma_of_rank_grows(matches: Seq<MatchView>, rank: int, i: int, j: int)
    requires
        0 <= i < j < matches.len(),
        matches[i].confidence.rank() == rank,
    ensures
        of_rank(matches.take(i), rank).len() < of_rank(matches.take(j), rank).len(),
{
    let part = matches.take(j);
    lemma_of_rank_place(part, rank, i);
    assert(part.take(i) =~= matches.take(i));
}

proof fn lemma_of_rank_distinct(matches: Seq<MatchView>, rank: int)
    requires
        matches.no_duplicates(),
    ensures
        of_rank(matches, rank).no_duplicates(),
    decreases matches.len(),
{
    if matches.len() > 0 {
        let init = matches.drop_last();
        assert(init.no_duplicates()) by {
            assert forall|i: int, j: int| 0 <= i < init.len() && 0 <= j < init.len() && i != j implies
                init[i] != init[j] by {
                assert(matches[i] != matches[j]);
            }
        }
        lemma_of_rank_distinct(init, rank);
        let rest = of_rank(init, rank);
        assert forall|n: int| 0 <= n < rest.len() implies #[trigger] rest[n] != matches.last() by {
            lemma_of_rank_given(init, rank, n);
            let k = choose|k: int| 0 <= k < init.len() && #[trigger] init[k] == rest[n];
            assert(matches[k] != matches[matches.len() - 1]);
        }
    }
}

/// A catalog is accepted exactly when it has a code, no code has a blank id,
/// title or description, and no id comes twice.
pub proof fn law_catalogs(codes: Seq<DefectCodeView>)
    ensures
        catalog_fault(codes) is None <==> {
            &&& codes.len() > 0
            &&& forall|i: int|
                0 <= i < codes.len() ==> !is_blank((#[trigger] codes[i]).id) && !is_blank(
                    codes[i].title,
                ) && !is_blank(codes[i].description)
            &&& forall|i: int, j: int|
                0 <= i < j < codes.len() ==> (#[trigger] codes[i]).id != (#[trigger] codes[j]).id
        },
        codes.len() == 0 ==> catalog_fault(codes) == Some(
            "the catalog needs at least one defect code"@,
        ),
{
    lemma_no_code_fault(codes);
    if forall|i: int|
        0 <= i < codes.len() ==> !is_blank((#[trigger] codes[i]).id) && !is_blank(codes[i].title)
            && !is_blank(codes[i].description) {
        assert forall|i: int| 0 <= i < codes.len() implies !has_gap(#[trigger] codes[i]) by {}
    }
}

/// A refused catalog is refused for its first code with a blank text, or with
/// the id of a code before it, which is named.
pub proof fn law_first_code_fault(codes: Seq<DefectCodeView>)
    ensures
        first_code_fault(codes) matches Some(fault) ==> exists|i: int|
            {
                &&& 0 <= i < codes.len()
                &&& first_code_fault(codes.take(i)) is None
                &&& if is_blank((#[trigger] codes[i]).id) || is_blank(codes[i].title) || is_blank(
                    codes[i].description,
                ) {
                    fault == "defect code "@ + quoted_text(codes[i].id)
                        + " has an empty id, title, or description"@
                } else {
                    &&& fault == "duplicate defect code id "@ + quoted_text(codes[i].id)
                    &&& exists|j: int| 0 <= j < i && (#[trigger] codes[j]).id == codes[i].id
                }
            },
    decreases codes.len(),
{
    if codes.len() > 0 {
        let init = codes.drop_last();
        let last = codes.len() - 1;
        law_first_code_fault(init);
        assert(codes.take(last) =~= init);
        if let Some(fault) = first_code_fault(init) {
            let i = choose|i: int|
                {
                    &&& 0 <= i < init.len()
                    &&& first_code_fault(init.take(i)) is None
                    &&& if is_blank((#[trigger] init[i]).id) || is_blank(init[i].title) || is_blank(
                        init[i].description,
                    ) {
                        fault == "defect code "@ + quoted_text(init[i].id)
                            + " has an empty id, title, or description"@
                    } else {
                        &&& fault == "duplicate defect code id "@ + quoted_text(init[i].id)
                        &&& exists|j: int| 0 <= j < i && (#[trigger] init[j]).id == init[i].id
                    }
                };
            assert(init.take(i) =~= codes.take(i));
            assert(codes[i] == init[i]);
            if exists|j: int| 0 <= j < i && (#[trigger] init[j]).id == init[i].id {
                let j = choose|j: int| 0 <= j < i && (#[trigger] init[j]).id == init[i].id;
                assert(codes[j].id == codes[i].id);
            }
        } else if first_code_fault(codes) is Some {
            assert(codes[last] == codes.last());
            if has_id(init, codes.last().id) {
                let j = choose|j: int| 0 <= j < init.len() && (#[trigger] init[j]).id
                    == codes.last().id;
                assert(codes[j].id == codes[last].id);
            }
        }
    }
}

/// The question about a code is a yes/no question that names its id and its
/// title, says its description for yes, and says for no what is said of every
/// code.
pub proof fn law_code_question(code: DefectCodeView)
    ensures
        is_blank(code.description) ==> code_question(code) == Err::<QuestionView, Seq<char>>(
            "criteria description must not be empty"@,
        ),
        !is_blank(code.description) ==> {
            &&& code_question(code) matches Ok(QuestionView::Noul {
                instructions,
                criteria: Some(criteria),
            })
            &&& instructions == Tree::Text(
                "Is the described non-conformance an instance of defect code "@ + code.id + " — "@
                    + code.title + "?"@,
            )
            &&& criteria.true_description == Some(Tree::Text(code.description))
            &&& criteria.false_description == Some(
                Tree::Text(
                    "Description points to another defect code, is too vague or unclear to assign this defect code."@,
                ),
            )
        },
{
}

/// The questions stand in the order of the codes, each under the id of its
/// code, and there are any exactly when no code has a blank description.
proof fn lemma_questions_about(codes: Seq<DefectCodeView>)
    ensures
        code_questions(codes) is Ok <==> forall|i: int|
            0 <= i < codes.len() ==> !is_blank((#[trigger] codes[i]).description),
        code_questions(codes) matches Ok(questions) ==> questions.len() == codes.len() && forall|
            i: int,
        |
            0 <= i < codes.len() ==> (#[trigger] questions[i]) == (
                codes[i].id,
                code_question(codes[i])->Ok_0,
            ),
        code_questions(codes) matches Err(fault) ==> fault
            == "criteria description must not be empty"@,
    decreases codes.len(),
{
    if codes.len() > 0 {
        let init = codes.drop_last();
        let last = codes.len() - 1;
        lemma_questions_about(init);
        assert(codes[last] == codes.last());
        if code_questions(codes) is Ok {
            assert forall|i: int| 0 <= i < codes.len() implies !is_blank(
                (#[trigger] codes[i]).description,
            ) by {
                if i < last {
                    assert(init[i] == codes[i]);
                }
            }
            let questions = code_questions(codes)->Ok_0;
            assert forall|i: int| 0 <= i < codes.len() implies (#[trigger] questions[i]) == (
                codes[i].id,
                code_question(codes[i])->Ok_0,
            ) by {
                if i < last {
                    assert(code_questions(init)->Ok_0[i] == questions[i]);
                    assert(init[i] == codes[i]);
                }
            }
        } else if code_questions(init) is Err {
            let i = choose|i: int| 0 <= i < init.len() && is_blank((#[trigger] init[i]).description);
            assert(is_blank(codes[i].description));
        }
    }
}

/// A blank description needs no request. Any other can be matched exactly
/// against codes of which there is one, each with a description and an id of
/// its own that are not blank.
pub proof fn law_what_can_be_asked(description: Seq<char>, codes: Seq<DefectCodeView>)
    ensures
        is_blank(description) <==> suggestion_request_of(description, codes) == Ok::<
            Option<RequestView>,
            Seq<char>,
        >(None),
        !is_blank(description) ==> (suggestion_request_of(description, codes) is Ok <==> {
            &&& codes.len() > 0
            &&& forall|i: int|
                0 <= i < codes.len() ==> !is_blank((#[trigger] codes[i]).id) && !is_blank(
                    codes[i].description,
                )
            &&& forall|i: int, j: int|
                0 <= i < j < codes.len() ==> (#[trigger] codes[i]).id != (#[trigger] codes[j]).id
        }),
        suggestion_request_of(description, codes) matches Err(fault) ==> {
            if exists|i: int| 0 <= i < codes.len() && is_blank((#[trigger] codes[i]).description) {
                fault == "criteria description must not be empty"@
            } else if exists|i: int| 0 <= i < codes.len() && is_blank((#[trigger] codes[i]).id) {
                fault == "question ids must not be empty"@
            } else if codes.len() == 0 {
                fault == "a request needs at least one question"@
            } else {
                fault == "duplicate question id"@
            }
        },
{
    lemma_questions_about(codes);
    if code_questions(codes) is Ok {
        let questions = code_questions(codes)->Ok_0;
        law_request_is_accepted(Tree::Text(description), questions);
        assert forall|i: int| 0 <= i < codes.len() implies (#[trigger] codes[i]).id
            == questions[i].0 by {}
        if exists|i: int| 0 <= i < codes.len() && is_blank((#[trigger] codes[i]).id) {
            let i = choose|i: int| 0 <= i < codes.len() && is_blank((#[trigger] codes[i]).id);
            assert(is_blank(questions[i].0));
        }
        if exists|i: int| 0 <= i < questions.len() && is_blank((#[trigger] questions[i]).0) {
            let i = choose|i: int| 0 <= i < questions.len() && is_blank((#[trigger] questions[i]).0);
            assert(is_blank(codes[i].id));
        }
        if suggestion_request_of(description, codes) is Ok && !is_blank(description) {
            assert forall|i: int| 0 <= i < codes.len() implies !is_blank((#[trigger] codes[i]).id) by {
                assert(!is_blank(questions[i].0));
            }
            assert forall|i: int, j: int| 0 <= i < j < codes.len() implies (#[trigger] codes[i]).id
                != (#[trigger] codes[j]).id by {
                assert(questions[i].0 != questions[j].0);
            }
        }
        if forall|i: int, j: int|
            0 <= i < j < codes.len() ==> (#[trigger] codes[i]).id != (#[trigger] codes[j]).id {
            assert forall|i: int, j: int| 0 <= i < j < questions.len() implies (
            #[trigger] questions[i]).0 != (#[trigger] questions[j]).0 by {
                assert(codes[i].id != codes[j].id);
            }
        }
        if forall|i: int|
            0 <= i < codes.len() ==> !is_blank((#[trigger] codes[i]).id) && !is_blank(
                codes[i].description,
            ) {
            assert forall|i: int| 0 <= i < questions.len() implies !is_blank(
                (#[trigger] questions[i]).0,
            ) by {
                assert(!is_blank(codes[i].id));
            }
        }
    } else {
        let i = choose|i: int| 0 <= i < codes.len() && is_blank((#[trigger] codes[i]).description);
        assert(is_blank(codes[i].description));
    }
}

/// The request about a description asks about the codes of the catalog and
/// about nothing else.
pub proof fn law_only_codes_are_asked_about(
    description: Seq<char>,
    codes: Seq<DefectCodeView>,
    id: Seq<char>,
)
    requires
        suggestion_request_of(description, codes) matches Ok(Some(request))
            && request.questions.contains_key(id),
    ensures
        exists|i: int| 0 <= i < codes.len() && (#[trigger] codes[i]).id == id,
{
    lemma_questions_about(codes);
    let questions = code_questions(codes)->Ok_0;
    law_request_is_accepted(Tree::Text(description), questions);
    let i = choose|i: int| 0 <= i < questions.len() && (#[trigger] questions[i]).0 == id;
    assert(codes[i].id == id);
}

/// A blank description is done with an empty suggestion, and only a blank one
/// is; any other is asked about, unless the request is too crowded with
/// headers.
pub proof fn law_blank_descriptions_are_done(
    plan: Plan,
    client: ClientView,
    description: Seq<char>,
    codes: Seq<DefectCodeView>,
)
    requires
        is_plan(plan, client, description, codes),
    ensures
        plan is Done <==> is_blank(description),
        plan matches Plan::Done(suggestion) ==> suggestion.defect_codes@.len() == 0,
        plan is TooManyHeaders ==> client.crowded(true),
{
}

/// What is sent to match a description against a catalog: one `POST` to the
/// System One path of the API root, with the description as the state, the
/// default model, and about each code a yes/no question under its id, which
/// says its description for yes.
pub proof fn law_request_about_a_description(
    plan: Plan,
    client: ClientView,
    description: Seq<char>,
    codes: Seq<DefectCodeView>,
    i: int,
)
    requires
        is_plan(plan, client, description, codes),
        plan is Ask,
        is_catalog(codes),
        0 <= i < codes.len(),
    ensures
        ({
            let call = plan->Ask_0@;
            let body = call.payload->0;
            let question = body.field("questions"@)->0.field(codes[i].id)->0;
            let criteria = question.field("criteria"@)->0;
            &&& call.method == Method::Post
            &&& call.url == client.base_url + "/v1/systemone"@
            &&& call.payload is Some
            &&& body.field("state"@) == Some(Tree::Text(description))
            &&& body.field("model"@) == Some(Tree::Text(client.default_model))
            &&& body.field("questions"@) is Some
            &&& body.field("questions"@)->0.field(codes[i].id) is Some
            &&& question.field("type"@) == Some(Tree::Text("noul"@))
            &&& question.field("instructions"@) == Some(
                Tree::Text(
                    "Is the described non-conformance an instance of defect code "@ + codes[i].id
                        + " — "@ + codes[i].title + "?"@,
                ),
            )
            &&& question.field("criteria"@) is Some
            &&& criteria.field("true"@) == Some(Tree::Text(codes[i].description))
            &&& criteria.field("false"@) == Some(
                Tree::Text(
                    "Description points to another defect code, is too vague or unclear to assign this defect code."@,
                ),
            )
        }),
{
    let call = plan->Ask_0@;
    let request = choose|request: SystemOneRequest|
        {
            &&& suggestion_request_of(description, codes) == Ok::<Option<RequestView>, Seq<char>>(
                Some(request@),
            )
            &&& request.well_formed()
            &&& call == client.call(
                Method::Post,
                SYSTEMONE_PATH@,
                Some(#[trigger] request.wire(client.default_model)),
            )
        };
    law_every_code_is_asked_about(description, codes, i);
    assert(!has_gap(codes[i]));
    law_code_question(codes[i]);
    let id = codes[i].id;
    assert(request@.questions.contains_key(id));
    assert(request.questions@.contains_key(id));
    let question = request.questions@[id];
    assert(question@ == request@.questions[id]);
    law_request_wire(request, client.default_model, "state"@);
    law_questions_wire(request.questions, id);
    law_question_wire(question, "type"@);
    let criteria = question->Noul_criteria->0;
    law_criteria_wire(criteria@, "true"@);
    law_criteria_wire(criteria@, "false"@);
}

/// Nothing but the codes of the catalog is asked about in what is sent.
pub proof fn law_only_codes_are_sent(
    plan: Plan,
    client: ClientView,
    description: Seq<char>,
    codes: Seq<DefectCodeView>,
    id: Seq<char>,
)
    requires
        is_plan(plan, client, description, codes),
        plan is Ask,
        plan->Ask_0@.payload->0.field("questions"@)->0.field(id) is Some,
    ensures
        exists|i: int| 0 <= i < codes.len() && (#[trigger] codes[i]).id == id,
{
    let call = plan->Ask_0@;
    let request = choose|request: SystemOneRequest|
        {
            &&& suggestion_request_of(description, codes) == Ok::<Option<RequestView>, Seq<char>>(
                Some(request@),
            )
            &&& request.well_formed()
            &&& call == client.call(
                Method::Post,
                SYSTEMONE_PATH@,
                Some(#[trigger] request.wire(client.default_model)),
            )
        };
    law_request_wire(request, client.default_model, "state"@);
    law_questions_wire(request.questions, id);
    assert(request.questions@.contains_key(id));
    assert(request@.questions.contains_key(id));
    law_only_codes_are_asked_about(description, codes, id);
}

/// What suggestions say is what each of them says, in their order.
pub proof fn law_suggestions_say(suggestions: Seq<DefectCodeSuggestion>)
    ensures
        match_views(suggestions).len() == suggestions.len(),
        forall|i: int|
            0 <= i < suggestions.len() ==> {
                let view = #[trigger] match_views(suggestions)[i];
                &&& view.code == suggestions[i].defect_code@
                &&& view.selected == suggestions[i].selected
                &&& view.confidence == suggestions[i].confidence
            },
{
}

} // verus!
