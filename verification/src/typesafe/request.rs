//! Requests: a state and the questions about it.

use vstd::prelude::*;
use vstd::string::*;

use crate::json::{lemma_field_index, Json, Tree};
use crate::text::{blank, is_blank, optional, text_before};
use crate::text_map::{
    has_key, keys_distinct, keys_increase, law_last_pair_counts, lemma_increasing_distinct,
    lemma_map_fixes_pairs, lemma_map_of_keys, lemma_map_of_len, lemma_map_of_values, map_of,
    names_distinct, names_increase, pairs_map, TextMap,
};
use crate::typesafe::error::{Error, ErrorView};
use crate::typesafe::question::{law_same_question_same_wire, Question, QuestionView};

verus! {

/// The `state` to evaluate: a string, JSON object, JSON array, or `Json::Null`.
pub type EntryType = Json;

/// A System One request: [`state`](Self::state) plus named
/// [`questions`](Self::questions).
#[derive(Debug, Clone)]
pub struct SystemOneRequest {
    /// The content to evaluate: a plain string, structured JSON, or
    /// `Json::Null`.
    pub state: EntryType,
    /// Model override for this request; falls back to the client's
    /// `default_model` (by default `jev-latest`).
    pub model: Option<String>,
    /// One or more questions, keyed by the ids their answers are returned
    /// under. The ids are not sent to the model.
    pub questions: TextMap<Question>,
}

/// What a [`SystemOneRequest`] asks.
#[verifier::ext_equal]
pub struct RequestView {
    pub state: Tree,
    pub model: Option<Seq<char>>,
    pub questions: Map<Seq<char>, QuestionView>,
}

/// What named questions ask.
pub open spec fn asked(questions: Map<Seq<char>, Question>) -> Map<Seq<char>, QuestionView> {
    Map::new(|id: Seq<char>| questions.contains_key(id), |id: Seq<char>| questions[id]@)
}

impl View for SystemOneRequest {
    type V = RequestView;

    open spec fn view(&self) -> RequestView {
        RequestView {
            state: self.state.tree(),
            model: optional(self.model),
            questions: asked(self.questions@),
        }
    }
}

/// What questions with ids ask.
pub open spec fn question_views(questions: Seq<(String, Question)>) -> Seq<
    (Seq<char>, QuestionView),
> {
    Seq::new(questions.len(), |i: int| (questions[i].0@, questions[i].1@))
}

/// Whether an id among `questions` is blank.
pub open spec fn has_blank_id(questions: Seq<(Seq<char>, QuestionView)>) -> bool {
    exists|i: int| 0 <= i < questions.len() && is_blank((#[trigger] questions[i]).0)
}

/// The request with this state and these questions, or what is wrong with it:
/// no id may be blank, there has to be a question, and no id may come twice.
pub open spec fn request_of(state: Tree, questions: Seq<(Seq<char>, QuestionView)>) -> Result<
    RequestView,
    Seq<char>,
> {
    if has_blank_id(questions) {
        Err("question ids must not be empty"@)
    } else if questions.len() == 0 {
        Err("a request needs at least one question"@)
    } else if !names_distinct(questions) {
        Err("duplicate question id"@)
    } else {
        Ok(RequestView { state, model: None, questions: pairs_map(questions) })
    }
}

/// Whether `r` is the request that `expected` holds, or the invalid request
/// with the message that it holds.
pub open spec fn request_result(
    r: Result<SystemOneRequest, Error>,
    expected: Result<RequestView, Seq<char>>,
) -> bool {
    match (r, expected) {
        (Ok(request), Ok(view)) => request@ == view,
        (Err(error), Err(message)) => error@ == ErrorView::InvalidRequest(message),
        _ => false,
    }
}

proof fn lemma_question_views(questions: Seq<(String, Question)>)
    ensures
        asked(map_of(questions)) == pairs_map(question_views(questions)),
        keys_distinct(questions) <==> names_distinct(question_views(questions)),
    decreases questions.len(),
{
    let views = question_views(questions);
    if questions.len() > 0 {
        lemma_question_views(questions.drop_last());
        assert(views.drop_last() =~= question_views(questions.drop_last()));
    }
    assert(asked(map_of(questions)) =~= pairs_map(views));
    assert forall|i: int, j: int| keys_distinct(questions) && 0 <= i < j < views.len() implies (
    #[trigger] views[i]).0 != (#[trigger] views[j]).0 by {
        assert(questions[i].0@ != questions[j].0@);
    }
    assert forall|i: int, j: int|
        names_distinct(views) && 0 <= i < j < questions.len() implies #[trigger] questions[i].0@
        != #[trigger] questions[j].0@ by {
        assert(views[i].0 != views[j].0);
    }
}

impl SystemOneRequest {
    /// Create a request from a state and `(id, question)` pairs. Ask every
    /// question your code might need in one request; questions are evaluated
    /// in parallel and extra questions cost only a few tokens each.
    ///
    /// # Errors
    ///
    /// Returns [`Error::InvalidRequest`] when `questions` is empty or contains
    /// duplicate or empty ids.
    pub fn new(state: EntryType, questions: Vec<(String, Question)>) -> (r: Result<Self, Error>)
        ensures
            request_result(r, request_of(state.tree(), question_views(questions@))),
    {
        let ghost given = questions@;
        let ghost views = question_views(given);
        let count: usize = questions.len();
        let mut map: TextMap<Question> = TextMap::new();
        assert(given.take(0) =~= Seq::empty());
        for pair in it: questions
            invariant
                it.seq() == given,
                views == question_views(given),
                map@ == map_of(given.take(it.index() as int)),
                forall|i: int| 0 <= i < it.index() ==> !is_blank((#[trigger] views[i]).0),
        {
            let ghost n = it.index() as int;
            proof {
                assert(given.take(n + 1).drop_last() =~= given.take(n));
                assert(given.take(n + 1).last() == pair);
                assert(views[n].0 == pair.0@);
            }
            let (id, question) = pair;
            if blank(id.as_str()) {
                return Err(Error::InvalidRequest("question ids must not be empty".to_owned()));
            }
            map.insert(id, question);
        }
        proof {
            assert(given.take(given.len() as int) =~= given);
            lemma_map_of_len(given);
            lemma_question_views(given);
        }
        if map.is_empty() {
            proof {
                if given.len() > 0 {
                    assert(map_of(given).contains_key(given.last().0@));
                }
            }
            return Err(
                Error::InvalidRequest("a request needs at least one question".to_owned()),
            );
        }
        if map.len() != count {
            return Err(Error::InvalidRequest("duplicate question id".to_owned()));
        }
        Ok(SystemOneRequest { state, model: None, questions: map })
    }

    /// Override the model for this request, e.g. `"jev-latest"` or a
    /// versioned id such as `"jev-1.13.0"`. Pin a version when you have
    /// tuned thresholds against it.
    pub fn model(self, model: String) -> (r: Self)
        ensures
            r@ == (RequestView { model: Some(model@), ..self@ }),
            r.state == self.state,
            r.questions == self.questions,
    {
        SystemOneRequest { state: self.state, model: Some(model), questions: self.questions }
    }

    /// Whether the questions lie in the order of their ids, and the options of
    /// each choice in that of their names.
    pub open spec fn well_formed(self) -> bool {
        &&& keys_increase(self.questions.entries())
        &&& forall|i: int|
            0 <= i < self.questions.entries().len() ==> (
            #[trigger] self.questions.entries()[i]).1.well_formed()
    }

    /// The wire form of the request, asked of `model`: the state, the model,
    /// and the questions in the order of their ids.
    pub open spec fn wire(self, model: Seq<char>) -> Tree {
        Tree::Object(
            seq![
                ("state"@, self.state.tree()),
                ("model"@, Tree::Text(model)),
                ("questions"@, questions_wire(self.questions.entries())),
            ],
        )
    }

    /// The JSON value that is sent for the request, asked of `model`.
    pub fn into_json(self, model: String) -> (r: Json)
        ensures
            r.tree() == self.wire(model@),
            r.tree().field("state"@) == Some(self.state.tree()),
            r.tree().field("model"@) == Some(Tree::Text(model@)),
            self.well_formed(),
    {
        let ghost whole = self;
        proof {
            law_request_wire(whole, model@, "state"@);
        }
        let mut fields: Vec<(String, Json)> = Vec::new();
        fields.push(("state".to_owned(), self.state));
        let asked_of = Json::Text(model);
        assert(asked_of.tree() == Tree::Text(model@));
        fields.push(("model".to_owned(), asked_of));
        fields.push(("questions".to_owned(), questions_json(self.questions)));
        let json = Json::Object(fields);
        assert(json.tree()->Object_0 =~= whole.wire(model@)->Object_0);
        json
    }
}

/// The wire form of questions, in the order of `entries`.
pub open spec fn questions_wire(entries: Seq<(String, Question)>) -> Tree {
    Tree::Object(Seq::new(entries.len(), |i: int| (entries[i].0@, entries[i].1.wire())))
}

/// The JSON value that is sent for questions.
fn questions_json(questions: TextMap<Question>) -> (r: Json)
    ensures
        r.tree() == questions_wire(questions.entries()),
        keys_increase(questions.entries()),
        forall|i: int|
            0 <= i < questions.entries().len() ==> (
            #[trigger] questions.entries()[i]).1.well_formed(),
{
    let entries = questions.into_entries();
    let ghost given = entries@;
    let mut fields: Vec<(String, Json)> = Vec::new();
    for entry in it: entries
        invariant
            it.seq() == given,
            fields@.len() == it.index(),
            forall|i: int|
                0 <= i < fields@.len() ==> (#[trigger] fields@[i]).0 == given[i].0
                    && fields@[i].1.tree() == given[i].1.wire() && given[i].1.well_formed(),
    {
        let (id, question) = entry;
        fields.push((id, question.into_json()));
    }
    assert forall|i: int| 0 <= i < given.len() implies (#[trigger] given[i]).1.well_formed() by {
        assert(fields@[i].0 == given[i].0);
    }
    let json = Json::Object(fields);
    assert(json.tree()->Object_0 =~= questions_wire(given)->Object_0);
    json
}

/// A request has a question, and every question the pairs gave is asked under
/// its id.
pub proof fn law_request_asks_every_question(
    state: Tree,
    questions: Seq<(Seq<char>, QuestionView)>,
    i: int,
)
    requires
        request_of(state, questions) is Ok,
        0 <= i < questions.len(),
    ensures
        ({
            let request = request_of(state, questions)->Ok_0;
            &&& request.questions.contains_key(questions[i].0)
            &&& request.questions[questions[i].0] == questions[i].1
            &&& !is_blank(questions[i].0)
        }),
{
    lemma_pair_is_kept(questions, i);
}

/// Where no name comes twice, each pair stands in the map.
pub proof fn lemma_pair_is_kept(pairs: Seq<(Seq<char>, QuestionView)>, i: int)
    requires
        names_distinct(pairs),
        0 <= i < pairs.len(),
    ensures
        pairs_map(pairs).contains_key(pairs[i].0),
        pairs_map(pairs)[pairs[i].0] == pairs[i].1,
    decreases pairs.len(),
{
    let init = pairs.drop_last();
    if i < pairs.len() - 1 {
        assert(names_distinct(init)) by {
            assert forall|j: int, k: int| 0 <= j < k < init.len() implies (#[trigger] init[j]).0 != (
            #[trigger] init[k]).0 by {
                assert(pairs[j].0 != pairs[k].0);
            }
        }
        lemma_pair_is_kept(init, i);
        assert(pairs[i].0 != pairs[pairs.len() - 1].0);
    }
}

/// What a request asks fixes its wire form.
pub proof fn law_same_request_same_wire(a: SystemOneRequest, b: SystemOneRequest, model: Seq<char>)
    requires
        a@ == b@,
        a.well_formed(),
        b.well_formed(),
    ensures
        a.wire(model) == b.wire(model),
{
    let (ours, theirs) = (a.questions.entries(), b.questions.entries());
    let (x, y) = (question_views(ours), question_views(theirs));
    lemma_question_views(ours);
    lemma_question_views(theirs);
    lemma_views_increase(ours);
    lemma_views_increase(theirs);
    assert(pairs_map(x) == pairs_map(y)) by {
        assert(a@.questions == b@.questions);
    }
    lemma_map_fixes_pairs(x, y);
    let (p, q) = (questions_wire(ours), questions_wire(theirs));
    assert forall|i: int| 0 <= i < x.len() implies p->Object_0[i] == q->Object_0[i] by {
        assert(x[i] == y[i]);
        law_same_question_same_wire(ours[i].1, theirs[i].1);
    }
    assert(p->Object_0 =~= q->Object_0);
}

proof fn lemma_views_increase(entries: Seq<(String, Question)>)
    requires
        keys_increase(entries),
    ensures
        names_increase(question_views(entries)),
{
    let views = question_views(entries);
    assert forall|i: int, j: int| 0 <= i < j < views.len() implies text_before(
        (#[trigger] views[i]).0,
        (#[trigger] views[j]).0,
    ) by {
        assert(text_before(entries[i].0@, entries[j].0@));
    }
}

/// A request is sent as an object with three fields: the state as it is,
/// whatever it is, the model, and the questions. Nothing else is sent.
pub proof fn law_request_wire(request: SystemOneRequest, model: Seq<char>, name: Seq<char>)
    ensures
        request.wire(model) is Object,
        request.wire(model)->Object_0.len() == 3,
        request.wire(model).field("state"@) == Some(request.state.tree()),
        request.wire(model).field("model"@) == Some(Tree::Text(model)),
        request.wire(model).field("questions"@) == Some(
            questions_wire(request.questions.entries()),
        ),
        name != "state"@ && name != "model"@ && name != "questions"@ ==> request.wire(model).field(
            name,
        ) is None,
{
    reveal_strlit("state");
    reveal_strlit("model");
    reveal_strlit("questions");
    let fields = request.wire(model)->Object_0;
    assert("state"@[0] == 's' && "model"@[0] == 'm' && "questions"@[0] == 'q');
    assert(fields[0].0 == "state"@ && fields[1].0 == "model"@ && fields[2].0 == "questions"@);
    lemma_field_index(fields, "state"@, 0);
    lemma_field_index(fields, "model"@, 1);
    lemma_field_index(fields, "questions"@, 2);
    if name != "state"@ && name != "model"@ && name != "questions"@ {
        lemma_field_index(fields, name, 3);
    }
}

/// Two requests whose states say different things are sent as different
/// bodies.
pub proof fn law_states_are_told_apart(
    one: SystemOneRequest,
    other: SystemOneRequest,
    model: Seq<char>,
)
    requires
        one.state.tree() != other.state.tree(),
    ensures
        one.wire(model) != other.wire(model),
{
    law_request_wire(one, model, "state"@);
    law_request_wire(other, model, "state"@);
}

/// Every question is sent under its id, in its own wire form, and no other id
/// is sent; the ids come in their order.
pub proof fn law_questions_wire(questions: TextMap<Question>, id: Seq<char>)
    requires
        keys_increase(questions.entries()),
    ensures
        questions_wire(questions.entries()) is Object,
        questions@.contains_key(id) ==> questions_wire(questions.entries()).field(id) == Some(
            questions@[id].wire(),
        ),
        !questions@.contains_key(id) ==> questions_wire(questions.entries()).field(id) is None,
        names_increase(questions_wire(questions.entries())->Object_0),
{
    let entries = questions.entries();
    let fields = questions_wire(entries)->Object_0;
    lemma_map_of_keys(entries);
    lemma_increasing_distinct(entries);
    lemma_map_of_values(entries);
    assert(questions@.contains_key(id) <==> has_key(entries, id));
    if has_key(entries, id) {
        let i = choose|i: int| 0 <= i < entries.len() && #[trigger] entries[i].0@ == id;
        assert forall|j: int| 0 <= j < i implies (#[trigger] fields[j]).0 != id by {
            assert(entries[j].0@ != entries[i].0@);
        }
        lemma_field_index(fields, id, i);
        assert(questions@[entries[i].0@] == entries[i].1);
    } else {
        assert forall|j: int| 0 <= j < fields.len() implies (#[trigger] fields[j]).0 != id by {
            assert(fields[j].0 == entries[j].0@);
        }
        lemma_field_index(fields, id, fields.len() as int);
    }
    assert forall|i: int, j: int| 0 <= i < j < fields.len() implies text_before(
        (#[trigger] fields[i]).0,
        (#[trigger] fields[j]).0,
    ) by {
        assert(text_before(entries[i].0@, entries[j].0@));
    }
}

/// A request is accepted exactly when it has a question and every id is not
/// blank and its own. It then holds the state and the questions that were
/// given, no other question, and no model.
pub proof fn law_request_is_accepted(state: Tree, questions: Seq<(Seq<char>, QuestionView)>)
    ensures
        request_of(state, questions) is Ok <==> {
            &&& questions.len() > 0
            &&& forall|i: int| 0 <= i < questions.len() ==> !is_blank((#[trigger] questions[i]).0)
            &&& forall|i: int, j: int|
                0 <= i < j < questions.len() ==> (#[trigger] questions[i]).0 != (
                #[trigger] questions[j]).0
        },
        request_of(state, questions) matches Ok(request) ==> {
            &&& request.state == state
            &&& request.model is None
            &&& forall|i: int|
                0 <= i < questions.len() ==> request.questions.contains_key(
                    (#[trigger] questions[i]).0,
                ) && request.questions[questions[i].0] == questions[i].1
            &&& forall|id: Seq<char>| #[trigger]
                request.questions.contains_key(id) ==> exists|i: int|
                    0 <= i < questions.len() && (#[trigger] questions[i]).0 == id
        },
        request_of(state, questions) matches Err(fault) ==> {
            if exists|i: int| 0 <= i < questions.len() && is_blank((#[trigger] questions[i]).0) {
                fault == "question ids must not be empty"@
            } else if questions.len() == 0 {
                fault == "a request needs at least one question"@
            } else {
                fault == "duplicate question id"@
            }
        },
{
    if request_of(state, questions) is Ok {
        assert forall|i: int| 0 <= i < questions.len() implies pairs_map(questions).contains_key(
            (#[trigger] questions[i]).0,
        ) && pairs_map(questions)[questions[i].0] == questions[i].1 by {
            lemma_pair_is_kept(questions, i);
        }
        assert forall|id: Seq<char>| #[trigger] pairs_map(questions).contains_key(id) implies exists|
            i: int,
        |
            0 <= i < questions.len() && (#[trigger] questions[i]).0 == id by {
            law_last_pair_counts(questions, id);
        }
    }
}

/// A request asks the questions that it holds, each under its id, about the
/// state that it holds.
pub proof fn law_requests_ask(request: SystemOneRequest, questions: Seq<(String, Question)>)
    ensures
        request@.state == request.state.tree(),
        match request.model {
            Some(model) => request@.model == Some(model@),
            None => request@.model is None,
        },
        request@.questions.dom() == request.questions@.dom(),
        forall|id: Seq<char>| #[trigger]
            request.questions@.contains_key(id) ==> request@.questions[id]
                == request.questions@[id]@,
        question_views(questions).len() == questions.len(),
        forall|i: int|
            0 <= i < questions.len() ==> #[trigger] question_views(questions)[i] == (
                questions[i].0@,
                questions[i].1@,
            ),
{
    assert(request@.questions.dom() =~= request.questions@.dom());
}

/// A request comes back exactly where one is expected, and asks what is
/// expected; else the request is invalid, with the message that is expected.
pub proof fn law_request_results(
    r: Result<SystemOneRequest, Error>,
    expected: Result<RequestView, Seq<char>>,
)
    requires
        request_result(r, expected),
    ensures
        r is Ok <==> expected is Ok,
        r matches Ok(request) ==> request@ == expected->Ok_0,
        r matches Err(error) ==> error matches Error::InvalidRequest(message) && message@
            == expected->Err_0,
{
}

} // verus!
