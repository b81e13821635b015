//! Questions about a state.

use vstd::prelude::*;
use vstd::string::*;

use crate::json::{law_field_is_the_first_of_its_name, lemma_field_index, Json, Tree};
use crate::text::{blank, decimal, decimal_text, is_blank, join, join3, text_before};
use crate::text_map::{
    has_key, keys_distinct, keys_increase, law_last_pair_counts, lemma_increasing_distinct,
    lemma_map_fixes_pairs, lemma_map_of_keys, lemma_map_of_len, lemma_map_of_values, map_of,
    names_distinct, names_increase, pairs_map, TextMap,
};
use crate::typesafe::error::{optional_tree, Error, ErrorView};

verus! {

/// A question, instruction, option, or level description: a string, JSON
/// object, or JSON array. Structured descriptions let you give an option or
/// level fields such as `what`, `not_for`, and `examples`; the field names are
/// yours. See [advanced structure](https://docs.typesafe.ai/primitives/advanced).
pub type Description = Json;

/// A typed question to ask about the state of a request.
///
/// Build one with [`Question::noul`], [`Question::choice`],
/// [`Question::choice_with_criteria`], or [`Question::score`]. Each question
/// type has a matching answer type.
#[derive(Debug, Clone)]
#[allow(inconsistent_fields)]
pub enum Question {
    /// A yes/no question; the answer is the probability of "yes".
    Noul { instructions: Description, criteria: Option<NoulCriteria> },
    /// Picks one option from a set you define.
    Choice { instructions: Description, criteria: TextMap<Option<Description>> },
    /// Rates the state along an ordered rubric of levels.
    Score { instructions: Description, criteria: Vec<Description> },
}

/// Optional descriptions of what "yes" and "no" mean for a [`Question::noul`].
#[derive(Debug, Clone)]
pub struct NoulCriteria {
    /// What a yes (noul value near 1) means.
    pub true_description: Option<Description>,
    /// What a no (noul value near 0) means.
    pub false_description: Option<Description>,
}

/// What a [`Question`] asks.
#[verifier::ext_equal]
#[allow(inconsistent_fields)]
pub enum QuestionView {
    Noul { instructions: Tree, criteria: Option<NoulCriteriaView> },
    Choice { instructions: Tree, criteria: Map<Seq<char>, Option<Tree>> },
    Score { instructions: Tree, criteria: Seq<Tree> },
}

/// What a [`NoulCriteria`] says.
pub struct NoulCriteriaView {
    pub true_description: Option<Tree>,
    pub false_description: Option<Tree>,
}

impl View for NoulCriteria {
    type V = NoulCriteriaView;

    open spec fn view(&self) -> NoulCriteriaView {
        NoulCriteriaView {
            true_description: optional_tree(self.true_description),
            false_description: optional_tree(self.false_description),
        }
    }
}

/// The criteria without a description.
pub open spec fn no_criteria() -> NoulCriteriaView {
    NoulCriteriaView { true_description: None, false_description: None }
}

impl Default for NoulCriteria {
    fn default() -> (r: Self)
        ensures
            r@ == no_criteria(),
    {
        NoulCriteria { true_description: None, false_description: None }
    }
}

/// What the descriptions of options say.
pub open spec fn described(options: Map<Seq<char>, Option<Json>>) -> Map<Seq<char>, Option<Tree>> {
    Map::new(|name: Seq<char>| options.contains_key(name), |name: Seq<char>| optional_tree(options[name]))
}

/// What the values of a list say.
pub open spec fn trees(values: Seq<Json>) -> Seq<Tree> {
    Seq::new(values.len(), |i: int| values[i].tree())
}

impl View for Question {
    type V = QuestionView;

    open spec fn view(&self) -> QuestionView {
        match *self {
            Question::Noul { instructions, criteria } => QuestionView::Noul {
                instructions: instructions.tree(),
                criteria: match criteria {
                    Some(criteria) => Some(criteria@),
                    None => None,
                },
            },
            Question::Choice { instructions, criteria } => QuestionView::Choice {
                instructions: instructions.tree(),
                criteria: described(criteria@),
            },
            Question::Score { instructions, criteria } => QuestionView::Score {
                instructions: instructions.tree(),
                criteria: trees(criteria@),
            },
        }
    }
}

/// Whether `r` is the question that `expected` holds, or the invalid request
/// with the message that it holds.
pub open spec fn question_result(
    r: Result<Question, Error>,
    expected: Result<QuestionView, Seq<char>>,
) -> bool {
    match (r, expected) {
        (Ok(question), Ok(view)) => question@ == view,
        (Err(error), Err(message)) => error@ == ErrorView::InvalidRequest(message),
        _ => false,
    }
}

/// What is wrong with a description of `what`, if anything: it has to be a
/// text that is not blank, an object or an array, or `null` where that is
/// allowed.
pub open spec fn description_fault(
    description: Tree,
    allow_null: bool,
    what: Seq<char>,
) -> Option<Seq<char>> {
    match description {
        Tree::Null => if allow_null {
            None
        } else {
            Some(what + " must not be null"@)
        },
        Tree::Text(text) => if is_blank(text) {
            Some(what + " must not be empty"@)
        } else {
            None
        },
        Tree::Object(_) => None,
        Tree::Array(_) => None,
        Tree::Bool(b) => Some(
            what + " must be a string, object, or array, got "@ + (if b {
                "true"@
            } else {
                "false"@
            }),
        ),
        Tree::Number(text) => Some(what + " must be a string, object, or array, got "@ + text),
    }
}

/// The yes/no question with these instructions, or what is wrong with it.
pub open spec fn noul_question(instructions: Tree) -> Result<QuestionView, Seq<char>> {
    match description_fault(instructions, false, "instructions"@) {
        Some(fault) => Err(fault),
        None => Ok(QuestionView::Noul { instructions, criteria: None }),
    }
}

/// A question after a yes/no question was told what yes means, or what is
/// wrong with that.
pub open spec fn with_true(question: QuestionView, description: Tree) -> Result<
    QuestionView,
    Seq<char>,
> {
    match description_fault(description, false, "criteria description"@) {
        Some(fault) => Err(fault),
        None => match question {
            QuestionView::Noul { instructions, criteria } => Ok(
                QuestionView::Noul {
                    instructions,
                    criteria: Some(
                        NoulCriteriaView {
                            true_description: Some(description),
                            false_description: match criteria {
                                Some(criteria) => criteria.false_description,
                                None => None,
                            },
                        },
                    ),
                },
            ),
            _ => Err("criteria_true is only valid on noul questions"@),
        },
    }
}

/// A question after a yes/no question was told what no means, or what is
/// wrong with that.
pub open spec fn with_false(question: QuestionView, description: Tree) -> Result<
    QuestionView,
    Seq<char>,
> {
    match description_fault(description, false, "criteria description"@) {
        Some(fault) => Err(fault),
        None => match question {
            QuestionView::Noul { instructions, criteria } => Ok(
                QuestionView::Noul {
                    instructions,
                    criteria: Some(
                        NoulCriteriaView {
                            true_description: match criteria {
                                Some(criteria) => criteria.true_description,
                                None => None,
                            },
                            false_description: Some(description),
                        },
                    ),
                },
            ),
            _ => Err("criteria_false is only valid on noul questions"@),
        },
    }
}

/// What is wrong with an option, if anything: its name must not be blank, and
/// it is described well or not at all.
pub open spec fn option_fault(name: Seq<char>, description: Option<Tree>) -> Option<Seq<char>> {
    if is_blank(name) {
        Some("option names must not be empty"@)
    } else {
        match description {
            Some(description) => description_fault(description, false, "option descriptions"@),
            None => None,
        }
    }
}

/// What is wrong with the first option with which something is.
pub open spec fn first_option_fault(options: Seq<(Seq<char>, Option<Tree>)>) -> Option<Seq<char>>
    decreases options.len(),
{
    if options.len() == 0 {
        None
    } else {
        match first_option_fault(options.drop_last()) {
            Some(fault) => Some(fault),
            None => option_fault(options.last().0, options.last().1),
        }
    }
}

/// The choice between these options, or what is wrong with it: the
/// instructions and then the options are looked at in order, there has to be
/// an option, no name may come twice, and there are at most 255 options.
pub open spec fn choice_question(
    instructions: Tree,
    options: Seq<(Seq<char>, Option<Tree>)>,
) -> Result<QuestionView, Seq<char>> {
    match description_fault(instructions, false, "instructions"@) {
        Some(fault) => Err(fault),
        None => match first_option_fault(options) {
            Some(fault) => Err(fault),
            None => if options.len() == 0 {
                Err("a choice question needs at least one option"@)
            } else if !names_distinct(options) {
                Err("duplicate option name in criteria"@)
            } else if options.len() > 255 {
                Err("a choice question accepts at most 255 options"@)
            } else {
                Ok(QuestionView::Choice { instructions, criteria: pairs_map(options) })
            },
        },
    }
}

/// What is wrong with the first level with which something is.
pub open spec fn first_level_fault(levels: Seq<Tree>) -> Option<Seq<char>>
    decreases levels.len(),
{
    if levels.len() == 0 {
        None
    } else {
        match first_level_fault(levels.drop_last()) {
            Some(fault) => Some(fault),
            None => description_fault(
                levels.last(),
                false,
                "score level "@ + decimal((levels.len() - 1) as nat),
            ),
        }
    }
}

/// The rating along these levels, or what is wrong with it: the instructions
/// and then the levels are looked at in order, and there are 2 to 10 levels.
pub open spec fn score_question(instructions: Tree, levels: Seq<Tree>) -> Result<
    QuestionView,
    Seq<char>,
> {
    match description_fault(instructions, false, "instructions"@) {
        Some(fault) => Err(fault),
        None => match first_level_fault(levels) {
            Some(fault) => Err(fault),
            None => if levels.len() < 2 || levels.len() > 10 {
                Err("a score question needs between 2 and 10 levels, got "@ + decimal(levels.len()))
            } else {
                Ok(QuestionView::Score { instructions, criteria: levels })
            },
        },
    }
}

/// What options say, by name.
pub open spec fn option_views(options: Seq<(String, Option<Json>)>) -> Seq<
    (Seq<char>, Option<Tree>),
> {
    Seq::new(options.len(), |i: int| (options[i].0@, optional_tree(options[i].1)))
}

/// What options say that are all described, by name.
pub open spec fn described_views(options: Seq<(String, Json)>) -> Seq<(Seq<char>, Option<Tree>)> {
    Seq::new(options.len(), |i: int| (options[i].0@, Some(options[i].1.tree())))
}

proof fn lemma_option_views(options: Seq<(String, Option<Json>)>)
    ensures
        described(map_of(options)) == pairs_map(option_views(options)),
        keys_distinct(options) <==> names_distinct(option_views(options)),
    decreases options.len(),
{
    let views = option_views(options);
    if options.len() > 0 {
        lemma_option_views(options.drop_last());
        assert(views.drop_last() =~= option_views(options.drop_last()));
    }
    assert(described(map_of(options)) =~= pairs_map(views));
    assert forall|i: int, j: int| keys_distinct(options) && 0 <= i < j < views.len() implies (
    #[trigger] views[i]).0 != (#[trigger] views[j]).0 by {
        assert(options[i].0@ != options[j].0@);
    }
    assert forall|i: int, j: int|
        names_distinct(views) && 0 <= i < j < options.len() implies #[trigger] options[i].0@
        != #[trigger] options[j].0@ by {
        assert(views[i].0 != views[j].0);
    }
}

/// A fault of the first options is the fault of all of them.
proof fn lemma_option_fault_stays(options: Seq<(Seq<char>, Option<Tree>)>, n: int)
    requires
        0 <= n <= options.len(),
        first_option_fault(options.take(n)) is Some,
    ensures
        first_option_fault(options) == first_option_fault(options.take(n)),
    decreases options.len(),
{
    if n < options.len() {
        assert(options.drop_last().take(n) =~= options.take(n));
        lemma_option_fault_stays(options.drop_last(), n);
    } else {
        assert(options.take(n) =~= options);
    }
}

/// A fault of the first levels is the fault of all of them.
proof fn lemma_level_fault_stays(levels: Seq<Tree>, n: int)
    requires
        0 <= n <= levels.len(),
        first_level_fault(levels.take(n)) is Some,
    ensures
        first_level_fault(levels) == first_level_fault(levels.take(n)),
    decreases levels.len(),
{
    if n < levels.len() {
        assert(levels.drop_last().take(n) =~= levels.take(n));
        lemma_level_fault_stays(levels.drop_last(), n);
    } else {
        assert(levels.take(n) =~= levels);
    }
}

fn invalid(message: &str) -> (r: Error)
    ensures
        r@ == ErrorView::InvalidRequest(message@),
{
    Error::InvalidRequest(message.to_owned())
}

/// Check that a description is a string, object, or array (and not empty when
/// it is a string), matching the API's accepted types.
pub fn validate_description(description: &Description, allow_null: bool, what: &str) -> (r: Result<
    (),
    Error,
>)
    ensures
        match r {
            Ok(_) => description_fault(description.tree(), allow_null, what@) is None,
            Err(error) => description_fault(description.tree(), allow_null, what@) is Some
                && error@ == ErrorView::InvalidRequest(
                description_fault(description.tree(), allow_null, what@)->0,
            ),
        },
{
    match description {
        Json::Null => if allow_null {
            Ok(())
        } else {
            Err(Error::InvalidRequest(join(what, " must not be null")))
        },
        Json::Text(text) => if blank(text.as_str()) {
            Err(Error::InvalidRequest(join(what, " must not be empty")))
        } else {
            Ok(())
        },
        Json::Object(_) => Ok(()),
        Json::Array(_) => Ok(()),
        Json::Bool(b) => {
            let got = if *b {
                "true"
            } else {
                "false"
            };
            Err(
                Error::InvalidRequest(
                    join3(what, " must be a string, object, or array, got ", got),
                ),
            )
        },
        Json::Number(text) => Err(
            Error::InvalidRequest(
                join3(what, " must be a string, object, or array, got ", text.as_str()),
            ),
        ),
    }
}

impl Question {
    /// A yes/no question. The answer is the probability the answer is yes,
    /// from 0 (no) to 1 (yes).
    ///
    /// Optionally describe the two outcomes with
    /// [`criteria_true`](Self::criteria_true) and
    /// [`criteria_false`](Self::criteria_false).
    pub fn noul(instructions: Description) -> (r: Result<Self, Error>)
        ensures
            question_result(r, noul_question(instructions.tree())),
    {
        match validate_description(&instructions, false, "instructions") {
            Ok(_) => Ok(Question::Noul { instructions, criteria: None }),
            Err(error) => Err(error),
        }
    }

    /// Describe what a yes (noul value near 1) means. Only valid on noul
    /// questions.
    pub fn criteria_true(self, description: Description) -> (r: Result<Self, Error>)
        ensures
            question_result(r, with_true(self@, description.tree())),
    {
        match validate_description(&description, false, "criteria description") {
            Ok(_) => {},
            Err(error) => return Err(error),
        }
        match self {
            Question::Noul { instructions, criteria } => {
                let mut criteria = match criteria {
                    Some(criteria) => criteria,
                    None => NoulCriteria::default(),
                };
                criteria.true_description = Some(description);
                Ok(Question::Noul { instructions, criteria: Some(criteria) })
            },
            _ => Err(invalid("criteria_true is only valid on noul questions")),
        }
    }

    /// Describe what a no (noul value near 0) means. Only valid on noul
    /// questions.
    pub fn criteria_false(self, description: Description) -> (r: Result<Self, Error>)
        ensures
            question_result(r, with_false(self@, description.tree())),
    {
        match validate_description(&description, false, "criteria description") {
            Ok(_) => {},
            Err(error) => return Err(error),
        }
        match self {
            Question::Noul { instructions, criteria } => {
                let mut criteria = match criteria {
                    Some(criteria) => criteria,
                    None => NoulCriteria::default(),
                };
                criteria.false_description = Some(description);
                Ok(Question::Noul { instructions, criteria: Some(criteria) })
            },
            _ => Err(invalid("criteria_false is only valid on noul questions")),
        }
    }

    /// A question that picks one option from a set you define.
    ///
    /// `options` are `(name, description)` pairs, where every option has a
    /// description. Use [`Question::choice_with_criteria`] when some options
    /// need no description, and prefer an `other` / `none of the above` option
    /// when the list might not cover every input. A choice accepts at most 255
    /// options.
    ///
    /// The answer is the highest-probability option, the full probability
    /// distribution, and a confidence value.
    pub fn choice(instructions: Description, options: Vec<(String, Description)>) -> (r: Result<
        Self,
        Error,
    >)
        ensures
            question_result(r, choice_question(instructions.tree(), described_views(options@))),
    {
        let ghost given = options@;
        let mut criteria: Vec<(String, Option<Description>)> = Vec::new();
        for option in it: options
            invariant
                it.seq() == given,
                criteria@.len() == it.index(),
                forall|i: int|
                    0 <= i < criteria@.len() ==> (#[trigger] criteria@[i]).0 == given[i].0
                        && criteria@[i].1 == Some(given[i].1),
        {
            let (name, description) = option;
            criteria.push((name, Some(description)));
        }
        assert(option_views(criteria@) =~= described_views(given));
        Self::choice_with_criteria(instructions, criteria)
    }

    /// A question that picks one option from a set, where an option's
    /// description may be `None` (serialized as JSON `null`) when its name is
    /// clear on its own.
    pub fn choice_with_criteria(
        instructions: Description,
        criteria: Vec<(String, Option<Description>)>,
    ) -> (r: Result<Self, Error>)
        ensures
            question_result(r, choice_question(instructions.tree(), option_views(criteria@))),
    {
        match validate_description(&instructions, false, "instructions") {
            Ok(_) => {},
            Err(error) => return Err(error),
        }
        let ghost given = criteria@;
        let ghost views = option_views(given);
        let count: usize = criteria.len();
        let mut options: TextMap<Option<Description>> = TextMap::new();
        assert(given.take(0) =~= Seq::empty());
        assert(views.take(0) =~= Seq::empty());
        for option in it: criteria
            invariant
                it.seq() == given,
                views == option_views(given),
                description_fault(instructions.tree(), false, "instructions"@) is None,
                options@ == map_of(given.take(it.index() as int)),
                first_option_fault(views.take(it.index() as int)) is None,
        {
            let ghost n = it.index() as int;
            proof {
                assert(given.take(n + 1).drop_last() =~= given.take(n));
                assert(views.take(n + 1).drop_last() =~= views.take(n));
                assert(given.take(n + 1).last() == option);
                assert(views.take(n + 1).last() == (option.0@, optional_tree(option.1)));
                if option_fault(option.0@, optional_tree(option.1)) is Some {
                    lemma_option_fault_stays(views, n + 1);
                }
            }
            let (name, description) = option;
            if blank(name.as_str()) {
                return Err(invalid("option names must not be empty"));
            }
            if let Some(description) = &description {
                match validate_description(description, false, "option descriptions") {
                    Ok(_) => {},
                    Err(error) => return Err(error),
                }
            }
            options.insert(name, description);
        }
        proof {
            assert(given.take(given.len() as int) =~= given);
            assert(views.take(views.len() as int) =~= views);
            lemma_map_of_len(given);
            lemma_option_views(given);
        }
        if options.is_empty() {
            proof {
                assert(map_of(given).dom().len() == 0);
                if given.len() > 0 {
                    assert(map_of(given).contains_key(given.last().0@));
                }
            }
            return Err(invalid("a choice question needs at least one option"));
        }
        if options.len() != count {
            return Err(invalid("duplicate option name in criteria"));
        }
        if options.len() > 255 {
            return Err(invalid("a choice question accepts at most 255 options"));
        }
        Ok(Question::Choice { instructions, criteria: options })
    }

    /// A question that rates the state along an ordered rubric of levels,
    /// from the low end of the scale to the high end.
    ///
    /// `levels` needs between 2 and 10 entries; each level's number is its
    /// position in the array, starting at 0. Describe situations, not degrees:
    /// "Broken feature, but a workaround exists" works; "moderately severe"
    /// does not.
    ///
    /// The answer is a probability-weighted position along the levels (it can
    /// land between two levels), a legend mapping each level back to its
    /// description, per-level probabilities, and a confidence value.
    pub fn score(instructions: Description, levels: Vec<Description>) -> (r: Result<Self, Error>)
        ensures
            question_result(r, score_question(instructions.tree(), trees(levels@))),
    {
        match validate_description(&instructions, false, "instructions") {
            Ok(_) => {},
            Err(error) => return Err(error),
        }
        let ghost views = trees(levels@);
        let mut level: usize = 0;
        assert(views.take(0) =~= Seq::empty());
        while level < levels.len()
            invariant
                level <= levels@.len(),
                views == trees(levels@),
                description_fault(instructions.tree(), false, "instructions"@) is None,
                first_level_fault(views.take(level as int)) is None,
            decreases levels@.len() - level,
        {
            let what = join("score level ", decimal_text(level).as_str());
            proof {
                let n = level as int;
                assert(views.take(n + 1).drop_last() =~= views.take(n));
                assert(views.take(n + 1).last() == levels@[n].tree());
                if description_fault(levels@[n].tree(), false, what@) is Some {
                    lemma_level_fault_stays(views, n + 1);
                }
            }
            match validate_description(&levels[level], false, what.as_str()) {
                Ok(_) => {},
                Err(error) => return Err(error),
            }
            level = level + 1;
        }
        assert(views.take(views.len() as int) =~= views);
        if levels.len() < 2 || levels.len() > 10 {
            return Err(
                Error::InvalidRequest(
                    join(
                        "a score question needs between 2 and 10 levels, got ",
                        decimal_text(levels.len()).as_str(),
                    ),
                ),
            );
        }
        Ok(Question::Score { instructions, criteria: levels })
    }
}

/// The wire form of an optional description: `null` stands for none.
pub open spec fn tree_or_null(description: Option<Tree>) -> Tree {
    match description {
        Some(tree) => tree,
        None => Tree::Null,
    }
}

/// The wire form of the descriptions of yes and no: those that are there.
pub open spec fn criteria_wire(criteria: NoulCriteriaView) -> Tree {
    let yes = match criteria.true_description {
        Some(tree) => seq![("true"@, tree)],
        None => Seq::empty(),
    };
    let no = match criteria.false_description {
        Some(tree) => seq![("false"@, tree)],
        None => Seq::empty(),
    };
    Tree::Object(yes + no)
}

/// The wire form of options, in the order of `entries`.
pub open spec fn options_wire(entries: Seq<(String, Option<Json>)>) -> Tree {
    Tree::Object(
        Seq::new(entries.len(), |i: int| (entries[i].0@, tree_or_null(optional_tree(entries[i].1)))),
    )
}

impl Question {
    /// Whether the options of a choice lie in the order of their names.
    pub open spec fn well_formed(self) -> bool {
        self matches Question::Choice { criteria, .. } ==> keys_increase(criteria.entries())
    }

    /// The name of the question's type in its wire form.
    pub open spec fn tag(self) -> Seq<char> {
        match self {
            Question::Noul { .. } => "noul"@,
            Question::Choice { .. } => "choice"@,
            Question::Score { .. } => "score"@,
        }
    }

    /// The wire form: the type, the instructions and the criteria, the options
    /// of a choice in the order of their names. A yes/no question without
    /// criteria has no such field.
    pub open spec fn wire(self) -> Tree {
        match self {
            Question::Noul { instructions, criteria } => {
                let head = seq![
                    ("type"@, Tree::Text(self.tag())),
                    ("instructions"@, instructions.tree()),
                ];
                match criteria {
                    Some(criteria) => Tree::Object(
                        head.push(("criteria"@, criteria_wire(criteria@))),
                    ),
                    None => Tree::Object(head),
                }
            },
            Question::Choice { instructions, criteria } => Tree::Object(
                seq![
                    ("type"@, Tree::Text(self.tag())),
                    ("instructions"@, instructions.tree()),
                    ("criteria"@, options_wire(criteria.entries())),
                ],
            ),
            Question::Score { instructions, criteria } => Tree::Object(
                seq![
                    ("type"@, Tree::Text(self.tag())),
                    ("instructions"@, instructions.tree()),
                    ("criteria"@, Tree::Array(trees(criteria@))),
                ],
            ),
        }
    }

    /// The JSON value that is sent for this question.
    pub fn into_json(self) -> (r: Json)
        ensures
            r.tree() == self.wire(),
            self.well_formed(),
    {
        let ghost whole = self;
        let mut fields: Vec<(String, Json)> = Vec::new();
        match self {
            Question::Noul { instructions, criteria } => {
                fields.push(("type".to_owned(), Json::text("noul")));
                fields.push(("instructions".to_owned(), instructions));
                if let Some(criteria) = criteria {
                    fields.push(("criteria".to_owned(), criteria.into_json()));
                }
            },
            Question::Choice { instructions, criteria } => {
                fields.push(("type".to_owned(), Json::text("choice")));
                fields.push(("instructions".to_owned(), instructions));
                fields.push(("criteria".to_owned(), options_json(criteria)));
            },
            Question::Score { instructions, criteria } => {
                let levels = Json::Array(criteria);
                assert(levels.tree()->Array_0 =~= trees(criteria@));
                fields.push(("type".to_owned(), Json::text("score")));
                fields.push(("instructions".to_owned(), instructions));
                fields.push(("criteria".to_owned(), levels));
            },
        }
        let json = Json::Object(fields);
        assert(json.tree()->Object_0 =~= whole.wire()->Object_0);
        json
    }
}

impl NoulCriteria {
    /// The JSON value that is sent for these descriptions.
    fn into_json(self) -> (r: Json)
        ensures
            r.tree() == criteria_wire(self@),
            r.tree().field("true"@) == optional_tree(self.true_description),
            r.tree().field("false"@) == optional_tree(self.false_description),
    {
        let ghost whole = self@;
        let mut fields: Vec<(String, Json)> = Vec::new();
        if let Some(description) = self.true_description {
            fields.push(("true".to_owned(), description));
        }
        if let Some(description) = self.false_description {
            fields.push(("false".to_owned(), description));
        }
        let json = Json::Object(fields);
        assert(json.tree()->Object_0 =~= criteria_wire(whole)->Object_0);
        proof {
            law_criteria_wire(whole, "true"@);
            law_criteria_wire(whole, "false"@);
            reveal_strlit("true");
            reveal_strlit("false");
            assert("true"@.len() == 4 && "false"@.len() == 5);
        }
        json
    }
}

/// The JSON value that is sent for options.
fn options_json(options: TextMap<Option<Description>>) -> (r: Json)
    ensures
        r.tree() == options_wire(options.entries()),
        keys_increase(options.entries()),
{
    let entries = options.into_entries();
    let ghost given = entries@;
    let mut fields: Vec<(String, Json)> = Vec::new();
    for entry in it: entries
        invariant
            it.seq() == given,
            fields@.len() == it.index(),
            forall|i: int|
                0 <= i < fields@.len() ==> (#[trigger] fields@[i]).0 == given[i].0
                    && fields@[i].1.tree() == tree_or_null(optional_tree(given[i].1)),
    {
        let (name, description) = entry;
        let value = match description {
            Some(description) => description,
            None => Json::Null,
        };
        fields.push((name, value));
    }
    let json = Json::Object(fields);
    assert(json.tree()->Object_0 =~= options_wire(given)->Object_0);
    json
}

/// A choice has 1 to 255 options, each with a name that is not blank, and each
/// described with a text, an object or an array, or not at all.
pub proof fn law_choice_options(instructions: Tree, options: Seq<(Seq<char>, Option<Tree>)>)
    requires
        choice_question(instructions, options) is Ok,
    ensures
        ({
            let criteria = choice_question(instructions, options)->Ok_0->Choice_criteria;
            &&& criteria.dom().finite()
            &&& 1 <= criteria.dom().len() <= 255
            &&& forall|name: Seq<char>| #[trigger]
                criteria.contains_key(name) ==> !is_blank(name) && (criteria[name] matches Some(tree)
                    ==> tree is Text || tree is Object || tree is Array)
        }),
{
    lemma_distinct_count(options);
    lemma_options_sound(options);
}

proof fn lemma_options_sound(options: Seq<(Seq<char>, Option<Tree>)>)
    requires
        first_option_fault(options) is None,
    ensures
        forall|name: Seq<char>| #[trigger]
            pairs_map(options).contains_key(name) ==> option_fault(name, pairs_map(options)[name])
                is None,
    decreases options.len(),
{
    if options.len() > 0 {
        lemma_options_sound(options.drop_last());
    }
}

proof fn lemma_distinct_count(options: Seq<(Seq<char>, Option<Tree>)>)
    requires
        names_distinct(options),
    ensures
        pairs_map(options).dom().finite(),
        pairs_map(options).dom().len() == options.len(),
        forall|name: Seq<char>| #[trigger]
            pairs_map(options).contains_key(name) ==> exists|i: int|
                0 <= i < options.len() && (#[trigger] options[i]).0 == name,
    decreases options.len(),
{
    if options.len() > 0 {
        let init = options.drop_last();
        assert(names_distinct(init)) by {
            assert forall|i: int, j: int| 0 <= i < j < init.len() implies (#[trigger] init[i]).0 != (
            #[trigger] init[j]).0 by {
                assert(options[i].0 != options[j].0);
            }
        }
        lemma_distinct_count(init);
        let last = options.last().0;
        assert(!pairs_map(init).contains_key(last)) by {
            if pairs_map(init).contains_key(last) {
                let i = choose|i: int| 0 <= i < init.len() && (#[trigger] init[i]).0 == last;
                assert(options[i].0 != options[options.len() - 1].0);
            }
        }
        assert(pairs_map(options).dom() =~= pairs_map(init).dom().insert(last));
        assert forall|name: Seq<char>| #[trigger]
            pairs_map(options).contains_key(name) implies exists|i: int|
            0 <= i < options.len() && (#[trigger] options[i]).0 == name by {
            if name == last {
                assert(options[options.len() - 1].0 == name);
            } else {
                assert(pairs_map(init).contains_key(name));
                let i = choose|i: int| 0 <= i < init.len() && (#[trigger] init[i]).0 == name;
                assert(options[i].0 == name);
            }
        }
    }
}

/// What yes and what no mean can be told in either order, and telling one again
/// replaces what was told before.
pub proof fn law_criteria_are_independent(question: QuestionView, yes: Tree, no: Tree, other: Tree)
    requires
        question is Noul,
        description_fault(yes, false, "criteria description"@) is None,
        description_fault(no, false, "criteria description"@) is None,
        description_fault(other, false, "criteria description"@) is None,
    ensures
        with_true(question, yes) is Ok,
        with_false(question, no) is Ok,
        with_false(with_true(question, yes)->Ok_0, no) == with_true(
            with_false(question, no)->Ok_0,
            yes,
        ),
        with_true(with_true(question, other)->Ok_0, yes) == with_true(question, yes),
        with_false(with_false(question, other)->Ok_0, no) == with_false(question, no),
{
}

/// Only a yes/no question can be told what yes and no mean.
pub proof fn law_criteria_need_a_noul(question: QuestionView, description: Tree)
    requires
        !(question is Noul),
    ensures
        with_true(question, description) is Err,
        with_false(question, description) is Err,
{
}

/// The wire form of every question says its type.
pub proof fn law_wire_says_the_type(question: Question)
    ensures
        question.wire().field("type"@) == Some(Tree::Text(question.tag())),
{
    lemma_field_index(question.wire()->Object_0, "type"@, 0);
}

/// What a question asks fixes its wire form.
pub proof fn law_same_question_same_wire(a: Question, b: Question)
    requires
        a@ == b@,
        a.well_formed(),
        b.well_formed(),
    ensures
        a.wire() == b.wire(),
{
    match (a, b) {
        (
            Question::Choice { criteria: ours, .. },
            Question::Choice { criteria: theirs, .. },
        ) => {
            let (x, y) = (option_views(ours.entries()), option_views(theirs.entries()));
            lemma_option_views(ours.entries());
            lemma_option_views(theirs.entries());
            assert(described(ours@) == described(theirs@)) by {
                assert(a@->Choice_criteria == b@->Choice_criteria);
            }
            lemma_views_increase(ours.entries());
            lemma_views_increase(theirs.entries());
            lemma_map_fixes_pairs(x, y);
            let (p, q) = (options_wire(ours.entries()), options_wire(theirs.entries()));
            assert forall|i: int| 0 <= i < x.len() implies p->Object_0[i] == q->Object_0[i] by {
                assert(x[i] == y[i]);
            }
            assert(p->Object_0 =~= q->Object_0);
        },
        _ => {},
    }
}

proof fn lemma_views_increase(entries: Seq<(String, Option<Json>)>)
    requires
        keys_increase(entries),
    ensures
        names_increase(option_views(entries)),
{
    let views = option_views(entries);
    assert forall|i: int, j: int| 0 <= i < j < views.len() implies text_before(
        (#[trigger] views[i]).0,
        (#[trigger] views[j]).0,
    ) by {
        assert(text_before(entries[i].0@, entries[j].0@));
    }
}

// ---------------------------------------------------------------------------
// What is sent
// ---------------------------------------------------------------------------

/// What yes means is sent under `true` and what no means under `false`, each
/// exactly when it was told, and nothing else is.
pub proof fn law_criteria_wire(criteria: NoulCriteriaView, name: Seq<char>)
    ensures
        criteria_wire(criteria) is Object,
        name == "true"@ ==> criteria_wire(criteria).field(name) == criteria.true_description,
        name == "false"@ ==> criteria_wire(criteria).field(name) == criteria.false_description,
        name != "true"@ && name != "false"@ ==> criteria_wire(criteria).field(name) is None,
        criteria_wire(criteria)->Object_0.len() <= 2,
{
    reveal_strlit("true");
    reveal_strlit("false");
    assert("true"@.len() == 4 && "false"@.len() == 5);
    law_field_is_the_first_of_its_name(criteria_wire(criteria), name);
    let fields = criteria_wire(criteria)->Object_0;
    if criteria.true_description is Some {
        assert(fields[0] == ("true"@, criteria.true_description->0));
        if criteria.false_description is Some {
            assert(fields[1] == ("false"@, criteria.false_description->0));
        }
    } else if criteria.false_description is Some {
        assert(fields[0] == ("false"@, criteria.false_description->0));
    }
}

/// A question is sent as an object with its type, its instructions as they are
/// and its criteria, and with nothing else. A yes/no question has criteria
/// exactly when what yes or no means was told.
pub proof fn law_question_wire(question: Question, name: Seq<char>)
    ensures
        question.wire() is Object,
        match question {
            Question::Noul { instructions, criteria } => {
                &&& question.wire().field("type"@) == Some(Tree::Text("noul"@))
                &&& question.wire().field("instructions"@) == Some(instructions.tree())
                &&& match criteria {
                    Some(criteria) => question.wire().field("criteria"@) == Some(
                        criteria_wire(criteria@),
                    ),
                    None => question.wire().field("criteria"@) is None,
                }
            },
            Question::Choice { instructions, criteria } => {
                &&& question.wire().field("type"@) == Some(Tree::Text("choice"@))
                &&& question.wire().field("instructions"@) == Some(instructions.tree())
                &&& question.wire().field("criteria"@) == Some(options_wire(criteria.entries()))
            },
            Question::Score { instructions, criteria } => {
                &&& question.wire().field("type"@) == Some(Tree::Text("score"@))
                &&& question.wire().field("instructions"@) == Some(instructions.tree())
                &&& question.wire().field("criteria"@) matches Some(Tree::Array(levels))
                    && levels.len() == criteria@.len() && forall|i: int|
                    0 <= i < levels.len() ==> #[trigger] levels[i] == criteria@[i].tree()
            },
        },
        name != "type"@ && name != "instructions"@ && name != "criteria"@ ==> question.wire().field(
            name,
        ) is None,
        question.wire()->Object_0.len() <= 3,
{
    reveal_strlit("type");
    reveal_strlit("instructions");
    reveal_strlit("criteria");
    assert("type"@.len() == 4 && "instructions"@.len() == 12 && "criteria"@.len() == 8);
    let fields = question.wire()->Object_0;
    assert(fields[0].0 == "type"@ && fields[1].0 == "instructions"@);
    if fields.len() > 2 {
        assert(fields[2].0 == "criteria"@);
        lemma_field_index(fields, "criteria"@, 2);
    } else {
        lemma_field_index(fields, "criteria"@, 2);
    }
    lemma_field_index(fields, "type"@, 0);
    lemma_field_index(fields, "instructions"@, 1);
    if name != "type"@ && name != "instructions"@ && name != "criteria"@ {
        lemma_field_index(fields, name, fields.len() as int);
    }
}

/// Every option of a choice is sent under its name, with its description as it
/// is or `null` without one, and no other name is; the names come in their
/// order.
pub proof fn law_options_wire(options: TextMap<Option<Description>>, name: Seq<char>)
    requires
        keys_increase(options.entries()),
    ensures
        options_wire(options.entries()) is Object,
        options@.contains_key(name) ==> options_wire(options.entries()).field(name) == Some(
            match options@[name] {
                Some(description) => description.tree(),
                None => Tree::Null,
            },
        ),
        !options@.contains_key(name) ==> options_wire(options.entries()).field(name) is None,
        names_increase(options_wire(options.entries())->Object_0),
{
    let entries = options.entries();
    let fields = options_wire(entries)->Object_0;
    lemma_map_of_keys(entries);
    lemma_increasing_distinct(entries);
    lemma_map_of_values(entries);
    law_field_is_the_first_of_its_name(options_wire(entries), name);
    assert(options@.contains_key(name) <==> has_key(entries, name));
    if has_key(entries, name) {
        let i = choose|i: int| 0 <= i < entries.len() && #[trigger] entries[i].0@ == name;
        assert forall|j: int| 0 <= j < i implies (#[trigger] fields[j]).0 != name by {
            assert(entries[j].0@ != entries[i].0@);
        }
        assert(fields[i].0 == name);
        lemma_field_index(fields, name, i);
        assert(options@[entries[i].0@] == entries[i].1);
    } else {
        assert forall|j: int| 0 <= j < fields.len() implies (#[trigger] fields[j]).0 != name by {
            assert(fields[j].0 == entries[j].0@);
        }
        lemma_field_index(fields, name, fields.len() as int);
    }
    assert forall|i: int, j: int| 0 <= i < j < fields.len() implies text_before(
        (#[trigger] fields[i]).0,
        (#[trigger] fields[j]).0,
    ) by {
        assert(text_before(entries[i].0@, entries[j].0@));
    }
}

// ---------------------------------------------------------------------------
// What is accepted
// ---------------------------------------------------------------------------

/// A description is a text that is not blank, an object or an array, or `null`
/// where that is allowed. Anything else is refused with what it is and what is
/// wrong with it.
pub proof fn law_descriptions(description: Tree, allow_null: bool, what: Seq<char>)
    ensures
        description_fault(description, allow_null, what) is None <==> match description {
            Tree::Text(text) => !is_blank(text),
            Tree::Object(_) => true,
            Tree::Array(_) => true,
            Tree::Null => allow_null,
            _ => false,
        },
        description_fault(description, allow_null, what) matches Some(fault) ==> match description {
            Tree::Null => fault == what + " must not be null"@,
            Tree::Text(_) => fault == what + " must not be empty"@,
            Tree::Bool(b) => fault == what + " must be a string, object, or array, got "@ + (if b {
                "true"@
            } else {
                "false"@
            }),
            Tree::Number(text) => fault == what + " must be a string, object, or array, got "@ + text,
            _ => false,
        },
{
}

/// A yes/no question asks what it was given, and is refused exactly when its
/// instructions are.
pub proof fn law_noul_question(instructions: Tree)
    ensures
        match description_fault(instructions, false, "instructions"@) {
            None => noul_question(instructions) matches Ok(QuestionView::Noul {
                instructions: asked,
                criteria,
            }) && asked == instructions && criteria is None,
            Some(fault) => noul_question(instructions) == Err::<QuestionView, Seq<char>>(fault),
        },
{
}

/// Telling what yes means, or what no means, changes that and nothing else. A
/// description that is none is refused, and so is any description of a question
/// that is not a yes/no question.
pub proof fn law_criteria_are_told(question: QuestionView, description: Tree)
    ensures
        match (description_fault(description, false, "criteria description"@), question) {
            (Some(fault), _) => with_true(question, description) == Err::<QuestionView, Seq<char>>(
                fault,
            ) && with_false(question, description) == Err::<QuestionView, Seq<char>>(fault),
            (None, QuestionView::Noul { instructions, criteria }) => {
                let before = match criteria {
                    Some(criteria) => criteria,
                    None => NoulCriteriaView { true_description: None, false_description: None },
                };
                &&& with_true(question, description) == Ok::<QuestionView, Seq<char>>(
                    QuestionView::Noul {
                        instructions,
                        criteria: Some(
                            NoulCriteriaView { true_description: Some(description), ..before },
                        ),
                    },
                )
                &&& with_false(question, description) == Ok::<QuestionView, Seq<char>>(
                    QuestionView::Noul {
                        instructions,
                        criteria: Some(
                            NoulCriteriaView { false_description: Some(description), ..before },
                        ),
                    },
                )
            },
            (None, _) => with_true(question, description) == Err::<QuestionView, Seq<char>>(
                "criteria_true is only valid on noul questions"@,
            ) && with_false(question, description) == Err::<QuestionView, Seq<char>>(
                "criteria_false is only valid on noul questions"@,
            ),
        },
{
}

/// Options have no fault exactly when none has a blank name or a description
/// that is refused, and else the fault is that of the first one with one.
pub proof fn law_first_option_fault(options: Seq<(Seq<char>, Option<Tree>)>)
    ensures
        match first_option_fault(options) {
            None => forall|i: int|
                0 <= i < options.len() ==> !is_blank((#[trigger] options[i]).0) && (
                options[i].1 matches Some(tree) ==> description_fault(
                    tree,
                    false,
                    "option descriptions"@,
                ) is None),
            Some(fault) => exists|i: int|
                {
                    &&& 0 <= i < options.len()
                    &&& if is_blank((#[trigger] options[i]).0) {
                        fault == "option names must not be empty"@
                    } else {
                        options[i].1 matches Some(tree) && description_fault(
                            tree,
                            false,
                            "option descriptions"@,
                        ) == Some(fault)
                    }
                    &&& first_option_fault(options.take(i)) is None
                },
        },
    decreases options.len(),
{
    if options.len() > 0 {
        let init = options.drop_last();
        let last = options.len() - 1;
        law_first_option_fault(init);
        assert(options.take(last) =~= init);
        if let Some(fault) = first_option_fault(init) {
            let i = choose|i: int|
                {
                    &&& 0 <= i < init.len()
                    &&& if is_blank((#[trigger] init[i]).0) {
                        fault == "option names must not be empty"@
                    } else {
                        init[i].1 matches Some(tree) && description_fault(
                            tree,
                            false,
                            "option descriptions"@,
                        ) == Some(fault)
                    }
                    &&& first_option_fault(init.take(i)) is None
                };
            assert(init.take(i) =~= options.take(i));
            assert(options[i] == init[i]);
        } else if option_fault(options.last().0, options.last().1) is Some {
            assert(options[last] == options.last());
        } else {
            assert forall|i: int| 0 <= i < options.len() implies !is_blank(
                (#[trigger] options[i]).0,
            ) && (options[i].1 matches Some(tree) ==> description_fault(
                tree,
                false,
                "option descriptions"@,
            ) is None) by {
                if i < last {
                    assert(init[i] == options[i]);
                }
            }
        }
    }
}

/// A choice is accepted exactly when its instructions are, every option has a
/// name of its own that is not blank and a description that is accepted or
/// none, and there are 1 to 255 of them. It then asks for the options that were
/// given, each described as it was, and for no other.
pub proof fn law_choice_is_accepted(instructions: Tree, options: Seq<(Seq<char>, Option<Tree>)>)
    ensures
        choice_question(instructions, options) is Ok <==> {
            &&& description_fault(instructions, false, "instructions"@) is None
            &&& 1 <= options.len() <= 255
            &&& forall|i: int|
                0 <= i < options.len() ==> !is_blank((#[trigger] options[i]).0) && (
                options[i].1 matches Some(tree) ==> description_fault(
                    tree,
                    false,
                    "option descriptions"@,
                ) is None)
            &&& forall|i: int, j: int|
                0 <= i < j < options.len() ==> (#[trigger] options[i]).0 != (#[trigger] options[j]).0
        },
        choice_question(instructions, options) matches Ok(question) ==> {
            &&& question matches QuestionView::Choice { instructions: asked, criteria }
            &&& asked == instructions
            &&& forall|i: int|
                0 <= i < options.len() ==> criteria.contains_key((#[trigger] options[i]).0)
                    && criteria[options[i].0] == options[i].1
            &&& forall|name: Seq<char>| #[trigger]
                criteria.contains_key(name) ==> exists|i: int|
                    0 <= i < options.len() && (#[trigger] options[i]).0 == name
        },
{
    law_first_option_fault(options);
    if names_distinct(options) {
        let criteria = pairs_map(options);
        assert forall|i: int| 0 <= i < options.len() implies criteria.contains_key(
            (#[trigger] options[i]).0,
        ) && criteria[options[i].0] == options[i].1 by {
            law_last_pair_counts(options, options[i].0);
            assert forall|j: int| i < j < options.len() implies (#[trigger] options[j]).0
                != options[i].0 by {
                assert(options[i].0 != options[j].0);
            }
        }
        assert forall|name: Seq<char>| #[trigger] criteria.contains_key(name) implies exists|i: int|
            0 <= i < options.len() && (#[trigger] options[i]).0 == name by {
            law_last_pair_counts(options, name);
        }
    }
}

/// What a refused choice is answered: what is wrong with the instructions, else
/// with the first option, else that there is none, that a name comes twice, or
/// that there are too many.
pub proof fn law_choice_is_refused(instructions: Tree, options: Seq<(Seq<char>, Option<Tree>)>)
    requires
        choice_question(instructions, options) is Err,
    ensures
        ({
            let fault = choice_question(instructions, options)->Err_0;
            match (
                description_fault(instructions, false, "instructions"@),
                first_option_fault(options),
            ) {
                (Some(wrong), _) => fault == wrong,
                (None, Some(wrong)) => fault == wrong,
                (None, None) => {
                    ||| options.len() == 0 && fault == "a choice question needs at least one option"@
                    ||| options.len() > 0 && !names_distinct(options) && fault
                        == "duplicate option name in criteria"@
                    ||| options.len() > 255 && names_distinct(options) && fault
                        == "a choice question accepts at most 255 options"@
                },
            }
        }),
{
}

/// Levels have no fault exactly when each is accepted, and else the fault is
/// that of the first one with one, which it names by its number from 0 on.
pub proof fn law_first_level_fault(levels: Seq<Tree>)
    ensures
        match first_level_fault(levels) {
            None => forall|i: int|
                0 <= i < levels.len() ==> description_fault(
                    #[trigger] levels[i],
                    false,
                    "score level "@ + decimal(i as nat),
                ) is None,
            Some(fault) => exists|i: int|
                {
                    &&& 0 <= i < levels.len()
                    &&& description_fault(
                        #[trigger] levels[i],
                        false,
                        "score level "@ + decimal(i as nat),
                    ) == Some(fault)
                    &&& first_level_fault(levels.take(i)) is None
                },
        },
    decreases levels.len(),
{
    if levels.len() > 0 {
        let init = levels.drop_last();
        let last = levels.len() - 1;
        law_first_level_fault(init);
        assert(levels.take(last) =~= init);
        assert(levels[last] == levels.last());
        if let Some(fault) = first_level_fault(init) {
            let i = choose|i: int|
                {
                    &&& 0 <= i < init.len()
                    &&& description_fault(
                        #[trigger] init[i],
                        false,
                        "score level "@ + decimal(i as nat),
                    ) == Some(fault)
                    &&& first_level_fault(init.take(i)) is None
                };
            assert(init.take(i) =~= levels.take(i));
            assert(levels[i] == init[i]);
        } else if first_level_fault(levels) is None {
            assert forall|i: int| 0 <= i < levels.len() implies description_fault(
                #[trigger] levels[i],
                false,
                "score level "@ + decimal(i as nat),
            ) is None by {
                if i < last {
                    assert(init[i] == levels[i]);
                }
            }
        }
    }
}

/// A rating is accepted exactly when its instructions and each of its 2 to 10
/// levels are, and then asks along the levels that were given, in their order.
pub proof fn law_score_is_accepted(instructions: Tree, levels: Seq<Tree>)
    ensures
        score_question(instructions, levels) is Ok <==> {
            &&& description_fault(instructions, false, "instructions"@) is None
            &&& 2 <= levels.len() <= 10
            &&& forall|i: int|
                0 <= i < levels.len() ==> description_fault(
                    #[trigger] levels[i],
                    false,
                    "score level "@ + decimal(i as nat),
                ) is None
        },
        match score_question(instructions, levels) {
            Ok(question) => question == (QuestionView::Score { instructions, criteria: levels }),
            Err(fault) => match (
                description_fault(instructions, false, "instructions"@),
                first_level_fault(levels),
            ) {
                (Some(wrong), _) => fault == wrong,
                (None, Some(wrong)) => fault == wrong,
                (None, None) => fault == "a score question needs between 2 and 10 levels, got "@
                    + decimal(levels.len()),
            },
        },
{
    law_first_level_fault(levels);
}

// ---------------------------------------------------------------------------
// What questions ask
// ---------------------------------------------------------------------------

/// What values say is what each of them says, in their order.
pub proof fn law_lists_say(
    values: Seq<Json>,
    options: Seq<(String, Option<Json>)>,
    described_options: Seq<(String, Json)>,
)
    ensures
        trees(values).len() == values.len(),
        forall|i: int| 0 <= i < values.len() ==> #[trigger] trees(values)[i] == values[i].tree(),
        option_views(options).len() == options.len(),
        forall|i: int|
            0 <= i < options.len() ==> (#[trigger] option_views(options)[i]).0 == options[i].0@
                && match options[i].1 {
                Some(description) => option_views(options)[i].1 == Some(description.tree()),
                None => option_views(options)[i].1 is None,
            },
        described_views(described_options).len() == described_options.len(),
        forall|i: int|
            0 <= i < described_options.len() ==> #[trigger] described_views(described_options)[i]
                == (described_options[i].0@, Some(described_options[i].1.tree())),
{
}

/// A question asks with the instructions and the criteria that it holds.
pub proof fn law_questions_ask(question: Question)
    ensures
        match question {
            Question::Noul { instructions, criteria } => {
                &&& question@ matches QuestionView::Noul { instructions: asked, criteria: told }
                &&& asked == instructions.tree()
                &&& match criteria {
                    None => told is None,
                    Some(criteria) => told matches Some(told) && told.true_description
                        == optional_tree(criteria.true_description) && told.false_description
                        == optional_tree(criteria.false_description),
                }
            },
            Question::Choice { instructions, criteria } => {
                &&& question@ matches QuestionView::Choice { instructions: asked, criteria: told }
                &&& asked == instructions.tree()
                &&& told.dom() == criteria@.dom()
                &&& forall|name: Seq<char>| #[trigger]
                    criteria@.contains_key(name) ==> told[name] == optional_tree(criteria@[name])
            },
            Question::Score { instructions, criteria } => {
                &&& question@ matches QuestionView::Score { instructions: asked, criteria: told }
                &&& asked == instructions.tree()
                &&& told.len() == criteria@.len()
                &&& forall|i: int|
                    0 <= i < told.len() ==> #[trigger] told[i] == criteria@[i].tree()
            },
        },
{
    if let Question::Choice { criteria, .. } = question {
        assert(described(criteria@).dom() =~= criteria@.dom());
    }
}

/// A question comes back exactly where one is expected, and asks what is
/// expected; else the request is invalid, with the message that is expected.
pub proof fn law_question_results(
    r: Result<Question, Error>,
    expected: Result<QuestionView, Seq<char>>,
)
    requires
        question_result(r, expected),
    ensures
        r is Ok <==> expected is Ok,
        r matches Ok(question) ==> question@ == expected->Ok_0,
        r matches Err(error) ==> error matches Error::InvalidRequest(message) && message@
            == expected->Err_0,
{
}

} // verus!
