//! Answers and the other results of the API.

use std::collections::BTreeMap;

use vstd::prelude::*;
use vstd::string::*;

use crate::double::Double;
use crate::json::{Json, Tree};
use crate::text::{join3, same_text};
use crate::text_map::TextMap;
use crate::typesafe::question::{law_wire_says_the_type, Description, Question};

verus! {

/// A System One response: the model that answered, one [`Answer`] per
/// question, and token usage.
#[derive(Debug, Clone)]
pub struct SystemOneResult {
    /// The model that performed the evaluation (a versioned ID when the
    /// request used an alias).
    pub model: String,
    /// Answers keyed by the question ids from the request.
    pub answers: TextMap<Answer>,
    /// Token usage for the request. Input tokens are charged; output tokens
    /// are free.
    pub usage: Usage,
}

/// Token usage for a request.
#[derive(Debug, Clone, Copy, PartialEq, Eq, Structural)]
pub struct Usage {
    /// Number of input tokens charged for the request.
    pub input_tokens: u64,
    /// Number of output tokens (free of charge).
    pub output_tokens: u64,
}

/// The typed answer to a [`Question`], carrying the same `type` as its
/// question.
#[derive(Debug, Clone, PartialEq)]
pub enum Answer {
    /// The answer to a [`Question::noul`].
    Noul(NoulAnswer),
    /// The answer to a [`Question::choice`].
    Choice(ChoiceAnswer),
    /// The answer to a [`Question::score`].
    Score(ScoreAnswer),
}

/// The answer to a [`Question::noul`]: the probability of "yes".
#[derive(Debug, Clone, PartialEq)]
pub struct NoulAnswer {
    /// The yes/no answer on a scale from 0 (no) to 1 (yes).
    pub noul: Double,
}

/// The answer to a [`Question::choice`]: the chosen option plus the full
/// probability distribution and a confidence value.
#[derive(Debug, Clone, PartialEq)]
pub struct ChoiceAnswer {
    /// The highest-probability option.
    pub choice: String,
    /// Every option mapped to its probability (floats that sum to 1).
    pub probabilities: TextMap<Double>,
    /// How certain the model is, derived from how `probabilities` is spread;
    /// 0 to 1.
    pub confidence: Double,
}

/// The answer to a [`Question::score`]: a position along the levels, which
/// can land between two levels.
#[derive(Debug, Clone, PartialEq)]
pub struct ScoreAnswer {
    /// The probability-weighted position across the levels, from 0 to the
    /// top level number (`criteria.len() - 1` on the question).
    pub score: Double,
    /// Each level number mapped back to its description.
    pub legend: BTreeMap<u32, Description>,
    /// Each level mapped to its probability (floats that sum to 1).
    pub probabilities: BTreeMap<u32, Double>,
    /// How certain the model is, derived from how `probabilities` is spread;
    /// 0 to 1.
    pub confidence: Double,
}

/// A model or alias the account can send in the `model` field.
#[derive(Debug, Clone, PartialEq, Eq)]
pub struct ModelCard {
    /// The model ID or alias, as accepted by the `model` field.
    pub name: String,
    /// What the model is for.
    pub description: String,
    /// When the model or alias was released.
    pub release_date: String,
}

/// The type of an answer, as its `type` field says.
#[derive(Debug, Clone, Copy, PartialEq, Eq, Structural)]
pub enum AnswerKind {
    Noul,
    Choice,
    Score,
}

impl Answer {
    /// The yes-probability if this is a noul answer.
    pub open spec fn noul_value(self) -> Option<Double> {
        match self {
            Answer::Noul(answer) => Some(answer.noul),
            _ => None,
        }
    }

    /// The yes-probability if this is a noul answer.
    pub fn as_noul(&self) -> (r: Option<Double>)
        ensures
            r == self.noul_value(),
            match *self {
                Answer::Noul(answer) => r == Some(answer.noul),
                _ => r is None,
            },
    {
        match self {
            Answer::Noul(answer) => Some(answer.noul),
            _ => None,
        }
    }

    /// The full answer if this is a choice answer.
    pub fn as_choice(&self) -> (r: Option<&ChoiceAnswer>)
        ensures
            match r {
                Some(answer) => *self == Answer::Choice(*answer),
                None => !(self is Choice),
            },
    {
        match self {
            Answer::Choice(answer) => Some(answer),
            _ => None,
        }
    }

    /// The full answer if this is a score answer.
    pub fn as_score(&self) -> (r: Option<&ScoreAnswer>)
        ensures
            match r {
                Some(answer) => *self == Answer::Score(*answer),
                None => !(self is Score),
            },
    {
        match self {
            Answer::Score(answer) => Some(answer),
            _ => None,
        }
    }
}

impl ChoiceAnswer {
    /// The probability of a specific option.
    pub fn probability(&self, option: &str) -> (r: Option<Double>)
        ensures
            r == (if self.probabilities@.contains_key(option@) {
                Some(self.probabilities@[option@])
            } else {
                None
            }),
    {
        match self.probabilities.get(option) {
            Some(probability) => Some(*probability),
            None => None,
        }
    }
}

impl SystemOneResult {
    /// The yes-probability of the answer to a question id.
    pub open spec fn noul_value(self, id: Seq<char>) -> Option<Double> {
        if self.answers@.contains_key(id) {
            self.answers@[id].noul_value()
        } else {
            None
        }
    }

    /// The answer for a question id.
    pub fn answer(&self, id: &str) -> (r: Option<&Answer>)
        ensures
            r == (if self.answers@.contains_key(id@) {
                Some(&self.answers@[id@])
            } else {
                None
            }),
    {
        self.answers.get(id)
    }

    /// The yes-probability of a noul question's answer, if `id` names a noul
    /// question.
    pub fn noul(&self, id: &str) -> (r: Option<Double>)
        ensures
            r == self.noul_value(id@),
            match r {
                Some(probability) => self.answers@.contains_key(id@) && self.answers@[id@]
                    == Answer::Noul(NoulAnswer { noul: probability }),
                None => !(self.answers@.contains_key(id@) && self.answers@[id@] is Noul),
            },
    {
        match self.answers.get(id) {
            Some(answer) => answer.as_noul(),
            None => None,
        }
    }

    /// A choice question's answer, if `id` names a choice question.
    pub fn choice(&self, id: &str) -> (r: Option<&ChoiceAnswer>)
        ensures
            match r {
                Some(answer) => self.answers@.contains_key(id@) && self.answers@[id@]
                    == Answer::Choice(*answer),
                None => !(self.answers@.contains_key(id@) && self.answers@[id@] is Choice),
            },
    {
        match self.answers.get(id) {
            Some(answer) => answer.as_choice(),
            None => None,
        }
    }

    /// A score question's answer, if `id` names a score question.
    pub fn score(&self, id: &str) -> (r: Option<&ScoreAnswer>)
        ensures
            match r {
                Some(answer) => self.answers@.contains_key(id@) && self.answers@[id@]
                    == Answer::Score(*answer),
                None => !(self.answers@.contains_key(id@) && self.answers@[id@] is Score),
            },
    {
        match self.answers.get(id) {
            Some(answer) => answer.as_score(),
            None => None,
        }
    }
}

/// The type that the `type` field of an answer says, or what is wrong with it.
pub open spec fn kind_in(answer: Tree) -> Result<AnswerKind, Seq<char>> {
    match answer.field("type"@) {
        Some(Tree::Text(name)) => if name == "noul"@ {
            Ok(AnswerKind::Noul)
        } else if name == "choice"@ {
            Ok(AnswerKind::Choice)
        } else if name == "score"@ {
            Ok(AnswerKind::Score)
        } else {
            Err("unknown answer type `"@ + name + "`"@)
        },
        _ => Err("answer is missing a string `type` field"@),
    }
}

/// The type of an answer, from its `type` field. Which fields the answer has
/// beside it goes by that type.
pub fn answer_kind(answer: &Json) -> (r: Result<AnswerKind, String>)
    ensures
        match r {
            Ok(kind) => kind_in(answer.tree()) == Ok::<AnswerKind, Seq<char>>(kind),
            Err(message) => kind_in(answer.tree()) == Err::<AnswerKind, Seq<char>>(message@),
        },
{
    let name = match answer.get("type") {
        Some(value) => match value.as_str() {
            Some(name) => name,
            None => return Err("answer is missing a string `type` field".to_owned()),
        },
        None => return Err("answer is missing a string `type` field".to_owned()),
    };
    if same_text(name, "noul") {
        Ok(AnswerKind::Noul)
    } else if same_text(name, "choice") {
        Ok(AnswerKind::Choice)
    } else if same_text(name, "score") {
        Ok(AnswerKind::Score)
    } else {
        Err(join3("unknown answer type `", name, "`"))
    }
}

/// An answer that says the type its question says is read as an answer of the
/// kind that belongs to the question.
pub proof fn law_answer_carries_the_question_type(question: Question, answer: Tree)
    requires
        answer.field("type"@) == question.wire().field("type"@),
    ensures
        kind_in(answer) == Ok::<AnswerKind, Seq<char>>(
            match question {
                Question::Noul { .. } => AnswerKind::Noul,
                Question::Choice { .. } => AnswerKind::Choice,
                Question::Score { .. } => AnswerKind::Score,
            },
        ),
{
    law_wire_says_the_type(question);
    reveal_strlit("noul");
    reveal_strlit("choice");
    reveal_strlit("score");
    assert("noul"@.len() == 4 && "choice"@.len() == 6 && "score"@.len() == 5);
}

/// The probability that is read for an id is the one of its yes/no answer, bit
/// for bit, and there is none without such an answer.
pub proof fn law_probability_is_the_answer(result: SystemOneResult, id: Seq<char>)
    ensures
        match result.noul_value(id) {
            Some(probability) => result.answers@.contains_key(id) && result.answers@[id]
                == Answer::Noul(NoulAnswer { noul: probability }),
            None => !(result.answers@.contains_key(id) && result.answers@[id] is Noul),
        },
{
}

/// An answer is read by its `type`, which has to be the text `noul`, `choice`
/// or `score`; any other text is refused with the text, and so is an answer
/// without a text there.
pub proof fn law_answer_types(answer: Tree, name: Seq<char>)
    ensures
        answer.field("type"@) == Some(Tree::Text(name)) ==> {
            &&& kind_in(answer) == Ok::<AnswerKind, Seq<char>>(AnswerKind::Noul) <==> name
                == seq!['n', 'o', 'u', 'l']
            &&& kind_in(answer) == Ok::<AnswerKind, Seq<char>>(AnswerKind::Choice) <==> name
                == seq!['c', 'h', 'o', 'i', 'c', 'e']
            &&& kind_in(answer) == Ok::<AnswerKind, Seq<char>>(AnswerKind::Score) <==> name
                == seq!['s', 'c', 'o', 'r', 'e']
            &&& kind_in(answer) matches Err(fault) ==> fault == "unknown answer type `"@ + name
                + "`"@
        },
        !(answer.field("type"@) matches Some(Tree::Text(_))) ==> kind_in(answer) == Err::<
            AnswerKind,
            Seq<char>,
        >("answer is missing a string `type` field"@),
{
    reveal_strlit("noul");
    reveal_strlit("choice");
    reveal_strlit("score");
    assert("noul"@ =~= seq!['n', 'o', 'u', 'l']);
    assert("choice"@ =~= seq!['c', 'h', 'o', 'i', 'c', 'e']);
    assert("score"@ =~= seq!['s', 'c', 'o', 'r', 'e']);
    assert("noul"@.len() == 4 && "choice"@.len() == 6 && "score"@.len() == 5);
}

} // verus!
