//! The state behind the NCR form: what is selected, what is shown, and what the
//! labels say.

use vstd::prelude::*;
use vstd::string::*;

use crate::double::Double;
use crate::ncr::{match_views, DefectCodeView, MatchView, Suggestion};
use crate::text::{decimal, decimal_text, join3, optional, same_text};

verus! {

/// How many suggested codes to show before "Show all".
pub const VISIBLE_SUGGESTIONS: usize = 5;

/// A defect code suggested by the AI, as sent to the browser.
#[derive(Debug, PartialEq)]
pub struct SuggestedDefectCode {
    pub id: String,
    pub title: String,
    pub description: String,
    /// Whether the model auto-selected this code (confidence at or above the
    /// auto-select threshold).
    pub selected: bool,
    /// Confidence that this code matches the description, from 0 to 1.
    pub confidence: Double,
}

impl Clone for SuggestedDefectCode {
    fn clone(&self) -> (copy: Self)
        ensures
            copy == *self,
    {
        SuggestedDefectCode {
            id: self.id.clone(),
            title: self.title.clone(),
            description: self.description.clone(),
            selected: self.selected,
            confidence: self.confidence,
        }
    }
}

impl View for SuggestedDefectCode {
    type V = MatchView;

    open spec fn view(&self) -> MatchView {
        MatchView {
            code: DefectCodeView {
                id: self.id@,
                title: self.title@,
                description: self.description@,
            },
            selected: self.selected,
            confidence: self.confidence,
        }
    }
}

/// What suggested codes say.
pub open spec fn code_views(codes: Seq<SuggestedDefectCode>) -> Seq<MatchView> {
    Seq::new(codes.len(), |i: int| codes[i]@)
}

/// The suggested codes of a suggestion, best match first.
pub fn suggested_codes(suggestion: Suggestion) -> (r: Vec<SuggestedDefectCode>)
    ensures
        code_views(r@) == match_views(suggestion.defect_codes@),
        r@.len() == suggestion.defect_codes@.len(),
        forall|i: int|
            0 <= i < r@.len() ==> {
                let (shown, given) = (#[trigger] r@[i], suggestion.defect_codes@[i]);
                &&& shown.id == given.defect_code.id
                &&& shown.title == given.defect_code.title
                &&& shown.description == given.defect_code.description
                &&& shown.selected == given.selected
                &&& shown.confidence == given.confidence
            },
{
    let ghost given = suggestion.defect_codes@;
    let mut codes: Vec<SuggestedDefectCode> = Vec::new();
    for item in it: suggestion.defect_codes
        invariant
            it.seq() == given,
            codes@.len() == it.index(),
            forall|i: int| 0 <= i < codes@.len() ==> (#[trigger] codes@[i])@ == given[i]@,
            forall|i: int|
                0 <= i < codes@.len() ==> {
                    let (shown, item) = (#[trigger] codes@[i], given[i]);
                    &&& shown.id == item.defect_code.id
                    &&& shown.title == item.defect_code.title
                    &&& shown.description == item.defect_code.description
                    &&& shown.selected == item.selected
                    &&& shown.confidence == item.confidence
                },
    {
        codes.push(
            SuggestedDefectCode {
                id: item.defect_code.id,
                title: item.defect_code.title,
                description: item.defect_code.description,
                selected: item.selected,
                confidence: item.confidence,
            },
        );
    }
    assert(code_views(codes@) =~= match_views(given));
    codes
}

// ---------------------------------------------------------------------------
// The form
// ---------------------------------------------------------------------------

/// NCR Form state
#[derive(Debug, Clone)]
pub struct NcrForm {
    pub date: String,
    pub time: String,
    pub location: String,
    pub description: String,
    pub selected_defects: Vec<String>,
    pub suspected_cause: String,
    pub affected_part: String,
    pub severity: String,
    pub recommended_action: String,
}

/// What an [`NcrForm`] holds.
pub struct NcrFormView {
    pub date: Seq<char>,
    pub time: Seq<char>,
    pub location: Seq<char>,
    pub description: Seq<char>,
    pub selected_defects: Seq<Seq<char>>,
    pub suspected_cause: Seq<char>,
    pub affected_part: Seq<char>,
    pub severity: Seq<char>,
    pub recommended_action: Seq<char>,
}

/// What texts say.
pub open spec fn texts(values: Seq<String>) -> Seq<Seq<char>> {
    Seq::new(values.len(), |i: int| values[i]@)
}

impl View for NcrForm {
    type V = NcrFormView;

    open spec fn view(&self) -> NcrFormView {
        NcrFormView {
            date: self.date@,
            time: self.time@,
            location: self.location@,
            description: self.description@,
            selected_defects: texts(self.selected_defects@),
            suspected_cause: self.suspected_cause@,
            affected_part: self.affected_part@,
            severity: self.severity@,
            recommended_action: self.recommended_action@,
        }
    }
}

/// The ids without one of them, wherever it occurs.
pub open spec fn without(ids: Seq<Seq<char>>, id: Seq<char>) -> Seq<Seq<char>>
    decreases ids.len(),
{
    if ids.len() == 0 {
        ids
    } else if ids.last() == id {
        without(ids.drop_last(), id)
    } else {
        without(ids.drop_last(), id).push(ids.last())
    }
}

/// The ids with one of them taken out where it is among them, else put at the
/// end.
pub open spec fn toggled(ids: Seq<Seq<char>>, id: Seq<char>) -> Seq<Seq<char>> {
    if ids.contains(id) {
        without(ids, id)
    } else {
        ids.push(id)
    }
}

/// The ids of the codes that the model selected, in order.
pub open spec fn selected_ids(codes: Seq<MatchView>) -> Seq<Seq<char>>
    decreases codes.len(),
{
    if codes.len() == 0 {
        Seq::empty()
    } else if codes.last().selected {
        selected_ids(codes.drop_last()).push(codes.last().code.id)
    } else {
        selected_ids(codes.drop_last())
    }
}

/// The place of the first code with this id, or the number of codes.
pub open spec fn code_index(codes: Seq<MatchView>, id: Seq<char>) -> nat
    decreases codes.len(),
{
    if codes.len() == 0 {
        0
    } else if code_index(codes.drop_last(), id) < codes.len() - 1 {
        code_index(codes.drop_last(), id)
    } else if codes.last().code.id == id {
        (codes.len() - 1) as nat
    } else {
        codes.len()
    }
}

proof fn lemma_code_index(codes: Seq<MatchView>, id: Seq<char>, i: int)
    requires
        0 <= i <= codes.len(),
        i < codes.len() ==> codes[i].code.id == id,
        forall|j: int| 0 <= j < i ==> (#[trigger] codes[j]).code.id != id,
    ensures
        code_index(codes, id) == i,
    decreases codes.len(),
{
    if codes.len() > 0 {
        let init = codes.drop_last();
        if i < init.len() {
            lemma_code_index(init, id, i);
        } else {
            lemma_code_index(init, id, init.len() as int);
            if i == codes.len() {
                assert(codes[codes.len() - 1].code.id != id);
            }
        }
    }
}

/// The codes that `ids` name, in the order of `ids`. An id that names none is
/// passed over.
pub open spec fn named_codes(ids: Seq<Seq<char>>, codes: Seq<MatchView>) -> Seq<MatchView>
    decreases ids.len(),
{
    if ids.len() == 0 {
        Seq::empty()
    } else {
        let i = code_index(codes, ids.last());
        if i < codes.len() {
            named_codes(ids.drop_last(), codes).push(codes[i as int])
        } else {
            named_codes(ids.drop_last(), codes)
        }
    }
}

/// The form as it is first shown.
pub open spec fn first_form() -> NcrFormView {
    NcrFormView {
        date: "Sept 19, 2026"@,
        time: "07:24 PM"@,
        location: "Line 3 - Assembly"@,
        description: "During final inspection, found a scratch on the outer surface of the metal housing. Scratch is about 3 cm long and visible without magnification."@,
        selected_defects: Seq::empty(),
        suspected_cause: "Handling / Transportation"@,
        affected_part: "Housing (Metal)"@,
        severity: "Medium"@,
        recommended_action: "Rework / Refinish"@,
    }
}

impl Default for NcrForm {
    /// The form as it is first shown.
    fn default() -> (r: Self)
        ensures
            r@ == first_form(),
            r.date@ == "Sept 19, 2026"@,
            r.time@ == "07:24 PM"@,
            r.location@ == "Line 3 - Assembly"@,
            r.description@
                == "During final inspection, found a scratch on the outer surface of the metal housing. Scratch is about 3 cm long and visible without magnification."@,
            r.selected_defects@.len() == 0,
            r.suspected_cause@ == "Handling / Transportation"@,
            r.affected_part@ == "Housing (Metal)"@,
            r.severity@ == "Medium"@,
            r.recommended_action@ == "Rework / Refinish"@,
    {
        let form = NcrForm {
            date: "Sept 19, 2026".to_owned(),
            time: "07:24 PM".to_owned(),
            location: "Line 3 - Assembly".to_owned(),
            description: "During final inspection, found a scratch on the outer surface of the metal housing. Scratch is about 3 cm long and visible without magnification.".to_owned(),
            selected_defects: Vec::new(),
            suspected_cause: "Handling / Transportation".to_owned(),
            affected_part: "Housing (Metal)".to_owned(),
            severity: "Medium".to_owned(),
            recommended_action: "Rework / Refinish".to_owned(),
        };
        assert(texts(form.selected_defects@) =~= Seq::empty());
        form
    }
}

impl NcrForm {
    /// Whether a defect code is selected.
    pub fn is_selected(&self, defect_id: &str) -> (r: bool)
        ensures
            r == self@.selected_defects.contains(defect_id@),
    {
        let ghost ids = texts(self.selected_defects@);
        let mut i: usize = 0;
        while i < self.selected_defects.len()
            invariant
                i <= self.selected_defects@.len(),
                ids == texts(self.selected_defects@),
                forall|k: int| 0 <= k < i ==> #[trigger] ids[k] != defect_id@,
            decreases self.selected_defects@.len() - i,
        {
            assert(ids[i as int] == self.selected_defects@[i as int]@);
            if same_text(self.selected_defects[i].as_str(), defect_id) {
                return true;
            }
            i = i + 1;
        }
        false
    }

    /// Take a defect code out of the selection.
    pub fn remove_defect(&mut self, defect_id: &str)
        ensures
            final(self)@ == (NcrFormView {
                selected_defects: without(old(self)@.selected_defects, defect_id@),
                ..old(self)@
            }),
    {
        let mut taken: Vec<String> = Vec::new();
        core::mem::swap(&mut taken, &mut self.selected_defects);
        let ghost given = taken@;
        let ghost ids = texts(given);
        let mut kept: Vec<String> = Vec::new();
        assert(ids.take(0) =~= Seq::empty());
        assert(texts(kept@) =~= Seq::empty());
        for id in it: taken
            invariant
                it.seq() == given,
                ids == texts(given),
                texts(kept@) == without(ids.take(it.index() as int), defect_id@),
        {
            proof {
                let n = it.index() as int;
                assert(ids.take(n + 1).drop_last() =~= ids.take(n));
                assert(ids.take(n + 1).last() == id@);
            }
            if !same_text(id.as_str(), defect_id) {
                let ghost before = kept@;
                kept.push(id);
                assert(texts(kept@) =~= texts(before).push(id@));
            }
        }
        assert(ids.take(ids.len() as int) =~= ids);
        self.selected_defects = kept;
    }

    /// Select a defect code, or take it out of the selection where it is
    /// selected.
    pub fn toggle_defect(&mut self, defect_id: String)
        ensures
            final(self)@ == (NcrFormView {
                selected_defects: toggled(old(self)@.selected_defects, defect_id@),
                ..old(self)@
            }),
    {
        if self.is_selected(defect_id.as_str()) {
            self.remove_defect(defect_id.as_str());
        } else {
            let ghost before = self.selected_defects@;
            self.selected_defects.push(defect_id);
            assert(texts(self.selected_defects@) =~= texts(before).push(defect_id@));
        }
    }

    /// Select the codes that the model is confident about, and no others.
    pub fn select_suggested(&mut self, codes: &Vec<SuggestedDefectCode>)
        ensures
            final(self)@ == (NcrFormView {
                selected_defects: selected_ids(code_views(codes@)),
                ..old(self)@
            }),
    {
        let ghost all = code_views(codes@);
        let mut selected: Vec<String> = Vec::new();
        let mut i: usize = 0;
        assert(all.take(0) =~= Seq::empty());
        assert(texts(selected@) =~= Seq::empty());
        while i < codes.len()
            invariant
                i <= codes@.len(),
                all == code_views(codes@),
                texts(selected@) == selected_ids(all.take(i as int)),
            decreases codes@.len() - i,
        {
            proof {
                assert(all.take(i + 1).drop_last() =~= all.take(i as int));
                assert(all.take(i + 1).last() == codes@[i as int]@);
            }
            if codes[i].selected {
                let ghost before = selected@;
                selected.push(codes[i].id.clone());
                assert(texts(selected@) =~= texts(before).push(codes@[i as int].id@));
            }
            i = i + 1;
        }
        assert(all.take(all.len() as int) =~= all);
        self.selected_defects = selected;
    }

    /// The suggested codes that are selected, in the order of their selection.
    pub fn selected_codes(&self, codes: &Vec<SuggestedDefectCode>) -> (r: Vec<SuggestedDefectCode>)
        ensures
            code_views(r@) == named_codes(self@.selected_defects, code_views(codes@)),
    {
        let ghost ids = texts(self.selected_defects@);
        let ghost all = code_views(codes@);
        let mut found: Vec<SuggestedDefectCode> = Vec::new();
        let mut i: usize = 0;
        assert(ids.take(0) =~= Seq::empty());
        assert(code_views(found@) =~= Seq::empty());
        while i < self.selected_defects.len()
            invariant
                i <= self.selected_defects@.len(),
                ids == texts(self.selected_defects@),
                all == code_views(codes@),
                code_views(found@) == named_codes(ids.take(i as int), all),
            decreases self.selected_defects@.len() - i,
        {
            proof {
                assert(ids.take(i + 1).drop_last() =~= ids.take(i as int));
                assert(ids.take(i + 1).last() == self.selected_defects@[i as int]@);
            }
            let place: usize = find_code(codes, self.selected_defects[i].as_str());
            if place < codes.len() {
                let ghost before = found@;
                found.push(codes[place].clone());
                assert(code_views(found@) =~= code_views(before).push(codes@[place as int]@));
            }
            i = i + 1;
        }
        assert(ids.take(ids.len() as int) =~= ids);
        found
    }

    /// Character count for description
    pub fn char_count(&self) -> (r: usize)
        ensures
            r == self@.description.len(),
    {
        self.description.as_str().unicode_len()
    }
}

/// The place of the first code with this id, or the number of codes.
fn find_code(codes: &Vec<SuggestedDefectCode>, id: &str) -> (r: usize)
    ensures
        r == code_index(code_views(codes@), id@),
{
    let ghost all = code_views(codes@);
    let mut i: usize = 0;
    while i < codes.len()
        invariant
            i <= codes@.len(),
            all == code_views(codes@),
            forall|k: int| 0 <= k < i ==> (#[trigger] all[k]).code.id != id@,
        decreases codes@.len() - i,
    {
        assert(all[i as int].code.id == codes@[i as int].id@);
        if same_text(codes[i].id.as_str(), id) {
            proof {
                lemma_code_index(all, id@, i as int);
            }
            return i;
        }
        i = i + 1;
    }
    proof {
        lemma_code_index(all, id@, all.len() as int);
    }
    i
}

/// Toggling a code changes whether it is selected, and no other code.
pub proof fn law_toggle_changes_one(ids: Seq<Seq<char>>, id: Seq<char>, other: Seq<char>)
    ensures
        toggled(ids, id).contains(id) == !ids.contains(id),
        other != id ==> toggled(ids, id).contains(other) == ids.contains(other),
{
    lemma_without(ids, id, id);
    lemma_without(ids, id, other);
    let pushed = ids.push(id);
    assert(pushed[ids.len() as int] == id);
    if ids.contains(other) {
        let i = choose|i: int| 0 <= i < ids.len() && ids[i] == other;
        assert(pushed[i] == other);
    }
    if pushed.contains(other) && other != id {
        let i = choose|i: int| 0 <= i < pushed.len() && pushed[i] == other;
        assert(ids[i] == other);
    }
}

/// Selecting a code and toggling it again leaves the selection as it was.
pub proof fn law_toggle_twice(ids: Seq<Seq<char>>, id: Seq<char>)
    requires
        !ids.contains(id),
    ensures
        toggled(toggled(ids, id), id) == ids,
{
    let pushed = ids.push(id);
    assert(pushed[ids.len() as int] == id);
    assert(pushed.drop_last() =~= ids);
    lemma_without_none(ids, id);
}

/// A code that was taken out is not selected, and every other code is as it
/// was.
pub proof fn law_remove_changes_one(ids: Seq<Seq<char>>, id: Seq<char>, other: Seq<char>)
    ensures
        !without(ids, id).contains(id),
        other != id ==> without(ids, id).contains(other) == ids.contains(other),
{
    lemma_without(ids, id, id);
    lemma_without(ids, id, other);
}

/// No code is selected twice, if none was.
pub proof fn law_toggle_keeps_distinct(ids: Seq<Seq<char>>, id: Seq<char>)
    requires
        ids.no_duplicates(),
    ensures
        toggled(ids, id).no_duplicates(),
{
    lemma_without_distinct(ids, id);
    if !ids.contains(id) {
        let pushed = ids.push(id);
        assert forall|i: int, j: int| 0 <= i < pushed.len() && 0 <= j < pushed.len() && i != j implies
            pushed[i] != pushed[j] by {
            if i < ids.len() && j < ids.len() {
                assert(ids[i] != ids[j]);
            } else if i < ids.len() {
                assert(ids.contains(ids[i]));
            } else {
                assert(ids.contains(ids[j]));
            }
        }
    }
}

proof fn lemma_without(ids: Seq<Seq<char>>, id: Seq<char>, other: Seq<char>)
    ensures
        without(ids, id).contains(other) == (ids.contains(other) && other != id),
    decreases ids.len(),
{
    if ids.len() > 0 {
        let init = ids.drop_last();
        lemma_without(init, id, other);
        let rest = without(init, id);
        if ids.contains(other) {
            let i = choose|i: int| 0 <= i < ids.len() && ids[i] == other;
            if i < init.len() {
                assert(init[i] == other);
            }
        }
        if init.contains(other) {
            let i = choose|i: int| 0 <= i < init.len() && init[i] == other;
            assert(ids[i] == other);
        }
        assert(ids[ids.len() - 1] == ids.last());
        let pushed = rest.push(ids.last());
        assert(pushed[rest.len() as int] == ids.last());
        if rest.contains(other) {
            let i = choose|i: int| 0 <= i < rest.len() && rest[i] == other;
            assert(pushed[i] == other);
        }
        if pushed.contains(other) {
            let i = choose|i: int| 0 <= i < pushed.len() && pushed[i] == other;
            if i < rest.len() {
                assert(rest[i] == other);
            }
        }
    }
}

proof fn lemma_without_none(ids: Seq<Seq<char>>, id: Seq<char>)
    requires
        !ids.contains(id),
    ensures
        without(ids, id) == ids,
    decreases ids.len(),
{
    if ids.len() > 0 {
        let init = ids.drop_last();
        assert(ids[ids.len() - 1] == ids.last());
        assert(!init.contains(id)) by {
            if init.contains(id) {
                let i = choose|i: int| 0 <= i < init.len() && init[i] == id;
                assert(ids[i] == id);
            }
        }
        lemma_without_none(init, id);
        assert(init.push(ids.last()) =~= ids);
    }
}

proof fn lemma_without_distinct(ids: Seq<Seq<char>>, id: Seq<char>)
    requires
        ids.no_duplicates(),
    ensures
        without(ids, id).no_duplicates(),
    decreases ids.len(),
{
    if ids.len() > 0 {
        let init = ids.drop_last();
        assert(init.no_duplicates()) by {
            assert forall|i: int, j: int| 0 <= i < init.len() && 0 <= j < init.len() && i != j implies
                init[i] != init[j] by {
                assert(ids[i] != ids[j]);
            }
        }
        lemma_without_distinct(init, id);
        let rest = without(init, id);
        lemma_without(init, id, ids.last());
        assert(!init.contains(ids.last())) by {
            if init.contains(ids.last()) {
                let i = choose|i: int| 0 <= i < init.len() && init[i] == ids.last();
                assert(ids[i] != ids[ids.len() - 1]);
            }
        }
        let pushed = rest.push(ids.last());
        assert forall|i: int, j: int| 0 <= i < pushed.len() && 0 <= j < pushed.len() && i != j implies
            pushed[i] != pushed[j] by {
            if i < rest.len() && j < rest.len() {
                assert(rest[i] != rest[j]);
            } else if i < rest.len() {
                assert(rest.contains(rest[i]));
            } else {
                assert(rest.contains(rest[j]));
            }
        }
    }
}

// ---------------------------------------------------------------------------
// What is shown
// ---------------------------------------------------------------------------

/// What the suggestions say, once there are some.
pub open spec fn optional_codes(codes: Option<Vec<SuggestedDefectCode>>) -> Option<Seq<MatchView>> {
    match codes {
        Some(codes) => Some(code_views(codes@)),
        None => None,
    }
}

/// The codes that are shown: all of them, or the first few.
pub open spec fn shown_codes(codes: Option<Seq<MatchView>>, show_all: bool) -> Seq<MatchView> {
    match codes {
        None => Seq::empty(),
        Some(codes) => if show_all || codes.len() <= VISIBLE_SUGGESTIONS {
            codes
        } else {
            codes.take(VISIBLE_SUGGESTIONS as int)
        },
    }
}

/// The suggested codes to show, all or before the "Show all" toggle.
pub fn visible_codes(codes: Option<Vec<SuggestedDefectCode>>, show_all: bool) -> (r: Vec<
    SuggestedDefectCode,
>)
    ensures
        code_views(r@) == shown_codes(optional_codes(codes), show_all),
{
    let codes = match codes {
        Some(codes) => codes,
        None => {
            let none: Vec<SuggestedDefectCode> = Vec::new();
            assert(code_views(none@) =~= Seq::empty());
            return none;
        },
    };
    if show_all || codes.len() <= VISIBLE_SUGGESTIONS {
        return codes;
    }
    let ghost all = code_views(codes@);
    let mut shown: Vec<SuggestedDefectCode> = Vec::new();
    let mut i: usize = 0;
    while i < VISIBLE_SUGGESTIONS
        invariant
            i <= VISIBLE_SUGGESTIONS < codes@.len(),
            shown@.len() == i,
            forall|k: int| 0 <= k < i ==> (#[trigger] shown@[k])@ == codes@[k]@,
        decreases VISIBLE_SUGGESTIONS - i,
    {
        shown.push(codes[i].clone());
        i = i + 1;
    }
    assert(code_views(shown@) =~= all.take(VISIBLE_SUGGESTIONS as int));
    shown
}

/// How many codes the model selected.
pub open spec fn selected_count(codes: Option<Seq<MatchView>>) -> nat {
    match codes {
        Some(codes) => selected_ids(codes).len(),
        None => 0,
    }
}

/// How many codes the model selected: none as long as there are no
/// suggestions.
pub fn auto_selected_count(codes: &Option<Vec<SuggestedDefectCode>>) -> (r: usize)
    ensures
        r == selected_count(optional_codes(*codes)),
{
    match codes {
        Some(codes) => {
            let ghost all = code_views(codes@);
            let mut count: usize = 0;
            let mut i: usize = 0;
            assert(all.take(0) =~= Seq::empty());
            while i < codes.len()
                invariant
                    i <= codes@.len(),
                    all == code_views(codes@),
                    count <= i,
                    count == selected_ids(all.take(i as int)).len(),
                decreases codes@.len() - i,
            {
                proof {
                    assert(all.take(i + 1).drop_last() =~= all.take(i as int));
                    assert(all.take(i + 1).last() == codes@[i as int]@);
                }
                if codes[i].selected {
                    count = count + 1;
                }
                i = i + 1;
            }
            assert(all.take(all.len() as int) =~= all);
            count
        },
        None => 0,
    }
}

/// The headline of the analysis.
pub open spec fn headline(failed: bool, complete: bool) -> Seq<char> {
    if failed {
        "AI analysis failed"@
    } else if complete {
        "AI Autofill Complete"@
    } else {
        "Analyzing description..."@
    }
}

/// The headline of the analysis: whether it failed, is complete, or still
/// runs.
pub fn analysis_headline(failed: bool, complete: bool) -> (r: &'static str)
    ensures
        r@ == headline(failed, complete),
{
    if failed {
        "AI analysis failed"
    } else if complete {
        "AI Autofill Complete"
    } else {
        "Analyzing description..."
    }
}

/// The line below the headline.
pub open spec fn details(error: Option<Seq<char>>, codes: Option<Seq<MatchView>>) -> Seq<char> {
    match (error, codes) {
        (Some(error), _) => error,
        (None, Some(_)) => "Found "@ + decimal(selected_count(codes))
            + " high-confidence defect codes and additional details."@,
        (None, None) => "Suggesting defect codes and related information."@,
    }
}

/// The line below the headline: the error, what was found, or what is being
/// done.
pub fn analysis_details(error: Option<String>, codes: &Option<Vec<SuggestedDefectCode>>) -> (r:
    String)
    ensures
        r@ == details(optional(error), optional_codes(*codes)),
{
    match error {
        Some(error) => error,
        None => if codes.is_some() {
            join3(
                "Found ",
                decimal_text(auto_selected_count(codes)).as_str(),
                " high-confidence defect codes and additional details.",
            )
        } else {
            "Suggesting defect codes and related information.".to_owned()
        },
    }
}

/// Whether to ask for a description: the suggestions are there, and empty.
pub fn asks_for_description(codes: &Option<Vec<SuggestedDefectCode>>) -> (r: bool)
    ensures
        r == (optional_codes(*codes) matches Some(codes) && codes.len() == 0),
{
    match codes {
        Some(codes) => codes.is_empty(),
        None => false,
    }
}

/// Whether there are more suggestions than are shown at first.
pub fn has_more(codes: &Option<Vec<SuggestedDefectCode>>) -> (r: bool)
    ensures
        r == (optional_codes(*codes) matches Some(codes) && codes.len() > VISIBLE_SUGGESTIONS),
{
    match codes {
        Some(codes) => codes.len() > VISIBLE_SUGGESTIONS,
        None => false,
    }
}

/// What the toggle between all and few suggestions says.
pub open spec fn toggle_text(show_all: bool, codes: Option<Seq<MatchView>>) -> Seq<char> {
    if show_all {
        " Show fewer suggestions"@
    } else {
        let count = match codes {
            Some(codes) => codes.len(),
            None => 0,
        };
        " Show all "@ + decimal(count) + " suggestions"@
    }
}

/// What the toggle between all and few suggestions says.
pub fn toggle_label(show_all: bool, codes: &Option<Vec<SuggestedDefectCode>>) -> (r: String)
    ensures
        r@ == toggle_text(show_all, optional_codes(*codes)),
{
    if show_all {
        return " Show fewer suggestions".to_owned();
    }
    let count: usize = match codes {
        Some(codes) => codes.len(),
        None => 0,
    };
    join3(" Show all ", decimal_text(count).as_str(), " suggestions")
}

/// The codes that are shown are the best matches.
pub proof fn law_best_matches_are_shown(codes: Seq<MatchView>, show_all: bool, i: int)
    requires
        0 <= i < shown_codes(Some(codes), show_all).len(),
    ensures
        i < codes.len(),
        shown_codes(Some(codes), show_all)[i] == codes[i],
        show_all ==> shown_codes(Some(codes), show_all) == codes,
        !show_all ==> shown_codes(Some(codes), show_all).len() <= VISIBLE_SUGGESTIONS,
{
}

// ---------------------------------------------------------------------------
// Fetching
// ---------------------------------------------------------------------------

/// Whether suggestions are being fetched, with a generation counter so a slow
/// earlier fetch cannot clear the flag while a newer one is still in flight.
#[derive(Debug, Clone, Copy, PartialEq, Eq, Structural)]
pub struct Fetches {
    pub generation: u32,
    pub fetching: bool,
}

/// The state after the fetch of this generation has ended.
pub open spec fn after_fetch(fetches: Fetches, generation: u32) -> Fetches {
    if fetches.generation == generation {
        Fetches { fetching: false, ..fetches }
    } else {
        fetches
    }
}

impl Fetches {
    /// The state before the first fetch, which is about to start.
    pub fn new() -> (r: Self)
        ensures
            r == (Fetches { generation: 0, fetching: true }),
    {
        Fetches { generation: 0, fetching: true }
    }

    /// Start a fetch. The result is its generation.
    pub fn start(&mut self) -> (r: u32)
        requires
            old(self).generation < u32::MAX,
        ensures
            r == old(self).generation + 1,
            *final(self) == (Fetches { generation: r, fetching: true }),
    {
        let generation: u32 = self.generation + 1;
        self.generation = generation;
        self.fetching = true;
        generation
    }

    /// End the fetch of this generation: unless a newer one has started,
    /// nothing is being fetched any more.
    pub fn finish(&mut self, generation: u32)
        ensures
            *final(self) == after_fetch(*old(self), generation),
    {
        if self.generation == generation {
            self.fetching = false;
        }
    }
}

/// The end of a fetch that was overtaken changes nothing; the end of the newest
/// one clears the flag.
pub proof fn law_only_the_newest_fetch_counts(fetches: Fetches, generation: u32)
    requires
        fetches.fetching,
        generation <= fetches.generation,
    ensures
        after_fetch(fetches, generation).fetching <==> generation < fetches.generation,
        after_fetch(fetches, generation).generation == fetches.generation,
{
}

// ---------------------------------------------------------------------------
// More laws
// ---------------------------------------------------------------------------

/// Taking an id out goes through the ids one by one and keeps the order of the
/// others.
pub proof fn law_remove_keeps_order(a: Seq<Seq<char>>, b: Seq<Seq<char>>, id: Seq<char>)
    ensures
        without(a + b, id) == without(a, id) + without(b, id),
        without(Seq::<Seq<char>>::empty(), id) == Seq::<Seq<char>>::empty(),
        without(a.push(id), id) == without(a, id),
        forall|other: Seq<char>|
            other != id ==> #[trigger] without(a.push(other), id) == without(a, id).push(other),
    decreases b.len(),
{
    assert(a.push(id).drop_last() =~= a);
    assert forall|other: Seq<char>| other != id implies #[trigger] without(a.push(other), id)
        == without(a, id).push(other) by {
        assert(a.push(other).drop_last() =~= a);
    }
    if b.len() == 0 {
        assert(a + b =~= a);
        assert(without(b, id) =~= Seq::empty());
        assert(without(a, id) + without(b, id) =~= without(a, id));
    } else {
        let init = b.drop_last();
        assert((a + b).drop_last() =~= a + init);
        assert((a + b).last() == b.last());
        law_remove_keeps_order(a, init, id);
        assert(without(a + b, id) =~= without(a, id) + without(b, id));
    }
}

/// Toggling takes an id out where it is selected, and puts it behind the others
/// where it is not.
pub proof fn law_toggle(ids: Seq<Seq<char>>, id: Seq<char>, i: int)
    ensures
        0 <= i < ids.len() && ids[i] == id ==> toggled(ids, id) == without(ids, id),
        (forall|k: int| 0 <= k < ids.len() ==> #[trigger] ids[k] != id) ==> toggled(ids, id)
            == ids.push(id),
{
    if 0 <= i < ids.len() && ids[i] == id {
        assert(ids.contains(id));
    }
}

/// The codes that the model selected are selected, in their order, and no
/// others.
pub proof fn law_selected_codes_are_selected(codes: Seq<MatchView>, next: MatchView)
    ensures
        selected_ids(Seq::<MatchView>::empty()) == Seq::<Seq<char>>::empty(),
        next.selected ==> selected_ids(codes.push(next)) == selected_ids(codes).push(next.code.id),
        !next.selected ==> selected_ids(codes.push(next)) == selected_ids(codes),
        forall|id: Seq<char>|
            selected_ids(codes).contains(id) ==> exists|i: int|
                0 <= i < codes.len() && (#[trigger] codes[i]).selected && codes[i].code.id == id,
        forall|i: int|
            0 <= i < codes.len() && (#[trigger] codes[i]).selected ==> selected_ids(codes).contains(
                codes[i].code.id,
            ),
        selected_ids(codes).len() <= codes.len(),
{
    assert(codes.push(next).drop_last() =~= codes);
    assert forall|id: Seq<char>| selected_ids(codes).contains(id) implies exists|i: int|
        0 <= i < codes.len() && (#[trigger] codes[i]).selected && codes[i].code.id == id by {
        lemma_selected_ids(codes, id);
    }
    assert forall|i: int| 0 <= i < codes.len() && (#[trigger] codes[i]).selected implies selected_ids(
        codes,
    ).contains(codes[i].code.id) by {
        lemma_selected_ids(codes, codes[i].code.id);
    }
    lemma_selected_ids(codes, Seq::empty());
}

proof fn lemma_selected_ids(codes: Seq<MatchView>, id: Seq<char>)
    ensures
        selected_ids(codes).contains(id) <==> exists|i: int|
            0 <= i < codes.len() && (#[trigger] codes[i]).selected && codes[i].code.id == id,
        selected_ids(codes).len() <= codes.len(),
    decreases codes.len(),
{
    if codes.len() > 0 {
        let init = codes.drop_last();
        let last = codes.len() - 1;
        let rest = selected_ids(init);
        lemma_selected_ids(init, id);
        assert(codes[last] == codes.last());
        let pushed = rest.push(codes.last().code.id);
        assert(pushed[rest.len() as int] == codes.last().code.id);
        if rest.contains(id) {
            let i = choose|i: int|
                0 <= i < init.len() && (#[trigger] init[i]).selected && init[i].code.id == id;
            assert(codes[i] == init[i]);
            let k = choose|k: int| 0 <= k < rest.len() && rest[k] == id;
            assert(pushed[k] == id);
        }
        if exists|i: int|
            0 <= i < codes.len() && (#[trigger] codes[i]).selected && codes[i].code.id == id {
            let i = choose|i: int|
                0 <= i < codes.len() && (#[trigger] codes[i]).selected && codes[i].code.id == id;
            if i < last {
                assert(init[i] == codes[i]);
            }
        }
        if pushed.contains(id) {
            let k = choose|k: int| 0 <= k < pushed.len() && pushed[k] == id;
            if k < rest.len() {
                assert(rest[k] == id);
            }
        }
    }
}

/// The selected codes are looked up one by one, in the order of their
/// selection: an id stands for the first code with it, and one that no code has
/// for none.
pub proof fn law_selected_codes_are_found(
    ids: Seq<Seq<char>>,
    codes: Seq<MatchView>,
    id: Seq<char>,
    i: int,
)
    requires
        0 <= i <= codes.len(),
        i < codes.len() ==> codes[i].code.id == id,
        forall|j: int| 0 <= j < i ==> (#[trigger] codes[j]).code.id != id,
    ensures
        named_codes(Seq::<Seq<char>>::empty(), codes) == Seq::<MatchView>::empty(),
        i < codes.len() ==> named_codes(ids.push(id), codes) == named_codes(ids, codes).push(
            codes[i],
        ),
        i == codes.len() ==> named_codes(ids.push(id), codes) == named_codes(ids, codes),
{
    lemma_code_index(codes, id, i);
    assert(ids.push(id).drop_last() =~= ids);
}

/// As long as there are no suggestions none is shown. The first five are shown,
/// or all of them where there are no more or all are asked for.
pub proof fn law_shown_codes(codes: Seq<MatchView>, show_all: bool)
    ensures
        shown_codes(None, show_all).len() == 0,
        show_all || codes.len() <= 5 ==> shown_codes(Some(codes), show_all) == codes,
        !show_all && codes.len() > 5 ==> shown_codes(Some(codes), show_all) == codes.take(5),
        VISIBLE_SUGGESTIONS == 5,
{
}

/// So many codes are counted as selected as the model selected.
pub proof fn law_selected_codes_are_counted(codes: Seq<MatchView>, next: MatchView)
    ensures
        selected_count(None) == 0,
        selected_count(Some(Seq::empty())) == 0,
        selected_count(Some(codes.push(next))) == selected_count(Some(codes)) + (if next.selected {
            1nat
        } else {
            0nat
        }),
{
    assert(codes.push(next).drop_last() =~= codes);
}

/// A failure is told before all else, and then whether the analysis is
/// complete. The line below tells the error, how many codes were selected, or
/// what is being done.
pub proof fn law_analysis_is_told(
    complete: bool,
    error: Seq<char>,
    codes: Option<Seq<MatchView>>,
    found: Seq<MatchView>,
)
    ensures
        headline(true, complete) == "AI analysis failed"@,
        headline(false, true) == "AI Autofill Complete"@,
        headline(false, false) == "Analyzing description..."@,
        details(Some(error), codes) == error,
        details(None, None) == "Suggesting defect codes and related information."@,
        details(None, Some(found)) == "Found "@ + decimal(selected_ids(found).len())
            + " high-confidence defect codes and additional details."@,
{
}

/// The toggle offers fewer suggestions where all are shown, and else all of
/// them, with their number.
pub proof fn law_toggle_is_told(codes: Option<Seq<MatchView>>, found: Seq<MatchView>)
    ensures
        toggle_text(true, codes) == " Show fewer suggestions"@,
        toggle_text(false, Some(found)) == " Show all "@ + decimal(found.len()) + " suggestions"@,
        toggle_text(false, None) == " Show all "@ + decimal(0) + " suggestions"@,
{
}

/// The end of a fetch never changes the generation, clears the flag where it is
/// the newest, and leaves it as it is where it is any other.
pub proof fn law_end_of_a_fetch(fetches: Fetches, generation: u32)
    ensures
        after_fetch(fetches, generation).generation == fetches.generation,
        generation == fetches.generation ==> !after_fetch(fetches, generation).fetching,
        generation != fetches.generation ==> after_fetch(fetches, generation).fetching
            == fetches.fetching,
{
}

/// What suggested codes say is what each of them says, in their order, and the
/// form says what its fields hold.
pub proof fn law_form_says(
    codes: Seq<SuggestedDefectCode>,
    found: Vec<SuggestedDefectCode>,
    form: NcrForm,
)
    ensures
        code_views(codes).len() == codes.len(),
        forall|i: int|
            0 <= i < codes.len() ==> {
                let code = #[trigger] code_views(codes)[i];
                &&& code.code.id == codes[i].id@
                &&& code.code.title == codes[i].title@
                &&& code.code.description == codes[i].description@
                &&& code.selected == codes[i].selected
                &&& code.confidence == codes[i].confidence
            },
        optional_codes(Some(found)) == Some(code_views(found@)),
        optional_codes(None) is None,
        form@.date == form.date@,
        form@.time == form.time@,
        form@.location == form.location@,
        form@.description == form.description@,
        form@.suspected_cause == form.suspected_cause@,
        form@.affected_part == form.affected_part@,
        form@.severity == form.severity@,
        form@.recommended_action == form.recommended_action@,
        form@.selected_defects.len() == form.selected_defects@.len(),
        forall|i: int|
            0 <= i < form.selected_defects@.len() ==> #[trigger] form@.selected_defects[i]
                == form.selected_defects@[i]@,
{
}

} // verus!
