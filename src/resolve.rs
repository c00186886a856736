//! Resolution of each step's answer: from an override, from the step's
//! default, or by asking the user. The decisions are made here; asking is
//! left to the caller, who hands the answer back.

use crate::request::{ResponseStep, ResponseStepView};
use crate::steps::{items_view, Item, ItemView, Step, StepKind, StepKindView, StepView};
use crate::text::{opt_view, push_char, same_text};
use vstd::prelude::*;

verus! {

/// A question to put to the user for one step.
#[derive(Debug)]
pub enum Prompt {
    /// Free text, offered with a default.
    Text { default: String },
    /// One of `items`, with the cursor first on `initial`.
    SingleChoice { items: Vec<Item>, initial: usize },
    /// Any number of `items`.
    MultiChoice { items: Vec<Item> },
}

/// How a step's answer is obtained.
#[derive(Debug)]
pub enum Resolution {
    /// Known without asking: an override or the step's default.
    Resolved(ResponseStep),
    /// The step leaves a single possible answer, which is taken without
    /// asking; the caller may announce it. This is the sole item of a choice
    /// step, the default of a choice step without items, or the empty
    /// selection of a multi-choice step without items.
    SoleChoice(ResponseStep),
    /// The user must be asked.
    Ask(Prompt),
}

/// Mathematical model of a [`Prompt`].
pub enum PromptView {
    Text { default: Seq<char> },
    SingleChoice { items: Seq<ItemView>, initial: nat },
    MultiChoice { items: Seq<ItemView> },
}

/// Mathematical model of a [`Resolution`].
pub enum ResolutionView {
    Resolved(ResponseStepView),
    SoleChoice(ResponseStepView),
    Ask(PromptView),
}

impl View for Prompt {
    type V = PromptView;

    open spec fn view(&self) -> PromptView {
        match self {
            Prompt::Text { default } => PromptView::Text { default: default@ },
            Prompt::SingleChoice { items, initial } => PromptView::SingleChoice {
                items: items_view(items@),
                initial: *initial as nat,
            },
            Prompt::MultiChoice { items } => PromptView::MultiChoice { items: items_view(items@) },
        }
    }
}

impl View for Resolution {
    type V = ResolutionView;

    open spec fn view(&self) -> ResolutionView {
        match self {
            Resolution::Resolved(r) => ResolutionView::Resolved(r@),
            Resolution::SoleChoice(r) => ResolutionView::SoleChoice(r@),
            Resolution::Ask(p) => ResolutionView::Ask(p@),
        }
    }
}

/// The position, from `from` on, of the first item whose id is `id`, or 0
/// when none is.
pub open spec fn first_with_id(values: Seq<ItemView>, id: Seq<char>, from: int) -> nat
    decreases values.len() - from,
{
    if from < 0 || from >= values.len() {
        0
    } else if values[from].id == id {
        from as nat
    } else {
        first_with_id(values, id, from + 1)
    }
}

/// Where the cursor of a choice starts: on the default item, or on the first
/// item when the default is not among them.
pub open spec fn default_index(values: Seq<ItemView>, id: Seq<char>) -> nat {
    first_with_id(values, id, 0)
}

/// The answer that a step takes when nobody is asked: its declared default,
/// or the empty selection for a multi-choice step.
pub open spec fn declared_default(step: StepView) -> Seq<char> {
    match step.kind {
        StepKindView::Text { default } => default,
        StepKindView::SingleSelect { default, .. } => default,
        StepKindView::Action { default, .. } => default,
        StepKindView::MultiSelect { .. } => Seq::empty(),
    }
}

/// How the answer to `step` is obtained, given the override for its name,
/// if any, and whether the user may be asked.
pub open spec fn resolution_of(
    step: StepView,
    override_value: Option<Seq<char>>,
    non_interactive: bool,
) -> ResolutionView {
    match override_value {
        Some(v) => ResolutionView::Resolved(ResponseStepView { step, response: v }),
        None => if non_interactive {
            ResolutionView::Resolved(ResponseStepView { step, response: declared_default(step) })
        } else {
            match step.kind {
                StepKindView::Text { default } => ResolutionView::Ask(
                    PromptView::Text { default },
                ),
                StepKindView::MultiSelect { values } => if values.len() == 0 {
                    ResolutionView::SoleChoice(ResponseStepView { step, response: Seq::empty() })
                } else {
                    ResolutionView::Ask(PromptView::MultiChoice { items: values })
                },
                StepKindView::SingleSelect { default, values } => choice_resolution(
                    step,
                    default,
                    values,
                ),
                StepKindView::Action { default, values } => choice_resolution(
                    step,
                    default,
                    values,
                ),
            }
        },
    }
}

/// How a single-choice step is answered when the user may be asked.
pub open spec fn choice_resolution(
    step: StepView,
    default: Seq<char>,
    values: Seq<ItemView>,
) -> ResolutionView {
    if values.len() == 1 {
        ResolutionView::SoleChoice(ResponseStepView { step, response: values[0].id })
    } else if values.len() == 0 {
        ResolutionView::SoleChoice(ResponseStepView { step, response: default })
    } else {
        ResolutionView::Ask(
            PromptView::SingleChoice { items: values, initial: default_index(values, default) },
        )
    }
}

/// Where the cursor of a choice among `values` starts: on the first item
/// whose id is `default`, or on the first item when none is.
pub fn initial_index(values: &Vec<Item>, default: &String) -> (r: usize)
    ensures
        r == default_index(items_view(values@), default@),
{
    let n = values.len();
    let ghost vs = items_view(values@);
    let mut i: usize = 0;
    while i < n
        invariant
            0 <= i <= n == values@.len(),
            vs == items_view(values@),
            default_index(vs, default@) == first_with_id(vs, default@, i as int),
        decreases n - i,
    {
        assert(vs[i as int] == values@[i as int]@);
        if values[i].id == *default {
            return i;
        }
        i = i + 1;
    }
    0
}

/// Decides how the answer to `step` is obtained. An override is taken as it
/// is, without checking it against the step's items. Otherwise, when the user
/// may not be asked, the step's default is taken (the empty selection for a
/// multi-choice step). Otherwise the user is asked, except where the step
/// leaves one possible answer: a choice step with a single item takes it, a
/// choice step without items its default, a multi-choice step without items
/// the empty selection.
pub fn resolve_step(step: &Step, override_value: Option<String>, non_interactive: bool) -> (r:
    Resolution)
    ensures
        r@ == resolution_of(step@, opt_view(override_value), non_interactive),
{
    if let Some(v) = override_value {
        return Resolution::Resolved(ResponseStep { step: step.clone(), response: v });
    }
    if non_interactive {
        let response = match &step.kind {
            StepKind::Text { default } => default.clone(),
            StepKind::SingleSelect { default, .. } => default.clone(),
            StepKind::Action { default, .. } => default.clone(),
            StepKind::MultiSelect { .. } => String::new(),
        };
        return Resolution::Resolved(ResponseStep { step: step.clone(), response });
    }
    match &step.kind {
        StepKind::Text { default } => Resolution::Ask(Prompt::Text { default: default.clone() }),
        StepKind::MultiSelect { values } => if values.len() == 0 {
            Resolution::SoleChoice(ResponseStep { step: step.clone(), response: String::new() })
        } else {
            Resolution::Ask(Prompt::MultiChoice { items: values.clone() })
        },
        StepKind::SingleSelect { default, values } => resolve_choice(step, default, values),
        StepKind::Action { default, values } => resolve_choice(step, default, values),
    }
}

fn resolve_choice(step: &Step, default: &String, values: &Vec<Item>) -> (r: Resolution)
    ensures
        r@ == choice_resolution(step@, default@, items_view(values@)),
{
    if values.len() == 1 {
        Resolution::SoleChoice(ResponseStep { step: step.clone(), response: values[0].id.clone() })
    } else if values.len() == 0 {
        Resolution::SoleChoice(ResponseStep { step: step.clone(), response: default.clone() })
    } else {
        let initial = initial_index(values, default);
        let items = values.clone();
        assert(items@ =~= values@);
        Resolution::Ask(Prompt::SingleChoice { items, initial })
    }
}

/// The value given for `name` in an override list: that of its first entry
/// with that name.
pub open spec fn override_in(overrides: Seq<(String, String)>, name: Seq<char>) -> Option<
    Seq<char>,
>
    decreases overrides.len(),
{
    if overrides.len() == 0 {
        None
    } else if overrides[0].0@ == name {
        Some(overrides[0].1@)
    } else {
        override_in(overrides.drop_first(), name)
    }
}

/// Looks up the override given for the step named `name`.
pub fn find_override(overrides: &[(String, String)], name: &str) -> (r: Option<String>)
    ensures
        opt_view(r) == override_in(overrides@, name@),
{
    let n = overrides.len();
    let mut i: usize = 0;
    assert(overrides@.subrange(0, n as int) =~= overrides@);
    while i < n
        invariant
            0 <= i <= n == overrides@.len(),
            override_in(overrides@, name@) == override_in(
                overrides@.subrange(i as int, n as int),
                name@,
            ),
        decreases n - i,
    {
        let ghost rest = overrides@.subrange(i as int, n as int);
        assert(rest.drop_first() =~= overrides@.subrange(i + 1, n as int));
        assert(rest[0] == overrides@[i as int]);
        if same_text(overrides[i].0.as_str(), name) {
            return Some(overrides[i].1.clone());
        }
        i = i + 1;
    }
    None
}

/// Decides how the answer to `step` is obtained, taking its override from the
/// list of `(name, value)` pairs given at invocation.
pub fn resolve_with_overrides(
    step: &Step,
    overrides: &[(String, String)],
    non_interactive: bool,
) -> (r: Resolution)
    ensures
        r@ == resolution_of(step@, override_in(overrides@, step.name@), non_interactive),
{
    let found = find_override(overrides, step.name.as_str());
    resolve_step(step, found, non_interactive)
}

/// What the user answered to a prompt.
#[derive(Debug, PartialEq, Eq)]
pub enum Answer {
    /// The text entered.
    Text(String),
    /// The position of the item chosen.
    Choice(usize),
    /// The positions of the items chosen, in the order given.
    Choices(Vec<usize>),
}

/// The ids of the items of `values` at `positions`, joined by commas.
pub open spec fn joined_ids(values: Seq<ItemView>, positions: Seq<usize>) -> Seq<char>
    decreases positions.len(),
{
    if positions.len() == 0 {
        Seq::empty()
    } else if positions.len() == 1 {
        values[positions[0] as int].id
    } else {
        joined_ids(values, positions.drop_last()) + seq![','] + values[positions.last() as int].id
    }
}

/// The response that `answer` gives to `step`: `None` when the answer does not
/// fit the step's kind or names a position outside its items.
pub open spec fn answer_response(step: StepView, answer: Answer) -> Option<Seq<char>> {
    match (step.kind, answer) {
        (StepKindView::Text { .. }, Answer::Text(s)) => Some(s@),
        (StepKindView::SingleSelect { values, .. }, Answer::Choice(i)) => if i < values.len() {
            Some(values[i as int].id)
        } else {
            None
        },
        (StepKindView::Action { values, .. }, Answer::Choice(i)) => if i < values.len() {
            Some(values[i as int].id)
        } else {
            None
        },
        (StepKindView::MultiSelect { values }, Answer::Choices(ps)) => if forall|k: int|
            0 <= k < ps@.len() ==> #[trigger] ps@[k] < values.len() {
            Some(joined_ids(values, ps@))
        } else {
            None
        },
        _ => None,
    }
}

/// Turns the user's answer to `step` into its response: the text entered,
/// the id of the item chosen, or the ids of the items chosen joined by
/// commas.
pub fn apply_answer(step: &Step, answer: &Answer) -> (r: Option<ResponseStep>)
    ensures
        match r {
            Some(resp) => resp@.step == step@ && answer_response(step@, *answer) == Some(
                resp@.response,
            ),
            None => answer_response(step@, *answer) is None,
        },
{
    let response = match (&step.kind, answer) {
        (StepKind::Text { .. }, Answer::Text(s)) => s.clone(),
        (StepKind::SingleSelect { values, .. }, Answer::Choice(i)) => {
            if *i >= values.len() {
                return None;
            }
            values[*i].id.clone()
        },
        (StepKind::Action { values, .. }, Answer::Choice(i)) => {
            if *i >= values.len() {
                return None;
            }
            values[*i].id.clone()
        },
        (StepKind::MultiSelect { values }, Answer::Choices(ps)) => match join_chosen(values, ps) {
            Some(s) => s,
            None => return None,
        },
        _ => return None,
    };
    Some(ResponseStep { step: step.clone(), response })
}

fn join_chosen(values: &Vec<Item>, positions: &Vec<usize>) -> (r: Option<String>)
    ensures
        match r {
            Some(s) => (forall|k: int|
                0 <= k < positions@.len() ==> #[trigger] positions@[k] < values@.len()) && s@
                == joined_ids(items_view(values@), positions@),
            None => !(forall|k: int|
                0 <= k < positions@.len() ==> #[trigger] positions@[k] < values@.len()),
        },
{
    let ghost vs = items_view(values@);
    let n = positions.len();
    let mut out = String::new();
    let mut i: usize = 0;
    while i < n
        invariant
            0 <= i <= n == positions@.len(),
            vs == items_view(values@),
            forall|k: int| 0 <= k < i ==> #[trigger] positions@[k] < values@.len(),
            out@ == joined_ids(vs, positions@.subrange(0, i as int)),
        decreases n - i,
    {
        let p = positions[i];
        if p >= values.len() {
            return None;
        }
        let ghost prefix = positions@.subrange(0, i + 1);
        assert(prefix.drop_last() =~= positions@.subrange(0, i as int));
        if i > 0 {
            push_char(&mut out, ',');
        }
        out.append(values[p].id.as_str());
        assert(out@ =~= joined_ids(vs, prefix));
        i = i + 1;
    }
    assert(positions@.subrange(0, n as int) =~= positions@);
    Some(out)
}

/// An override is used as it is, whatever the step's items, in either mode.
pub proof fn lemma_override_verbatim(step: StepView, value: Seq<char>, non_interactive: bool)
    ensures
        resolution_of(step, Some(value), non_interactive) == ResolutionView::Resolved(
            ResponseStepView { step, response: value },
        ),
{
}

/// Without an override and without asking, a multi-choice step resolves to
/// the empty response.
pub proof fn lemma_multi_select_unattended_empty(step: StepView)
    requires
        step.kind is MultiSelect,
    ensures
        resolution_of(step, None, true) == ResolutionView::Resolved(
            ResponseStepView { step, response: Seq::empty() },
        ),
{
}

/// A single- or action-choice step with exactly one value is never put to
/// the user; when the user could have been asked, that value is the
/// response.
pub proof fn lemma_sole_value_not_asked(
    step: StepView,
    override_value: Option<Seq<char>>,
    non_interactive: bool,
)
    requires
        match step.kind {
            StepKindView::SingleSelect { values, .. } => values.len() == 1,
            StepKindView::Action { values, .. } => values.len() == 1,
            _ => false,
        },
    ensures
        !(resolution_of(step, override_value, non_interactive) is Ask),
        override_value is None && !non_interactive ==> resolution_of(
            step,
            override_value,
            non_interactive,
        ) == ResolutionView::SoleChoice(
            ResponseStepView {
                step,
                response: match step.kind {
                    StepKindView::SingleSelect { values, .. } => values[0].id,
                    StepKindView::Action { values, .. } => values[0].id,
                    _ => Seq::empty(),
                },
            },
        ),
{
}

} // verus!
