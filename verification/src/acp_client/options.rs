//! The options that an agent offers for a session.

use crate::split::{copy_opt, opt_text};
use vstd::prelude::*;
use vstd::string::*;

verus! {

/// One of the values that an option can take.
#[derive(Debug, Clone)]
pub struct SessionConfigOptionChoice {
    pub value: String,
    pub name: String,
    pub group: Option<String>,
}

/// An option with its current value and its choices.
#[derive(Debug, Clone)]
pub struct SessionConfigOptionState {
    pub id: String,
    pub name: String,
    pub category: Option<String>,
    pub current_value: Option<String>,
    pub choices: Vec<SessionConfigOptionChoice>,
}

/// A choice, as text.
#[verifier::ext_equal]
pub struct ChoiceView {
    pub value: Seq<char>,
    pub name: Seq<char>,
    pub group: Option<Seq<char>>,
}

/// An option, as text.
#[verifier::ext_equal]
pub struct OptionView {
    pub id: Seq<char>,
    pub name: Seq<char>,
    pub category: Option<Seq<char>>,
    pub current_value: Option<Seq<char>>,
    pub choices: Seq<ChoiceView>,
}

impl View for SessionConfigOptionChoice {
    type V = ChoiceView;

    open spec fn view(&self) -> ChoiceView {
        ChoiceView { value: self.value@, name: self.name@, group: opt_text(self.group) }
    }
}

impl View for SessionConfigOptionState {
    type V = OptionView;

    open spec fn view(&self) -> OptionView {
        OptionView {
            id: self.id@,
            name: self.name@,
            category: opt_text(self.category),
            current_value: opt_text(self.current_value),
            choices: choice_views(self.choices@),
        }
    }
}

/// Some choices, as text.
pub open spec fn choice_views(v: Seq<SessionConfigOptionChoice>) -> Seq<ChoiceView> {
    v.map_values(|c: SessionConfigOptionChoice| c@)
}

/// Some options, as text.
pub open spec fn option_views(v: Seq<SessionConfigOptionState>) -> Seq<OptionView> {
    v.map_values(|o: SessionConfigOptionState| o@)
}

fn copy_choices(v: &Vec<SessionConfigOptionChoice>) -> (r: Vec<SessionConfigOptionChoice>)
    ensures
        choice_views(r@) == choice_views(v@),
{
    let mut r: Vec<SessionConfigOptionChoice> = Vec::new();
    let mut i: usize = 0;
    while i < v.len()
        invariant
            i <= v@.len(),
            choice_views(r@) == choice_views(v@).take(i as int),
        decreases v@.len() - i,
    {
        let c = &v[i];
        r.push(
            SessionConfigOptionChoice {
                value: c.value.clone(),
                name: c.name.clone(),
                group: copy_opt(&c.group),
            },
        );
        assert(choice_views(r@) == choice_views(v@).take(i as int).push(v@[i as int]@));
        i += 1;
    }
    r
}

/// A copy of some options.
pub fn copy_options(v: &Vec<SessionConfigOptionState>) -> (r: Vec<SessionConfigOptionState>)
    ensures
        option_views(r@) == option_views(v@),
{
    let mut r: Vec<SessionConfigOptionState> = Vec::new();
    let mut i: usize = 0;
    while i < v.len()
        invariant
            i <= v@.len(),
            option_views(r@) == option_views(v@).take(i as int),
        decreases v@.len() - i,
    {
        let o = &v[i];
        r.push(
            SessionConfigOptionState {
                id: o.id.clone(),
                name: o.name.clone(),
                category: copy_opt(&o.category),
                current_value: copy_opt(&o.current_value),
                choices: copy_choices(&o.choices),
            },
        );
        assert(option_views(r@) == option_views(v@).take(i as int).push(v@[i as int]@));
        i += 1;
    }
    r
}

// ---------------------------------------------------------------------------
// Options as the agent sends them
// ---------------------------------------------------------------------------

/// What an option is about.
#[derive(Debug, Clone)]
pub enum OptionCategory {
    Mode,
    Model,
    ThoughtLevel,
    Other(String),
    /// A category that this client does not know.
    Unknown,
}

/// A value that the user can select.
#[derive(Debug, Clone)]
pub struct SelectEntry {
    pub value: String,
    pub name: String,
}

/// Values under a heading.
#[derive(Debug, Clone)]
pub struct SelectGroup {
    pub name: String,
    pub options: Vec<SelectEntry>,
}

/// The values of a selection.
#[derive(Debug, Clone)]
pub enum SelectOptions {
    Ungrouped(Vec<SelectEntry>),
    Grouped(Vec<SelectGroup>),
    /// An arrangement that this client does not know.
    Unknown,
}

/// How an option is set.
#[derive(Debug, Clone)]
pub enum OptionKind {
    Select { current_value: String, options: SelectOptions },
    /// A kind that this client does not know.
    Unknown,
}

/// An option as the agent describes it.
#[derive(Debug, Clone)]
pub struct AgentOption {
    pub id: String,
    pub name: String,
    pub category: Option<OptionCategory>,
    pub kind: OptionKind,
}

/// The name of a category.
pub open spec fn category_name(category: OptionCategory) -> Seq<char> {
    match category {
        OptionCategory::Mode => "mode"@,
        OptionCategory::Model => "model"@,
        OptionCategory::ThoughtLevel => "thought_level"@,
        OptionCategory::Other(value) => value@,
        OptionCategory::Unknown => "unknown"@,
    }
}

/// The choices of some entries under a heading.
pub open spec fn entry_choices(entries: Seq<SelectEntry>, group: Option<Seq<char>>) -> Seq<
    ChoiceView,
> {
    entries.map_values(
        |e: SelectEntry| ChoiceView { value: e.value@, name: e.name@, group },
    )
}

/// The choices of some groups, one group after the other.
pub open spec fn group_choices(groups: Seq<SelectGroup>) -> Seq<ChoiceView>
    decreases groups.len(),
{
    if groups.len() == 0 {
        Seq::empty()
    } else {
        group_choices(groups.drop_last()) + entry_choices(
            groups.last().options@,
            Some(groups.last().name@),
        )
    }
}

/// The choices of a selection.
pub open spec fn flat_choices(options: SelectOptions) -> Seq<ChoiceView> {
    match options {
        SelectOptions::Ungrouped(entries) => entry_choices(entries@, None),
        SelectOptions::Grouped(groups) => group_choices(groups@),
        SelectOptions::Unknown => Seq::empty(),
    }
}

/// An agent's option as this client shows it.
pub open spec fn shown_option(option: AgentOption) -> OptionView {
    OptionView {
        id: option.id@,
        name: option.name@,
        category: match option.category {
            Some(c) => Some(category_name(c)),
            None => None,
        },
        current_value: match option.kind {
            OptionKind::Select { current_value, options } => Some(current_value@),
            OptionKind::Unknown => None,
        },
        choices: match option.kind {
            OptionKind::Select { current_value, options } => flat_choices(options),
            OptionKind::Unknown => Seq::empty(),
        },
    }
}

/// Some agent's options as this client shows them.
pub open spec fn shown_options(options: Seq<AgentOption>) -> Seq<OptionView> {
    options.map_values(|o: AgentOption| shown_option(o))
}

/// The name of a category.
pub fn config_option_category_name(category: &OptionCategory) -> (r: String)
    ensures
        r@ == category_name(*category),
{
    match category {
        OptionCategory::Mode => "mode".to_string(),
        OptionCategory::Model => "model".to_string(),
        OptionCategory::ThoughtLevel => "thought_level".to_string(),
        OptionCategory::Other(value) => value.clone(),
        OptionCategory::Unknown => "unknown".to_string(),
    }
}

/// Appends the choices of some entries under a heading.
fn push_entries(
    into: &mut Vec<SessionConfigOptionChoice>,
    entries: &Vec<SelectEntry>,
    group: &Option<String>,
)
    ensures
        choice_views(final(into)@) == choice_views(old(into)@) + entry_choices(
            entries@,
            opt_text(*group),
        ),
{
    let ghost start = choice_views(into@);
    let ghost all = entry_choices(entries@, opt_text(*group));
    let mut i: usize = 0;
    proof {
        assert(start + all.take(0) == start);
    }
    while i < entries.len()
        invariant
            i <= entries@.len(),
            all == entry_choices(entries@, opt_text(*group)),
            choice_views(into@) == start + all.take(i as int),
        decreases entries@.len() - i,
    {
        let ghost before = into@;
        let choice = SessionConfigOptionChoice {
            value: entries[i].value.clone(),
            name: entries[i].name.clone(),
            group: copy_opt(group),
        };
        into.push(choice);
        proof {
            assert(choice_views(into@) == choice_views(before).push(choice@));
            assert(all.take(i + 1) == all.take(i as int).push(all[i as int]));
            assert(choice@ == all[i as int]);
            assert(start + all.take(i + 1) == (start + all.take(i as int)).push(choice@));
        }
        i += 1;
    }
    proof {
        assert(all.take(entries@.len() as int) == all);
    }
}

/// The choices of a selection, without their arrangement.
pub fn flatten_config_option_choices(options: &SelectOptions) -> (r: Vec<SessionConfigOptionChoice>)
    ensures
        choice_views(r@) == flat_choices(*options),
{
    let mut r: Vec<SessionConfigOptionChoice> = Vec::new();
    match options {
        SelectOptions::Ungrouped(entries) => {
            push_entries(&mut r, entries, &None);
            proof {
                assert(choice_views(r@) == flat_choices(*options));
            }
        },
        SelectOptions::Grouped(groups) => {
            let mut i: usize = 0;
            while i < groups.len()
                invariant
                    i <= groups@.len(),
                    choice_views(r@) == group_choices(groups@.take(i as int)),
                decreases groups@.len() - i,
            {
                let heading = Some(groups[i].name.clone());
                push_entries(&mut r, &groups[i].options, &heading);
                proof {
                    assert(groups@.take(i + 1).drop_last() == groups@.take(i as int));
                    assert(groups@.take(i + 1).last() == groups@[i as int]);
                }
                i += 1;
            }
            proof {
                assert(groups@.take(groups@.len() as int) == groups@);
            }
        },
        SelectOptions::Unknown => {},
    }
    r
}

/// An agent's option as this client shows it.
pub fn map_config_option(option: &AgentOption) -> (r: SessionConfigOptionState)
    ensures
        r@ == shown_option(*option),
{
    let (current_value, choices) = match &option.kind {
        OptionKind::Select { current_value, options } => (
            Some(current_value.clone()),
            flatten_config_option_choices(options),
        ),
        OptionKind::Unknown => (None, Vec::new()),
    };
    let category = match &option.category {
        Some(c) => Some(config_option_category_name(c)),
        None => None,
    };
    let r = SessionConfigOptionState {
        id: option.id.clone(),
        name: option.name.clone(),
        category,
        current_value,
        choices,
    };
    assert(r@ =~= shown_option(*option));
    r
}

/// Some agent's options as this client shows them.
pub fn map_config_options(options: &Vec<AgentOption>) -> (r: Vec<SessionConfigOptionState>)
    ensures
        option_views(r@) == shown_options(options@),
{
    let mut r: Vec<SessionConfigOptionState> = Vec::new();
    let mut i: usize = 0;
    while i < options.len()
        invariant
            i <= options@.len(),
            option_views(r@) == shown_options(options@).take(i as int),
        decreases options@.len() - i,
    {
        let o = map_config_option(&options[i]);
        r.push(o);
        assert(option_views(r@) == shown_options(options@).take(i as int).push(o@));
        i += 1;
    }
    r
}

/// An option is shown as the agent describes it: under its id and its name, with
/// its category and its present value where it has them, and with its choices.
pub proof fn options_are_shown_as_described(option: AgentOption)
    ensures
        shown_option(option).id == option.id@,
        shown_option(option).name == option.name@,
        option.category is None ==> shown_option(option).category is None,
        option.category matches Some(c) ==> shown_option(option).category == Some(
            match c {
                OptionCategory::Mode => "mode"@,
                OptionCategory::Model => "model"@,
                OptionCategory::ThoughtLevel => "thought_level"@,
                OptionCategory::Other(value) => value@,
                OptionCategory::Unknown => "unknown"@,
            },
        ),
        option.kind matches OptionKind::Select { current_value, options } ==> shown_option(
            option,
        ).current_value == Some(current_value@) && shown_option(option).choices == flat_choices(
            options,
        ),
        option.kind is Unknown ==> shown_option(option).current_value is None && shown_option(
            option,
        ).choices.len() == 0,
{
}

/// Each value that can be selected is a choice, in the agent's order; one that
/// stands under a heading keeps it, and one that does not has none.
pub proof fn every_value_is_a_choice(entries: Vec<SelectEntry>, i: int)
    requires
        0 <= i < entries@.len(),
    ensures
        flat_choices(SelectOptions::Ungrouped(entries)).len() == entries@.len(),
        flat_choices(SelectOptions::Ungrouped(entries))[i] == (ChoiceView {
            value: entries@[i].value@,
            name: entries@[i].name@,
            group: None,
        }),
        flat_choices(SelectOptions::Unknown).len() == 0,
{
}

/// How many values stand in some groups.
pub open spec fn value_count(groups: Seq<SelectGroup>) -> nat
    decreases groups.len(),
{
    if groups.len() == 0 {
        0
    } else {
        value_count(groups.drop_last()) + groups.last().options@.len()
    }
}

/// The values of all groups are choices, group by group: the values of a group
/// stand behind those of the groups before it, each with its heading.
pub proof fn grouped_values_keep_their_heading(groups: Seq<SelectGroup>, g: int, i: int)
    requires
        0 <= g < groups.len(),
        0 <= i < groups[g].options@.len(),
    ensures
        group_choices(groups).len() == value_count(groups),
        0 <= value_count(groups.take(g)) + i < group_choices(groups).len(),
        group_choices(groups)[value_count(groups.take(g)) + i] == (ChoiceView {
            value: groups[g].options@[i].value@,
            name: groups[g].options@[i].name@,
            group: Some(groups[g].name@),
        }),
    decreases groups.len(),
{
    let front = groups.drop_last();
    lemma_choice_count(groups);
    lemma_choice_count(front);
    if g == groups.len() - 1 {
        assert(groups.take(g) == front);
    } else {
        assert(groups.take(g) == front.take(g));
        grouped_values_keep_their_heading(front, g, i);
    }
}

proof fn lemma_choice_count(groups: Seq<SelectGroup>)
    ensures
        group_choices(groups).len() == value_count(groups),
    decreases groups.len(),
{
    if groups.len() > 0 {
        lemma_choice_count(groups.drop_last());
    }
}

/// The choices of groups are those of the list of groups.
pub proof fn groups_are_flattened(groups: Vec<SelectGroup>)
    ensures
        flat_choices(SelectOptions::Grouped(groups)) == group_choices(groups@),
{
}

}
