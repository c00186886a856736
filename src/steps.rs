//! The step model and the parser that reads it from a metadata document.

use crate::json::{field, get_field, get_str_field, str_field, Json};
use crate::text::{push_char, same_text};
use vstd::prelude::*;

verus! {

/// What distinguishes one kind of selectable option from another.
#[derive(Debug, PartialEq, Eq)]
pub enum ItemKind {
    Default,
    /// An option of a grouped multi-choice step, with its group's name.
    Dependency(String),
    /// An option of an action step, with the request path it selects.
    Action(String),
}

/// One selectable option of a step.
#[derive(Debug, PartialEq, Eq)]
pub struct Item {
    pub id: String,
    pub name: String,
    pub kind: ItemKind,
}

/// Mathematical model of an [`ItemKind`].
pub enum ItemKindView {
    Default,
    Dependency(Seq<char>),
    Action(Seq<char>),
}

/// Mathematical model of an [`Item`].
pub struct ItemView {
    pub id: Seq<char>,
    pub name: Seq<char>,
    pub kind: ItemKindView,
}

impl View for ItemKind {
    type V = ItemKindView;

    open spec fn view(&self) -> ItemKindView {
        match self {
            ItemKind::Default => ItemKindView::Default,
            ItemKind::Dependency(g) => ItemKindView::Dependency(g@),
            ItemKind::Action(a) => ItemKindView::Action(a@),
        }
    }
}

impl View for Item {
    type V = ItemView;

    open spec fn view(&self) -> ItemView {
        ItemView { id: self.id@, name: self.name@, kind: self.kind@ }
    }
}

/// The models of a sequence of items, in order.
pub open spec fn items_view(items: Seq<Item>) -> Seq<ItemView> {
    items.map_values(|i: Item| i@)
}

impl Clone for ItemKind {
    fn clone(&self) -> (r: Self)
        ensures
            r == *self,
    {
        match self {
            ItemKind::Default => ItemKind::Default,
            ItemKind::Dependency(g) => ItemKind::Dependency(g.clone()),
            ItemKind::Action(a) => ItemKind::Action(a.clone()),
        }
    }
}

impl Clone for Item {
    fn clone(&self) -> (r: Self)
        ensures
            r == *self,
    {
        Item { id: self.id.clone(), name: self.name.clone(), kind: self.kind.clone() }
    }
}

impl Item {
    /// A plain option.
    pub fn new_default(id: String, name: String) -> (r: Item)
        ensures
            r@ == (ItemView { id: id@, name: name@, kind: ItemKindView::Default }),
    {
        Item { id, name, kind: ItemKind::Default }
    }

    /// An option of an action step, which selects the request path `action`.
    pub fn new_action(id: String, name: String, action: String) -> (r: Item)
        ensures
            r@ == (ItemView { id: id@, name: name@, kind: ItemKindView::Action(action@) }),
    {
        Item { id, name, kind: ItemKind::Action(action) }
    }

    /// An option of a grouped multi-choice step, shown under `group`.
    pub fn new_dependency(id: String, name: String, group: String) -> (r: Item)
        ensures
            r@ == (ItemView { id: id@, name: name@, kind: ItemKindView::Dependency(group@) }),
    {
        Item { id, name, kind: ItemKind::Dependency(group) }
    }
}

/// How an item is shown to the user: its name, and for an option of a
/// grouped step also its id and group, as `name - (id) [group]`.
pub open spec fn label_of(i: ItemView) -> Seq<char> {
    match i.kind {
        ItemKindView::Dependency(g) => i.name + seq![' ', '-', ' ', '('] + i.id + seq![')', ' ', '[']
            + g + seq![']'],
        _ => i.name,
    }
}

impl Item {
    /// The text shown for this item in a prompt.
    pub fn label(&self) -> (r: String)
        ensures
            r@ == label_of(self@),
    {
        let mut r = self.name.clone();
        match &self.kind {
            ItemKind::Dependency(group) => {
                push_char(&mut r, ' ');
                push_char(&mut r, '-');
                push_char(&mut r, ' ');
                push_char(&mut r, '(');
                r.append(self.id.as_str());
                push_char(&mut r, ')');
                push_char(&mut r, ' ');
                push_char(&mut r, '[');
                r.append(group.as_str());
                push_char(&mut r, ']');
                assert(r@ =~= label_of(self@));
            },
            _ => {},
        }
        r
    }
}

/// The four kinds of configuration question.
#[derive(Debug, PartialEq, Eq)]
pub enum StepKind {
    /// Free text, answered with a string.
    Text { default: String },
    /// Exactly one choice from a flat list.
    SingleSelect { default: String, values: Vec<Item> },
    /// Exactly one choice, whose item names the request path.
    Action { default: String, values: Vec<Item> },
    /// Zero or more choices from a grouped list; no default.
    MultiSelect { values: Vec<Item> },
}

/// One configuration question: `name` is the wire parameter key.
#[derive(Debug, PartialEq, Eq)]
pub struct Step {
    pub name: String,
    pub kind: StepKind,
}

/// Mathematical model of a [`StepKind`].
pub enum StepKindView {
    Text { default: Seq<char> },
    SingleSelect { default: Seq<char>, values: Seq<ItemView> },
    Action { default: Seq<char>, values: Seq<ItemView> },
    MultiSelect { values: Seq<ItemView> },
}

/// Mathematical model of a [`Step`].
pub struct StepView {
    pub name: Seq<char>,
    pub kind: StepKindView,
}

impl View for StepKind {
    type V = StepKindView;

    open spec fn view(&self) -> StepKindView {
        match self {
            StepKind::Text { default } => StepKindView::Text { default: default@ },
            StepKind::SingleSelect { default, values } => StepKindView::SingleSelect {
                default: default@,
                values: items_view(values@),
            },
            StepKind::Action { default, values } => StepKindView::Action {
                default: default@,
                values: items_view(values@),
            },
            StepKind::MultiSelect { values } => StepKindView::MultiSelect {
                values: items_view(values@),
            },
        }
    }
}

impl View for Step {
    type V = StepView;

    open spec fn view(&self) -> StepView {
        StepView { name: self.name@, kind: self.kind@ }
    }
}

/// The models of a sequence of steps, in order.
pub open spec fn steps_view(steps: Seq<Step>) -> Seq<StepView> {
    steps.map_values(|s: Step| s@)
}

fn clone_items(items: &Vec<Item>) -> (r: Vec<Item>)
    ensures
        r@ == items@,
{
    let r = items.clone();
    assert(r@ =~= items@);
    r
}

impl Clone for StepKind {
    fn clone(&self) -> (r: Self)
        ensures
            r@ == self@,
    {
        match self {
            StepKind::Text { default } => StepKind::Text { default: default.clone() },
            StepKind::SingleSelect { default, values } => StepKind::SingleSelect {
                default: default.clone(),
                values: clone_items(values),
            },
            StepKind::Action { default, values } => StepKind::Action {
                default: default.clone(),
                values: clone_items(values),
            },
            StepKind::MultiSelect { values } => StepKind::MultiSelect {
                values: clone_items(values),
            },
        }
    }
}

impl Clone for Step {
    fn clone(&self) -> (r: Self)
        ensures
            r@ == self@,
    {
        Step { name: self.name.clone(), kind: self.kind.clone() }
    }
}

/// Why a metadata document could not be read.
#[derive(Debug, Clone, Copy, PartialEq, Eq, Structural)]
pub enum MetadataError {
    /// The document is not a JSON object.
    NotAnObject,
    /// A step of a recognised type lacks a required field, or has one of the
    /// wrong JSON type.
    MalformedMetadata,
}

/// The type tag of a step, as recognised.
#[derive(Debug, Clone, Copy, PartialEq, Eq, Structural)]
pub enum StepTag {
    Text,
    SingleSelect,
    Action,
    MultiSelect,
}

/// The tag that a type name stands for; both the upper-case and the
/// lower-case spellings that the service has used are accepted.
pub open spec fn tag_named(t: Seq<char>) -> Option<StepTag> {
    if t == "TEXT"@ || t == "text"@ {
        Some(StepTag::Text)
    } else if t == "SINGLE_SELECT"@ || t == "single-select"@ {
        Some(StepTag::SingleSelect)
    } else if t == "ACTION"@ || t == "action"@ {
        Some(StepTag::Action)
    } else if t == "HIERARCHICAL_MULTI_SELECT"@ || t == "hierarchical-multi-select"@ {
        Some(StepTag::MultiSelect)
    } else {
        None
    }
}

/// The recognised tag of a step body: its `type` member must be a string.
pub open spec fn tag_of(body: Json) -> Option<StepTag> {
    match str_field(body, "type"@) {
        Some(t) => tag_named(t),
        None => None,
    }
}

/// Keys of the document that hold service metadata rather than steps.
pub open spec fn is_reserved_key(key: Seq<char>) -> bool {
    key == "configuration"@ || key == "_links"@
}

/// The option list of a body: its `content` member, or else its `values`
/// member, which must be an array.
pub open spec fn payload_of(body: Json) -> Option<Seq<Json>> {
    match field(body, "content"@) {
        Some(Json::Array(a)) => Some(a@),
        Some(_) => None,
        None => match field(body, "values"@) {
            Some(Json::Array(a)) => Some(a@),
            _ => None,
        },
    }
}

/// One option read from `v` for a step with tag `tag`; `group` is the group
/// name that options of a multi-choice step carry.
pub open spec fn item_of(v: Json, tag: StepTag, group: Seq<char>) -> Option<ItemView> {
    match (str_field(v, "id"@), str_field(v, "name"@)) {
        (Some(id), Some(name)) => match tag {
            StepTag::Action => match str_field(v, "action"@) {
                Some(a) => Some(ItemView { id, name, kind: ItemKindView::Action(a) }),
                None => None,
            },
            StepTag::MultiSelect => Some(
                ItemView { id, name, kind: ItemKindView::Dependency(group) },
            ),
            _ => Some(ItemView { id, name, kind: ItemKindView::Default }),
        },
        _ => None,
    }
}

/// All options read from `vs`, in order; `None` when one is malformed.
pub open spec fn items_of(vs: Seq<Json>, tag: StepTag, group: Seq<char>) -> Option<Seq<ItemView>>
    decreases vs.len(),
{
    if vs.len() == 0 {
        Some(Seq::empty())
    } else {
        match (items_of(vs.drop_last(), tag, group), item_of(vs.last(), tag, group)) {
            (Some(a), Some(i)) => Some(a.push(i)),
            _ => None,
        }
    }
}

/// The options of one group of a multi-choice step, tagged with its name.
pub open spec fn group_items(g: Json) -> Option<Seq<ItemView>> {
    match (str_field(g, "name"@), payload_of(g)) {
        (Some(n), Some(p)) => items_of(p, StepTag::MultiSelect, n),
        _ => None,
    }
}

/// The options of all groups, flattened in order.
pub open spec fn groups_of(gs: Seq<Json>) -> Option<Seq<ItemView>>
    decreases gs.len(),
{
    if gs.len() == 0 {
        Some(Seq::empty())
    } else {
        match (groups_of(gs.drop_last()), group_items(gs.last())) {
            (Some(a), Some(b)) => Some(a + b),
            _ => None,
        }
    }
}

/// Whether an option carries the flag `"default": true`.
pub open spec fn is_flagged(v: Json) -> bool {
    field(v, "default"@) == Some(Json::Bool(true))
}

/// The id of the first option flagged as default.
pub open spec fn flagged_default(vs: Seq<Json>) -> Option<Seq<char>>
    decreases vs.len(),
{
    if vs.len() == 0 {
        None
    } else if is_flagged(vs[0]) {
        str_field(vs[0], "id"@)
    } else {
        flagged_default(vs.drop_first())
    }
}

/// The default of a choice step: the flagged option, or else the body's own
/// `default` member.
pub open spec fn choice_default(body: Json, vs: Seq<Json>) -> Option<Seq<char>> {
    match flagged_default(vs) {
        Some(d) => Some(d),
        None => str_field(body, "default"@),
    }
}

/// The default of a text step: its `content` member, or else its `default`
/// member, which must be a string.
pub open spec fn text_default(body: Json) -> Option<Seq<char>> {
    match field(body, "content"@) {
        Some(Json::Str(s)) => Some(s@),
        Some(_) => None,
        None => str_field(body, "default"@),
    }
}

/// The name of a step: its `id` member, or else its key in the document.
pub open spec fn step_name(key: Seq<char>, body: Json) -> Option<Seq<char>> {
    match field(body, "id"@) {
        None => Some(key),
        Some(Json::Str(s)) => Some(s@),
        Some(_) => None,
    }
}

/// The kind of a step whose tag is `tag`.
pub open spec fn kind_of(tag: StepTag, body: Json) -> Option<StepKindView> {
    match tag {
        StepTag::Text => match text_default(body) {
            Some(d) => Some(StepKindView::Text { default: d }),
            None => None,
        },
        StepTag::MultiSelect => match payload_of(body) {
            Some(p) => match groups_of(p) {
                Some(values) => Some(StepKindView::MultiSelect { values }),
                None => None,
            },
            None => None,
        },
        _ => match payload_of(body) {
            Some(p) => match (items_of(p, tag, Seq::empty()), choice_default(body, p)) {
                (Some(values), Some(default)) => if tag == StepTag::Action {
                    Some(StepKindView::Action { default, values })
                } else {
                    Some(StepKindView::SingleSelect { default, values })
                },
                _ => None,
            },
            None => None,
        },
    }
}

/// What one member of the document contributes.
pub enum EntryOutcome {
    /// Not a step this library recognises: ignored.
    Skip,
    /// A recognised step that lacks what its kind requires.
    Malformed,
    Parsed(StepView),
}

/// What the member `key: body` of the document contributes.
pub open spec fn entry_outcome(key: Seq<char>, body: Json) -> EntryOutcome {
    if is_reserved_key(key) {
        EntryOutcome::Skip
    } else {
        match tag_of(body) {
            None => EntryOutcome::Skip,
            Some(tag) => match (step_name(key, body), kind_of(tag, body)) {
                (Some(name), Some(kind)) => EntryOutcome::Parsed(StepView { name, kind }),
                _ => EntryOutcome::Malformed,
            },
        }
    }
}

/// The steps of the members `es`, in order, or the first failure.
pub open spec fn parse_entries(es: Seq<(String, Json)>) -> Result<Seq<StepView>, MetadataError>
    decreases es.len(),
{
    if es.len() == 0 {
        Ok(Seq::empty())
    } else {
        match parse_entries(es.drop_last()) {
            Err(e) => Err(e),
            Ok(steps) => match entry_outcome(es.last().0@, es.last().1) {
                EntryOutcome::Skip => Ok(steps),
                EntryOutcome::Malformed => Err(MetadataError::MalformedMetadata),
                EntryOutcome::Parsed(s) => Ok(steps.push(s)),
            },
        }
    }
}

/// The steps that a metadata document describes.
pub open spec fn parse_document(doc: Json) -> Result<Seq<StepView>, MetadataError> {
    match doc {
        Json::Object(members) => parse_entries(members@),
        _ => Err(MetadataError::NotAnObject),
    }
}

/// Once a prefix of the options is malformed, so is the whole list.
proof fn lemma_items_prefix_fails(vs: Seq<Json>, k: int, tag: StepTag, group: Seq<char>)
    requires
        0 <= k <= vs.len(),
        items_of(vs.subrange(0, k), tag, group) is None,
    ensures
        items_of(vs, tag, group) is None,
    decreases vs.len(),
{
    if k < vs.len() {
        assert(vs.drop_last().subrange(0, k) =~= vs.subrange(0, k));
        lemma_items_prefix_fails(vs.drop_last(), k, tag, group);
    } else {
        assert(vs.subrange(0, k) =~= vs);
    }
}

/// Once a prefix of the groups is malformed, so is the whole list.
proof fn lemma_groups_prefix_fails(gs: Seq<Json>, k: int)
    requires
        0 <= k <= gs.len(),
        groups_of(gs.subrange(0, k)) is None,
    ensures
        groups_of(gs) is None,
    decreases gs.len(),
{
    if k < gs.len() {
        assert(gs.drop_last().subrange(0, k) =~= gs.subrange(0, k));
        lemma_groups_prefix_fails(gs.drop_last(), k);
    } else {
        assert(gs.subrange(0, k) =~= gs);
    }
}

/// Once a prefix of the members fails, the document fails the same way.
proof fn lemma_entries_prefix_fails(es: Seq<(String, Json)>, k: int)
    requires
        0 <= k <= es.len(),
        parse_entries(es.subrange(0, k)) is Err,
    ensures
        parse_entries(es) == parse_entries(es.subrange(0, k)),
    decreases es.len(),
{
    if k < es.len() {
        assert(es.drop_last().subrange(0, k) =~= es.subrange(0, k));
        lemma_entries_prefix_fails(es.drop_last(), k);
    } else {
        assert(es.subrange(0, k) =~= es);
    }
}

fn tag_from_name(t: &str) -> (r: Option<StepTag>)
    ensures
        r == tag_named(t@),
{
    if same_text(t, "TEXT") || same_text(t, "text") {
        Some(StepTag::Text)
    } else if same_text(t, "SINGLE_SELECT") || same_text(t, "single-select") {
        Some(StepTag::SingleSelect)
    } else if same_text(t, "ACTION") || same_text(t, "action") {
        Some(StepTag::Action)
    } else if same_text(t, "HIERARCHICAL_MULTI_SELECT") || same_text(
        t,
        "hierarchical-multi-select",
    ) {
        Some(StepTag::MultiSelect)
    } else {
        None
    }
}

fn step_tag(body: &Json) -> (r: Option<StepTag>)
    ensures
        r == tag_of(*body),
{
    match get_str_field(body, "type") {
        Some(t) => tag_from_name(t.as_str()),
        None => None,
    }
}

fn payload(body: &Json) -> (r: Option<&Vec<Json>>)
    ensures
        match r {
            Some(a) => payload_of(*body) == Some(a@),
            None => payload_of(*body) is None,
        },
{
    match get_field(body, "content") {
        Some(Json::Array(a)) => Some(a),
        Some(_) => None,
        None => match get_field(body, "values") {
            Some(Json::Array(a)) => Some(a),
            _ => None,
        },
    }
}

fn parse_item(v: &Json, tag: StepTag, group: &String) -> (r: Option<Item>)
    ensures
        match r {
            Some(i) => item_of(*v, tag, group@) == Some(i@),
            None => item_of(*v, tag, group@) is None,
        },
{
    let id = match get_str_field(v, "id") {
        Some(s) => s,
        None => return None,
    };
    let name = match get_str_field(v, "name") {
        Some(s) => s,
        None => return None,
    };
    match tag {
        StepTag::Action => match get_str_field(v, "action") {
            Some(a) => Some(Item::new_action(id.clone(), name.clone(), a.clone())),
            None => None,
        },
        StepTag::MultiSelect => Some(Item::new_dependency(id.clone(), name.clone(), group.clone())),
        _ => Some(Item::new_default(id.clone(), name.clone())),
    }
}

fn parse_items(vs: &Vec<Json>, tag: StepTag, group: &String) -> (r: Option<Vec<Item>>)
    ensures
        match r {
            Some(items) => items_of(vs@, tag, group@) == Some(items_view(items@)),
            None => items_of(vs@, tag, group@) is None,
        },
{
    let n = vs.len();
    let mut out: Vec<Item> = Vec::new();
    let mut i: usize = 0;
    assert(vs@.subrange(0, 0) =~= Seq::<Json>::empty());
    assert(items_view(out@) =~= Seq::<ItemView>::empty());
    while i < n
        invariant
            0 <= i <= n == vs@.len(),
            items_of(vs@.subrange(0, i as int), tag, group@) == Some(items_view(out@)),
        decreases n - i,
    {
        let ghost before = out@;
        assert(vs@.subrange(0, i + 1).drop_last() =~= vs@.subrange(0, i as int));
        match parse_item(&vs[i], tag, group) {
            Some(item) => {
                out.push(item);
                assert(items_view(out@) =~= items_view(before).push(out@.last()@));
            },
            None => {
                proof {
                    lemma_items_prefix_fails(vs@, i + 1, tag, group@);
                }
                return None;
            },
        }
        i = i + 1;
    }
    assert(vs@.subrange(0, n as int) =~= vs@);
    Some(out)
}

fn parse_groups(gs: &Vec<Json>) -> (r: Option<Vec<Item>>)
    ensures
        match r {
            Some(items) => groups_of(gs@) == Some(items_view(items@)),
            None => groups_of(gs@) is None,
        },
{
    let n = gs.len();
    let mut out: Vec<Item> = Vec::new();
    let mut i: usize = 0;
    assert(gs@.subrange(0, 0) =~= Seq::<Json>::empty());
    assert(items_view(out@) =~= Seq::<ItemView>::empty());
    while i < n
        invariant
            0 <= i <= n == gs@.len(),
            groups_of(gs@.subrange(0, i as int)) == Some(items_view(out@)),
        decreases n - i,
    {
        let ghost before = out@;
        assert(gs@.subrange(0, i + 1).drop_last() =~= gs@.subrange(0, i as int));
        let g = &gs[i];
        let parsed = match (get_str_field(g, "name"), payload(g)) {
            (Some(name), Some(p)) => parse_items(p, StepTag::MultiSelect, name),
            _ => None,
        };
        match parsed {
            Some(mut items) => {
                let ghost added = items@;
                out.append(&mut items);
                assert(items_view(out@) =~= items_view(before) + items_view(added));
            },
            None => {
                proof {
                    lemma_groups_prefix_fails(gs@, i + 1);
                }
                return None;
            },
        }
        i = i + 1;
    }
    assert(gs@.subrange(0, n as int) =~= gs@);
    Some(out)
}

fn find_flagged_default(vs: &Vec<Json>) -> (r: Option<&String>)
    ensures
        match r {
            Some(d) => flagged_default(vs@) == Some(d@),
            None => flagged_default(vs@) is None,
        },
{
    let n = vs.len();
    let mut i: usize = 0;
    assert(vs@.subrange(0, n as int) =~= vs@);
    while i < n
        invariant
            0 <= i <= n == vs@.len(),
            flagged_default(vs@) == flagged_default(vs@.subrange(i as int, n as int)),
        decreases n - i,
    {
        let ghost rest = vs@.subrange(i as int, n as int);
        assert(rest.drop_first() =~= vs@.subrange(i + 1, n as int));
        assert(rest[0] == vs@[i as int]);
        match get_field(&vs[i], "default") {
            Some(Json::Bool(true)) => {
                return get_str_field(&vs[i], "id");
            },
            _ => {},
        }
        i = i + 1;
    }
    None
}

fn parse_kind(tag: StepTag, body: &Json) -> (r: Option<StepKind>)
    ensures
        match r {
            Some(k) => kind_of(tag, *body) == Some(k@),
            None => kind_of(tag, *body) is None,
        },
{
    match tag {
        StepTag::Text => match get_field(body, "content") {
            Some(Json::Str(s)) => Some(StepKind::Text { default: s.clone() }),
            Some(_) => None,
            None => match get_str_field(body, "default") {
                Some(s) => Some(StepKind::Text { default: s.clone() }),
                None => None,
            },
        },
        StepTag::MultiSelect => match payload(body) {
            Some(p) => match parse_groups(p) {
                Some(values) => Some(StepKind::MultiSelect { values }),
                None => None,
            },
            None => None,
        },
        _ => {
            let p = match payload(body) {
                Some(p) => p,
                None => return None,
            };
            let values = match parse_items(p, tag, &String::new()) {
                Some(values) => values,
                None => return None,
            };
            let default = match find_flagged_default(p) {
                Some(d) => d.clone(),
                None => match get_str_field(body, "default") {
                    Some(d) => d.clone(),
                    None => return None,
                },
            };
            if tag == StepTag::Action {
                Some(StepKind::Action { default, values })
            } else {
                Some(StepKind::SingleSelect { default, values })
            }
        },
    }
}

/// What one member of the document contributes.
enum Entry {
    Skip,
    Malformed,
    Parsed(Step),
}

fn parse_entry(key: &String, body: &Json) -> (r: Entry)
    ensures
        match r {
            Entry::Skip => entry_outcome(key@, *body) is Skip,
            Entry::Malformed => entry_outcome(key@, *body) is Malformed,
            Entry::Parsed(s) => entry_outcome(key@, *body) == EntryOutcome::Parsed(s@),
        },
{
    if same_text(key.as_str(), "configuration") || same_text(key.as_str(), "_links") {
        return Entry::Skip;
    }
    let tag = match step_tag(body) {
        Some(t) => t,
        None => return Entry::Skip,
    };
    let name = match get_field(body, "id") {
        None => key.clone(),
        Some(Json::Str(s)) => s.clone(),
        Some(_) => return Entry::Malformed,
    };
    match parse_kind(tag, body) {
        Some(kind) => Entry::Parsed(Step { name, kind }),
        None => Entry::Malformed,
    }
}

impl Step {
    /// Reads the steps of a metadata document, in document order. Members
    /// that are not steps of a recognised type are skipped; a recognised step
    /// that lacks a required field fails the whole document.
    pub fn from_json(json: Json) -> (r: Result<Vec<Step>, MetadataError>)
        ensures
            match r {
                Ok(steps) => parse_document(json) == Ok::<Seq<StepView>, MetadataError>(
                    steps_view(steps@),
                ),
                Err(e) => parse_document(json) == Err::<Seq<StepView>, MetadataError>(e),
            },
    {
        let members = match &json {
            Json::Object(members) => members,
            _ => return Err(MetadataError::NotAnObject),
        };
        let n = members.len();
        let mut list: Vec<Step> = Vec::new();
        let mut i: usize = 0;
        assert(members@.subrange(0, 0) =~= Seq::<(String, Json)>::empty());
        assert(steps_view(list@) =~= Seq::<StepView>::empty());
        while i < n
            invariant
                0 <= i <= n == members@.len(),
                parse_document(json) == parse_entries(members@),
                parse_entries(members@.subrange(0, i as int)) == Ok::<Seq<StepView>, MetadataError>(
                    steps_view(list@),
                ),
            decreases n - i,
        {
            let ghost before = list@;
            assert(members@.subrange(0, i + 1).drop_last() =~= members@.subrange(0, i as int));
            assert(members@.subrange(0, i + 1).last() == members@[i as int]);
            let (key, body) = &members[i];
            match parse_entry(key, body) {
                Entry::Skip => {},
                Entry::Malformed => {
                    proof {
                        lemma_entries_prefix_fails(members@, i + 1);
                    }
                    return Err(MetadataError::MalformedMetadata);
                },
                Entry::Parsed(step) => {
                    list.push(step);
                    assert(steps_view(list@) =~= steps_view(before).push(list@.last()@));
                },
            }
            i = i + 1;
        }
        assert(members@.subrange(0, n as int) =~= members@);
        Ok(list)
    }
}

/// Parsing depends on the document alone: two parses of the same document
/// give the same steps in the same order, or the same error.
pub proof fn lemma_parse_repeatable(
    doc: Json,
    first: Result<Seq<StepView>, MetadataError>,
    second: Result<Seq<StepView>, MetadataError>,
)
    requires
        first == parse_document(doc),
        second == parse_document(doc),
    ensures
        first == second,
{
}

/// A member whose type is missing or not recognised contributes nothing:
/// inserting it anywhere among a document's members leaves the parse, and the
/// order of the recognised steps, unchanged.
pub proof fn lemma_unrecognised_member_ignored(
    members: Seq<(String, Json)>,
    at: int,
    extra: (String, Json),
)
    requires
        0 <= at <= members.len(),
        tag_of(extra.1) is None,
    ensures
        parse_entries(members.insert(at, extra)) == parse_entries(members),
    decreases members.len(),
{
    if at == members.len() {
        assert(members.insert(at, extra).drop_last() =~= members);
    } else {
        assert(members.insert(at, extra).drop_last() =~= members.drop_last().insert(at, extra));
        assert(members.insert(at, extra).last() == members.last());
        lemma_unrecognised_member_ignored(members.drop_last(), at, extra);
    }
}

/// The number of members of a recognised type, outside the reserved keys.
pub open spec fn recognised_count(es: Seq<(String, Json)>) -> nat
    decreases es.len(),
{
    if es.len() == 0 {
        0
    } else {
        recognised_count(es.drop_last()) + if entry_outcome(es.last().0@, es.last().1) is Skip {
            0nat
        } else {
            1nat
        }
    }
}

/// A document that parses yields exactly one step for each member of a
/// recognised type, and none of those members is malformed.
pub proof fn lemma_one_step_per_recognised_member(es: Seq<(String, Json)>)
    ensures
        parse_entries(es) matches Ok(steps) ==> {
            &&& steps.len() == recognised_count(es)
            &&& forall|i: int|
                0 <= i < es.len() ==> !(#[trigger] entry_outcome(es[i].0@, es[i].1) is Malformed)
        },
    decreases es.len(),
{
    if es.len() > 0 {
        let init = es.drop_last();
        lemma_one_step_per_recognised_member(init);
        if parse_entries(es) is Ok {
            assert(parse_entries(init) is Ok);
            let last = entry_outcome(es.last().0@, es.last().1);
            assert(!(last is Malformed));
            assert forall|i: int|
                0 <= i < es.len() implies !(#[trigger] entry_outcome(es[i].0@, es[i].1) is Malformed) by {
                if i < es.len() - 1 {
                    assert(init[i] == es[i]);
                    assert(!(entry_outcome(init[i].0@, init[i].1) is Malformed));
                }
            }
        }
    }
}

} // verus!
