//! The launch picker: the agent, model and effort the next session starts with.

use vstd::prelude::*;

use crate::order::{lemma_stable_sort_unique, reorders, stable_sort, stably_sorted, values, without_ranks};
use crate::protocol::{Effort, Provider, Selection};
use crate::text::{contains_text, holds, position_of};

verus! {

/// What one agent offers.
#[derive(Debug, PartialEq, Eq)]
pub struct ProviderEntry {
    pub provider: Provider,
    pub name: String,
    pub models: Vec<String>,
    pub efforts: Vec<Effort>,
    pub default_model: String,
    pub default_effort: Effort,
}

/// What every agent offers, in the order they are listed.
#[derive(Debug, PartialEq, Eq)]
pub struct Catalog {
    pub providers: Vec<ProviderEntry>,
}

impl Catalog {
    /// There is an agent, and each offers a model and an effort.
    pub open spec fn wf(self) -> bool {
        &&& self.providers@.len() > 0
        &&& forall|i: int|
            0 <= i < self.providers@.len() ==> (#[trigger] self.providers@[i]).models@.len() > 0
                && self.providers@[i].models@.len() < usize::MAX
                && self.providers@[i].efforts@.len() > 0
    }

    /// The row of an agent, or the first row.
    pub open spec fn row(self, provider: Provider) -> int {
        if self.has(provider) {
            self.first_row(provider, 0)
        } else {
            0
        }
    }

    /// Whether an agent is listed.
    pub open spec fn has(self, provider: Provider) -> bool {
        exists|i: int|
            0 <= i < self.providers@.len() && (#[trigger] self.providers@[i]).provider == provider
    }

    /// The first row of an agent that is at least `from`.
    pub open spec fn first_row(self, provider: Provider, from: int) -> int
        decreases self.providers@.len() - from,
    {
        if from < 0 || from >= self.providers@.len() || self.providers@[from].provider == provider {
            from
        } else {
            self.first_row(provider, from + 1)
        }
    }

    /// The row of an agent, or the first row.
    pub fn row_of_provider(&self, provider: Provider) -> (r: usize)
        ensures
            r == self.row(provider),
            self.providers@.len() > 0 ==> r < self.providers@.len(),
    {
        let mut i: usize = 0;
        while i < self.providers.len()
            invariant
                i <= self.providers@.len(),
                self.first_row(provider, 0) == self.first_row(provider, i as int),
                forall|j: int|
                    0 <= j < i ==> (#[trigger] self.providers@[j]).provider != provider,
            decreases self.providers.len() - i,
        {
            if self.providers[i].provider == provider {
                assert(self.has(provider));
                return i;
            }
            i = i + 1;
        }
        assert(!self.has(provider));
        0
    }

    /// The name of an agent, where it is listed.
    pub fn name_of(&self, provider: Provider) -> (r: Option<&str>)
        ensures
            match r {
                Some(name) => self.has(provider) && name@ == self.providers@[self.row(
                    provider,
                )].name@,
                None => !self.has(provider),
            },
    {
        let row = self.row_of_provider(provider);
        if self.providers.len() == 0 || !(self.providers[row].provider == provider) {
            proof {
                if self.has(provider) {
                    let i = choose|i: int|
                        0 <= i < self.providers@.len() && (#[trigger] self.providers@[i]).provider
                            == provider;
                    lemma_first_row(*self, provider, 0, i);
                }
            }
            return None;
        }
        assert(self.has(provider));
        Some(self.providers[row].name.as_str())
    }
}

proof fn lemma_first_row(catalog: Catalog, provider: Provider, from: int, i: int)
    requires
        0 <= from <= i < catalog.providers@.len(),
        catalog.providers@[i].provider == provider,
    ensures
        catalog.first_row(provider, from) < catalog.providers@.len(),
        catalog.providers@[catalog.first_row(provider, from)].provider == provider,
    decreases i - from,
{
    if catalog.providers@[from].provider != provider {
        lemma_first_row(catalog, provider, from + 1, i);
    }
}

/// Which of the picker's columns has the keys.
#[derive(Clone, Copy, Debug, PartialEq, Eq, Structural)]
pub enum LaunchColumn {
    Provider,
    Model,
    Effort,
}

impl LaunchColumn {
    pub open spec fn after(self) -> LaunchColumn {
        match self {
            LaunchColumn::Provider => LaunchColumn::Model,
            LaunchColumn::Model => LaunchColumn::Effort,
            LaunchColumn::Effort => LaunchColumn::Provider,
        }
    }

    pub open spec fn before(self) -> LaunchColumn {
        match self {
            LaunchColumn::Provider => LaunchColumn::Effort,
            LaunchColumn::Model => LaunchColumn::Provider,
            LaunchColumn::Effort => LaunchColumn::Model,
        }
    }
}

/// The columns come round in either direction, and each direction undoes the
/// other.
pub proof fn law_columns_come_round(column: LaunchColumn)
    ensures
        column.after().before() == column,
        column.before().after() == column,
        column.after().after().after() == column,
{
}

/// The picker. It describes the next session; nothing is launched by it.
#[derive(Debug, PartialEq, Eq)]
pub struct Launcher {
    pub column: LaunchColumn,
    /// The row of the agent.
    pub provider: usize,
    /// The row of the model.
    pub model: usize,
    /// The row of the effort.
    pub effort: usize,
    /// A model that the agent does not offer but that the picker was opened on.
    pub carried_model: Option<String>,
    /// The models chosen before, the last one first.
    pub recent_models: Vec<String>,
}

/// When a model was last chosen, among those chosen before: its place in the
/// list, or behind all of them.
pub open spec fn recency(recent: Seq<String>, model: Seq<char>) -> u64
    decreases recent.len(),
{
    if recent.len() == 0 {
        u64::MAX
    } else if recent[0]@ == model {
        0
    } else {
        let later = recency(recent.skip(1), model);
        if later == u64::MAX {
            u64::MAX
        } else {
            (later + 1) as u64
        }
    }
}

/// Each model with when it was last chosen.
pub open spec fn by_recency(rows: Seq<String>, recent: Seq<String>) -> Seq<(u64, String)> {
    rows.map_values(|m: String| (recency(recent, m@), m))
}

/// The models in the order they are listed: those chosen before first, the last
/// one at the top, and the others as they were.
pub open spec fn ordered_models(rows: Seq<String>, recent: Seq<String>) -> Seq<String> {
    values(choose|after: Seq<(u64, String)>| stably_sorted(by_recency(rows, recent), after))
}

pub(crate) proof fn lemma_recency(recent: Seq<String>, model: Seq<char>, at: int)
    requires
        0 <= at <= recent.len(),
        recent.len() <= u64::MAX,
        forall|j: int| 0 <= j < at ==> (#[trigger] recent[j])@ != model,
        at < recent.len() ==> recent[at]@ == model,
    ensures
        recency(recent, model) == if at < recent.len() {
            at as u64
        } else {
            u64::MAX
        },
    decreases recent.len(),
{
    if recent.len() > 0 && at > 0 {
        assert(recent[0]@ != model);
        let rest = recent.skip(1);
        assert forall|j: int| 0 <= j < at - 1 implies (#[trigger] rest[j])@ != model by {
            assert(recent[j + 1]@ != model);
        }
        lemma_recency(rest, model, at - 1);
    }
}

fn recency_of(recent: &Vec<String>, model: &str) -> (r: u64)
    ensures
        r == recency(recent@, model@),
{
    let count: usize = recent.len();
    match position_of(recent, model) {
        Some(at) => {
            proof {
                lemma_recency(recent@, model@, at as int);
            }
            at as u64
        },
        None => {
            proof {
                assert forall|j: int| 0 <= j < recent@.len() implies (#[trigger] recent@[j])@
                    != model@ by {
                    if recent@[j]@ == model@ {
                        assert(holds(recent@, model@));
                    }
                }
                lemma_recency(recent@, model@, count as int);
            }
            u64::MAX
        },
    }
}

/// Order models by when they were last chosen.
pub fn order_models(rows: Vec<String>, recent: &Vec<String>) -> (r: Vec<String>)
    ensures
        r@ == ordered_models(rows@, recent@),
        r@.len() == rows@.len(),
        stably_sorted(by_recency(rows@, recent@), by_recency(r@, recent@)),
{
    let ghost before = rows@;
    let ghost wanted = by_recency(before, recent@);
    let mut rest = rows;
    let mut pairs: Vec<(u64, String)> = Vec::new();
    while rest.len() > 0
        invariant
            before.len() == pairs@.len() + rest@.len(),
            rest@ == before.skip(pairs@.len() as int),
            wanted == by_recency(before, recent@),
            pairs@ == wanted.take(pairs@.len() as int),
        decreases rest@.len(),
    {
        let ghost n = pairs@.len() as int;
        let model = rest.remove(0);
        assert(model == before[n]);
        assert(before.skip(n).remove(0) =~= before.skip(n + 1));
        pairs.push((recency_of(recent, model.as_str()), model));
        assert(wanted.take(n + 1) =~= wanted.take(n).push(wanted[n]));
    }
    assert(wanted.take(before.len() as int) =~= wanted);
    let held = stable_sort(pairs);
    proof {
        let chosen = choose|after: Seq<(u64, String)>| stably_sorted(wanted, after);
        assert(stably_sorted(wanted, held@));
        lemma_stable_sort_unique(wanted, held@, chosen);
        let order = choose|order: Seq<int>| reorders(order, wanted, held@);
        assert(held@.len() == wanted.len());
        assert forall|i: int| 0 <= i < held@.len() implies #[trigger] held@[i] == by_recency(
            values(held@),
            recent@,
        )[i] by {
            assert(held@[i] == wanted[order[i]]);
        }
        assert(held@ =~= by_recency(values(held@), recent@));
    }
    without_ranks(held)
}

/// The place of a text in a list, or the first place.
pub open spec fn text_row(list: Seq<String>, text: Seq<char>) -> int {
    if holds(list, text) {
        first_text(list, text)
    } else {
        0
    }
}

/// The place of the first occurrence of a text.
pub open spec fn first_text(list: Seq<String>, text: Seq<char>) -> int
    decreases list.len(),
{
    if list.len() == 0 || list[0]@ == text {
        0
    } else {
        1 + first_text(list.skip(1), text)
    }
}

proof fn lemma_first_text(list: Seq<String>, text: Seq<char>, i: int)
    requires
        0 <= i < list.len(),
        list[i]@ == text,
        forall|j: int| 0 <= j < i ==> (#[trigger] list[j])@ != text,
    ensures
        first_text(list, text) == i,
    decreases list.len(),
{
    if i > 0 {
        assert(list[0]@ != text);
        let rest = list.skip(1);
        assert forall|j: int| 0 <= j < i - 1 implies (#[trigger] rest[j])@ != text by {
            assert(list[j + 1]@ != text);
        }
        lemma_first_text(rest, text, i - 1);
    }
}

fn row_of_text(list: &Vec<String>, text: &str) -> (r: usize)
    ensures
        r == text_row(list@, text@),
        list@.len() > 0 ==> r < list@.len(),
{
    match position_of(list, text) {
        Some(i) => {
            proof {
                lemma_first_text(list@, text@, i as int);
            }
            i
        },
        None => 0,
    }
}

/// The place of an effort in a list, or the first place.
pub open spec fn effort_row(list: Seq<Effort>, effort: Effort) -> int
    decreases list.len(),
{
    if list.contains(effort) {
        first_effort(list, effort)
    } else {
        0
    }
}

/// The place of the first occurrence of an effort.
pub open spec fn first_effort(list: Seq<Effort>, effort: Effort) -> int
    decreases list.len(),
{
    if list.len() == 0 || list[0] == effort {
        0
    } else {
        1 + first_effort(list.skip(1), effort)
    }
}

fn row_of_effort(list: &Vec<Effort>, effort: Effort) -> (r: usize)
    ensures
        r == effort_row(list@, effort),
        list@.len() > 0 ==> r < list@.len(),
{
    let mut i: usize = 0;
    assert(list@.skip(0) =~= list@);
    while i < list.len()
        invariant
            i <= list@.len(),
            first_effort(list@, effort) == i + first_effort(list@.skip(i as int), effort),
            forall|j: int| 0 <= j < i ==> list@[j] != effort,
        decreases list.len() - i,
    {
        assert(list@.skip(i as int).skip(1) =~= list@.skip(i + 1));
        assert(list@.skip(i as int)[0] == list@[i as int]);
        if list[i] == effort {
            assert(list@.contains(effort));
            return i;
        }
        i = i + 1;
    }
    0
}

impl Launcher {
    /// What the agent of the picker's row offers.
    pub open spec fn entry(self, catalog: Catalog) -> ProviderEntry {
        catalog.providers@[if self.provider < catalog.providers@.len() {
            self.provider as int
        } else {
            catalog.providers@.len() - 1
        }]
    }

    /// The models the agent offers, and the one that is carried.
    pub open spec fn unordered(self, catalog: Catalog) -> Seq<String> {
        match self.carried_model {
            Some(model) => self.entry(catalog).models@.push(model),
            None => self.entry(catalog).models@,
        }
    }

    /// The rows of the model column.
    pub open spec fn model_list(self, catalog: Catalog) -> Seq<String> {
        ordered_models(self.unordered(catalog), self.recent_models@)
    }

    /// What the picker describes.
    pub open spec fn described(self, catalog: Catalog) -> Selection {
        let entry = self.entry(catalog);
        let models = self.model_list(catalog);
        Selection {
            provider: entry.provider,
            model: if self.model < models.len() {
                models[self.model as int]
            } else {
                entry.default_model
            },
            effort: if self.effort < entry.efforts@.len() {
                entry.efforts@[self.effort as int]
            } else {
                entry.default_effort
            },
        }
    }

    /// How many rows a column has.
    pub open spec fn row_count(self, catalog: Catalog, column: LaunchColumn) -> nat {
        match column {
            LaunchColumn::Provider => catalog.providers@.len(),
            LaunchColumn::Model => self.unordered(catalog).len(),
            LaunchColumn::Effort => self.entry(catalog).efforts@.len(),
        }
    }

    /// The row of the focused column.
    pub open spec fn at(self) -> usize {
        match self.column {
            LaunchColumn::Provider => self.provider,
            LaunchColumn::Model => self.model,
            LaunchColumn::Effort => self.effort,
        }
    }

    /// With the focused column on `row`. Another agent starts from its own
    /// defaults, and takes no model along.
    pub open spec fn on(self, catalog: Catalog, row: usize) -> Launcher {
        match self.column {
            LaunchColumn::Provider => {
                let there = Launcher { provider: row, carried_model: None, ..self };
                let entry = there.entry(catalog);
                Launcher {
                    effort: effort_row(entry.efforts@, entry.default_effort) as usize,
                    model: text_row(there.model_list(catalog), entry.default_model@) as usize,
                    ..there
                }
            },
            LaunchColumn::Model => Launcher { model: row, ..self },
            LaunchColumn::Effort => Launcher { effort: row, ..self },
        }
    }

    /// One row further down.
    pub open spec fn lower(self, catalog: Catalog) -> Launcher {
        let last = self.row_count(catalog, self.column) - 1;
        self.on(
            catalog,
            if self.at() < last {
                (self.at() + 1) as usize
            } else {
                last as usize
            },
        )
    }

    /// One row further up.
    pub open spec fn upper(self, catalog: Catalog) -> Launcher {
        self.on(
            catalog,
            if self.at() > 0 {
                (self.at() - 1) as usize
            } else {
                0
            },
        )
    }

    /// A picker opened on a selection.
    pub open spec fn opened(
        catalog: Catalog,
        selection: Selection,
        recent: Vec<String>,
    ) -> Launcher {
        let provider = catalog.row(selection.provider) as usize;
        let entry = catalog.providers@[provider as int];
        let bare = Launcher {
            column: LaunchColumn::Provider,
            provider,
            model: 0,
            effort: effort_row(entry.efforts@, selection.effort) as usize,
            carried_model: if holds(entry.models@, selection.model@) {
                None
            } else {
                Some(selection.model)
            },
            recent_models: recent,
        };
        Launcher { model: text_row(bare.model_list(catalog), selection.model@) as usize, ..bare }
    }

    /// Open the picker on a selection. A model that the agent does not offer is
    /// carried as a row of its own.
    pub fn from_selection(
        catalog: &Catalog,
        selection: &Selection,
        recent_models: &Vec<String>,
    ) -> (r: Launcher)
        requires
            catalog.wf(),
        ensures
            r.recent_models@ == recent_models@,
            r == Launcher::opened(*catalog, *selection, r.recent_models),
    {
        let provider = catalog.row_of_provider(selection.provider);
        let entry = &catalog.providers[provider];
        let carried_model = if contains_text(&entry.models, selection.model.as_str()) {
            None
        } else {
            Some(selection.model.clone())
        };
        let effort = row_of_effort(&entry.efforts, selection.effort);
        let mut launcher = Launcher {
            column: LaunchColumn::Provider,
            provider,
            model: 0,
            effort,
            carried_model,
            recent_models: recent_models.clone(),
        };
        launcher.model = row_of_text(&launcher.models(catalog), selection.model.as_str());
        launcher
    }

    fn row_entry<'a>(&self, catalog: &'a Catalog) -> (r: &'a ProviderEntry)
        requires
            catalog.wf(),
        ensures
            *r == self.entry(*catalog),
            r.models@.len() > 0,
            r.models@.len() < usize::MAX,
            r.efforts@.len() > 0,
    {
        let count: usize = catalog.providers.len();
        let at: usize = if self.provider < count {
            self.provider
        } else {
            count - 1
        };
        &catalog.providers[at]
    }

    /// The agent of the picker's row.
    pub fn provider(&self, catalog: &Catalog) -> (r: Provider)
        requires
            catalog.wf(),
        ensures
            r == self.entry(*catalog).provider,
    {
        self.row_entry(catalog).provider
    }

    /// What the picker describes: always a model and an effort.
    pub fn selection(&self, catalog: &Catalog) -> (r: Selection)
        requires
            catalog.wf(),
        ensures
            r == self.described(*catalog),
    {
        let entry = self.row_entry(catalog);
        let models = self.models(catalog);
        let model = if self.model < models.len() {
            models[self.model].clone()
        } else {
            entry.default_model.clone()
        };
        let effort = if self.effort < entry.efforts.len() {
            entry.efforts[self.effort]
        } else {
            entry.default_effort
        };
        Selection { provider: entry.provider, model, effort }
    }

    /// The rows of the model column, those chosen last first.
    pub fn models(&self, catalog: &Catalog) -> (r: Vec<String>)
        requires
            catalog.wf(),
        ensures
            r@ == self.model_list(*catalog),
            r@.len() == self.unordered(*catalog).len(),
            r@.len() > 0,
    {
        let entry = self.row_entry(catalog);
        let mut rows = entry.models.clone();
        if let Some(model) = &self.carried_model {
            rows.push(model.clone());
        }
        assert(rows@ == self.unordered(*catalog));
        order_models(rows, &self.recent_models)
    }

    /// How many rows the model column has.
    pub fn model_rows(&self, catalog: &Catalog) -> (r: usize)
        requires
            catalog.wf(),
        ensures
            r == self.row_count(*catalog, LaunchColumn::Model),
            r > 0,
    {
        let entry = self.row_entry(catalog);
        if self.carried_model.is_some() {
            entry.models.len() + 1
        } else {
            entry.models.len()
        }
    }

    fn rows(&self, catalog: &Catalog) -> (r: usize)
        requires
            catalog.wf(),
        ensures
            r == self.row_count(*catalog, self.column),
            r > 0,
    {
        match self.column {
            LaunchColumn::Provider => catalog.providers.len(),
            LaunchColumn::Model => self.model_rows(catalog),
            LaunchColumn::Effort => self.row_entry(catalog).efforts.len(),
        }
    }

    fn row(&self) -> (r: usize)
        ensures
            r == self.at(),
    {
        match self.column {
            LaunchColumn::Provider => self.provider,
            LaunchColumn::Model => self.model,
            LaunchColumn::Effort => self.effort,
        }
    }

    fn move_to(&mut self, catalog: &Catalog, row: usize)
        requires
            catalog.wf(),
        ensures
            *final(self) == old(self).on(*catalog, row),
    {
        match self.column {
            LaunchColumn::Provider => {
                self.provider = row;
                self.after_move(catalog);
            },
            LaunchColumn::Model => {
                self.model = row;
            },
            LaunchColumn::Effort => {
                self.effort = row;
            },
        }
    }

    fn after_move(&mut self, catalog: &Catalog)
        requires
            catalog.wf(),
        ensures
            *final(self) == {
                let there = Launcher { carried_model: None, ..*old(self) };
                let entry = there.entry(*catalog);
                Launcher {
                    effort: effort_row(entry.efforts@, entry.default_effort) as usize,
                    model: text_row(there.model_list(*catalog), entry.default_model@) as usize,
                    ..there
                }
            },
    {
        self.carried_model = None;
        let entry = self.row_entry(catalog);
        let effort = row_of_effort(&entry.efforts, entry.default_effort);
        let models = self.models(catalog);
        let model = row_of_text(&models, entry.default_model.as_str());
        self.effort = effort;
        self.model = model;
    }

    pub fn next(&mut self, catalog: &Catalog)
        requires
            catalog.wf(),
        ensures
            *final(self) == old(self).lower(*catalog),
    {
        let last: usize = self.rows(catalog) - 1;
        let at = self.row();
        let row: usize = if at < last {
            at + 1
        } else {
            last
        };
        self.move_to(catalog, row);
    }

    pub fn prev(&mut self, catalog: &Catalog)
        requires
            catalog.wf(),
        ensures
            *final(self) == old(self).upper(*catalog),
    {
        let row: usize = self.row().saturating_sub(1);
        self.move_to(catalog, row);
    }

    pub fn next_column(&mut self)
        ensures
            *final(self) == (Launcher { column: old(self).column.after(), ..*old(self) }),
    {
        self.column = match self.column {
            LaunchColumn::Provider => LaunchColumn::Model,
            LaunchColumn::Model => LaunchColumn::Effort,
            LaunchColumn::Effort => LaunchColumn::Provider,
        };
    }

    pub fn prev_column(&mut self)
        ensures
            *final(self) == (Launcher { column: old(self).column.before(), ..*old(self) }),
    {
        self.column = match self.column {
            LaunchColumn::Provider => LaunchColumn::Effort,
            LaunchColumn::Model => LaunchColumn::Provider,
            LaunchColumn::Effort => LaunchColumn::Model,
        };
    }
}

// --- Laws --------------------------------------------------------------------

proof fn lemma_ordered_models(rows: Seq<String>, recent: Seq<String>, m: Seq<char>)
    ensures
        ordered_models(rows, recent).len() == rows.len(),
        holds(rows, m) ==> holds(ordered_models(rows, recent), m),
        holds(ordered_models(rows, recent), m) ==> holds(rows, m),
{
    let wanted = by_recency(rows, recent);
    lemma_sortable(wanted);
    let after = choose|after: Seq<(u64, String)>| stably_sorted(wanted, after);
    let order = choose|order: Seq<int>| reorders(order, wanted, after);
    let list = ordered_models(rows, recent);
    if holds(rows, m) {
        let v = choose|v: int| 0 <= v < rows.len() && (#[trigger] rows[v])@ == m;
        crate::order::lemma_onto(order, wanted.len() as int, v);
        let i = choose|i: int| 0 <= i < order.len() && #[trigger] order[i] == v;
        assert(list[i]@ == m);
    }
    if holds(list, m) {
        let i = choose|i: int| 0 <= i < list.len() && (#[trigger] list[i])@ == m;
        assert(after[i] == wanted[order[i]]);
        assert(rows[order[i]]@ == m);
    }
}

/// Every list has a stable order.
pub proof fn lemma_sortable(list: Seq<(u64, String)>)
    ensures
        exists|after: Seq<(u64, String)>| stably_sorted(list, after),
    decreases list.len(),
{
    if list.len() == 0 {
        let order: Seq<int> = Seq::empty();
        assert(reorders(order, list, list));
        assert(stably_sorted(list, list));
    } else {
        let rest = list.drop_last();
        lemma_sortable(rest);
        let done = choose|after: Seq<(u64, String)>| stably_sorted(rest, after);
        let order = choose|order: Seq<int>| reorders(order, rest, done);
        let item = list.last();
        let at = places_not_above(done, item.0, done.len() as int);
        assert forall|i: int, j: int| 0 <= i < j < done.len() implies (#[trigger] done[i]).0 <= (
        #[trigger] done[j]).0 by {
            assert(done[i] == rest[order[i]] && done[j] == rest[order[j]]);
        }
        lemma_places(done, item.0, done.len() as int);
        let n = rest.len() as int;
        let more = done.insert(at, item);
        let longer = order.insert(at, n);
        assert forall|i: int| 0 <= i < rest.len() implies rest[i] == list[i] by {}
        assert forall|i: int| 0 <= i < longer.len() implies 0 <= #[trigger] longer[i] < list.len()
            && more[i] == list[longer[i]] by {
            if i < at {
                assert(longer[i] == order[i]);
            } else if i > at {
                assert(longer[i] == order[i - 1]);
            }
        }
        assert forall|i: int, j: int| 0 <= i < j < longer.len() implies {
            &&& #[trigger] longer[i] != #[trigger] longer[j]
            &&& list[longer[i]].0 <= list[longer[j]].0
            &&& list[longer[j]].0 <= list[longer[i]].0 ==> longer[i] < longer[j]
        } by {
            let a = if i < at {
                i
            } else {
                i - 1
            };
            let b = if j < at {
                j
            } else {
                j - 1
            };
            if i != at && j != at {
                assert(longer[i] == order[a] && longer[j] == order[b]);
                assert(rest[order[a]] == list[longer[i]]);
                assert(rest[order[b]] == list[longer[j]]);
            } else if i == at {
                assert(longer[j] == order[b]);
                assert(done[b] == rest[order[b]]);
            } else {
                assert(longer[i] == order[a]);
                assert(done[a] == rest[order[a]]);
            }
        }
        assert(reorders(longer, list, more));
        assert(stably_sorted(list, more));
    }
}

/// How many of the first `n` have a rank not above `rank`, counted from the
/// end backwards to the first that has.
spec fn places_not_above(list: Seq<(u64, String)>, rank: u64, n: int) -> int
    decreases n,
{
    if n <= 0 || list[n - 1].0 <= rank {
        n
    } else {
        places_not_above(list, rank, n - 1)
    }
}

proof fn lemma_places(list: Seq<(u64, String)>, rank: u64, n: int)
    requires
        0 <= n <= list.len(),
        forall|i: int, j: int|
            0 <= i < j < list.len() ==> (#[trigger] list[i]).0 <= (#[trigger] list[j]).0,
    ensures
        0 <= places_not_above(list, rank, n) <= n,
        forall|i: int|
            0 <= i < places_not_above(list, rank, n) ==> (#[trigger] list[i]).0 <= rank,
        forall|i: int|
            places_not_above(list, rank, n) <= i < n ==> (#[trigger] list[i]).0 > rank,
    decreases n,
{
    if n > 0 && list[n - 1].0 > rank {
        lemma_places(list, rank, n - 1);
    }
}

/// A picker opened on a selection of a listed agent describes that selection,
/// where the agent offers its effort: confirming it changes nothing.
pub proof fn law_the_picker_opens_on_the_selection(
    catalog: Catalog,
    selection: Selection,
    recent: Vec<String>,
)
    requires
        catalog.wf(),
        catalog.has(selection.provider),
        catalog.providers@[catalog.row(selection.provider)].efforts@.contains(selection.effort),
    ensures
        Launcher::opened(catalog, selection, recent).described(catalog)@ == selection@,
{
    let i = choose|i: int|
        0 <= i < catalog.providers@.len() && (#[trigger] catalog.providers@[i]).provider
            == selection.provider;
    lemma_first_row(catalog, selection.provider, 0, i);
    lemma_first_row_low(catalog, selection.provider, 0);
    assert(catalog.providers.len() == catalog.providers@.len());
    let picker = Launcher::opened(catalog, selection, recent);
    let entry = catalog.providers@[catalog.row(selection.provider)];
    assert(entry == picker.entry(catalog));
    assert(entry.efforts.len() == entry.efforts@.len());
    assert(entry.models.len() == entry.models@.len());
    lemma_first_effort(entry.efforts@, selection.effort);
    let rows = picker.unordered(catalog);
    assert(holds(rows, selection.model@)) by {
        if holds(entry.models@, selection.model@) {
        } else {
            assert(rows.last() == selection.model);
            assert(rows[rows.len() - 1]@ == selection.model@);
        }
    }
    lemma_ordered_models(rows, recent@, selection.model@);
    let list = picker.model_list(catalog);
    lemma_first_text_found(list, selection.model@);
}

proof fn lemma_first_row_low(catalog: Catalog, provider: Provider, from: int)
    requires
        0 <= from,
    ensures
        from <= catalog.first_row(provider, from),
    decreases catalog.providers@.len() - from,
{
    if from < catalog.providers@.len() && catalog.providers@[from].provider != provider {
        lemma_first_row_low(catalog, provider, from + 1);
    }
}

pub(crate) proof fn lemma_first_effort(list: Seq<Effort>, effort: Effort)
    requires
        list.contains(effort),
    ensures
        0 <= first_effort(list, effort) < list.len(),
        list[first_effort(list, effort)] == effort,
    decreases list.len(),
{
    if list[0] != effort {
        let i = choose|i: int| 0 <= i < list.len() && list[i] == effort;
        assert(list.skip(1)[i - 1] == effort);
        lemma_first_effort(list.skip(1), effort);
    }
}

pub(crate) proof fn lemma_first_text_found(list: Seq<String>, text: Seq<char>)
    requires
        holds(list, text),
    ensures
        0 <= first_text(list, text) < list.len(),
        list[first_text(list, text)]@ == text,
    decreases list.len(),
{
    let i = choose|i: int| 0 <= i < list.len() && (#[trigger] list[i])@ == text;
    if list[0]@ != text {
        assert(list.skip(1)[i - 1]@ == text);
        lemma_first_text_found(list.skip(1), text);
    }
}

} // verus!
