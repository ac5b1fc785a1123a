use vstd::prelude::*;

verus! {

use crate::config::ClusterConfig;
use crate::domain::{
    clone_service_result, service_result_view, ServiceDetails, ServiceErrorView, ServiceResult,
    ServiceView,
};
use crate::pane::Pane;
use crate::sort::{
    insert_by_key, key_sorted, lemma_name_keys_order, name_keys_before, name_keys_lt, sort_by_key, views,
    SortKeyed,
};
use crate::text::{lemma_text_lt_total, lemma_text_lt_transitive, text_lt};

/// The smallest terminal width the dashboard draws in.
pub const MIN_TERMINAL_WIDTH: u16 = 80;

/// The smallest terminal height the dashboard draws in.
pub const MIN_TERMINAL_HEIGHT: u16 = 30;

/// Seconds after which a user message is cleared.
pub const CLEAR_USER_MESSAGE_LOOP_INTERVAL_SECS: u64 = 10;

/// A container of a task, as plain values.
#[derive(Debug)]
pub struct ContainerSnapshot {
    pub name: Option<String>,
    pub image: Option<String>,
    pub last_status: Option<String>,
    pub cpu: Option<String>,
    pub memory: Option<String>,
    pub health_status: Option<String>,
}

pub open spec fn opt_view(o: Option<String>) -> Option<Seq<char>> {
    match o {
        Some(s) => Some(s@),
        None => None,
    }
}

pub struct ContainerView {
    pub name: Option<Seq<char>>,
    pub image: Option<Seq<char>>,
    pub last_status: Option<Seq<char>>,
    pub cpu: Option<Seq<char>>,
    pub memory: Option<Seq<char>>,
    pub health_status: Option<Seq<char>>,
}

impl View for ContainerSnapshot {
    type V = ContainerView;

    open spec fn view(&self) -> ContainerView {
        ContainerView {
            name: opt_view(self.name),
            image: opt_view(self.image),
            last_status: opt_view(self.last_status),
            cpu: opt_view(self.cpu),
            memory: opt_view(self.memory),
            health_status: opt_view(self.health_status),
        }
    }
}

fn clone_text_opt(o: &Option<String>) -> (r: Option<String>)
    ensures
        opt_view(r) == opt_view(*o),
{
    match o {
        Some(s) => Some(s.clone()),
        None => None,
    }
}

impl Clone for ContainerSnapshot {
    fn clone(&self) -> (r: ContainerSnapshot)
        ensures
            r@ == self@,
    {
        ContainerSnapshot {
            name: clone_text_opt(&self.name),
            image: clone_text_opt(&self.image),
            last_status: clone_text_opt(&self.last_status),
            cpu: clone_text_opt(&self.cpu),
            memory: clone_text_opt(&self.memory),
            health_status: clone_text_opt(&self.health_status),
        }
    }
}

/// A name, empty when absent.
pub open spec fn name_or_empty(o: Option<Seq<char>>) -> Seq<char> {
    match o {
        Some(s) => s,
        None => Seq::empty(),
    }
}

impl SortKeyed for ContainerSnapshot {
    open spec fn precedes(a: ContainerView, b: ContainerView) -> bool {
        name_keys_lt(name_or_empty(a.name), Seq::empty(), name_or_empty(b.name), Seq::empty())
    }

    proof fn lemma_precedes_order(a: ContainerView, b: ContainerView, c: ContainerView) {
        lemma_name_keys_order(
            name_or_empty(a.name),
            Seq::empty(),
            name_or_empty(b.name),
            Seq::empty(),
            name_or_empty(c.name),
            Seq::empty(),
        );
    }

    fn sorts_before(&self, other: &Self) -> (r: bool) {
        let a = match &self.name {
            Some(n) => n.as_str(),
            None => "",
        };
        let b = match &other.name {
            Some(n) => n.as_str(),
            None => "",
        };
        proof {
            reveal_strlit("");
            assert(""@ =~= Seq::<char>::empty());
        }
        name_keys_before(a, "", b, "")
    }
}

/// A task of a service, as plain values.
#[derive(Debug)]
pub struct TaskSnapshot {
    pub task_arn: Option<String>,
    pub last_status: Option<String>,
    pub health_status: Option<String>,
    pub cpu: Option<String>,
    pub memory: Option<String>,
    pub containers: Vec<ContainerSnapshot>,
}

pub struct TaskView {
    pub task_arn: Option<Seq<char>>,
    pub last_status: Option<Seq<char>>,
    pub health_status: Option<Seq<char>>,
    pub cpu: Option<Seq<char>>,
    pub memory: Option<Seq<char>>,
    pub containers: Seq<ContainerView>,
}

impl View for TaskSnapshot {
    type V = TaskView;

    open spec fn view(&self) -> TaskView {
        TaskView {
            task_arn: opt_view(self.task_arn),
            last_status: opt_view(self.last_status),
            health_status: opt_view(self.health_status),
            cpu: opt_view(self.cpu),
            memory: opt_view(self.memory),
            containers: views(self.containers@),
        }
    }
}

/// Copies a list of records whose clones keep their views.
pub fn clone_containers(v: &Vec<ContainerSnapshot>) -> (r: Vec<ContainerSnapshot>)
    ensures
        views(r@) == views(v@),
{
    let mut out: Vec<ContainerSnapshot> = Vec::new();
    let mut i: usize = 0;
    while i < v.len()
        invariant
            i <= v.len(),
            views(out@) == views(v@).take(i as int),
        decreases v.len() - i,
    {
        let c = v[i].clone();
        let ghost before = out@;
        out.push(c);
        proof {
            assert(views(out@) =~= views(before).push(c@));
            assert(views(v@).take(i + 1) =~= views(v@).take(i as int).push(v@[i as int]@));
        }
        i = i + 1;
    }
    proof {
        assert(views(v@).take(i as int) =~= views(v@));
    }
    out
}

impl Clone for TaskSnapshot {
    fn clone(&self) -> (r: TaskSnapshot)
        ensures
            r@ == self@,
    {
        TaskSnapshot {
            task_arn: clone_text_opt(&self.task_arn),
            last_status: clone_text_opt(&self.last_status),
            health_status: clone_text_opt(&self.health_status),
            cpu: clone_text_opt(&self.cpu),
            memory: clone_text_opt(&self.memory),
            containers: clone_containers(&self.containers),
        }
    }
}

/// Copies a list of tasks.
pub fn clone_tasks(v: &Vec<TaskSnapshot>) -> (r: Vec<TaskSnapshot>)
    ensures
        views(r@) == views(v@),
{
    let mut out: Vec<TaskSnapshot> = Vec::new();
    let mut i: usize = 0;
    while i < v.len()
        invariant
            i <= v.len(),
            views(out@) == views(v@).take(i as int),
        decreases v.len() - i,
    {
        let c = v[i].clone();
        let ghost before = out@;
        out.push(c);
        proof {
            assert(views(out@) =~= views(before).push(c@));
            assert(views(v@).take(i + 1) =~= views(v@).take(i as int).push(v@[i as int]@));
        }
        i = i + 1;
    }
    proof {
        assert(views(v@).take(i as int) =~= views(v@));
    }
    out
}

/// The selection a fresh list of `len` items starts with: the first item,
/// or none when the list is empty.
pub open spec fn first_selection(len: nat) -> Option<usize> {
    if len == 0 {
        None
    } else {
        Some(0usize)
    }
}

/// A selection that names an item of a list of `len` items, and is absent
/// only when the list is empty.
pub open spec fn selection_valid(selected: Option<usize>, len: nat) -> bool {
    match selected {
        Some(i) => i < len,
        None => len == 0,
    }
}

/// A service result with its marker for bulk refresh.
#[derive(Debug)]
pub struct ServiceItem {
    pub service: ServiceResult,
    pub marked_for_refresh: bool,
}

pub struct ServiceItemView {
    pub service: Result<ServiceView, ServiceErrorView>,
    pub marked_for_refresh: bool,
}

impl View for ServiceItem {
    type V = ServiceItemView;

    open spec fn view(&self) -> ServiceItemView {
        ServiceItemView {
            service: service_result_view(self.service),
            marked_for_refresh: self.marked_for_refresh,
        }
    }
}

/// The name a service item is listed by.
pub open spec fn item_name(v: ServiceItemView) -> Seq<char> {
    match v.service {
        Ok(d) => d.name,
        Err(e) => e.service_name,
    }
}

impl SortKeyed for ServiceItem {
    /// Successes come before failures; successes go by name; failures
    /// keep the order in which they came.
    open spec fn precedes(a: ServiceItemView, b: ServiceItemView) -> bool {
        a.service is Ok && (b.service is Err || text_lt(item_name(a), item_name(b)))
    }

    proof fn lemma_precedes_order(a: ServiceItemView, b: ServiceItemView, c: ServiceItemView) {
        lemma_text_lt_total(item_name(a), item_name(b));
        lemma_text_lt_total(item_name(b), item_name(c));
        lemma_text_lt_total(item_name(a), item_name(c));
        if text_lt(item_name(a), item_name(b)) && text_lt(item_name(b), item_name(c)) {
            lemma_text_lt_transitive(item_name(a), item_name(b), item_name(c));
        }
        if text_lt(item_name(b), item_name(a)) && text_lt(item_name(c), item_name(b)) {
            lemma_text_lt_transitive(item_name(c), item_name(b), item_name(a));
        }
    }

    fn sorts_before(&self, other: &Self) -> (r: bool) {
        match (&self.service, &other.service) {
            (Ok(a), Ok(b)) => match crate::text::compare_text(a.name.as_str(), b.name.as_str()) {
                core::cmp::Ordering::Less => true,
                _ => false,
            },
            (Ok(_), Err(_)) => true,
            _ => false,
        }
    }
}

impl ServiceItem {
    /// A service item, not marked for refresh.
    pub fn new(service: ServiceResult) -> (r: ServiceItem)
        ensures
            r.service == service,
            !r.marked_for_refresh,
    {
        ServiceItem { service, marked_for_refresh: false }
    }
}

/// The listed service results and which of them is selected.
#[derive(Debug)]
pub struct ServiceItems {
    pub items: Vec<ServiceItem>,
    pub selected: Option<usize>,
}

/// Unmarked items for a list of service results.
pub open spec fn unmarked_items(services: Seq<ServiceResult>) -> Seq<ServiceItemView> {
    services.map_values(
        |s: ServiceResult| ServiceItemView { service: service_result_view(s), marked_for_refresh: false },
    )
}

/// One for an item marked for refresh, else zero.
pub open spec fn mark_of(v: ServiceItemView) -> nat {
    if v.marked_for_refresh {
        1
    } else {
        0
    }
}

/// How many items are marked for refresh.
pub open spec fn marked_count(items: Seq<ServiceItemView>) -> nat
    decreases items.len(),
{
    if items.len() == 0 {
        0
    } else {
        mark_of(items[0]) + marked_count(items.drop_first())
    }
}

pub proof fn lemma_marked_count_bound(s: Seq<ServiceItemView>)
    ensures
        marked_count(s) <= s.len(),
    decreases s.len(),
{
    if s.len() > 0 {
        lemma_marked_count_bound(s.drop_first());
    }
}

pub proof fn lemma_marked_count_insert(s: Seq<ServiceItemView>, j: int, x: ServiceItemView)
    requires
        0 <= j <= s.len(),
    ensures
        marked_count(s.insert(j, x)) == marked_count(s) + mark_of(x),
    decreases j,
{
    if j == 0 {
        assert(s.insert(0, x).drop_first() =~= s);
    } else {
        assert(s.insert(j, x).drop_first() =~= s.drop_first().insert(j - 1, x));
        lemma_marked_count_insert(s.drop_first(), j - 1, x);
    }
}

pub proof fn lemma_marked_count_update(s: Seq<ServiceItemView>, j: int, x: ServiceItemView)
    requires
        0 <= j < s.len(),
    ensures
        marked_count(s.update(j, x)) + mark_of(s[j]) == marked_count(s) + mark_of(x),
    decreases j,
{
    if j == 0 {
        assert(s.update(0, x).drop_first() =~= s.drop_first());
    } else {
        assert(s.update(j, x).drop_first() =~= s.drop_first().update(j - 1, x));
        lemma_marked_count_update(s.drop_first(), j - 1, x);
    }
}

pub proof fn lemma_marked_count_sorted(s: Seq<ServiceItemView>)
    ensures
        marked_count(key_sorted::<ServiceItem>(s)) == marked_count(s),
        forall|y: ServiceItemView| key_sorted::<ServiceItem>(s).contains(y) ==> s.contains(y),
    decreases s.len(),
{
    if s.len() > 0 {
        let t = s.drop_first();
        lemma_marked_count_sorted(t);
        crate::sort::lemma_insert_by_key_position::<ServiceItem>(key_sorted::<ServiceItem>(t), s[0]);
        let k = key_sorted::<ServiceItem>(t);
        let j = choose|j: int|
            0 <= j <= k.len() && insert_by_key::<ServiceItem>(k, s[0]) == k.insert(j, s[0]);
        lemma_marked_count_insert(k, j, s[0]);
        assert forall|y: ServiceItemView| key_sorted::<ServiceItem>(s).contains(y) implies s.contains(
            y,
        ) by {
            let m = choose|m: int| 0 <= m < k.insert(j, s[0]).len() && k.insert(j, s[0])[m] == y;
            if m < j {
                assert(k.contains(k[m]));
                assert(t.contains(y));
                let n = choose|n: int| 0 <= n < t.len() && t[n] == y;
                assert(s[n + 1] == y);
            } else if m == j {
                assert(s[0] == y);
            } else {
                assert(k.contains(k[m - 1]));
                assert(t.contains(y));
                let n = choose|n: int| 0 <= n < t.len() && t[n] == y;
                assert(s[n + 1] == y);
            }
        }
    }
}

pub proof fn lemma_marked_count_concat(a: Seq<ServiceItemView>, b: Seq<ServiceItemView>)
    ensures
        marked_count(a + b) == marked_count(a) + marked_count(b),
    decreases a.len(),
{
    if a.len() == 0 {
        assert(a + b =~= b);
    } else {
        assert((a + b).drop_first() =~= a.drop_first() + b);
        lemma_marked_count_concat(a.drop_first(), b);
    }
}

pub proof fn lemma_unmarked_count(services: Seq<ServiceResult>)
    ensures
        marked_count(unmarked_items(services)) == 0,
    decreases services.len(),
{
    if services.len() > 0 {
        assert(unmarked_items(services).drop_first() =~= unmarked_items(services.drop_first()));
        lemma_unmarked_count(services.drop_first());
    }
}

/// No failure is marked for refresh.
pub open spec fn only_successes_marked(items: Seq<ServiceItemView>) -> bool {
    forall|i: int|
        0 <= i < items.len() && (#[trigger] items[i]).marked_for_refresh ==> items[i].service is Ok
}

impl ServiceItems {
    /// An empty list.
    pub fn empty() -> (r: ServiceItems)
        ensures
            r.items@.len() == 0,
            r.selected is None,
    {
        ServiceItems { items: Vec::new(), selected: None }
    }

    /// Adds service results to the list, unmarked, and puts the list back in
    /// order: successes first by name, failures after in the order they came.
    /// A selection is kept; an empty selection moves to the first item.
    pub fn append(&mut self, services: &Vec<ServiceResult>)
        requires
            selection_valid(old(self).selected, old(self).items@.len()),
        ensures
            views(final(self).items@) == key_sorted::<ServiceItem>(
                views(old(self).items@) + unmarked_items(services@),
            ),
            final(self).items@.len() == old(self).items@.len() + services@.len(),
            final(self).selected == match old(self).selected {
                Some(i) => Some(i),
                None => first_selection(final(self).items@.len()),
            },
            selection_valid(final(self).selected, final(self).items@.len()),
            marked_count(views(final(self).items@)) == marked_count(views(old(self).items@)),
            only_successes_marked(views(old(self).items@)) ==> only_successes_marked(
                views(final(self).items@),
            ),
    {
        let mut all: Vec<ServiceItem> = Vec::new();
        std::mem::swap(&mut all, &mut self.items);
        let ghost start = views(all@);
        let mut i: usize = 0;
        while i < services.len()
            invariant
                i <= services.len(),
                views(all@) == start + unmarked_items(services@).take(i as int),
            decreases services.len() - i,
        {
            let item = ServiceItem::new(clone_service_result(&services[i]));
            let ghost before = all@;
            all.push(item);
            proof {
                assert(views(all@) =~= views(before).push(item@));
                assert(unmarked_items(services@).take(i + 1) =~= unmarked_items(services@).take(
                    i as int,
                ).push(item@));
            }
            i = i + 1;
        }
        proof {
            assert(unmarked_items(services@).take(i as int) =~= unmarked_items(services@));
        }
        let sorted = sort_by_key(all);
        proof {
            crate::sort::lemma_key_sorted_is_sorted::<ServiceItem>(
                start + unmarked_items(services@),
            );
            assert(views(sorted@).len() == sorted@.len());
            lemma_marked_count_sorted(start + unmarked_items(services@));
            lemma_marked_count_concat(start, unmarked_items(services@));
            lemma_unmarked_count(services@);
            let merged = start + unmarked_items(services@);
            if only_successes_marked(start) {
                assert forall|i: int|
                    0 <= i < views(sorted@).len() && (#[trigger] views(sorted@)[i]).marked_for_refresh
                        implies views(sorted@)[i].service is Ok by {
                    let y = views(sorted@)[i];
                    assert(key_sorted::<ServiceItem>(merged).contains(y));
                    assert(merged.contains(y));
                    let n = choose|n: int| 0 <= n < merged.len() && merged[n] == y;
                    if n >= start.len() {
                        assert(unmarked_items(services@)[n - start.len()] == y);
                    }
                }
            }
        }
        self.items = sorted;
        if self.selected.is_none() && self.items.len() > 0 {
            self.selected = Some(0);
        }
    }
}

/// The tasks of the selected service and which of them is selected.
#[derive(Debug)]
pub struct TaskItems {
    pub items: Vec<TaskSnapshot>,
    pub selected: Option<usize>,
}

impl TaskItems {
    /// Lists tasks in the order given, selecting the first.
    pub fn from_tasks(tasks: &Vec<TaskSnapshot>) -> (r: TaskItems)
        ensures
            views(r.items@) == views(tasks@),
            r.selected == first_selection(tasks@.len()),
    {
        let items = clone_tasks(tasks);
        proof {
            assert(views(items@).len() == items@.len());
        }
        let selected = if items.len() == 0 {
            None
        } else {
            Some(0)
        };
        TaskItems { items, selected }
    }
}

/// The containers of the selected task and which of them is selected.
#[derive(Debug)]
pub struct ContainerItems {
    pub items: Vec<ContainerSnapshot>,
    pub selected: Option<usize>,
}

impl ContainerItems {
    /// An empty list.
    pub fn empty() -> (r: ContainerItems)
        ensures
            r.items@.len() == 0,
            r.selected is None,
    {
        ContainerItems { items: Vec::new(), selected: None }
    }

    /// Lists containers by name (an absent name sorts as empty), keeping the
    /// order of equal names, and selects the first.
    pub fn from_containers(containers: &Vec<ContainerSnapshot>) -> (r: ContainerItems)
        ensures
            views(r.items@) == key_sorted::<ContainerSnapshot>(views(containers@)),
            r.selected == first_selection(r.items@.len()),
            r.items@.len() == containers@.len(),
    {
        let copy = clone_containers(containers);
        let items = sort_by_key(copy);
        proof {
            crate::sort::lemma_key_sorted_is_sorted::<ContainerSnapshot>(views(containers@));
            assert(views(items@).len() == items@.len());
            assert(views(containers@).len() == containers@.len());
        }
        let selected = if items.len() == 0 {
            None
        } else {
            Some(0)
        };
        ContainerItems { items, selected }
    }
}

/// Whether the dashboard loop goes on.
#[derive(Debug, PartialEq, Eq, Structural, Clone, Copy)]
pub enum RunningState {
    Running,
    Done,
}

/// A transient message for the user, with the second it was raised at.
#[derive(Debug)]
pub enum UserMessage {
    Info(String, u64),
    Error(String, u64),
}

impl UserMessage {
    pub fn info(message: &str, at: u64) -> (r: UserMessage)
        ensures
            r matches UserMessage::Info(m, t) && m@ == message@ && t == at,
    {
        UserMessage::Info(message.to_owned(), at)
    }

    pub fn error(message: &str, at: u64) -> (r: UserMessage)
        ensures
            r matches UserMessage::Error(m, t) && m@ == message@ && t == at,
    {
        UserMessage::Error(message.to_owned(), at)
    }

    /// The second the message was raised at.
    pub fn raised_at(&self) -> (r: u64)
        ensures
            r == match self {
                UserMessage::Info(_, t) => *t,
                UserMessage::Error(_, t) => *t,
            },
    {
        match self {
            UserMessage::Info(_, t) => *t,
            UserMessage::Error(_, t) => *t,
        }
    }
}

/// The terminal's size in cells.
#[derive(Debug, PartialEq, Eq, Structural, Clone, Copy)]
pub struct TerminalDimensions {
    pub width: u16,
    pub height: u16,
}

/// Whether a terminal of this size is too small to draw the dashboard in.
pub open spec fn too_small(width: u16, height: u16) -> bool {
    !(width >= MIN_TERMINAL_WIDTH && height >= MIN_TERMINAL_HEIGHT)
}

/// The tasks fetched for one service.
#[derive(Debug)]
pub struct CacheEntry {
    pub service: ServiceDetails,
    pub tasks: Vec<TaskSnapshot>,
}

/// What the task cache holds: for each service, the tasks most recently
/// stored for it.
pub open spec fn cache_map(cache: Seq<CacheEntry>) -> Map<ServiceView, Seq<TaskView>>
    decreases cache.len(),
{
    if cache.len() == 0 {
        Map::empty()
    } else {
        cache_map(cache.drop_last()).insert(cache.last().service@, views(cache.last().tasks@))
    }
}

pub proof fn lemma_cache_map_suffix(s: Seq<CacheEntry>, j: int, key: ServiceView)
    requires
        0 <= j <= s.len(),
        forall|k: int| j <= k < s.len() ==> (#[trigger] s[k]).service@ != key,
    ensures
        cache_map(s).contains_key(key) == cache_map(s.take(j)).contains_key(key),
        cache_map(s).contains_key(key) ==> cache_map(s)[key] == cache_map(s.take(j))[key],
    decreases s.len(),
{
    if s.len() == j {
        assert(s.take(j) =~= s);
    } else {
        let d = s.drop_last();
        assert(d.take(j) =~= s.take(j));
        assert forall|k: int| j <= k < d.len() implies (#[trigger] d[k]).service@ != key by {
            assert(d[k] == s[k]);
        }
        lemma_cache_map_suffix(d, j, key);
    }
}

pub proof fn lemma_cache_map_remove(s: Seq<CacheEntry>, i: int, key: ServiceView)
    requires
        0 <= i < s.len(),
        s[i].service@ == key,
    ensures
        cache_map(s.remove(i)).remove(key) == cache_map(s).remove(key),
    decreases s.len(),
{
    if i == s.len() - 1 {
        assert(s.remove(i) =~= s.drop_last());
        assert(cache_map(s.drop_last()).insert(key, views(s.last().tasks@)).remove(key)
            =~= cache_map(s.drop_last()).remove(key));
    } else {
        let d = s.drop_last();
        assert(s.remove(i).drop_last() =~= d.remove(i));
        assert(s.remove(i).last() == s.last());
        lemma_cache_map_remove(d, i, key);
        let lk = s.last().service@;
        let lv = views(s.last().tasks@);
        assert(cache_map(d.remove(i)).insert(lk, lv).remove(key) =~= cache_map(d.remove(i)).remove(
            key,
        ).insert(lk, lv) || lk == key);
        if lk == key {
            assert(cache_map(d.remove(i)).insert(lk, lv).remove(key) =~= cache_map(
                d.remove(i),
            ).remove(key));
            assert(cache_map(d).insert(lk, lv).remove(key) =~= cache_map(d).remove(key));
        } else {
            assert(cache_map(d).insert(lk, lv).remove(key) =~= cache_map(d).remove(key).insert(
                lk,
                lv,
            ));
        }
    }
}

pub proof fn lemma_cache_map_absent(s: Seq<CacheEntry>, key: ServiceView)
    requires
        forall|k: int| 0 <= k < s.len() ==> (#[trigger] s[k]).service@ != key,
    ensures
        !cache_map(s).contains_key(key),
{
    lemma_cache_map_suffix(s, 0, key);
    assert(s.take(0) =~= Seq::<CacheEntry>::empty());
}

/// Whether the dashboard may draw in a terminal of this size.
pub fn is_too_small(width: u16, height: u16) -> (r: bool)
    ensures
        r == too_small(width, height),
{
    !(width >= MIN_TERMINAL_WIDTH && height >= MIN_TERMINAL_HEIGHT)
}

/// The selection after moving down one item; it stays on the last item.
pub open spec fn next_selection(sel: Option<usize>, len: nat) -> Option<usize> {
    match sel {
        Some(i) => if i + 1 < len {
            Some((i + 1) as usize)
        } else {
            Some(i)
        },
        None => first_selection(len),
    }
}

/// The selection after moving up one item; it stays on the first item.
pub open spec fn previous_selection(sel: Option<usize>, len: nat) -> Option<usize> {
    match sel {
        Some(i) => if i > 0 {
            Some((i - 1) as usize)
        } else {
            Some(i)
        },
        None => first_selection(len),
    }
}

/// The selection of the first item.
pub open spec fn top_selection(sel: Option<usize>, len: nat) -> Option<usize> {
    first_selection(len)
}

/// The selection of the last item.
pub open spec fn bottom_selection(sel: Option<usize>, len: nat) -> Option<usize> {
    if len == 0 {
        None
    } else {
        Some((len - 1) as usize)
    }
}

/// How a navigation key moves a selection.
#[derive(PartialEq, Eq, Structural, Debug, Clone, Copy)]
pub enum ListMove {
    Next,
    Previous,
    First,
    Last,
}

pub open spec fn moved_selection(mv: ListMove, sel: Option<usize>, len: nat) -> Option<usize> {
    match mv {
        ListMove::Next => next_selection(sel, len),
        ListMove::Previous => previous_selection(sel, len),
        ListMove::First => top_selection(sel, len),
        ListMove::Last => bottom_selection(sel, len),
    }
}

/// Moves a selection within a list of `len` items.
pub fn move_selection(mv: ListMove, sel: Option<usize>, len: usize) -> (r: Option<usize>)
    requires
        selection_valid(sel, len as nat),
    ensures
        r == moved_selection(mv, sel, len as nat),
        selection_valid(r, len as nat),
{
    match mv {
        ListMove::Next => match sel {
            Some(i) => if i + 1 < len {
                Some(i + 1)
            } else {
                Some(i)
            },
            None => if len == 0 {
                None
            } else {
                Some(0)
            },
        },
        ListMove::Previous => match sel {
            Some(i) => if i > 0 {
                Some(i - 1)
            } else {
                Some(i)
            },
            None => if len == 0 {
                None
            } else {
                Some(0)
            },
        },
        ListMove::First => if len == 0 {
            None
        } else {
            Some(0)
        },
        ListMove::Last => if len == 0 {
            None
        } else {
            Some(len - 1)
        },
    }
}

/// The dashboard's whole state. Only the reducer changes it.
#[derive(Debug)]
pub struct Model {
    pub profile_name: String,
    pub clusters: Vec<ClusterConfig>,
    pub active_pane: Pane,
    pub last_active_pane: Option<Pane>,
    pub running_state: RunningState,
    pub task_results_cache: Vec<CacheEntry>,
    pub num_fetches_in_flight: usize,
    pub num_errors: usize,
    pub service_items: ServiceItems,
    pub task_items: Option<TaskItems>,
    pub container_items: ContainerItems,
    pub user_message: Option<UserMessage>,
    pub terminal_dimensions: TerminalDimensions,
    pub terminal_too_small: bool,
    pub render_counter: u64,
    pub event_counter: u64,
    pub num_services_marked_for_refresh: usize,
    pub auto_refresh: bool,
    pub debug: bool,
    pub redact_mode: bool,
}

/// The pane that going back leads to from `p`.
pub open spec fn parent_pane(p: Pane, last: Option<Pane>) -> Pane {
    match p {
        Pane::ServicesList => Pane::ServicesList,
        Pane::ServiceDetails => Pane::ServicesList,
        Pane::TasksList => Pane::ServicesList,
        Pane::TaskDetails => Pane::TasksList,
        Pane::ContainersList => Pane::TasksList,
        Pane::ContainerDetails => Pane::ContainersList,
        Pane::Help => match last {
            Some(q) => q,
            None => Pane::ServicesList,
        },
    }
}

/// `m` with the selection of its active list moved by `mv`; panes without a
/// list, and an absent task list, are left as they are.
pub open spec fn with_moved_selection(m: Model, mv: ListMove) -> Model {
    match m.active_pane {
        Pane::ServicesList => Model {
            service_items: ServiceItems {
                selected: moved_selection(mv, m.service_items.selected, m.service_items.items@.len()),
                ..m.service_items
            },
            ..m
        },
        Pane::TasksList => match m.task_items {
            Some(t) => Model {
                task_items: Some(
                    TaskItems { selected: moved_selection(mv, t.selected, t.items@.len()), ..t },
                ),
                ..m
            },
            None => m,
        },
        Pane::ContainersList => Model {
            container_items: ContainerItems {
                selected: moved_selection(
                    mv,
                    m.container_items.selected,
                    m.container_items.items@.len(),
                ),
                ..m.container_items
            },
            ..m
        },
        _ => m,
    }
}

impl Model {
    /// The model's invariant: selections are valid for their lists, the
    /// marked count matches the marks, only successes are marked, and the
    /// too-small flag matches the stored size.
    pub open spec fn wf(&self) -> bool {
        &&& selection_valid(self.service_items.selected, self.service_items.items@.len())
        &&& (self.task_items matches Some(t) ==> selection_valid(t.selected, t.items@.len()))
        &&& selection_valid(self.container_items.selected, self.container_items.items@.len())
        &&& self.num_services_marked_for_refresh == marked_count(views(self.service_items.items@))
        &&& only_successes_marked(views(self.service_items.items@))
        &&& self.terminal_too_small == too_small(
            self.terminal_dimensions.width,
            self.terminal_dimensions.height,
        )
    }

    pub fn new(
        profile_name: String,
        clusters: Vec<ClusterConfig>,
        terminal_dimensions: TerminalDimensions,
        debug: bool,
        redact_mode: bool,
    ) -> (r: Model)
        ensures
            r.wf(),
            r.profile_name == profile_name,
            r.clusters == clusters,
            r.active_pane == Pane::ServicesList,
            r.last_active_pane is None,
            r.running_state == RunningState::Running,
            r.task_results_cache@.len() == 0,
            r.service_items.items@.len() == 0,
            r.task_items is None,
            r.container_items.items@.len() == 0,
            r.user_message is None,
            r.terminal_dimensions == terminal_dimensions,
            r.terminal_too_small == too_small(terminal_dimensions.width, terminal_dimensions.height),
            r.num_fetches_in_flight == 0 && r.num_errors == 0,
            r.render_counter == 0 && r.event_counter == 0,
            r.num_services_marked_for_refresh == 0,
            !r.auto_refresh,
            r.debug == debug && r.redact_mode == redact_mode,
    {
        let terminal_too_small = is_too_small(terminal_dimensions.width, terminal_dimensions.height);
        let r = Model {
            profile_name,
            clusters,
            active_pane: Pane::ServicesList,
            last_active_pane: None,
            running_state: RunningState::Running,
            task_results_cache: Vec::new(),
            num_fetches_in_flight: 0,
            num_errors: 0,
            service_items: ServiceItems::empty(),
            task_items: None,
            container_items: ContainerItems::empty(),
            user_message: None,
            terminal_dimensions,
            terminal_too_small,
            render_counter: 0,
            event_counter: 0,
            num_services_marked_for_refresh: 0,
            auto_refresh: false,
            debug,
            redact_mode,
        };
        proof {
            assert(views(r.service_items.items@) =~= Seq::<ServiceItemView>::empty());
        }
        r
    }

    /// Goes back to the active pane's parent; from the services list, ends
    /// the loop instead.
    pub fn go_back_or_quit(&mut self)
        ensures
            *final(self) == (Model {
                active_pane: parent_pane(old(self).active_pane, old(self).last_active_pane),
                last_active_pane: Some(old(self).active_pane),
                running_state: if old(self).active_pane == Pane::ServicesList {
                    RunningState::Done
                } else {
                    old(self).running_state
                },
                ..*old(self)
            }),
    {
        let active_pane = Some(self.active_pane);
        match self.active_pane {
            Pane::ServicesList => self.running_state = RunningState::Done,
            Pane::ServiceDetails => self.active_pane = Pane::ServicesList,
            Pane::TasksList => self.active_pane = Pane::ServicesList,
            Pane::TaskDetails => self.active_pane = Pane::TasksList,
            Pane::ContainersList => self.active_pane = Pane::TasksList,
            Pane::ContainerDetails => self.active_pane = Pane::ContainersList,
            Pane::Help => self.active_pane = match self.last_active_pane {
                Some(p) => p,
                None => Pane::ServicesList,
            },
        }
        self.last_active_pane = active_pane;
    }

    /// Moves the selection of the active list.
    pub fn move_list_selection(&mut self, mv: ListMove)
        requires
            old(self).wf(),
        ensures
            *final(self) == with_moved_selection(*old(self), mv),
            final(self).wf(),
    {
        match self.active_pane {
            Pane::ServicesList => {
                self.service_items.selected = move_selection(
                    mv,
                    self.service_items.selected,
                    self.service_items.items.len(),
                );
            },
            Pane::TasksList => {
                if let Some(t) = &mut self.task_items {
                    t.selected = move_selection(mv, t.selected, t.items.len());
                }
            },
            Pane::ContainersList => {
                self.container_items.selected = move_selection(
                    mv,
                    self.container_items.selected,
                    self.container_items.items.len(),
                );
            },
            _ => {},
        }
    }

    pub fn select_next_list_item(&mut self)
        requires
            old(self).wf(),
        ensures
            *final(self) == with_moved_selection(*old(self), ListMove::Next),
            final(self).wf(),
    {
        self.move_list_selection(ListMove::Next)
    }

    pub fn select_previous_list_item(&mut self)
        requires
            old(self).wf(),
        ensures
            *final(self) == with_moved_selection(*old(self), ListMove::Previous),
            final(self).wf(),
    {
        self.move_list_selection(ListMove::Previous)
    }

    pub fn select_first_list_item(&mut self)
        requires
            old(self).wf(),
        ensures
            *final(self) == with_moved_selection(*old(self), ListMove::First),
            final(self).wf(),
    {
        self.move_list_selection(ListMove::First)
    }

    pub fn select_last_list_item(&mut self)
        requires
            old(self).wf(),
        ensures
            *final(self) == with_moved_selection(*old(self), ListMove::Last),
            final(self).wf(),
    {
        self.move_list_selection(ListMove::Last)
    }

    /// The selected service result and its index.
    pub fn get_selected_service(&self) -> (r: Option<(&ServiceResult, usize)>)
        ensures
            r matches Some((s, i)) ==> self.service_items.selected == Some(i) && i
                < self.service_items.items@.len() && *s == self.service_items.items@[i as int].service,
            r is None ==> match self.service_items.selected {
                Some(i) => i >= self.service_items.items@.len(),
                None => true,
            },
    {
        match self.service_items.selected {
            Some(i) => if i < self.service_items.items.len() {
                Some((&self.service_items.items[i].service, i))
            } else {
                None
            },
            None => None,
        }
    }

    /// The selected task, if tasks are listed and one is selected.
    pub fn get_selected_task(&self) -> (r: Option<&TaskSnapshot>)
        ensures
            r matches Some(t) ==> self.task_items matches Some(ti) && ti.selected matches Some(i)
                && i < ti.items@.len() && *t == ti.items@[i as int],
            r is None ==> match self.task_items {
                Some(ti) => match ti.selected {
                    Some(i) => i >= ti.items@.len(),
                    None => true,
                },
                None => true,
            },
    {
        match &self.task_items {
            Some(ti) => match ti.selected {
                Some(i) => if i < ti.items.len() {
                    Some(&ti.items[i])
                } else {
                    None
                },
                None => None,
            },
            None => None,
        }
    }

    /// The cached tasks of a service.
    pub fn cached_tasks(&self, service: &ServiceDetails) -> (r: Option<&Vec<TaskSnapshot>>)
        ensures
            r is Some <==> cache_map(self.task_results_cache@).contains_key(service@),
            r matches Some(t) ==> views(t@) == cache_map(self.task_results_cache@)[service@],
    {
        let ghost s = self.task_results_cache@;
        let mut i = self.task_results_cache.len();
        while i > 0
            invariant
                i <= s.len(),
                s == self.task_results_cache@,
                forall|k: int| i <= k < s.len() ==> (#[trigger] s[k]).service@ != service@,
            decreases i,
        {
            i = i - 1;
            if self.task_results_cache[i].service.same_as(service) {
                proof {
                    lemma_cache_map_suffix(s, i + 1, service@);
                    assert(s.take(i + 1).drop_last() =~= s.take(i as int));
                }
                return Some(&self.task_results_cache[i].tasks);
            }
        }
        proof {
            lemma_cache_map_absent(s, service@);
        }
        None
    }

    /// Drops the cached tasks of a service.
    pub fn evict_cached_tasks(&mut self, service: &ServiceDetails)
        ensures
            cache_map(final(self).task_results_cache@) == cache_map(
                old(self).task_results_cache@,
            ).remove(service@),
            *final(self) == (Model { task_results_cache: final(self).task_results_cache, ..*old(self) }),
    {
        let ghost orig = self.task_results_cache@;
        let mut i: usize = 0;
        while i < self.task_results_cache.len()
            invariant
                i <= self.task_results_cache@.len(),
                cache_map(self.task_results_cache@).remove(service@) == cache_map(orig).remove(
                    service@,
                ),
                forall|k: int| 0 <= k < i ==> (#[trigger] self.task_results_cache@[k]).service@ != service@,
                *self == (Model { task_results_cache: self.task_results_cache, ..*old(self) }),
            decreases self.task_results_cache@.len() - i,
        {
            if self.task_results_cache[i].service.same_as(service) {
                proof {
                    lemma_cache_map_remove(self.task_results_cache@, i as int, service@);
                }
                self.task_results_cache.remove(i);
            } else {
                i = i + 1;
            }
        }
        proof {
            lemma_cache_map_absent(self.task_results_cache@, service@);
            assert(cache_map(self.task_results_cache@).remove(service@) =~= cache_map(
                self.task_results_cache@,
            ));
        }
    }

    /// Stores the tasks fetched for a service, replacing any cached before.
    pub fn store_tasks(&mut self, service: ServiceDetails, tasks: Vec<TaskSnapshot>)
        ensures
            cache_map(final(self).task_results_cache@) == cache_map(
                old(self).task_results_cache@,
            ).insert(service@, views(tasks@)),
            *final(self) == (Model { task_results_cache: final(self).task_results_cache, ..*old(self) }),
    {
        self.evict_cached_tasks(&service);
        let ghost mid = self.task_results_cache@;
        let ghost key = service@;
        let ghost value = views(tasks@);
        self.task_results_cache.push(CacheEntry { service, tasks });
        proof {
            assert(self.task_results_cache@.drop_last() =~= mid);
            assert(cache_map(mid).insert(key, value) =~= cache_map(old(self).task_results_cache@).insert(
                key,
                value,
            ));
        }
    }
}

} // verus!
