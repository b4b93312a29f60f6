//! What the operator browses: the store's results grouped by host, and the
//! selection in them.

use crate::clock::{utc_now, Elapsed, Timestamp};
use crate::config::{Config, Host};
use crate::listing::{
    group_by_host, group_runs, group_views, lemma_filter_ascends, lemma_group_by_host,
    lemma_group_names_ascend, lemma_listing, lemma_lists_is_listing, lemma_ordered_distinct_ascends,
    lemma_permutation_enumerates, listable, listing, lists, services_of, sort_by_key, well_grouped, HostGroup,
};
use crate::monitor::{key_lt, CheckResult, ServiceCheck, ServiceStatus, StatusKey};
use crate::store::{views, StatusStore};
use crate::text::{opt_text, text_lt};
use vstd::prelude::*;
use vstd::string::StringExecFns;

verus! {

/// What a position of the selection points at.
#[derive(Debug, PartialEq, Eq)]
pub enum SelectedItem {
    HostHeader(String),
    Service(ServiceCheck),
}

/// One selectable line, as plain values: a host's header or the result of
/// one of its services.
pub enum Row {
    HostHeader(Seq<char>),
    Service(CheckResult),
}

impl View for SelectedItem {
    type V = Row;

    open spec fn view(&self) -> Row {
        match self {
            SelectedItem::HostHeader(name) => Row::HostHeader(name@),
            SelectedItem::Service(check) => Row::Service(check@),
        }
    }
}

impl Clone for SelectedItem {
    fn clone(&self) -> (r: Self)
        ensures
            r@ == self@,
    {
        match self {
            SelectedItem::HostHeader(name) => SelectedItem::HostHeader(name.clone()),
            SelectedItem::Service(check) => SelectedItem::Service(check.clone()),
        }
    }
}

/// The view of an optional item.
pub open spec fn opt_row(item: Option<SelectedItem>) -> Option<Row> {
    match item {
        Some(i) => Some(i@),
        None => None,
    }
}

/// The plain values of a sequence of items.
pub open spec fn item_views(items: Seq<SelectedItem>) -> Seq<Row> {
    items.map_values(|i: SelectedItem| i@)
}

/// The lines of the services of one host.
pub open spec fn service_rows(services: Seq<CheckResult>) -> Seq<Row> {
    services.map_values(|c: CheckResult| Row::Service(c))
}

/// The selectable lines of a grouped view, top to bottom: for each host its
/// header, then one line for each of its services.
pub open spec fn rows(g: Seq<HostGroup>) -> Seq<Row>
    decreases g.len(),
{
    if g.len() == 0 {
        Seq::empty()
    } else {
        rows(g.drop_last()).push(Row::HostHeader(g.last().host_name)) + service_rows(g.last().services)
    }
}

/// The results that name the host `host_name`.
pub open spec fn on_host(host_name: Seq<char>) -> spec_fn(CheckResult) -> bool {
    |c: CheckResult| c.host_name == host_name
}

/// The results whose status is `status`.
pub open spec fn with_status(status: ServiceStatus) -> spec_fn(CheckResult) -> bool {
    |c: CheckResult| c.status == status
}

/// Where the selection goes from `index` when it moves one line down among
/// `total` lines.
pub open spec fn index_after(index: int, total: int) -> int {
    if total > 0 {
        (index + 1) % total
    } else {
        index
    }
}

/// Where the selection goes from `index` when it moves one line up among
/// `total` lines.
pub open spec fn index_before(index: int, total: int) -> int {
    if total <= 0 {
        index
    } else if index == 0 {
        total - 1
    } else {
        index - 1
    }
}

proof fn lemma_rows_step(g: Seq<HostGroup>, k: int)
    requires
        0 <= k < g.len(),
    ensures
        rows(g.take(k + 1)) == rows(g.take(k)).push(Row::HostHeader(g[k].host_name)) + service_rows(
            g[k].services,
        ),
{
    assert(g.take(k + 1).drop_last() =~= g.take(k));
}

proof fn lemma_rows_prefix(g: Seq<HostGroup>, k: int)
    requires
        0 <= k <= g.len(),
    ensures
        rows(g.take(k)).len() <= rows(g).len(),
        forall|i: int| 0 <= i < rows(g.take(k)).len() ==> rows(g)[i] == #[trigger] rows(g.take(k))[i],
    decreases g.len() - k,
{
    if k < g.len() {
        lemma_rows_prefix(g, k + 1);
        lemma_rows_step(g, k);
        assert forall|i: int| 0 <= i < rows(g.take(k)).len() implies rows(g)[i] == #[trigger] rows(g.take(k))[i] by {
            assert(rows(g.take(k + 1))[i] == rows(g.take(k))[i]);
        }
    } else {
        assert(g.take(k) =~= g);
    }
}

/// Where the selection stands after `steps` moves down from `index` among
/// `total` lines.
pub open spec fn index_after_steps(index: int, total: int, steps: nat) -> int
    decreases steps,
{
    if steps == 0 {
        index
    } else {
        index_after(index_after_steps(index, total, (steps - 1) as nat), total)
    }
}

proof fn lemma_steps_from_top(total: nat, steps: nat)
    requires
        steps <= total,
    ensures
        index_after_steps(0, total as int, steps) == if steps < total {
            steps as int
        } else {
            0
        },
    decreases steps,
{
    if steps > 0 {
        lemma_steps_from_top(total, (steps - 1) as nat);
        if steps < total {
            vstd::arithmetic::div_mod::lemma_small_mod(steps, total);
        } else {
            vstd::arithmetic::div_mod::lemma_mod_self_0(total as int);
        }
    }
}

/// Moving down as many times as there are lines, from the first line, ends
/// on the first line again; and one move up from the first line ends on the
/// last.
pub proof fn lemma_selection_wraps(total: nat)
    ensures
        index_after_steps(0, total as int, total) == 0,
        total > 0 ==> index_before(0, total as int) == total - 1,
{
    lemma_steps_from_top(total, total);
}

/// A grouped view has a line for each group and one for each result, and
/// so no more than two for each result.
pub proof fn lemma_rows_len(g: Seq<HostGroup>)
    requires
        forall|i: int| 0 <= i < g.len() ==> (#[trigger] g[i]).services.len() > 0,
    ensures
        rows(g).len() == g.len() + services_of(g).len(),
        g.len() <= services_of(g).len(),
    decreases g.len(),
{
    if g.len() > 0 {
        let front = g.drop_last();
        assert forall|i: int| 0 <= i < front.len() implies (#[trigger] front[i]).services.len() > 0 by {
            assert(g[i].services.len() > 0);
        }
        lemma_rows_len(front);
        assert(g[g.len() - 1].services.len() > 0);
    }
}

/// The state of the browsing session.
#[derive(Debug)]
pub struct App {
    pub config: Config,
    pub statuses: StatusStore,
    pub selected_index: usize,
    pub show_help: bool,
    pub show_host_detail: bool,
    pub selected_host_name: Option<String>,
    pub last_update: Timestamp,
}

impl App {
    /// The stored results in the order of their slots: by host name, then by
    /// service name, then by port.
    pub open spec fn status_list(&self) -> Seq<CheckResult> {
        listing(self.statuses@)
    }

    /// The stored results grouped by host, hosts in the order of their names.
    pub open spec fn grouped_view(&self) -> Seq<HostGroup> {
        group_by_host(self.status_list())
    }

    /// The selectable lines of the grouped view.
    pub open spec fn lines(&self) -> Seq<Row> {
        rows(self.grouped_view())
    }

    /// The number of selectable lines.
    pub open spec fn total_items(&self) -> nat {
        self.lines().len()
    }

    /// The line at `index`, if there is one.
    pub open spec fn selected_item(&self, index: int) -> Option<Row> {
        if 0 <= index < self.lines().len() {
            Some(self.lines()[index])
        } else {
            None
        }
    }

    /// The stored results of the host `host_name`, in the order of the listing.
    pub open spec fn host_services(&self, host_name: Seq<char>) -> Seq<CheckResult> {
        self.status_list().filter(on_host(host_name))
    }

    /// The session as it starts: nothing stored, the first line selected, the
    /// overview shown.
    pub open spec fn initial(config: Config, now: Timestamp, app: App) -> bool {
        &&& app.config == config
        &&& app.statuses@ == Map::<StatusKey, CheckResult>::empty()
        &&& app.selected_index == 0
        &&& !app.show_help
        &&& !app.show_host_detail
        &&& app.selected_host_name is None
        &&& app.last_update == now
    }

    /// A session over `config`, stamped with the current time.
    pub fn new(config: Config) -> (r: Self)
        ensures
            Self::initial(config, r.last_update, r),
    {
        Self::new_at(config, utc_now())
    }

    /// A session over `config`, stamped `now`.
    pub fn new_at(config: Config, now: Timestamp) -> (r: Self)
        ensures
            Self::initial(config, now, r),
    {
        App {
            config,
            statuses: StatusStore::new(),
            selected_index: 0,
            show_help: false,
            show_host_detail: false,
            selected_host_name: None,
            last_update: now,
        }
    }

    /// Takes `statuses` as the results to browse, stamped with the current
    /// time.
    pub fn update_statuses(&mut self, statuses: StatusStore)
        ensures
            *final(self) == (App { statuses, last_update: final(self).last_update, ..*old(self) }),
    {
        self.update_statuses_at(statuses, utc_now());
    }

    /// Takes `statuses` as the results to browse, stamped `now`.
    pub fn update_statuses_at(&mut self, statuses: StatusStore, now: Timestamp)
        ensures
            *final(self) == (App { statuses, last_update: now, ..*old(self) }),
    {
        self.statuses = statuses;
        self.last_update = now;
    }

    /// The stored results in the order of their slots.
    pub fn get_status_list(&self) -> (r: Vec<ServiceCheck>)
        ensures
            views(r@) == self.status_list(),
            lists(self.statuses@, views(r@)),
            self.statuses@.dom().finite(),
            r@.len() == self.statuses@.len(),
    {
        let values = self.statuses.values();
        let ghost unsorted = views(values@);
        let sorted = sort_by_key(values);
        proof {
            lemma_permutation_enumerates(self.statuses@, unsorted, views(sorted@));
            lemma_ordered_distinct_ascends(views(sorted@));
            lemma_lists_is_listing(self.statuses@, views(sorted@));
            vstd::seq_lib::to_multiset_len(unsorted);
            vstd::seq_lib::to_multiset_len(views(sorted@));
        }
        sorted
    }

    /// The result at the selected position of the listing, if there is one.
    pub fn get_selected_service(&self) -> (r: Option<ServiceCheck>)
        ensures
            self.selected_index < self.status_list().len() ==> r is Some && r->0@ == self.status_list()[self.selected_index as int],
            self.selected_index >= self.status_list().len() ==> r is None,
    {
        let statuses = self.get_status_list();
        if self.selected_index < statuses.len() {
            Some(statuses[self.selected_index].clone())
        } else {
            None
        }
    }

    /// Moves the selection one line down; from the last line it goes to the
    /// first. Without lines it stays.
    pub fn next_item(&mut self)
        requires
            old(self).total_items() <= usize::MAX,
        ensures
            final(self).selected_index == index_after(
                old(self).selected_index as int,
                old(self).total_items() as int,
            ),
            *final(self) == (App { selected_index: final(self).selected_index, ..*old(self) }),
    {
        let total_items = self.get_total_items();
        if total_items > 0 {
            proof {
                vstd::arithmetic::div_mod::lemma_add_mod_noop_right(
                    1,
                    self.selected_index as int,
                    total_items as int,
                );
            }
            self.selected_index = (self.selected_index % total_items + 1) % total_items;
        }
    }

    /// Moves the selection one line up; from the first line it goes to the
    /// last. Without lines it stays.
    pub fn previous_item(&mut self)
        requires
            old(self).total_items() <= usize::MAX,
        ensures
            final(self).selected_index == index_before(
                old(self).selected_index as int,
                old(self).total_items() as int,
            ),
            *final(self) == (App { selected_index: final(self).selected_index, ..*old(self) }),
    {
        let total_items = self.get_total_items();
        if total_items > 0 {
            self.selected_index = if self.selected_index == 0 {
                total_items - 1
            } else {
                self.selected_index - 1
            };
        }
    }

    /// Shows the help if it is hidden, and hides it if it is shown.
    pub fn toggle_help(&mut self)
        ensures
            *final(self) == (App { show_help: !old(self).show_help, ..*old(self) }),
    {
        self.show_help = !self.show_help;
    }

    /// The host that the selected line belongs to.
    pub open spec fn host_of(row: Row) -> Seq<char> {
        match row {
            Row::HostHeader(name) => name,
            Row::Service(check) => check.host_name,
        }
    }

    /// Opens the detail of the host that the selected line belongs to. Where
    /// the selection is on no line, nothing changes.
    pub fn enter_host_detail(&mut self)
        ensures
            final(self).config == old(self).config,
            final(self).statuses == old(self).statuses,
            final(self).selected_index == old(self).selected_index,
            final(self).show_help == old(self).show_help,
            final(self).last_update == old(self).last_update,
            match old(self).selected_item(old(self).selected_index as int) {
                Some(row) => final(self).show_host_detail && opt_text(final(self).selected_host_name) == Some(
                    Self::host_of(row),
                ),
                None => final(self).show_host_detail == old(self).show_host_detail
                    && final(self).selected_host_name == old(self).selected_host_name,
            },
    {
        match self.get_selected_item() {
            Some(SelectedItem::HostHeader(host_name)) => {
                self.selected_host_name = Some(host_name);
                self.show_host_detail = true;
            },
            Some(SelectedItem::Service(service)) => {
                self.selected_host_name = Some(service.host_name);
                self.show_host_detail = true;
            },
            None => {},
        }
    }

    /// Closes the host detail and forgets the host.
    pub fn exit_host_detail(&mut self)
        ensures
            *final(self) == (App { show_host_detail: false, selected_host_name: None, ..*old(self) }),
    {
        self.show_host_detail = false;
        self.selected_host_name = None;
    }

    /// The first configured host with the name of the host in detail, if a
    /// host is in detail and the configuration has one of that name.
    pub fn get_selected_host(&self) -> (r: Option<&Host>)
        ensures
            match r {
                Some(host) => exists|i: int|
                    {
                        &&& 0 <= i < self.config.hosts@.len()
                        &&& *host == self.config.hosts@[i]
                        &&& Some(host.name@) == opt_text(self.selected_host_name)
                        &&& forall|j: int| 0 <= j < i ==> Some((#[trigger] self.config.hosts@[j]).name@) != opt_text(self.selected_host_name)
                    },
                None => forall|j: int|
                    0 <= j < self.config.hosts@.len() ==> Some((#[trigger] self.config.hosts@[j]).name@)
                        != opt_text(self.selected_host_name),
            },
    {
        match &self.selected_host_name {
            Some(host_name) => {
                let n = self.config.hosts.len();
                let mut i: usize = 0;
                while i < n
                    invariant
                        i <= n,
                        n == self.config.hosts@.len(),
                        self.selected_host_name == Some(*host_name),
                        forall|j: int| 0 <= j < i ==> (#[trigger] self.config.hosts@[j]).name@ != host_name@,
                    decreases n - i,
                {
                    if self.config.hosts[i].name == *host_name {
                        return Some(&self.config.hosts[i]);
                    }
                    i += 1;
                }
                None
            },
            None => None,
        }
    }

    /// The stored results of the host `host_name`, in the order of their
    /// service names.
    pub fn get_host_services_status(&self, host_name: &str) -> (r: Vec<ServiceCheck>)
        ensures
            views(r@) == self.host_services(host_name@),
    {
        let statuses = self.get_status_list();
        let wanted = String::from_str(host_name);
        let mut kept: Vec<ServiceCheck> = Vec::new();
        let n = statuses.len();
        let mut i: usize = 0;
        proof {
            assert(views(statuses@).take(0) =~= Seq::<CheckResult>::empty());
            reveal(Seq::filter);
            assert(views(kept@) =~= views(statuses@).take(0).filter(on_host(host_name@)));
        }
        while i < n
            invariant
                i <= n,
                n == statuses@.len(),
                wanted@ == host_name@,
                views(kept@) == views(statuses@).take(i as int).filter(on_host(host_name@)),
            decreases n - i,
        {
            let ghost done = views(kept@);
            proof {
                let upto = views(statuses@).take(i as int);
                assert(views(statuses@).take(i as int + 1) =~= upto.push(statuses@[i as int]@));
                upto.lemma_filter_push(statuses@[i as int]@, on_host(host_name@));
            }
            if statuses[i].host_name == wanted {
                kept.push(statuses[i].clone());
                assert(views(kept@) =~= done.push(statuses@[i as int]@));
            }
            i += 1;
        }
        assert(views(statuses@).take(n as int) =~= views(statuses@));
        kept
    }

    /// The stored results grouped by host: hosts in the order of their names,
    /// and under each host its services in the order of theirs.
    pub fn get_grouped_status_list(&self) -> (r: Vec<(String, Vec<ServiceCheck>)>)
        ensures
            group_views(r@) == self.grouped_view(),
    {
        let sorted = self.get_status_list();
        group_runs(&sorted)
    }

    /// The selectable lines, top to bottom: for each host its header, then
    /// one line for each of its services.
    pub fn get_lines(&self) -> (r: Vec<SelectedItem>)
        ensures
            item_views(r@) == self.lines(),
    {
        let grouped = self.get_grouped_status_list();
        let ghost g = group_views(grouped@);
        let mut lines: Vec<SelectedItem> = Vec::new();
        let n = grouped.len();
        let mut i: usize = 0;
        assert(g.take(0) =~= Seq::<HostGroup>::empty());
        assert(item_views(lines@) =~= rows(g.take(0)));
        while i < n
            invariant
                i <= n,
                n == grouped@.len(),
                g == group_views(grouped@),
                item_views(lines@) == rows(g.take(i as int)),
            decreases n - i,
        {
            proof {
                lemma_rows_step(g, i as int);
            }
            let ghost before = item_views(lines@);
            lines.push(SelectedItem::HostHeader(grouped[i].0.clone()));
            assert(item_views(lines@) =~= before.push(Row::HostHeader(g[i as int].host_name)));
            let services = &grouped[i].1;
            let count = services.len();
            let mut s: usize = 0;
            assert(service_rows(g[i as int].services.take(0)) =~= Seq::<Row>::empty());
            while s < count
                invariant
                    s <= count,
                    i < n,
                    n == grouped@.len(),
                    g == group_views(grouped@),
                    *services == grouped@[i as int].1,
                    count == services@.len(),
                    item_views(lines@) == before.push(Row::HostHeader(g[i as int].host_name)) + service_rows(
                        g[i as int].services.take(s as int),
                    ),
                decreases count - s,
            {
                let ghost had = item_views(lines@);
                lines.push(SelectedItem::Service(services[s].clone()));
                assert(g[i as int].services.take(s as int + 1) =~= g[i as int].services.take(s as int).push(
                    services@[s as int]@,
                ));
                assert(item_views(lines@) =~= had.push(Row::Service(services@[s as int]@)));
                s += 1;
            }
            assert(g[i as int].services.take(count as int) =~= g[i as int].services);
            i += 1;
        }
        assert(g.take(n as int) =~= g);
        lines
    }

    /// What the selection points at: a host's header or the result of a
    /// service, or nothing where the selection is past the last line.
    pub fn get_selected_item(&self) -> (r: Option<SelectedItem>)
        ensures
            opt_row(r) == self.selected_item(self.selected_index as int),
    {
        let grouped = self.get_grouped_status_list();
        let ghost g = group_views(grouped@);
        let n = grouped.len();
        let mut left: usize = self.selected_index;
        let mut i: usize = 0;
        assert(g.take(0) =~= Seq::<HostGroup>::empty());
        while i < n
            invariant
                i <= n,
                n == grouped@.len(),
                g == group_views(grouped@),
                g == self.grouped_view(),
                rows(g.take(i as int)).len() + left == self.selected_index,
            decreases n - i,
        {
            proof {
                lemma_rows_step(g, i as int);
                lemma_rows_prefix(g, i as int + 1);
            }
            let ghost upto = rows(g.take(i as int + 1));
            let ghost base = rows(g.take(i as int)).len();
            if left == 0 {
                assert(upto[base as int] == Row::HostHeader(g[i as int].host_name));
                return Some(SelectedItem::HostHeader(grouped[i].0.clone()));
            }
            left -= 1;
            let services = &grouped[i].1;
            if left < services.len() {
                assert(upto[base + 1 + left] == Row::Service(g[i as int].services[left as int]));
                return Some(SelectedItem::Service(services[left].clone()));
            }
            left -= services.len();
            i += 1;
        }
        assert(g.take(n as int) =~= g);
        None
    }

    /// Whether the selectable lines can be counted: there are at most two for
    /// each stored result, one of the result and one of its host.
    pub fn lines_countable(&self) -> (r: bool)
        ensures
            self.statuses@.dom().finite(),
            r == (2 * self.statuses@.len() <= usize::MAX),
            r ==> self.total_items() <= usize::MAX,
    {
        let statuses = self.get_status_list();
        proof {
            lemma_group_by_host(self.status_list());
            lemma_rows_len(self.grouped_view());
        }
        statuses.len() <= usize::MAX / 2
    }

    /// The number of selectable lines: one for each host and one for each of
    /// its services.
    pub fn get_total_items(&self) -> (r: usize)
        requires
            self.total_items() <= usize::MAX,
        ensures
            r == self.total_items(),
    {
        let grouped = self.get_grouped_status_list();
        let ghost g = group_views(grouped@);
        let n = grouped.len();
        let mut total: usize = 0;
        let mut i: usize = 0;
        assert(g.take(0) =~= Seq::<HostGroup>::empty());
        while i < n
            invariant
                i <= n,
                n == grouped@.len(),
                g == group_views(grouped@),
                rows(g).len() <= usize::MAX,
                total == rows(g.take(i as int)).len(),
            decreases n - i,
        {
            proof {
                lemma_rows_step(g, i as int);
                lemma_rows_prefix(g, i as int + 1);
            }
            total += 1;
            total += grouped[i].1.len();
            i += 1;
        }
        assert(g.take(n as int) =~= g);
        total
    }

    /// How many stored results are up, down and unknown.
    pub fn get_summary_stats(&self) -> (r: (usize, usize, usize))
        ensures
            r.0 == self.status_list().filter(with_status(ServiceStatus::Up)).len(),
            r.1 == self.status_list().filter(with_status(ServiceStatus::Down)).len(),
            r.2 == self.status_list().filter(with_status(ServiceStatus::Unknown)).len(),
    {
        let statuses = self.get_status_list();
        let mut up: usize = 0;
        let mut down: usize = 0;
        let mut unknown: usize = 0;
        let n = statuses.len();
        let mut i: usize = 0;
        proof {
            reveal(Seq::filter);
            assert(views(statuses@).take(0) =~= Seq::<CheckResult>::empty());
        }
        while i < n
            invariant
                i <= n,
                n == statuses@.len(),
                up == views(statuses@).take(i as int).filter(with_status(ServiceStatus::Up)).len(),
                down == views(statuses@).take(i as int).filter(with_status(ServiceStatus::Down)).len(),
                unknown == views(statuses@).take(i as int).filter(with_status(ServiceStatus::Unknown)).len(),
                up <= i,
                down <= i,
                unknown <= i,
            decreases n - i,
        {
            proof {
                let upto = views(statuses@).take(i as int);
                let x = statuses@[i as int]@;
                assert(views(statuses@).take(i as int + 1) =~= upto.push(x));
                upto.lemma_filter_push(x, with_status(ServiceStatus::Up));
                upto.lemma_filter_push(x, with_status(ServiceStatus::Down));
                upto.lemma_filter_push(x, with_status(ServiceStatus::Unknown));
            }
            match statuses[i].status {
                ServiceStatus::Up => {
                    up += 1;
                },
                ServiceStatus::Down => {
                    down += 1;
                },
                ServiceStatus::Unknown => {
                    unknown += 1;
                },
            }
            i += 1;
        }
        assert(views(statuses@).take(n as int) =~= views(statuses@));
        (up, down, unknown)
    }

    /// The number of stored results.
    pub fn get_total_services(&self) -> (r: usize)
        ensures
            self.statuses@.dom().finite(),
            r == self.statuses@.len(),
    {
        self.statuses.len()
    }

    /// The number of configured hosts.
    pub fn get_host_count(&self) -> (r: usize)
        ensures
            r == self.config.hosts@.len(),
    {
        self.config.hosts.len()
    }

    /// The time between two rounds of checks.
    pub fn get_refresh_interval(&self) -> (r: Elapsed)
        ensures
            r.nanos == self.config.settings.refresh_interval * 1_000_000_000,
    {
        Elapsed::from_secs(self.config.settings.refresh_interval)
    }
}

/// The grouped view and its lines are decided by which result each slot
/// holds, and by nothing else: two sessions over the same mapping show the
/// same, in the same order, however their stores came about.
pub proof fn lemma_grouped_view_determined(a: App, b: App)
    requires
        a.statuses@ == b.statuses@,
    ensures
        a.status_list() == b.status_list(),
        a.grouped_view() == b.grouped_view(),
        a.lines() == b.lines(),
{
}

/// The grouped view holds each stored result once, under the header of its
/// own host; no group is empty; and the hosts stand in the order of their
/// names, each host once.
pub proof fn lemma_hosts_in_name_order(app: App)
    requires
        listable(app.statuses@),
    ensures
        lists(app.statuses@, services_of(app.grouped_view())),
        well_grouped(app.grouped_view()),
        forall|i: int, j: int|
            0 <= i < j < app.grouped_view().len() ==> text_lt(
                (#[trigger] app.grouped_view()[i]).host_name,
                (#[trigger] app.grouped_view()[j]).host_name,
            ),
{
    lemma_listing(app.statuses@);
    lemma_group_by_host(app.status_list());
    lemma_group_names_ascend(app.status_list());
}

/// The services of a host are the stored results that name the host, all of
/// them and no other, in the order of their service names, and by port where
/// two have the same name.
pub proof fn lemma_host_services(app: App, host_name: Seq<char>)
    requires
        listable(app.statuses@),
    ensures
        forall|i: int|
            0 <= i < app.host_services(host_name).len() ==> {
                let c = #[trigger] app.host_services(host_name)[i];
                &&& c.host_name == host_name
                &&& app.statuses@.contains_key(c.key())
                &&& app.statuses@[c.key()] == c
            },
        forall|k: StatusKey|
            app.statuses@.contains_key(k) && k.host_name == host_name ==> app.host_services(host_name).contains(
                #[trigger] app.statuses@[k],
            ),
        forall|i: int, j: int|
            0 <= i < j < app.host_services(host_name).len() ==> {
                let c = #[trigger] app.host_services(host_name)[i];
                let d = #[trigger] app.host_services(host_name)[j];
                text_lt(c.service_name, d.service_name) || (c.service_name == d.service_name && c.port < d.port)
            },
{
    let m = app.statuses@;
    let l = app.status_list();
    let hs = app.host_services(host_name);
    lemma_listing(m);
    lemma_filter_ascends(l, on_host(host_name));
    assert forall|i: int| 0 <= i < hs.len() implies {
        let c = #[trigger] hs[i];
        &&& c.host_name == host_name
        &&& m.contains_key(c.key())
        &&& m[c.key()] == c
    } by {
        assert(l.contains(hs[i]));
        let q = choose|q: int| 0 <= q < l.len() && l[q] == hs[i];
        assert(m.contains_key(l[q].key()));
    }
    assert forall|k: StatusKey| m.contains_key(k) && k.host_name == host_name implies hs.contains(
        #[trigger] m[k],
    ) by {
        let q = choose|q: int| 0 <= q < l.len() && (#[trigger] l[q]).key() == k;
        assert(m[l[q].key()] == l[q]);
        l.lemma_filter_contains(on_host(host_name), q);
    }
    assert forall|i: int, j: int| 0 <= i < j < hs.len() implies {
        let c = #[trigger] hs[i];
        let d = #[trigger] hs[j];
        text_lt(c.service_name, d.service_name) || (c.service_name == d.service_name && c.port < d.port)
    } by {
        assert(key_lt(hs[i].key(), hs[j].key()));
    }
}

proof fn lemma_filter_of_one_host(l: Seq<CheckResult>, host_name: Seq<char>, other: Seq<char>)
    requires
        forall|i: int| 0 <= i < l.len() ==> (#[trigger] l[i]).host_name == host_name,
    ensures
        other == host_name ==> l.filter(on_host(other)) == l,
        other != host_name ==> l.filter(on_host(other)) == Seq::<CheckResult>::empty(),
    decreases l.len(),
{
    reveal(Seq::filter);
    if l.len() > 0 {
        let front = l.drop_last();
        assert forall|i: int| 0 <= i < front.len() implies (#[trigger] front[i]).host_name == host_name by {
            assert(l[i].host_name == host_name);
        }
        lemma_filter_of_one_host(front, host_name, other);
        assert(l[l.len() - 1].host_name == host_name);
        assert(front.push(l.last()) =~= l);
    } else {
        assert(l =~= Seq::<CheckResult>::empty());
    }
}

proof fn lemma_filter_of_groups(g: Seq<HostGroup>, host_name: Seq<char>)
    requires
        well_grouped(g),
        forall|i: int, j: int| 0 <= i < j < g.len() ==> (#[trigger] g[i]).host_name != (#[trigger] g[j]).host_name,
    ensures
        forall|i: int|
            0 <= i < g.len() && (#[trigger] g[i]).host_name == host_name ==> services_of(g).filter(
                on_host(host_name),
            ) == g[i].services,
        (forall|i: int| 0 <= i < g.len() ==> (#[trigger] g[i]).host_name != host_name) ==> services_of(g).filter(
            on_host(host_name),
        ) == Seq::<CheckResult>::empty(),
    decreases g.len(),
{
    reveal(Seq::filter);
    if g.len() > 0 {
        let front = g.drop_last();
        let last = g.last();
        assert(well_grouped(front)) by {
            assert forall|i: int| 0 <= i < front.len() implies (#[trigger] front[i]).services.len() > 0 by {
                assert(g[i].services.len() > 0);
            }
            assert forall|i: int, s: int|
                0 <= i < front.len() && 0 <= s < front[i].services.len() implies (
            #[trigger] front[i].services[s]).host_name == front[i].host_name by {
                assert(g[i].services[s].host_name == g[i].host_name);
            }
            assert forall|i: int| 0 < i < front.len() implies front[i - 1].host_name != (
            #[trigger] front[i]).host_name by {
                assert(g[i - 1].host_name != g[i].host_name);
            }
        }
        assert forall|i: int, j: int| 0 <= i < j < front.len() implies (#[trigger] front[i]).host_name != (
        #[trigger] front[j]).host_name by {
            assert(g[i].host_name != g[j].host_name);
        }
        lemma_filter_of_groups(front, host_name);
        assert forall|s: int| 0 <= s < last.services.len() implies (#[trigger] last.services[s]).host_name
            == last.host_name by {
            assert(g[g.len() - 1].services[s].host_name == g[g.len() - 1].host_name);
        }
        lemma_filter_of_one_host(last.services, last.host_name, host_name);
        Seq::filter_distributes_over_add(services_of(front), last.services, on_host(host_name));
        let kept = services_of(g).filter(on_host(host_name));
        assert(kept == services_of(front).filter(on_host(host_name)) + last.services.filter(on_host(host_name)));
        if last.host_name == host_name {
            assert forall|i: int| 0 <= i < front.len() implies (#[trigger] front[i]).host_name != host_name by {
                assert(g[i].host_name != g[g.len() - 1].host_name);
            }
            assert(kept =~= last.services);
            assert forall|i: int| 0 <= i < g.len() && (#[trigger] g[i]).host_name == host_name implies kept
                == g[i].services by {
                if i < g.len() - 1 {
                    assert(g[i].host_name != g[g.len() - 1].host_name);
                }
            }
        } else {
            assert(kept =~= services_of(front).filter(on_host(host_name)));
            assert forall|i: int| 0 <= i < g.len() && (#[trigger] g[i]).host_name == host_name implies kept
                == g[i].services by {
                assert(front[i] == g[i]);
            }
            if forall|i: int| 0 <= i < g.len() ==> (#[trigger] g[i]).host_name != host_name {
                assert forall|i: int| 0 <= i < front.len() implies (#[trigger] front[i]).host_name != host_name by {
                    assert(g[i].host_name != host_name);
                }
            }
        }
    }
}

/// The services of a host are what the grouped view shows under the host's
/// header, in the same order; a host without a header has none.
pub proof fn lemma_host_services_are_its_group(app: App, host_name: Seq<char>)
    requires
        listable(app.statuses@),
    ensures
        forall|i: int|
            0 <= i < app.grouped_view().len() && (#[trigger] app.grouped_view()[i]).host_name == host_name
                ==> app.host_services(host_name) == app.grouped_view()[i].services,
        (forall|i: int| 0 <= i < app.grouped_view().len() ==> (#[trigger] app.grouped_view()[i]).host_name
            != host_name) ==> app.host_services(host_name) == Seq::<CheckResult>::empty(),
{
    let g = app.grouped_view();
    lemma_hosts_in_name_order(app);
    lemma_group_by_host(app.status_list());
    assert forall|i: int, j: int| 0 <= i < j < g.len() implies (#[trigger] g[i]).host_name != (
    #[trigger] g[j]).host_name by {
        assert(text_lt(g[i].host_name, g[j].host_name));
        crate::text::lemma_text_lt_irreflexive(g[i].host_name);
    }
    lemma_filter_of_groups(g, host_name);
}

} // verus!
