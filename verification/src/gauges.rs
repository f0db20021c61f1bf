//! The gauges that a round of polling fills, and what a round writes to them.

use vstd::prelude::*;
use crate::patroni::{member_views, PatroniState, PatroniStatus, StatusView};
use crate::text::{str_eq, text_of};

verus! {

/// The gauges, each labelled by the member's name.
#[derive(Clone, Copy, Debug, PartialEq, Eq, Structural)]
pub enum Gauge {
    PostgresVersion,
    /// Labelled by the agent's version too.
    PatroniVersion,
    Running,
    /// Labelled by the role too.
    Role,
    PendingRestart,
    Timeline,
    ReplicationSlots,
}

/// One labelled series of a gauge.
pub struct Series {
    pub gauge: Gauge,
    pub server: Seq<char>,
    pub label: Option<Seq<char>>,
}

/// A value for one series of a gauge.
#[derive(Debug)]
pub struct Sample {
    pub gauge: Gauge,
    pub server: String,
    /// The value of the gauge's second label, where it has one.
    pub label: Option<String>,
    pub value: u64,
}

/// One write to the gauges.
#[derive(Debug)]
pub enum Update {
    /// Drops every series of a gauge.
    Reset(Gauge),
    /// Gives one series its value.
    Put(Sample),
}

/// A write to the gauges, as mathematics.
pub enum UpdateView {
    Reset(Gauge),
    Put(Series, u64),
}

/// The gauges and the value of each of their series.
pub struct GaugeSet {
    samples: Vec<Sample>,
}

impl Gauge {
    /// Whether the gauge has a second label, whose values come and go with the
    /// members' reports.
    pub open spec fn is_dynamic(self) -> bool {
        self == Gauge::Role || self == Gauge::PatroniVersion
    }

    /// The name under which the gauge is exported.
    pub fn name(&self) -> (r: &'static str)
        ensures
            r@ == match *self {
                Gauge::PostgresVersion => "patroni_postgres_version"@,
                Gauge::PatroniVersion => "patroni_version"@,
                Gauge::Running => "patroni_running"@,
                Gauge::Role => "patroni_role"@,
                Gauge::PendingRestart => "patroni_pending_restart"@,
                Gauge::Timeline => "patroni_timeline_number"@,
                Gauge::ReplicationSlots => "patroni_replication_slots"@,
            },
    {
        match self {
            Gauge::PostgresVersion => "patroni_postgres_version",
            Gauge::PatroniVersion => "patroni_version",
            Gauge::Running => "patroni_running",
            Gauge::Role => "patroni_role",
            Gauge::PendingRestart => "patroni_pending_restart",
            Gauge::Timeline => "patroni_timeline_number",
            Gauge::ReplicationSlots => "patroni_replication_slots",
        }
    }

    /// What the gauge measures, in words.
    pub fn help(&self) -> (r: &'static str)
        ensures
            r@ == match *self {
                Gauge::PostgresVersion => "PostgreSQL version"@,
                Gauge::PatroniVersion => "Patroni version"@,
                Gauge::Running => "Is PostgreSQL running"@,
                Gauge::Role => "Patroni role"@,
                Gauge::PendingRestart => "Node is pending a restart"@,
                Gauge::Timeline => "Patroni timeline number"@,
                Gauge::ReplicationSlots => "Postgres replication slots connected"@,
            },
    {
        match self {
            Gauge::PostgresVersion => "PostgreSQL version",
            Gauge::PatroniVersion => "Patroni version",
            Gauge::Running => "Is PostgreSQL running",
            Gauge::Role => "Patroni role",
            Gauge::PendingRestart => "Node is pending a restart",
            Gauge::Timeline => "Patroni timeline number",
            Gauge::ReplicationSlots => "Postgres replication slots connected",
        }
    }

    /// The name of the gauge's second label, beside `server`.
    pub fn second_label(&self) -> (r: Option<&'static str>)
        ensures
            r is Some == self.is_dynamic(),
            *self == Gauge::Role ==> r.unwrap()@ == "role"@,
            *self == Gauge::PatroniVersion ==> r.unwrap()@ == "version"@,
    {
        match self {
            Gauge::Role => Some("role"),
            Gauge::PatroniVersion => Some("version"),
            _ => None,
        }
    }
}

impl Sample {
    /// The series that the sample belongs to.
    pub open spec fn series(self) -> Series {
        Series { gauge: self.gauge, server: self.server@, label: text_of(self.label) }
    }

    /// Whether the sample belongs to the series of these labels.
    fn is_of(&self, gauge: Gauge, server: &str, label: &Option<String>) -> (r: bool)
        ensures
            r == (self.series() == Series { gauge, server: server@, label: text_of(*label) }),
    {
        if self.gauge != gauge || !str_eq(self.server.as_str(), server) {
            return false;
        }
        match (&self.label, label) {
            (Some(mine), Some(other)) => str_eq(mine.as_str(), other.as_str()),
            (None, None) => true,
            _ => false,
        }
    }

    /// A sample of the same series and value.
    fn copy(&self) -> (r: Sample)
        ensures
            r == *self,
    {
        Sample {
            gauge: self.gauge,
            server: self.server.clone(),
            label: match &self.label {
                Some(text) => Some(text.clone()),
                None => None,
            },
            value: self.value,
        }
    }
}

impl View for Update {
    type V = UpdateView;

    open spec fn view(&self) -> UpdateView {
        match *self {
            Update::Reset(gauge) => UpdateView::Reset(gauge),
            Update::Put(sample) => UpdateView::Put(sample.series(), sample.value),
        }
    }
}

/// The view of each update.
pub open spec fn update_views(updates: Seq<Update>) -> Seq<UpdateView> {
    Seq::new(updates.len(), |i: int| updates[i]@)
}

/// The series of a gauge.
pub open spec fn series_of(gauge: Gauge) -> Set<Series> {
    Set::new(|series: Series| series.gauge == gauge)
}

/// The gauges after one write.
pub open spec fn apply(gauges: Map<Series, u64>, update: UpdateView) -> Map<Series, u64> {
    match update {
        UpdateView::Reset(gauge) => gauges.remove_keys(series_of(gauge)),
        UpdateView::Put(series, value) => gauges.insert(series, value),
    }
}

/// The gauges after the writes, made in their order.
pub open spec fn apply_all(gauges: Map<Series, u64>, updates: Seq<UpdateView>) -> Map<
    Series,
    u64,
>
    decreases updates.len(),
{
    if updates.len() == 0 {
        gauges
    } else {
        apply(apply_all(gauges, updates.drop_last()), updates.last())
    }
}

/// A flag as a gauge's value.
pub open spec fn flag_value(flag: bool) -> u64 {
    if flag {
        1
    } else {
        0
    }
}

/// The value that a gauge gets from a report: 1 or 0 for whether the database runs
/// and whether a restart is pending, the versions of the database and the number of
/// the timeline as they are, the number of replication connections, and 1 for the
/// gauges whose second label carries the role or the agent's version.
pub open spec fn reading(status: StatusView, gauge: Gauge) -> u64 {
    match gauge {
        Gauge::Running => flag_value(status.state == PatroniState::Running),
        Gauge::Role => 1,
        Gauge::PendingRestart => flag_value(status.pending_restart),
        Gauge::PostgresVersion => status.server_version as u64,
        Gauge::PatroniVersion => 1,
        Gauge::Timeline => status.timeline as u64,
        Gauge::ReplicationSlots => status.replication.len() as u64,
    }
}

/// The series of a gauge that a member's report fills: it bears the member's name,
/// and where the gauge has a second label, the role or the agent's version that the
/// report gives.
pub open spec fn series_for(name: Seq<char>, status: StatusView, gauge: Gauge) -> Series {
    Series {
        gauge,
        server: name,
        label: match gauge {
            Gauge::Role => Some(status.role.text()),
            Gauge::PatroniVersion => Some(status.version),
            _ => None,
        },
    }
}

/// The write that fills a gauge from a member's report.
pub open spec fn filled(name: Seq<char>, status: StatusView, gauge: Gauge) -> UpdateView {
    UpdateView::Put(series_for(name, status, gauge), reading(status, gauge))
}

/// What one member's report sets: every gauge, from whether the database runs to
/// the number of replication connections.
pub open spec fn member_updates(name: Seq<char>, status: StatusView) -> Seq<UpdateView> {
    seq![
        filled(name, status, Gauge::Running),
        filled(name, status, Gauge::Role),
        filled(name, status, Gauge::PendingRestart),
        filled(name, status, Gauge::PostgresVersion),
        filled(name, status, Gauge::PatroniVersion),
        filled(name, status, Gauge::Timeline),
        filled(name, status, Gauge::ReplicationSlots),
    ]
}

/// What the members' reports set, member after member.
pub open spec fn members_updates(members: Seq<(Seq<char>, StatusView)>) -> Seq<UpdateView>
    decreases members.len(),
{
    if members.len() == 0 {
        Seq::empty()
    } else {
        members_updates(members.drop_last()) + member_updates(members.last().0, members.last().1)
    }
}

/// What a round with these members writes: the gauges with a second label are
/// reset, then every member's report is set.
pub open spec fn round_updates(members: Seq<(Seq<char>, StatusView)>) -> Seq<UpdateView> {
    seq![UpdateView::Reset(Gauge::Role), UpdateView::Reset(Gauge::PatroniVersion)]
        + members_updates(members)
}

/// The gauges after a round with these members.
pub open spec fn publish(gauges: Map<Series, u64>, members: Seq<(Seq<char>, StatusView)>) -> Map<
    Series,
    u64,
> {
    apply_all(gauges, round_updates(members))
}

/// The series and values that the samples give, a later sample replacing an
/// earlier one of the same series.
spec fn values_of(samples: Seq<Sample>) -> Map<Series, u64>
    decreases samples.len(),
{
    if samples.len() == 0 {
        Map::empty()
    } else {
        values_of(samples.drop_last()).insert(samples.last().series(), samples.last().value)
    }
}

/// The samples whose series is not among `gone`.
spec fn without(samples: Seq<Sample>, gone: Set<Series>) -> Seq<Sample>
    decreases samples.len(),
{
    if samples.len() == 0 {
        Seq::empty()
    } else if gone.contains(samples.last().series()) {
        without(samples.drop_last(), gone)
    } else {
        without(samples.drop_last(), gone).push(samples.last())
    }
}

/// The series to drop: those of `gauge`, or, with `only`, its series alone.
spec fn dropped(gauge: Gauge, only: Option<&Sample>) -> Set<Series> {
    match only {
        Some(sample) => Set::empty().insert(sample.series()),
        None => series_of(gauge),
    }
}

/// Leaving samples out removes their series.
proof fn lemma_without(samples: Seq<Sample>, gone: Set<Series>)
    ensures
        values_of(without(samples, gone)) == values_of(samples).remove_keys(gone),
    decreases samples.len(),
{
    if samples.len() > 0 {
        lemma_without(samples.drop_last(), gone);
        let rest = without(samples.drop_last(), gone);
        if !gone.contains(samples.last().series()) {
            assert(rest.push(samples.last()).drop_last() =~= rest);
        }
    }
}

/// Whether `series` is one of those that a member's report fills.
pub open spec fn reports(name: Seq<char>, status: StatusView, series: Series) -> bool {
    series == series_for(name, status, series.gauge)
}

/// Writes made one after the other are the writes of the one list, then those of
/// the other.
pub proof fn lemma_apply_all_concat(
    gauges: Map<Series, u64>,
    first: Seq<UpdateView>,
    then: Seq<UpdateView>,
)
    ensures
        apply_all(gauges, first + then) == apply_all(apply_all(gauges, first), then),
    decreases then.len(),
{
    if then.len() > 0 {
        lemma_apply_all_concat(gauges, first, then.drop_last());
        assert((first + then).drop_last() =~= first + then.drop_last());
    }
}

/// Where every write gives a series its value, the series afterwards are those
/// from before and those written.
proof fn lemma_puts_add_series(
    gauges: Map<Series, u64>,
    writes: Seq<UpdateView>,
    series: Series,
)
    requires
        forall|j: int| 0 <= j < writes.len() ==> #[trigger] writes[j] is Put,
    ensures
        apply_all(gauges, writes).contains_key(series) <==> gauges.contains_key(series)
            || exists|j: int| 0 <= j < writes.len() && (#[trigger] writes[j])->Put_0 == series,
    decreases writes.len(),
{
    if writes.len() > 0 {
        let before = writes.drop_last();
        let last = writes.len() - 1;
        lemma_puts_add_series(gauges, before, series);
        if exists|j: int| 0 <= j < writes.len() && (#[trigger] writes[j])->Put_0 == series {
            let j = choose|j: int| 0 <= j < writes.len() && (#[trigger] writes[j])->Put_0 == series;
            if j < last {
                assert(before[j]->Put_0 == series);
            }
        }
    }
}

/// After one member's report is set, the series are those from before and those
/// that the report sets.
proof fn lemma_member_series(
    gauges: Map<Series, u64>,
    name: Seq<char>,
    status: StatusView,
    series: Series,
)
    ensures
        apply_all(gauges, member_updates(name, status)).contains_key(series)
            <==> gauges.contains_key(series) || reports(name, status, series),
{
    lemma_puts_add_series(gauges, member_updates(name, status), series);
}

/// After the members' reports are set, the series are those from before and those
/// that some member's report sets.
proof fn lemma_members_series(
    gauges: Map<Series, u64>,
    members: Seq<(Seq<char>, StatusView)>,
    series: Series,
)
    ensures
        apply_all(gauges, members_updates(members)).contains_key(series) <==> gauges.contains_key(
            series,
        ) || exists|i: int|
            0 <= i < members.len() && reports((#[trigger] members[i]).0, members[i].1, series),
    decreases members.len(),
{
    if members.len() > 0 {
        let before = members.drop_last();
        let last = members.last();
        lemma_members_series(gauges, before, series);
        lemma_apply_all_concat(gauges, members_updates(before), member_updates(last.0, last.1));
        lemma_member_series(apply_all(gauges, members_updates(before)), last.0, last.1, series);
        if exists|i: int|
            0 <= i < members.len() && reports((#[trigger] members[i]).0, members[i].1, series) {
            let i = choose|i: int|
                0 <= i < members.len() && reports((#[trigger] members[i]).0, members[i].1, series);
            if i < before.len() {
                assert(reports(before[i].0, before[i].1, series));
            }
        }
    }
}

/// After a round, a gauge with a second label has the series that the members of
/// this round report, and no other: no combination of labels is left of a member
/// that the round did not yield. A gauge without a second label keeps the series
/// that it had, beside those of this round.
pub proof fn lemma_round_leaves_no_stale_series(
    gauges: Map<Series, u64>,
    members: Seq<(Seq<char>, StatusView)>,
    series: Series,
)
    ensures
        publish(gauges, members).contains_key(series) <==> (!series.gauge.is_dynamic()
            && gauges.contains_key(series)) || exists|i: int|
            0 <= i < members.len() && reports((#[trigger] members[i]).0, members[i].1, series),
{
    let resets = seq![UpdateView::Reset(Gauge::Role), UpdateView::Reset(Gauge::PatroniVersion)];
    let cleared = apply_all(gauges, resets);
    assert(cleared == apply(
        apply(gauges, UpdateView::Reset(Gauge::Role)),
        UpdateView::Reset(Gauge::PatroniVersion),
    )) by {
        reveal_with_fuel(apply_all, 3);
    }
    assert(cleared.contains_key(series) <==> !series.gauge.is_dynamic() && gauges.contains_key(
        series,
    ));
    lemma_apply_all_concat(gauges, resets, members_updates(members));
    lemma_members_series(cleared, members, series);
}

/// Where every write gives a series its value, a series holds the value of the last
/// write to it.
proof fn lemma_last_put_stays(gauges: Map<Series, u64>, writes: Seq<UpdateView>, at: int)
    requires
        forall|k: int| 0 <= k < writes.len() ==> #[trigger] writes[k] is Put,
        0 <= at < writes.len(),
        forall|k: int| at < k < writes.len() ==> (#[trigger] writes[k])->Put_0 != writes[at]->Put_0,
    ensures
        apply_all(gauges, writes).contains_key(writes[at]->Put_0),
        apply_all(gauges, writes)[writes[at]->Put_0] == writes[at]->Put_1,
    decreases writes.len(),
{
    let last = writes.len() - 1;
    if at < last {
        lemma_last_put_stays(gauges, writes.drop_last(), at);
    }
}

/// The place of a gauge among the writes of one member.
spec fn place(gauge: Gauge) -> int {
    match gauge {
        Gauge::Running => 0,
        Gauge::Role => 1,
        Gauge::PendingRestart => 2,
        Gauge::PostgresVersion => 3,
        Gauge::PatroniVersion => 4,
        Gauge::Timeline => 5,
        Gauge::ReplicationSlots => 6,
    }
}

/// The writes of the members are seven for each.
proof fn lemma_members_updates_len(members: Seq<(Seq<char>, StatusView)>)
    ensures
        members_updates(members).len() == 7 * members.len(),
    decreases members.len(),
{
    if members.len() > 0 {
        lemma_members_updates_len(members.drop_last());
    }
}

/// The writes of the members come in the order of the members, and for each
/// member in the order of the gauges.
proof fn lemma_members_updates_by_place(members: Seq<(Seq<char>, StatusView)>, i: int, at: int)
    requires
        0 <= i < members.len(),
        0 <= at < 7,
    ensures
        members_updates(members).len() == 7 * members.len(),
        members_updates(members)[7 * i + at] == member_updates(members[i].0, members[i].1)[at],
    decreases members.len(),
{
    let before = members.drop_last();
    lemma_members_updates_len(members);
    lemma_members_updates_len(before);
    if i < before.len() {
        lemma_members_updates_by_place(before, i, at);
    }
}

/// After a round, every gauge holds for a member what the member's report gives,
/// unless a later member of the round bears the same name, and with it the same
/// labels: then the later report stands.
pub proof fn lemma_round_publishes_the_last_report(
    gauges: Map<Series, u64>,
    members: Seq<(Seq<char>, StatusView)>,
    i: int,
    gauge: Gauge,
)
    requires
        0 <= i < members.len(),
        forall|j: int|
            i < j < members.len() ==> !reports(
                (#[trigger] members[j]).0,
                members[j].1,
                series_for(members[i].0, members[i].1, gauge),
            ),
    ensures
        publish(gauges, members).contains_key(series_for(members[i].0, members[i].1, gauge)),
        publish(gauges, members)[series_for(members[i].0, members[i].1, gauge)] == reading(
            members[i].1,
            gauge,
        ),
{
    let resets = seq![UpdateView::Reset(Gauge::Role), UpdateView::Reset(Gauge::PatroniVersion)];
    let cleared = apply_all(gauges, resets);
    let writes = members_updates(members);
    let series = series_for(members[i].0, members[i].1, gauge);
    let at = 7 * i + place(gauge);
    lemma_apply_all_concat(gauges, resets, writes);
    lemma_members_updates_by_place(members, i, place(gauge));
    assert forall|k: int| 0 <= k < writes.len() implies #[trigger] writes[k] is Put by {
        lemma_members_updates_by_place(members, k / 7, k % 7);
    }
    assert forall|k: int| at < k < writes.len() implies (#[trigger] writes[k])->Put_0 != series by {
        lemma_members_updates_by_place(members, k / 7, k % 7);
    }
    lemma_last_put_stays(cleared, writes, at);
}

fn flag(value: bool) -> (r: u64)
    ensures
        r == flag_value(value),
{
    if value {
        1
    } else {
        0
    }
}

fn plain(gauge: Gauge, server: &str, value: u64) -> (r: Update)
    ensures
        r@ == UpdateView::Put(Series { gauge, server: server@, label: None }, value),
{
    Update::Put(Sample { gauge, server: server.to_owned(), label: None, value })
}

fn labelled(gauge: Gauge, server: &str, label: String) -> (r: Update)
    ensures
        r@ == UpdateView::Put(Series { gauge, server: server@, label: Some(label@) }, 1),
{
    Update::Put(Sample { gauge, server: server.to_owned(), label: Some(label), value: 1 })
}

/// The writes of a round with these members.
pub fn updates(members: &Vec<(String, PatroniStatus)>) -> (r: Vec<Update>)
    ensures
        update_views(r@) == round_updates(member_views(members@)),
{
    let mut r: Vec<Update> = Vec::new();
    r.push(Update::Reset(Gauge::Role));
    r.push(Update::Reset(Gauge::PatroniVersion));
    let ghost views = member_views(members@);
    let mut i: usize = 0;
    while i < members.len()
        invariant
            i <= members.len(),
            views == member_views(members@),
            update_views(r@) == round_updates(views.take(i as int)),
        decreases members.len() - i,
    {
        let ghost before = update_views(r@);
        let server = members[i].0.as_str();
        let status = &members[i].1;
        assert(views.take(i + 1).drop_last() =~= views.take(i as int));
        r.push(plain(Gauge::Running, server, flag(status.is_running())));
        r.push(labelled(Gauge::Role, server, status.role()));
        r.push(plain(Gauge::PendingRestart, server, flag(status.pending_restart())));
        r.push(plain(Gauge::PostgresVersion, server, status.postgres_version() as u64));
        r.push(labelled(Gauge::PatroniVersion, server, status.patroni_version().to_owned()));
        r.push(plain(Gauge::Timeline, server, status.timeline() as u64));
        r.push(plain(Gauge::ReplicationSlots, server, status.repl_slots() as u64));
        assert(before + member_updates(server@, status@) =~= round_updates(views.take(i + 1)));
        i += 1;
    }
    assert(views.take(members.len() as int) =~= views);
    r
}

impl View for GaugeSet {
    type V = Map<Series, u64>;

    closed spec fn view(&self) -> Map<Series, u64> {
        values_of(self.samples@)
    }
}

impl GaugeSet {
    /// Gauges without a series.
    pub fn new() -> (r: GaugeSet)
        ensures
            r@ == Map::<Series, u64>::empty(),
    {
        GaugeSet { samples: Vec::new() }
    }

    /// The value of a series, where the gauge has that series.
    pub fn get(&self, gauge: Gauge, server: &str, label: &Option<String>) -> (r: Option<u64>)
        ensures
            r == (if self@.contains_key(Series { gauge, server: server@, label: text_of(*label) }) {
                Some(self@[Series { gauge, server: server@, label: text_of(*label) }])
            } else {
                None::<u64>
            }),
    {
        let ghost series = Series { gauge, server: server@, label: text_of(*label) };
        let mut found: Option<u64> = None;
        let mut i: usize = 0;
        while i < self.samples.len()
            invariant
                i <= self.samples.len(),
                series == (Series { gauge, server: server@, label: text_of(*label) }),
                found == (if values_of(self.samples@.take(i as int)).contains_key(series) {
                    Some(values_of(self.samples@.take(i as int))[series])
                } else {
                    None::<u64>
                }),
            decreases self.samples.len() - i,
        {
            assert(self.samples@.take(i + 1).drop_last() =~= self.samples@.take(i as int));
            if self.samples[i].is_of(gauge, server, label) {
                found = Some(self.samples[i].value);
            }
            i += 1;
        }
        assert(self.samples@.take(self.samples.len() as int) =~= self.samples@);
        found
    }

    /// Drops the samples of `gauge`, or, with `only`, those of its series alone.
    fn drop_series(&mut self, gauge: Gauge, only: Option<&Sample>)
        ensures
            final(self)@ == old(self)@.remove_keys(dropped(gauge, only)),
    {
        let ghost gone = dropped(gauge, only);
        let mut kept: Vec<Sample> = Vec::new();
        let mut i: usize = 0;
        while i < self.samples.len()
            invariant
                i <= self.samples.len(),
                gone == dropped(gauge, only),
                kept@ == without(self.samples@.take(i as int), gone),
            decreases self.samples.len() - i,
        {
            assert(self.samples@.take(i + 1).drop_last() =~= self.samples@.take(i as int));
            let sample = &self.samples[i];
            let drop = match only {
                Some(other) => sample.is_of(other.gauge, other.server.as_str(), &other.label),
                None => sample.gauge == gauge,
            };
            if !drop {
                kept.push(sample.copy());
            }
            i += 1;
        }
        assert(self.samples@.take(self.samples.len() as int) =~= self.samples@);
        proof {
            lemma_without(self.samples@, gone);
        }
        self.samples = kept;
    }

    /// Gives one series its value.
    pub fn put(&mut self, sample: Sample)
        ensures
            final(self)@ == old(self)@.insert(sample.series(), sample.value),
    {
        self.drop_series(sample.gauge, Some(&sample));
        let ghost kept = self.samples@;
        self.samples.push(sample);
        assert(self.samples@.drop_last() =~= kept);
    }

    /// Drops every series of a gauge.
    pub fn reset(&mut self, gauge: Gauge)
        ensures
            final(self)@ == old(self)@.remove_keys(series_of(gauge)),
    {
        self.drop_series(gauge, None);
    }

    /// Makes one write.
    pub fn apply(&mut self, update: &Update)
        ensures
            final(self)@ == apply(old(self)@, update@),
    {
        match update {
            Update::Reset(gauge) => self.reset(*gauge),
            Update::Put(sample) => self.put(sample.copy()),
        }
    }

    /// Makes the writes in their order.
    pub fn apply_all(&mut self, updates: &Vec<Update>)
        ensures
            final(self)@ == apply_all(old(self)@, update_views(updates@)),
    {
        let ghost views = update_views(updates@);
        let mut i: usize = 0;
        while i < updates.len()
            invariant
                i <= updates.len(),
                views == update_views(updates@),
                self@ == apply_all(old(self)@, views.take(i as int)),
            decreases updates.len() - i,
        {
            assert(views.take(i + 1).drop_last() =~= views.take(i as int));
            self.apply(&updates[i]);
            i += 1;
        }
        assert(views.take(updates.len() as int) =~= views);
    }
}

} // verus!
