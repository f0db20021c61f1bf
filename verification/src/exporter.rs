//! What the ways of finding a cluster's members have in common: the request that
//! looks the members up, the members to ask, and what their answers amount to.

use vstd::prelude::*;
use crate::patroni::{
    member_views,
    status_in,
    DiscoveryError,
    ExporterResult,
    PatroniStatus,
    StatusView,
};

verus! {

/// An HTTP request for the caller to make.
#[derive(Debug)]
pub enum Request {
    /// A GET of a URL.
    Get(String),
    /// A POST of a body to a URL.
    Post(String, String),
}

/// A request, as mathematics.
pub enum RequestView {
    Get(Seq<char>),
    Post(Seq<char>, Seq<char>),
}

/// What became of a request.
#[derive(Debug)]
pub enum Fetched {
    /// The body of the response.
    Body(Vec<u8>),
    /// No response came, or its body could not be read in time.
    Failed,
}

/// A member to ask for its status.
#[derive(Debug)]
pub struct Target {
    /// The name under which the member is reported.
    pub name: String,
    /// Where the member serves its status.
    pub url: String,
}

/// A member to ask, as mathematics.
pub struct TargetView {
    pub name: Seq<char>,
    pub url: Seq<char>,
}

impl View for Request {
    type V = RequestView;

    open spec fn view(&self) -> RequestView {
        match *self {
            Request::Get(url) => RequestView::Get(url@),
            Request::Post(url, body) => RequestView::Post(url@, body@),
        }
    }
}

impl View for Target {
    type V = TargetView;

    open spec fn view(&self) -> TargetView {
        TargetView { name: self.name@, url: self.url@ }
    }
}

/// The view of each target.
pub open spec fn target_views(targets: Seq<Target>) -> Seq<TargetView> {
    Seq::new(targets.len(), |i: int| targets[i]@)
}

/// The status that the `i`-th answer holds: none where there are fewer answers,
/// where the request failed or where the body describes no status.
pub open spec fn answer(statuses: Seq<Fetched>, i: int) -> Option<StatusView> {
    if 0 <= i < statuses.len() {
        match statuses[i] {
            Fetched::Body(body) => status_in(body@),
            Fetched::Failed => None,
        }
    } else {
        None
    }
}

/// The members that answered with a status, in the order of the targets, each
/// under its target's name. A target whose answer holds no status is left out, and
/// the others stay.
pub open spec fn collected(targets: Seq<TargetView>, statuses: Seq<Fetched>) -> Seq<
    (Seq<char>, StatusView),
>
    decreases targets.len(),
{
    if targets.len() == 0 {
        Seq::empty()
    } else {
        let before = collected(targets.drop_last(), statuses);
        match answer(statuses, targets.len() - 1) {
            Some(status) => before.push((targets.last().name, status)),
            None => before,
        }
    }
}

/// What a round amounts to: the failure of the lookup, or the members that
/// answered.
pub open spec fn outcome(
    found: Result<Seq<TargetView>, DiscoveryError>,
    statuses: Seq<Fetched>,
) -> Result<Seq<(Seq<char>, StatusView)>, DiscoveryError> {
    match found {
        Ok(targets) => Ok(collected(targets, statuses)),
        Err(error) => Err(error),
    }
}

/// A way of finding the members of a cluster. A round has three steps: the caller
/// makes the request of `request`, if there is one; it asks each of the `targets`
/// for its status; and `service` turns the answers into the round's outcome.
pub trait Exporter {
    /// The request that looks the members of `service` up; none where the members
    /// are known without one.
    spec fn lookup(&self, service: Seq<char>) -> Option<RequestView>;

    /// The members that the answer to the lookup names, or why it names none.
    spec fn found(&self, answer: Option<Fetched>) -> Result<Seq<TargetView>, DiscoveryError>;

    fn name(&self) -> &'static str;

    /// The request that looks the members of `service` up.
    fn request(&self, service: &str) -> (r: Option<Request>)
        ensures
            match r {
                Some(request) => self.lookup(service@) == Some(request@),
                None => self.lookup(service@) is None,
            },
    ;

    /// The members to ask for their status, given the answer to the lookup.
    fn targets(&self, answer: &Option<Fetched>) -> (r: Result<Vec<Target>, DiscoveryError>)
        ensures
            match r {
                Ok(targets) => self.found(*answer) == Ok::<_, DiscoveryError>(
                    target_views(targets@),
                ),
                Err(error) => self.found(*answer) == Err::<Seq<TargetView>, _>(error),
            },
    ;

    /// The outcome of a round, given the answer to the lookup and the answers of
    /// the members, in the order of `targets`.
    fn service(&self, answer: &Option<Fetched>, statuses: &Vec<Fetched>) -> (r: ExporterResult)
        ensures
            match r {
                Ok(members) => outcome(self.found(*answer), statuses@) == Ok::<_, DiscoveryError>(
                    member_views(members@),
                ),
                Err(error) => outcome(self.found(*answer), statuses@) == Err::<
                    Seq<(Seq<char>, StatusView)>,
                    _,
                >(error),
            },
    ;
}

/// The members among `targets` that answered with a status.
pub fn collect(targets: &Vec<Target>, statuses: &Vec<Fetched>) -> (members: Vec<
    (String, PatroniStatus),
>)
    ensures
        member_views(members@) == collected(target_views(targets@), statuses@),
{
    let ghost views = target_views(targets@);
    let mut members: Vec<(String, PatroniStatus)> = Vec::new();
    let mut i: usize = 0;
    while i < targets.len()
        invariant
            i <= targets.len(),
            views == target_views(targets@),
            member_views(members@) == collected(views.take(i as int), statuses@),
        decreases targets.len() - i,
    {
        let ghost before = member_views(members@);
        assert(views.take(i + 1).drop_last() =~= views.take(i as int));
        if i < statuses.len() {
            match &statuses[i] {
                Fetched::Body(body) => {
                    match PatroniStatus::from_slice(body.as_slice()) {
                        Some(status) => {
                            members.push((targets[i].name.clone(), status));
                            assert(member_views(members@) =~= before.push(
                                (targets@[i as int].name@, status@),
                            ));
                        },
                        None => {},
                    }
                },
                Fetched::Failed => {},
            }
        }
        i += 1;
    }
    assert(views.take(targets.len() as int) =~= views);
    members
}

/// The outcome of a round for the members that a lookup named.
pub fn round(found: Result<Vec<Target>, DiscoveryError>, statuses: &Vec<Fetched>) -> (r:
    ExporterResult)
    ensures
        match (found, r) {
            (Ok(targets), Ok(members)) => member_views(members@) == collected(
                target_views(targets@),
                statuses@,
            ),
            (Err(cause), Err(error)) => cause == error,
            _ => false,
        },
{
    match found {
        Ok(targets) => Ok(collect(&targets, statuses)),
        Err(error) => Err(error),
    }
}

/// One cycle of polling under way: what has been asked and answered so far. The
/// cycle asks for one request at a time, the lookup first and then the members in
/// their order, and takes each answer before it asks for the next.
pub struct PollCycle {
    lookup: bool,
    targets: Vec<Target>,
    statuses: Vec<Fetched>,
}

/// What a cycle of polling needs next.
pub enum Poll {
    /// The answer to a request, to be handed to `PollCycle::next`.
    Ask(Request, PollCycle),
    /// Nothing: the cycle is over, with this outcome.
    Done(ExporterResult),
}

/// A cycle under way, as mathematics: whether the lookup's answer is awaited, the
/// members to ask, and the answers that the members gave so far.
pub struct CycleView {
    pub lookup: bool,
    pub targets: Seq<TargetView>,
    pub statuses: Seq<Fetched>,
}

/// What a cycle needs next, as mathematics.
pub enum PollView {
    Ask(RequestView, CycleView),
    Done(Result<Seq<(Seq<char>, StatusView)>, DiscoveryError>),
}

impl View for PollCycle {
    type V = CycleView;

    closed spec fn view(&self) -> CycleView {
        CycleView {
            lookup: self.lookup,
            targets: target_views(self.targets@),
            statuses: self.statuses@,
        }
    }
}

impl View for Poll {
    type V = PollView;

    open spec fn view(&self) -> PollView {
        match *self {
            Poll::Ask(request, cycle) => PollView::Ask(request@, cycle@),
            Poll::Done(Ok(members)) => PollView::Done(Ok(member_views(members@))),
            Poll::Done(Err(error)) => PollView::Done(Err(error)),
        }
    }
}

/// What a cycle needs when some members have answered: the status of the next
/// member, or, when every member has been asked, nothing more.
pub open spec fn proceed(targets: Seq<TargetView>, statuses: Seq<Fetched>) -> PollView {
    if statuses.len() < targets.len() {
        PollView::Ask(
            RequestView::Get(targets[statuses.len() as int].url),
            CycleView { lookup: false, targets, statuses },
        )
    } else {
        PollView::Done(Ok(collected(targets, statuses)))
    }
}

/// What a cycle needs when the members are found, or not.
pub open spec fn begin(found: Result<Seq<TargetView>, DiscoveryError>) -> PollView {
    match found {
        Ok(targets) => proceed(targets, Seq::empty()),
        Err(error) => PollView::Done(Err(error)),
    }
}

/// What a cycle needs at its start: the answer to the lookup, where the exporter
/// has one to make.
pub open spec fn started<E: Exporter>(exporter: E, service: Seq<char>) -> PollView {
    match exporter.lookup(service) {
        Some(request) => PollView::Ask(
            request,
            CycleView { lookup: true, targets: Seq::empty(), statuses: Seq::empty() },
        ),
        None => begin(exporter.found(None)),
    }
}

/// What a cycle needs after one more answer.
pub open spec fn advanced<E: Exporter>(cycle: CycleView, exporter: E, fetched: Fetched) -> PollView {
    if cycle.lookup {
        begin(exporter.found(Some(fetched)))
    } else {
        proceed(cycle.targets, cycle.statuses.push(fetched))
    }
}

/// What a cycle comes to when the members answer with `rest`, one after the other.
pub open spec fn answered(targets: Seq<TargetView>, done: Seq<Fetched>, rest: Seq<Fetched>) -> PollView
    decreases rest.len(),
{
    if rest.len() == 0 || proceed(targets, done) is Done {
        proceed(targets, done)
    } else {
        answered(targets, done.push(rest[0]), rest.drop_first())
    }
}

/// What a cycle needs, given the members and the answers so far.
fn go_on(targets: Vec<Target>, statuses: Vec<Fetched>) -> (r: Poll)
    ensures
        r@ == proceed(target_views(targets@), statuses@),
{
    if statuses.len() < targets.len() {
        let url = targets[statuses.len()].url.clone();
        Poll::Ask(Request::Get(url), PollCycle { lookup: false, targets, statuses })
    } else {
        Poll::Done(Ok(collect(&targets, &statuses)))
    }
}

/// What a cycle needs when the members are found, or not.
fn set_out(found: Result<Vec<Target>, DiscoveryError>) -> (r: Poll)
    ensures
        match found {
            Ok(targets) => r@ == begin(Ok(target_views(targets@))),
            Err(error) => r@ == begin(Err(error)),
        },
{
    match found {
        Ok(targets) => go_on(targets, Vec::new()),
        Err(error) => Poll::Done(Err(error)),
    }
}

impl PollCycle {
    /// Starts a cycle for the members of `service`.
    pub fn start<E: Exporter>(exporter: &E, service: &str) -> (r: Poll)
        ensures
            r@ == started(*exporter, service@),
    {
        match exporter.request(service) {
            Some(request) => {
                let cycle = PollCycle { lookup: true, targets: Vec::new(), statuses: Vec::new() };
                assert(cycle@.targets =~= Seq::empty() && cycle@.statuses =~= Seq::empty());
                Poll::Ask(request, cycle)
            },
            None => set_out(exporter.targets(&None)),
        }
    }

    /// Takes the answer to the request that the cycle asked for.
    pub fn next<E: Exporter>(self, exporter: &E, fetched: Fetched) -> (r: Poll)
        ensures
            r@ == advanced(self@, *exporter, fetched),
    {
        if self.lookup {
            set_out(exporter.targets(&Some(fetched)))
        } else {
            let PollCycle { lookup: _, targets, statuses } = self;
            let mut statuses = statuses;
            statuses.push(fetched);
            go_on(targets, statuses)
        }
    }

    /// The member whose status the cycle has asked for; none while it waits for
    /// the answer to the lookup.
    pub fn member(&self) -> (r: Option<&Target>)
        ensures
            match r {
                Some(target) => !self@.lookup && self@.statuses.len() < self@.targets.len()
                    && target@ == self@.targets[self@.statuses.len() as int],
                None => self@.lookup || self@.statuses.len() >= self@.targets.len(),
            },
    {
        if !self.lookup && self.statuses.len() < self.targets.len() {
            Some(&self.targets[self.statuses.len()])
        } else {
            None
        }
    }
}

/// A cycle whose members all answer, one after the other, ends with the members
/// that answered with a status: with what `Exporter::service` makes of the same
/// answers.
pub proof fn lemma_cycle_ends_with_the_outcome(
    targets: Seq<TargetView>,
    done: Seq<Fetched>,
    rest: Seq<Fetched>,
)
    requires
        done.len() + rest.len() == targets.len(),
    ensures
        answered(targets, done, rest) == PollView::Done(Ok(collected(targets, done + rest))),
    decreases rest.len(),
{
    if rest.len() > 0 {
        lemma_cycle_ends_with_the_outcome(targets, done.push(rest[0]), rest.drop_first());
        assert(done.push(rest[0]) + rest.drop_first() =~= done + rest);
    }
}

/// The targets without the `i`-th and the answers without the `i`-th yield what
/// all of them yield, where the `i`-th answer holds no status.
pub proof fn lemma_failed_member_is_left_out(
    targets: Seq<TargetView>,
    statuses: Seq<Fetched>,
    i: int,
)
    requires
        targets.len() == statuses.len(),
        0 <= i < targets.len(),
        answer(statuses, i) is None,
    ensures
        collected(targets, statuses) == collected(targets.remove(i), statuses.remove(i)),
    decreases targets.len(),
{
    let last = targets.len() - 1;
    if i == last {
        lemma_answers_beyond_the_targets(targets.drop_last(), statuses, statuses.remove(i));
    } else {
        lemma_failed_member_is_left_out(targets.drop_last(), statuses.drop_last(), i);
        lemma_answers_beyond_the_targets(targets.drop_last(), statuses, statuses.drop_last());
        assert(targets.remove(i).drop_last() =~= targets.drop_last().remove(i));
        lemma_answers_beyond_the_targets(
            targets.remove(i).drop_last(),
            statuses.remove(i),
            statuses.drop_last().remove(i),
        );
    }
}

/// Only the answers that have a target count.
proof fn lemma_answers_beyond_the_targets(
    targets: Seq<TargetView>,
    statuses: Seq<Fetched>,
    others: Seq<Fetched>,
)
    requires
        forall|k: int| 0 <= k < targets.len() ==> answer(statuses, k) == answer(others, k),
    ensures
        collected(targets, statuses) == collected(targets, others),
    decreases targets.len(),
{
    if targets.len() > 0 {
        lemma_answers_beyond_the_targets(targets.drop_last(), statuses, others);
    }
}

/// A member that answers with a status is among the round's members, under its
/// target's name and with that status, whatever the other members answer.
pub proof fn lemma_member_with_a_status_is_kept(
    targets: Seq<TargetView>,
    statuses: Seq<Fetched>,
    i: int,
)
    requires
        0 <= i < targets.len(),
        answer(statuses, i) is Some,
    ensures
        collected(targets, statuses).contains((targets[i].name, answer(statuses, i).unwrap())),
    decreases targets.len(),
{
    let last = targets.len() - 1;
    let all = collected(targets, statuses);
    if i == last {
        assert(all[all.len() - 1] == (targets[i].name, answer(statuses, i).unwrap()));
    } else {
        lemma_member_with_a_status_is_kept(targets.drop_last(), statuses, i);
        let before = collected(targets.drop_last(), statuses);
        let member = (targets[i].name, answer(statuses, i).unwrap());
        let at = choose|at: int| 0 <= at < before.len() && before[at] == member;
        assert(all[at] == member);
    }
}

} // verus!
