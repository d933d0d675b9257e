//! Appointments of a schedule and their order.

use crate::text::views;
use vstd::prelude::*;

verus! {

/// What an appointment stands for: the seconds after the Unix epoch at which
/// it starts and ends, the names that describe it, and whether it was
/// called off.
pub struct AppointmentView {
    pub start: int,
    pub end: int,
    pub subjects: Seq<Seq<char>>,
    pub teachers: Seq<Seq<char>>,
    pub groups: Seq<Seq<char>>,
    pub locations: Seq<Seq<char>>,
    pub cancelled: bool,
}

impl AppointmentView {
    /// An appointment ends after it starts.
    pub open spec fn wf(self) -> bool {
        self.start < self.end
    }
}

/// One entry of a schedule as the service sends it, not yet held to any
/// rule.
#[derive(Debug, PartialEq, Eq)]
pub struct Record {
    pub start: i64,
    pub end: i64,
    pub subjects: Vec<String>,
    pub teachers: Vec<String>,
    pub groups: Vec<String>,
    pub locations: Vec<String>,
    pub cancelled: bool,
}

impl View for Record {
    type V = AppointmentView;

    open spec fn view(&self) -> AppointmentView {
        AppointmentView {
            start: self.start as int,
            end: self.end as int,
            subjects: views(self.subjects@),
            teachers: views(self.teachers@),
            groups: views(self.groups@),
            locations: views(self.locations@),
            cancelled: self.cancelled,
        }
    }
}

/// One scheduled class or event. It ends after it starts, and nothing
/// changes it once it is made.
#[derive(Debug, PartialEq, Eq)]
pub struct Appointment {
    record: Record,
}

impl View for Appointment {
    type V = AppointmentView;

    closed spec fn view(&self) -> AppointmentView {
        self.record@
    }
}

impl Appointment {
    #[verifier::type_invariant]
    spec fn inv(self) -> bool {
        self@.wf()
    }

    /// The appointment that a record describes, if the record ends after it
    /// starts.
    pub fn new(record: Record) -> (r: Option<Appointment>)
        ensures
            r is Some <==> record@.wf(),
            r matches Some(a) ==> a@ == record@,
    {
        if record.start < record.end {
            Some(Appointment { record })
        } else {
            None
        }
    }

    /// Seconds after the Unix epoch at which the appointment starts.
    pub fn start(&self) -> (r: i64)
        ensures
            r == self@.start,
            self@.wf(),
    {
        proof {
            use_type_invariant(self);
        }
        self.record.start
    }

    /// Seconds after the Unix epoch at which the appointment ends.
    pub fn end(&self) -> (r: i64)
        ensures
            r == self@.end,
            self@.wf(),
    {
        proof {
            use_type_invariant(self);
        }
        self.record.end
    }

    /// The subjects taught, in the order given.
    pub fn subjects(&self) -> (r: &Vec<String>)
        ensures
            views(r@) == self@.subjects,
    {
        &self.record.subjects
    }

    /// The teachers, in the order given.
    pub fn teachers(&self) -> (r: &Vec<String>)
        ensures
            views(r@) == self@.teachers,
    {
        &self.record.teachers
    }

    /// The groups taught, in the order given.
    pub fn groups(&self) -> (r: &Vec<String>)
        ensures
            views(r@) == self@.groups,
    {
        &self.record.groups
    }

    /// The rooms, in the order given.
    pub fn locations(&self) -> (r: &Vec<String>)
        ensures
            views(r@) == self@.locations,
    {
        &self.record.locations
    }

    /// Whether the appointment was called off.
    pub fn cancelled(&self) -> (r: bool)
        ensures
            r == self@.cancelled,
    {
        self.record.cancelled
    }
}

/// What each appointment of a list stands for.
pub open spec fn appointment_views(list: Seq<Appointment>) -> Seq<AppointmentView> {
    list.map_values(|a: Appointment| a@)
}

/// What each record of a list describes.
pub open spec fn record_views(list: Seq<Record>) -> Seq<AppointmentView> {
    list.map_values(|r: Record| r@)
}

/// Whether every record of a list ends after it starts.
pub open spec fn all_valid(list: Seq<AppointmentView>) -> bool {
    forall|i: int| 0 <= i < list.len() ==> (#[trigger] list[i]).wf()
}

/// Appointments in order of their start, earliest first.
pub open spec fn ordered(list: Seq<AppointmentView>) -> bool {
    forall|i: int, j: int| 0 <= i < j < list.len() ==> list[i].start <= list[j].start
}

/// The appointments that start at `t`.
pub open spec fn starting_at(t: int) -> spec_fn(AppointmentView) -> bool {
    |a: AppointmentView| a.start == t
}

/// `output` holds the appointments of `input` in order of their start, and
/// those that start at the same time in the order in which `input` has them.
pub open spec fn stable_sort_of(input: Seq<AppointmentView>, output: Seq<AppointmentView>) -> bool {
    &&& ordered(output)
    &&& forall|t: int| #[trigger]
        output.filter(starting_at(t)) == input.filter(starting_at(t))
}

/// The appointments that a list of records describes, in the order of the
/// records, if every record ends after it starts.
pub fn validate(records: Vec<Record>) -> (r: Option<Vec<Appointment>>)
    ensures
        r is Some <==> all_valid(record_views(records@)),
        r matches Some(list) ==> appointment_views(list@) == record_views(records@),
{
    let ghost input = record_views(records@);
    let mut list: Vec<Appointment> = Vec::new();
    for record in it: records.into_iter()
        invariant
            it.seq() == records@,
            input == record_views(records@),
            appointment_views(list@) =~= input.take(it.index() as int),
            all_valid(input.take(it.index() as int)),
    {
        let ghost done = it.index() as int;
        assert(input[done] == record@);
        match Appointment::new(record) {
            Some(a) => {
                list.push(a);
                assert(input.take(done + 1) =~= input.take(done).push(record@));
            },
            None => {
                assert(!input[done].wf());
                return None;
            },
        }
    }
    assert(input.take(input.len() as int) =~= input);
    Some(list)
}

/// Putting `x` into an ordered list, before the first appointment that does
/// not start earlier, adds `x` in front of those that start when it does and
/// leaves the others as they were.
proof fn lemma_insert_first(list: Seq<AppointmentView>, at: int, x: AppointmentView, t: int)
    requires
        0 <= at <= list.len(),
        forall|i: int| 0 <= i < at ==> list[i].start < x.start,
    ensures
        list.insert(at, x).filter(starting_at(t)) == (if x.start == t {
            seq![x]
        } else {
            Seq::empty()
        }) + list.filter(starting_at(t)),
{
    let p = starting_at(t);
    let head = list.take(at);
    let tail = list.skip(at);
    assert(list.insert(at, x) =~= head + (seq![x] + tail));
    assert(list =~= head + tail);
    Seq::filter_distributes_over_add(head, seq![x] + tail, p);
    Seq::filter_distributes_over_add(head, tail, p);
    tail.lemma_filter_prepend(x, p);
    if x.start == t {
        assert(head.all(|a: AppointmentView| !p(a)));
        head.lemma_all_neg_filter_empty(p);
        assert(head.filter(p) =~= Seq::empty());
        assert(list.insert(at, x).filter(p) =~= seq![x] + list.filter(p));
    } else {
        assert(list.insert(at, x).filter(p) =~= Seq::<AppointmentView>::empty() + list.filter(p));
    }
}

/// Putting `x` into an ordered list, between those that start earlier and
/// those that do not, leaves the list ordered.
proof fn lemma_insert_ordered(list: Seq<AppointmentView>, at: int, x: AppointmentView)
    requires
        ordered(list),
        0 <= at <= list.len(),
        forall|i: int| 0 <= i < at ==> list[i].start < x.start,
        at < list.len() ==> x.start <= list[at].start,
    ensures
        ordered(list.insert(at, x)),
{
    let after = list.insert(at, x);
    assert forall|i: int, j: int| 0 <= i < j < after.len() implies after[i].start
        <= after[j].start by {
        if j > at {
            assert(after[j] == list[j - 1]);
            assert(list[at].start <= list[j - 1].start);
        }
        if i > at {
            assert(after[i] == list[i - 1]);
        }
    }
}

/// Sorts appointments by their start, earliest first. Appointments that
/// start at the same time stay in the order in which they came.
pub fn sort(appointments: Vec<Appointment>) -> (sorted: Vec<Appointment>)
    ensures
        stable_sort_of(appointment_views(appointments@), appointment_views(sorted@)),
        sorted@.len() == appointments@.len(),
{
    let ghost input = appointment_views(appointments@);
    let mut rest = appointments;
    let mut sorted: Vec<Appointment> = Vec::new();
    proof {
        assert(input.skip(rest@.len() as int) =~= Seq::empty());
        assert(appointment_views(sorted@) =~= Seq::empty());
    }
    while rest.len() > 0
        invariant
            appointment_views(rest@) == input.take(rest@.len() as int),
            rest@.len() <= input.len(),
            sorted@.len() + rest@.len() == input.len(),
            stable_sort_of(input.skip(rest@.len() as int), appointment_views(sorted@)),
        decreases rest@.len(),
    {
        let ghost before = appointment_views(sorted@);
        let ghost k = rest@.len() - 1;
        assert(appointment_views(rest@)[k] == input[k]);
        let a = rest.pop().unwrap();
        let key = a.start();
        let mut at: usize = 0;
        while at < sorted.len() && sorted[at].start() < key
            invariant
                at <= sorted@.len(),
                key == a@.start,
                before == appointment_views(sorted@),
                forall|i: int| 0 <= i < at ==> before[i].start < key,
            decreases sorted@.len() - at,
        {
            at += 1;
        }
        sorted.insert(at, a);
        proof {
            let after = appointment_views(sorted@);
            assert(after =~= before.insert(at as int, a@));
            assert(a@ == input[k]);
            assert(input.skip(k) =~= seq![a@] + input.skip(k + 1));
            assert(appointment_views(rest@) =~= input.take(k));
            lemma_insert_ordered(before, at as int, a@);
            assert forall|t: int| #[trigger]
                after.filter(starting_at(t)) == input.skip(k).filter(starting_at(t)) by {
                lemma_insert_first(before, at as int, a@, t);
                input.skip(k + 1).lemma_filter_prepend(a@, starting_at(t));
                assert(before.filter(starting_at(t)) == input.skip(k + 1).filter(starting_at(t)));
            }
        }
    }
    proof {
        assert(input.skip(0) =~= input);
    }
    sorted
}

/// An appointment of an ordered list starts no later than the list's last.
proof fn lemma_last_is_latest(list: Seq<AppointmentView>, x: AppointmentView)
    requires
        ordered(list),
        list.contains(x),
    ensures
        x.start <= list.last().start,
{
    let i = choose|i: int| 0 <= i < list.len() && list[i] == x;
    if i < list.len() - 1 {
        assert(list[i].start <= list[list.len() - 1].start);
    }
}

/// Two ordered lists that agree, for every time, on the appointments that
/// start then and on their order, are one list.
proof fn lemma_ordered_lists_equal(a: Seq<AppointmentView>, b: Seq<AppointmentView>)
    requires
        ordered(a),
        ordered(b),
        forall|t: int| #[trigger] a.filter(starting_at(t)) == b.filter(starting_at(t)),
    ensures
        a == b,
    decreases a.len() + b.len(),
{
    if a.len() == 0 && b.len() == 0 {
        assert(a =~= b);
    } else {
        // The shorter-looking side cannot be empty: its last appointment
        // shows among those of the other that start when it does.
        let seed = if a.len() > 0 {
            a.last()
        } else {
            b.last()
        };
        let p0 = starting_at(seed.start);
        assert(a.filter(p0) == b.filter(p0));
        if a.len() > 0 {
            a.lemma_filter_contains(p0, a.len() - 1);
        } else {
            b.lemma_filter_contains(p0, b.len() - 1);
        }
        assert(a.filter(p0).len() > 0);
        a.lemma_filter_len(p0);
        b.lemma_filter_len(p0);
        assert(a.len() > 0 && b.len() > 0);

        let la = a.last();
        let lb = b.last();
        let pa = starting_at(la.start);
        let pb = starting_at(lb.start);
        assert(a.filter(pa) == b.filter(pa));
        assert(a.filter(pb) == b.filter(pb));
        a.lemma_filter_contains(pa, a.len() - 1);
        b.lemma_filter_contains(pb, b.len() - 1);
        // `la` shows in `b`, and `lb` in `a`.
        b.lemma_filter_contains_rev(pa, la);
        a.lemma_filter_contains_rev(pb, lb);
        lemma_last_is_latest(b, la);
        lemma_last_is_latest(a, lb);
        assert(la.start == lb.start);

        let ra = a.drop_last();
        let rb = b.drop_last();
        assert(a =~= ra.push(la));
        assert(b =~= rb.push(lb));
        ra.lemma_filter_push(la, pa);
        rb.lemma_filter_push(lb, pa);
        assert(a.filter(pa).last() == la);
        assert(b.filter(pa).last() == lb);
        assert(la == lb);
        assert(ra.filter(pa) =~= a.filter(pa).drop_last());
        assert(rb.filter(pa) =~= b.filter(pa).drop_last());

        assert forall|t: int| #[trigger] ra.filter(starting_at(t)) == rb.filter(
            starting_at(t),
        ) by {
            ra.lemma_filter_push(la, starting_at(t));
            rb.lemma_filter_push(lb, starting_at(t));
            assert(a.filter(starting_at(t)) == b.filter(starting_at(t)));
            if t == la.start {
                assert(starting_at(t) == pa);
            }
        }
        assert(ordered(ra)) by {
            assert forall|i: int, j: int| 0 <= i < j < ra.len() implies ra[i].start
                <= ra[j].start by {
                assert(ra[i] == a[i] && ra[j] == a[j]);
            }
        }
        assert(ordered(rb)) by {
            assert forall|i: int, j: int| 0 <= i < j < rb.len() implies rb[i].start
                <= rb[j].start by {
                assert(rb[i] == b[i] && rb[j] == b[j]);
            }
        }
        lemma_ordered_lists_equal(ra, rb);
    }
}

/// Keeping the appointments that start at `x`'s start keeps every copy of
/// `x`.
proof fn lemma_filter_keeps_count(list: Seq<AppointmentView>, x: AppointmentView)
    ensures
        list.filter(starting_at(x.start)).to_multiset().count(x) == list.to_multiset().count(x),
    decreases list.len(),
{
    let p = starting_at(x.start);
    if list.len() == 0 {
        list.lemma_filter_len(p);
        assert(list.filter(p) =~= list);
    } else {
        let rest = list.drop_last();
        let last = list.last();
        assert(list =~= rest.push(last));
        lemma_filter_keeps_count(rest, x);
        rest.lemma_filter_push(last, p);
        vstd::seq_lib::to_multiset_build(rest, last);
        vstd::seq_lib::to_multiset_build(rest.filter(p), last);
    }
}

/// Sorting neither drops nor adds an appointment: a list that holds the
/// appointments of `input` in stable order holds each of them as often as
/// `input` does.
pub proof fn lemma_stable_sort_permutes(input: Seq<AppointmentView>, output: Seq<AppointmentView>)
    requires
        stable_sort_of(input, output),
    ensures
        output.to_multiset() == input.to_multiset(),
        output.len() == input.len(),
{
    assert forall|x: AppointmentView|
        output.to_multiset().count(x) == input.to_multiset().count(x) by {
        lemma_filter_keeps_count(input, x);
        lemma_filter_keeps_count(output, x);
        assert(output.filter(starting_at(x.start)) == input.filter(starting_at(x.start)));
    }
    assert(output.to_multiset() =~= input.to_multiset());
    input.to_multiset_ensures();
    output.to_multiset_ensures();
}

/// Sorting has one answer: two lists that both hold the appointments of
/// `input` in order of their start, ties in the order of `input`, are the
/// same list.
pub proof fn lemma_stable_sort_unique(
    input: Seq<AppointmentView>,
    first: Seq<AppointmentView>,
    second: Seq<AppointmentView>,
)
    requires
        stable_sort_of(input, first),
        stable_sort_of(input, second),
    ensures
        first == second,
{
    assert forall|t: int| #[trigger] first.filter(starting_at(t)) == second.filter(
        starting_at(t),
    ) by {
        assert(first.filter(starting_at(t)) == input.filter(starting_at(t)));
        assert(second.filter(starting_at(t)) == input.filter(starting_at(t)));
    }
    lemma_ordered_lists_equal(first, second);
}

/// Sorting a list that is in order already leaves it as it is.
pub proof fn lemma_sort_of_ordered(input: Seq<AppointmentView>, output: Seq<AppointmentView>)
    requires
        ordered(input),
        stable_sort_of(input, output),
    ensures
        output == input,
{
    lemma_stable_sort_unique(input, input, output);
}

} // verus!
