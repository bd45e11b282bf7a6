//! The published samples and how they change.

use vstd::prelude::*;

use crate::lists;
use crate::reading::Reading;
use crate::series::Series;
use crate::text::same_text;

verus! {

/// Labels of an optimizer.
#[derive(Clone, Debug, Hash, PartialEq, Eq)]
pub struct OptimizerLabels {
    /// Serial number.
    pub optimizer: String,
    /// Name for people.
    pub display_name: String,
    /// Serial number of the inverter.
    pub inverter: String,
    /// Field that the optimizer belongs to.
    pub field: String,
}

/// Label of a kind of portal data.
#[derive(Clone, Debug, Hash, PartialEq, Eq)]
pub struct RefreshKind {
    /// The kind.
    pub kind: String,
}

/// Labels of a battery.
#[derive(Clone, Debug, Hash, PartialEq, Eq)]
pub struct BatteryLabels {
    /// Serial number.
    pub battery: String,
    /// Model.
    pub model: String,
}

/// Labels of a site meter.
#[derive(Clone, Debug, Hash, PartialEq, Eq)]
pub struct MeterLabels {
    /// Serial number.
    pub meter: String,
    /// Serial number of the inverter.
    pub inverter: String,
    /// What the meter counts; published as `type`.
    pub meter_type: String,
}

/// Label of an endpoint of the Monitoring API.
#[derive(Clone, Debug, Hash, PartialEq, Eq)]
pub struct MonitoringEndpoint {
    /// The endpoint.
    pub endpoint: String,
}

/// Labels of a series that has none.
#[derive(Clone, Debug, Hash, PartialEq, Eq)]
pub struct NoLabels {}

/// Names and values of labels, in texts.
pub type LabelTexts = Seq<(Seq<char>, Seq<char>)>;

/// Names and values of labels as texts.
pub open spec fn label_texts(labels: Seq<(String, String)>) -> LabelTexts {
    Seq::new(labels.len(), |i: int| (labels[i].0@, labels[i].1@))
}

/// Labels of an optimizer.
pub open spec fn optimizer_labels(
    optimizer: Seq<char>,
    display_name: Seq<char>,
    inverter: Seq<char>,
    field: Seq<char>,
) -> LabelTexts {
    seq![
        ("optimizer"@, optimizer),
        ("display_name"@, display_name),
        ("inverter"@, inverter),
        ("field"@, field),
    ]
}

/// Label of a kind of portal data.
pub open spec fn kind_label(kind: Seq<char>) -> LabelTexts {
    seq![("kind"@, kind)]
}

/// Labels of a battery.
pub open spec fn battery_labels(battery: Seq<char>, model: Seq<char>) -> LabelTexts {
    seq![("battery"@, battery), ("model"@, model)]
}

/// Labels of a site meter.
pub open spec fn meter_labels(
    meter: Seq<char>,
    inverter: Seq<char>,
    meter_type: Seq<char>,
) -> LabelTexts {
    seq![("meter"@, meter), ("inverter"@, inverter), ("type"@, meter_type)]
}

/// Label of an endpoint of the Monitoring API.
pub open spec fn endpoint_label(endpoint: Seq<char>) -> LabelTexts {
    seq![("endpoint"@, endpoint)]
}

impl OptimizerLabels {
    /// Names and values of the labels.
    pub fn pairs(&self) -> (r: Vec<(String, String)>)
        ensures
            label_texts(r@) == optimizer_labels(
                self.optimizer@,
                self.display_name@,
                self.inverter@,
                self.field@,
            ),
    {
        let r = vec![
            ("optimizer".to_owned(), self.optimizer.clone()),
            ("display_name".to_owned(), self.display_name.clone()),
            ("inverter".to_owned(), self.inverter.clone()),
            ("field".to_owned(), self.field.clone()),
        ];
        assert(label_texts(r@) =~= optimizer_labels(
            self.optimizer@,
            self.display_name@,
            self.inverter@,
            self.field@,
        ));
        r
    }
}

impl RefreshKind {
    /// The label of a kind.
    pub fn of(kind: &str) -> (r: RefreshKind)
        ensures
            r.kind@ == kind@,
    {
        RefreshKind { kind: kind.to_owned() }
    }

    /// Name and value of the label.
    pub fn pairs(&self) -> (r: Vec<(String, String)>)
        ensures
            label_texts(r@) == kind_label(self.kind@),
    {
        let r = vec![("kind".to_owned(), self.kind.clone())];
        assert(label_texts(r@) =~= kind_label(self.kind@));
        r
    }
}

impl BatteryLabels {
    /// Names and values of the labels.
    pub fn pairs(&self) -> (r: Vec<(String, String)>)
        ensures
            label_texts(r@) == battery_labels(self.battery@, self.model@),
    {
        let r = vec![
            ("battery".to_owned(), self.battery.clone()),
            ("model".to_owned(), self.model.clone()),
        ];
        assert(label_texts(r@) =~= battery_labels(self.battery@, self.model@));
        r
    }
}

impl MeterLabels {
    /// Names and values of the labels.
    pub fn pairs(&self) -> (r: Vec<(String, String)>)
        ensures
            label_texts(r@) == meter_labels(self.meter@, self.inverter@, self.meter_type@),
    {
        let r = vec![
            ("meter".to_owned(), self.meter.clone()),
            ("inverter".to_owned(), self.inverter.clone()),
            ("type".to_owned(), self.meter_type.clone()),
        ];
        assert(label_texts(r@) =~= meter_labels(self.meter@, self.inverter@, self.meter_type@));
        r
    }
}

impl MonitoringEndpoint {
    /// The label of an endpoint.
    pub fn of(endpoint: &str) -> (r: MonitoringEndpoint)
        ensures
            r.endpoint@ == endpoint@,
    {
        MonitoringEndpoint { endpoint: endpoint.to_owned() }
    }

    /// Name and value of the label.
    pub fn pairs(&self) -> (r: Vec<(String, String)>)
        ensures
            label_texts(r@) == endpoint_label(self.endpoint@),
    {
        let r = vec![("endpoint".to_owned(), self.endpoint.clone())];
        assert(label_texts(r@) =~= endpoint_label(self.endpoint@));
        r
    }
}

impl NoLabels {
    /// No labels.
    pub fn pairs(&self) -> (r: Vec<(String, String)>)
        ensures
            label_texts(r@) == LabelTexts::empty(),
    {
        let r: Vec<(String, String)> = Vec::new();
        assert(label_texts(r@) =~= LabelTexts::empty());
        r
    }
}

/// The value of a sample.
#[derive(Debug, Clone, Copy, PartialEq, Eq, Structural)]
pub enum Value {
    /// A measured value.
    Reading(Reading),
    /// A whole number: Unix seconds, or a state.
    Integer(i64),
    /// A number of events.
    Count(u64),
}

/// How a sample changes.
#[derive(Debug, Clone, Copy, PartialEq, Eq, Structural)]
pub enum Change {
    /// It takes a value.
    Assign(Value),
    /// It takes a value unless that is below the one it has, or no number.
    Raise(Reading),
    /// It counts further events.
    Count(u64),
}

/// A change of one sample.
#[derive(Debug, Clone)]
pub struct Update {
    /// The series.
    pub series: Series,
    /// Names and values of the labels.
    pub labels: Vec<(String, String)>,
    /// The change.
    pub change: Change,
}

/// What a sample is found by: its series and its labels.
pub type Key = (Series, LabelTexts);

/// A change of one sample, in texts.
#[verifier::ext_equal]
pub struct UpdateView {
    /// The sample.
    pub key: Key,
    /// The change.
    pub change: Change,
}

impl View for Update {
    type V = UpdateView;

    open spec fn view(&self) -> UpdateView {
        UpdateView { key: (self.series, label_texts(self.labels@)), change: self.change }
    }
}

/// The changes of a vector, in texts.
pub open spec fn update_views(v: Seq<Update>) -> Seq<UpdateView> {
    Seq::new(v.len(), |i: int| v[i]@)
}

/// A change of one sample, in texts.
pub open spec fn update(series: Series, labels: LabelTexts, change: Change) -> UpdateView {
    UpdateView { key: (series, labels), change }
}

/// True of a function that can stand for the addition of measured values: it
/// gives one sum for any two of them.
pub open spec fn is_addition<F: Fn(Reading, Reading) -> Reading>(plus: F) -> bool {
    &&& forall|a: Reading, b: Reading| #[trigger] plus.requires((a, b))
    &&& forall|a: Reading, b: Reading, r: Reading, s: Reading|
        #[trigger] plus.ensures((a, b), r) && #[trigger] plus.ensures((a, b), s) ==> r == s
}

/// The sum of two measured values.
pub open spec fn sum<F: Fn(Reading, Reading) -> Reading>(
    plus: F,
    a: Reading,
    b: Reading,
) -> Reading {
    choose|r: Reading| plus.ensures((a, b), r)
}

/// Adds two measured values.
pub fn added<F: Fn(Reading, Reading) -> Reading>(plus: &F, a: Reading, b: Reading) -> (r: Reading)
    requires
        is_addition(*plus),
    ensures
        r == sum(*plus, a, b),
{
    let r = plus(a, b);
    proof {
        let s = sum(*plus, a, b);
        assert(plus.ensures((a, b), s));
    }
    r
}

/// What is kept of a lifetime value and a new one: the new one, unless it is
/// below or no number.
pub open spec fn kept_max(current: Reading, value: Reading) -> Reading {
    if value.is_nan() || value.less_than(current) {
        current
    } else {
        value
    }
}

/// Sets a lifetime value, but never to one that is below or no number. Tells
/// whether the value was held.
pub fn set_lifetime_monotonic(gauge: &mut Reading, value: Reading) -> (held: bool)
    ensures
        *final(gauge) == kept_max(*old(gauge), value),
        held == (value.is_nan() || value.less_than(*old(gauge))),
{
    if !value.is_number() || value.lt(gauge) {
        true
    } else {
        *gauge = value;
        false
    }
}

/// The measured value of a sample; zero where it has none yet.
pub open spec fn reading_or_zero(current: Option<Value>) -> Reading {
    match current {
        Some(Value::Reading(r)) => r,
        _ => Reading::spec_zero(),
    }
}

/// The count of a sample; zero where it has none yet.
pub open spec fn count_or_zero(current: Option<Value>) -> u64 {
    match current {
        Some(Value::Count(n)) => n,
        _ => 0,
    }
}

/// The value of a sample after a change.
pub open spec fn changed(current: Option<Value>, change: Change) -> Value {
    match change {
        Change::Assign(v) => v,
        Change::Raise(v) => Value::Reading(kept_max(reading_or_zero(current), v)),
        Change::Count(n) => Value::Count(count_or_zero(current).wrapping_add(n)),
    }
}

/// The value of a sample, where it has one.
pub open spec fn sample_at(samples: Map<Key, Value>, key: Key) -> Option<Value> {
    if samples.contains_key(key) {
        Some(samples[key])
    } else {
        None
    }
}

/// The samples after a change.
pub open spec fn applied(samples: Map<Key, Value>, u: UpdateView) -> Map<Key, Value> {
    samples.insert(u.key, changed(sample_at(samples, u.key), u.change))
}

/// The samples after several changes, one after the other.
pub open spec fn all_applied(samples: Map<Key, Value>, updates: Seq<UpdateView>) -> Map<Key, Value>
    decreases updates.len(),
{
    if updates.len() == 0 {
        samples
    } else {
        applied(all_applied(samples, updates.drop_last()), updates.last())
    }
}

/// By how much a counter of a measured quantity grows.
#[derive(Debug, Clone)]
pub struct Growth {
    /// Names and values of the labels.
    pub labels: Vec<(String, String)>,
    /// The quantity.
    pub amount: Reading,
}

/// By how much a counter of a measured quantity grows, in texts.
#[verifier::ext_equal]
pub struct GrowthView {
    /// Names and values of the labels.
    pub labels: LabelTexts,
    /// The quantity.
    pub amount: Reading,
}

impl View for Growth {
    type V = GrowthView;

    open spec fn view(&self) -> GrowthView {
        GrowthView { labels: label_texts(self.labels@), amount: self.amount }
    }
}

/// The growths of a vector, in texts.
pub open spec fn growth_views(v: Seq<Growth>) -> Seq<GrowthView> {
    Seq::new(v.len(), |i: int| v[i]@)
}

/// The samples after a counter grew. One that has no value yet starts at zero.
pub open spec fn grown<F: Fn(Reading, Reading) -> Reading>(
    plus: F,
    samples: Map<Key, Value>,
    series: Series,
    g: GrowthView,
) -> Map<Key, Value> {
    let key = (series, g.labels);
    samples.insert(
        key,
        Value::Reading(sum(plus, reading_or_zero(sample_at(samples, key)), g.amount)),
    )
}

/// The samples after counters of a series grew, one after the other.
pub open spec fn all_grown<F: Fn(Reading, Reading) -> Reading>(
    plus: F,
    samples: Map<Key, Value>,
    series: Series,
    growths: Seq<GrowthView>,
) -> Map<Key, Value>
    decreases growths.len(),
{
    if growths.len() == 0 {
        samples
    } else {
        grown(plus, all_grown(plus, samples, series, growths.drop_last()), series, growths.last())
    }
}

/// A lifetime value that was held, because a lower one came, or what is no
/// number.
#[derive(Debug, Clone)]
pub struct Held {
    /// The series.
    pub series: Series,
    /// Names and values of the labels.
    pub labels: Vec<(String, String)>,
    /// The value that is kept.
    pub current: Reading,
    /// The value that came.
    pub incoming: Reading,
}

/// A lifetime value that was held, in texts.
#[verifier::ext_equal]
pub struct HeldView {
    /// The sample.
    pub key: Key,
    /// The value that is kept.
    pub current: Reading,
    /// The value that came.
    pub incoming: Reading,
}

impl View for Held {
    type V = HeldView;

    open spec fn view(&self) -> HeldView {
        HeldView {
            key: (self.series, label_texts(self.labels@)),
            current: self.current,
            incoming: self.incoming,
        }
    }
}

/// The held values of a vector, in texts.
pub open spec fn held_views(v: Seq<Held>) -> Seq<HeldView> {
    Seq::new(v.len(), |i: int| v[i]@)
}

/// What a change holds back: nothing, or a lifetime value.
pub open spec fn held_by(samples: Map<Key, Value>, u: UpdateView) -> Seq<HeldView> {
    match u.change {
        Change::Raise(v) => {
            let current = reading_or_zero(sample_at(samples, u.key));
            if v.is_nan() || v.less_than(current) {
                seq![HeldView { key: u.key, current, incoming: v }]
            } else {
                Seq::empty()
            }
        },
        _ => Seq::empty(),
    }
}

/// What several changes hold back.
pub open spec fn all_held(samples: Map<Key, Value>, updates: Seq<UpdateView>) -> Seq<HeldView>
    decreases updates.len(),
{
    if updates.len() == 0 {
        Seq::empty()
    } else {
        all_held(samples, updates.drop_last()) + held_by(
            all_applied(samples, updates.drop_last()),
            updates.last(),
        )
    }
}

/// A sample.
#[derive(Debug, Clone)]
pub struct Sample {
    /// The series.
    pub series: Series,
    /// Names and values of the labels.
    pub labels: Vec<(String, String)>,
    /// The value.
    pub value: Value,
}

impl Sample {
    /// What the sample is found by.
    pub open spec fn key(self) -> Key {
        (self.series, label_texts(self.labels@))
    }
}

/// True where no two samples have the same series and labels.
pub open spec fn distinct_samples(samples: Seq<Sample>) -> bool {
    forall|i: int, j: int|
        0 <= i < j < samples.len() ==> #[trigger] samples[i].key() != #[trigger] samples[j].key()
}

/// True where a sample has the key.
pub open spec fn has_sample(samples: Seq<Sample>, key: Key) -> bool {
    exists|i: int| 0 <= i < samples.len() && #[trigger] samples[i].key() == key
}

/// The map that a list of samples stands for.
pub open spec fn samples_map(samples: Seq<Sample>) -> Map<Key, Value> {
    Map::new(
        |key: Key| has_sample(samples, key),
        |key: Key|
            samples[choose|i: int|
                0 <= i < samples.len() && #[trigger] samples[i].key() == key].value,
    )
}

/// Every sample of a list is in its map.
pub proof fn lemma_sample(samples: Seq<Sample>, i: int)
    requires
        distinct_samples(samples),
        0 <= i < samples.len(),
    ensures
        samples_map(samples).contains_key(samples[i].key()),
        samples_map(samples)[samples[i].key()] == samples[i].value,
{
    let key = samples[i].key();
    assert(has_sample(samples, key));
    let j = choose|j: int| 0 <= j < samples.len() && #[trigger] samples[j].key() == key;
    assert(i == j);
}

proof fn lemma_sample_pushed(samples: Seq<Sample>, sample: Sample)
    requires
        distinct_samples(samples),
        !has_sample(samples, sample.key()),
    ensures
        distinct_samples(samples.push(sample)),
        samples_map(samples.push(sample)) == samples_map(samples).insert(
            sample.key(),
            sample.value,
        ),
{
    let more = samples.push(sample);
    assert forall|i: int, j: int| 0 <= i < j < more.len() implies #[trigger] more[i].key()
        != #[trigger] more[j].key() by {
        assert(samples[i].key() == more[i].key());
        if j < samples.len() {
            assert(samples[j].key() == more[j].key());
        }
    }
    assert forall|k: Key| #[trigger]
        has_sample(more, k) == (has_sample(samples, k) || k == sample.key()) by {
        if has_sample(samples, k) {
            let i = choose|i: int| 0 <= i < samples.len() && #[trigger] samples[i].key() == k;
            assert(more[i].key() == k);
        }
        if k == sample.key() {
            assert(more[samples.len() as int].key() == k);
        }
        if has_sample(more, k) && k != sample.key() {
            let i = choose|i: int| 0 <= i < more.len() && #[trigger] more[i].key() == k;
            assert(samples[i].key() == k);
        }
    }
    assert forall|k: Key| #[trigger]
        samples_map(more).contains_key(k) implies samples_map(more)[k] == samples_map(
        samples,
    ).insert(sample.key(), sample.value)[k] by {
        let i = choose|i: int| 0 <= i < more.len() && #[trigger] more[i].key() == k;
        lemma_sample(more, i);
        if i < samples.len() {
            lemma_sample(samples, i);
            assert(samples[i].key() == k);
        }
    }
    assert(samples_map(more) =~= samples_map(samples).insert(sample.key(), sample.value));
}

proof fn lemma_sample_replaced(samples: Seq<Sample>, at: int, sample: Sample)
    requires
        distinct_samples(samples),
        0 <= at < samples.len(),
        samples[at].key() == sample.key(),
    ensures
        distinct_samples(samples.update(at, sample)),
        samples_map(samples.update(at, sample)) == samples_map(samples).insert(
            sample.key(),
            sample.value,
        ),
{
    let other = samples.update(at, sample);
    assert forall|i: int| 0 <= i < other.len() implies #[trigger] other[i].key()
        == samples[i].key() by {}
    assert forall|k: Key| #[trigger] has_sample(other, k) == has_sample(samples, k) by {
        if has_sample(samples, k) {
            let i = choose|i: int| 0 <= i < samples.len() && #[trigger] samples[i].key() == k;
            assert(other[i].key() == k);
        }
        if has_sample(other, k) {
            let i = choose|i: int| 0 <= i < other.len() && #[trigger] other[i].key() == k;
            assert(samples[i].key() == k);
        }
    }
    assert(has_sample(samples, sample.key()));
    assert forall|k: Key| #[trigger]
        samples_map(other).contains_key(k) implies samples_map(other)[k] == samples_map(
        samples,
    ).insert(sample.key(), sample.value)[k] by {
        let i = choose|i: int| 0 <= i < other.len() && #[trigger] other[i].key() == k;
        lemma_sample(other, i);
        lemma_sample(samples, i);
    }
    assert(samples_map(other) =~= samples_map(samples).insert(sample.key(), sample.value));
}

fn same_labels(a: &Vec<(String, String)>, b: &Vec<(String, String)>) -> (r: bool)
    ensures
        r == (label_texts(a@) == label_texts(b@)),
{
    if a.len() != b.len() {
        assert(label_texts(a@).len() != label_texts(b@).len());
        return false;
    }
    let mut i: usize = 0;
    while i < a.len()
        invariant
            i <= a.len(),
            a.len() == b.len(),
            forall|k: int|
                0 <= k < i ==> #[trigger] a@[k].0@ == b@[k].0@ && a@[k].1@ == b@[k].1@,
        decreases a.len() - i,
    {
        if !same_text(a[i].0.as_str(), b[i].0.as_str()) || !same_text(
            a[i].1.as_str(),
            b[i].1.as_str(),
        ) {
            assert(label_texts(a@)[i as int] != label_texts(b@)[i as int]);
            return false;
        }
        i += 1;
    }
    assert(label_texts(a@) =~= label_texts(b@));
    true
}

/// The published samples. The view maps series and labels to values.
#[derive(Debug)]
pub struct AppMetrics {
    samples: Vec<Sample>,
}

impl View for AppMetrics {
    type V = Map<Key, Value>;

    closed spec fn view(&self) -> Map<Key, Value> {
        samples_map(self.samples@)
    }
}

/// The samples before anything was fetched: no login has been counted, and
/// nothing else is published.
pub open spec fn initial_samples() -> Map<Key, Value> {
    Map::empty().insert((Series::PortalLogin, LabelTexts::empty()), Value::Count(0))
}

impl AppMetrics {
    #[verifier::type_invariant]
    spec fn wf(self) -> bool {
        distinct_samples(self.samples@)
    }

    /// The samples before anything was fetched. Only the count of logins is
    /// published; every other series is absent until it has a value.
    pub fn new() -> (r: AppMetrics)
        ensures
            r@ == initial_samples(),
    {
        let none = NoLabels {  };
        let sample = Sample {
            series: Series::PortalLogin,
            labels: none.pairs(),
            value: Value::Count(0),
        };
        let ghost empty = Seq::<Sample>::empty();
        proof {
            assert(samples_map(empty) =~= Map::empty());
            lemma_sample_pushed(empty, sample);
        }
        let samples = vec![sample];
        assert(samples@ =~= empty.push(sample));
        AppMetrics { samples }
    }

    /// The samples: every series with every set of labels that has a value.
    pub fn samples(&self) -> (r: &Vec<Sample>)
        ensures
            distinct_samples(r@),
            self@ == samples_map(r@),
    {
        proof {
            use_type_invariant(self);
        }
        &self.samples
    }

    fn position(&self, series: Series, labels: &Vec<(String, String)>) -> (r: Option<usize>)
        ensures
            match r {
                Some(i) => i < self.samples.len() && self.samples@[i as int].key() == (
                    series,
                    label_texts(labels@),
                ),
                None => !has_sample(self.samples@, (series, label_texts(labels@))),
            },
    {
        let ghost key = (series, label_texts(labels@));
        let mut i: usize = 0;
        while i < self.samples.len()
            invariant
                i <= self.samples.len(),
                key == (series, label_texts(labels@)),
                forall|k: int| 0 <= k < i ==> #[trigger] self.samples@[k].key() != key,
            decreases self.samples.len() - i,
        {
            if self.samples[i].series == series && same_labels(&self.samples[i].labels, labels) {
                return Some(i);
            }
            i += 1;
        }
        None
    }

    /// The value of a sample.
    pub fn get(&self, series: Series, labels: &Vec<(String, String)>) -> (r: Option<Value>)
        ensures
            r == sample_at(self@, (series, label_texts(labels@))),
    {
        proof {
            use_type_invariant(self);
        }
        match self.position(series, labels) {
            Some(i) => {
                proof {
                    lemma_sample(self.samples@, i as int);
                }
                Some(self.samples[i].value)
            },
            None => None,
        }
    }

    /// Gives a sample a value, in place of the one that it has.
    fn put(&mut self, sample: Sample)
        ensures
            final(self)@ == old(self)@.insert(sample.key(), sample.value),
    {
        proof {
            use_type_invariant(&*self);
        }
        let found = self.position(sample.series, &sample.labels);
        let mut samples: Vec<Sample> = Vec::new();
        std::mem::swap(&mut samples, &mut self.samples);
        match found {
            Some(i) => {
                proof {
                    lemma_sample_replaced(samples@, i as int, sample);
                }
                samples.set(i, sample);
            },
            None => {
                proof {
                    lemma_sample_pushed(samples@, sample);
                }
                samples.push(sample);
            },
        }
        self.samples = samples;
    }

    /// Makes a change. Gives the lifetime value that it held back, if it did.
    fn apply(&mut self, u: Update) -> (r: Option<Held>)
        ensures
            final(self)@ == applied(old(self)@, u@),
            match r {
                Some(h) => held_by(old(self)@, u@) == seq![h@],
                None => held_by(old(self)@, u@) == Seq::<HeldView>::empty(),
            },
    {
        let current = self.get(u.series, &u.labels);
        let mut held: Option<Held> = None;
        let value = match u.change {
            Change::Assign(v) => v,
            Change::Raise(v) => {
                let mut kept = match current {
                    Some(Value::Reading(r)) => r,
                    _ => Reading::zero(),
                };
                if set_lifetime_monotonic(&mut kept, v) {
                    let labels = copied(&u.labels);
                    held = Some(Held { series: u.series, labels, current: kept, incoming: v });
                }
                Value::Reading(kept)
            },
            Change::Count(n) => {
                let count: u64 = match current {
                    Some(Value::Count(c)) => c,
                    _ => 0,
                };
                Value::Count(count.wrapping_add(n))
            },
        };
        self.put(Sample { series: u.series, labels: u.labels, value });
        held
    }

    /// Makes several changes, one after the other. Gives the lifetime values
    /// that were held back.
    pub fn commit(&mut self, updates: &Vec<Update>) -> (r: Vec<Held>)
        ensures
            final(self)@ == all_applied(old(self)@, update_views(updates@)),
            held_views(r@) == all_held(old(self)@, update_views(updates@)),
    {
        let ghost all = update_views(updates@);
        let ghost start = self@;
        let mut held: Vec<Held> = Vec::new();
        let mut i: usize = 0;
        assert(all.take(0) =~= Seq::<UpdateView>::empty());
        assert(held_views(held@) =~= Seq::<HeldView>::empty());
        while i < updates.len()
            invariant
                i <= updates.len(),
                all == update_views(updates@),
                self@ == all_applied(start, all.take(i as int)),
                held_views(held@) == all_held(start, all.take(i as int)),
            decreases updates.len() - i,
        {
            let u = duplicate(&updates[i]);
            let ghost before = held_views(held@);
            proof {
                assert(all.take(i + 1).drop_last() =~= all.take(i as int));
                assert(all.take(i + 1).last() == all[i as int]);
            }
            match self.apply(u) {
                Some(h) => {
                    held.push(h);
                    assert(held_views(held@) =~= before + seq![h@]);
                },
                None => {
                    assert(held_views(held@) =~= before + Seq::<HeldView>::empty());
                },
            }
            i += 1;
        }
        assert(all.take(i as int) =~= all);
        held
    }

    /// Lets counters of a measured quantity grow, one after the other.
    pub fn grow<F: Fn(Reading, Reading) -> Reading>(
        &mut self,
        series: Series,
        growths: &Vec<Growth>,
        plus: &F,
    )
        requires
            is_addition(*plus),
        ensures
            final(self)@ == all_grown(*plus, old(self)@, series, growth_views(growths@)),
    {
        let ghost all = growth_views(growths@);
        let ghost start = self@;
        let mut i: usize = 0;
        assert(all.take(0) =~= Seq::<GrowthView>::empty());
        while i < growths.len()
            invariant
                i <= growths.len(),
                all == growth_views(growths@),
                is_addition(*plus),
                self@ == all_grown(*plus, start, series, all.take(i as int)),
            decreases growths.len() - i,
        {
            let g = &growths[i];
            proof {
                assert(all.take(i + 1).drop_last() =~= all.take(i as int));
                assert(all.take(i + 1).last() == all[i as int]);
            }
            let total = match self.get(series, &g.labels) {
                Some(Value::Reading(r)) => r,
                _ => Reading::zero(),
            };
            let value = Value::Reading(added(plus, total, g.amount));
            self.put(Sample { series, labels: copied(&g.labels), value });
            i += 1;
        }
        assert(all.take(i as int) =~= all);
    }
}

/// Copies names and values of labels.
fn copied(labels: &Vec<(String, String)>) -> (r: Vec<(String, String)>)
    ensures
        label_texts(r@) == label_texts(labels@),
{
    let mut r: Vec<(String, String)> = Vec::new();
    let mut i: usize = 0;
    while i < labels.len()
        invariant
            i <= labels.len(),
            r.len() == i,
            forall|k: int|
                0 <= k < i ==> #[trigger] r@[k].0@ == labels@[k].0@ && r@[k].1@ == labels@[k].1@,
        decreases labels.len() - i,
    {
        r.push((labels[i].0.clone(), labels[i].1.clone()));
        i += 1;
    }
    assert(label_texts(r@) =~= label_texts(labels@));
    r
}

fn duplicate(u: &Update) -> (r: Update)
    ensures
        r@ == u@,
{
    Update { series: u.series, labels: copied(&u.labels), change: u.change }
}

/// Adds a change to a list.
pub(crate) fn push_update(
    out: &mut Vec<Update>,
    series: Series,
    labels: Vec<(String, String)>,
    change: Change,
)
    ensures
        update_views(final(out)@) == update_views(old(out)@).push(
            update(series, label_texts(labels@), change),
        ),
{
    let ghost before = update_views(out@);
    let ghost texts = label_texts(labels@);
    out.push(Update { series, labels, change });
    assert(update_views(out@) =~= before.push(update(series, texts, change)));
}

/// Adds the changes of one list to another.
pub(crate) fn append_updates(out: &mut Vec<Update>, more: Vec<Update>)
    ensures
        update_views(final(out)@) == update_views(old(out)@) + update_views(more@),
{
    let ghost before = update_views(out@);
    let ghost added = update_views(more@);
    let mut more = more;
    out.append(&mut more);
    assert(update_views(out@) =~= before + added);
}

impl Default for AppMetrics {
    fn default() -> (r: AppMetrics)
        ensures
            r@ == initial_samples(),
    {
        AppMetrics::new()
    }
}

/// Changes made in two goes come to the same as all of them in one.
pub proof fn lemma_applied_in_two(
    samples: Map<Key, Value>,
    first: Seq<UpdateView>,
    second: Seq<UpdateView>,
)
    ensures
        all_applied(samples, first + second) == all_applied(all_applied(samples, first), second),
    decreases second.len(),
{
    if second.len() == 0 {
        assert(first + second =~= first);
    } else {
        lemma_applied_in_two(samples, first, second.drop_last());
        assert((first + second).drop_last() =~= first + second.drop_last());
        assert((first + second).last() == second.last());
    }
}

/// A sample that no change names stays as it is, or stays absent: one set of
/// labels never moves another.
pub proof fn lemma_untouched(samples: Map<Key, Value>, updates: Seq<UpdateView>, key: Key)
    requires
        forall|i: int| 0 <= i < updates.len() ==> (#[trigger] updates[i]).key != key,
    ensures
        sample_at(all_applied(samples, updates), key) == sample_at(samples, key),
    decreases updates.len(),
{
    if updates.len() > 0 {
        let fewer = updates.drop_last();
        assert forall|i: int| 0 <= i < fewer.len() implies (#[trigger] fewer[i]).key != key by {
            assert(updates[i].key != key);
        }
        lemma_untouched(samples, fewer, key);
        assert(updates[updates.len() - 1].key != key);
    }
}

/// A sample that a change names is there afterwards.
pub proof fn lemma_named_sample_exists(
    samples: Map<Key, Value>,
    updates: Seq<UpdateView>,
    at: int,
)
    requires
        0 <= at < updates.len(),
    ensures
        sample_at(all_applied(samples, updates), updates[at].key) is Some,
    decreases updates.len(),
{
    if at < updates.len() - 1 {
        assert(updates.drop_last()[at] == updates[at]);
        lemma_named_sample_exists(samples, updates.drop_last(), at);
    }
}

/// A sample that no change names stays as it is.
pub proof fn lemma_unnamed(samples: Map<Key, Value>, updates: Seq<UpdateView>, key: Key)
    requires
        lists::each(updates, |u: UpdateView| u.key != key),
    ensures
        sample_at(all_applied(samples, updates), key) == sample_at(samples, key),
{
    let p = |u: UpdateView| u.key != key;
    assert forall|i: int| 0 <= i < updates.len() implies (#[trigger] updates[i]).key != key by {
        assert(p(updates[i]));
    }
    lemma_untouched(samples, updates, key);
}

/// A sample that is there stays there.
pub proof fn lemma_sample_stays(samples: Map<Key, Value>, updates: Seq<UpdateView>, key: Key)
    requires
        sample_at(samples, key) is Some,
    ensures
        sample_at(all_applied(samples, updates), key) is Some,
    decreases updates.len(),
{
    if updates.len() > 0 {
        lemma_sample_stays(samples, updates.drop_last(), key);
    }
}

/// A series other than the count of logins is absent until a change names it:
/// no sample ever starts at a made-up zero.
pub proof fn lemma_absent_until_set(updates: Seq<UpdateView>, key: Key)
    requires
        key.0 != Series::PortalLogin,
        forall|i: int| 0 <= i < updates.len() ==> (#[trigger] updates[i]).key != key,
    ensures
        sample_at(all_applied(initial_samples(), updates), key) is None,
{
    lemma_untouched(initial_samples(), updates, key);
}

/// True where a sample is only ever raised.
pub open spec fn only_raised(updates: Seq<UpdateView>, key: Key) -> bool {
    forall|i: int|
        0 <= i < updates.len() && (#[trigger] updates[i]).key == key ==> updates[i].change is Raise
}

/// True where a sample has a measured value, or none yet.
pub open spec fn measured_or_absent(current: Option<Value>) -> bool {
    current matches Some(v) ==> v is Reading
}

/// True where a lifetime total was not lowered, not lost, and not replaced by
/// what is no number. One that was absent is absent still, or not below zero.
pub open spec fn kept_up(before: Option<Value>, after: Option<Value>) -> bool {
    &&& measured_or_absent(after)
    &&& before is Some ==> after is Some
    &&& !reading_or_zero(after).less_than(reading_or_zero(before))
    &&& !reading_or_zero(before).is_nan() ==> !reading_or_zero(after).is_nan()
}

/// A sample that is only ever raised never goes down, is never below a value
/// that it was to be raised to, and stays a number once it is one, whatever the
/// values are.
pub proof fn lemma_lifetime_never_decreases(
    samples: Map<Key, Value>,
    updates: Seq<UpdateView>,
    key: Key,
)
    requires
        measured_or_absent(sample_at(samples, key)),
        only_raised(updates, key),
    ensures
        ({
            let last = sample_at(all_applied(samples, updates), key);
            let after = reading_or_zero(last);
            &&& kept_up(sample_at(samples, key), last)
            &&& forall|i: int|
                0 <= i < updates.len() && (#[trigger] updates[i]).key == key ==> (
                updates[i].change matches Change::Raise(v) && !after.less_than(v) && (!v.is_nan()
                    ==> !after.is_nan()))
        }),
    decreases updates.len(),
{
    if updates.len() > 0 {
        let fewer = updates.drop_last();
        assert forall|i: int| 0 <= i < fewer.len() && (#[trigger] fewer[i]).key == key implies
            fewer[i].change is Raise by {
            assert(updates[i] == fewer[i]);
        }
        lemma_lifetime_never_decreases(samples, fewer, key);
        assert(updates[updates.len() - 1] == updates.last());
        let after = reading_or_zero(sample_at(all_applied(samples, updates), key));
        assert forall|i: int| 0 <= i < updates.len() && (#[trigger] updates[i]).key == key implies (
        updates[i].change matches Change::Raise(v) && !after.less_than(v) && (!v.is_nan()
            ==> !after.is_nan())) by {
            if i < fewer.len() {
                assert(fewer[i] == updates[i]);
            }
        }
    }
}

/// A counter that no growth names stays as it is.
pub proof fn lemma_not_grown<F: Fn(Reading, Reading) -> Reading>(
    plus: F,
    samples: Map<Key, Value>,
    series: Series,
    growths: Seq<GrowthView>,
    key: Key,
)
    requires
        forall|i: int| 0 <= i < growths.len() ==> (series, (#[trigger] growths[i]).labels) != key,
    ensures
        sample_at(all_grown(plus, samples, series, growths), key) == sample_at(samples, key),
    decreases growths.len(),
{
    if growths.len() > 0 {
        let fewer = growths.drop_last();
        assert forall|i: int| 0 <= i < fewer.len() implies (
            series,
            (#[trigger] fewer[i]).labels,
        ) != key by {
            assert((series, growths[i].labels) != key);
        }
        lemma_not_grown(plus, samples, series, fewer, key);
        assert((series, growths[growths.len() - 1].labels) != key);
    }
}

/// A counter that one growth alone names grows by its amount.
pub proof fn lemma_grown_once<F: Fn(Reading, Reading) -> Reading>(
    plus: F,
    samples: Map<Key, Value>,
    series: Series,
    growths: Seq<GrowthView>,
    at: int,
)
    requires
        0 <= at < growths.len(),
        forall|i: int, j: int|
            0 <= i < j < growths.len() ==> (#[trigger] growths[i]).labels != (
            #[trigger] growths[j]).labels,
    ensures
        sample_at(all_grown(plus, samples, series, growths), (series, growths[at].labels)) == Some(
            Value::Reading(
                sum(
                    plus,
                    reading_or_zero(sample_at(samples, (series, growths[at].labels))),
                    growths[at].amount,
                ),
            ),
        ),
    decreases growths.len(),
{
    let fewer = growths.drop_last();
    let key = (series, growths[at].labels);
    if at == growths.len() - 1 {
        assert forall|i: int| 0 <= i < fewer.len() implies (
            series,
            (#[trigger] fewer[i]).labels,
        ) != key by {
            assert(growths[i].labels != growths[at].labels);
        }
        lemma_not_grown(plus, samples, series, fewer, key);
    } else {
        assert forall|i: int, j: int| 0 <= i < j < fewer.len() implies (
        #[trigger] fewer[i]).labels != (#[trigger] fewer[j]).labels by {
            assert(growths[i].labels != growths[j].labels);
        }
        assert(fewer[at] == growths[at]);
        lemma_grown_once(plus, samples, series, fewer, at);
        assert(growths[at].labels != growths[growths.len() - 1].labels);
    }
}

/// A lifetime value that is set is the higher one of the two; what is no number
/// never takes the place of anything.
pub proof fn lemma_higher_kept(current: Reading, value: Reading)
    ensures
        current.less_than(value) ==> kept_max(current, value) == value,
        value.less_than(current) ==> kept_max(current, value) == current,
        value.is_nan() ==> kept_max(current, value) == current,
        !value.is_nan() ==> !kept_max(current, value).less_than(value),
        !kept_max(current, value).less_than(current),
        kept_max(current, value) == current || kept_max(current, value) == value,
        current.is_nan() && !value.is_nan() ==> kept_max(current, value) == value,
{
}

/// The sum of two measured values is what the addition gives for them, in their
/// order.
pub proof fn lemma_sum<F: Fn(Reading, Reading) -> Reading>(
    plus: F,
    a: Reading,
    b: Reading,
    r: Reading,
)
    requires
        is_addition(plus),
        plus.ensures((a, b), r),
    ensures
        sum(plus, a, b) == r,
{
    assert(plus.ensures((a, b), sum(plus, a, b)));
}

/// Samples are told apart by every name and every value of their labels.
pub proof fn lemma_labels_told_apart(a: Seq<(String, String)>, b: Seq<(String, String)>)
    ensures
        label_texts(a) == label_texts(b) <==> {
            &&& a.len() == b.len()
            &&& forall|i: int|
                0 <= i < a.len() ==> (#[trigger] a[i]).0@ == b[i].0@ && a[i].1@ == b[i].1@
        },
{
    let (x, y) = (label_texts(a), label_texts(b));
    if x == y {
        assert forall|i: int| 0 <= i < a.len() implies (#[trigger] a[i]).0@ == b[i].0@ && a[i].1@
            == b[i].1@ by {
            assert(x[i] == y[i]);
        }
    }
    if a.len() == b.len() && forall|i: int|
        0 <= i < a.len() ==> (#[trigger] a[i]).0@ == b[i].0@ && a[i].1@ == b[i].1@ {
        assert forall|i: int| 0 <= i < x.len() implies x[i] == y[i] by {
            assert(a[i].0@ == b[i].0@);
        }
        assert(x =~= y);
    }
}

/// A list of changes as texts has a change for each of its changes: of the same
/// series, with the same labels, and the same in kind and value.
pub proof fn lemma_changes_as_texts(updates: Seq<Update>, i: int)
    requires
        0 <= i < updates.len(),
    ensures
        update_views(updates).len() == updates.len(),
        update_views(updates)[i].key.0 == updates[i].series,
        update_views(updates)[i].key.1.len() == updates[i].labels@.len(),
        forall|k: int|
            0 <= k < updates[i].labels@.len() ==> #[trigger] update_views(updates)[i].key.1[k] == (
                updates[i].labels@[k].0@,
                updates[i].labels@[k].1@,
            ),
        update_views(updates)[i].change == updates[i].change,
{
}

/// Of several changes that one alone of which names a sample, that one decides:
/// what is assigned is there, what is counted is added to the count, and a
/// lifetime value is raised, from zero where there was none.
pub proof fn lemma_only_change(samples: Map<Key, Value>, updates: Seq<UpdateView>, i: int)
    requires
        0 <= i < updates.len(),
        forall|j: int|
            0 <= j < updates.len() && j != i ==> (#[trigger] updates[j]).key != updates[i].key,
    ensures
        ({
            let key = updates[i].key;
            let after = all_applied(samples, updates);
            &&& after.contains_key(key)
            &&& match updates[i].change {
                Change::Assign(v) => after[key] == v,
                Change::Count(n) => {
                    let count: int = if samples.contains_key(key) && samples[key] is Count {
                        samples[key]->Count_0 as int
                    } else {
                        0
                    };
                    after[key] == Value::Count(((count + n) % 0x1_0000_0000_0000_0000) as u64)
                },
                Change::Raise(v) => {
                    let current = if samples.contains_key(key) && samples[key] is Reading {
                        samples[key]->Reading_0
                    } else {
                        Reading { bits: 0 }
                    };
                    &&& current.less_than(v) ==> after[key] == Value::Reading(v)
                    &&& v.less_than(current) || v.is_nan() ==> after[key] == Value::Reading(current)
                    &&& !v.is_nan() ==> (after[key] matches Value::Reading(x) && !x.less_than(v)
                        && !x.less_than(current))
                },
            }
        }),
{
    let u = updates[i];
    let key = u.key;
    let head = updates.take(i);
    let tail = updates.skip(i + 1);
    assert(updates =~= head + seq![u] + tail);
    assert forall|j: int| 0 <= j < head.len() implies (#[trigger] head[j]).key != key by {
        assert(updates[j].key != key);
    }
    assert forall|j: int| 0 <= j < tail.len() implies (#[trigger] tail[j]).key != key by {
        assert(updates[i + 1 + j].key != key);
    }
    lemma_untouched(samples, head, key);
    assert((head + seq![u]).drop_last() =~= head);
    lemma_applied_in_two(samples, head + seq![u], tail);
    lemma_untouched(all_applied(samples, head + seq![u]), tail, key);
    let before = all_applied(samples, head);
    let middle = all_applied(samples, head + seq![u]);
    let after = all_applied(samples, updates);
    assert(sample_at(middle, key) == Some(changed(sample_at(before, key), u.change)));
    assert(sample_at(after, key) == sample_at(middle, key));
    assert(sample_at(before, key) == sample_at(samples, key));
}

/// A sample takes the last value that is assigned to it.
pub proof fn lemma_last_assignment(samples: Map<Key, Value>, updates: Seq<UpdateView>, i: int)
    requires
        0 <= i < updates.len(),
        updates[i].change is Assign,
        forall|j: int| i < j < updates.len() ==> (#[trigger] updates[j]).key != updates[i].key,
    ensures
        all_applied(samples, updates).contains_pair(updates[i].key, updates[i].change->Assign_0),
{
    let u = updates[i];
    let head = updates.take(i + 1);
    let tail = updates.skip(i + 1);
    assert(updates =~= head + tail);
    assert(head.last() == u);
    assert forall|j: int| 0 <= j < tail.len() implies (#[trigger] tail[j]).key != u.key by {
        assert(updates[i + 1 + j].key != u.key);
    }
    lemma_applied_in_two(samples, head, tail);
    lemma_untouched(all_applied(samples, head), tail, u.key);
    assert(sample_at(all_applied(samples, head), u.key) == Some(u.change->Assign_0));
}

/// Samples that no change names stay, with their values, and none appears.
pub proof fn lemma_nothing_else_changes(samples: Map<Key, Value>, updates: Seq<UpdateView>, key: Key)
    requires
        forall|i: int| 0 <= i < updates.len() ==> (#[trigger] updates[i]).key != key,
    ensures
        all_applied(samples, updates).contains_key(key) == samples.contains_key(key),
        samples.contains_key(key) ==> all_applied(samples, updates)[key] == samples[key],
{
    lemma_untouched(samples, updates, key);
    let after = all_applied(samples, updates);
    assert(sample_at(after, key) == sample_at(samples, key));
}

/// A lifetime value that is held back is reported, with the value that is kept
/// and the one that came; where none is below what there is, nothing is.
pub proof fn lemma_held_reported(samples: Map<Key, Value>, updates: Seq<UpdateView>, i: int)
    requires
        0 <= i < updates.len(),
        forall|j: int|
            0 <= j < updates.len() && j != i ==> (#[trigger] updates[j]).key != updates[i].key,
        samples.contains_key(updates[i].key),
        samples[updates[i].key] is Reading,
        updates[i].change matches Change::Raise(v) && v.less_than(
            samples[updates[i].key]->Reading_0,
        ),
    ensures
        exists|k: int|
            {
                &&& 0 <= k < all_held(samples, updates).len()
                &&& (#[trigger] all_held(samples, updates)[k]).key == updates[i].key
                &&& all_held(samples, updates)[k].current == samples[updates[i].key]->Reading_0
                &&& all_held(samples, updates)[k].incoming == updates[i].change->Raise_0
            },
    decreases updates.len(),
{
    let fewer = updates.drop_last();
    let key = updates[i].key;
    let before = all_held(samples, fewer);
    let own = held_by(all_applied(samples, fewer), updates.last());
    let all = all_held(samples, updates);
    assert(all == before + own);
    if i < updates.len() - 1 {
        assert(fewer[i] == updates[i]);
        assert forall|j: int| 0 <= j < fewer.len() && j != i implies (#[trigger] fewer[j]).key
            != fewer[i].key by {
            assert(updates[j].key != key);
        }
        lemma_held_reported(samples, fewer, i);
        let k = choose|k: int|
            {
                &&& 0 <= k < before.len()
                &&& (#[trigger] before[k]).key == key
                &&& before[k].current == samples[key]->Reading_0
                &&& before[k].incoming == updates[i].change->Raise_0
            };
        assert(all[k] == before[k]);
    } else {
        assert forall|j: int| 0 <= j < fewer.len() implies (#[trigger] fewer[j]).key != key by {
            assert(updates[j].key != key);
        }
        lemma_untouched(samples, fewer, key);
        let h = HeldView {
            key,
            current: samples[key]->Reading_0,
            incoming: updates[i].change->Raise_0,
        };
        assert(sample_at(all_applied(samples, fewer), key) == sample_at(samples, key));
        assert(own =~= seq![h]);
        assert(all[before.len() as int] == h);
    }
}

/// Nothing is reported as held back but values that are below what is kept, or
/// no numbers, each from a change that was to raise its sample to it.
pub proof fn lemma_only_held_reported(samples: Map<Key, Value>, updates: Seq<UpdateView>, k: int)
    requires
        0 <= k < all_held(samples, updates).len(),
    ensures
        ({
            let held = all_held(samples, updates)[k];
            &&& held.incoming.is_nan() || held.incoming.less_than(held.current)
            &&& exists|i: int|
                0 <= i < updates.len() && (#[trigger] updates[i]).key == held.key
                    && updates[i].change == Change::Raise(held.incoming)
        }),
    decreases updates.len(),
{
    let fewer = updates.drop_last();
    let before = all_held(samples, fewer);
    let all = all_held(samples, updates);
    if k < before.len() {
        lemma_only_held_reported(samples, fewer, k);
        assert(all[k] == before[k]);
        let i = choose|i: int|
            0 <= i < fewer.len() && (#[trigger] fewer[i]).key == before[k].key && fewer[i].change
                == Change::Raise(before[k].incoming);
        assert(updates[i] == fewer[i]);
    } else {
        assert(updates[updates.len() - 1] == updates.last());
    }
}

/// At first the count of logins is published, and it is zero; nothing else is.
pub proof fn lemma_at_first(key: Key)
    ensures
        initial_samples().contains_key(key) <==> key.0 == Series::PortalLogin && key.1.len() == 0,
        initial_samples().contains_key(key) ==> initial_samples()[key] == Value::Count(0),
{
    if key.1.len() == 0 {
        assert(key.1 =~= LabelTexts::empty());
    }
}

/// A counter that one growth alone names is the sum of what it was, or of zero
/// where there was none, and the amount.
pub proof fn lemma_growth_adds<F: Fn(Reading, Reading) -> Reading>(
    plus: F,
    samples: Map<Key, Value>,
    series: Series,
    growths: Seq<GrowthView>,
    i: int,
    x: Reading,
)
    requires
        is_addition(plus),
        0 <= i < growths.len(),
        forall|a: int, b: int|
            0 <= a < b < growths.len() ==> (#[trigger] growths[a]).labels != (
            #[trigger] growths[b]).labels,
        plus.ensures(
            (
                if samples.contains_key((series, growths[i].labels)) && samples[(
                    series,
                    growths[i].labels,
                )] is Reading {
                    samples[(series, growths[i].labels)]->Reading_0
                } else {
                    Reading { bits: 0 }
                },
                growths[i].amount,
            ),
            x,
        ),
    ensures
        all_grown(plus, samples, series, growths).contains_pair(
            (series, growths[i].labels),
            Value::Reading(x),
        ),
{
    let key = (series, growths[i].labels);
    let after = all_grown(plus, samples, series, growths);
    lemma_grown_once(plus, samples, series, growths, i);
    lemma_sum(plus, reading_or_zero(sample_at(samples, key)), growths[i].amount, x);
    assert(sample_at(after, key) == Some(Value::Reading(x)));
}

/// Growths of a series change neither other series nor labels that they do not
/// name.
pub proof fn lemma_growth_moves_nothing_else<F: Fn(Reading, Reading) -> Reading>(
    plus: F,
    samples: Map<Key, Value>,
    series: Series,
    growths: Seq<GrowthView>,
    key: Key,
)
    requires
        key.0 != series || forall|i: int|
            0 <= i < growths.len() ==> (#[trigger] growths[i]).labels != key.1,
    ensures
        all_grown(plus, samples, series, growths).contains_key(key) == samples.contains_key(key),
        samples.contains_key(key) ==> all_grown(plus, samples, series, growths)[key]
            == samples[key],
{
    lemma_not_grown(plus, samples, series, growths, key);
    assert(sample_at(all_grown(plus, samples, series, growths), key) == sample_at(samples, key));
}

/// Growths made in two goes come to the same as all of them in one.
pub proof fn lemma_grown_in_two<F: Fn(Reading, Reading) -> Reading>(
    plus: F,
    samples: Map<Key, Value>,
    series: Series,
    first: Seq<GrowthView>,
    second: Seq<GrowthView>,
)
    ensures
        all_grown(plus, samples, series, first + second) == all_grown(
            plus,
            all_grown(plus, samples, series, first),
            series,
            second,
        ),
    decreases second.len(),
{
    if second.len() == 0 {
        assert(first + second =~= first);
    } else {
        lemma_grown_in_two(plus, samples, series, first, second.drop_last());
        assert((first + second).drop_last() =~= first + second.drop_last());
        assert((first + second).last() == second.last());
    }
}

/// A counter that one growth alone names, between others, grows by its amount.
pub proof fn lemma_grown_alone<F: Fn(Reading, Reading) -> Reading>(
    plus: F,
    samples: Map<Key, Value>,
    series: Series,
    head: Seq<GrowthView>,
    g: GrowthView,
    tail: Seq<GrowthView>,
)
    requires
        lists::each(head, |h: GrowthView| h.labels != g.labels),
        lists::each(tail, |h: GrowthView| h.labels != g.labels),
    ensures
        sample_at(all_grown(plus, samples, series, head + seq![g] + tail), (series, g.labels))
            == Some(
            Value::Reading(
                sum(plus, reading_or_zero(sample_at(samples, (series, g.labels))), g.amount),
            ),
        ),
{
    let key = (series, g.labels);
    let p = |h: GrowthView| h.labels != g.labels;
    assert forall|i: int| 0 <= i < head.len() implies (series, (#[trigger] head[i]).labels)
        != key by {
        assert(p(head[i]));
    }
    assert forall|i: int| 0 <= i < tail.len() implies (series, (#[trigger] tail[i]).labels)
        != key by {
        assert(p(tail[i]));
    }
    lemma_not_grown(plus, samples, series, head, key);
    assert((head + seq![g]).drop_last() =~= head);
    lemma_grown_in_two(plus, samples, series, head + seq![g], tail);
    lemma_not_grown(plus, all_grown(plus, samples, series, head + seq![g]), series, tail, key);
}

/// True where a sample has a value after some changes; where there is none to
/// have, it is what it was before, or absent as it was.
pub open spec fn shows(
    before: Map<Key, Value>,
    after: Map<Key, Value>,
    key: Key,
    value: Option<Value>,
) -> bool {
    match value {
        Some(v) => after.contains_key(key) && after[key] == v,
        None => {
            &&& after.contains_key(key) == before.contains_key(key)
            &&& before.contains_key(key) ==> after[key] == before[key]
        },
    }
}

/// True where a lifetime total is the higher one of what it was, or of zero
/// where there was none, and a value; where there is no value, or one that is no
/// number, it is what it was before, or absent as it was.
pub open spec fn shows_highest(
    before: Map<Key, Value>,
    after: Map<Key, Value>,
    key: Key,
    value: Option<Reading>,
) -> bool {
    let current = if before.contains_key(key) && before[key] is Reading {
        before[key]->Reading_0
    } else {
        Reading { bits: 0 }
    };
    if value is None || value->0.is_nan() {
        shows(before, after, key, None)
    } else {
        &&& after.contains_key(key)
        &&& current.less_than(value->0) ==> after[key] == Value::Reading(value->0)
        &&& value->0.less_than(current) ==> after[key] == Value::Reading(current)
        &&& after[key] matches Value::Reading(x) && !x.less_than(value->0) && !x.less_than(current)
    }
}

/// True where a count is higher by a number, from zero where there was none; by
/// none, it is what it was before, or absent as it was.
pub open spec fn shows_more(
    before: Map<Key, Value>,
    after: Map<Key, Value>,
    key: Key,
    more: nat,
) -> bool {
    let count: int = if before.contains_key(key) && before[key] is Count {
        before[key]->Count_0 as int
    } else {
        0
    };
    if more == 0 {
        shows(before, after, key, None)
    } else {
        shows(
            before,
            after,
            key,
            Some(Value::Count(((count + more) % 0x1_0000_0000_0000_0000) as u64)),
        )
    }
}

/// Events that are counted one by one are counted all.
pub proof fn lemma_counted_all(
    samples: Map<Key, Value>,
    updates: Seq<UpdateView>,
    key: Key,
)
    requires
        forall|i: int|
            0 <= i < updates.len() && (#[trigger] updates[i]).key == key ==> updates[i].change
                == Change::Count(1),
    ensures
        shows_more(
            samples,
            all_applied(samples, updates),
            key,
            lists::how_many(updates, |u: UpdateView| u.key == key),
        ),
    decreases updates.len(),
{
    let p = |u: UpdateView| u.key == key;
    if updates.len() > 0 {
        let fewer = updates.drop_last();
        assert forall|i: int| 0 <= i < fewer.len() && (#[trigger] fewer[i]).key == key implies
            fewer[i].change == Change::Count(1) by {
            assert(updates[i] == fewer[i]);
        }
        lemma_counted_all(samples, fewer, key);
        assert(updates[updates.len() - 1] == updates.last());
        let before = all_applied(samples, fewer);
        let n = lists::how_many(fewer, p);
        let count: int = if samples.contains_key(key) && samples[key] is Count {
            samples[key]->Count_0 as int
        } else {
            0
        };
        if updates.last().key == key {
            assert(lists::how_many(updates, p) == n + 1);
            if n > 0 {
                let c = ((count + n) % 0x1_0000_0000_0000_0000) as u64;
                assert(before[key] == Value::Count(c));
                assert(c.wrapping_add(1) as int == (count + n + 1) % 0x1_0000_0000_0000_0000);
            } else {
                assert(count_or_zero(sample_at(before, key)) == count);
                assert((count as u64).wrapping_add(1) as int == (count + 1)
                    % 0x1_0000_0000_0000_0000);
            }
        }
    }
}

/// The labels of an optimizer, of a kind of data, of a battery, of a meter and of
/// an endpoint are these, each with its own value, in this order.
pub proof fn lemma_label_pairs(
    optimizer: &OptimizerLabels,
    kind: &RefreshKind,
    battery: &BatteryLabels,
    meter: &MeterLabels,
    endpoint: &MonitoringEndpoint,
    a: Vec<(String, String)>,
    b: Vec<(String, String)>,
    c: Vec<(String, String)>,
    d: Vec<(String, String)>,
    e: Vec<(String, String)>,
)
    requires
        call_ensures(OptimizerLabels::pairs, (optimizer,), a),
        call_ensures(RefreshKind::pairs, (kind,), b),
        call_ensures(BatteryLabels::pairs, (battery,), c),
        call_ensures(MeterLabels::pairs, (meter,), d),
        call_ensures(MonitoringEndpoint::pairs, (endpoint,), e),
    ensures
        a@.len() == 4,
        a@[0].0@ == "optimizer"@ && a@[0].1@ == optimizer.optimizer@,
        a@[1].0@ == "display_name"@ && a@[1].1@ == optimizer.display_name@,
        a@[2].0@ == "inverter"@ && a@[2].1@ == optimizer.inverter@,
        a@[3].0@ == "field"@ && a@[3].1@ == optimizer.field@,
        b@.len() == 1,
        b@[0].0@ == "kind"@ && b@[0].1@ == kind.kind@,
        c@.len() == 2,
        c@[0].0@ == "battery"@ && c@[0].1@ == battery.battery@,
        c@[1].0@ == "model"@ && c@[1].1@ == battery.model@,
        d@.len() == 3,
        d@[0].0@ == "meter"@ && d@[0].1@ == meter.meter@,
        d@[1].0@ == "inverter"@ && d@[1].1@ == meter.inverter@,
        d@[2].0@ == "type"@ && d@[2].1@ == meter.meter_type@,
        e@.len() == 1,
        e@[0].0@ == "endpoint"@ && e@[0].1@ == endpoint.endpoint@,
{
    let (v, w, x) = (label_texts(a@), label_texts(b@), label_texts(c@));
    let (y, z) = (label_texts(d@), label_texts(e@));
    assert(v.len() == a@.len() && w.len() == b@.len() && x.len() == c@.len());
    assert(y.len() == d@.len() && z.len() == e@.len());
    assert(v[0] == (a@[0].0@, a@[0].1@) && v[1] == (a@[1].0@, a@[1].1@));
    assert(v[2] == (a@[2].0@, a@[2].1@) && v[3] == (a@[3].0@, a@[3].1@));
    assert(w[0] == (b@[0].0@, b@[0].1@));
    assert(x[0] == (c@[0].0@, c@[0].1@) && x[1] == (c@[1].0@, c@[1].1@));
    assert(y[0] == (d@[0].0@, d@[0].1@) && y[1] == (d@[1].0@, d@[1].1@));
    assert(y[2] == (d@[2].0@, d@[2].1@));
    assert(z[0] == (e@[0].0@, e@[0].1@));
}

/// What is told of held values, and by how much counters grow, is told of the
/// sample with the labels at hand, one for one.
pub proof fn lemma_told_as_texts(held: Seq<Held>, growths: Seq<Growth>, i: int, k: int)
    requires
        0 <= i < held.len(),
        0 <= k < growths.len(),
    ensures
        held_views(held).len() == held.len(),
        held_views(held)[i].key == (held[i].series, label_texts(held[i].labels@)),
        held_views(held)[i].current == held[i].current,
        held_views(held)[i].incoming == held[i].incoming,
        growth_views(growths).len() == growths.len(),
        growth_views(growths)[k].labels == label_texts(growths[k].labels@),
        growth_views(growths)[k].amount == growths[k].amount,
{
}

/// A sample is found by its series and all of its labels, names and values.
pub proof fn lemma_found_by(sample: Sample, i: int)
    requires
        0 <= i < sample.labels@.len(),
    ensures
        sample.key().0 == sample.series,
        sample.key().1.len() == sample.labels@.len(),
        sample.key().1[i] == (sample.labels@[i].0@, sample.labels@[i].1@),
{
}

/// A sample that is looked up is the one of the series and the labels that are
/// asked for, and there is none exactly where nothing was published under them.
pub proof fn lemma_looked_up(
    published: &AppMetrics,
    series: Series,
    labels: &Vec<(String, String)>,
    r: Option<Value>,
)
    requires
        call_ensures(AppMetrics::get, (published, series, labels), r),
    ensures
        r is Some <==> published@.contains_key((series, label_texts(labels@))),
        r is Some ==> r->0 == published@[(series, label_texts(labels@))],
{
}

/// Every sample that is listed is one that is published, with its value, and
/// none is listed twice.
pub proof fn lemma_listed_once(published: &AppMetrics, all: &Vec<Sample>, i: int)
    requires
        call_ensures(AppMetrics::samples, (published,), all),
        0 <= i < all@.len(),
    ensures
        published@.contains_pair(all@[i].key(), all@[i].value),
        forall|j: int| 0 <= j < all@.len() && j != i ==> (#[trigger] all@[j]).key() != all@[i].key(),
{
    lemma_sample(all@, i);
    assert forall|j: int| 0 <= j < all@.len() && j != i implies (#[trigger] all@[j]).key()
        != all@[i].key() by {
        if j < i {
            assert(all@[j].key() != all@[i].key());
        } else {
            assert(all@[i].key() != all@[j].key());
        }
    }
}

/// A lifetime value that is set is never lowered: it takes a value that is a
/// number and not below it, and stays as it is otherwise, which is told.
pub proof fn lemma_lifetime_set(gauge: &mut Reading, value: Reading, held: bool)
    requires
        call_ensures(set_lifetime_monotonic, (gauge, value), held),
    ensures
        held ==> *final(gauge) == *old(gauge),
        !held ==> *final(gauge) == value,
        held <==> value.is_nan() || value.less_than(*old(gauge)),
        !final(gauge).less_than(*old(gauge)),
{
}

/// Changes that are committed change the samples that they name, and what they
/// hold back is told; a list of none changes nothing and tells nothing.
pub proof fn lemma_committed(published: &mut AppMetrics, updates: &Vec<Update>, held: Vec<Held>)
    requires
        call_ensures(AppMetrics::commit, (published, updates), held),
    ensures
        final(published)@ == all_applied(old(published)@, update_views(updates@)),
        held_views(held@) == all_held(old(published)@, update_views(updates@)),
        updates@.len() == 0 ==> final(published)@ == old(published)@ && held@.len() == 0,
        forall|key: Key|
            (forall|i: int|
                0 <= i < updates@.len() ==> (#[trigger] updates@[i])@.key != key) ==> #[trigger] shows(
                old(published)@,
                final(published)@,
                key,
                None,
            ),
{
    let all = update_views(updates@);
    assert(all.len() == updates@.len());
    assert(held_views(held@).len() == held@.len());
    assert forall|key: Key|
        (forall|i: int|
            0 <= i < updates@.len() ==> (#[trigger] updates@[i])@.key != key) implies #[trigger] shows(
        old(published)@,
        final(published)@,
        key,
        None,
    ) by {
        assert forall|i: int| 0 <= i < all.len() implies (#[trigger] all[i]).key != key by {
            assert(updates@[i]@.key != key);
        }
        lemma_nothing_else_changes(old(published)@, all, key);
    }
}

/// Counters that grow change the samples of their series and their labels, and
/// no others.
pub proof fn lemma_grown_only<F: Fn(Reading, Reading) -> Reading>(
    published: &mut AppMetrics,
    series: Series,
    growths: &Vec<Growth>,
    plus: &F,
    key: Key,
)
    requires
        is_addition(*plus),
        call_ensures(AppMetrics::grow::<F>, (published, series, growths, plus), ()),
        key.0 != series || forall|i: int|
            0 <= i < growths@.len() ==> label_texts((#[trigger] growths@[i]).labels@) != key.1,
    ensures
        shows(old(published)@, final(published)@, key, None),
{
    let all = growth_views(growths@);
    assert(all.len() == growths@.len());
    if key.0 == series {
        assert forall|i: int| 0 <= i < all.len() implies (#[trigger] all[i]).labels != key.1 by {
            assert(label_texts(growths@[i].labels@) != key.1);
        }
    }
    lemma_growth_moves_nothing_else(*plus, old(published)@, series, all, key);
}

} // verus!
