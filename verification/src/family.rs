//! One metric family: a name, help text, kind, declared label names, and
//! the current series, each a vector of label values with a sample.
//!
//! The abstract contents are a sequence of rows in insertion order; setting
//! a labeled value replaces the first row with that key or appends a new
//! one, and incrementing a counter adds to the held value with saturation.
//! Label names are kept in the order the rendered exposition format wants
//! them (sorted by name), so label value vectors follow that same order.

use crate::sample::SampleValue;
use vstd::prelude::*;

verus! {

/// A labeled metric family.
#[derive(Debug)]
pub struct Family {
    pub name: String,
    pub help: String,
    /// True for a counter family, false for a gauge family.
    pub counter: bool,
    pub label_names: Vec<String>,
    pub series: Vec<(Vec<String>, SampleValue)>,
}

/// Saturating addition on counter values.
pub open spec fn sat_add_u64(a: u64, b: u64) -> u64 {
    if a + b > u64::MAX {
        u64::MAX
    } else {
        (a + b) as u64
    }
}

/// The counter value after an increment: added with saturation to a held
/// counter, and starting from the increment alone otherwise.
pub open spec fn bump_value(v: SampleValue, d: u64) -> SampleValue {
    match v {
        SampleValue::Counter(u) => SampleValue::Counter(sat_add_u64(u, d)),
        _ => SampleValue::Counter(d),
    }
}

/// Rows after setting `k` to `v`: the first row keyed `k` is replaced in
/// place, or a fresh row is appended.
pub open spec fn spec_set(
    rows: Seq<(Seq<Seq<char>>, SampleValue)>,
    k: Seq<Seq<char>>,
    v: SampleValue,
) -> Seq<(Seq<Seq<char>>, SampleValue)>
    decreases rows.len(),
{
    if rows.len() == 0 {
        seq![(k, v)]
    } else if rows[0].0 == k {
        seq![(k, v)] + rows.drop_first()
    } else {
        seq![rows[0]] + spec_set(rows.drop_first(), k, v)
    }
}

/// Rows after incrementing the counter keyed `k` by `d`.
pub open spec fn spec_inc(
    rows: Seq<(Seq<Seq<char>>, SampleValue)>,
    k: Seq<Seq<char>>,
    d: u64,
) -> Seq<(Seq<Seq<char>>, SampleValue)>
    decreases rows.len(),
{
    if rows.len() == 0 {
        seq![(k, SampleValue::Counter(d))]
    } else if rows[0].0 == k {
        seq![(k, bump_value(rows[0].1, d))] + rows.drop_first()
    } else {
        seq![rows[0]] + spec_inc(rows.drop_first(), k, d)
    }
}

/// The sample held for key `k`, if any; keyed by the first matching row.
pub open spec fn lookup(
    rows: Seq<(Seq<Seq<char>>, SampleValue)>,
    k: Seq<Seq<char>>,
) -> Option<SampleValue>
    decreases rows.len(),
{
    if rows.len() == 0 {
        None
    } else if rows[0].0 == k {
        Some(rows[0].1)
    } else {
        lookup(rows.drop_first(), k)
    }
}

/// Setting a key makes it the held value of exactly that key.
pub proof fn lemma_lookup_set(
    rows: Seq<(Seq<Seq<char>>, SampleValue)>,
    k: Seq<Seq<char>>,
    v: SampleValue,
    q: Seq<Seq<char>>,
)
    ensures
        lookup(spec_set(rows, k, v), q) == if q == k {
            Some(v)
        } else {
            lookup(rows, q)
        },
    decreases rows.len(),
{
    if rows.len() == 0 {
        reveal_with_fuel(lookup, 2);
        assert(seq![(k, v)].drop_first() =~= Seq::<(Seq<Seq<char>>, SampleValue)>::empty());
    } else if rows[0].0 == k {
        assert((seq![(k, v)] + rows.drop_first()).drop_first() =~= rows.drop_first());
        assert((seq![(k, v)] + rows.drop_first())[0] == (k, v));
    } else {
        lemma_lookup_set(rows.drop_first(), k, v, q);
        assert((seq![rows[0]] + spec_set(rows.drop_first(), k, v))[0] == rows[0]);
        assert((seq![rows[0]] + spec_set(rows.drop_first(), k, v)).drop_first() =~= spec_set(
            rows.drop_first(),
            k,
            v,
        ));
    }
}

pub proof fn lemma_spec_set_found(
    rows: Seq<(Seq<Seq<char>>, SampleValue)>,
    k: Seq<Seq<char>>,
    v: SampleValue,
    i: int,
)
    requires
        0 <= i < rows.len(),
        rows[i].0 == k,
        forall|j: int| 0 <= j < i ==> (#[trigger] rows[j]).0 != k,
    ensures
        spec_set(rows, k, v) == rows.update(i, (k, v)),
    decreases i,
{
    if i == 0 {
        assert(spec_set(rows, k, v) =~= rows.update(0, (k, v)));
    } else {
        assert(rows[0].0 != k);
        assert(forall|j: int|
            0 <= j < i - 1 ==> (#[trigger] rows.drop_first()[j]).0 == rows[j + 1].0);
        lemma_spec_set_found(rows.drop_first(), k, v, i - 1);
        assert(spec_set(rows, k, v) =~= rows.update(i, (k, v)));
    }
}

pub proof fn lemma_spec_set_absent(
    rows: Seq<(Seq<Seq<char>>, SampleValue)>,
    k: Seq<Seq<char>>,
    v: SampleValue,
)
    requires
        forall|j: int| 0 <= j < rows.len() ==> (#[trigger] rows[j]).0 != k,
    ensures
        spec_set(rows, k, v) == rows.push((k, v)),
    decreases rows.len(),
{
    if rows.len() == 0 {
        assert(spec_set(rows, k, v) =~= rows.push((k, v)));
    } else {
        assert(forall|j: int|
            0 <= j < rows.drop_first().len() ==> (#[trigger] rows.drop_first()[j]).0 == rows[j
                + 1].0);
        lemma_spec_set_absent(rows.drop_first(), k, v);
        assert(spec_set(rows, k, v) =~= rows.push((k, v)));
    }
}

pub proof fn lemma_spec_inc_found(
    rows: Seq<(Seq<Seq<char>>, SampleValue)>,
    k: Seq<Seq<char>>,
    d: u64,
    i: int,
)
    requires
        0 <= i < rows.len(),
        rows[i].0 == k,
        forall|j: int| 0 <= j < i ==> (#[trigger] rows[j]).0 != k,
    ensures
        spec_inc(rows, k, d) == rows.update(i, (k, bump_value(rows[i].1, d))),
    decreases i,
{
    if i == 0 {
        assert(spec_inc(rows, k, d) =~= rows.update(0, (k, bump_value(rows[0].1, d))));
    } else {
        assert(rows[0].0 != k);
        assert(forall|j: int|
            0 <= j < i - 1 ==> (#[trigger] rows.drop_first()[j]).0 == rows[j + 1].0);
        lemma_spec_inc_found(rows.drop_first(), k, d, i - 1);
        assert(spec_inc(rows, k, d) =~= rows.update(i, (k, bump_value(rows[i].1, d))));
    }
}

pub proof fn lemma_spec_inc_absent(
    rows: Seq<(Seq<Seq<char>>, SampleValue)>,
    k: Seq<Seq<char>>,
    d: u64,
)
    requires
        forall|j: int| 0 <= j < rows.len() ==> (#[trigger] rows[j]).0 != k,
    ensures
        spec_inc(rows, k, d) == rows.push((k, SampleValue::Counter(d))),
    decreases rows.len(),
{
    if rows.len() == 0 {
        assert(spec_inc(rows, k, d) =~= rows.push((k, SampleValue::Counter(d))));
    } else {
        assert(forall|j: int|
            0 <= j < rows.drop_first().len() ==> (#[trigger] rows.drop_first()[j]).0 == rows[j
                + 1].0);
        lemma_spec_inc_absent(rows.drop_first(), k, d);
        assert(spec_inc(rows, k, d) =~= rows.push((k, SampleValue::Counter(d))));
    }
}

/// The two families carry the same name, help, kind and label names.
pub open spec fn same_header(a: Family, b: Family) -> bool {
    &&& a.name == b.name
    &&& a.help == b.help
    &&& a.counter == b.counter
    &&& a.label_names == b.label_names
}

/// The label value vectors agree element by element.
fn labels_eq(a: &Vec<String>, b: &Vec<String>) -> (r: bool)
    ensures
        r == (a.deep_view() == b.deep_view()),
{
    if a.len() != b.len() {
        proof {
            assert(a.deep_view().len() == a@.len());
            assert(b.deep_view().len() == b@.len());
        }
        return false;
    }
    let mut i: usize = 0;
    while i < a.len()
        invariant
            i <= a.len(),
            a@.len() == b@.len(),
            forall|j: int| 0 <= j < i ==> a@[j]@ == b@[j]@,
        decreases a.len() - i,
    {
        if !(a[i] == b[i]) {
            proof {
                assert(a.deep_view()[i as int] == a@[i as int]@);
                assert(b.deep_view()[i as int] == b@[i as int]@);
            }
            return false;
        }
        i += 1;
    }
    proof {
        assert(a.deep_view() =~= b.deep_view());
    }
    true
}

impl Family {
    /// The abstract contents: the label values and sample of each series,
    /// in insertion order.
    pub open spec fn rows(&self) -> Seq<(Seq<Seq<char>>, SampleValue)> {
        Seq::new(self.series@.len(), |i: int| (self.series@[i].0.deep_view(), self.series@[i].1))
    }

    /// Every row has one label value per declared label name, and holds a
    /// well-formed sample.
    pub open spec fn wf(&self) -> bool {
        forall|i: int|
            0 <= i < self.rows().len() ==> (#[trigger] self.rows()[i]).0.len()
                == self.label_names@.len() && self.rows()[i].1.wf()
    }

    /// A fresh, empty family.
    pub fn new_family(name: &str, help: &str, counter: bool, label_names: Vec<String>) -> (r:
        Family)
        ensures
            r.name@ == name@,
            r.help@ == help@,
            r.counter == counter,
            r.label_names == label_names,
            r.rows() =~= Seq::<(Seq<Seq<char>>, SampleValue)>::empty(),
            r.wf(),
    {
        let f = Family {
            name: name.to_owned(),
            help: help.to_owned(),
            counter,
            label_names,
            series: Vec::new(),
        };
        proof {
            assert(f.rows() =~= Seq::<(Seq<Seq<char>>, SampleValue)>::empty());
        }
        f
    }

    /// Removes every series; the header is kept.
    pub fn reset(&mut self)
        ensures
            same_header(*old(self), *final(self)),
            final(self).rows() =~= Seq::<(Seq<Seq<char>>, SampleValue)>::empty(),
            final(self).wf(),
    {
        self.series.clear();
    }

    /// Sets the value for a label combination, replacing the first row with
    /// that key or appending a new one.
    pub fn set(&mut self, labels: Vec<String>, v: SampleValue)
        requires
            old(self).wf(),
            labels@.len() == old(self).label_names@.len(),
            v.wf(),
        ensures
            same_header(*old(self), *final(self)),
            final(self).wf(),
            final(self).rows() == spec_set(old(self).rows(), labels.deep_view(), v),
    {
        let ghost k = labels.deep_view();
        proof {
            assert(k.len() == labels@.len());
        }
        let mut i: usize = 0;
        while i < self.series.len()
            invariant
                i <= self.series.len(),
                *self == *old(self),
                old(self).wf(),
                labels@.len() == old(self).label_names@.len(),
                v.wf(),
                k == labels.deep_view(),
                forall|j: int| 0 <= j < i ==> (#[trigger] old(self).rows()[j]).0 != k,
            decreases self.series.len() - i,
        {
            if labels_eq(&self.series[i].0, &labels) {
                proof {
                    assert(old(self).rows()[i as int].0 == self.series@[i as int].0.deep_view());
                }
                self.series[i] = (labels, v);
                proof {
                    lemma_spec_set_found(old(self).rows(), k, v, i as int);
                    assert(final(self).rows() =~= old(self).rows().update(i as int, (k, v)));
                    assert forall|j: int| 0 <= j < final(self).rows().len() implies (
                    #[trigger] final(self).rows()[j]).0.len() == final(self).label_names@.len()
                        && final(self).rows()[j].1.wf() by {
                        if j != i as int {
                            assert(final(self).rows()[j] == old(self).rows()[j]);
                            assert(old(self).wf());
                        } else {
                            assert(final(self).rows()[j] == (k, v));
                        }
                    }
                }
                return ;
            }
            i += 1;
        }
        self.series.push((labels, v));
        proof {
            lemma_spec_set_absent(old(self).rows(), k, v);
            assert(final(self).rows() =~= old(self).rows().push((k, v)));
        }
    }

    /// Adds to the counter held for a label combination, with saturation;
    /// a missing combination starts from the increment.
    pub fn inc(&mut self, labels: Vec<String>, d: u64)
        requires
            old(self).wf(),
            labels@.len() == old(self).label_names@.len(),
        ensures
            same_header(*old(self), *final(self)),
            final(self).wf(),
            final(self).rows() == spec_inc(old(self).rows(), labels.deep_view(), d),
    {
        let ghost k = labels.deep_view();
        let mut i: usize = 0;
        while i < self.series.len()
            invariant
                i <= self.series.len(),
                *self == *old(self),
                old(self).wf(),
                labels@.len() == old(self).label_names@.len(),
                k == labels.deep_view(),
                forall|j: int| 0 <= j < i ==> (#[trigger] old(self).rows()[j]).0 != k,
            decreases self.series.len() - i,
        {
            if labels_eq(&self.series[i].0, &labels) {
                proof {
                    assert(old(self).rows()[i as int].0 == self.series@[i as int].0.deep_view());
                }
                let cur = self.series[i].1;
                let nv = match cur {
                    SampleValue::Counter(u) => {
                        if u > u64::MAX - d {
                            SampleValue::Counter(u64::MAX)
                        } else {
                            SampleValue::Counter(u + d)
                        }
                    },
                    _ => SampleValue::Counter(d),
                };
                proof {
                    assert(nv == bump_value(old(self).rows()[i as int].1, d));
                }
                self.series[i] = (labels, nv);
                proof {
                    lemma_spec_inc_found(old(self).rows(), k, d, i as int);
                    assert(final(self).rows() =~= old(self).rows().update(i as int, (k, nv)));
                    assert(k.len() == labels@.len());
                    assert forall|j: int| 0 <= j < final(self).rows().len() implies (
                    #[trigger] final(self).rows()[j]).0.len() == final(self).label_names@.len()
                        && final(self).rows()[j].1.wf() by {
                        if j != i as int {
                            assert(final(self).rows()[j] == old(self).rows()[j]);
                            assert(old(self).wf());
                        } else {
                            assert(final(self).rows()[j] == (k, nv));
                        }
                    }
                }
                return ;
            }
            i += 1;
        }
        self.series.push((labels, SampleValue::Counter(d)));
        proof {
            lemma_spec_inc_absent(old(self).rows(), k, d);
            assert(final(self).rows() =~= old(self).rows().push((k, SampleValue::Counter(d))));
        }
    }
}

} // verus!
