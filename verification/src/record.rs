//! Count records: the counts of one source, or the running total of several.

use vstd::prelude::*;
use crate::decimal::{column, push_column};

verus! {

/// The mathematical value of a count record: a label and, for each metric, a
/// count where the metric is present.
pub struct Counts {
    pub label: Seq<char>,
    pub bytes: Option<nat>,
    pub lines: Option<nat>,
    pub words: Option<nat>,
    pub chars: Option<nat>,
}

/// The sum of two counts of one metric. A count that is absent adds nothing:
/// the sum is absent only where both are.
pub open spec fn sum_field(own: Option<nat>, other: Option<nat>) -> Option<nat> {
    match other {
        Some(n) => Some(
            (match own {
                Some(m) => m,
                None => 0,
            }) + n,
        ),
        None => own,
    }
}

/// A count as it stands in a line: its column and one space after it, or
/// nothing where the count is absent.
pub open spec fn field_text(count: Option<nat>) -> Seq<char> {
    match count {
        Some(n) => column(n).push(' '),
        None => Seq::empty(),
    }
}

/// Whether a count, where present, fits in `usize`.
pub open spec fn field_fits(count: Option<nat>) -> bool {
    match count {
        Some(n) => n <= usize::MAX,
        None => true,
    }
}

impl Counts {
    /// The record with this label and no metric present.
    pub open spec fn empty(label: Seq<char>) -> Counts {
        Counts { label, bytes: None, lines: None, words: None, chars: None }
    }

    /// This record after `other` was added to it: each metric is summed, and
    /// the label stays.
    pub open spec fn plus(self, other: Counts) -> Counts {
        Counts {
            label: self.label,
            bytes: sum_field(self.bytes, other.bytes),
            lines: sum_field(self.lines, other.lines),
            words: sum_field(self.words, other.words),
            chars: sum_field(self.chars, other.chars),
        }
    }

    /// Whether every count that is present fits in `usize`.
    pub open spec fn fits(self) -> bool {
        &&& field_fits(self.bytes)
        &&& field_fits(self.lines)
        &&& field_fits(self.words)
        &&& field_fits(self.chars)
    }

    /// Whether two records have the same metrics present.
    pub open spec fn same_presence(self, other: Counts) -> bool {
        &&& self.bytes is Some <==> other.bytes is Some
        &&& self.lines is Some <==> other.lines is Some
        &&& self.words is Some <==> other.words is Some
        &&& self.chars is Some <==> other.chars is Some
    }

    /// The line that shows this record: the counts that are present, in the
    /// order lines, words, bytes, characters, each in its column and followed
    /// by one space, and then the label. With no count present that is the
    /// label alone.
    pub open spec fn line(self) -> Seq<char> {
        field_text(self.lines) + field_text(self.words) + field_text(self.bytes) + field_text(
            self.chars,
        ) + self.label
    }
}

/// The sum of the records of `records`, added in their order to the empty
/// record labelled `label`.
pub open spec fn total_of(label: Seq<char>, records: Seq<Counts>) -> Counts
    decreases records.len(),
{
    if records.len() == 0 {
        Counts::empty(label)
    } else {
        total_of(label, records.drop_last()).plus(records.last())
    }
}

/// Adding is associative.
pub proof fn lemma_plus_associative(a: Counts, b: Counts, c: Counts)
    ensures
        a.plus(b).plus(c) == a.plus(b.plus(c)),
{
}

/// Adding is commutative in the counts: the two orders differ in the label
/// alone, which is that of the record added to.
pub proof fn lemma_plus_commutative(a: Counts, b: Counts)
    ensures
        a.plus(b) == (Counts { label: a.label, ..b.plus(a) }),
{
}

/// Adding keeps the metrics that both records have: where the two have the
/// same metrics present, so has their sum.
pub proof fn lemma_plus_presence(a: Counts, b: Counts)
    requires
        a.same_presence(b),
    ensures
        a.plus(b).same_presence(a),
{
}

/// The empty record is neutral: added to another record, or another added to
/// it, it changes no count.
pub proof fn lemma_plus_empty(a: Counts, label: Seq<char>)
    ensures
        a.plus(Counts::empty(label)) == a,
        Counts::empty(label).plus(a) == (Counts { label, ..a }),
{
}

/// The total of records that all have the same metrics present has those
/// metrics present, and no other.
pub proof fn lemma_total_of_presence(label: Seq<char>, records: Seq<Counts>)
    requires
        records.len() > 0,
        forall|i: int| 0 <= i < records.len() ==> (#[trigger] records[i]).same_presence(records[0]),
    ensures
        total_of(label, records).same_presence(records[0]),
    decreases records.len(),
{
    let front = records.drop_last();
    if front.len() == 0 {
        assert(total_of(label, front) == Counts::empty(label));
    } else {
        assert forall|i: int| 0 <= i < front.len() implies (#[trigger] front[i]).same_presence(
            front[0],
        ) by {
            assert(front[i] == records[i]);
        }
        lemma_total_of_presence(label, front);
    }
    assert(records.last() == records[records.len() - 1]);
}

/// The total of a sequence followed by another is the total of the first
/// with the total of the second added.
pub proof fn lemma_total_of_concat(label: Seq<char>, first: Seq<Counts>, second: Seq<Counts>)
    ensures
        total_of(label, first + second) == total_of(label, first).plus(total_of(label, second)),
    decreases second.len(),
{
    if second.len() == 0 {
        assert(first + second =~= first);
    } else {
        assert((first + second).drop_last() =~= first + second.drop_last());
        lemma_total_of_concat(label, first, second.drop_last());
        lemma_plus_associative(
            total_of(label, first),
            total_of(label, second.drop_last()),
            second.last(),
        );
    }
}

/// The total does not depend on the order: two sequences that hold the same
/// records, each as often as the other, have the same total.
pub proof fn lemma_total_of_any_order(label: Seq<char>, first: Seq<Counts>, second: Seq<Counts>)
    requires
        first.to_multiset() == second.to_multiset(),
    ensures
        total_of(label, first) == total_of(label, second),
    decreases first.len(),
{
    first.to_multiset_ensures();
    second.to_multiset_ensures();
    if first.len() == 0 {
        assert(second.len() == 0);
    } else {
        let x = first.last();
        assert(first.contains(x));
        assert(first.to_multiset().count(x) > 0);
        assert(second.contains(x));
        let i = second.index_of(x);
        let before = second.take(i);
        let after = second.skip(i + 1);
        let rest = before + after;
        assert(second =~= before + seq![x] + after);
        assert(second.remove(i) =~= rest);
        assert(first.drop_last() =~= first.remove(first.len() - 1));
        assert(first.drop_last().to_multiset() == first.to_multiset().remove(x));
        assert(rest.to_multiset() == second.to_multiset().remove(x));
        lemma_total_of_any_order(label, first.drop_last(), rest);
        lemma_total_of_concat(label, before, after);
        lemma_total_of_concat(label, before, seq![x] + after);
        lemma_total_of_concat(label, seq![x], after);
        assert(before + (seq![x] + after) =~= second);
        let t_before = total_of(label, before);
        let t_after = total_of(label, after);
        let t_x = total_of(label, seq![x]);
        assert(t_x == Counts::empty(label).plus(x)) by {
            assert(seq![x].drop_last() =~= Seq::<Counts>::empty());
            assert(total_of(label, seq![x].drop_last()) == Counts::empty(label));
        }
        assert(total_of(label, first) == t_before.plus(t_after).plus(x));
        assert(total_of(label, second) == t_before.plus(t_x.plus(t_after)));
        assert(t_before.plus(t_after).plus(x) == t_before.plus(t_x.plus(t_after)));
    }
}

/// The counts of one source, or the running total of several. A metric is
/// present where it was asked for.
#[derive(Debug)]
pub struct WcResult {
    pub label: String,
    pub bytes: Option<usize>,
    pub lines: Option<usize>,
    pub words: Option<usize>,
    pub chars: Option<usize>,
}

/// The mathematical value of a count that is held in `usize`.
pub open spec fn field_view(count: Option<usize>) -> Option<nat> {
    match count {
        Some(n) => Some(n as nat),
        None => None,
    }
}

impl View for WcResult {
    type V = Counts;

    open spec fn view(&self) -> Counts {
        Counts {
            label: self.label@,
            bytes: field_view(self.bytes),
            lines: field_view(self.lines),
            words: field_view(self.words),
            chars: field_view(self.chars),
        }
    }
}

fn field_can_add(own: Option<usize>, other: Option<usize>) -> (fits: bool)
    ensures
        fits == field_fits(sum_field(field_view(own), field_view(other))),
{
    match (own, other) {
        (Some(m), Some(n)) => m.checked_add(n).is_some(),
        _ => true,
    }
}

fn field_add(own: Option<usize>, other: Option<usize>) -> (sum: Option<usize>)
    requires
        field_fits(sum_field(field_view(own), field_view(other))),
    ensures
        field_view(sum) == sum_field(field_view(own), field_view(other)),
{
    match other {
        Some(n) => Some(n + own.unwrap_or(0)),
        None => own,
    }
}

fn push_field(out: &mut String, count: Option<usize>)
    ensures
        final(out)@ == old(out)@ + field_text(field_view(count)),
{
    match count {
        Some(n) => {
            push_column(out, n);
            proof {
                reveal_strlit(" ");
            }
            out.append(" ");
            assert(out@ =~= old(out)@ + field_text(field_view(count)));
        },
        None => {
            assert(out@ =~= old(out)@ + field_text(field_view(count)));
        },
    }
}

impl WcResult {
    /// The record with this label and no metric present.
    pub fn new(label: String) -> (record: WcResult)
        ensures
            record@ == Counts::empty(label@),
    {
        WcResult { label, bytes: None, lines: None, words: None, chars: None }
    }

    /// Whether `other` can be added to this record: whether every sum fits
    /// in `usize`.
    pub fn can_add(&self, other: &Self) -> (fits: bool)
        ensures
            fits == self@.plus(other@).fits(),
    {
        field_can_add(self.bytes, other.bytes) && field_can_add(self.lines, other.lines)
            && field_can_add(self.words, other.words) && field_can_add(self.chars, other.chars)
    }

    /// Adds `other` to this record. Each metric that `other` has is added to
    /// the count here, which starts at zero where it was absent; a metric
    /// that `other` lacks stays as it is.
    pub fn add(&mut self, other: &Self)
        requires
            old(self)@.plus(other@).fits(),
        ensures
            final(self)@ == old(self)@.plus(other@),
    {
        self.bytes = field_add(self.bytes, other.bytes);
        self.chars = field_add(self.chars, other.chars);
        self.words = field_add(self.words, other.words);
        self.lines = field_add(self.lines, other.lines);
    }

    /// Adds `other` to this record if every sum fits in `usize`, and says
    /// whether it did. Where one does not fit, the record stays as it is.
    pub fn checked_add(&mut self, other: &Self) -> (added: bool)
        ensures
            added == old(self)@.plus(other@).fits(),
            added ==> final(self)@ == old(self)@.plus(other@),
            !added ==> *final(self) == *old(self),
    {
        if self.can_add(other) {
            self.add(other);
            true
        } else {
            false
        }
    }

    /// The line that shows this record.
    pub fn format(&self) -> (line: String)
        ensures
            line@ == self@.line(),
    {
        let mut line = String::new();
        push_field(&mut line, self.lines);
        push_field(&mut line, self.words);
        push_field(&mut line, self.bytes);
        push_field(&mut line, self.chars);
        line.append(self.label.as_str());
        assert(line@ =~= self@.line());
        line
    }
}

} // verus!
