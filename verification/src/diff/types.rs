//! Result types of the semantic diff.

use vstd::prelude::*;

use crate::model::common::{
    same_optional_real, same_points, ObjectId, Point, Real, Rotation, Size,
};
use crate::model::pcb::{BoardEdge, SpecBoardEdge};
use crate::model::schematic::LabelKind;
use crate::model::source::SourceRef;

verus! {

#[derive(Clone, Copy, Debug, PartialEq, Eq, Structural)]
pub enum ChangeKind {
    Added,
    Removed,
    Modified,
    Unchanged,
}

/// How an object of the earlier revision was paired with one of the later.
#[derive(Clone, Copy, Debug, PartialEq, Eq, Structural)]
pub enum MatchMethod {
    ObjectId,
    Reference,
    Name,
}

/// The value of one compared field of a canonical object.
#[derive(Clone, Debug)]
pub enum FieldValue {
    Text(String),
    OptionalText(Option<String>),
    Count(u32),
    Flag(bool),
    Position(Point),
    Angle(Rotation),
    Extent(Size),
    Length(Real),
    OptionalLength(Option<Real>),
    Texts(Vec<String>),
    OptionalId(Option<ObjectId>),
    Points(Vec<Point>),
    Label(LabelKind),
    Edge(BoardEdge),
}

pub enum SpecFieldValue {
    Text(Seq<char>),
    OptionalText(Option<Seq<char>>),
    Count(u32),
    Flag(bool),
    Position(Point),
    Angle(Rotation),
    Extent(Size),
    Length(Real),
    OptionalLength(Option<Real>),
    Texts(Seq<Seq<char>>),
    OptionalId(Option<Seq<char>>),
    Points(Seq<Point>),
    Label(LabelKind),
    Edge(SpecBoardEdge),
}

impl View for FieldValue {
    type V = SpecFieldValue;

    open spec fn view(&self) -> SpecFieldValue {
        match self {
            FieldValue::Text(v) => SpecFieldValue::Text(v@),
            FieldValue::OptionalText(v) => SpecFieldValue::OptionalText(v.deep_view()),
            FieldValue::Count(v) => SpecFieldValue::Count(*v),
            FieldValue::Flag(v) => SpecFieldValue::Flag(*v),
            FieldValue::Position(v) => SpecFieldValue::Position(*v),
            FieldValue::Angle(v) => SpecFieldValue::Angle(*v),
            FieldValue::Extent(v) => SpecFieldValue::Extent(*v),
            FieldValue::Length(v) => SpecFieldValue::Length(*v),
            FieldValue::OptionalLength(v) => SpecFieldValue::OptionalLength(*v),
            FieldValue::Texts(v) => SpecFieldValue::Texts(v.deep_view()),
            FieldValue::OptionalId(v) => SpecFieldValue::OptionalId(
                crate::model::pcb::id_view(*v),
            ),
            FieldValue::Points(v) => SpecFieldValue::Points(v@),
            FieldValue::Label(v) => SpecFieldValue::Label(*v),
            FieldValue::Edge(v) => SpecFieldValue::Edge(v@),
        }
    }
}

/// Two board edges are of the same kind, with the same identifier and source
/// and equal coordinates.
pub open spec fn same_edge(a: SpecBoardEdge, b: SpecBoardEdge) -> bool {
    match (a, b) {
        (
            SpecBoardEdge::Line { id: i1, start: s1, end: e1, source: r1 },
            SpecBoardEdge::Line { id: i2, start: s2, end: e2, source: r2 },
        ) => i1 == i2 && s1.same(s2) && e1.same(e2) && r1 == r2,
        (
            SpecBoardEdge::Arc { id: i1, start: s1, mid: m1, end: e1, source: r1 },
            SpecBoardEdge::Arc { id: i2, start: s2, mid: m2, end: e2, source: r2 },
        ) => i1 == i2 && s1.same(s2) && m1.same(m2) && e1.same(e2) && r1 == r2,
        _ => false,
    }
}

/// Two field values are equal (numbers compared as numbers).
pub open spec fn same_value(a: SpecFieldValue, b: SpecFieldValue) -> bool {
    match (a, b) {
        (SpecFieldValue::Text(x), SpecFieldValue::Text(y)) => x == y,
        (SpecFieldValue::OptionalText(x), SpecFieldValue::OptionalText(y)) => x == y,
        (SpecFieldValue::Count(x), SpecFieldValue::Count(y)) => x == y,
        (SpecFieldValue::Flag(x), SpecFieldValue::Flag(y)) => x == y,
        (SpecFieldValue::Position(x), SpecFieldValue::Position(y)) => x.same(y),
        (SpecFieldValue::Angle(x), SpecFieldValue::Angle(y)) => x.same(y),
        (SpecFieldValue::Extent(x), SpecFieldValue::Extent(y)) => x.same(y),
        (SpecFieldValue::Length(x), SpecFieldValue::Length(y)) => x.same(y),
        (SpecFieldValue::OptionalLength(x), SpecFieldValue::OptionalLength(y)) =>
            same_optional_real(x, y),
        (SpecFieldValue::Texts(x), SpecFieldValue::Texts(y)) => x == y,
        (SpecFieldValue::OptionalId(x), SpecFieldValue::OptionalId(y)) => x == y,
        (SpecFieldValue::Points(x), SpecFieldValue::Points(y)) => same_points(x, y),
        (SpecFieldValue::Label(x), SpecFieldValue::Label(y)) => x == y,
        (SpecFieldValue::Edge(x), SpecFieldValue::Edge(y)) => same_edge(x, y),
        _ => false,
    }
}

/// A field whose value differs between the two revisions of an object.
#[derive(Clone, Debug)]
pub struct FieldChange {
    pub field: String,
    pub before: FieldValue,
    pub after: FieldValue,
}

pub struct SpecFieldChange {
    pub field: Seq<char>,
    pub before: SpecFieldValue,
    pub after: SpecFieldValue,
}

impl View for FieldChange {
    type V = SpecFieldChange;

    open spec fn view(&self) -> SpecFieldChange {
        SpecFieldChange { field: self.field@, before: self.before@, after: self.after@ }
    }
}

/// The report on one object: added, removed, or compared with its partner.
#[derive(Clone, Debug)]
pub struct ObjectChange {
    pub object_type: String,
    pub display_name: Option<String>,
    pub before_id: Option<ObjectId>,
    pub after_id: Option<ObjectId>,
    pub kind: ChangeKind,
    pub match_method: Option<MatchMethod>,
    pub fields: Vec<FieldChange>,
}

pub struct SpecObjectChange {
    pub object_type: Seq<char>,
    pub display_name: Option<Seq<char>>,
    pub before_id: Option<Seq<char>>,
    pub after_id: Option<Seq<char>>,
    pub kind: ChangeKind,
    pub match_method: Option<MatchMethod>,
    pub fields: Seq<SpecFieldChange>,
}

pub open spec fn field_views(fields: Seq<FieldChange>) -> Seq<SpecFieldChange> {
    fields.map_values(|f: FieldChange| f@)
}

impl View for ObjectChange {
    type V = SpecObjectChange;

    open spec fn view(&self) -> SpecObjectChange {
        SpecObjectChange {
            object_type: self.object_type@,
            display_name: self.display_name.deep_view(),
            before_id: crate::model::pcb::id_view(self.before_id),
            after_id: crate::model::pcb::id_view(self.after_id),
            kind: self.kind,
            match_method: self.match_method,
            fields: field_views(self.fields@),
        }
    }
}

pub open spec fn change_views(changes: Seq<ObjectChange>) -> Seq<SpecObjectChange> {
    changes.map_values(|c: ObjectChange| c@)
}

/// An object of the later revision that has no partner in the earlier one.
pub open spec fn spec_added(
    object_type: Seq<char>,
    display_name: Option<Seq<char>>,
    after_id: Seq<char>,
) -> SpecObjectChange {
    SpecObjectChange {
        object_type,
        display_name,
        before_id: None,
        after_id: Some(after_id),
        kind: ChangeKind::Added,
        match_method: None,
        fields: seq![],
    }
}

/// An object of the earlier revision that has no partner in the later one.
pub open spec fn spec_removed(
    object_type: Seq<char>,
    display_name: Option<Seq<char>>,
    before_id: Seq<char>,
) -> SpecObjectChange {
    SpecObjectChange {
        object_type,
        display_name,
        before_id: Some(before_id),
        after_id: None,
        kind: ChangeKind::Removed,
        match_method: None,
        fields: seq![],
    }
}

/// A pair of objects: modified when some field differs, unchanged otherwise.
pub open spec fn spec_compared(
    object_type: Seq<char>,
    display_name: Option<Seq<char>>,
    before_id: Seq<char>,
    after_id: Seq<char>,
    match_method: MatchMethod,
    fields: Seq<SpecFieldChange>,
) -> SpecObjectChange {
    SpecObjectChange {
        object_type,
        display_name,
        before_id: Some(before_id),
        after_id: Some(after_id),
        kind: if fields.len() == 0 {
            ChangeKind::Unchanged
        } else {
            ChangeKind::Modified
        },
        match_method: Some(match_method),
        fields,
    }
}

impl ObjectChange {
    pub fn added(object_type: &str, display_name: Option<String>, after_id: ObjectId) -> (change:
        ObjectChange)
        ensures
            change@ == spec_added(object_type@, display_name.deep_view(), after_id@),
    {
        let change = ObjectChange {
            object_type: String::from_str(object_type),
            display_name,
            before_id: None,
            after_id: Some(after_id),
            kind: ChangeKind::Added,
            match_method: None,
            fields: Vec::new(),
        };
        assert(field_views(change.fields@) =~= seq![]);
        change
    }

    pub fn removed(object_type: &str, display_name: Option<String>, before_id: ObjectId) -> (change:
        ObjectChange)
        ensures
            change@ == spec_removed(object_type@, display_name.deep_view(), before_id@),
    {
        let change = ObjectChange {
            object_type: String::from_str(object_type),
            display_name,
            before_id: Some(before_id),
            after_id: None,
            kind: ChangeKind::Removed,
            match_method: None,
            fields: Vec::new(),
        };
        assert(field_views(change.fields@) =~= seq![]);
        change
    }

    pub fn compared(
        object_type: &str,
        display_name: Option<String>,
        before_id: ObjectId,
        after_id: ObjectId,
        match_method: MatchMethod,
        fields: Vec<FieldChange>,
    ) -> (change: ObjectChange)
        ensures
            change@ == spec_compared(
                object_type@,
                display_name.deep_view(),
                before_id@,
                after_id@,
                match_method,
                field_views(fields@),
            ),
    {
        let kind = if fields.len() == 0 {
            ChangeKind::Unchanged
        } else {
            ChangeKind::Modified
        };
        ObjectChange {
            object_type: String::from_str(object_type),
            display_name,
            before_id: Some(before_id),
            after_id: Some(after_id),
            kind,
            match_method: Some(match_method),
            fields,
        }
    }
}

/// How many reports of each kind a diff holds.
#[derive(Clone, Copy, Debug, Default, PartialEq, Eq, Structural)]
pub struct DiffSummary {
    pub added: usize,
    pub removed: usize,
    pub modified: usize,
    pub unchanged: usize,
}

/// How many of the first `n` reports are of kind `kind`.
pub open spec fn kind_count(changes: Seq<SpecObjectChange>, kind: ChangeKind, n: int) -> nat
    decreases n,
{
    if n <= 0 {
        0
    } else {
        kind_count(changes, kind, n - 1) + if changes[n - 1].kind == kind {
            1nat
        } else {
            0nat
        }
    }
}

/// The summary of a list of reports.
pub open spec fn summary_of(changes: Seq<SpecObjectChange>) -> DiffSummary {
    let n = changes.len() as int;
    DiffSummary {
        added: kind_count(changes, ChangeKind::Added, n) as usize,
        removed: kind_count(changes, ChangeKind::Removed, n) as usize,
        modified: kind_count(changes, ChangeKind::Modified, n) as usize,
        unchanged: kind_count(changes, ChangeKind::Unchanged, n) as usize,
    }
}

proof fn lemma_kind_counts(changes: Seq<SpecObjectChange>, n: int)
    requires
        0 <= n <= changes.len(),
    ensures
        kind_count(changes, ChangeKind::Added, n) + kind_count(changes, ChangeKind::Removed, n)
            + kind_count(changes, ChangeKind::Modified, n) + kind_count(
            changes,
            ChangeKind::Unchanged,
            n,
        ) == n,
    decreases n,
{
    if n > 0 {
        lemma_kind_counts(changes, n - 1);
    }
}

/// The four counts of the summary of a list of reports add up to the number
/// of reports: every report is counted once, under its own kind.
pub proof fn lemma_summary_total(changes: Seq<SpecObjectChange>)
    requires
        changes.len() <= usize::MAX,
    ensures
        summary_of(changes).added + summary_of(changes).removed + summary_of(changes).modified
            + summary_of(changes).unchanged == changes.len(),
{
    lemma_kind_counts(changes, changes.len() as int);
}

pub(crate) proof fn lemma_kind_count_prefix(a: Seq<SpecObjectChange>, b: Seq<SpecObjectChange>, kind: ChangeKind, n: int)
    requires
        0 <= n <= a.len(),
        n <= b.len(),
        forall|i: int| 0 <= i < n ==> a[i] == b[i],
    ensures
        kind_count(a, kind, n) == kind_count(b, kind, n),
    decreases n,
{
    if n > 0 {
        lemma_kind_count_prefix(a, b, kind, n - 1);
    }
}

pub(crate) proof fn lemma_kind_count_concat(a: Seq<SpecObjectChange>, b: Seq<SpecObjectChange>, kind: ChangeKind, m: int)
    requires
        0 <= m <= b.len(),
    ensures
        kind_count(a + b, kind, a.len() + m) == kind_count(a, kind, a.len() as int) + kind_count(
            b,
            kind,
            m,
        ),
    decreases m,
{
    if m > 0 {
        lemma_kind_count_concat(a, b, kind, m - 1);
        assert((a + b)[a.len() + m - 1] == b[m - 1]);
    } else {
        lemma_kind_count_prefix(a + b, a, kind, a.len() as int);
    }
}

proof fn lemma_kind_count_single(c: SpecObjectChange, kind: ChangeKind)
    ensures
        kind_count(seq![c], kind, 1) == if c.kind == kind {
            1nat
        } else {
            0nat
        },
{
    reveal_with_fuel(kind_count, 2);
    assert(seq![c][0] == c);
}

/// Removing a report takes it out of the count of its kind.
proof fn lemma_kind_count_remove(s: Seq<SpecObjectChange>, i: int, kind: ChangeKind)
    requires
        0 <= i < s.len(),
    ensures
        kind_count(s, kind, s.len() as int) == kind_count(
            s.remove(i),
            kind,
            s.len() - 1,
        ) + if s[i].kind == kind {
            1nat
        } else {
            0nat
        },
{
    let front = s.take(i);
    let back = s.skip(i + 1);
    assert(s =~= front + seq![s[i]] + back);
    assert(s.remove(i) =~= front + back);
    lemma_kind_count_concat(front + seq![s[i]], back, kind, back.len() as int);
    lemma_kind_count_concat(front, seq![s[i]], kind, 1);
    lemma_kind_count_single(s[i], kind);
    lemma_kind_count_concat(front, back, kind, back.len() as int);
}

proof fn lemma_kind_count_multiset(a: Seq<SpecObjectChange>, b: Seq<SpecObjectChange>, kind: ChangeKind)
    requires
        a.to_multiset() == b.to_multiset(),
    ensures
        kind_count(a, kind, a.len() as int) == kind_count(b, kind, b.len() as int),
    decreases a.len(),
{
    broadcast use vstd::seq_lib::group_to_multiset_ensures, vstd::multiset::group_multiset_axioms;

    a.to_multiset_ensures();
    b.to_multiset_ensures();
    if a.len() > 0 {
        let x = a.last();
        let rest = a.drop_last();
        assert(a =~= rest.push(x));
        rest.to_multiset_ensures();
        assert(a.to_multiset() =~= rest.to_multiset().insert(x));
        assert(a.to_multiset().count(x) > 0);
        assert(b.contains(x));
        let i = b.index_of(x);
        assert(b.remove(i).to_multiset() =~= b.to_multiset().remove(x));
        assert(rest.to_multiset() =~= a.to_multiset().remove(x));
        lemma_kind_count_multiset(rest, b.remove(i), kind);
        lemma_kind_count_remove(b, i, kind);
        lemma_kind_count_prefix(a, rest, kind, rest.len() as int);
        assert(a.len() == b.len());
    } else {
        assert(b.to_multiset().len() == 0);
    }
}

/// The summary of two lists of reports, one after the other, is the sum of
/// their summaries.
pub proof fn lemma_summary_concat(a: Seq<SpecObjectChange>, b: Seq<SpecObjectChange>)
    requires
        a.len() + b.len() <= usize::MAX,
    ensures
        summary_of(a + b) == (DiffSummary {
            added: (summary_of(a).added + summary_of(b).added) as usize,
            removed: (summary_of(a).removed + summary_of(b).removed) as usize,
            modified: (summary_of(a).modified + summary_of(b).modified) as usize,
            unchanged: (summary_of(a).unchanged + summary_of(b).unchanged) as usize,
        }),
{
    lemma_kind_counts(a, a.len() as int);
    lemma_kind_counts(b, b.len() as int);
    lemma_kind_count_concat(a, b, ChangeKind::Added, b.len() as int);
    lemma_kind_count_concat(a, b, ChangeKind::Removed, b.len() as int);
    lemma_kind_count_concat(a, b, ChangeKind::Modified, b.len() as int);
    lemma_kind_count_concat(a, b, ChangeKind::Unchanged, b.len() as int);
}

/// The summary of no reports counts nothing.
pub proof fn lemma_summary_empty()
    ensures
        summary_of(Seq::<SpecObjectChange>::empty()) == (DiffSummary {
            added: 0,
            removed: 0,
            modified: 0,
            unchanged: 0,
        }),
{
}

/// The summary does not depend on the order of the reports: two lists that
/// hold the same reports, each as often, have the same summary.
pub proof fn lemma_summary_permutation(a: Seq<SpecObjectChange>, b: Seq<SpecObjectChange>)
    requires
        a.to_multiset() == b.to_multiset(),
    ensures
        summary_of(a) == summary_of(b),
{
    lemma_kind_count_multiset(a, b, ChangeKind::Added);
    lemma_kind_count_multiset(a, b, ChangeKind::Removed);
    lemma_kind_count_multiset(a, b, ChangeKind::Modified);
    lemma_kind_count_multiset(a, b, ChangeKind::Unchanged);
}

impl DiffSummary {
    pub fn from_changes(changes: &[ObjectChange]) -> (summary: DiffSummary)
        ensures
            summary == summary_of(change_views(changes@)),
    {
        let ghost views = change_views(changes@);
        let mut summary = DiffSummary { added: 0, removed: 0, modified: 0, unchanged: 0 };
        let mut i: usize = 0;
        while i < changes.len()
            invariant
                i <= changes@.len(),
                views == change_views(changes@),
                summary.added == kind_count(views, ChangeKind::Added, i as int),
                summary.removed == kind_count(views, ChangeKind::Removed, i as int),
                summary.modified == kind_count(views, ChangeKind::Modified, i as int),
                summary.unchanged == kind_count(views, ChangeKind::Unchanged, i as int),
            decreases changes@.len() - i,
        {
            proof {
                lemma_kind_counts(views, i as int);
            }
            match changes[i].kind {
                ChangeKind::Added => summary.added = summary.added + 1,
                ChangeKind::Removed => summary.removed = summary.removed + 1,
                ChangeKind::Modified => summary.modified = summary.modified + 1,
                ChangeKind::Unchanged => summary.unchanged = summary.unchanged + 1,
            }
            i = i + 1;
        }
        summary
    }
}

/// A complete diff: the reports and their summary.
#[derive(Clone, Debug)]
pub struct DiffReport {
    pub summary: DiffSummary,
    pub changes: Vec<ObjectChange>,
}

pub struct SpecDiffReport {
    pub summary: DiffSummary,
    pub changes: Seq<SpecObjectChange>,
}

impl View for DiffReport {
    type V = SpecDiffReport;

    open spec fn view(&self) -> SpecDiffReport {
        SpecDiffReport { summary: self.summary, changes: change_views(self.changes@) }
    }
}

/// The report of a list of reports.
pub open spec fn spec_report(changes: Seq<SpecObjectChange>) -> SpecDiffReport {
    SpecDiffReport { summary: summary_of(changes), changes }
}

impl DiffReport {
    pub fn new(changes: Vec<ObjectChange>) -> (report: DiffReport)
        ensures
            report@ == spec_report(change_views(changes@)),
    {
        let summary = DiffSummary::from_changes(changes.as_slice());
        DiffReport { summary, changes }
    }
}

// ---------------------------------------------------------------------------
// Field comparison.

/// The field change reported for field `name` with values `a` and `b`: none
/// when they are equal.
pub open spec fn field_check(name: Seq<char>, a: SpecFieldValue, b: SpecFieldValue) -> Seq<
    SpecFieldChange,
> {
    if same_value(a, b) {
        seq![]
    } else {
        seq![SpecFieldChange { field: name, before: a, after: b }]
    }
}

fn same_text_list(a: &Vec<String>, b: &Vec<String>) -> (r: bool)
    ensures
        r == (a.deep_view() == b.deep_view()),
{
    if a.len() != b.len() {
        assert(a.deep_view().len() != b.deep_view().len());
        return false;
    }
    let mut i: usize = 0;
    while i < a.len()
        invariant
            i <= a@.len(),
            a@.len() == b@.len(),
            forall|x: int| 0 <= x < i ==> a@[x]@ == b@[x]@,
        decreases a@.len() - i,
    {
        if a[i] != b[i] {
            assert(a.deep_view()[i as int] != b.deep_view()[i as int]);
            return false;
        }
        i = i + 1;
    }
    assert(a.deep_view() =~= b.deep_view());
    true
}

fn same_optional_text(a: &Option<String>, b: &Option<String>) -> (r: bool)
    ensures
        r == (a.deep_view() == b.deep_view()),
{
    match (a, b) {
        (Some(x), Some(y)) => *x == *y,
        (None, None) => true,
        _ => false,
    }
}

fn same_optional_id(a: &Option<ObjectId>, b: &Option<ObjectId>) -> (r: bool)
    ensures
        r == (crate::model::pcb::id_view(*a) == crate::model::pcb::id_view(*b)),
{
    match (a, b) {
        (Some(x), Some(y)) => x.0 == y.0,
        (None, None) => true,
        _ => false,
    }
}

fn same_point(a: &Point, b: &Point) -> (r: bool)
    ensures
        r == a.same(*b),
{
    a.x_mm.equals(&b.x_mm) && a.y_mm.equals(&b.y_mm)
}

fn same_point_list(a: &Vec<Point>, b: &Vec<Point>) -> (r: bool)
    ensures
        r == same_points(a@, b@),
{
    if a.len() != b.len() {
        return false;
    }
    let mut i: usize = 0;
    while i < a.len()
        invariant
            i <= a@.len(),
            a@.len() == b@.len(),
            forall|x: int| 0 <= x < i ==> (#[trigger] a@[x]).same(b@[x]),
        decreases a@.len() - i,
    {
        if !same_point(&a[i], &b[i]) {
            return false;
        }
        i = i + 1;
    }
    true
}

fn same_source(a: &SourceRef, b: &SourceRef) -> (r: bool)
    ensures
        r == (a@ == b@),
{
    a.format == b.format && a.file_path == b.file_path && same_optional_text(
        &a.native_id,
        &b.native_id,
    )
}

fn same_board_edge(a: &BoardEdge, b: &BoardEdge) -> (r: bool)
    ensures
        r == same_edge(a@, b@),
{
    match (a, b) {
        (
            BoardEdge::Line { id: i1, start: s1, end: e1, source: r1 },
            BoardEdge::Line { id: i2, start: s2, end: e2, source: r2 },
        ) => i1.0 == i2.0 && same_point(s1, s2) && same_point(e1, e2) && same_source(r1, r2),
        (
            BoardEdge::Arc { id: i1, start: s1, mid: m1, end: e1, source: r1 },
            BoardEdge::Arc { id: i2, start: s2, mid: m2, end: e2, source: r2 },
        ) => i1.0 == i2.0 && same_point(s1, s2) && same_point(m1, m2) && same_point(e1, e2)
            && same_source(r1, r2),
        _ => false,
    }
}

/// Whether two field values are equal (numbers compared as numbers).
pub fn same_field_value(a: &FieldValue, b: &FieldValue) -> (r: bool)
    ensures
        r == same_value(a@, b@),
{
    match (a, b) {
        (FieldValue::Text(x), FieldValue::Text(y)) => *x == *y,
        (FieldValue::OptionalText(x), FieldValue::OptionalText(y)) => same_optional_text(x, y),
        (FieldValue::Count(x), FieldValue::Count(y)) => *x == *y,
        (FieldValue::Flag(x), FieldValue::Flag(y)) => *x == *y,
        (FieldValue::Position(x), FieldValue::Position(y)) => same_point(x, y),
        (FieldValue::Angle(x), FieldValue::Angle(y)) => x.degrees.equals(&y.degrees),
        (FieldValue::Extent(x), FieldValue::Extent(y)) => x.width_mm.equals(&y.width_mm)
            && x.height_mm.equals(&y.height_mm),
        (FieldValue::Length(x), FieldValue::Length(y)) => x.equals(y),
        (FieldValue::OptionalLength(x), FieldValue::OptionalLength(y)) => match (x, y) {
            (Some(p), Some(q)) => p.equals(q),
            (None, None) => true,
            _ => false,
        },
        (FieldValue::Texts(x), FieldValue::Texts(y)) => same_text_list(x, y),
        (FieldValue::OptionalId(x), FieldValue::OptionalId(y)) => same_optional_id(x, y),
        (FieldValue::Points(x), FieldValue::Points(y)) => same_point_list(x, y),
        (FieldValue::Label(x), FieldValue::Label(y)) => *x == *y,
        (FieldValue::Edge(x), FieldValue::Edge(y)) => same_board_edge(x, y),
        _ => false,
    }
}

/// Appends a change of field `name` to `fields` when `before` and `after` differ.
pub fn field(name: &str, before: FieldValue, after: FieldValue, fields: &mut Vec<FieldChange>)
    ensures
        field_views(final(fields)@) == field_views(old(fields)@) + field_check(
            name@,
            before@,
            after@,
        ),
{
    if same_field_value(&before, &after) {
        assert(field_views(fields@) =~= field_views(old(fields)@) + seq![]);
        return ;
    }
    fields.push(FieldChange { field: String::from_str(name), before, after });
    assert(field_views(fields@) =~= field_views(old(fields)@) + field_check(
        name@,
        before@,
        after@,
    ));
}

// ---------------------------------------------------------------------------
// Display names.

/// `Some(value)` unless `value` is empty.
pub open spec fn non_empty_text(value: Seq<char>) -> Option<Seq<char>> {
    if value.len() == 0 {
        None
    } else {
        Some(value)
    }
}

/// The first of two optional texts that is present.
pub open spec fn first_present(a: Option<Seq<char>>, b: Option<Seq<char>>) -> Option<Seq<char>> {
    match a {
        Some(x) => Some(x),
        None => b,
    }
}

/// The text of `value`, unless it is empty.
pub fn non_empty(value: &str) -> (r: Option<String>)
    ensures
        r.deep_view() == non_empty_text(value@),
{
    if value.is_empty() {
        None
    } else {
        Some(value.to_owned())
    }
}

/// The first of two optional texts that is present.
pub fn or_else_text(a: Option<String>, b: Option<String>) -> (r: Option<String>)
    ensures
        r.deep_view() == first_present(a.deep_view(), b.deep_view()),
{
    match a {
        Some(x) => Some(x),
        None => b,
    }
}

/// Appends one report to a list of reports.
pub fn push_change(changes: &mut Vec<ObjectChange>, change: ObjectChange)
    ensures
        change_views(final(changes)@) == change_views(old(changes)@) + seq![change@],
{
    let ghost c = change@;
    changes.push(change);
    assert(change_views(changes@) =~= change_views(old(changes)@) + seq![c]);
}

} // verus!
