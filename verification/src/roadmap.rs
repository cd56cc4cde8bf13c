use vstd::prelude::*;
use vstd::string::StringExecFns;
use crate::models::{Feature, Quarter, QuarterView, quarter_name};
use crate::text::{dec_digits, u64_to_decimal, usize_to_decimal};
use crate::templates::{get_template, template_titles, template_length};
use crate::dialogs::{FeatureDialogState, dialog_feature};
use crate::text::trim_seq;

verus! {

/// Which dialog the roadmap window shows.
#[derive(Debug, PartialEq, Eq, Structural)]
pub enum DialogState {
    Closed,
    AddFeature { quarter_idx: usize },
    EditFeature { quarter_idx: usize, feature_idx: usize },
    EditStatus { quarter_idx: usize, feature_idx: usize },
}

/// The roadmap being edited: its quarters, the file it was read from or saved to, the status
/// line, and the open dialog.
#[derive(Debug)]
pub struct RoadmapApp {
    pub quarters: Vec<Quarter>,
    pub current_file: Option<String>,
    pub status_text: String,
    pub dialog_state: DialogState,
}

/// The quarters as plain values.
pub open spec fn quarters_view(qs: Seq<Quarter>) -> Seq<QuarterView> {
    qs.map_values(|q: Quarter| q@)
}

/// The year after `year`; past the largest `u32` the count starts again at 0, as in a release
/// build.
pub open spec fn next_year(year: u32) -> u32 {
    if year == u32::MAX { 0 } else { (year + 1) as u32 }
}

/// The quarter after quarter `q`; past the largest `u32` the count starts again at 0.
pub open spec fn next_quarter_number(q: u32) -> u32 {
    if q == u32::MAX { 0 } else { (q + 1) as u32 }
}

/// The quarter that follows a quarter: the next one of the year, or the first of the next year.
pub open spec fn successor(year: u32, quarter: u32) -> (u32, u32) {
    if quarter == 4 { (next_year(year), 1) } else { (year, next_quarter_number(quarter)) }
}

/// An empty quarter as plain values.
pub open spec fn empty_quarter(year: u32, quarter: u32) -> QuarterView {
    QuarterView { year, quarter, features: Seq::empty() }
}

/// The quarter of the year a month falls in.
pub open spec fn quarter_of_month(month: u32) -> u32 {
    ((month - 1) / 3 + 1) as u32
}

/// The four quarters a new roadmap starts with: the current one and the three after it.
pub open spec fn initial_quarters(year: u32, month: u32) -> Seq<QuarterView> {
    Seq::new(4, |i: int| {
        let q = quarter_of_month(month) + i;
        if q > 4 { empty_quarter(next_year(year), (q - 4) as u32) } else { empty_quarter(year, q as u32) }
    })
}

fn add_one_year(year: u32) -> (r: u32)
    ensures
        r == next_year(year),
{
    if year == u32::MAX { 0 } else { year + 1 }
}

impl RoadmapApp {
    /// Appends the four quarters that start at the given date.
    pub fn initialize_quarters(&mut self, year: i32, month: u32)
        requires
            1 <= month <= 12,
        ensures
            quarters_view(final(self).quarters@) == quarters_view(old(self).quarters@)
                + initial_quarters(year as u32, month),
            final(self).status_text == old(self).status_text,
            final(self).current_file == old(self).current_file,
            final(self).dialog_state == old(self).dialog_state,
    {
        let current_year = year as u32;
        let current_quarter = (month - 1) / 3 + 1;
        let ghost start = quarters_view(self.quarters@);
        let mut i: u32 = 0;
        while i < 4
            invariant
                1 <= current_quarter <= 4,
                current_quarter == quarter_of_month(month),
                current_year == year as u32,
                i <= 4,
                quarters_view(self.quarters@) =~= start + initial_quarters(current_year, month).take(i as int),
                self.status_text == old(self).status_text,
                self.current_file == old(self).current_file,
                self.dialog_state == old(self).dialog_state,
            decreases 4 - i,
        {
            let mut q = current_quarter + i;
            let mut y = current_year;
            if q > 4 {
                q = q - 4;
                y = add_one_year(y);
            }
            let ghost before = self.quarters@;
            self.quarters.push(Quarter::new(y, q));
            assert(self.quarters@ =~= before.push(self.quarters@.last()));
            assert(self.quarters@.last()@ =~= initial_quarters(current_year, month)[i as int]);
            assert(quarters_view(self.quarters@) =~= quarters_view(before).push(initial_quarters(current_year, month)[i as int]));
            assert(initial_quarters(current_year, month).take(i + 1) =~= initial_quarters(current_year, month).take(i as int).push(initial_quarters(current_year, month)[i as int]));
            i = i + 1;
        }
        assert(initial_quarters(current_year, month).take(4) =~= initial_quarters(current_year, month));
    }
}


impl RoadmapApp {
    /// A new window as it opens on the given date (the clock's year and month): the four
    /// quarters from that date on, no file, status `Ready`, no dialog.
    pub fn starting_at(year: i32, month: u32) -> (r: Self)
        requires
            1 <= month <= 12,
        ensures
            quarters_view(r.quarters@) == initial_quarters(year as u32, month),
            r.current_file is None,
            r.status_text@ == "Ready"@,
            r.dialog_state == DialogState::Closed,
    {
        let mut app = RoadmapApp {
            quarters: Vec::new(),
            current_file: None,
            status_text: String::from_str("Ready"),
            dialog_state: DialogState::Closed,
        };
        let ghost empty = quarters_view(app.quarters@);
        assert(empty =~= Seq::<QuarterView>::empty());
        app.initialize_quarters(year, month);
        assert(empty + initial_quarters(year as u32, month) =~= initial_quarters(year as u32, month));
        app
    }
}

impl RoadmapApp {
    /// Appends the quarter after the last one; for an empty roadmap, the first quarter of
    /// `current_year`. The status line names the new quarter.
    pub fn add_quarter(&mut self, current_year: i32)
        ensures
            ({
                let (y, q) = if old(self).quarters@.len() > 0 {
                    successor(old(self).quarters@.last().year, old(self).quarters@.last().quarter)
                } else {
                    (current_year as u32, 1u32)
                };
                &&& quarters_view(final(self).quarters@) == quarters_view(old(self).quarters@).push(empty_quarter(y, q))
                &&& final(self).status_text@ == "Added "@ + quarter_name(y, q)
            }),
            final(self).current_file == old(self).current_file,
            final(self).dialog_state == old(self).dialog_state,
    {
        let (year, quarter): (u32, u32) = if self.quarters.len() > 0 {
            let last = &self.quarters[self.quarters.len() - 1];
            if last.quarter == 4 {
                (add_one_year(last.year), 1)
            } else if last.quarter == u32::MAX {
                (last.year, 0)
            } else {
                (last.year, last.quarter + 1)
            }
        } else {
            (current_year as u32, 1)
        };
        let q = Quarter::new(year, quarter);
        let mut status = String::from_str("Added ");
        let name = q.name();
        status.append(name.as_str());
        let ghost before = self.quarters@;
        self.quarters.push(q);
        assert(self.quarters@ =~= before.push(self.quarters@.last()));
        assert(self.quarters@.last()@ =~= empty_quarter(year, quarter));
        assert(quarters_view(self.quarters@) =~= quarters_view(before).push(empty_quarter(year, quarter)));
        self.status_text = status;
    }

    /// Drops the last quarter, saying so in the status line; an empty roadmap stays as it is.
    pub fn remove_quarter(&mut self)
        ensures
            old(self).quarters@.len() > 0 ==> quarters_view(final(self).quarters@) == quarters_view(old(self).quarters@.drop_last())
                && final(self).status_text@ == "Removed last quarter"@,
            old(self).quarters@.len() == 0 ==> final(self).quarters@ == old(self).quarters@
                && final(self).status_text == old(self).status_text,
            final(self).current_file == old(self).current_file,
            final(self).dialog_state == old(self).dialog_state,
    {
        if self.quarters.pop().is_some() {
            self.status_text = String::from_str("Removed last quarter");
        }
    }

    /// Drops the quarter at `index`, naming it in the status line; an index past the end
    /// changes nothing.
    pub fn remove_quarter_at(&mut self, index: usize)
        ensures
            index < old(self).quarters@.len() ==> quarters_view(final(self).quarters@)
                == quarters_view(old(self).quarters@.remove(index as int))
                && final(self).status_text@ == "Removed "@ + quarter_name(
                    old(self).quarters@[index as int].year,
                    old(self).quarters@[index as int].quarter,
                ),
            index >= old(self).quarters@.len() ==> final(self).quarters@ == old(self).quarters@
                && final(self).status_text == old(self).status_text,
            final(self).current_file == old(self).current_file,
            final(self).dialog_state == old(self).dialog_state,
    {
        if index < self.quarters.len() {
            let removed = self.quarters.remove(index);
            let mut status = String::from_str("Removed ");
            let name = removed.name();
            status.append(name.as_str());
            self.status_text = status;
        }
    }

    /// Drops every quarter.
    pub fn clear_all(&mut self)
        ensures
            final(self).quarters@.len() == 0,
            final(self).status_text@ == "Cleared all quarters"@,
            final(self).current_file == old(self).current_file,
            final(self).dialog_state == old(self).dialog_state,
    {
        self.quarters.clear();
        self.status_text = String::from_str("Cleared all quarters");
    }

    /// Starts a new roadmap: the four quarters from the given date (the clock's year and month)
    /// on, and no file yet.
    pub fn new_roadmap(&mut self, year: i32, month: u32)
        requires
            1 <= month <= 12,
        ensures
            quarters_view(final(self).quarters@) == initial_quarters(year as u32, month),
            final(self).current_file is None,
            final(self).status_text@ == "New roadmap created"@,
            final(self).dialog_state == old(self).dialog_state,
    {
        self.quarters.clear();
        self.current_file = None;
        let ghost empty = quarters_view(self.quarters@);
        assert(empty =~= Seq::<QuarterView>::empty());
        self.initialize_quarters(year, month);
        assert(empty + initial_quarters(year as u32, month) =~= initial_quarters(year as u32, month));
        self.status_text = String::from_str("New roadmap created");
    }

    /// Takes over a roadmap read from a file.
    pub fn opened(&mut self, path: String, quarters: Vec<Quarter>)
        ensures
            final(self).quarters@ == quarters@,
            final(self).current_file == Some(path),
            final(self).status_text@ == "Opened roadmap"@,
            final(self).dialog_state == old(self).dialog_state,
    {
        self.quarters = quarters;
        self.current_file = Some(path);
        self.status_text = String::from_str("Opened roadmap");
    }

    /// Records that the roadmap was saved to a file.
    pub fn saved(&mut self, path: String)
        ensures
            final(self).quarters@ == old(self).quarters@,
            final(self).current_file == Some(path),
            final(self).status_text@ == "Saved roadmap"@,
            final(self).dialog_state == old(self).dialog_state,
    {
        self.current_file = Some(path);
        self.status_text = String::from_str("Saved roadmap");
    }
}


/// The marker colors of template quarters, taken in turn.
pub open spec fn template_color(i: int) -> Seq<char> {
    let k = i % 4;
    if k == 0 { "#4CAF50"@ } else if k == 1 { "#2196F3"@ } else if k == 2 { "#FF9800"@ } else { "#9C27B0"@ }
}

/// The `j`-th feature of quarter `i` of a template: its title at position `2i + j`, an id
/// naming template, quarter and position, a description, status `Planned`, not completed,
/// and the quarter's color.
pub open spec fn is_template_feature(f: Feature, template_type: Seq<char>, i: int, j: int) -> bool {
    let title = template_titles(template_type)[2 * i + j];
    &&& f.id@ == "feature_"@ + template_type + "_"@ + dec_digits(i as nat) + "_"@ + dec_digits(j as nat)
    &&& f.title@ == title
    &&& f.description@ == "Implementation of "@ + title
    &&& !f.completed
    &&& f.status@ == "Planned"@
    &&& f.color@ == template_color(i)
}

/// The quarters a template fills: quarters 1, 2, ... of the year with two features each, the
/// last one with the odd one out.
pub open spec fn is_template_roadmap(qs: Seq<QuarterView>, template_type: Seq<char>, year: u32) -> bool {
    let n = template_titles(template_type).len();
    &&& qs.len() == (n + 1) / 2
    &&& forall|i: int| 0 <= i < qs.len() ==> {
        &&& (#[trigger] qs[i]).year == year
        &&& qs[i].quarter == i + 1
        &&& qs[i].features.len() == (if 2 * i + 2 <= n { 2 } else { n - 2 * i })
        &&& forall|j: int| 0 <= j < qs[i].features.len() ==> is_template_feature(#[trigger] qs[i].features[j], template_type, i, j)
    }
}

/// A loaded template is all work still to do: every feature of a template roadmap is not
/// completed and has the status `Planned`.
pub proof fn template_features_are_planned(qs: Seq<QuarterView>, template_type: Seq<char>, year: u32)
    requires
        is_template_roadmap(qs, template_type, year),
    ensures
        forall|i: int, j: int| 0 <= i < qs.len() && 0 <= j < qs[i].features.len()
            ==> !(#[trigger] qs[i].features[j]).completed && qs[i].features[j].status@ == "Planned"@,
{
    assert forall|i: int, j: int| 0 <= i < qs.len() && 0 <= j < qs[i].features.len()
        implies !(#[trigger] qs[i].features[j]).completed && qs[i].features[j].status@ == "Planned"@ by {
        assert(is_template_feature(qs[i].features[j], template_type, i, j));
    }
}

fn template_color_str(i: usize) -> (r: &'static str)
    ensures
        r@ == template_color(i as int),
{
    let k = i % 4;
    if k == 0 { "#4CAF50" } else if k == 1 { "#2196F3" } else if k == 2 { "#FF9800" } else { "#9C27B0" }
}

fn template_feature(template_type: &str, title: &str, i: usize, j: usize) -> (f: Feature)
    requires
        2 * i + j < template_titles(template_type@).len(),
        title@ == template_titles(template_type@)[2 * i + j],
    ensures
        is_template_feature(f, template_type@, i as int, j as int),
{
    let mut id = String::from_str("feature_");
    id.append(template_type);
    id.append("_");
    let di = usize_to_decimal(i);
    id.append(di.as_str());
    id.append("_");
    let dj = usize_to_decimal(j);
    id.append(dj.as_str());
    let mut description = String::from_str("Implementation of ");
    description.append(title);
    Feature {
        id,
        title: String::from_str(title),
        description,
        completed: false,
        status: String::from_str("Planned"),
        color: String::from_str(template_color_str(i)),
    }
}

/// A quarter with one feature more at the end.
pub open spec fn with_feature_pushed(q: QuarterView, f: Feature) -> QuarterView {
    QuarterView { year: q.year, quarter: q.quarter, features: q.features.push(f) }
}

/// A quarter with other features.
pub open spec fn with_features(q: QuarterView, features: Seq<Feature>) -> QuarterView {
    QuarterView { year: q.year, quarter: q.quarter, features }
}

/// Moving a feature up: it trades places with the feature above, or, first in its quarter,
/// goes to the end of the quarter before; the first feature of the first quarter stays.
pub open spec fn move_up(qs: Seq<QuarterView>, qi: int, fi: int) -> Seq<QuarterView> {
    let fs = qs[qi].features;
    if fi > 0 {
        qs.update(qi, with_features(qs[qi], fs.update(fi, fs[fi - 1]).update(fi - 1, fs[fi])))
    } else if qi > 0 {
        qs.update(qi, with_features(qs[qi], fs.remove(fi)))
            .update(qi - 1, with_features(qs[qi - 1], qs[qi - 1].features.push(fs[fi])))
    } else {
        qs
    }
}

/// Moving a feature down: it trades places with the feature below, or, last in its quarter,
/// goes to the start of the quarter after; the last feature of the last quarter stays.
pub open spec fn move_down(qs: Seq<QuarterView>, qi: int, fi: int) -> Seq<QuarterView> {
    let fs = qs[qi].features;
    if fi < fs.len() - 1 {
        qs.update(qi, with_features(qs[qi], fs.update(fi, fs[fi + 1]).update(fi + 1, fs[fi])))
    } else if qi < qs.len() - 1 {
        qs.update(qi, with_features(qs[qi], fs.remove(fi)))
            .update(qi + 1, with_features(qs[qi + 1], qs[qi + 1].features.insert(0, fs[fi])))
    } else {
        qs
    }
}

/// Whether `qi` and `fi` name a feature.
pub open spec fn feature_at(qs: Seq<QuarterView>, qi: int, fi: int) -> bool {
    0 <= qi < qs.len() && 0 <= fi < qs[qi].features.len()
}

impl RoadmapApp {
    /// Replaces the quarters by those the named template fills, in `year`.
    pub fn load_template(&mut self, template_type: &str, year: i32)
        ensures
            is_template_roadmap(quarters_view(final(self).quarters@), template_type@, year as u32),
            forall|a: int, j: int| 0 <= a < final(self).quarters@.len() && 0 <= j < final(self).quarters@[a].features@.len()
                ==> !(#[trigger] final(self).quarters@[a].features@[j]).completed
                    && final(self).quarters@[a].features@[j].status@ == "Planned"@,
            final(self).status_text@ == "Loaded "@ + template_type@ + " template"@,
            final(self).current_file == old(self).current_file,
            final(self).dialog_state == old(self).dialog_state,
    {
        self.quarters.clear();
        let year = year as u32;
        let features = get_template(template_type);
        let ghost titles = template_titles(template_type@);
        proof { template_length(template_type@); }
        let n = features.len();
        let per_q: usize = 2;
        let num_q = (n + per_q - 1) / per_q;
        let mut i: usize = 0;
        while i < num_q
            invariant
                features.deep_view() == titles,
                titles == template_titles(template_type@),
                n == titles.len(),
                n == 0 || n == 7,
                per_q == 2,
                num_q == (n + 1) / 2,
                i <= num_q,
                self.quarters@.len() == i,
                forall|a: int| 0 <= a < i ==> {
                    &&& (#[trigger] self.quarters@[a]).year == year
                    &&& self.quarters@[a].quarter == a + 1
                    &&& self.quarters@[a].features@.len() == (if 2 * a + 2 <= n { 2 } else { n - 2 * a })
                    &&& forall|j: int| 0 <= j < self.quarters@[a].features@.len()
                        ==> is_template_feature(#[trigger] self.quarters@[a].features@[j], template_type@, a, j)
                },
                self.current_file == old(self).current_file,
                self.dialog_state == old(self).dialog_state,
            decreases num_q - i,
        {
            let mut q = Quarter::new(year, (i as u32) + 1);
            let start = i * per_q;
            let end = if start + per_q < n { start + per_q } else { n };
            let mut j: usize = 0;
            while start + j < end
                invariant
                    features.deep_view() == titles,
                    titles == template_titles(template_type@),
                    n == titles.len(),
                    start == 2 * i,
                    start < end <= n,
                    end == (if 2 * i + 2 <= n { 2 * i + 2 } else { n as int }),
                    start + j <= end,
                    q.year == year,
                    q.quarter == i + 1,
                    q.features@.len() == j,
                    forall|k: int| 0 <= k < j ==> is_template_feature(#[trigger] q.features@[k], template_type@, i as int, k),
                decreases end - start - j,
            {
                let title = features[start + j];
                assert(title@ == titles[2 * i + j]);
                q.features.push(template_feature(template_type, title, i, j));
                j = j + 1;
            }
            let ghost before = self.quarters@;
            self.quarters.push(q);
            assert(forall|a: int| 0 <= a < i ==> self.quarters@[a] == before[a]);
            i = i + 1;
        }
        assert(is_template_roadmap(quarters_view(self.quarters@), template_type@, year));
        assert forall|a: int, j: int| 0 <= a < self.quarters@.len() && 0 <= j < self.quarters@[a].features@.len()
            implies !(#[trigger] self.quarters@[a].features@[j]).completed
                && self.quarters@[a].features@[j].status@ == "Planned"@ by {
            assert(is_template_feature(self.quarters@[a].features@[j], template_type@, a, j));
        }
        let mut status = String::from_str("Loaded ");
        status.append(template_type);
        status.append(" template");
        self.status_text = status;
    }
}


impl RoadmapApp {
    /// Moves a feature up, as `move_up` says.
    pub fn move_feature_up(&mut self, qi: usize, fi: usize)
        requires
            feature_at(quarters_view(old(self).quarters@), qi as int, fi as int),
        ensures
            quarters_view(final(self).quarters@) == move_up(quarters_view(old(self).quarters@), qi as int, fi as int),
            final(self).status_text == old(self).status_text,
            final(self).current_file == old(self).current_file,
            final(self).dialog_state == old(self).dialog_state,
    {
        let ghost qs = quarters_view(self.quarters@);
        assert(qs[qi as int] == self.quarters@[qi as int]@);
        if fi > 0 {
            let a = self.quarters[qi].features[fi].clone();
            let b = self.quarters[qi].features[fi - 1].clone();
            self.quarters[qi].features[fi] = b;
            self.quarters[qi].features[fi - 1] = a;
        } else if qi > 0 {
            assert(qs[qi - 1] == self.quarters@[qi - 1]@);
            let f = self.quarters[qi].features.remove(fi);
            self.quarters[qi - 1].features.push(f);
        }
        assert(quarters_view(self.quarters@) =~= move_up(qs, qi as int, fi as int));
    }

    /// Moves a feature down, as `move_down` says.
    pub fn move_feature_down(&mut self, qi: usize, fi: usize)
        requires
            feature_at(quarters_view(old(self).quarters@), qi as int, fi as int),
        ensures
            quarters_view(final(self).quarters@) == move_down(quarters_view(old(self).quarters@), qi as int, fi as int),
            final(self).status_text == old(self).status_text,
            final(self).current_file == old(self).current_file,
            final(self).dialog_state == old(self).dialog_state,
    {
        let ghost qs = quarters_view(self.quarters@);
        assert(qs[qi as int] == self.quarters@[qi as int]@);
        if fi < self.quarters[qi].features.len() - 1 {
            let a = self.quarters[qi].features[fi].clone();
            let b = self.quarters[qi].features[fi + 1].clone();
            self.quarters[qi].features[fi] = b;
            self.quarters[qi].features[fi + 1] = a;
        } else if qi < self.quarters.len() - 1 {
            assert(qs[qi + 1] == self.quarters@[qi + 1]@);
            let f = self.quarters[qi].features.remove(fi);
            self.quarters[qi + 1].features.insert(0, f);
        }
        assert(quarters_view(self.quarters@) =~= move_down(qs, qi as int, fi as int));
    }
}


/// The four quarters a roadmap starts with follow one another: the first is the quarter of the
/// month, and each after it is the successor of the one before, as `add_quarter` would append it.
pub proof fn initial_quarters_are_consecutive(year: u32, month: u32)
    requires
        1 <= month <= 12,
    ensures
        initial_quarters(year, month).len() == 4,
        initial_quarters(year, month)[0] == empty_quarter(year, quarter_of_month(month)),
        forall|i: int| 1 <= i < 4 ==> {
            let prev = initial_quarters(year, month)[i - 1];
            let (y, q) = successor(prev.year, prev.quarter);
            #[trigger] initial_quarters(year, month)[i] == empty_quarter(y, q)
        },
{
    let qs = initial_quarters(year, month);
    let m = quarter_of_month(month);
    assert(1 <= m <= 4);
    assert forall|i: int| 1 <= i < 4 implies {
        let prev = qs[i - 1];
        let (y, q) = successor(prev.year, prev.quarter);
        #[trigger] qs[i] == empty_quarter(y, q)
    } by {
        assert(qs[i - 1] == if m + i - 1 > 4 { empty_quarter(next_year(year), (m + i - 1 - 4) as u32) } else { empty_quarter(year, (m + i - 1) as u32) });
        assert(qs[i] == if m + i > 4 { empty_quarter(next_year(year), (m + i - 4) as u32) } else { empty_quarter(year, (m + i) as u32) });
    }
}

/// Removing the last quarter undoes adding one: the quarters are as they were before the add.
pub proof fn remove_quarter_undoes_add_quarter(qs: Seq<QuarterView>, year: u32, quarter: u32)
    ensures
        qs.push(empty_quarter(year, quarter)).drop_last() == qs,
{
    assert(qs.push(empty_quarter(year, quarter)).drop_last() =~= qs);
}

/// Moving a feature up and then down again, from where it went, restores the roadmap.
pub proof fn move_down_undoes_move_up(qs: Seq<QuarterView>, qi: int, fi: int)
    requires
        feature_at(qs, qi, fi),
        fi > 0 || qi > 0,
    ensures
        fi > 0 ==> move_down(move_up(qs, qi, fi), qi, fi - 1) == qs,
        fi == 0 ==> move_down(move_up(qs, qi, fi), qi - 1, qs[qi - 1].features.len() as int) == qs,
{
    let up = move_up(qs, qi, fi);
    if fi > 0 {
        let down = move_down(up, qi, fi - 1);
        assert(down[qi].features =~= qs[qi].features);
        assert(down[qi] =~= qs[qi]);
        assert(down =~= qs);
    } else {
        let l = qs[qi - 1].features.len() as int;
        let down = move_down(up, qi - 1, l);
        assert(up[qi - 1].features.len() == l + 1);
        assert(down[qi - 1].features =~= qs[qi - 1].features);
        assert(down[qi].features =~= qs[qi].features);
        assert(down[qi - 1] =~= qs[qi - 1]);
        assert(down[qi] =~= qs[qi]);
        assert(down =~= qs);
    }
}

/// Moving a feature down and then up again, from where it went, restores the roadmap.
pub proof fn move_up_undoes_move_down(qs: Seq<QuarterView>, qi: int, fi: int)
    requires
        feature_at(qs, qi, fi),
        fi < qs[qi].features.len() - 1 || qi < qs.len() - 1,
    ensures
        fi < qs[qi].features.len() - 1 ==> move_up(move_down(qs, qi, fi), qi, fi + 1) == qs,
        fi == qs[qi].features.len() - 1 ==> move_up(move_down(qs, qi, fi), qi + 1, 0) == qs,
{
    let down = move_down(qs, qi, fi);
    if fi < qs[qi].features.len() - 1 {
        let up = move_up(down, qi, fi + 1);
        assert(up[qi].features =~= qs[qi].features);
        assert(up[qi] =~= qs[qi]);
        assert(up =~= qs);
    } else {
        let up = move_up(down, qi + 1, 0);
        assert(up[qi].features =~= qs[qi].features);
        assert(up[qi + 1].features =~= qs[qi + 1].features);
        assert(up[qi] =~= qs[qi]);
        assert(up[qi + 1] =~= qs[qi + 1]);
        assert(up =~= qs);
    }
}

/// The number of features of all quarters together.
pub open spec fn feature_count(qs: Seq<QuarterView>) -> int
    decreases qs.len(),
{
    if qs.len() == 0 { 0 } else { feature_count(qs.drop_last()) + qs.last().features.len() }
}

proof fn lemma_feature_count_update(qs: Seq<QuarterView>, i: int, q: QuarterView)
    requires
        0 <= i < qs.len(),
    ensures
        feature_count(qs.update(i, q)) == feature_count(qs) - qs[i].features.len() + q.features.len(),
    decreases qs.len(),
{
    if i < qs.len() - 1 {
        assert(qs.update(i, q).drop_last() =~= qs.drop_last().update(i, q));
        lemma_feature_count_update(qs.drop_last(), i, q);
    } else {
        assert(qs.update(i, q).drop_last() =~= qs.drop_last());
    }
}

/// Moving a feature up or down keeps the number of features.
pub proof fn moves_keep_feature_count(qs: Seq<QuarterView>, qi: int, fi: int)
    requires
        feature_at(qs, qi, fi),
    ensures
        feature_count(move_up(qs, qi, fi)) == feature_count(qs),
        feature_count(move_down(qs, qi, fi)) == feature_count(qs),
{
    let fs = qs[qi].features;
    if fi > 0 {
        lemma_feature_count_update(qs, qi, with_features(qs[qi], fs.update(fi, fs[fi - 1]).update(fi - 1, fs[fi])));
    } else if qi > 0 {
        let a = qs.update(qi, with_features(qs[qi], fs.remove(fi)));
        lemma_feature_count_update(qs, qi, with_features(qs[qi], fs.remove(fi)));
        lemma_feature_count_update(a, qi - 1, with_features(qs[qi - 1], qs[qi - 1].features.push(fs[fi])));
    }
    if fi < fs.len() - 1 {
        lemma_feature_count_update(qs, qi, with_features(qs[qi], fs.update(fi, fs[fi + 1]).update(fi + 1, fs[fi])));
    } else if qi < qs.len() - 1 {
        let a = qs.update(qi, with_features(qs[qi], fs.remove(fi)));
        lemma_feature_count_update(qs, qi, with_features(qs[qi], fs.remove(fi)));
        lemma_feature_count_update(a, qi + 1, with_features(qs[qi + 1], qs[qi + 1].features.insert(0, fs[fi])));
    }
}


impl RoadmapApp {
    /// Drops a feature.
    pub fn remove_feature(&mut self, qi: usize, fi: usize)
        requires
            feature_at(quarters_view(old(self).quarters@), qi as int, fi as int),
        ensures
            quarters_view(final(self).quarters@) == quarters_view(old(self).quarters@).update(
                qi as int,
                with_features(old(self).quarters@[qi as int]@, old(self).quarters@[qi as int].features@.remove(fi as int)),
            ),
            final(self).status_text == old(self).status_text,
            final(self).current_file == old(self).current_file,
            final(self).dialog_state == old(self).dialog_state,
    {
        let ghost qs = quarters_view(self.quarters@);
        self.quarters[qi].features.remove(fi);
        assert(quarters_view(self.quarters@) =~= qs.update(
            qi as int,
            with_features(old(self).quarters@[qi as int]@, old(self).quarters@[qi as int].features@.remove(fi as int)),
        ));
    }

    /// Adds a feature at the end of a quarter, naming it in the status line.
    pub fn add_feature(&mut self, qi: usize, f: Feature)
        requires
            qi < old(self).quarters@.len(),
        ensures
            quarters_view(final(self).quarters@) == quarters_view(old(self).quarters@).update(
                qi as int,
                with_feature_pushed(old(self).quarters@[qi as int]@, f),
            ),
            final(self).status_text@ == "Added feature: "@ + f.title@,
            final(self).current_file == old(self).current_file,
            final(self).dialog_state == old(self).dialog_state,
    {
        let ghost qs = quarters_view(self.quarters@);
        let mut status = String::from_str("Added feature: ");
        status.append(f.title.as_str());
        self.quarters[qi].features.push(f);
        assert(quarters_view(self.quarters@) =~= qs.update(qi as int, with_feature_pushed(old(self).quarters@[qi as int]@, f)));
        self.status_text = status;
    }

    /// Replaces a feature, naming the new one in the status line.
    pub fn replace_feature(&mut self, qi: usize, fi: usize, f: Feature)
        requires
            feature_at(quarters_view(old(self).quarters@), qi as int, fi as int),
        ensures
            quarters_view(final(self).quarters@) == quarters_view(old(self).quarters@).update(
                qi as int,
                with_features(old(self).quarters@[qi as int]@, old(self).quarters@[qi as int].features@.update(fi as int, f)),
            ),
            final(self).status_text@ == "Updated feature: "@ + f.title@,
            final(self).current_file == old(self).current_file,
            final(self).dialog_state == old(self).dialog_state,
    {
        let ghost qs = quarters_view(self.quarters@);
        let mut status = String::from_str("Updated feature: ");
        status.append(f.title.as_str());
        self.quarters[qi].features[fi] = f;
        assert(quarters_view(self.quarters@) =~= qs.update(
            qi as int,
            with_features(old(self).quarters@[qi as int]@, old(self).quarters@[qi as int].features@.update(fi as int, f)),
        ));
        self.status_text = status;
    }

    /// Sets a feature's status; it is completed exactly when the status is `Completed`. The
    /// status line names the status, and the dialog closes.
    pub fn set_feature_status(&mut self, qi: usize, fi: usize, status: String)
        requires
            feature_at(quarters_view(old(self).quarters@), qi as int, fi as int),
        ensures
            ({
                let old_f = old(self).quarters@[qi as int].features@[fi as int];
                let new_f = final(self).quarters@[qi as int].features@[fi as int];
                &&& quarters_view(final(self).quarters@) == quarters_view(old(self).quarters@).update(
                    qi as int,
                    with_features(old(self).quarters@[qi as int]@, old(self).quarters@[qi as int].features@.update(fi as int, new_f)),
                )
                &&& new_f.id == old_f.id && new_f.title == old_f.title
                &&& new_f.description == old_f.description && new_f.color == old_f.color
                &&& new_f.status == status
                &&& new_f.completed == (status@ == "Completed"@)
            }),
            final(self).status_text@ == "Updated status to: "@ + status@,
            final(self).current_file == old(self).current_file,
            final(self).dialog_state == DialogState::Closed,
    {
        let ghost qs = quarters_view(self.quarters@);
        let mut text = String::from_str("Updated status to: ");
        text.append(status.as_str());
        let completed = crate::text::str_eq(status.as_str(), "Completed");
        let mut f = self.quarters[qi].features[fi].clone();
        f.status = status;
        f.completed = completed;
        self.quarters[qi].features[fi] = f;
        assert(quarters_view(self.quarters@) =~= qs.update(
            qi as int,
            with_features(old(self).quarters@[qi as int]@, old(self).quarters@[qi as int].features@.update(fi as int, f)),
        ));
        self.status_text = text;
        self.dialog_state = DialogState::Closed;
    }

    /// The id a feature added to a quarter gets: `feature_` and the quarter's feature count.
    pub fn next_feature_id(&self, qi: usize) -> (r: String)
        requires
            qi < self.quarters@.len(),
        ensures
            r@ == "feature_"@ + dec_digits(self.quarters@[qi as int].features@.len()),
    {
        let mut id = String::from_str("feature_");
        let n = usize_to_decimal(self.quarters[qi].features.len());
        id.append(n.as_str());
        id
    }

    /// Accepts the add-feature dialog: a feature with a title is added under the next id; the
    /// dialog closes either way.
    pub fn submit_add_feature(&mut self, qi: usize, dialog: &FeatureDialogState)
        requires
            qi < old(self).quarters@.len(),
        ensures
            trim_seq(dialog.title@).len() == 0 ==> final(self).quarters@ == old(self).quarters@
                && final(self).status_text == old(self).status_text,
            trim_seq(dialog.title@).len() != 0 ==> exists|f: Feature| {
                &&& #[trigger] dialog_feature(*dialog, "feature_"@ + dec_digits(old(self).quarters@[qi as int].features@.len()), f)
                &&& quarters_view(final(self).quarters@) == quarters_view(old(self).quarters@).update(
                    qi as int,
                    with_feature_pushed(old(self).quarters@[qi as int]@, f),
                )
                &&& final(self).status_text@ == "Added feature: "@ + f.title@
            },
            final(self).current_file == old(self).current_file,
            final(self).dialog_state == DialogState::Closed,
    {
        let id = self.next_feature_id(qi);
        if let Some(f) = dialog.to_feature(id.as_str()) {
            self.add_feature(qi, f);
        }
        self.dialog_state = DialogState::Closed;
    }

    /// The id a feature added from the window gets: `f_` and a number drawn at random.
    pub fn drawn_feature_id(drawn: u64) -> (r: String)
        ensures
            r@ == "f_"@ + dec_digits(drawn as nat),
    {
        let mut id = String::from_str("f_");
        let n = u64_to_decimal(drawn);
        id.append(n.as_str());
        id
    }

    /// Accepts the add-feature dialog of the window: a feature with a title is added under the
    /// id `drawn_feature_id` makes of the drawn number; the dialog closes either way.
    pub fn submit_add_feature_drawn(&mut self, qi: usize, dialog: &FeatureDialogState, drawn: u64)
        requires
            qi < old(self).quarters@.len(),
        ensures
            trim_seq(dialog.title@).len() == 0 ==> final(self).quarters@ == old(self).quarters@
                && final(self).status_text == old(self).status_text,
            trim_seq(dialog.title@).len() != 0 ==> exists|f: Feature| {
                &&& #[trigger] dialog_feature(*dialog, "f_"@ + dec_digits(drawn as nat), f)
                &&& quarters_view(final(self).quarters@) == quarters_view(old(self).quarters@).update(
                    qi as int,
                    with_feature_pushed(old(self).quarters@[qi as int]@, f),
                )
                &&& final(self).status_text@ == "Added feature: "@ + f.title@
            },
            final(self).current_file == old(self).current_file,
            final(self).dialog_state == DialogState::Closed,
    {
        let id = Self::drawn_feature_id(drawn);
        if let Some(f) = dialog.to_feature(id.as_str()) {
            self.add_feature(qi, f);
        }
        self.dialog_state = DialogState::Closed;
    }

    /// Accepts the edit-feature dialog: a feature with a title replaces the edited one under
    /// its id; the dialog closes either way.
    pub fn submit_edit_feature(&mut self, qi: usize, fi: usize, dialog: &FeatureDialogState)
        requires
            feature_at(quarters_view(old(self).quarters@), qi as int, fi as int),
        ensures
            trim_seq(dialog.title@).len() == 0 ==> final(self).quarters@ == old(self).quarters@
                && final(self).status_text == old(self).status_text,
            trim_seq(dialog.title@).len() != 0 ==> exists|f: Feature| {
                &&& #[trigger] dialog_feature(*dialog, old(self).quarters@[qi as int].features@[fi as int].id@, f)
                &&& quarters_view(final(self).quarters@) == quarters_view(old(self).quarters@).update(
                    qi as int,
                    with_features(old(self).quarters@[qi as int]@, old(self).quarters@[qi as int].features@.update(fi as int, f)),
                )
                &&& final(self).status_text@ == "Updated feature: "@ + f.title@
            },
            final(self).current_file == old(self).current_file,
            final(self).dialog_state == DialogState::Closed,
    {
        let id = self.quarters[qi].features[fi].id.clone();
        if let Some(f) = dialog.to_feature(id.as_str()) {
            self.replace_feature(qi, fi, f);
        }
        self.dialog_state = DialogState::Closed;
    }

    /// Opens a dialog.
    pub fn open_dialog(&mut self, dialog: DialogState)
        ensures
            final(self).dialog_state == dialog,
            final(self).quarters@ == old(self).quarters@,
            final(self).status_text == old(self).status_text,
            final(self).current_file == old(self).current_file,
    {
        self.dialog_state = dialog;
    }
}

} // verus!
