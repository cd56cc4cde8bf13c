use vstd::prelude::*;
use vstd::string::StringExecFns;
use crate::models::Feature;
use crate::text::{trim, trim_seq, is_blank, str_eq};

verus! {

/// The fields of the feature dialog while the user edits them.
#[derive(Debug)]
pub struct FeatureDialogState {
    pub title: String,
    pub description: String,
    pub status: String,
    pub color: String,
}

impl Default for FeatureDialogState {
    /// An empty dialog: no title or description, status `Planned`, color `#2196F3`.
    fn default() -> (r: Self)
        ensures
            r.title@.len() == 0,
            r.description@.len() == 0,
            r.status@ == "Planned"@,
            r.color@ == "#2196F3"@,
    {
        FeatureDialogState {
            title: String::new(),
            description: String::new(),
            status: String::from_str("Planned"),
            color: String::from_str("#2196F3"),
        }
    }
}

/// The feature a dialog yields: none for a blank title; otherwise the given id, the trimmed
/// title and description, the status and color as they are, and completed exactly for the
/// status `Completed`.
pub open spec fn dialog_feature(d: FeatureDialogState, id: Seq<char>, f: Feature) -> bool {
    &&& f.id@ == id
    &&& f.title@ == trim_seq(d.title@)
    &&& f.description@ == trim_seq(d.description@)
    &&& f.completed == (d.status@ == "Completed"@)
    &&& f.status == d.status
    &&& f.color == d.color
}

/// A dialog opened on a feature with `from_feature` and accepted unchanged yields that feature
/// again, under its own id: for a feature whose title is not blank, whose title and description
/// carry no surrounding white space, and whose completion agrees with its status.
pub proof fn unchanged_dialog_yields_feature(f: Feature)
    requires
        f.title@.len() != 0,
        trim_seq(f.title@) == f.title@,
        trim_seq(f.description@) == f.description@,
        f.completed == (f.status@ == "Completed"@),
    ensures
        ({
            let d = FeatureDialogState { title: f.title, description: f.description, status: f.status, color: f.color };
            trim_seq(d.title@).len() != 0 && dialog_feature(d, f.id@, f)
        }),
{
}

impl FeatureDialogState {
    /// A dialog that edits an existing feature: its title, description, status and color.
    pub fn from_feature(f: &Feature) -> (r: Self)
        ensures
            r.title == f.title,
            r.description == f.description,
            r.status == f.status,
            r.color == f.color,
    {
        FeatureDialogState {
            title: f.title.clone(),
            description: f.description.clone(),
            status: f.status.clone(),
            color: f.color.clone(),
        }
    }

    /// The feature the dialog describes, under the given id; `None` where the title is blank.
    pub fn to_feature(&self, id: &str) -> (r: Option<Feature>)
        ensures
            trim_seq(self.title@).len() == 0 <==> r is None,
            r matches Some(f) ==> dialog_feature(*self, id@, f),
    {
        if is_blank(self.title.as_str()) {
            return None;
        }
        Some(Feature {
            id: String::from_str(id),
            title: String::from_str(trim(self.title.as_str())),
            description: String::from_str(trim(self.description.as_str())),
            completed: str_eq(self.status.as_str(), "Completed"),
            status: self.status.clone(),
            color: self.color.clone(),
        })
    }

    /// Picks a status, as the dialog's status buttons do.
    pub fn select_status(&mut self, status: &str)
        ensures
            final(self).status@ == status@,
            final(self).title == old(self).title,
            final(self).description == old(self).description,
            final(self).color == old(self).color,
    {
        self.status = String::from_str(status);
    }
}

} // verus!
