//! The package record: one entry of the database, with its mathematical model.

use vstd::prelude::*;

use crate::datetime::DateTime;

verus! {

/// One package record of the database.
///
/// `name` is the record's key; `updated_at` is kept as the raw stored text,
/// since its source format is irregular; `created_at` is decoded into fields.
#[derive(Debug, PartialEq)]
pub struct Crate {
    pub created_at: DateTime,
    pub description: Option<String>,
    pub documentation: Option<String>,
    pub downloads: i32,
    pub homepage: Option<String>,
    pub id: i32,
    pub max_upload_size: Option<i32>,
    pub name: String,
    pub readme: String,
    pub repository: Option<String>,
    pub updated_at: String,
}

/// The mathematical model of a package record.
pub ghost struct CrateModel {
    pub created_at: DateTime,
    pub description: Option<Seq<char>>,
    pub documentation: Option<Seq<char>>,
    pub downloads: int,
    pub homepage: Option<Seq<char>>,
    pub id: int,
    pub max_upload_size: Option<int>,
    pub name: Seq<char>,
    pub readme: Seq<char>,
    pub repository: Option<Seq<char>>,
    pub updated_at: Seq<char>,
}

impl View for Crate {
    type V = CrateModel;

    open spec fn view(&self) -> CrateModel {
        CrateModel {
            created_at: self.created_at,
            description: self.description.deep_view(),
            documentation: self.documentation.deep_view(),
            downloads: self.downloads as int,
            homepage: self.homepage.deep_view(),
            id: self.id as int,
            max_upload_size: match self.max_upload_size {
                Some(v) => Some(v as int),
                None => None,
            },
            name: self.name@,
            readme: self.readme@,
            repository: self.repository.deep_view(),
            updated_at: self.updated_at@,
        }
    }
}

impl DeepView for Crate {
    type V = CrateModel;

    open spec fn deep_view(&self) -> CrateModel {
        self.view()
    }
}

/// Clones an optional text field.
fn clone_opt_string(o: &Option<String>) -> (r: Option<String>)
    ensures
        r.deep_view() == o.deep_view(),
{
    match o {
        Some(s) => Some(s.clone()),
        None => None,
    }
}

impl Crate {
    /// An owned copy of the record, equal to it in the model.
    pub fn duplicate(&self) -> (r: Crate)
        ensures
            r@ == self@,
    {
        Crate {
            created_at: self.created_at,
            description: clone_opt_string(&self.description),
            documentation: clone_opt_string(&self.documentation),
            downloads: self.downloads,
            homepage: clone_opt_string(&self.homepage),
            id: self.id,
            max_upload_size: self.max_upload_size,
            name: self.name.clone(),
            readme: self.readme.clone(),
            repository: clone_opt_string(&self.repository),
            updated_at: self.updated_at.clone(),
        }
    }
}

} // verus!
