//! The two error taxonomies: compile-time schema errors, which abort
//! compilation, and validation errors, which are collected per instance.

use vstd::prelude::*;

verus! {

/// A compile-time failure: the schema document cannot be compiled.
#[derive(Debug)]
pub enum SchemaError {
    /// A keyword's value violates that keyword's shape contract. `path` is
    /// the fragment path of the schema node, `detail` a human-readable
    /// explanation.
    Malformed { path: String, detail: String },
}

/// The model of a `SchemaError`.
pub enum SchemaErrorView {
    Malformed { path: Seq<char>, detail: Seq<char> },
}

impl View for SchemaError {
    type V = SchemaErrorView;

    open spec fn view(&self) -> SchemaErrorView {
        match self {
            SchemaError::Malformed { path, detail } => SchemaErrorView::Malformed {
                path: path@,
                detail: detail@,
            },
        }
    }
}

impl SchemaError {
    /// The fragment path the error reports.
    pub fn path(&self) -> (r: &String)
        ensures
            self@ matches SchemaErrorView::Malformed { path, .. } && r@ == path,
    {
        match self {
            SchemaError::Malformed { path, .. } => path,
        }
    }

    /// The human-readable detail of the error.
    pub fn detail(&self) -> (r: &String)
        ensures
            self@ matches SchemaErrorView::Malformed { detail, .. } && r@ == detail,
    {
        match self {
            SchemaError::Malformed { detail, .. } => detail,
        }
    }
}

/// The aspect of the instance a validation error reports.
#[derive(Clone, Copy, Debug, PartialEq, Eq, Structural)]
pub enum ErrorKind {
    /// The instance differs from the literal a `const` keyword demands.
    Const,
}

/// One validation failure, carrying the instance path it was found at.
pub struct ValidationError {
    pub path: String,
    pub kind: ErrorKind,
}

/// The model of a `ValidationError`.
pub struct ValidationErrorView {
    pub path: Seq<char>,
    pub kind: ErrorKind,
}

impl View for ValidationError {
    type V = ValidationErrorView;

    open spec fn view(&self) -> ValidationErrorView {
        ValidationErrorView { path: self.path@, kind: self.kind }
    }
}

} // verus!
