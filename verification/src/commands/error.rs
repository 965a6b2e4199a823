//! The error that the desktop commands answer with.

use vstd::prelude::*;
use crate::error::{store_error_message, StoreError};
use crate::text::concat2;

verus! {

/// What a command can fail with; the front end reacts by kind.
#[derive(Debug)]
pub enum AppError {
    Ingest(String),
    Agent(String),
    Memory(String),
    Provider(String),
    Federation(String),
    Ontology(String),
    Skill(String),
    SkillScanTimeout(String),
    /// stopped by the user; the front end stays silent
    Cancelled,
}

/// The value of an [`AppError`]: its kind and its text.
pub enum AppErrorV {
    Ingest(Seq<char>),
    Agent(Seq<char>),
    Memory(Seq<char>),
    Provider(Seq<char>),
    Federation(Seq<char>),
    Ontology(Seq<char>),
    Skill(Seq<char>),
    SkillScanTimeout(Seq<char>),
    Cancelled,
}

impl View for AppError {
    type V = AppErrorV;

    open spec fn view(&self) -> AppErrorV {
        match self {
            AppError::Ingest(s) => AppErrorV::Ingest(s@),
            AppError::Agent(s) => AppErrorV::Agent(s@),
            AppError::Memory(s) => AppErrorV::Memory(s@),
            AppError::Provider(s) => AppErrorV::Provider(s@),
            AppError::Federation(s) => AppErrorV::Federation(s@),
            AppError::Ontology(s) => AppErrorV::Ontology(s@),
            AppError::Skill(s) => AppErrorV::Skill(s@),
            AppError::SkillScanTimeout(s) => AppErrorV::SkillScanTimeout(s@),
            AppError::Cancelled => AppErrorV::Cancelled,
        }
    }
}

/// How an error displays: its kind, a colon and its text.
pub open spec fn app_error_message(e: AppErrorV) -> Seq<char> {
    match e {
        AppErrorV::Ingest(s) => "ingest: "@ + s,
        AppErrorV::Agent(s) => "agent: "@ + s,
        AppErrorV::Memory(s) => "memory: "@ + s,
        AppErrorV::Provider(s) => "provider: "@ + s,
        AppErrorV::Federation(s) => "federation: "@ + s,
        AppErrorV::Ontology(s) => "ontology: "@ + s,
        AppErrorV::Skill(s) => "skill: "@ + s,
        AppErrorV::SkillScanTimeout(s) => "skill-scan-timeout: "@ + s,
        AppErrorV::Cancelled => "cancelled"@,
    }
}

impl AppError {
    /// The text this error displays as.
    pub fn message(&self) -> (r: String)
        ensures
            r@ == app_error_message(self@),
    {
        match self {
            AppError::Ingest(s) => concat2("ingest: ", s.as_str()),
            AppError::Agent(s) => concat2("agent: ", s.as_str()),
            AppError::Memory(s) => concat2("memory: ", s.as_str()),
            AppError::Provider(s) => concat2("provider: ", s.as_str()),
            AppError::Federation(s) => concat2("federation: ", s.as_str()),
            AppError::Ontology(s) => concat2("ontology: ", s.as_str()),
            AppError::Skill(s) => concat2("skill: ", s.as_str()),
            AppError::SkillScanTimeout(s) => concat2("skill-scan-timeout: ", s.as_str()),
            AppError::Cancelled => "cancelled".to_owned(),
        }
    }

    /// An ontology store error, carried with its message.
    pub fn from_store_error(e: &StoreError) -> (r: AppError)
        ensures
            r@ == AppErrorV::Ontology(store_error_message(e@)),
    {
        AppError::Ontology(e.message())
    }
}

} // verus!
