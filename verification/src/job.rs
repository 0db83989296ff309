//! The background-load state machine: tracks one job's status and the
//! engine it published, and gates every query on that engine being
//! present.
//!
//! The caller runs the ingestion itself (typically on a worker thread)
//! and reports its outcome here; the status and the published engine
//! move together, so a complete status is never seen beside an absent
//! engine.

use vstd::prelude::*;

use crate::db::DbError;
use crate::engine::{Engine, Logs};

verus! {

/// The status of the current load job.
#[derive(Debug, Clone, PartialEq)]
pub enum FileStatus {
    /// No load was ever started.
    Uninit,
    /// A load is running; no engine is published.
    Pending,
    /// The last load finished and its engine answers queries.
    Complete,
    /// The last load failed, with its failure's description.
    Error(String),
}

/// One load job and whatever engine it has published. Queries against an
/// absent engine return empty results rather than blocking or erroring;
/// the status tells "not ready" apart from "ready but empty".
pub struct LoadJob {
    engine: Option<Engine>,
    status: FileStatus,
}

impl LoadJob {
    /// The current status.
    pub closed spec fn spec_status(&self) -> FileStatus {
        self.status
    }

    /// Whether an engine is published.
    pub closed spec fn has_engine(&self) -> bool {
        self.engine is Some
    }

    /// The one coupling invariant: an engine is published exactly when
    /// the status is complete.
    pub open spec fn wf(&self) -> bool {
        self.has_engine() <==> self.spec_status() matches FileStatus::Complete
    }

    /// A fresh job: nothing started, nothing published.
    pub fn new() -> (r: LoadJob)
        ensures
            r.wf(),
            r.spec_status() matches FileStatus::Uninit,
            !r.has_engine(),
    {
        LoadJob { engine: None, status: FileStatus::Uninit }
    }

    /// Starts a load: the status becomes pending at once and any
    /// previously published engine is discarded, so queries issued while
    /// the load runs see no engine.
    pub fn begin_load(&mut self)
        ensures
            final(self).wf(),
            final(self).spec_status() matches FileStatus::Pending,
            !final(self).has_engine(),
    {
        self.status = FileStatus::Pending;
        self.engine = None;
    }

    /// Records a finished load: success publishes the new engine and
    /// completes the job; failure publishes nothing and carries the
    /// failure's description. Both move in one step, so no caller can
    /// see one without the other.
    pub fn finish_load(&mut self, outcome: Result<Engine, String>)
        ensures
            final(self).wf(),
            match outcome {
                Ok(_) => final(self).spec_status() matches FileStatus::Complete
                    && final(self).has_engine(),
                Err(m) => final(self).spec_status() == FileStatus::Error(m)
                    && !final(self).has_engine(),
            },
    {
        match outcome {
            Ok(engine) => {
                self.engine = Some(engine);
                self.status = FileStatus::Complete;
            },
            Err(m) => {
                self.engine = None;
                self.status = FileStatus::Error(m);
            },
        }
    }

    /// The current status, as a non-blocking read.
    pub fn get_file_status(&self) -> (r: FileStatus)
        ensures
            r == self.spec_status(),
    {
        match &self.status {
            FileStatus::Uninit => FileStatus::Uninit,
            FileStatus::Pending => FileStatus::Pending,
            FileStatus::Complete => FileStatus::Complete,
            FileStatus::Error(m) => FileStatus::Error(m.clone()),
        }
    }

    /// One page of rows from the published engine; an empty page with a
    /// zero count when none is published.
    pub fn get_logs(&self, filter_sql: &str, fts_query: &str, limit: u32, offset: u32) -> (r:
        Result<Logs, DbError>)
        ensures
            !self.has_engine() ==> (r matches Ok(l) && l.logs@.len() == 0 && l.total_count == 0),
            self.wf() && !(self.spec_status() matches FileStatus::Complete) ==> (r matches Ok(l)
                && l.logs@.len() == 0 && l.total_count == 0),
            r matches Err(e) ==> e matches DbError::Storage(_),
    {
        match &self.engine {
            Some(engine) => engine.list(filter_sql, fts_query, limit, offset),
            None => Ok(Logs { logs: Vec::new(), total_count: 0 }),
        }
    }

    /// The raw text of one row by identity from the published engine;
    /// absent when none is published.
    pub fn get_log_detail(&self, id: u32) -> (r: Result<Option<String>, DbError>)
        ensures
            !self.has_engine() ==> r == Result::<Option<String>, DbError>::Ok(None),
            self.wf() && !(self.spec_status() matches FileStatus::Complete) ==> r == Result::<
                Option<String>,
                DbError,
            >::Ok(None),
            r matches Err(e) ==> e matches DbError::Storage(_),
    {
        match &self.engine {
            Some(engine) => engine.detail(id),
            None => Ok(None),
        }
    }

    /// Distinct values of one configured column from the published
    /// engine; an empty sequence when none is published or the field
    /// name is empty.
    pub fn get_field_values(&self, field: &str, search: &str, limit: u32, offset: u32) -> (r:
        Result<Vec<String>, DbError>)
        ensures
            !self.has_engine() ==> (r matches Ok(v) && v@.len() == 0),
            self.wf() && !(self.spec_status() matches FileStatus::Complete) ==> (r matches Ok(v)
                && v@.len() == 0),
            field@.len() == 0 ==> (r matches Ok(v) && v@.len() == 0),
            r matches Err(e) ==> e matches DbError::Storage(_),
    {
        match &self.engine {
            Some(engine) => engine.distinct_values(field, search, limit, offset),
            None => Ok(Vec::new()),
        }
    }
}

} // verus!
