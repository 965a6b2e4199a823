//! File ingestion: the progress events of each job, the summary of each
//! ingested file, and the folder and document views handed to the front end.

use vstd::prelude::*;
use crate::documents::MountedDoc;
use crate::folders::FolderNode;
use crate::text::{concat2, concat3, decimal_string, spec_decimal};

verus! {

/// Where a job is.
#[derive(Debug, Clone, Copy, PartialEq, Eq, Structural)]
pub enum IngestStage {
    Queued,
    Parsing,
    Done,
    Error,
    /// stopped by the user
    Cancelled,
}

/// A progress event of one ingestion job.
#[derive(Debug, Clone)]
pub struct IngestProgress {
    pub job_id: String,
    pub path: String,
    pub file_name: String,
    pub stage: IngestStage,
    /// characters produced so far
    pub char_count: u32,
    /// the error of a failed job
    pub error: Option<String>,
    /// what parsing is doing now
    pub phase: Option<String>,
    /// units (pages, chapters, entries) done
    pub current: Option<u32>,
    /// units in all, when known
    pub total: Option<u32>,
    /// the file size in bytes
    pub file_size: Option<u64>,
}

/// The summary of an ingested file (its text stays in the store).
#[derive(Debug, Clone)]
pub struct IngestResultItem {
    pub job_id: String,
    pub path: String,
    pub file_name: String,
    pub format: String,
    pub char_count: u32,
    /// image parts
    pub multimodal_count: u32,
    pub file_size: Option<u64>,
}

/// One file to ingest.
pub struct JobSpec {
    pub job_id: String,
    /// the path as given
    pub raw: String,
    pub file_name: String,
    pub file_size: Option<u64>,
}

/// The id of the `i`-th job of a batch: "ingest-{i}-{uuid}".
pub fn ingest_job_id(i: usize, uuid: &str) -> (r: String)
    ensures
        r@ == "ingest-"@ + spec_decimal(i as nat) + "-"@ + uuid@,
{
    let digits = decimal_string(i as u128);
    let mut r = concat3("ingest-", digits.as_str(), "-");
    r.append(uuid);
    r
}

impl JobSpec {
    /// A progress event of this job.
    pub fn progress(
        &self,
        stage: IngestStage,
        char_count: u32,
        error: Option<String>,
        phase: Option<String>,
        current: Option<u32>,
        total: Option<u32>,
    ) -> (r: IngestProgress)
        ensures
            r.job_id@ == self.job_id@,
            r.path@ == self.raw@,
            r.file_name@ == self.file_name@,
            r.stage == stage,
            r.char_count == char_count,
            r.error == error,
            r.phase == phase,
            r.current == current,
            r.total == total,
            r.file_size == self.file_size,
    {
        IngestProgress {
            job_id: self.job_id.clone(),
            path: self.raw.clone(),
            file_name: self.file_name.clone(),
            stage,
            char_count,
            error,
            phase,
            current,
            total,
            file_size: self.file_size,
        }
    }
}

/// Units reported with an event: the given count, else the last one seen
/// (0 means none seen yet).
pub fn reported_units(given: Option<u32>, cached: u32) -> (r: Option<u32>)
    ensures
        r == (match given {
            Some(v) => Some(v),
            None => if cached > 0 {
                Some(cached)
            } else {
                None
            },
        }),
{
    match given {
        Some(v) => Some(v),
        None => if cached > 0 {
            Some(cached)
        } else {
            None
        },
    }
}

/// How parsing a file ended.
pub enum IngestOutcome {
    Done { format: String, char_count: u32, multimodal_count: u32 },
    Cancelled,
    Failed { message: String },
}

/// The summary of a job: a parsed file with its format and counts; a
/// cancelled one marked "cancelled", a failed one "error", both with no
/// content.
pub fn result_item(spec: &JobSpec, outcome: &IngestOutcome) -> (r: IngestResultItem)
    ensures
        r.job_id@ == spec.job_id@,
        r.path@ == spec.raw@,
        r.file_name@ == spec.file_name@,
        r.file_size == spec.file_size,
        match *outcome {
            IngestOutcome::Done { format, char_count, multimodal_count } => r.format@ == format@
                && r.char_count == char_count && r.multimodal_count == multimodal_count,
            IngestOutcome::Cancelled => r.format@ == "cancelled"@ && r.char_count == 0
                && r.multimodal_count == 0,
            IngestOutcome::Failed { .. } => r.format@ == "error"@ && r.char_count == 0
                && r.multimodal_count == 0,
        },
{
    let (format, char_count, multimodal_count) = match outcome {
        IngestOutcome::Done { format, char_count, multimodal_count } => (
            format.clone(),
            *char_count,
            *multimodal_count,
        ),
        IngestOutcome::Cancelled => ("cancelled".to_owned(), 0, 0),
        IngestOutcome::Failed { .. } => ("error".to_owned(), 0, 0),
    };
    IngestResultItem {
        job_id: spec.job_id.clone(),
        path: spec.raw.clone(),
        file_name: spec.file_name.clone(),
        format,
        char_count,
        multimodal_count,
        file_size: spec.file_size,
    }
}

/// The final progress event of a job: done with its character count,
/// cancelled with "已取消", or failed with its message.
pub fn final_progress(spec: &JobSpec, outcome: &IngestOutcome) -> (r: IngestProgress)
    ensures
        r.job_id@ == spec.job_id@,
        r.phase is None && r.current is None && r.total is None,
        match *outcome {
            IngestOutcome::Done { char_count, .. } => r.stage == IngestStage::Done && r.char_count
                == char_count && r.error is None,
            IngestOutcome::Cancelled => r.stage == IngestStage::Cancelled && r.char_count == 0 && (
            r.error matches Some(e) && e@ == "已取消"@),
            IngestOutcome::Failed { message } => r.stage == IngestStage::Error && r.char_count == 0
                && (r.error matches Some(e) && e@ == message@),
        },
{
    match outcome {
        IngestOutcome::Done { char_count, .. } => spec.progress(
            IngestStage::Done,
            *char_count,
            None,
            None,
            None,
            None,
        ),
        IngestOutcome::Cancelled => spec.progress(
            IngestStage::Cancelled,
            0,
            Some("已取消".to_owned()),
            None,
            None,
            None,
        ),
        IngestOutcome::Failed { message } => spec.progress(
            IngestStage::Error,
            0,
            Some(message.clone()),
            None,
            None,
            None,
        ),
    }
}

/// The message of a parsing task that stopped abnormally.
pub fn task_failure_message(cause: &str) -> (r: String)
    ensures
        r@ == "解析任务异常退出: "@ + cause@,
{
    concat2("解析任务异常退出: ", cause)
}

// ════════════════════════════════════════════════════════════════
// Progress while parsing
// ════════════════════════════════════════════════════════════════

/// What a parse has reported so far: the characters produced, and the latest
/// unit progress (pages, chapters, entries; 0: not reported yet).
pub struct ProgressCounters {
    pub char_count: u32,
    pub current_unit: u32,
    pub total_units: u32,
}

/// The unit progress that an event carries: the given value, else the latest
/// one reported, else none.
pub open spec fn units_shown(given: Option<u32>, cached: u32) -> Option<u32> {
    match given {
        Some(v) => Some(v),
        None => if cached > 0 {
            Some(cached)
        } else {
            None
        },
    }
}

/// A parsing event of a job: stage parsing, no error, the unit progress filled
/// in from what was reported before.
pub open spec fn parsing_event(
    r: IngestProgress,
    spec: JobSpec,
    c: ProgressCounters,
    char_count: u32,
    phase: Option<String>,
    current: Option<u32>,
    total: Option<u32>,
) -> bool {
    &&& r.job_id@ == spec.job_id@
    &&& r.path@ == spec.raw@
    &&& r.file_name@ == spec.file_name@
    &&& r.file_size == spec.file_size
    &&& r.stage == IngestStage::Parsing
    &&& r.char_count == char_count
    &&& r.error is None
    &&& r.phase == phase
    &&& r.current == units_shown(current, c.current_unit)
    &&& r.total == units_shown(total, c.total_units)
}

impl ProgressCounters {
    /// Nothing reported yet.
    pub fn new() -> (r: ProgressCounters)
        ensures
            r.char_count == 0 && r.current_unit == 0 && r.total_units == 0,
    {
        ProgressCounters { char_count: 0, current_unit: 0, total_units: 0 }
    }

    fn parsing(
        &self,
        spec: &JobSpec,
        char_count: u32,
        phase: Option<String>,
        current: Option<u32>,
        total: Option<u32>,
    ) -> (r: IngestProgress)
        ensures
            parsing_event(r, *spec, *self, char_count, phase, current, total),
    {
        let cur = reported_units(current, self.current_unit);
        let tot = reported_units(total, self.total_units);
        spec.progress(IngestStage::Parsing, char_count, None, phase, cur, tot)
    }

    /// A new phase: always reported, with the characters so far.
    pub fn on_phase(&self, spec: &JobSpec, phase: &str) -> (r: IngestProgress)
        ensures
            r.phase matches Some(p) && p@ == phase@,
            parsing_event(r, *spec, *self, self.char_count, r.phase, None, None),
    {
        self.parsing(spec, self.char_count, Some(phase.to_owned()), None, None)
    }

    /// Unit progress: always remembered (the total only when known); reported
    /// only when the job is not cancelled and the throttle lets it through.
    pub fn on_progress(
        &mut self,
        spec: &JobSpec,
        current: usize,
        total: Option<usize>,
        cancelled: bool,
        may_send: bool,
    ) -> (r: Option<IngestProgress>)
        ensures
            final(self).char_count == old(self).char_count,
            final(self).current_unit == current as u32,
            final(self).total_units == (match total {
                Some(t) => t as u32,
                None => old(self).total_units,
            }),
            match r {
                Some(e) => !cancelled && may_send && parsing_event(
                    e,
                    *spec,
                    *final(self),
                    old(self).char_count,
                    None,
                    Some(current as u32),
                    match total {
                        Some(t) => Some(t as u32),
                        None => None,
                    },
                ),
                None => cancelled || !may_send,
            },
    {
        #[verifier::truncate]
        let cur = current as u32;
        self.current_unit = cur;
        let tot: Option<u32> = match total {
            Some(t) => {
                #[verifier::truncate]
                let t32 = t as u32;
                self.total_units = t32;
                Some(t32)
            },
            None => None,
        };
        if cancelled || !may_send {
            return None;
        }
        Some(self.parsing(spec, self.char_count, None, Some(cur), tot))
    }

    /// More characters: always counted (wrapping, as the atomic counter does);
    /// reported only when the throttle lets it through.
    pub fn on_chars(&mut self, spec: &JobSpec, delta: usize, may_send: bool) -> (r: Option<IngestProgress>)
        ensures
            final(self).char_count == old(self).char_count.wrapping_add(delta as u32),
            final(self).current_unit == old(self).current_unit,
            final(self).total_units == old(self).total_units,
            match r {
                Some(e) => may_send && parsing_event(
                    e,
                    *spec,
                    *final(self),
                    final(self).char_count,
                    None,
                    None,
                    None,
                ),
                None => !may_send,
            },
    {
        #[verifier::truncate]
        let d = delta as u32;
        self.char_count = self.char_count.wrapping_add(d);
        if !may_send {
            return None;
        }
        Some(self.parsing(spec, self.char_count, None, None, None))
    }
}

/// Whether enough time has passed since the last report to send another
/// (the 60 ms throttle of progress events).
pub fn throttle_passes(elapsed_ms: u128) -> (r: bool)
    ensures
        r == (elapsed_ms >= 60),
{
    elapsed_ms >= 60
}


/// A folder of the tree, for the front end.
#[derive(Debug)]
pub struct FolderNodeDto {
    pub name: String,
    pub path: String,
    pub children: Vec<FolderNodeDto>,
}

/// A view holds the same names, paths and children as the folder.
pub open spec fn dto_matches(n: FolderNode, d: FolderNodeDto) -> bool
    decreases n,
{
    &&& d.name@ == n.name@
    &&& d.path@ == n.path@
    &&& d.children@.len() == n.children@.len()
    &&& forall|i: int|
        0 <= i < n.children@.len() ==> dto_matches(n.children@[i], #[trigger] d.children@[i])
}

/// The view of a folder and, recursively, of its sub-folders.
pub fn folder_node_to_dto(node: &FolderNode) -> (r: FolderNodeDto)
    ensures
        dto_matches(*node, r),
    decreases node,
{
    let n = node.children.len();
    let mut children: Vec<FolderNodeDto> = Vec::new();
    let mut i: usize = 0;
    while i < n
        invariant
            n == node.children@.len(),
            i <= n,
            children@.len() == i,
            forall|k: int|
                0 <= k < i ==> dto_matches(node.children@[k], #[trigger] children@[k]),
        decreases n - i,
    {
        proof {
            assert(decreases_to!(node => node.children@[i as int]));
        }
        let c = folder_node_to_dto(&node.children[i]);
        children.push(c);
        i = i + 1;
    }
    FolderNodeDto { name: node.name.clone(), path: node.path.clone(), children }
}

/// A mounted document, for the front end.
#[derive(Debug, Clone)]
pub struct MountedDocDto {
    pub path: String,
    pub name: String,
    pub format: String,
    pub char_count: u32,
    pub mounted_at: i64,
}

/// The view of a mounted document.
pub fn mounted_doc_dto(d: MountedDoc) -> (r: MountedDocDto)
    ensures
        r.path == d.path,
        r.name == d.name,
        r.format == d.format,
        r.char_count == d.char_count,
        r.mounted_at == d.mounted_at,
{
    MountedDocDto {
        path: d.path,
        name: d.name,
        format: d.format,
        char_count: d.char_count,
        mounted_at: d.mounted_at,
    }
}

/// A stored document without its text, for the front end.
#[derive(Debug, Clone)]
pub struct DocumentSummaryDto {
    pub id: String,
    pub path: String,
    pub name: String,
    pub format: String,
    pub char_count: u32,
    pub created_at: i64,
    pub folder_path: Option<String>,
}

/// A document's text, for the preview.
#[derive(Debug, Clone)]
pub struct DocumentContentDto {
    pub path: String,
    pub name: String,
    pub format: String,
    pub text: String,
    pub char_count: u32,
}

/// The active scope of a conversation.
#[derive(Debug, Clone)]
pub struct ActiveScopeDto {
    /// folders, with their sub-folders
    pub folders: Vec<String>,
    /// single documents mounted with `@`
    pub documents: Vec<String>,
    /// data source names
    pub sources: Vec<String>,
    /// ontology api_names
    pub ontologies: Vec<String>,
}

} // verus!
