//! SQL analysis tasks: the request and result types, one handler per task
//! kind, and the registry of active tasks.
//!
//! The handlers produce placeholder analyses until a real analysis backend
//! answers over the channel; their shape, and the task registry's
//! bookkeeping, are what is specified here.  Scores and confidences are
//! integer percentages.

use vstd::prelude::*;

use crate::clock;

verus! {

/// The kinds of analysis offered.
#[derive(Debug, Clone, Copy, PartialEq, Eq, Structural)]
pub enum AITaskType {
    Explain,
    Optimize,
    Validate,
}

/// Where a task stands.
#[derive(Debug, Clone, Copy, PartialEq, Eq, Structural)]
pub enum AITaskStatus {
    Pending,
    Processing,
    Completed,
    Failed,
    Cancelled,
}

/// A request to cancel a running generation.
#[derive(Debug, Clone)]
pub struct CancellationRequest {
    /// Which generation to cancel.
    pub generation_id: String,
    /// Why, if stated.
    pub reason: Option<String>,
}

/// Options of an analysis request.
#[derive(Debug, Clone)]
pub struct AIAnalysisOptions {
    /// Time budget in seconds.
    pub timeout_seconds: Option<u32>,
    /// Whether to include confidence figures.
    pub include_confidence: Option<bool>,
    /// Whether to explain in detail.
    pub detailed_explanation: Option<bool>,
    /// Whether to estimate performance.
    pub performance_estimates: Option<bool>,
    /// Which severities to report, for validation.
    pub severity_filtering: Option<Vec<String>>,
}

impl Default for AIAnalysisOptions {
    /// The stock options: half a minute, everything on, all severities.
    fn default() -> (r: Self)
        ensures
            r.timeout_seconds == Some(30u32),
            r.include_confidence == Some(true),
            r.detailed_explanation == Some(true),
            r.performance_estimates == Some(true),
            r.severity_filtering matches Some(f) && f@.len() == 3 && f@[0]@ == "error"@
                && f@[1]@ == "warning"@ && f@[2]@ == "info"@,
    {
        let mut severities: Vec<String> = Vec::new();
        severities.push(String::from_str("error"));
        severities.push(String::from_str("warning"));
        severities.push(String::from_str("info"));
        AIAnalysisOptions {
            timeout_seconds: Some(30),
            include_confidence: Some(true),
            detailed_explanation: Some(true),
            performance_estimates: Some(true),
            severity_filtering: Some(severities),
        }
    }
}

/// An analysis request.
#[derive(Debug, Clone)]
pub struct AIAnalysisRequest {
    /// The SQL under analysis.
    pub sql: String,
    /// Which analysis to run.
    pub task_type: AITaskType,
    /// The connection the SQL belongs to.
    pub connection_id: String,
    /// Raw JSON text of schema context, if any.
    pub schema_context: Option<String>,
    /// Options, if any.
    pub analysis_options: Option<AIAnalysisOptions>,
}

/// One step of an explanation.
#[derive(Debug, Clone)]
pub struct ExplanationStep {
    pub step_number: u32,
    pub operation: String,
    pub description: String,
    pub tables_involved: Vec<String>,
    pub columns_involved: Vec<String>,
}

/// One optimization suggestion.
#[derive(Debug, Clone)]
pub struct OptimizationSuggestion {
    pub suggestion_id: String,
    pub category: String,
    pub description: String,
    pub impact_level: String,
    pub before_snippet: Option<String>,
    pub after_snippet: Option<String>,
    pub reasoning: String,
}

/// An estimate of an optimization's effect, in integer percentages.
#[derive(Debug, Clone)]
pub struct PerformanceEstimate {
    pub estimated_improvement_percent: Option<u32>,
    pub execution_time_before: Option<String>,
    pub execution_time_after: Option<String>,
    pub resource_usage_impact: Option<String>,
}

/// One finding of a validation.
#[derive(Debug, Clone)]
pub struct ValidationIssue {
    pub issue_id: String,
    pub severity: String,
    pub category: String,
    pub message: String,
    pub line_number: Option<u32>,
    pub column_number: Option<u32>,
    pub suggestion: Option<String>,
}

/// One mechanical fix a validation offers, with an integer-percent
/// confidence.
#[derive(Debug, Clone)]
pub struct QuickFix {
    pub fix_id: String,
    pub description: String,
    pub original_text: String,
    pub replacement_text: String,
    pub confidence_percent: u32,
}

/// What an analysis produced, by task kind.
#[derive(Debug, Clone)]
pub enum AnalysisResultData {
    Explanation {
        summary: String,
        detailed_steps: Vec<ExplanationStep>,
        data_sources: Vec<String>,
        operations: Vec<String>,
        expected_result_description: String,
    },
    Optimization {
        original_query: String,
        optimized_query: Option<String>,
        optimizations: Vec<OptimizationSuggestion>,
        performance_impact: Option<PerformanceEstimate>,
    },
    Validation {
        is_valid: bool,
        issues: Vec<ValidationIssue>,
        quick_fixes: Vec<QuickFix>,
        overall_score_percent: Option<u32>,
    },
}

/// The outcome of one analysis.
#[derive(Debug, Clone)]
pub struct AIAnalysisResult {
    pub analysis_id: String,
    pub task_type: AITaskType,
    pub success: bool,
    pub result: Option<AnalysisResultData>,
    pub confidence_percent: Option<u32>,
    pub execution_time_ms: Option<u64>,
    pub error_message: Option<String>,
}

/// One registered task.
#[derive(Debug, Clone)]
pub struct AITaskInfo {
    pub task_id: String,
    pub task_type: AITaskType,
    pub status: AITaskStatus,
    pub created_at_ms: u64,
    pub updated_at_ms: u64,
}

/// Relies on uuid::Uuid::new_v4 and its hyphenated rendering: a fresh
/// random identifier, 36 characters long.  Nothing more can be promised of
/// a random value.
#[verifier::external_body]
pub fn new_task_id() -> (r: String)
    ensures
        r@.len() == 36,
{
    uuid::Uuid::new_v4().to_string()
}

/// The handler that explains a query.
#[derive(Debug)]
pub struct ExplainTaskHandler;

impl ExplainTaskHandler {
    /// Which task kind this handles.
    pub fn get_task_type(&self) -> (r: AITaskType)
        ensures
            r == AITaskType::Explain,
    {
        AITaskType::Explain
    }

    /// How long a run is expected to take, in seconds.
    pub fn estimate_duration(&self, _request: &AIAnalysisRequest) -> (r: u32)
        ensures
            r == 15,
    {
        15
    }

    /// Produce the placeholder explanation: two steps over a single data
    /// source.
    pub fn handle_task(&self, _request: &AIAnalysisRequest) -> (r: Result<
        AnalysisResultData,
        String,
    >)
        ensures
            r matches Ok(d) && (d matches AnalysisResultData::Explanation {
                detailed_steps,
                data_sources,
                operations,
                ..
            } && detailed_steps@.len() == 2 && data_sources@.len() == 1 && operations@.len() == 2
                && detailed_steps@[0].step_number == 1 && detailed_steps@[1].step_number == 2),
    {
        let mut steps: Vec<ExplanationStep> = Vec::new();
        let mut tables1: Vec<String> = Vec::new();
        tables1.push(String::from_str("users"));
        let mut cols1: Vec<String> = Vec::new();
        cols1.push(String::from_str("id"));
        cols1.push(String::from_str("name"));
        cols1.push(String::from_str("email"));
        steps.push(
            ExplanationStep {
                step_number: 1,
                operation: String::from_str("SELECT"),
                description: String::from_str("Retrieve specific columns from the database"),
                tables_involved: tables1,
                columns_involved: cols1,
            },
        );
        let mut tables2: Vec<String> = Vec::new();
        tables2.push(String::from_str("users"));
        let mut cols2: Vec<String> = Vec::new();
        cols2.push(String::from_str("created_at"));
        steps.push(
            ExplanationStep {
                step_number: 2,
                operation: String::from_str("WHERE"),
                description: String::from_str("Filter records based on specified conditions"),
                tables_involved: tables2,
                columns_involved: cols2,
            },
        );
        let mut sources: Vec<String> = Vec::new();
        sources.push(String::from_str("users"));
        let mut operations: Vec<String> = Vec::new();
        operations.push(String::from_str("SELECT"));
        operations.push(String::from_str("WHERE"));
        Ok(
            AnalysisResultData::Explanation {
                summary: String::from_str(
                    "This query retrieves user information from the database with specific filtering criteria.",
                ),
                detailed_steps: steps,
                data_sources: sources,
                operations,
                expected_result_description: String::from_str(
                    "A list of user records matching the specified criteria",
                ),
            },
        )
    }
}

/// The handler that suggests optimizations.
#[derive(Debug)]
pub struct OptimizeTaskHandler;

impl OptimizeTaskHandler {
    /// Which task kind this handles.
    pub fn get_task_type(&self) -> (r: AITaskType)
        ensures
            r == AITaskType::Optimize,
    {
        AITaskType::Optimize
    }

    /// How long a run is expected to take, in seconds.
    pub fn estimate_duration(&self, _request: &AIAnalysisRequest) -> (r: u32)
        ensures
            r == 25,
    {
        25
    }

    /// Produce the placeholder optimization: one indexing suggestion with
    /// a performance estimate, echoing the query under analysis.
    pub fn handle_task(&self, request: &AIAnalysisRequest) -> (r: Result<
        AnalysisResultData,
        String,
    >)
        ensures
            r matches Ok(d) && (d matches AnalysisResultData::Optimization {
                original_query,
                optimized_query,
                optimizations,
                performance_impact,
            } && original_query@ == request.sql@ && optimizations@.len() == 1
                && optimizations@[0].suggestion_id@.len() == 36 && optimizations@[0].category@
                == "index"@ && optimized_query is Some && performance_impact is Some),
    {
        let mut optimizations: Vec<OptimizationSuggestion> = Vec::new();
        optimizations.push(
            OptimizationSuggestion {
                suggestion_id: new_task_id(),
                category: String::from_str("index"),
                description: String::from_str("Add index on frequently queried columns"),
                impact_level: String::from_str("High"),
                before_snippet: Some(String::from_str("WHERE created_at > '2024-01-01'")),
                after_snippet: Some(
                    String::from_str(
                        "WHERE created_at > '2024-01-01' -- Consider adding index on created_at",
                    ),
                ),
                reasoning: String::from_str(
                    "Adding an index on created_at column will significantly improve query performance for date-based filtering",
                ),
            },
        );
        let performance_estimate = PerformanceEstimate {
            estimated_improvement_percent: Some(75),
            execution_time_before: Some(String::from_str("2.3 seconds")),
            execution_time_after: Some(String::from_str("0.6 seconds")),
            resource_usage_impact: Some(String::from_str("Reduced CPU usage by 60%")),
        };
        let mut optimized = String::from_str("-- Optimized version\n");
        optimized.append(request.sql.as_str());
        Ok(
            AnalysisResultData::Optimization {
                original_query: request.sql.clone(),
                optimized_query: Some(optimized),
                optimizations,
                performance_impact: Some(performance_estimate),
            },
        )
    }
}

/// The handler that validates a query.
#[derive(Debug)]
pub struct ValidateTaskHandler;

impl ValidateTaskHandler {
    /// Which task kind this handles.
    pub fn get_task_type(&self) -> (r: AITaskType)
        ensures
            r == AITaskType::Validate,
    {
        AITaskType::Validate
    }

    /// How long a run is expected to take, in seconds.
    pub fn estimate_duration(&self, _request: &AIAnalysisRequest) -> (r: u32)
        ensures
            r == 10,
    {
        10
    }

    /// Produce the placeholder validation: valid, one best-practice
    /// warning and one quick fix.
    pub fn handle_task(&self, _request: &AIAnalysisRequest) -> (r: Result<
        AnalysisResultData,
        String,
    >)
        ensures
            r matches Ok(d) && (d matches AnalysisResultData::Validation {
                is_valid,
                issues,
                quick_fixes,
                overall_score_percent,
            } && is_valid && issues@.len() == 1 && issues@[0].severity@ == "warning"@
                && quick_fixes@.len() == 1 && overall_score_percent == Some(85u32)),
    {
        let mut issues: Vec<ValidationIssue> = Vec::new();
        issues.push(
            ValidationIssue {
                issue_id: new_task_id(),
                severity: String::from_str("warning"),
                category: String::from_str("best_practice"),
                message: String::from_str(
                    "Consider using explicit column names instead of SELECT *",
                ),
                line_number: Some(1),
                column_number: Some(8),
                suggestion: Some(String::from_str("SELECT id, name, email FROM users")),
            },
        );
        let mut quick_fixes: Vec<QuickFix> = Vec::new();
        quick_fixes.push(
            QuickFix {
                fix_id: new_task_id(),
                description: String::from_str("Replace SELECT * with explicit column names"),
                original_text: String::from_str("SELECT *"),
                replacement_text: String::from_str("SELECT id, name, email"),
                confidence_percent: 95,
            },
        );
        Ok(
            AnalysisResultData::Validation {
                is_valid: true,
                issues,
                quick_fixes,
                overall_score_percent: Some(85),
            },
        )
    }
}

/// The progress stage announced at a given percentage.
pub open spec fn stage_of(progress: u8) -> Seq<char> {
    if progress <= 25 {
        "analyzing"@
    } else if progress <= 75 {
        "processing"@
    } else if progress <= 99 {
        "formatting"@
    } else if progress == 100 {
        "completed"@
    } else {
        "unknown"@
    }
}

/// Render the progress stage announced at a given percentage.
pub fn stage_for_progress(progress: u8) -> (r: String)
    ensures
        r@ == stage_of(progress),
{
    if progress <= 25 {
        String::from_str("analyzing")
    } else if progress <= 75 {
        String::from_str("processing")
    } else if progress <= 99 {
        String::from_str("formatting")
    } else if progress == 100 {
        String::from_str("completed")
    } else {
        String::from_str("unknown")
    }
}

/// Mathematical model of the task registry: task ids with their states.
pub ghost struct TaskRegistryModel {
    pub tasks: Seq<(Seq<char>, AITaskStatus)>,
}

/// The registry of active analysis tasks.
#[derive(Debug)]
pub struct AITaskManager {
    active_tasks: Vec<AITaskInfo>,
    explain_handler: ExplainTaskHandler,
    optimize_handler: OptimizeTaskHandler,
    validate_handler: ValidateTaskHandler,
}

impl View for AITaskManager {
    type V = TaskRegistryModel;

    closed spec fn view(&self) -> TaskRegistryModel {
        TaskRegistryModel {
            tasks: Seq::new(
                self.active_tasks@.len(),
                |i: int| (self.active_tasks@[i].task_id@, self.active_tasks@[i].status),
            ),
        }
    }
}

impl AITaskManager {
    /// A fresh registry with no active task.
    pub fn new() -> (r: Self)
        ensures
            r@.tasks.len() == 0,
    {
        let r = AITaskManager {
            active_tasks: Vec::new(),
            explain_handler: ExplainTaskHandler,
            optimize_handler: OptimizeTaskHandler,
            validate_handler: ValidateTaskHandler,
        };
        proof {
            assert(r@.tasks =~= Seq::<(Seq<char>, AITaskStatus)>::empty());
        }
        r
    }

    /// Register a fresh task as pending.
    pub fn begin_task(&mut self, task_id: String, task_type: AITaskType, now_ms: u64)
        ensures
            final(self)@.tasks == old(self)@.tasks.push((task_id@, AITaskStatus::Pending)),
    {
        self.active_tasks.push(
            AITaskInfo {
                task_id,
                task_type,
                status: AITaskStatus::Pending,
                created_at_ms: now_ms,
                updated_at_ms: now_ms,
            },
        );
        proof {
            assert(self@.tasks =~= old(self)@.tasks.push(
                (self.active_tasks@.last().task_id@, AITaskStatus::Pending),
            ));
        }
    }

    /// Move a task to a new status; a task not in the registry is left
    /// alone, and the call says which happened.  With several tasks under
    /// one id, the first takes the update.
    pub fn update_task_status(&mut self, task_id: &str, status: AITaskStatus) -> (found: bool)
        ensures
            found == exists|i: int|
                0 <= i < old(self)@.tasks.len() && (#[trigger] old(self)@.tasks[i]).0 == task_id@,
            !found ==> final(self)@.tasks == old(self)@.tasks,
            found ==> exists|i: int|
                {
                    &&& 0 <= i < old(self)@.tasks.len()
                    &&& (#[trigger] old(self)@.tasks[i]).0 == task_id@
                    &&& (forall|j: int| 0 <= j < i ==> old(self)@.tasks[j].0 != task_id@)
                    &&& final(self)@.tasks == old(self)@.tasks.update(i, (task_id@, status))
                },
    {
        let now = clock::now_millis();
        let n = self.active_tasks.len();
        let mut i: usize = 0;
        while i < n
            invariant
                n == self.active_tasks@.len(),
                i <= n,
                self@ == old(self)@,
                forall|j: int| 0 <= j < i ==> (#[trigger] self@.tasks[j]).0 != task_id@,
            decreases n - i,
        {
            if str_equal(self.active_tasks[i].task_id.as_str(), task_id) {
                let old_info = self.active_tasks[i].clone_info();
                self.active_tasks.set(
                    i,
                    AITaskInfo {
                        task_id: old_info.task_id,
                        task_type: old_info.task_type,
                        status,
                        created_at_ms: old_info.created_at_ms,
                        updated_at_ms: now,
                    },
                );
                proof {
                    assert((#[trigger] old(self)@.tasks[i as int]).0 == task_id@);
                    assert(forall|j: int|
                        0 <= j < i as int ==> old(self)@.tasks[j].0 != task_id@);
                    assert(self@.tasks =~= old(self)@.tasks.update(
                        i as int,
                        (task_id@, status),
                    ));
                }
                return true;
            }
            i = i + 1;
        }
        proof {
            if exists|j: int|
                0 <= j < old(self)@.tasks.len() && (#[trigger] old(self)@.tasks[j]).0 == task_id@ {
                let w = choose|j: int|
                    0 <= j < old(self)@.tasks.len() && (#[trigger] old(self)@.tasks[j]).0
                        == task_id@;
            }
            assert(self@.tasks =~= old(self)@.tasks);
        }
        false
    }

    /// Mark a task cancelled: succeeds exactly when the task is active, and
    /// then the first entry under the id moves to `Cancelled` with every
    /// other entry untouched; an unknown id changes nothing and names
    /// itself in the error.
    pub fn cancel_analysis(&mut self, analysis_id: &str) -> (r: Result<(), String>)
        ensures
            r is Ok <==> exists|i: int|
                0 <= i < old(self)@.tasks.len() && (#[trigger] old(self)@.tasks[i]).0
                    == analysis_id@,
            r is Ok ==> exists|i: int|
                {
                    &&& 0 <= i < old(self)@.tasks.len()
                    &&& (#[trigger] old(self)@.tasks[i]).0 == analysis_id@
                    &&& (forall|j: int| 0 <= j < i ==> old(self)@.tasks[j].0 != analysis_id@)
                    &&& final(self)@.tasks == old(self)@.tasks.update(
                        i,
                        (analysis_id@, AITaskStatus::Cancelled),
                    )
                },
            match r {
                Ok(()) => true,
                Err(m) => {
                    &&& final(self)@.tasks == old(self)@.tasks
                    &&& m@ == "Analysis with ID "@ + analysis_id@ + " not found"@
                },
            },
    {
        let found = self.update_task_status(analysis_id, AITaskStatus::Cancelled);
        if found {
            Ok(())
        } else {
            let mut msg = String::from_str("Analysis with ID ");
            msg.append(analysis_id);
            msg.append(" not found");
            Err(msg)
        }
    }

    /// Take a finished task out of the registry: exactly the first entry
    /// under that id goes; with none there, nothing changes.
    pub fn finish_task(&mut self, task_id: &str)
        ensures
            (forall|i: int|
                0 <= i < old(self)@.tasks.len() ==> (#[trigger] old(self)@.tasks[i]).0
                    != task_id@) ==> final(self)@.tasks == old(self)@.tasks,
            forall|i: int|
                {
                    &&& 0 <= i < old(self)@.tasks.len()
                    &&& (#[trigger] old(self)@.tasks[i]).0 == task_id@
                    &&& (forall|j: int| 0 <= j < i ==> old(self)@.tasks[j].0 != task_id@)
                } ==> final(self)@.tasks == old(self)@.tasks.remove(i),
    {
        let n = self.active_tasks.len();
        let mut i: usize = 0;
        while i < n
            invariant
                n == self.active_tasks@.len(),
                i <= n,
                self@ == old(self)@,
                forall|j: int| 0 <= j < i ==> (#[trigger] self@.tasks[j]).0 != task_id@,
            decreases n - i,
        {
            if str_equal(self.active_tasks[i].task_id.as_str(), task_id) {
                proof {
                    assert((#[trigger] old(self)@.tasks[i as int]).0 == task_id@);
                }
                self.active_tasks.remove(i);
                proof {
                    assert(self@.tasks =~= old(self)@.tasks.remove(i as int));
                }
                return ;
            }
            i = i + 1;
        }
    }

    /// The active tasks, in registration order.
    pub fn get_active_tasks(&self) -> (r: Vec<AITaskInfo>)
        ensures
            r@.len() == self@.tasks.len(),
            forall|i: int|
                0 <= i < r@.len() ==> (#[trigger] r@[i]).task_id@ == self@.tasks[i].0
                    && r@[i].status == self@.tasks[i].1,
    {
        let n = self.active_tasks.len();
        let mut out: Vec<AITaskInfo> = Vec::new();
        let mut i: usize = 0;
        while i < n
            invariant
                n == self.active_tasks@.len(),
                i <= n,
                out@.len() == i,
                forall|j: int|
                    0 <= j < i ==> (#[trigger] out@[j]).task_id@ == self@.tasks[j].0
                        && out@[j].status == self@.tasks[j].1,
            decreases n - i,
        {
            let info = self.active_tasks[i].clone_info();
            out.push(info);
            i = i + 1;
        }
        out
    }

    /// Run one analysis through its handler: the placeholder result of the
    /// requested task kind, wrapped up with the given id.
    pub fn run_analysis(&self, analysis_id: String, request: &AIAnalysisRequest) -> (r:
        AIAnalysisResult)
        ensures
            r.task_type == request.task_type,
            r.analysis_id@ == analysis_id@,
            r.success,
            r.result is Some,
            r.confidence_percent == Some(90u32),
    {
        let handled = match request.task_type {
            AITaskType::Explain => self.explain_handler.handle_task(request),
            AITaskType::Optimize => self.optimize_handler.handle_task(request),
            AITaskType::Validate => self.validate_handler.handle_task(request),
        };
        match handled {
            Ok(data) => AIAnalysisResult {
                analysis_id,
                task_type: request.task_type,
                success: true,
                result: Some(data),
                confidence_percent: Some(90),
                execution_time_ms: None,
                error_message: None,
            },
            Err(e) => AIAnalysisResult {
                analysis_id,
                task_type: request.task_type,
                success: false,
                result: None,
                confidence_percent: None,
                execution_time_ms: None,
                error_message: Some(e),
            },
        }
    }
}

impl AITaskInfo {
    /// A field-for-field copy.
    pub fn clone_info(&self) -> (r: Self)
        ensures
            r.task_id@ == self.task_id@,
            r.task_type == self.task_type,
            r.status == self.status,
            r.created_at_ms == self.created_at_ms,
            r.updated_at_ms == self.updated_at_ms,
    {
        AITaskInfo {
            task_id: self.task_id.clone(),
            task_type: self.task_type,
            status: self.status,
            created_at_ms: self.created_at_ms,
            updated_at_ms: self.updated_at_ms,
        }
    }
}

/// Whether two strings are equal.
fn str_equal(a: &str, b: &str) -> (r: bool)
    ensures
        r == (a@ == b@),
{
    let na = a.unicode_len();
    let nb = b.unicode_len();
    if na != nb {
        proof {
            assert(a@ != b@);
        }
        return false;
    }
    let mut i: usize = 0;
    while i < na
        invariant
            na == a@.len(),
            na == b@.len(),
            i <= na,
            forall|j: int| 0 <= j < i ==> a@[j] == b@[j],
        decreases na - i,
    {
        if a.get_char(i) != b.get_char(i) {
            return false;
        }
        i = i + 1;
    }
    proof {
        assert(a@ =~= b@);
    }
    true
}

} // verus!
