use ai_engine_core::analysis::{stage_for_progress, AIAnalysisOptions, AIAnalysisRequest, AITaskManager, AITaskStatus, AITaskType, AnalysisResultData, ExplainTaskHandler, OptimizeTaskHandler, ValidateTaskHandler};
use ai_engine_core::sqlcheck::validate_sql_syntax;
use ai_engine_core::templates::{
    process_template_content, replace_all_occurrences, ParameterSubstitution, SortOrder,
    TemplateError, TemplateFilter, TemplateParameter, TemplateSortBy,
};

fn request(task_type: AITaskType) -> AIAnalysisRequest {
    AIAnalysisRequest {
        sql: "SELECT * FROM users".to_string(),
        task_type,
        connection_id: "c1".to_string(),
        schema_context: None,
        analysis_options: None,
    }
}

#[test]
fn handlers_declare_their_kind_and_budget() {
    let req = request(AITaskType::Explain);
    assert_eq!(ExplainTaskHandler.get_task_type(), AITaskType::Explain);
    assert_eq!(OptimizeTaskHandler.get_task_type(), AITaskType::Optimize);
    assert_eq!(ValidateTaskHandler.get_task_type(), AITaskType::Validate);
    assert_eq!(ExplainTaskHandler.estimate_duration(&req), 15);
    assert_eq!(OptimizeTaskHandler.estimate_duration(&req), 25);
    assert_eq!(ValidateTaskHandler.estimate_duration(&req), 10);
}

#[test]
fn explain_handler_produces_the_two_step_walkthrough() {
    match ExplainTaskHandler.handle_task(&request(AITaskType::Explain)) {
        Ok(AnalysisResultData::Explanation { detailed_steps, data_sources, operations, .. }) => {
            assert_eq!(detailed_steps.len(), 2);
            assert_eq!(detailed_steps[0].operation, "SELECT");
            assert_eq!(detailed_steps[1].operation, "WHERE");
            assert_eq!(data_sources, vec!["users".to_string()]);
            assert_eq!(operations, vec!["SELECT".to_string(), "WHERE".to_string()]);
        },
        other => panic!("expected an explanation, got {:?}", other),
    }
}

#[test]
fn optimize_handler_echoes_the_query() {
    match OptimizeTaskHandler.handle_task(&request(AITaskType::Optimize)) {
        Ok(AnalysisResultData::Optimization { original_query, optimized_query, optimizations, performance_impact }) => {
            assert_eq!(original_query, "SELECT * FROM users");
            assert_eq!(
                optimized_query.as_deref(),
                Some("-- Optimized version\nSELECT * FROM users")
            );
            assert_eq!(optimizations.len(), 1);
            assert_eq!(optimizations[0].category, "index");
            assert_eq!(optimizations[0].suggestion_id.len(), 36);
            assert_eq!(
                performance_impact.unwrap().estimated_improvement_percent,
                Some(75)
            );
        },
        other => panic!("expected an optimization, got {:?}", other),
    }
}

#[test]
fn validate_handler_flags_select_star() {
    match ValidateTaskHandler.handle_task(&request(AITaskType::Validate)) {
        Ok(AnalysisResultData::Validation { is_valid, issues, quick_fixes, overall_score_percent }) => {
            assert!(is_valid);
            assert_eq!(issues.len(), 1);
            assert_eq!(issues[0].severity, "warning");
            assert_eq!(issues[0].category, "best_practice");
            assert_eq!(quick_fixes.len(), 1);
            assert_eq!(quick_fixes[0].original_text, "SELECT *");
            assert_eq!(overall_score_percent, Some(85));
        },
        other => panic!("expected a validation, got {:?}", other),
    }
}

#[test]
fn task_registry_tracks_the_lifecycle() {
    let mut mgr = AITaskManager::new();
    assert_eq!(mgr.get_active_tasks().len(), 0);
    mgr.begin_task("t1".to_string(), AITaskType::Explain, 500);
    mgr.begin_task("t2".to_string(), AITaskType::Validate, 600);
    let tasks = mgr.get_active_tasks();
    assert_eq!(tasks.len(), 2);
    assert_eq!(tasks[0].task_id, "t1");
    assert_eq!(tasks[0].status, AITaskStatus::Pending);

    assert!(mgr.update_task_status("t1", AITaskStatus::Processing));
    assert_eq!(mgr.get_active_tasks()[0].status, AITaskStatus::Processing);
    assert!(!mgr.update_task_status("missing", AITaskStatus::Processing));

    mgr.finish_task("t1");
    let left = mgr.get_active_tasks();
    assert_eq!(left.len(), 1);
    assert_eq!(left[0].task_id, "t2");
}

#[test]
fn cancelling_an_unknown_task_reports_it() {
    let mut mgr = AITaskManager::new();
    mgr.begin_task("t1".to_string(), AITaskType::Optimize, 500);
    assert!(mgr.cancel_analysis("t1").is_ok());
    assert_eq!(mgr.get_active_tasks()[0].status, AITaskStatus::Cancelled);
    assert_eq!(
        mgr.cancel_analysis("nope").unwrap_err(),
        "Analysis with ID nope not found"
    );
}

#[test]
fn run_analysis_wraps_the_handler_result() {
    let mgr = AITaskManager::new();
    let result = mgr.run_analysis("a1".to_string(), &request(AITaskType::Explain));
    assert_eq!(result.analysis_id, "a1");
    assert_eq!(result.task_type, AITaskType::Explain);
    assert!(result.success);
    assert!(result.result.is_some());
    assert_eq!(result.confidence_percent, Some(90));
}

#[test]
fn progress_stages_follow_the_bands() {
    assert_eq!(stage_for_progress(0), "analyzing");
    assert_eq!(stage_for_progress(25), "analyzing");
    assert_eq!(stage_for_progress(26), "processing");
    assert_eq!(stage_for_progress(75), "processing");
    assert_eq!(stage_for_progress(76), "formatting");
    assert_eq!(stage_for_progress(99), "formatting");
    assert_eq!(stage_for_progress(100), "completed");
    assert_eq!(stage_for_progress(101), "unknown");
}

#[test]
fn analysis_options_defaults() {
    let o = AIAnalysisOptions::default();
    assert_eq!(o.timeout_seconds, Some(30));
    assert_eq!(o.include_confidence, Some(true));
    assert_eq!(o.detailed_explanation, Some(true));
    assert_eq!(o.performance_estimates, Some(true));
    assert_eq!(
        o.severity_filtering,
        Some(vec!["error".to_string(), "warning".to_string(), "info".to_string()])
    );
}

#[test]
fn template_filter_defaults() {
    let f = TemplateFilter::default();
    assert!(f.search_query.is_none());
    assert!(f.category_id.is_none());
    assert!(f.is_favorite.is_none());
    assert_eq!(f.sort_by, Some(TemplateSortBy::UpdatedAt));
    assert_eq!(f.sort_order, Some(SortOrder::Desc));
    assert!(f.limit.is_none());
    assert!(f.offset.is_none());
    assert_eq!(TemplateSortBy::default(), TemplateSortBy::UpdatedAt);
    assert_eq!(SortOrder::default(), SortOrder::Desc);
}

#[test]
fn template_error_messages() {
    assert_eq!(
        TemplateError::NotFound("t9".to_string()).message(),
        "Template not found: t9"
    );
    assert_eq!(
        TemplateError::DuplicateName("daily".to_string()).message(),
        "Template name already exists: daily"
    );
    assert_eq!(
        TemplateError::ValidationError("empty content".to_string()).message(),
        "Validation error: empty content"
    );
}

#[test]
fn sql_syntax_check_follows_the_rules() {
    let blank = validate_sql_syntax("   ", "postgresql");
    assert!(blank.is_valid);
    assert!(blank.errors.is_empty() && blank.warnings.is_empty() && blank.suggestions.is_empty());

    let v = validate_sql_syntax("SELECT 1", "postgresql");
    assert!(v.is_valid);
    assert_eq!(v.warnings.len(), 1);
    assert_eq!(v.warnings[0].message, "SELECT statement without FROM clause");
    assert_eq!(v.suggestions.len(), 1);

    let v = validate_sql_syntax("select count(* from users", "mysql");
    assert!(!v.is_valid);
    assert_eq!(v.errors.len(), 1);
    assert_eq!(v.errors[0].message, "Unmatched parentheses");
    assert_eq!(v.warnings.len(), 0);

    let v = validate_sql_syntax("SELECT id FROM users", "oracle");
    assert!(v.is_valid);
    assert!(v.warnings.is_empty());
    assert!(v.suggestions.is_empty());
}

#[test]
fn placeholder_substitution_applies_values_and_defaults() {
    let parameters = vec![
        TemplateParameter {
            id: "p1".to_string(),
            template_id: "t1".to_string(),
            name: "table".to_string(),
            default_value: None,
            description: None,
        },
        TemplateParameter {
            id: "p2".to_string(),
            template_id: "t1".to_string(),
            name: "limit".to_string(),
            default_value: Some("10".to_string()),
            description: None,
        },
        TemplateParameter {
            id: "p3".to_string(),
            template_id: "t1".to_string(),
            name: "orphan".to_string(),
            default_value: None,
            description: None,
        },
    ];
    let substitutions = vec![ParameterSubstitution {
        parameter_name: "table".to_string(),
        value: "users".to_string(),
    }];

    let processed = process_template_content(
        "SELECT * FROM {{table}} LIMIT {{limit}}",
        &parameters,
        &substitutions,
    )
    .expect("clean values must be accepted");
    assert_eq!(processed.original_content, "SELECT * FROM {{table}} LIMIT {{limit}}");
    assert_eq!(processed.processed_content, "SELECT * FROM users LIMIT 10");
    assert_eq!(processed.substitutions.len(), 2);
    assert_eq!(processed.missing_parameters, vec!["orphan".to_string()]);
}

#[test]
fn dangerous_substitution_values_are_refused() {
    let parameters = vec![TemplateParameter {
        id: "p1".to_string(),
        template_id: "t1".to_string(),
        name: "v".to_string(),
        default_value: None,
        description: None,
    }];
    for bad in ["x'; DROP TABLE users", "a\"b", "semi;colon", "back\\slash", "nul\0"] {
        let subs = vec![ParameterSubstitution {
            parameter_name: "v".to_string(),
            value: bad.to_string(),
        }];
        assert!(process_template_content("{{v}}", &parameters, &subs).is_err());
    }
}

#[test]
fn replace_all_is_left_to_right_without_rescan() {
    assert_eq!(replace_all_occurrences("aaa", "aa", "b"), "ba");
    assert_eq!(replace_all_occurrences("x{{p}}y{{p}}", "{{p}}", "q"), "xqyq");
    assert_eq!(replace_all_occurrences("abc", "zz", "q"), "abc");
    assert_eq!(replace_all_occurrences("abab", "ab", "ab!"), "ab!ab!");
}
