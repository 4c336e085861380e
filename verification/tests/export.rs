use salesforce_exporter::config::{ExportItem, ExportSpec};
use salesforce_exporter::export::{
    choose_export, failure_text, BatchRun, ExportMode, ExportStep, NothingNamed, StepReport,
};

fn item(object: &str) -> ExportItem {
    ExportItem { object: object.to_string(), fields: None, limit: None, output: None }
}

fn spec(objects: &[&str]) -> ExportSpec {
    ExportSpec {
        output_dir: None,
        limit: None,
        export: objects.iter().map(|o| item(o)).collect(),
    }
}

fn due(run: &BatchRun) -> Option<(String, ExportStep)> {
    run.action().map(|a| (a.object, a.step))
}

fn at(object: &str, step: ExportStep) -> Option<(String, ExportStep)> {
    Some((object.to_string(), step))
}

fn fail(run: &mut BatchRun, error: &str) -> String {
    match run.finish_step(Err(error.to_string())) {
        StepReport::Failed { message } => message,
        report => panic!("{report:?}"),
    }
}

#[test]
fn an_export_goes_step_by_step() {
    assert_eq!(ExportStep::first(false), ExportStep::Fetch);
    assert_eq!(ExportStep::Fetch.next(false), Some(ExportStep::ResolveOutput));
    assert_eq!(ExportStep::ResolveOutput.next(false), Some(ExportStep::WriteParquet));
    assert_eq!(ExportStep::WriteParquet.next(false), None);
}

#[test]
fn a_dry_run_neither_fetches_nor_writes() {
    assert_eq!(ExportStep::first(true), ExportStep::ResolveFields);
    assert_eq!(ExportStep::ResolveFields.next(true), Some(ExportStep::ResolveOutput));
    assert_eq!(ExportStep::ResolveOutput.next(true), None);
}

#[test]
fn a_batch_goes_before_an_object() {
    assert!(matches!(choose_export(Some("c"), Some("o")), Ok(ExportMode::Batch("c"))));
    assert!(matches!(choose_export(Some("c"), None::<&str>), Ok(ExportMode::Batch("c"))));
    assert!(matches!(choose_export(None::<&str>, Some("o")), Ok(ExportMode::Single("o"))));
    assert!(matches!(choose_export(None::<&str>, None::<&str>), Err(NothingNamed)));
    assert_eq!(
        NothingNamed.message(),
        "Either an object name or --config must be provided. \
         See 'salesforce-exporter export --help' for usage."
    );
}

#[test]
fn failures_are_put_in_words() {
    assert_eq!(failure_text("A", ExportStep::ResolveFields, "e"), "A: e");
    assert_eq!(failure_text("A", ExportStep::Fetch, "e"), "A: e");
    assert_eq!(
        failure_text("A", ExportStep::ResolveOutput, "e"),
        "A: failed to resolve output path: e"
    );
    assert_eq!(
        failure_text("A", ExportStep::WriteParquet, "e"),
        "A: failed to write parquet: e"
    );
}

#[test]
fn a_batch_takes_every_object_whatever_fails() {
    let mut run = BatchRun::new(spec(&["A", "B", "C", "D"]), false);
    assert_eq!(due(&run), at("A", ExportStep::Fetch));
    assert_eq!(fail(&mut run, "offline"), "A: offline");
    assert_eq!(due(&run), at("B", ExportStep::Fetch));
    assert!(matches!(run.finish_step(Ok(())), StepReport::Continues));
    assert_eq!(due(&run), at("B", ExportStep::ResolveOutput));
    assert_eq!(fail(&mut run, "denied"), "B: failed to resolve output path: denied");
    assert_eq!(due(&run), at("C", ExportStep::Fetch));
    assert!(matches!(run.finish_step(Ok(())), StepReport::Continues));
    assert!(matches!(run.finish_step(Ok(())), StepReport::Continues));
    assert_eq!(due(&run), at("C", ExportStep::WriteParquet));
    assert_eq!(fail(&mut run, "full"), "C: failed to write parquet: full");
    assert_eq!(due(&run), at("D", ExportStep::Fetch));
    assert!(matches!(run.finish_step(Ok(())), StepReport::Continues));
    assert!(matches!(run.finish_step(Ok(())), StepReport::Continues));
    assert!(matches!(run.finish_step(Ok(())), StepReport::Succeeded));
    assert_eq!(due(&run), None);
    assert_eq!(
        run.report(),
        vec![
            "",
            "Batch export complete: 1 succeeded, 3 failed",
            "",
            "Failures:",
            "  - A: offline",
            "  - B: failed to resolve output path: denied",
            "  - C: failed to write parquet: full",
        ]
    );
    assert_eq!(run.outcome(), Err("Batch export completed with 3 failures".to_string()));
}

#[test]
fn a_batch_that_goes_well_has_no_failures() {
    let mut run = BatchRun::new(spec(&["A"]), true);
    assert_eq!(due(&run), at("A", ExportStep::ResolveFields));
    assert!(matches!(run.finish_step(Ok(())), StepReport::Continues));
    assert_eq!(due(&run), at("A", ExportStep::ResolveOutput));
    assert!(matches!(run.finish_step(Ok(())), StepReport::Succeeded));
    assert_eq!(due(&run), None);
    assert_eq!(run.report(), vec!["", "Batch export complete: 1 succeeded, 0 failed"]);
    assert_eq!(run.outcome(), Ok(()));
}

#[test]
fn an_empty_batch_goes_well() {
    let run = BatchRun::new(spec(&[]), false);
    assert_eq!(due(&run), None);
    assert_eq!(run.outcome(), Ok(()));
}

#[test]
fn items_override_the_defaults_of_the_batch() {
    let mut asked = spec(&["A", "B"]);
    asked.limit = Some(100);
    asked.output_dir = Some("out".to_string());
    asked.export[1].limit = Some(5);
    asked.export[1].output = Some("b.parquet".to_string());
    asked.export[1].fields = Some(vec!["Id".to_string(), "Name".to_string()]);
    let mut run = BatchRun::new(asked, false);
    let action = run.action().unwrap();
    assert_eq!(action.limit, Some(100));
    assert_eq!(action.output, Some("out".to_string()));
    assert_eq!(action.fields, None);
    fail(&mut run, "x");
    let action = run.action().unwrap();
    assert_eq!(action.object, "B");
    assert_eq!(action.limit, Some(5));
    assert_eq!(action.output, Some("b.parquet".to_string()));
    assert_eq!(action.fields, Some(vec!["Id".to_string(), "Name".to_string()]));
}

#[test]
fn limits_and_outputs_may_be_absent() {
    let run = BatchRun::new(spec(&["A"]), false);
    let action = run.action().unwrap();
    assert_eq!(action.limit, None);
    assert_eq!(action.output, None);
}

#[test]
fn a_batch_that_is_done_takes_no_further_step() {
    let mut run = BatchRun::new(spec(&[]), false);
    let late = run.finish_step(Err("late".to_string()));
    assert!(matches!(late, StepReport::Continues));
    assert_eq!(due(&run), None);
    assert_eq!(run.report(), vec!["", "Batch export complete: 0 succeeded, 0 failed"]);
    assert_eq!(run.outcome(), Ok(()));
}
