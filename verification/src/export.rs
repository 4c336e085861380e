//! The course of an export: of one object, and of a batch.
use crate::config::{law_item_goes_before_defaults, ExportItem, ExportSpec};
use crate::text::{decimal, decimal_text, law_decimal_reads_back, number_read};
use vstd::prelude::*;
use vstd::string::*;

verus! {

/// A step of exporting one object.
#[derive(Clone, Copy, Debug, PartialEq, Eq, Structural)]
pub enum ExportStep {
    /// Finds out which fields would be exported.
    ResolveFields,
    /// Fetches the records and makes them into a batch.
    Fetch,
    /// Finds out where to write, and makes the directory.
    ResolveOutput,
    /// Writes the batch to the file.
    WriteParquet,
}

/// The step that an export begins with.
pub open spec fn first_step(dry_run: bool) -> ExportStep {
    if dry_run {
        ExportStep::ResolveFields
    } else {
        ExportStep::Fetch
    }
}

/// The step that follows one that went well; none behind the last.
pub open spec fn next_step(dry_run: bool, step: ExportStep) -> Option<ExportStep> {
    match step {
        ExportStep::ResolveFields | ExportStep::Fetch => Some(ExportStep::ResolveOutput),
        ExportStep::ResolveOutput => if dry_run {
            None
        } else {
            Some(ExportStep::WriteParquet)
        },
        ExportStep::WriteParquet => None,
    }
}

/// Whether a step belongs to such an export: a dry run fetches and writes nothing.
pub open spec fn step_belongs(dry_run: bool, step: ExportStep) -> bool {
    match step {
        ExportStep::ResolveFields => dry_run,
        ExportStep::Fetch => !dry_run,
        ExportStep::ResolveOutput => true,
        ExportStep::WriteParquet => !dry_run,
    }
}

impl ExportStep {
    /// The step that an export begins with.
    pub fn first(dry_run: bool) -> (step: ExportStep)
        ensures
            step == first_step(dry_run),
    {
        if dry_run {
            ExportStep::ResolveFields
        } else {
            ExportStep::Fetch
        }
    }

    /// The step that follows once this one went well; none behind the last.
    pub fn next(self, dry_run: bool) -> (step: Option<ExportStep>)
        ensures
            step == next_step(dry_run, self),
    {
        match self {
            ExportStep::ResolveFields | ExportStep::Fetch => Some(ExportStep::ResolveOutput),
            ExportStep::ResolveOutput => if dry_run {
                None
            } else {
                Some(ExportStep::WriteParquet)
            },
            ExportStep::WriteParquet => None,
        }
    }
}

/// An export fetches, finds its place and writes, in this order; a dry run resolves the
/// fields and finds the place, and never fetches or writes.
pub proof fn law_steps_of_an_export(dry_run: bool, step: ExportStep)
    requires
        step_belongs(dry_run, step),
    ensures
        step_belongs(dry_run, first_step(dry_run)),
        first_step(false) == ExportStep::Fetch,
        first_step(true) == ExportStep::ResolveFields,
        next_step(dry_run, step) matches Some(next) ==> step_belongs(dry_run, next),
        next_step(false, ExportStep::Fetch) == Some(ExportStep::ResolveOutput),
        next_step(false, ExportStep::ResolveOutput) == Some(ExportStep::WriteParquet),
        next_step(false, ExportStep::WriteParquet) is None,
        next_step(true, ExportStep::ResolveFields) == Some(ExportStep::ResolveOutput),
        next_step(true, ExportStep::ResolveOutput) is None,
        next_step(false, ExportStep::ResolveFields) == Some(ExportStep::ResolveOutput),
        next_step(true, ExportStep::Fetch) == Some(ExportStep::ResolveOutput),
        next_step(true, ExportStep::WriteParquet) is None,
        dry_run ==> step != ExportStep::Fetch && step != ExportStep::WriteParquet,
{
}

/// What is exported: one object, or a batch that a file describes.
#[derive(Debug)]
pub enum ExportMode<C, O> {
    Batch(C),
    Single(O),
}

/// Neither an object nor a batch was named.
#[derive(Clone, Copy, Debug, PartialEq, Eq, Structural)]
pub struct NothingNamed;

impl NothingNamed {
    /// Puts in words what is missing.
    pub fn message(&self) -> (text: String)
        ensures
            text@
                == "Either an object name or --config must be provided. See 'salesforce-exporter export --help' for usage."@,
    {
        "Either an object name or --config must be provided. See 'salesforce-exporter export --help' for usage.".to_owned()
    }
}

/// What is exported: the batch if one is named, else the object.
pub open spec fn export_mode<C, O>(config: Option<C>, object: Option<O>) -> Result<
    ExportMode<C, O>,
    NothingNamed,
> {
    match (config, object) {
        (Some(config), _) => Ok(ExportMode::Batch(config)),
        (None, Some(object)) => Ok(ExportMode::Single(object)),
        (None, None) => Err(NothingNamed),
    }
}

/// Decides what is exported.
pub fn choose_export<C, O>(config: Option<C>, object: Option<O>) -> (mode: Result<
    ExportMode<C, O>,
    NothingNamed,
>)
    ensures
        mode == export_mode(config, object),
{
    match config {
        Some(config) => Ok(ExportMode::Batch(config)),
        None => match object {
            Some(object) => Ok(ExportMode::Single(object)),
            None => Err(NothingNamed),
        },
    }
}

/// Why an object of a batch was not exported.
pub open spec fn failure_message(object: Seq<char>, step: ExportStep, error: Seq<char>) -> Seq<
    char,
> {
    match step {
        ExportStep::ResolveFields | ExportStep::Fetch => object + ": "@ + error,
        ExportStep::ResolveOutput => object + ": failed to resolve output path: "@ + error,
        ExportStep::WriteParquet => object + ": failed to write parquet: "@ + error,
    }
}

/// Puts in words why an object of a batch was not exported.
pub fn failure_text(object: &str, step: ExportStep, error: &str) -> (text: String)
    ensures
        text@ == failure_message(object@, step, error@),
{
    let middle: &str = match step {
        ExportStep::ResolveFields | ExportStep::Fetch => ": ",
        ExportStep::ResolveOutput => ": failed to resolve output path: ",
        ExportStep::WriteParquet => ": failed to write parquet: ",
    };
    object.to_owned().concat(middle).concat(error)
}

/// How far a batch has come.
pub struct BatchView {
    pub objects: Seq<Seq<char>>,
    pub dry_run: bool,
    /// How many objects are done with, well or not.
    pub done: nat,
    /// What is to be done next, for the object after those; nothing at the end.
    pub step: Option<ExportStep>,
    pub successes: nat,
    /// Why objects were not exported, in order.
    pub failures: Seq<Seq<char>>,
}

impl BatchView {
    /// Before the first step.
    pub open spec fn start(objects: Seq<Seq<char>>, dry_run: bool) -> BatchView {
        BatchView {
            objects,
            dry_run,
            done: 0,
            step: if objects.len() > 0 {
                Some(first_step(dry_run))
            } else {
                None
            },
            successes: 0,
            failures: Seq::empty(),
        }
    }

    /// Every object that is done with is counted once, and a step is due as long as an
    /// object is left.
    pub open spec fn well_formed(self) -> bool {
        &&& self.done <= self.objects.len()
        &&& self.successes + self.failures.len() == self.done
        &&& self.step is Some <==> self.done < self.objects.len()
        &&& self.step matches Some(step) ==> step_belongs(self.dry_run, step)
    }

    /// With the object at hand done with.
    pub open spec fn next_object(self) -> BatchView {
        BatchView {
            done: self.done + 1,
            step: if self.done + 1 < self.objects.len() {
                Some(first_step(self.dry_run))
            } else {
                None
            },
            ..self
        }
    }

    /// After the step at hand, which went well or else failed with an error.
    pub open spec fn after(self, error: Option<Seq<char>>) -> BatchView {
        match self.step {
            None => self,
            Some(step) => match error {
                Some(error) => BatchView {
                    failures: self.failures.push(
                        failure_message(self.objects[self.done as int], step, error),
                    ),
                    ..self.next_object()
                },
                None => match next_step(self.dry_run, step) {
                    Some(next) => BatchView { step: Some(next), ..self },
                    None => BatchView { successes: self.successes + 1, ..self.next_object() },
                },
            },
        }
    }
}

/// What a batch does next: a step of exporting one object, and what it takes.
#[derive(Debug)]
pub struct BatchAction {
    pub step: ExportStep,
    pub object: String,
    pub limit: Option<usize>,
    pub output: Option<String>,
    pub fields: Option<Vec<String>>,
}

impl BatchAction {
    /// Whether this is `step` for an item of a batch, with the item's own settings or else
    /// the defaults of the batch.
    pub open spec fn exports(self, spec: ExportSpec, item: ExportItem, step: ExportStep) -> bool {
        &&& self.step == step
        &&& self.object@ == item.object@
        &&& self.limit == spec.item_limit(item)
        &&& self.output.deep_view() == spec.item_output(item)
        &&& self.fields.deep_view() == item.fields.deep_view()
    }
}

/// What a step of a batch has led to.
#[derive(Debug)]
pub enum StepReport {
    /// The object is not done with yet.
    Continues,
    /// The object was exported, or would be.
    Succeeded,
    /// The object was not exported.
    Failed { message: String },
}

/// A batch export under way. An object that fails is noted, and the next one is taken up.
#[derive(Debug)]
pub struct BatchRun {
    spec: ExportSpec,
    dry_run: bool,
    done: usize,
    step: Option<ExportStep>,
    successes: usize,
    failures: Vec<String>,
}

/// The names of the objects of a batch, in order.
pub open spec fn object_names(items: Seq<ExportItem>) -> Seq<Seq<char>> {
    Seq::new(items.len(), |i: int| items[i].object@)
}

impl View for BatchRun {
    type V = BatchView;

    closed spec fn view(&self) -> BatchView {
        BatchView {
            objects: object_names(self.spec.export@),
            dry_run: self.dry_run,
            done: self.done as nat,
            step: self.step,
            successes: self.successes as nat,
            failures: self.failures.deep_view(),
        }
    }
}

/// The error of a batch with failures.
pub open spec fn batch_error(failed: nat) -> Seq<char> {
    "Batch export completed with "@ + decimal(failed) + " failures"@
}

/// What is said at the end of a batch, line by line.
pub open spec fn closing_report(batch: BatchView) -> Seq<Seq<char>> {
    let counts = seq![
        ""@,
        "Batch export complete: "@ + decimal(batch.successes) + " succeeded, "@ + decimal(
            batch.failures.len(),
        ) + " failed"@,
    ];
    if batch.failures.len() == 0 {
        counts
    } else {
        counts + seq![""@, "Failures:"@] + batch.failures.map_values(
            |failure: Seq<char>| "  - "@ + failure,
        )
    }
}

impl BatchRun {
    /// Every object that is done with is counted once, and a step is due as long as an
    /// object is left.
    #[verifier::type_invariant]
    spec fn counts_add_up(self) -> bool {
        self@.well_formed()
    }

    /// What the batch was asked to do.
    pub closed spec fn asked(self) -> ExportSpec {
        self.spec
    }

    /// Begins a batch.
    pub fn new(spec: ExportSpec, dry_run: bool) -> (run: BatchRun)
        ensures
            run@ == BatchView::start(object_names(spec.export@), dry_run),
            run@.well_formed(),
            run.asked() == spec,
    {
        let step: Option<ExportStep> = if spec.export.len() > 0 {
            Some(ExportStep::first(dry_run))
        } else {
            None
        };
        let failures: Vec<String> = Vec::new();
        assert(failures.deep_view() =~= Seq::<Seq<char>>::empty());
        BatchRun { spec, dry_run, done: 0, step, successes: 0, failures }
    }

    /// What is to be done next; nothing once every object is done with.
    pub fn action(&self) -> (action: Option<BatchAction>)
        ensures
            match (action, self@.step) {
                (Some(action), Some(step)) => action.exports(
                    self.asked(),
                    self.asked().export@[self@.done as int],
                    step,
                ),
                (None, None) => true,
                _ => false,
            },
            self@.well_formed(),
    {
        proof {
            use_type_invariant(self);
        }
        match self.step {
            None => None,
            Some(step) => {
                let item: &ExportItem = &self.spec.export[self.done];
                Some(
                    BatchAction {
                        step,
                        object: item.object.clone(),
                        limit: self.spec.effective_limit(item),
                        output: self.spec.effective_output(item),
                        fields: item.effective_fields(),
                    },
                )
            },
        }
    }

    /// Takes note of how the step at hand went: well, or with an error. Once every object is
    /// done with there is nothing to take note of.
    pub fn finish_step(&mut self, outcome: Result<(), String>) -> (report: StepReport)
        ensures
            final(self)@ == old(self)@.after(
                match outcome {
                    Ok(_) => None,
                    Err(error) => Some(error@),
                },
            ),
            final(self)@.well_formed(),
            final(self).asked() == old(self).asked(),
            match report {
                StepReport::Continues => final(self)@.done == old(self)@.done,
                StepReport::Succeeded => final(self)@.successes == old(self)@.successes + 1,
                StepReport::Failed { message } => final(self)@.failures
                    == old(self)@.failures.push(message@),
            },
    {
        proof {
            use_type_invariant(&*self);
        }
        match self.step {
            None => StepReport::Continues,
            Some(step) => match outcome {
                Err(error) => {
                    let message: String = failure_text(
                        self.spec.export[self.done].object.as_str(),
                        step,
                        error.as_str(),
                    );
                    self.next_object(Some(message.clone()));
                    StepReport::Failed { message }
                },
                Ok(_) => match step.next(self.dry_run) {
                    Some(next) => {
                        self.step = Some(next);
                        StepReport::Continues
                    },
                    None => {
                        self.next_object(None);
                        StepReport::Succeeded
                    },
                },
            },
        }
    }

    /// Is done with the object at hand, which was exported or failed.
    fn next_object(&mut self, failure: Option<String>)
        requires
            old(self)@.step is Some,
        ensures
            final(self)@ == (match failure {
                Some(message) => BatchView {
                    failures: old(self)@.failures.push(message@),
                    ..old(self)@.next_object()
                },
                None => BatchView {
                    successes: old(self)@.successes + 1,
                    ..old(self)@.next_object()
                },
            }),
            final(self).asked() == old(self).asked(),
    {
        proof {
            use_type_invariant(&*self);
        }
        let ghost before = self@;
        let nothing = ExportSpec { output_dir: None, limit: None, export: Vec::new() };
        let mut run: BatchRun = BatchRun::new(nothing, false);
        std::mem::swap(self, &mut run);
        let BatchRun { spec, dry_run, done, step: _, mut successes, mut failures } = run;
        let total: usize = spec.export.len();
        match failure {
            Some(message) => {
                failures.push(message);
                assert(failures.deep_view() =~= before.failures.push(message@));
            },
            None => {
                successes = successes + 1;
            },
        }
        let step: Option<ExportStep> = if done + 1 < total {
            Some(ExportStep::first(dry_run))
        } else {
            None
        };
        *self = BatchRun { spec, dry_run, done: done + 1, step, successes, failures };
    }

    /// What is said at the end of the batch, line by line.
    pub fn report(&self) -> (lines: Vec<String>)
        ensures
            lines.deep_view() == closing_report(self@),
    {
        let mut lines: Vec<String> = Vec::new();
        lines.push("".to_owned());
        lines.push(
            "Batch export complete: ".to_owned().concat(
                decimal_text(self.successes).as_str(),
            ).concat(" succeeded, ").concat(decimal_text(self.failures.len()).as_str()).concat(
                " failed",
            ),
        );
        let ghost counts = lines.deep_view();
        if self.failures.len() == 0 {
            assert(lines.deep_view() =~= closing_report(self@));
            return lines;
        }
        lines.push("".to_owned());
        lines.push("Failures:".to_owned());
        let ghost head = lines.deep_view();
        assert(head =~= counts + seq![""@, "Failures:"@]);
        let mut i: usize = 0;
        while i < self.failures.len()
            invariant
                i <= self.failures.len(),
                lines.len() == head.len() + i,
                forall|j: int| 0 <= j < head.len() ==> (#[trigger] lines@[j])@ == head[j],
                forall|j: int|
                    head.len() <= j < head.len() + i ==> (#[trigger] lines@[j])@ == "  - "@
                        + self.failures@[j - head.len()]@,
            decreases self.failures.len() - i,
        {
            lines.push("  - ".to_owned().concat(self.failures[i].as_str()));
            i = i + 1;
        }
        assert(lines.deep_view() =~= closing_report(self@));
        lines
    }

    /// How the batch went as a whole: well if every object did.
    pub fn outcome(&self) -> (outcome: Result<(), String>)
        ensures
            match outcome {
                Ok(_) => self@.failures.len() == 0,
                Err(error) => self@.failures.len() > 0 && error@ == batch_error(
                    self@.failures.len(),
                ),
            },
    {
        if self.failures.len() == 0 {
            Ok(())
        } else {
            Err(
                "Batch export completed with ".to_owned().concat(
                    decimal_text(self.failures.len()).as_str(),
                ).concat(" failures"),
            )
        }
    }
}

/// How the steps of one object go: the error of each, where it fails.
pub struct Script {
    pub first: Option<Seq<char>>,
    pub output: Option<Seq<char>>,
    pub write: Option<Seq<char>>,
}

impl Script {
    /// Why the object is not exported, if it is not: the first step that fails decides. A
    /// dry run writes nothing, and so cannot fail there.
    pub open spec fn failure(self, object: Seq<char>, dry_run: bool) -> Option<Seq<char>> {
        match self.first {
            Some(error) => Some(failure_message(object, first_step(dry_run), error)),
            None => match self.output {
                Some(error) => Some(failure_message(object, ExportStep::ResolveOutput, error)),
                None => match self.write {
                    Some(error) => if dry_run {
                        None
                    } else {
                        Some(failure_message(object, ExportStep::WriteParquet, error))
                    },
                    None => None,
                },
            },
        }
    }
}

impl BatchView {
    /// After the steps of the object at hand, as a script has them go.
    pub open spec fn after_object(self, script: Script) -> BatchView {
        let one = self.after(script.first);
        if one.done > self.done {
            one
        } else {
            let two = one.after(script.output);
            if two.done > self.done {
                two
            } else {
                two.after(script.write)
            }
        }
    }

    /// After the steps of as many objects as there are scripts.
    pub open spec fn after_objects(self, scripts: Seq<Script>) -> BatchView
        decreases scripts.len(),
    {
        if scripts.len() == 0 {
            self
        } else {
            self.after_objects(scripts.drop_last()).after_object(scripts.last())
        }
    }
}

/// The failures that scripts bring about, in order.
pub open spec fn script_failures(
    objects: Seq<Seq<char>>,
    dry_run: bool,
    scripts: Seq<Script>,
) -> Seq<Seq<char>>
    decreases scripts.len(),
{
    if scripts.len() == 0 {
        Seq::empty()
    } else {
        let before = script_failures(objects, dry_run, scripts.drop_last());
        match scripts.last().failure(objects[scripts.len() - 1], dry_run) {
            Some(message) => before.push(message),
            None => before,
        }
    }
}

/// Every step keeps a batch well formed: each object that is done with is counted once, as
/// exported or as failed, and a dry run comes to no step that fetches or writes.
pub proof fn law_step_keeps_batch_well_formed(batch: BatchView, error: Option<Seq<char>>)
    requires
        batch.well_formed(),
    ensures
        batch.after(error).well_formed(),
        batch.after(error).objects == batch.objects,
        batch.after(error).dry_run == batch.dry_run,
        batch.dry_run ==> batch.step != Some(ExportStep::Fetch) && batch.step != Some(
            ExportStep::WriteParquet,
        ),
{
}

/// How many steps a batch has before it at most.
pub open spec fn steps_left(batch: BatchView) -> int {
    3 * (batch.objects.len() - batch.done) - (match batch.step {
        Some(ExportStep::ResolveOutput) => 1int,
        Some(ExportStep::WriteParquet) => 2,
        _ => 0,
    })
}

/// A batch comes to an end: every step leaves fewer before it, and with none left nothing
/// is to be done.
pub proof fn law_batch_ends(batch: BatchView, error: Option<Seq<char>>)
    requires
        batch.well_formed(),
    ensures
        steps_left(batch) >= 0,
        batch.step is Some ==> steps_left(batch.after(error)) < steps_left(batch),
        steps_left(batch) == 0 <==> batch.step is None,
{
}

/// Every object of a batch is taken up in its turn, whatever became of those before it:
/// once the steps of the first objects have gone as their scripts say, exactly these are
/// done with, the failures are those of the scripts, in order, and the others are exported.
pub proof fn law_batch_takes_every_object(
    objects: Seq<Seq<char>>,
    dry_run: bool,
    scripts: Seq<Script>,
)
    requires
        scripts.len() <= objects.len(),
    ensures
        ({
            let batch = BatchView::start(objects, dry_run).after_objects(scripts);
            let failures = script_failures(objects, dry_run, scripts);
            &&& batch.done == scripts.len()
            &&& batch.failures == failures
            &&& batch.successes == scripts.len() - failures.len()
            &&& batch.step == (if scripts.len() < objects.len() {
                Some(first_step(dry_run))
            } else {
                None
            })
            &&& batch.objects == objects
            &&& batch.dry_run == dry_run
        }),
    decreases scripts.len(),
{
    if scripts.len() > 0 {
        law_batch_takes_every_object(objects, dry_run, scripts.drop_last());
    }
}

/// A batch goes well as a whole exactly if every object of it does.
pub proof fn law_batch_outcome(objects: Seq<Seq<char>>, dry_run: bool, scripts: Seq<Script>)
    requires
        scripts.len() == objects.len(),
    ensures
        BatchView::start(objects, dry_run).after_objects(scripts).failures.len() == 0 <==> (
        forall|i: int|
            0 <= i < scripts.len() ==> (#[trigger] scripts[i]).failure(objects[i], dry_run) is None),
{
    law_batch_takes_every_object(objects, dry_run, scripts);
    lemma_no_failures(objects, dry_run, scripts);
}

proof fn lemma_no_failures(objects: Seq<Seq<char>>, dry_run: bool, scripts: Seq<Script>)
    ensures
        script_failures(objects, dry_run, scripts).len() == 0 <==> (forall|i: int|
            0 <= i < scripts.len() ==> (#[trigger] scripts[i]).failure(objects[i], dry_run)
                is None),
    decreases scripts.len(),
{
    if scripts.len() > 0 {
        let front = scripts.drop_last();
        lemma_no_failures(objects, dry_run, front);
        assert(forall|i: int| 0 <= i < front.len() ==> (#[trigger] front[i]) == scripts[i]);
        assert(scripts.last() == scripts[scripts.len() - 1]);
        if script_failures(objects, dry_run, scripts).len() == 0 {
            assert forall|i: int| 0 <= i < scripts.len() implies (#[trigger] scripts[i]).failure(
                objects[i],
                dry_run,
            ) is None by {
                if i < front.len() {
                    assert(front[i].failure(objects[i], dry_run) is None);
                }
            }
        } else if forall|i: int|
            0 <= i < scripts.len() ==> (#[trigger] scripts[i]).failure(objects[i], dry_run)
                is None {
            assert forall|i: int| 0 <= i < front.len() implies (#[trigger] front[i]).failure(
                objects[i],
                dry_run,
            ) is None by {
                assert(scripts[i].failure(objects[i], dry_run) is None);
            }
        }
    }
}

/// A batch goes before an object: where one is named it is exported, whatever the object,
/// else the object is, and it is an error only if neither is named.
pub proof fn law_batch_goes_before_object<C, O>(config: Option<C>, object: Option<O>)
    ensures
        config matches Some(c) ==> export_mode(config, object) == Ok::<_, NothingNamed>(
            ExportMode::<C, O>::Batch(c),
        ),
        config is None ==> (object matches Some(o) ==> export_mode(config, object) == Ok::<
            _,
            NothingNamed,
        >(ExportMode::<C, O>::Single(o))),
        export_mode(config, object) is Err <==> config is None && object is None,
{
}

/// What is said of a failure begins with the object and ends with the error, and tells the
/// two later steps by name.
pub proof fn law_failures_are_told_in_words(object: Seq<char>, error: Seq<char>)
    ensures
        failure_message(object, ExportStep::ResolveFields, error) == object + ": "@ + error,
        failure_message(object, ExportStep::Fetch, error) == object + ": "@ + error,
        failure_message(object, ExportStep::ResolveOutput, error) == object
            + ": failed to resolve output path: "@ + error,
        failure_message(object, ExportStep::WriteParquet, error) == object
            + ": failed to write parquet: "@ + error,
{
}

/// A batch begins with its first object, with nothing done and nothing counted.
pub proof fn law_batch_begins_with_first_object(objects: Seq<Seq<char>>, dry_run: bool)
    ensures
        ({
            let batch = BatchView::start(objects, dry_run);
            &&& batch.objects == objects
            &&& batch.dry_run == dry_run
            &&& batch.done == 0
            &&& batch.successes == 0
            &&& batch.failures.len() == 0
            &&& objects.len() == 0 ==> batch.step is None
            &&& objects.len() > 0 && dry_run ==> batch.step == Some(ExportStep::ResolveFields)
            &&& objects.len() > 0 && !dry_run ==> batch.step == Some(ExportStep::Fetch)
        }),
{
}

/// A step that fails ends its object: the failure is noted behind those before it, nothing
/// is counted as exported, and the next object begins anew, if there is one.
pub proof fn law_failed_step_ends_its_object(batch: BatchView, error: Seq<char>)
    requires
        batch.well_formed(),
        batch.step is Some,
    ensures
        ({
            let after = batch.after(Some(error));
            let step = batch.step->Some_0;
            let object = batch.objects[batch.done as int];
            &&& after.done == batch.done + 1
            &&& after.successes == batch.successes
            &&& after.objects == batch.objects
            &&& after.dry_run == batch.dry_run
            &&& after.failures == batch.failures.push(failure_message(object, step, error))
            &&& after.step is None <==> batch.done + 1 == batch.objects.len()
            &&& after.step matches Some(next) ==> next == (if batch.dry_run {
                ExportStep::ResolveFields
            } else {
                ExportStep::Fetch
            })
        }),
{
}

/// A step that goes well leads to the next one of its object, and nothing else changes. The
/// last one, which in a dry run is finding the place and else is writing the file, counts
/// the object as exported, and the next object begins anew, if there is one.
pub proof fn law_step_that_goes_well_leads_on(batch: BatchView)
    requires
        batch.well_formed(),
        batch.step is Some,
    ensures
        ({
            let after = batch.after(None);
            let step = batch.step->Some_0;
            let last = if batch.dry_run {
                ExportStep::ResolveOutput
            } else {
                ExportStep::WriteParquet
            };
            &&& after.objects == batch.objects
            &&& after.dry_run == batch.dry_run
            &&& after.failures == batch.failures
            &&& step == last ==> {
                &&& after.done == batch.done + 1
                &&& after.successes == batch.successes + 1
                &&& after.step is None <==> batch.done + 1 == batch.objects.len()
                &&& after.step matches Some(next) ==> next == (if batch.dry_run {
                    ExportStep::ResolveFields
                } else {
                    ExportStep::Fetch
                })
            }
            &&& step != last ==> {
                &&& after.done == batch.done
                &&& after.successes == batch.successes
                &&& after.step == Some(
                    if step == ExportStep::ResolveOutput {
                        ExportStep::WriteParquet
                    } else {
                        ExportStep::ResolveOutput
                    },
                )
            }
        }),
{
}

/// Once every object of a batch is done with, nothing changes any more.
pub proof fn law_batch_at_its_end_stays(batch: BatchView, error: Option<Seq<char>>)
    requires
        batch.step is None,
    ensures
        batch.after(error) == batch,
{
}

/// Every step of an item carries the object, the fields, the limit and the output that the
/// item asks for; the limit and the output of the batch count only for an item that has
/// none.
pub proof fn law_steps_carry_what_the_item_asks_for(
    action: BatchAction,
    spec: ExportSpec,
    item: ExportItem,
    step: ExportStep,
)
    requires
        action.exports(spec, item, step),
    ensures
        action.step == step,
        action.object@ == item.object@,
        item.limit is Some ==> action.limit == item.limit,
        item.limit is None ==> action.limit == spec.limit,
        item.output matches Some(path) ==> (action.output matches Some(taken) && taken@ == path@),
        item.output is None ==> match (action.output, spec.output_dir) {
            (Some(taken), Some(path)) => taken@ == path@,
            (None, None) => true,
            _ => false,
        },
        match (action.fields, item.fields) {
            (Some(taken), Some(asked)) => {
                &&& taken.len() == asked.len()
                &&& forall|i: int| 0 <= i < asked.len() ==> (#[trigger] taken@[i])@ == asked@[i]@
            },
            (None, None) => true,
            _ => false,
        },
{
    law_item_goes_before_defaults(spec, item);
    if let Some(taken) = action.fields {
        if let Some(asked) = item.fields {
            assert(taken.deep_view() == asked.deep_view());
            assert(taken.deep_view().len() == asked.deep_view().len());
            assert forall|i: int| 0 <= i < asked.len() implies (#[trigger] taken@[i])@
                == asked@[i]@ by {
                assert(taken.deep_view()[i] == asked.deep_view()[i]);
            }
        }
    }
}

/// The objects of a batch are those of its items, one for each, in order.
pub proof fn law_objects_follow_items(items: Seq<ExportItem>, i: int)
    requires
        0 <= i < items.len(),
    ensures
        object_names(items).len() == items.len(),
        object_names(items)[i] == items[i].object@,
{
}

/// The closing report gives the numbers of objects that were exported and that failed, and
/// then every failure in order, behind a heading, where there is one.
pub proof fn law_closing_report_tells_everything(batch: BatchView)
    ensures
        ({
            let report = closing_report(batch);
            let failed = batch.failures.len();
            &&& report.len() == (if failed == 0 {
                2
            } else {
                4 + failed
            })
            &&& report[0] == Seq::<char>::empty()
            &&& exists|a: Seq<char>, b: Seq<char>|
                number_read(a) == batch.successes && number_read(b) == failed && digits_only(a)
                    && digits_only(b) && report[1] == #[trigger] counts_line(a, b)
            &&& failed > 0 ==> report[2] == Seq::<char>::empty() && report[3] == "Failures:"@
            &&& forall|i: int|
                0 <= i < failed ==> #[trigger] report[4 + i] == "  - "@ + batch.failures[i]
        }),
{
    let report = closing_report(batch);
    reveal_strlit("");
    assert(""@ =~= Seq::<char>::empty());
    law_decimal_reads_back(batch.successes);
    law_decimal_reads_back(batch.failures.len());
    assert(report[1] == counts_line(decimal(batch.successes), decimal(batch.failures.len())));
}

/// Whether a text is of decimal digits only.
pub open spec fn digits_only(text: Seq<char>) -> bool {
    text.len() > 0 && forall|i: int| 0 <= i < text.len() ==> '0' <= #[trigger] text[i] <= '9'
}

/// The line that gives the two numbers.
pub open spec fn counts_line(succeeded: Seq<char>, failed: Seq<char>) -> Seq<char> {
    "Batch export complete: "@ + succeeded + " succeeded, "@ + failed + " failed"@
}

/// The error of a batch gives the number of objects that failed, which reads back from it.
pub proof fn law_batch_error_gives_the_number(failed: nat)
    ensures
        ({
            let text = batch_error(failed);
            let number = text.subrange(28, text.len() - 9);
            &&& text.len() > 37
            &&& text.take(28) == "Batch export completed with "@
            &&& digits_only(number)
            &&& number_read(number) == failed
            &&& text.skip(text.len() - 9) == " failures"@
        }),
{
    let text = batch_error(failed);
    reveal_strlit("Batch export completed with ");
    reveal_strlit(" failures");
    law_decimal_reads_back(failed);
    assert(text.take(28) =~= "Batch export completed with "@);
    assert(text.subrange(28, text.len() - 9) =~= decimal(failed));
    assert(text.skip(text.len() - 9) =~= " failures"@);
}

} // verus!
