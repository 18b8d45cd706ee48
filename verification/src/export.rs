//! Export plans: what each telemetry export does to the file system.
//!
//! An export is planned here and carried out by the caller. A plan is a list
//! of file operations to perform in order, stopping at the first one that
//! fails, and possibly a failure that is due once they are done.
use crate::config::Config;
use crate::records::{csv_record, normalize_row, single_line, write_csv_record};
use crate::text::{
    lemma_same_frame, lemma_signed_decimal_begins, lemma_signed_decimal_injective,
    push_signed_decimal, signed_decimal,
};
use vstd::prelude::*;
use vstd::string::StringExecFns;

verus! {

/// What the file system holds at the path of an output file.
#[derive(Clone, Copy, Debug, PartialEq, Eq, Structural)]
pub enum Destination {
    /// Nothing.
    Absent,
    /// A regular file.
    File,
    /// Something that is not a regular file, such as a directory.
    Other,
}

/// One operation on the file system. File names are relative to the export
/// directory.
#[derive(Debug, Clone)]
pub enum FileOp {
    /// Create the directory, with its parents, unless something exists at
    /// the path already.
    EnsureDirectory { path: String },
    /// Create the file, or empty it if it exists, and write the bytes.
    Create { name: String, bytes: Vec<u8> },
    /// Open the existing file and write the bytes after its last byte.
    Append { name: String, bytes: Vec<u8> },
}

/// A [`FileOp`] as a mathematical value.
pub enum Operation {
    EnsureDirectory { path: Seq<char> },
    Create { name: Seq<char>, bytes: Seq<u8> },
    Append { name: Seq<char>, bytes: Seq<u8> },
}

impl View for FileOp {
    type V = Operation;

    open spec fn view(&self) -> Operation {
        match self {
            FileOp::EnsureDirectory { path } => Operation::EnsureDirectory { path: path@ },
            FileOp::Create { name, bytes } => Operation::Create { name: name@, bytes: bytes@ },
            FileOp::Append { name, bytes } => Operation::Append { name: name@, bytes: bytes@ },
        }
    }
}

/// Why an export fails without any fault of the file system.
#[derive(Debug)]
pub enum ExportError {
    /// Something other than a regular file sits where the named output file
    /// belongs.
    NotAFile { name: String },
    /// The serializer reported an error. No plan of this crate ends so: the
    /// variant carries what the serializer's signature allows for.
    Csv(csv::Error),
}

/// An [`ExportError`] as a mathematical value.
pub enum Failure {
    NotAFile { name: Seq<char> },
    Csv,
}

impl View for ExportError {
    type V = Failure;

    open spec fn view(&self) -> Failure {
        match self {
            ExportError::NotAFile { name } => Failure::NotAFile { name: name@ },
            ExportError::Csv(_) => Failure::Csv,
        }
    }
}

/// What an export consists of.
///
/// The caller performs the operations in order. If one of them fails, the
/// export fails with that fault and the rest is left undone. If all succeed
/// and `failure` is set, the export fails with it; otherwise it succeeds.
#[derive(Debug)]
pub struct ExportPlan {
    pub operations: Vec<FileOp>,
    pub failure: Option<ExportError>,
}

/// An [`ExportPlan`] as a mathematical value.
pub struct Plan {
    pub operations: Seq<Operation>,
    pub failure: Option<Failure>,
}

impl View for ExportPlan {
    type V = Plan;

    open spec fn view(&self) -> Plan {
        Plan {
            operations: self.operations@.map_values(|op: FileOp| op@),
            failure: match self.failure {
                Some(e) => Some(e@),
                None => None,
            },
        }
    }
}

/// Name of the snapshot file of a step: `{prefix}_{step}.csv`.
pub open spec fn snapshot_name(prefix: Seq<char>, step: int) -> Seq<char> {
    prefix + "_"@ + signed_decimal(step) + ".csv"@
}

/// Name of the history file of a body: `{prefix}_{body}.csv`.
pub open spec fn body_history_name(prefix: Seq<char>, body: Seq<char>) -> Seq<char> {
    prefix + "_"@ + body + ".csv"@
}

/// Name of the file of aggregated parameters: `{prefix}_system_parameters.csv`.
pub open spec fn system_parameters_name(prefix: Seq<char>) -> Seq<char> {
    prefix + "_system_parameters.csv"@
}

/// The snapshots of different steps go to different files.
pub proof fn lemma_snapshot_names_differ(prefix: Seq<char>, one: int, other: int)
    requires
        one != other,
    ensures
        snapshot_name(prefix, one) != snapshot_name(prefix, other),
{
    if snapshot_name(prefix, one) == snapshot_name(prefix, other) {
        lemma_same_frame(prefix + "_"@, signed_decimal(one), signed_decimal(other), ".csv"@);
        lemma_signed_decimal_injective(one, other);
    }
}

/// Bodies of different names have different history files.
pub proof fn lemma_body_history_names_differ(prefix: Seq<char>, one: Seq<char>, other: Seq<char>)
    requires
        one != other,
    ensures
        body_history_name(prefix, one) != body_history_name(prefix, other),
{
    if body_history_name(prefix, one) == body_history_name(prefix, other) {
        lemma_same_frame(prefix + "_"@, one, other, ".csv"@);
    }
}

/// The name of the file of aggregated parameters, taken apart like the
/// names of the other files.
proof fn lemma_system_parameters_name(prefix: Seq<char>)
    ensures
        system_parameters_name(prefix) == prefix + "_"@ + "system_parameters"@ + ".csv"@,
        "system_parameters"@.len() == 17,
        "system_parameters"@[0] == 's',
{
    reveal_strlit("_system_parameters.csv");
    reveal_strlit("_");
    reveal_strlit("system_parameters");
    reveal_strlit(".csv");
    assert(system_parameters_name(prefix) =~= prefix + "_"@ + "system_parameters"@ + ".csv"@);
}

/// No snapshot goes to the file of aggregated parameters.
pub proof fn lemma_snapshot_is_not_parameters(prefix: Seq<char>, step: int)
    ensures
        snapshot_name(prefix, step) != system_parameters_name(prefix),
{
    lemma_system_parameters_name(prefix);
    lemma_signed_decimal_begins(step);
    if snapshot_name(prefix, step) == system_parameters_name(prefix) {
        lemma_same_frame(prefix + "_"@, signed_decimal(step), "system_parameters"@, ".csv"@);
    }
}

/// The history of a body is the file of aggregated parameters only if the
/// body is called `system_parameters`.
pub proof fn lemma_history_is_not_parameters(prefix: Seq<char>, body: Seq<char>)
    requires
        body != "system_parameters"@,
    ensures
        body_history_name(prefix, body) != system_parameters_name(prefix),
{
    lemma_system_parameters_name(prefix);
    if body_history_name(prefix, body) == system_parameters_name(prefix) {
        lemma_same_frame(prefix + "_"@, body, "system_parameters"@, ".csv"@);
    }
}

/// The history of a body is the snapshot file of a step only if the body
/// is called by the numeral of the step.
pub proof fn lemma_history_is_not_snapshot(prefix: Seq<char>, body: Seq<char>, step: int)
    requires
        body != signed_decimal(step),
    ensures
        body_history_name(prefix, body) != snapshot_name(prefix, step),
{
    if body_history_name(prefix, body) == snapshot_name(prefix, step) {
        lemma_same_frame(prefix + "_"@, body, signed_decimal(step), ".csv"@);
    }
}

/// Computes [`snapshot_name`].
pub fn snapshot_file_name(prefix: &String, step: i64) -> (name: String)
    ensures
        name@ == snapshot_name(prefix@, step as int),
{
    let mut name = prefix.clone();
    name.append("_");
    push_signed_decimal(&mut name, step);
    name.append(".csv");
    name
}

/// Computes [`body_history_name`].
pub fn body_history_file_name(prefix: &String, body: &String) -> (name: String)
    ensures
        name@ == body_history_name(prefix@, body@),
{
    let mut name = prefix.clone();
    name.append("_");
    name.append(body.as_str());
    name.append(".csv");
    name
}

/// Computes [`system_parameters_name`].
pub fn system_parameters_file_name(prefix: &String) -> (name: String)
    ensures
        name@ == system_parameters_name(prefix@),
{
    let mut name = prefix.clone();
    name.append("_system_parameters.csv");
    name
}

/// One line that is due in an append log.
#[derive(Debug, Clone)]
pub struct LogEntry {
    /// Name of the log's file.
    pub name: String,
    /// What was found at the file's path before the export began.
    pub destination: Destination,
    /// The line to add: a record framed by
    /// [`normalize_row`](crate::records::normalize_row).
    pub line: Vec<u8>,
}

/// A [`LogEntry`] as a mathematical value.
pub struct Entry {
    pub name: Seq<char>,
    pub destination: Destination,
    pub line: Seq<u8>,
}

impl View for LogEntry {
    type V = Entry;

    open spec fn view(&self) -> Entry {
        Entry { name: self.name@, destination: self.destination, line: self.line@ }
    }
}

/// The entries of a vector as mathematical values.
pub open spec fn entries_view(entries: Seq<LogEntry>) -> Seq<Entry> {
    entries.map_values(|e: LogEntry| e@)
}

/// The operations of a vector as mathematical values.
pub open spec fn operations_view(operations: Seq<FileOp>) -> Seq<Operation> {
    operations.map_values(|op: FileOp| op@)
}

/// Whether an entry before the `i`-th names the same file as the `i`-th.
pub open spec fn written_before(entries: Seq<Entry>, i: int) -> bool {
    exists|j: int| 0 <= j < i && #[trigger] entries[j].name == entries[i].name
}

/// What sits at the path of the `i`-th entry's file when its turn comes: a
/// regular file if an earlier entry of the same export wrote to it, and
/// otherwise what was found before the export began.
pub open spec fn found_at(entries: Seq<Entry>, i: int) -> Destination {
    if written_before(entries, i) {
        Destination::File
    } else {
        entries[i].destination
    }
}

/// The operations that add `line` to the append log `name`, given that
/// nothing or a regular file sits at its path.
///
/// A log that does not exist yet is created with the header and the line is
/// appended. At step 0 an existing log is stale: it is emptied and begun
/// anew in the same way. After step 0 an existing log only has the line
/// appended.
pub open spec fn log_operations(
    name: Seq<char>,
    header: Seq<u8>,
    line: Seq<u8>,
    step: int,
    found: Destination,
) -> Seq<Operation> {
    if found == Destination::Absent || step == 0 {
        seq![
            Operation::Create { name: name, bytes: header },
            Operation::Append { name: name, bytes: line },
        ]
    } else {
        seq![Operation::Append { name: name, bytes: line }]
    }
}

/// The plan for the first `n` entries of an export to append logs.
///
/// The export directory is ensured first. Then the entries take their turns
/// in order. An entry whose path holds something that is not a regular file
/// ends the plan with a failure; what earlier entries do stays in the plan.
pub open spec fn append_logs_plan_upto(
    directory: Seq<char>,
    header: Seq<u8>,
    entries: Seq<Entry>,
    step: int,
    n: nat,
) -> Plan
    decreases n,
{
    if n == 0 {
        Plan { operations: seq![Operation::EnsureDirectory { path: directory }], failure: None }
    } else {
        let before = append_logs_plan_upto(directory, header, entries, step, (n - 1) as nat);
        let entry = entries[n - 1];
        let found = found_at(entries, n - 1);
        if before.failure is Some {
            before
        } else if found == Destination::Other {
            Plan {
                operations: before.operations,
                failure: Some(Failure::NotAFile { name: entry.name }),
            }
        } else {
            Plan {
                operations: before.operations + log_operations(
                    entry.name,
                    header,
                    entry.line,
                    step,
                    found,
                ),
                failure: None,
            }
        }
    }
}

/// The plan of an export to append logs: see [`append_logs_plan_upto`].
pub open spec fn append_logs_plan(
    directory: Seq<char>,
    header: Seq<u8>,
    entries: Seq<Entry>,
    step: int,
) -> Plan {
    append_logs_plan_upto(directory, header, entries, step, entries.len())
}

/// Once a plan has failed, further entries change nothing.
proof fn lemma_failed_plan_is_final(
    directory: Seq<char>,
    header: Seq<u8>,
    entries: Seq<Entry>,
    step: int,
    failed: nat,
    n: nat,
)
    requires
        failed <= n,
        append_logs_plan_upto(directory, header, entries, step, failed).failure is Some,
    ensures
        append_logs_plan_upto(directory, header, entries, step, n) == append_logs_plan_upto(
            directory,
            header,
            entries,
            step,
            failed,
        ),
    decreases n,
{
    if n > failed {
        lemma_failed_plan_is_final(directory, header, entries, step, failed, (n - 1) as nat);
    }
}

/// Tests [`written_before`].
fn is_written_before(entries: &Vec<LogEntry>, i: usize) -> (found: bool)
    requires
        i < entries.len(),
    ensures
        found == written_before(entries_view(entries@), i as int),
{
    let mut j: usize = 0;
    while j < i
        invariant
            0 <= j <= i < entries.len(),
            forall|k: int| 0 <= k < j ==> entries@[k].name@ != entries@[i as int].name@,
        decreases i - j,
    {
        if entries[j].name == entries[i].name {
            assert(entries_view(entries@)[j as int].name == entries_view(entries@)[i as int].name);
            return true;
        }
        j = j + 1;
    }
    assert forall|k: int| 0 <= k < i implies entries_view(entries@)[k].name != entries_view(
        entries@,
    )[i as int].name by {
        assert(entries_view(entries@)[k].name == entries@[k].name@);
    }
    false
}

/// Plans an export to append logs that share one header: for each entry in
/// turn, the operations that bring its log up to date.
pub fn plan_append_logs(
    directory: &String,
    header: &Vec<u8>,
    entries: &Vec<LogEntry>,
    step: i64,
) -> (plan: ExportPlan)
    ensures
        plan@ == append_logs_plan(directory@, header@, entries_view(entries@), step as int),
{
    let ghost all = entries_view(entries@);
    let mut operations: Vec<FileOp> = Vec::new();
    operations.push(FileOp::EnsureDirectory { path: directory.clone() });
    let mut i: usize = 0;
    assert(operations_view(operations@) =~= seq![Operation::EnsureDirectory { path: directory@ }]);
    while i < entries.len()
        invariant
            0 <= i <= entries.len(),
            all == entries_view(entries@),
            append_logs_plan_upto(directory@, header@, all, step as int, i as nat) == (Plan {
                operations: operations_view(operations@),
                failure: None,
            }),
        decreases entries.len() - i,
    {
        let ghost before = operations_view(operations@);
        let entry = &entries[i];
        assert(all[i as int] == entry@);
        let found = if is_written_before(entries, i) {
            Destination::File
        } else {
            entry.destination
        };
        assert(found == found_at(all, i as int));
        match found {
            Destination::Other => {
                let plan = ExportPlan {
                    operations,
                    failure: Some(ExportError::NotAFile { name: entry.name.clone() }),
                };
                proof {
                    assert(plan@ == append_logs_plan_upto(
                        directory@,
                        header@,
                        all,
                        step as int,
                        (i + 1) as nat,
                    ));
                    lemma_failed_plan_is_final(
                        directory@,
                        header@,
                        all,
                        step as int,
                        (i + 1) as nat,
                        all.len(),
                    );
                }
                return plan;
            },
            Destination::Absent => {
                operations.push(FileOp::Create { name: entry.name.clone(), bytes: header.clone() });
                operations.push(FileOp::Append { name: entry.name.clone(), bytes: entry.line.clone() });
            },
            Destination::File => {
                if step == 0 {
                    operations.push(
                        FileOp::Create { name: entry.name.clone(), bytes: header.clone() },
                    );
                }
                operations.push(FileOp::Append { name: entry.name.clone(), bytes: entry.line.clone() });
            },
        }
        proof {
            assert(operations_view(operations@) =~= before + log_operations(
                entry@.name,
                header@,
                entry@.line,
                step as int,
                found,
            ));
        }
        i = i + 1;
    }
    ExportPlan { operations, failure: None }
}

/// The state of one body at a telemetry tick, each quantity written as text.
#[derive(Debug, Clone)]
pub struct Body {
    pub name: String,
    pub mass: String,
    pub x: String,
    pub y: String,
    pub vx: String,
    pub vy: String,
}

/// A [`Body`] as a mathematical value.
pub struct BodyText {
    pub name: Seq<char>,
    pub mass: Seq<char>,
    pub x: Seq<char>,
    pub y: Seq<char>,
    pub vx: Seq<char>,
    pub vy: Seq<char>,
}

impl View for Body {
    type V = BodyText;

    open spec fn view(&self) -> BodyText {
        BodyText {
            name: self.name@,
            mass: self.mass@,
            x: self.x@,
            y: self.y@,
            vx: self.vx@,
            vy: self.vy@,
        }
    }
}

/// The bodies of a vector as mathematical values.
pub open spec fn bodies_view(bodies: Seq<Body>) -> Seq<BodyText> {
    bodies.map_values(|b: Body| b@)
}

/// The aggregated quantities of the system at a telemetry tick, each written
/// as text.
#[derive(Debug, Clone)]
pub struct SystemParameters {
    pub energy: String,
    pub impulse_x: String,
    pub impulse_y: String,
    pub center_of_mass_x: String,
    pub center_of_mass_y: String,
}

/// [`SystemParameters`] as a mathematical value.
pub struct ParametersText {
    pub energy: Seq<char>,
    pub impulse_x: Seq<char>,
    pub impulse_y: Seq<char>,
    pub center_of_mass_x: Seq<char>,
    pub center_of_mass_y: Seq<char>,
}

impl View for SystemParameters {
    type V = ParametersText;

    open spec fn view(&self) -> ParametersText {
        ParametersText {
            energy: self.energy@,
            impulse_x: self.impulse_x@,
            impulse_y: self.impulse_y@,
            center_of_mass_x: self.center_of_mass_x@,
            center_of_mass_y: self.center_of_mass_y@,
        }
    }
}

/// Columns of a snapshot file.
pub open spec fn snapshot_columns() -> Seq<Seq<char>> {
    seq!["Time"@, "Name"@, "Mass"@, "x"@, "y"@, "vx"@, "vy"@]
}

/// Columns of a body's history file.
pub open spec fn body_history_columns() -> Seq<Seq<char>> {
    seq!["Time"@, "Mass"@, "x"@, "y"@, "vx"@, "vy"@]
}

/// Columns of the file of aggregated parameters.
pub open spec fn system_parameters_columns() -> Seq<Seq<char>> {
    seq![
        "Step"@,
        "Time"@,
        "Energy"@,
        "Impulse x"@,
        "Impulse y"@,
        "Center of mass x"@,
        "Center of mass y"@,
    ]
}

/// Fields of a body's row in a snapshot file.
pub open spec fn snapshot_row(time: Seq<char>, body: BodyText) -> Seq<Seq<char>> {
    seq![time, body.name, body.mass, body.x, body.y, body.vx, body.vy]
}

/// Fields of a row in a body's history file.
pub open spec fn body_history_row(time: Seq<char>, body: BodyText) -> Seq<Seq<char>> {
    seq![time, body.mass, body.x, body.y, body.vx, body.vy]
}

/// Fields of a row in the file of aggregated parameters.
pub open spec fn system_parameters_row(
    step: int,
    time: Seq<char>,
    parameters: ParametersText,
) -> Seq<Seq<char>> {
    seq![
        signed_decimal(step),
        time,
        parameters.energy,
        parameters.impulse_x,
        parameters.impulse_y,
        parameters.center_of_mass_x,
        parameters.center_of_mass_y,
    ]
}

fn snapshot_header_fields() -> (fields: Vec<String>)
    ensures
        fields.deep_view() == snapshot_columns(),
{
    let mut fields: Vec<String> = Vec::new();
    fields.push(String::from_str("Time"));
    fields.push(String::from_str("Name"));
    fields.push(String::from_str("Mass"));
    fields.push(String::from_str("x"));
    fields.push(String::from_str("y"));
    fields.push(String::from_str("vx"));
    fields.push(String::from_str("vy"));
    assert(fields.deep_view() =~= snapshot_columns());
    fields
}

fn body_history_header_fields() -> (fields: Vec<String>)
    ensures
        fields.deep_view() == body_history_columns(),
{
    let mut fields: Vec<String> = Vec::new();
    fields.push(String::from_str("Time"));
    fields.push(String::from_str("Mass"));
    fields.push(String::from_str("x"));
    fields.push(String::from_str("y"));
    fields.push(String::from_str("vx"));
    fields.push(String::from_str("vy"));
    assert(fields.deep_view() =~= body_history_columns());
    fields
}

fn system_parameters_header_fields() -> (fields: Vec<String>)
    ensures
        fields.deep_view() == system_parameters_columns(),
{
    let mut fields: Vec<String> = Vec::new();
    fields.push(String::from_str("Step"));
    fields.push(String::from_str("Time"));
    fields.push(String::from_str("Energy"));
    fields.push(String::from_str("Impulse x"));
    fields.push(String::from_str("Impulse y"));
    fields.push(String::from_str("Center of mass x"));
    fields.push(String::from_str("Center of mass y"));
    assert(fields.deep_view() =~= system_parameters_columns());
    fields
}

fn snapshot_row_fields(time: &String, body: &Body) -> (fields: Vec<String>)
    ensures
        fields.deep_view() == snapshot_row(time@, body@),
{
    let mut fields: Vec<String> = Vec::new();
    fields.push(time.clone());
    fields.push(body.name.clone());
    fields.push(body.mass.clone());
    fields.push(body.x.clone());
    fields.push(body.y.clone());
    fields.push(body.vx.clone());
    fields.push(body.vy.clone());
    assert(fields.deep_view() =~= snapshot_row(time@, body@));
    fields
}

fn body_history_row_fields(time: &String, body: &Body) -> (fields: Vec<String>)
    ensures
        fields.deep_view() == body_history_row(time@, body@),
{
    let mut fields: Vec<String> = Vec::new();
    fields.push(time.clone());
    fields.push(body.mass.clone());
    fields.push(body.x.clone());
    fields.push(body.y.clone());
    fields.push(body.vx.clone());
    fields.push(body.vy.clone());
    assert(fields.deep_view() =~= body_history_row(time@, body@));
    fields
}

fn system_parameters_row_fields(step: i64, time: &String, parameters: &SystemParameters) -> (fields:
    Vec<String>)
    ensures
        fields.deep_view() == system_parameters_row(step as int, time@, parameters@),
{
    let mut fields: Vec<String> = Vec::new();
    let mut number = String::new();
    push_signed_decimal(&mut number, step);
    assert(number@ =~= signed_decimal(step as int));
    fields.push(number);
    fields.push(time.clone());
    fields.push(parameters.energy.clone());
    fields.push(parameters.impulse_x.clone());
    fields.push(parameters.impulse_y.clone());
    fields.push(parameters.center_of_mass_x.clone());
    fields.push(parameters.center_of_mass_y.clone());
    assert(fields.deep_view() =~= system_parameters_row(step as int, time@, parameters@));
    fields
}

/// The plan for a record that the serializer refused: nothing is done, and
/// the export fails.
fn serialization_failed(error: csv::Error) -> (plan: ExportPlan)
    ensures
        plan@.operations.len() == 0,
        plan@.failure == Some(Failure::Csv),
{
    ExportPlan { operations: Vec::new(), failure: Some(ExportError::Csv(error)) }
}

/// The plan of a snapshot export: the export directory is ensured, and the
/// file is created anew with the header record and then the records in order.
pub open spec fn snapshot_plan(
    directory: Seq<char>,
    name: Seq<char>,
    header: Seq<u8>,
    records: Seq<Seq<u8>>,
) -> Plan {
    Plan {
        operations: seq![
            Operation::EnsureDirectory { path: directory },
            Operation::Create { name: name, bytes: header + records.flatten() },
        ],
        failure: None,
    }
}

/// The records of a vector as mathematical values.
pub open spec fn records_view(records: Seq<Vec<u8>>) -> Seq<Seq<u8>> {
    records.map_values(|r: Vec<u8>| r@)
}

/// Plans a snapshot export from records that are serialized already.
pub fn plan_snapshot(
    directory: &String,
    name: String,
    header: &Vec<u8>,
    records: &Vec<Vec<u8>>,
) -> (plan: ExportPlan)
    ensures
        plan@ == snapshot_plan(directory@, name@, header@, records_view(records@)),
{
    let mut bytes: Vec<u8> = header.clone();
    let mut i: usize = 0;
    assert(records_view(records@).take(0) =~= Seq::<Seq<u8>>::empty());
    while i < records.len()
        invariant
            0 <= i <= records.len(),
            bytes@ == header@ + records_view(records@).take(i as int).flatten(),
        decreases records.len() - i,
    {
        proof {
            let done = records_view(records@).take(i as int);
            assert(records_view(records@).take(i + 1) =~= done.push(records@[i as int]@));
            assert(records_view(records@)[i as int] == records@[i as int]@);
            done.lemma_flatten_push(records@[i as int]@);
        }
        bytes.extend_from_slice(records[i].as_slice());
        i = i + 1;
    }
    assert(records_view(records@).take(i as int) =~= records_view(records@));
    let mut operations: Vec<FileOp> = Vec::new();
    operations.push(FileOp::EnsureDirectory { path: directory.clone() });
    operations.push(FileOp::Create { name, bytes });
    let plan = ExportPlan { operations, failure: None };
    assert(plan@.operations =~= snapshot_plan(
        directory@,
        name@,
        header@,
        records_view(records@),
    ).operations);
    plan
}

/// The plan of the snapshot export of a system at a step: a new file named
/// after the step, holding the header and one record per body, in the order
/// of the bodies.
pub open spec fn system_snapshot_plan(
    config: Config,
    bodies: Seq<BodyText>,
    step: int,
    time: Seq<char>,
) -> Plan {
    snapshot_plan(
        config.export_directory@,
        snapshot_name(config.export_file_name_prefix@, step),
        csv_record(snapshot_columns()),
        bodies.map_values(|b: BodyText| csv_record(snapshot_row(time, b))),
    )
}

/// Plans the export of the whole system at one step to a file of its own:
/// the plan is [`system_snapshot_plan`].
pub fn export_system_snapshot_to_csv(
    config: &Config,
    bodies: &Vec<Body>,
    step: i64,
    time: &String,
) -> (plan: ExportPlan)
    ensures
        plan@ == system_snapshot_plan(*config, bodies_view(bodies@), step as int, time@),
{
    let header = match write_csv_record(&snapshot_header_fields()) {
        Ok(bytes) => bytes,
        Err(error) => {
            return serialization_failed(error);
        },
    };
    let ghost wanted = bodies_view(bodies@).map_values(
        |b: BodyText| csv_record(snapshot_row(time@, b)),
    );
    let mut records: Vec<Vec<u8>> = Vec::new();
    let mut i: usize = 0;
    while i < bodies.len()
        invariant
            0 <= i <= bodies.len(),
            wanted == bodies_view(bodies@).map_values(
                |b: BodyText| csv_record(snapshot_row(time@, b)),
            ),
            records_view(records@) == wanted.take(i as int),
        decreases bodies.len() - i,
    {
        let record = match write_csv_record(&snapshot_row_fields(time, &bodies[i])) {
            Ok(bytes) => bytes,
            Err(error) => {
                return serialization_failed(error);
            },
        };
        proof {
            assert(bodies_view(bodies@)[i as int] == bodies@[i as int]@);
            assert(wanted[i as int] == record@);
            assert(records_view(records@.push(record)) =~= records_view(records@).push(record@));
            assert(wanted.take(i + 1) =~= wanted.take(i as int).push(wanted[i as int]));
        }
        records.push(record);
        i = i + 1;
    }
    assert(records_view(records@) =~= wanted);
    plan_snapshot(
        &config.export_directory,
        snapshot_file_name(&config.export_file_name_prefix, step),
        &header,
        &records,
    )
}

/// A body at a telemetry tick together with what was found at the path of
/// its history file.
#[derive(Debug, Clone)]
pub struct BodyHistory {
    pub body: Body,
    pub destination: Destination,
}

/// A [`BodyHistory`] as a mathematical value.
pub struct History {
    pub body: BodyText,
    pub destination: Destination,
}

impl View for BodyHistory {
    type V = History;

    open spec fn view(&self) -> History {
        History { body: self.body@, destination: self.destination }
    }
}

/// The histories of a vector as mathematical values.
pub open spec fn histories_view(histories: Seq<BodyHistory>) -> Seq<History> {
    histories.map_values(|h: BodyHistory| h@)
}

/// The entry of a body in a per-body export: the body's history file, what
/// was found there, and the body's row as one line.
pub open spec fn body_history_entry(prefix: Seq<char>, history: History, time: Seq<char>) -> Entry {
    Entry {
        name: body_history_name(prefix, history.body.name),
        destination: history.destination,
        line: single_line(csv_record(body_history_row(time, history.body))),
    }
}

/// The plan of the per-body export of a system at a step: an export to
/// append logs with one entry per body, in the order of the bodies.
pub open spec fn body_history_plan(
    config: Config,
    histories: Seq<History>,
    step: int,
    time: Seq<char>,
) -> Plan {
    append_logs_plan(
        config.export_directory@,
        csv_record(body_history_columns()),
        histories.map_values(
            |h: History| body_history_entry(config.export_file_name_prefix@, h, time),
        ),
        step,
    )
}

/// Plans the export of each body's state at one step to the body's own
/// history file: the plan is [`body_history_plan`].
pub fn export_system_to_csv_by_body(
    config: &Config,
    histories: &Vec<BodyHistory>,
    step: i64,
    time: &String,
) -> (plan: ExportPlan)
    ensures
        plan@ == body_history_plan(*config, histories_view(histories@), step as int, time@),
{
    let header = match write_csv_record(&body_history_header_fields()) {
        Ok(bytes) => bytes,
        Err(error) => {
            return serialization_failed(error);
        },
    };
    let ghost wanted = histories_view(histories@).map_values(
        |h: History| body_history_entry(config.export_file_name_prefix@, h, time@),
    );
    let mut entries: Vec<LogEntry> = Vec::new();
    let mut i: usize = 0;
    while i < histories.len()
        invariant
            0 <= i <= histories.len(),
            wanted == histories_view(histories@).map_values(
                |h: History| body_history_entry(config.export_file_name_prefix@, h, time@),
            ),
            entries_view(entries@) == wanted.take(i as int),
        decreases histories.len() - i,
    {
        let history = &histories[i];
        let record = match write_csv_record(&body_history_row_fields(time, &history.body)) {
            Ok(bytes) => bytes,
            Err(error) => {
                return serialization_failed(error);
            },
        };
        let entry = LogEntry {
            name: body_history_file_name(&config.export_file_name_prefix, &history.body.name),
            destination: history.destination,
            line: normalize_row(&record),
        };
        proof {
            assert(histories_view(histories@)[i as int] == history@);
            assert(wanted[i as int] == entry@);
            assert(entries_view(entries@.push(entry)) =~= entries_view(entries@).push(entry@));
            assert(wanted.take(i + 1) =~= wanted.take(i as int).push(wanted[i as int]));
        }
        entries.push(entry);
        i = i + 1;
    }
    assert(entries_view(entries@) =~= wanted);
    plan_append_logs(&config.export_directory, &header, &entries, step)
}

/// The plan of the export of the system's aggregated parameters at a step:
/// an export to the one append log of the run.
pub open spec fn system_parameters_plan(
    config: Config,
    parameters: ParametersText,
    step: int,
    time: Seq<char>,
    destination: Destination,
) -> Plan {
    append_logs_plan(
        config.export_directory@,
        csv_record(system_parameters_columns()),
        seq![
            Entry {
                name: system_parameters_name(config.export_file_name_prefix@),
                destination: destination,
                line: single_line(csv_record(system_parameters_row(step, time, parameters))),
            },
        ],
        step,
    )
}

/// Plans the export of the system's aggregated parameters at one step to
/// the run's shared log: the plan is [`system_parameters_plan`].
/// `destination` tells what was found at the log's path.
pub fn export_system_parameters_to_csv(
    config: &Config,
    parameters: &SystemParameters,
    step: i64,
    time: &String,
    destination: Destination,
) -> (plan: ExportPlan)
    ensures
        plan@ == system_parameters_plan(
            *config,
            parameters@,
            step as int,
            time@,
            destination,
        ),
{
    let header = match write_csv_record(&system_parameters_header_fields()) {
        Ok(bytes) => bytes,
        Err(error) => {
            return serialization_failed(error);
        },
    };
    let record = match write_csv_record(&system_parameters_row_fields(step, time, parameters)) {
        Ok(bytes) => bytes,
        Err(error) => {
            return serialization_failed(error);
        },
    };
    let mut entries: Vec<LogEntry> = Vec::new();
    entries.push(
        LogEntry {
            name: system_parameters_file_name(&config.export_file_name_prefix),
            destination,
            line: normalize_row(&record),
        },
    );
    assert(entries_view(entries@) =~= seq![
        Entry {
            name: system_parameters_name(config.export_file_name_prefix@),
            destination: destination,
            line: single_line(csv_record(system_parameters_row(step as int, time@, parameters@))),
        },
    ]);
    plan_append_logs(&config.export_directory, &header, &entries, step)
}

} // verus!
