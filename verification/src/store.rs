//! A model of the export directory, and what export plans do to it.
//!
//! Plans are carried out by the caller, on a real file system. This module
//! says what that means: it holds a mathematical picture of the export
//! directory and the effect of each file operation on it, and states what
//! the plans of this crate achieve when they are carried out faithfully and
//! nothing else touches the directory meanwhile.
use crate::config::Config;
use crate::export::{
    append_logs_plan, append_logs_plan_upto, body_history_columns, body_history_entry,
    body_history_name, body_history_plan, body_history_row, found_at,
    lemma_body_history_names_differ, lemma_snapshot_names_differ, log_operations, snapshot_name,
    snapshot_columns, snapshot_plan, snapshot_row, system_parameters_columns,
    system_parameters_name, system_parameters_plan, system_parameters_row, system_snapshot_plan,
    BodyText, Destination, Entry, History, Operation, ParametersText, Plan,
};
use crate::records::{csv_record, single_line};
use crate::simulation::{
    lemma_parameters_are_exported_at_ticks, performed, state_after, ticks, Activity,
};
use vstd::prelude::*;

verus! {

/// What a path inside the export directory holds.
pub enum Node {
    /// A regular file with these bytes.
    File(Seq<u8>),
    /// Something else, such as a directory.
    Other,
}

/// What sits at the path of the export directory.
pub enum Folder {
    /// Nothing.
    Missing,
    /// A directory.
    Present,
    /// Something that is not a directory.
    Blocked,
}

/// The export directory as the plans see it.
pub struct Disk {
    /// What sits at the directory's path.
    pub folder: Folder,
    /// Whether an attempt to create the directory would succeed.
    pub creatable: bool,
    /// What the directory holds, by file name.
    pub files: Map<Seq<char>, Node>,
}

impl Disk {
    /// Whether files can be written into the directory, at once or after it
    /// has been created.
    pub open spec fn usable(self) -> bool {
        self.folder is Present || (self.folder is Missing && self.creatable)
    }

    /// Only a directory holds files.
    pub open spec fn wf(self) -> bool {
        self.folder is Present || self.files == Map::<Seq<char>, Node>::empty()
    }

    /// What a look at the path of the file `name` finds.
    pub open spec fn found(self, name: Seq<char>) -> Destination {
        if !(self.folder is Present) || !self.files.contains_key(name) {
            Destination::Absent
        } else {
            match self.files[name] {
                Node::File(_) => Destination::File,
                Node::Other => Destination::Other,
            }
        }
    }

    /// The outcome of one operation: the directory afterwards, or `None` if
    /// the operation fails, in which case it changes nothing.
    ///
    /// Ensuring the directory creates it where nothing sits at its path, and
    /// is content with whatever sits there otherwise. Creating a file needs
    /// the directory and a path that holds nothing or a regular file.
    /// Appending needs the directory and a regular file.
    pub open spec fn perform(self, op: Operation) -> Option<Disk> {
        match op {
            Operation::EnsureDirectory { path } => match self.folder {
                Folder::Missing => if self.creatable {
                    Some(Disk { folder: Folder::Present, ..self })
                } else {
                    None
                },
                _ => Some(self),
            },
            Operation::Create { name, bytes } => if self.folder is Present && self.found(name)
                != Destination::Other {
                Some(Disk { files: self.files.insert(name, Node::File(bytes)), ..self })
            } else {
                None
            },
            Operation::Append { name, bytes } => if self.found(name) == Destination::File {
                Some(
                    Disk {
                        files: self.files.insert(name, Node::File(self.files[name]->File_0 + bytes)),
                        ..self
                    },
                )
            } else {
                None
            },
        }
    }

    /// The outcome of operations performed in order up to the first that
    /// fails: the directory afterwards, and whether all succeeded.
    pub open spec fn perform_all(self, operations: Seq<Operation>) -> (Disk, bool)
        decreases operations.len(),
    {
        if operations.len() == 0 {
            (self, true)
        } else {
            match self.perform(operations.first()) {
                Some(next) => next.perform_all(operations.drop_first()),
                None => (self, false),
            }
        }
    }

    /// The outcome of an export: the directory afterwards, and whether the
    /// export succeeded.
    pub open spec fn carry_out(self, plan: Plan) -> (Disk, bool) {
        let (after, performed) = self.perform_all(plan.operations);
        (after, performed && plan.failure is None)
    }
}

/// Performing two lists of operations one after the other is performing
/// their concatenation.
pub proof fn lemma_perform_all_concat(disk: Disk, first: Seq<Operation>, second: Seq<Operation>)
    ensures
        disk.perform_all(first + second) == if disk.perform_all(first).1 {
            disk.perform_all(first).0.perform_all(second)
        } else {
            disk.perform_all(first)
        },
    decreases first.len(),
{
    if first.len() == 0 {
        assert(first + second =~= second);
    } else {
        assert((first + second).first() == first.first());
        assert((first + second).drop_first() =~= first.drop_first() + second);
        match disk.perform(first.first()) {
            Some(next) => {
                lemma_perform_all_concat(next, first.drop_first(), second);
            },
            None => {},
        }
    }
}

/// What the append log `name` holds once `line` has been exported to it at
/// `step`: the header and the line if the log did not exist or the run is
/// at step 0, and what it held before and the line otherwise.
pub open spec fn log_content(
    disk: Disk,
    name: Seq<char>,
    header: Seq<u8>,
    line: Seq<u8>,
    step: int,
) -> Seq<u8> {
    if disk.found(name) == Destination::Absent || step == 0 {
        header + line
    } else {
        disk.files[name]->File_0 + line
    }
}

/// The directory after the first `n` entries of an export to append logs
/// have had their turn, none of them failing.
pub open spec fn after_logs(
    disk: Disk,
    header: Seq<u8>,
    entries: Seq<Entry>,
    step: int,
    n: nat,
) -> Disk
    decreases n,
{
    if n == 0 {
        Disk { folder: Folder::Present, ..disk }
    } else {
        let before = after_logs(disk, header, entries, step, (n - 1) as nat);
        let entry = entries[n - 1];
        Disk {
            files: before.files.insert(
                entry.name,
                Node::File(log_content(before, entry.name, header, entry.line, step)),
            ),
            ..before
        }
    }
}

/// Whether each entry tells what the directory shows at the path of its
/// log, and none of the paths holds anything but a regular file.
pub open spec fn entries_match(disk: Disk, entries: Seq<Entry>) -> bool {
    forall|i: int|
        0 <= i < entries.len() ==> (#[trigger] entries[i]).destination == disk.found(
            entries[i].name,
        ) && entries[i].destination != Destination::Other
}

/// Performing a single operation.
proof fn lemma_perform_one(disk: Disk, op: Operation)
    ensures
        disk.perform_all(seq![op]) == match disk.perform(op) {
            Some(next) => (next, true),
            None => (disk, false),
        },
{
    reveal_with_fuel(Disk::perform_all, 2);
    assert(seq![op].drop_first() =~= Seq::<Operation>::empty());
    assert(seq![op].first() == op);
}

/// What the operations for one log do to a directory that is present.
proof fn lemma_log_operations(disk: Disk, name: Seq<char>, header: Seq<u8>, line: Seq<u8>, step: int)
    requires
        disk.folder is Present,
        disk.found(name) != Destination::Other,
    ensures
        disk.perform_all(log_operations(name, header, line, step, disk.found(name))) == (
            Disk {
                files: disk.files.insert(
                    name,
                    Node::File(log_content(disk, name, header, line, step)),
                ),
                ..disk
            },
            true,
        ),
{
    let operations = log_operations(name, header, line, step, disk.found(name));
    let wanted = Disk {
        files: disk.files.insert(name, Node::File(log_content(disk, name, header, line, step))),
        ..disk
    };
    let create = Operation::Create { name: name, bytes: header };
    let append = Operation::Append { name: name, bytes: line };
    if disk.found(name) == Destination::Absent || step == 0 {
        assert(operations =~= seq![create] + seq![append]);
        lemma_perform_one(disk, create);
        let created = disk.perform(create)->0;
        lemma_perform_one(created, append);
        let appended = created.perform(append)->0;
        assert(appended.files =~= wanted.files);
        assert(appended == wanted);
        lemma_perform_all_concat(disk, seq![create], seq![append]);
    } else {
        assert(operations =~= seq![append]);
        lemma_perform_one(disk, append);
        let appended = disk.perform(append)->0;
        assert(appended.files =~= wanted.files);
        assert(appended == wanted);
    }
}

/// Whether one of the first `n` entries names the file `name`.
pub open spec fn named_among(entries: Seq<Entry>, n: nat, name: Seq<char>) -> bool
    decreases n,
{
    n > 0 && (entries[n - 1].name == name || named_among(entries, (n - 1) as nat, name))
}

/// [`named_among`] in terms of positions.
proof fn lemma_named_among(entries: Seq<Entry>, n: nat, name: Seq<char>)
    ensures
        named_among(entries, n, name) <==> exists|j: int|
            0 <= j < n && (#[trigger] entries[j]).name == name,
    decreases n,
{
    if n > 0 {
        lemma_named_among(entries, (n - 1) as nat, name);
        if named_among(entries, n, name) {
            if entries[n - 1].name == name {
                assert(0 <= n - 1 < n && entries[n - 1].name == name);
            } else {
                let j = choose|j: int| 0 <= j < n - 1 && (#[trigger] entries[j]).name == name;
                assert(0 <= j < n && entries[j].name == name);
            }
        }
        if exists|j: int| 0 <= j < n && (#[trigger] entries[j]).name == name {
            let j = choose|j: int| 0 <= j < n && (#[trigger] entries[j]).name == name;
            if j < n - 1 {
                assert(0 <= j < n - 1 && entries[j].name == name);
            }
        }
    }
}

/// While an export to append logs goes on, the logs that have had their
/// turn are regular files, and the other paths hold what they held before.
proof fn lemma_after_logs_found(
    disk: Disk,
    header: Seq<u8>,
    entries: Seq<Entry>,
    step: int,
    n: nat,
    name: Seq<char>,
)
    requires
        disk.wf(),
    ensures
        after_logs(disk, header, entries, step, n).folder is Present,
        after_logs(disk, header, entries, step, n).found(name) == if named_among(entries, n, name) {
            Destination::File
        } else {
            disk.found(name)
        },
    decreases n,
{
    if n > 0 {
        lemma_after_logs_found(disk, header, entries, step, (n - 1) as nat, name);
    } else {
        if !(disk.folder is Present) {
            assert(!disk.files.contains_key(name));
        }
    }
}

/// Carried out on a usable directory that the entries describe, the plan of
/// an export to append logs succeeds, and it gives each entry its turn: the
/// log is created with the header where it does not exist, begun anew at
/// step 0, and has the entry's line at its end.
pub proof fn lemma_append_logs(
    disk: Disk,
    directory: Seq<char>,
    header: Seq<u8>,
    entries: Seq<Entry>,
    step: int,
)
    requires
        disk.wf(),
        disk.usable(),
        entries_match(disk, entries),
    ensures
        disk.carry_out(append_logs_plan(directory, header, entries, step)) == (
            after_logs(disk, header, entries, step, entries.len()),
            true,
        ),
{
    lemma_append_logs_upto(disk, directory, header, entries, step, entries.len());
}

proof fn lemma_append_logs_upto(
    disk: Disk,
    directory: Seq<char>,
    header: Seq<u8>,
    entries: Seq<Entry>,
    step: int,
    n: nat,
)
    requires
        disk.wf(),
        disk.usable(),
        entries_match(disk, entries),
        n <= entries.len(),
    ensures
        append_logs_plan_upto(directory, header, entries, step, n).failure is None,
        disk.perform_all(append_logs_plan_upto(directory, header, entries, step, n).operations) == (
            after_logs(disk, header, entries, step, n),
            true,
        ),
    decreases n,
{
    if n == 0 {
        let ensure = Operation::EnsureDirectory { path: directory };
        assert(append_logs_plan_upto(directory, header, entries, step, 0).operations =~= seq![
            ensure,
        ]);
        lemma_perform_one(disk, ensure);
    } else {
        let m = (n - 1) as nat;
        lemma_append_logs_upto(disk, directory, header, entries, step, m);
        let before = after_logs(disk, header, entries, step, m);
        let entry = entries[n - 1];
        lemma_after_logs_found(disk, header, entries, step, m, entry.name);
        lemma_named_among(entries, m, entry.name);
        assert(entry.destination == disk.found(entry.name));
        assert(found_at(entries, n - 1) == before.found(entry.name));
        lemma_log_operations(before, entry.name, header, entry.line, step);
        lemma_perform_all_concat(
            disk,
            append_logs_plan_upto(directory, header, entries, step, m).operations,
            log_operations(entry.name, header, entry.line, step, before.found(entry.name)),
        );
    }
}

/// Whether `steps` can be the steps of the telemetry ticks of a run: the
/// first is step 0 and no other is.
pub open spec fn starts_at_zero(steps: Seq<int>) -> bool {
    &&& steps.len() > 0 ==> steps[0] == 0
    &&& forall|k: int| 1 <= k < steps.len() ==> #[trigger] steps[k] != 0
}

/// The directory after `n` telemetry ticks of one append log: tick `k`, at
/// step `steps[k]`, looks at the log's path, plans the export of `lines[k]`
/// from what it finds, and carries the plan out.
pub open spec fn log_after_ticks(
    disk: Disk,
    directory: Seq<char>,
    header: Seq<u8>,
    name: Seq<char>,
    lines: Seq<Seq<u8>>,
    steps: Seq<int>,
    n: nat,
) -> Disk
    decreases n,
{
    if n == 0 {
        disk
    } else {
        let before = log_after_ticks(disk, directory, header, name, lines, steps, (n - 1) as nat);
        before.carry_out(
            append_logs_plan(
                directory,
                header,
                seq![Entry { name: name, destination: before.found(name), line: lines[n - 1] }],
                steps[n - 1],
            ),
        ).0
    }
}

/// An append log after a run's telemetry ticks holds the header and then
/// one line per tick, in the order of the ticks, and nothing else, whatever
/// it held before the run: step 0 begins the log anew, and every later tick
/// adds its line at the end.
pub proof fn lemma_log_after_ticks(
    disk: Disk,
    directory: Seq<char>,
    header: Seq<u8>,
    name: Seq<char>,
    lines: Seq<Seq<u8>>,
    steps: Seq<int>,
    n: nat,
)
    requires
        disk.wf(),
        disk.usable(),
        disk.found(name) != Destination::Other,
        starts_at_zero(steps),
        1 <= n <= lines.len(),
        n <= steps.len(),
    ensures
        ({
            let after = log_after_ticks(disk, directory, header, name, lines, steps, n);
            &&& after.wf()
            &&& after.folder is Present
            &&& after.files.contains_key(name)
            &&& after.files[name] == Node::File(header + lines.take(n as int).flatten())
        }),
    decreases n,
{
    let m = (n - 1) as nat;
    let before = log_after_ticks(disk, directory, header, name, lines, steps, m);
    if m > 0 {
        lemma_log_after_ticks(disk, directory, header, name, lines, steps, m);
        assert(steps[m as int] != 0);
    }
    let entries = seq![Entry { name: name, destination: before.found(name), line: lines[n - 1] }];
    assert(entries_match(before, entries));
    lemma_append_logs(before, directory, header, entries, steps[n - 1]);
    reveal_with_fuel(after_logs, 2);
    let done = lines.take(m as int);
    assert(lines.take(n as int) =~= done.push(lines[n - 1]));
    done.lemma_flatten_push(lines[n - 1]);
    if m == 0 {
        assert(done =~= Seq::<Seq<u8>>::empty());
        assert(done.flatten() =~= Seq::<u8>::empty());
        assert(header + lines[n - 1] =~= header + lines.take(n as int).flatten());
    } else {
        assert(header + done.flatten() + lines[n - 1] =~= header + lines.take(n as int).flatten());
    }
}

/// What a run knows of the system at one telemetry tick, as far as the
/// aggregated parameters go.
pub struct Reading {
    pub time: Seq<char>,
    pub parameters: ParametersText,
}

/// The line of a telemetry tick in the log of aggregated parameters: the
/// record of the step and the reading, framed as one line.
pub open spec fn parameters_line(step: int, reading: Reading) -> Seq<u8> {
    single_line(csv_record(system_parameters_row(step, reading.time, reading.parameters)))
}

/// The lines of the first `n` telemetry ticks in the log of aggregated
/// parameters.
pub open spec fn parameters_lines(steps: Seq<int>, readings: Seq<Reading>, n: nat) -> Seq<Seq<u8>> {
    Seq::new(n, |k: int| parameters_line(steps[k], readings[k]))
}

/// The directory after the first `n` telemetry ticks of a run have exported
/// the aggregated parameters: tick `k`, at step `steps[k]`, looks at the
/// log's path, plans the export of `readings[k]` and carries it out.
pub open spec fn parameters_log_after(
    config: Config,
    disk: Disk,
    steps: Seq<int>,
    readings: Seq<Reading>,
    n: nat,
) -> Disk
    decreases n,
{
    if n == 0 {
        disk
    } else {
        let before = parameters_log_after(config, disk, steps, readings, (n - 1) as nat);
        before.carry_out(
            system_parameters_plan(
                config,
                readings[n - 1].parameters,
                steps[n - 1],
                readings[n - 1].time,
                before.found(system_parameters_name(config.export_file_name_prefix@)),
            ),
        ).0
    }
}

/// After telemetry ticks at the given steps, the log of aggregated
/// parameters holds the header record and then exactly one line per tick,
/// each the record of its step. What the log held before makes no
/// difference: a run against a directory that holds the log of an earlier
/// run leaves the same bytes as a run against an empty one.
pub proof fn lemma_parameters_log(
    config: Config,
    disk: Disk,
    steps: Seq<int>,
    readings: Seq<Reading>,
    n: nat,
)
    requires
        disk.wf(),
        disk.usable(),
        disk.found(system_parameters_name(config.export_file_name_prefix@)) != Destination::Other,
        starts_at_zero(steps),
        1 <= n <= readings.len(),
        n <= steps.len(),
    ensures
        ({
            let after = parameters_log_after(config, disk, steps, readings, n);
            let name = system_parameters_name(config.export_file_name_prefix@);
            &&& after.wf()
            &&& after.folder is Present
            &&& after.files.contains_key(name)
            &&& after.files[name] == Node::File(
                csv_record(system_parameters_columns()) + parameters_lines(
                    steps,
                    readings,
                    n,
                ).flatten(),
            )
        }),
{
    let name = system_parameters_name(config.export_file_name_prefix@);
    let lines = parameters_lines(steps, readings, readings.len());
    lemma_parameters_log_is_log(config, disk, steps, readings, lines, n);
    lemma_log_after_ticks(
        disk,
        config.export_directory@,
        csv_record(system_parameters_columns()),
        name,
        lines,
        steps,
        n,
    );
    assert(lines.take(n as int) =~= parameters_lines(steps, readings, n));
}

proof fn lemma_parameters_log_is_log(
    config: Config,
    disk: Disk,
    steps: Seq<int>,
    readings: Seq<Reading>,
    lines: Seq<Seq<u8>>,
    n: nat,
)
    requires
        n <= readings.len(),
        lines == parameters_lines(steps, readings, readings.len()),
    ensures
        parameters_log_after(config, disk, steps, readings, n) == log_after_ticks(
            disk,
            config.export_directory@,
            csv_record(system_parameters_columns()),
            system_parameters_name(config.export_file_name_prefix@),
            lines,
            steps,
            n,
        ),
    decreases n,
{
    if n > 0 {
        lemma_parameters_log_is_log(config, disk, steps, readings, lines, (n - 1) as nat);
    }
}

/// Running twice is running once: a second run with the same readings,
/// against the directory that the first run left, leaves the log of
/// aggregated parameters with the very same bytes.
pub proof fn lemma_rerun_leaves_same_parameters_log(
    config: Config,
    disk: Disk,
    steps: Seq<int>,
    readings: Seq<Reading>,
    n: nat,
)
    requires
        disk.wf(),
        disk.usable(),
        disk.found(system_parameters_name(config.export_file_name_prefix@)) != Destination::Other,
        starts_at_zero(steps),
        1 <= n <= readings.len(),
        n <= steps.len(),
    ensures
        ({
            let name = system_parameters_name(config.export_file_name_prefix@);
            let once = parameters_log_after(config, disk, steps, readings, n);
            let twice = parameters_log_after(config, once, steps, readings, n);
            twice.files[name] == once.files[name]
        }),
{
    lemma_parameters_log(config, disk, steps, readings, n);
    let once = parameters_log_after(config, disk, steps, readings, n);
    lemma_parameters_log(config, once, steps, readings, n);
}

/// The log of aggregated parameters of a whole run.
///
/// In a run of `steps` steps with telemetry every `export_step` steps, in
/// which nothing fails, the aggregated parameters are exported at the steps
/// `0, export_step, 2 * export_step, ...` up to the last step. Carried out
/// in that order, the exports leave a log that holds the header record and
/// `steps / export_step + 1` lines, the `k`-th being the record of step
/// `k * export_step`, whatever the log held before.
pub proof fn lemma_parameters_log_of_run(
    config: Config,
    disk: Disk,
    readings: Seq<Reading>,
    actions: nat,
)
    requires
        config.wf(),
        config.export_system_parameters_history,
        state_after(config, actions) is Finished,
        disk.wf(),
        disk.usable(),
        disk.found(system_parameters_name(config.export_file_name_prefix@)) != Destination::Other,
        readings.len() == config.steps / config.export_step + 1,
    ensures
        ({
            let exported = performed(config, Activity::ExportParameters, actions);
            let after = parameters_log_after(config, disk, exported, readings, exported.len());
            let name = system_parameters_name(config.export_file_name_prefix@);
            &&& exported == ticks(config)
            &&& exported.len() == config.steps / config.export_step + 1
            &&& after.files.contains_key(name)
            &&& after.files[name] == Node::File(
                csv_record(system_parameters_columns()) + Seq::new(
                    (config.steps / config.export_step + 1) as nat,
                    |k: int| parameters_line(k * config.export_step, readings[k]),
                ).flatten(),
            )
        }),
{
    lemma_parameters_are_exported_at_ticks(config, actions);
    let exported = ticks(config);
    assert(starts_at_zero(exported)) by {
        assert forall|k: int| 1 <= k < exported.len() implies #[trigger] exported[k] != 0 by {
            assert(k * config.export_step != 0) by (nonlinear_arith)
                requires
                    k >= 1,
                    config.export_step >= 1,
            ;
        }
    }
    lemma_parameters_log(config, disk, exported, readings, exported.len());
    assert(parameters_lines(exported, readings, exported.len()) =~= Seq::new(
        (config.steps / config.export_step + 1) as nat,
        |k: int| parameters_line(k * config.export_step, readings[k]),
    ));
}

/// An export to append logs leaves the export directory in place.
pub(crate) proof fn lemma_after_logs_present(
    disk: Disk,
    header: Seq<u8>,
    entries: Seq<Entry>,
    step: int,
    n: nat,
)
    ensures
        after_logs(disk, header, entries, step, n).folder is Present,
    decreases n,
{
    if n > 0 {
        lemma_after_logs_present(disk, header, entries, step, (n - 1) as nat);
    }
}

/// Whether the first `n` entries name `n` different files.
pub open spec fn names_differ(entries: Seq<Entry>, n: nat) -> bool {
    forall|i: int, j: int|
        0 <= i < j < n ==> (#[trigger] entries[i]).name != (#[trigger] entries[j]).name
}

/// An export to append logs leaves alone what none of its entries names.
pub(crate) proof fn lemma_after_logs_untouched(
    disk: Disk,
    header: Seq<u8>,
    entries: Seq<Entry>,
    step: int,
    n: nat,
    name: Seq<char>,
)
    requires
        forall|j: int| 0 <= j < n ==> (#[trigger] entries[j]).name != name,
    ensures
        after_logs(disk, header, entries, step, n).files.contains_key(name)
            == disk.files.contains_key(name),
        after_logs(disk, header, entries, step, n).files[name] == disk.files[name],
        after_logs(disk, header, entries, step, n).folder is Present,
    decreases n,
{
    if n > 0 {
        lemma_after_logs_untouched(disk, header, entries, step, (n - 1) as nat, name);
        assert(entries[n - 1].name != name);
    }
}

/// An export to append logs whose entries name different files gives each
/// of these files the content that its entry alone would give it.
pub(crate) proof fn lemma_after_logs_written(
    disk: Disk,
    header: Seq<u8>,
    entries: Seq<Entry>,
    step: int,
    n: nat,
    i: int,
)
    requires
        disk.wf(),
        0 <= i < n,
        names_differ(entries, n),
    ensures
        after_logs(disk, header, entries, step, n).files.contains_key(entries[i].name),
        after_logs(disk, header, entries, step, n).files[entries[i].name] == Node::File(
            log_content(disk, entries[i].name, header, entries[i].line, step),
        ),
    decreases n,
{
    let m = (n - 1) as nat;
    let name = entries[i].name;
    if i == n - 1 {
        assert forall|j: int| 0 <= j < m implies (#[trigger] entries[j]).name != name by {
            assert(entries[j].name != entries[i].name);
        }
        lemma_after_logs_untouched(disk, header, entries, step, m, name);
        if !(disk.folder is Present) {
            assert(!disk.files.contains_key(name));
        }
    } else {
        assert(names_differ(entries, m));
        lemma_after_logs_written(disk, header, entries, step, m, i);
        assert(entries[i].name != entries[n - 1].name);
    }
}

/// What a run knows of the bodies at one telemetry tick.
pub struct Frame {
    pub time: Seq<char>,
    pub bodies: Seq<BodyText>,
}

/// The bodies of a frame, each with what the directory shows at the path of
/// its history file.
pub open spec fn found_histories(config: Config, disk: Disk, bodies: Seq<BodyText>) -> Seq<
    History,
> {
    bodies.map_values(
        |b: BodyText|
            History {
                body: b,
                destination: disk.found(body_history_name(config.export_file_name_prefix@, b.name)),
            },
    )
}

/// The directory after the first `n` telemetry ticks of a run have exported
/// the bodies: tick `k`, at step `steps[k]`, looks at the path of each
/// body's history, plans the export of `frames[k]` and carries it out.
pub open spec fn body_logs_after(
    config: Config,
    disk: Disk,
    steps: Seq<int>,
    frames: Seq<Frame>,
    n: nat,
) -> Disk
    decreases n,
{
    if n == 0 {
        disk
    } else {
        let before = body_logs_after(config, disk, steps, frames, (n - 1) as nat);
        before.carry_out(
            body_history_plan(
                config,
                found_histories(config, before, frames[n - 1].bodies),
                steps[n - 1],
                frames[n - 1].time,
            ),
        ).0
    }
}

/// Whether every frame holds bodies of the given names, in this order.
pub open spec fn bodies_are(frames: Seq<Frame>, names: Seq<Seq<char>>) -> bool {
    forall|k: int|
        0 <= k < frames.len() ==> {
            &&& (#[trigger] frames[k]).bodies.len() == names.len()
            &&& forall|i: int|
                0 <= i < names.len() ==> (#[trigger] frames[k].bodies[i]).name == names[i]
        }
}

/// The lines of body `i` at the first `n` telemetry ticks.
pub open spec fn body_lines(frames: Seq<Frame>, i: int, n: nat) -> Seq<Seq<u8>> {
    Seq::new(
        n,
        |k: int| single_line(csv_record(body_history_row(frames[k].time, frames[k].bodies[i]))),
    )
}

/// What holds of every body's history after `n` ticks.
spec fn histories_hold(
    config: Config,
    after: Disk,
    frames: Seq<Frame>,
    names: Seq<Seq<char>>,
    n: nat,
) -> bool {
    &&& after.wf()
    &&& after.folder is Present
    &&& forall|i: int|
        0 <= i < names.len() ==> {
            let name = body_history_name(config.export_file_name_prefix@, #[trigger] names[i]);
            &&& after.files.contains_key(name)
            &&& after.files[name] == Node::File(
                csv_record(body_history_columns()) + body_lines(frames, i, n).flatten(),
            )
        }
}

proof fn lemma_body_logs_hold(
    config: Config,
    disk: Disk,
    steps: Seq<int>,
    frames: Seq<Frame>,
    names: Seq<Seq<char>>,
    n: nat,
)
    requires
        disk.wf(),
        disk.usable(),
        starts_at_zero(steps),
        1 <= n <= frames.len(),
        n <= steps.len(),
        bodies_are(frames, names),
        names.no_duplicates(),
        forall|i: int|
            0 <= i < names.len() ==> disk.found(
                body_history_name(config.export_file_name_prefix@, #[trigger] names[i]),
            ) != Destination::Other,
    ensures
        histories_hold(config, body_logs_after(config, disk, steps, frames, n), frames, names, n),
    decreases n,
{
    let m = (n - 1) as nat;
    let prefix = config.export_file_name_prefix@;
    let header = csv_record(body_history_columns());
    let before = body_logs_after(config, disk, steps, frames, m);
    if m > 0 {
        lemma_body_logs_hold(config, disk, steps, frames, names, m);
        assert(steps[m as int] != 0);
    }
    let frame = frames[m as int];
    let histories = found_histories(config, before, frame.bodies);
    let entries = histories.map_values(|h: History| body_history_entry(prefix, h, frame.time));
    let step = steps[m as int];
    assert(frame.bodies.len() == names.len());
    assert forall|i: int| 0 <= i < entries.len() implies (#[trigger] entries[i]).name
        == body_history_name(prefix, names[i]) && entries[i].destination == before.found(
        entries[i].name,
    ) && entries[i].destination != Destination::Other && entries[i].line == body_lines(
        frames,
        i,
        n,
    )[m as int] by {
        assert(frame.bodies[i].name == names[i]);
        assert(histories[i].body == frame.bodies[i]);
        if m > 0 {
            assert(before.files.contains_key(body_history_name(prefix, names[i])));
        }
    }
    assert(entries_match(before, entries));
    assert(names_differ(entries, entries.len())) by {
        assert forall|i: int, j: int| 0 <= i < j < entries.len() implies (#[trigger] entries[i]).name
            != (#[trigger] entries[j]).name by {
            assert(names[i] != names[j]);
            lemma_body_history_names_differ(prefix, names[i], names[j]);
        }
    }
    lemma_append_logs(before, config.export_directory@, header, entries, step);
    let after = after_logs(before, header, entries, step, entries.len());
    assert(after == body_logs_after(config, disk, steps, frames, n));
    lemma_after_logs_present(before, header, entries, step, entries.len());
    assert forall|i: int| 0 <= i < names.len() implies {
        let name = body_history_name(prefix, #[trigger] names[i]);
        &&& after.files.contains_key(name)
        &&& after.files[name] == Node::File(header + body_lines(frames, i, n).flatten())
    } by {
        let name = body_history_name(prefix, names[i]);
        lemma_after_logs_written(before, header, entries, step, entries.len(), i);
        assert(entries[i].name == name);
        let done = body_lines(frames, i, m);
        let line = entries[i].line;
        assert(body_lines(frames, i, n) =~= done.push(line));
        done.lemma_flatten_push(line);
        if m == 0 {
            assert(done =~= Seq::<Seq<u8>>::empty());
            assert(done.flatten() =~= Seq::<u8>::empty());
            assert(header + line =~= header + body_lines(frames, i, n).flatten());
        } else {
            assert(before.files.contains_key(name));
            assert(before.found(name) == Destination::File);
            assert(header + done.flatten() + line =~= header + body_lines(frames, i, n).flatten());
        }
    }
}

/// After telemetry ticks at the given steps, the history of each body holds
/// the header record and then exactly one line per tick, each the record of
/// the body at that tick, whatever the history held before: a run against a
/// directory that holds the histories of an earlier run leaves the same
/// bytes as a run against an empty one.
///
/// This holds of a system whose bodies keep their names, no two bodies
/// sharing one.
pub proof fn lemma_body_logs(
    config: Config,
    disk: Disk,
    steps: Seq<int>,
    frames: Seq<Frame>,
    names: Seq<Seq<char>>,
    n: nat,
    i: int,
)
    requires
        disk.wf(),
        disk.usable(),
        starts_at_zero(steps),
        1 <= n <= frames.len(),
        n <= steps.len(),
        bodies_are(frames, names),
        names.no_duplicates(),
        forall|j: int|
            0 <= j < names.len() ==> disk.found(
                body_history_name(config.export_file_name_prefix@, #[trigger] names[j]),
            ) != Destination::Other,
        0 <= i < names.len(),
    ensures
        ({
            let after = body_logs_after(config, disk, steps, frames, n);
            let name = body_history_name(config.export_file_name_prefix@, names[i]);
            &&& after.files.contains_key(name)
            &&& after.files[name] == Node::File(
                csv_record(body_history_columns()) + body_lines(frames, i, n).flatten(),
            )
        }),
{
    lemma_body_logs_hold(config, disk, steps, frames, names, n);
    assert(names[i] == names[i]);
}

/// Every plan for append logs begins by ensuring the export directory, and
/// what follows are operations on files.
proof fn lemma_append_logs_shape(
    directory: Seq<char>,
    header: Seq<u8>,
    entries: Seq<Entry>,
    step: int,
    n: nat,
)
    ensures
        ({
            let plan = append_logs_plan_upto(directory, header, entries, step, n);
            &&& plan.operations.len() >= 1
            &&& plan.operations[0] is EnsureDirectory
            &&& forall|i: int|
                1 <= i < plan.operations.len() ==> !(#[trigger] plan.operations[i]
                    is EnsureDirectory)
            &&& n > 0 ==> plan.operations.len() > 1 || plan.failure is Some
        }),
    decreases n,
{
    if n > 0 {
        lemma_append_logs_shape(directory, header, entries, step, (n - 1) as nat);
    }
}

/// Operations that begin by ensuring a directory that cannot be had change
/// nothing, and fail if any operation on a file is among them.
proof fn lemma_needs_directory(disk: Disk, operations: Seq<Operation>)
    requires
        !disk.usable(),
        operations.len() >= 1,
        operations[0] is EnsureDirectory,
        forall|i: int| 1 <= i < operations.len() ==> !(#[trigger] operations[i] is EnsureDirectory),
    ensures
        disk.perform_all(operations).0 == disk,
        operations.len() > 1 ==> !disk.perform_all(operations).1,
        disk.folder is Missing ==> !disk.perform_all(operations).1,
{
    reveal_with_fuel(Disk::perform_all, 3);
    if operations.len() > 1 {
        assert(operations.drop_first().first() == operations[1]);
    } else {
        assert(operations.drop_first() =~= Seq::<Operation>::empty());
    }
}

/// Where the export directory cannot be had, because its path holds
/// something that is not a directory or because it cannot be created, an
/// export to append logs writes nothing, neither header nor line, and leaves
/// no file behind. It fails as soon as there is an entry to export, and
/// without any entry too where the directory is missing: only where
/// something else sits at the directory's path and nothing is to be
/// written does the export pass.
pub proof fn lemma_append_logs_need_directory(
    disk: Disk,
    directory: Seq<char>,
    header: Seq<u8>,
    entries: Seq<Entry>,
    step: int,
)
    requires
        !disk.usable(),
    ensures
        disk.carry_out(append_logs_plan(directory, header, entries, step)).0 == disk,
        entries.len() > 0 ==> !disk.carry_out(
            append_logs_plan(directory, header, entries, step),
        ).1,
        disk.folder is Missing ==> !disk.carry_out(
            append_logs_plan(directory, header, entries, step),
        ).1,
{
    lemma_append_logs_shape(directory, header, entries, step, entries.len());
    lemma_needs_directory(disk, append_logs_plan(directory, header, entries, step).operations);
}

/// Where the export directory cannot be had, a snapshot export fails and
/// leaves no file behind.
pub proof fn lemma_snapshot_needs_directory(
    disk: Disk,
    directory: Seq<char>,
    name: Seq<char>,
    header: Seq<u8>,
    records: Seq<Seq<u8>>,
)
    requires
        !disk.usable(),
    ensures
        disk.carry_out(snapshot_plan(directory, name, header, records)) == (disk, false),
{
    lemma_needs_directory(disk, snapshot_plan(directory, name, header, records).operations);
}

/// The directory after a snapshot export that succeeded.
pub open spec fn after_snapshot(disk: Disk, name: Seq<char>, bytes: Seq<u8>) -> Disk {
    Disk { folder: Folder::Present, files: disk.files.insert(name, Node::File(bytes)), ..disk }
}

/// Carried out on a usable directory, a snapshot export succeeds unless
/// its path holds something that is not a regular file. It appends to
/// nothing: the file is created anew and then holds the header record and
/// the given records, one after the other, and nothing else. No other file
/// is touched.
pub proof fn lemma_snapshot(
    disk: Disk,
    directory: Seq<char>,
    name: Seq<char>,
    header: Seq<u8>,
    records: Seq<Seq<u8>>,
)
    requires
        disk.wf(),
        disk.usable(),
        disk.found(name) != Destination::Other,
    ensures
        disk.carry_out(snapshot_plan(directory, name, header, records)) == (
            after_snapshot(disk, name, header + records.flatten()),
            true,
        ),
        forall|i: int|
            0 <= i < snapshot_plan(directory, name, header, records).operations.len()
                ==> !(#[trigger] snapshot_plan(directory, name, header, records).operations[i]
                is Append),
{
    let ensure = Operation::EnsureDirectory { path: directory };
    let create = Operation::Create { name: name, bytes: header + records.flatten() };
    let plan = snapshot_plan(directory, name, header, records);
    assert(plan.operations =~= seq![ensure] + seq![create]);
    lemma_perform_one(disk, ensure);
    let ensured = disk.perform(ensure)->0;
    if !(disk.folder is Present) {
        assert(!disk.files.contains_key(name));
    }
    lemma_perform_one(ensured, create);
    lemma_perform_all_concat(disk, seq![ensure], seq![create]);
}

/// The snapshots of two different steps are two files: after both exports,
/// in either order of steps, each file holds its own header and records.
pub proof fn lemma_snapshots_stay_apart(
    disk: Disk,
    directory: Seq<char>,
    prefix: Seq<char>,
    header: Seq<u8>,
    first_step: int,
    first_records: Seq<Seq<u8>>,
    second_step: int,
    second_records: Seq<Seq<u8>>,
)
    requires
        disk.wf(),
        disk.usable(),
        first_step != second_step,
        disk.found(snapshot_name(prefix, first_step)) != Destination::Other,
        disk.found(snapshot_name(prefix, second_step)) != Destination::Other,
    ensures
        ({
            let first = snapshot_name(prefix, first_step);
            let second = snapshot_name(prefix, second_step);
            let between = disk.carry_out(snapshot_plan(directory, first, header, first_records));
            let after = between.0.carry_out(
                snapshot_plan(directory, second, header, second_records),
            );
            &&& first != second
            &&& between.1
            &&& after.1
            &&& after.0.files.contains_key(first)
            &&& after.0.files.contains_key(second)
            &&& after.0.files[first] == Node::File(header + first_records.flatten())
            &&& after.0.files[second] == Node::File(header + second_records.flatten())
        }),
{
    let first = snapshot_name(prefix, first_step);
    let second = snapshot_name(prefix, second_step);
    lemma_snapshot_names_differ(prefix, first_step, second_step);
    lemma_snapshot(disk, directory, first, header, first_records);
    let between = after_snapshot(disk, first, header + first_records.flatten());
    if !(disk.folder is Present) {
        assert(!disk.files.contains_key(second));
    }
    assert(between.found(second) != Destination::Other);
    lemma_snapshot(between, directory, second, header, second_records);
}

/// What a snapshot file holds: the header record and one record per body,
/// in the order of the bodies.
pub open spec fn snapshot_content(time: Seq<char>, bodies: Seq<BodyText>) -> Seq<u8> {
    csv_record(snapshot_columns()) + bodies.map_values(
        |b: BodyText| csv_record(snapshot_row(time, b)),
    ).flatten()
}

/// Snapshots are never appended to: the snapshots of a system at two
/// different steps of a run are two files, and after both exports each file
/// holds one header record and one record per body of its own step.
pub proof fn lemma_system_snapshots_stay_apart(
    config: Config,
    disk: Disk,
    first_step: int,
    first_time: Seq<char>,
    first_bodies: Seq<BodyText>,
    second_step: int,
    second_time: Seq<char>,
    second_bodies: Seq<BodyText>,
)
    requires
        disk.wf(),
        disk.usable(),
        first_step != second_step,
        disk.found(snapshot_name(config.export_file_name_prefix@, first_step))
            != Destination::Other,
        disk.found(snapshot_name(config.export_file_name_prefix@, second_step))
            != Destination::Other,
    ensures
        ({
            let first = snapshot_name(config.export_file_name_prefix@, first_step);
            let second = snapshot_name(config.export_file_name_prefix@, second_step);
            let between = disk.carry_out(
                system_snapshot_plan(config, first_bodies, first_step, first_time),
            );
            let after = between.0.carry_out(
                system_snapshot_plan(config, second_bodies, second_step, second_time),
            );
            &&& first != second
            &&& between.1
            &&& after.1
            &&& after.0.files.contains_key(first)
            &&& after.0.files.contains_key(second)
            &&& after.0.files[first] == Node::File(snapshot_content(first_time, first_bodies))
            &&& after.0.files[second] == Node::File(snapshot_content(second_time, second_bodies))
        }),
{
    lemma_snapshots_stay_apart(
        disk,
        config.export_directory@,
        config.export_file_name_prefix@,
        csv_record(snapshot_columns()),
        first_step,
        first_bodies.map_values(|b: BodyText| csv_record(snapshot_row(first_time, b))),
        second_step,
        second_bodies.map_values(|b: BodyText| csv_record(snapshot_row(second_time, b))),
    );
}

} // verus!
