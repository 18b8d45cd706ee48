//! What a whole run leaves in the export directory.
//!
//! The run loop asks for exports, each export is planned from what the
//! directory shows and carried out, and the next export finds what the
//! earlier ones left. This module follows a run in which nothing fails
//! through all its exports, of all three kinds together, on the model of the
//! directory, and says which files the directory holds in the end and what
//! is in them.
use crate::config::Config;
use crate::export::{
    body_history_columns, body_history_entry, body_history_name, body_history_plan,
    body_history_row, lemma_body_history_names_differ, lemma_history_is_not_parameters,
    lemma_history_is_not_snapshot, lemma_snapshot_is_not_parameters, lemma_snapshot_names_differ,
    snapshot_columns, snapshot_name, snapshot_row, system_parameters_columns,
    system_parameters_name, system_parameters_plan, system_parameters_row, system_snapshot_plan,
    BodyText, Destination, Entry, History, ParametersText, Plan,
};
use crate::records::{csv_record, single_line};
use crate::simulation::{
    action_after_failure, action_at, lemma_exports_are_due_at_ticks, lemma_exports_so_far,
    lemma_failure_ends_run, lemma_run_performs_what_is_due, performed, state_after,
    state_after_failure, Action, Activity, RunState, RunStatus,
};
use crate::store::{
    after_logs, entries_match, found_histories, lemma_after_logs_present,
    lemma_after_logs_untouched, lemma_after_logs_written, lemma_append_logs,
    lemma_append_logs_need_directory, lemma_snapshot, lemma_snapshot_needs_directory,
    names_differ, snapshot_content, Disk, Node,
};
use crate::text::signed_decimal;
use vstd::prelude::*;

verus! {

/// What a run knows of the system at one step.
pub struct Telemetry {
    pub time: Seq<char>,
    pub bodies: Seq<BodyText>,
    pub parameters: ParametersText,
}

/// The plan of an export at a step of a run, made from the telemetry of the
/// step and from what the directory shows; `None` for an activity that is
/// no export.
pub open spec fn export_plan(
    config: Config,
    disk: Disk,
    feed: spec_fn(int) -> Telemetry,
    step: int,
    activity: Activity,
) -> Option<Plan> {
    match activity {
        Activity::ExportParameters => Some(
            system_parameters_plan(
                config,
                feed(step).parameters,
                step,
                feed(step).time,
                disk.found(system_parameters_name(config.export_file_name_prefix@)),
            ),
        ),
        Activity::ExportSnapshot => Some(
            system_snapshot_plan(config, feed(step).bodies, step, feed(step).time),
        ),
        Activity::ExportBodies => Some(
            body_history_plan(
                config,
                found_histories(config, disk, feed(step).bodies),
                step,
                feed(step).time,
            ),
        ),
        _ => None,
    }
}

/// The directory after one thing that a run asks for, and whether it went
/// well. Only exports touch the directory.
pub open spec fn after_action(
    config: Config,
    disk: Disk,
    feed: spec_fn(int) -> Telemetry,
    action: Action,
) -> (Disk, bool) {
    match action {
        Action::Perform { step, activity } => match export_plan(
            config,
            disk,
            feed,
            step as int,
            activity,
        ) {
            Some(plan) => disk.carry_out(plan),
            None => (disk, true),
        },
        _ => (disk, true),
    }
}

/// The directory after the first `n` things that a run asks for, and
/// whether all of them went well.
pub open spec fn after_run(
    config: Config,
    disk: Disk,
    feed: spec_fn(int) -> Telemetry,
    n: nat,
) -> (Disk, bool)
    decreases n,
{
    if n == 0 {
        (disk, true)
    } else {
        let before = after_run(config, disk, feed, (n - 1) as nat);
        let now = after_action(config, before.0, feed, action_at(config, (n - 1) as nat));
        (now.0, before.1 && now.1)
    }
}

/// The step of telemetry tick `k`.
pub open spec fn tick_step(config: Config, k: int) -> int {
    k * config.export_step
}

/// Name of the snapshot file of tick `k`.
pub open spec fn tick_snapshot_name(config: Config, k: int) -> Seq<char> {
    snapshot_name(config.export_file_name_prefix@, tick_step(config, k))
}

/// What the snapshot file of tick `k` holds: the header record and one
/// record per body.
pub open spec fn tick_snapshot_content(
    config: Config,
    feed: spec_fn(int) -> Telemetry,
    k: int,
) -> Seq<u8> {
    snapshot_content(feed(tick_step(config, k)).time, feed(tick_step(config, k)).bodies)
}

/// The line of tick `k` in the log of aggregated parameters.
pub open spec fn tick_parameters_line(
    config: Config,
    feed: spec_fn(int) -> Telemetry,
    k: int,
) -> Seq<u8> {
    single_line(
        csv_record(
            system_parameters_row(
                tick_step(config, k),
                feed(tick_step(config, k)).time,
                feed(tick_step(config, k)).parameters,
            ),
        ),
    )
}

/// The line of tick `k` in the history of body `i`.
pub open spec fn tick_body_line(
    config: Config,
    feed: spec_fn(int) -> Telemetry,
    i: int,
    k: int,
) -> Seq<u8> {
    single_line(
        csv_record(
            body_history_row(
                feed(tick_step(config, k)).time,
                feed(tick_step(config, k)).bodies[i],
            ),
        ),
    )
}

/// What the log of aggregated parameters holds after `ticks` ticks: the
/// header record and one line per tick.
pub open spec fn parameters_log(config: Config, feed: spec_fn(int) -> Telemetry, ticks: nat) -> Seq<
    u8,
> {
    csv_record(system_parameters_columns()) + Seq::new(
        ticks,
        |k: int| tick_parameters_line(config, feed, k),
    ).flatten()
}

/// What the history of body `i` holds after `ticks` ticks: the header
/// record and one line per tick.
pub open spec fn body_log(
    config: Config,
    feed: spec_fn(int) -> Telemetry,
    i: int,
    ticks: nat,
) -> Seq<u8> {
    csv_record(body_history_columns()) + Seq::new(
        ticks,
        |k: int| tick_body_line(config, feed, i, k),
    ).flatten()
}

/// The names of the snapshot files of the first `ticks` ticks.
pub open spec fn snapshot_names(config: Config, ticks: nat) -> Set<Seq<char>>
    decreases ticks,
{
    if ticks == 0 {
        Set::empty()
    } else {
        snapshot_names(config, (ticks - 1) as nat).insert(tick_snapshot_name(config, ticks - 1))
    }
}

/// The names of the history files of the first `m` bodies.
pub open spec fn history_names(config: Config, names: Seq<Seq<char>>, m: nat) -> Set<Seq<char>>
    decreases m,
{
    if m == 0 {
        Set::empty()
    } else {
        history_names(config, names, (m - 1) as nat).insert(
            body_history_name(config.export_file_name_prefix@, names[m - 1]),
        )
    }
}

/// The names of the files that a run has written once it has made the
/// given numbers of exports of each kind: the log of aggregated parameters
/// after the first export of parameters, one snapshot file per snapshot
/// export, and the history of each body after the first export of bodies.
pub open spec fn written_names(
    config: Config,
    names: Seq<Seq<char>>,
    parameters: nat,
    snapshots: nat,
    histories: nat,
) -> Set<Seq<char>> {
    (if parameters > 0 {
        set![system_parameters_name(config.export_file_name_prefix@)]
    } else {
        Set::empty()
    }) + snapshot_names(config, snapshots) + (if histories > 0 {
        history_names(config, names, names.len())
    } else {
        Set::empty()
    })
}

/// Whether the bodies are called by the given names, in this order.
pub open spec fn bodies_named(bodies: Seq<BodyText>, names: Seq<Seq<char>>) -> bool {
    &&& bodies.len() == names.len()
    &&& forall|i: int| 0 <= i < names.len() ==> (#[trigger] bodies[i]).name == names[i]
}

/// Whether no history file can be taken for a file of another kind: no two
/// bodies share a name, and no body is called `system_parameters` or by the
/// numeral of an integer.
pub open spec fn names_apart(names: Seq<Seq<char>>) -> bool {
    &&& names.no_duplicates()
    &&& forall|i: int| 0 <= i < names.len() ==> #[trigger] names[i] != "system_parameters"@
    &&& forall|i: int, v: int|
        0 <= i < names.len() ==> #[trigger] names[i] != #[trigger] signed_decimal(v)
}

/// Whether the directory holds regular files only.
pub open spec fn only_files(disk: Disk) -> bool {
    forall|name: Seq<char>| disk.files.contains_key(name) ==> #[trigger] disk.files[name] is File
}

/// What the directory holds once a run has made the given numbers of
/// exports of each kind, beginning with an empty directory: the files of
/// [`written_names`] and no other, each with the content of its kind.
pub open spec fn holds(
    config: Config,
    feed: spec_fn(int) -> Telemetry,
    names: Seq<Seq<char>>,
    start: Disk,
    disk: Disk,
    parameters: nat,
    snapshots: nat,
    histories: nat,
) -> bool {
    &&& disk.wf()
    &&& disk.usable()
    &&& only_files(disk)
    &&& parameters + snapshots + histories == 0 ==> disk == start
    &&& parameters + snapshots + histories > 0 ==> disk.folder is Present
    &&& disk.files.dom() =~= written_names(config, names, parameters, snapshots, histories)
    &&& parameters > 0 ==> disk.files[system_parameters_name(config.export_file_name_prefix@)]
        == Node::File(parameters_log(config, feed, parameters))
    &&& forall|k: int|
        0 <= k < snapshots ==> disk.files[#[trigger] tick_snapshot_name(config, k)] == Node::File(
            tick_snapshot_content(config, feed, k),
        )
    &&& histories > 0 ==> forall|i: int|
        0 <= i < names.len() ==> disk.files[body_history_name(
            config.export_file_name_prefix@,
            #[trigger] names[i],
        )] == Node::File(body_log(config, feed, i, histories))
}

/// The names of the files of the first `n` entries.
spec fn entry_names(entries: Seq<Entry>, n: nat) -> Set<Seq<char>>
    decreases n,
{
    if n == 0 {
        Set::empty()
    } else {
        entry_names(entries, (n - 1) as nat).insert(entries[n - 1].name)
    }
}

/// An export to append logs adds the files of its entries to the directory,
/// as regular files, and no other.
proof fn lemma_after_logs_names(
    disk: Disk,
    header: Seq<u8>,
    entries: Seq<Entry>,
    step: int,
    n: nat,
)
    requires
        only_files(disk),
    ensures
        only_files(after_logs(disk, header, entries, step, n)),
        after_logs(disk, header, entries, step, n).files.dom() =~= disk.files.dom() + entry_names(
            entries,
            n,
        ),
    decreases n,
{
    if n > 0 {
        lemma_after_logs_names(disk, header, entries, step, (n - 1) as nat);
    }
}

/// The files of the entries of an export of bodies are the histories of the
/// bodies.
proof fn lemma_entry_names(config: Config, names: Seq<Seq<char>>, entries: Seq<Entry>, n: nat)
    requires
        n <= entries.len(),
        entries.len() == names.len(),
        forall|i: int|
            0 <= i < entries.len() ==> (#[trigger] entries[i]).name == body_history_name(
                config.export_file_name_prefix@,
                names[i],
            ),
    ensures
        entry_names(entries, n) == history_names(config, names, n),
        forall|i: int|
            0 <= i < n ==> history_names(config, names, n).contains(#[trigger] entries[i].name),
    decreases n,
{
    if n > 0 {
        lemma_entry_names(config, names, entries, (n - 1) as nat);
    }
}

/// One line more at the end of a log.
proof fn lemma_one_more_line(header: Seq<u8>, lines: Seq<Seq<u8>>, more: Seq<Seq<u8>>)
    requires
        more.len() == lines.len() + 1,
        more.drop_last() == lines,
    ensures
        header + more.flatten() == header + lines.flatten() + more.last(),
        lines.len() == 0 ==> header + more.flatten() == header + more.last(),
{
    assert(more =~= lines.push(more.last()));
    lines.lemma_flatten_push(more.last());
    assert(header + (lines.flatten() + more.last()) =~= header + lines.flatten() + more.last());
    if lines.len() == 0 {
        assert(lines =~= Seq::<Seq<u8>>::empty());
        assert(lines.flatten() =~= Seq::<u8>::empty());
        assert(header + lines.flatten() + more.last() =~= header + more.last());
    }
}

/// A tick after the first is at a step other than 0, and different ticks
/// are at different steps.
proof fn lemma_tick_steps(config: Config, k: int, other: int)
    requires
        config.wf(),
    ensures
        tick_step(config, 0) == 0,
        k > 0 ==> tick_step(config, k) != 0,
        k != other ==> tick_step(config, k) != tick_step(config, other),
{
    let cadence = config.export_step as int;
    assert(k > 0 ==> k * cadence != 0) by (nonlinear_arith)
        requires
            cadence > 0,
    ;
    assert(k != other ==> k * cadence != other * cadence) by (nonlinear_arith)
        requires
            cadence > 0,
    ;
}

/// What an export of the aggregated parameters adds to the directory of a
/// run.
proof fn lemma_parameters_step(
    config: Config,
    feed: spec_fn(int) -> Telemetry,
    names: Seq<Seq<char>>,
    start: Disk,
    disk: Disk,
    parameters: nat,
    snapshots: nat,
    histories: nat,
)
    requires
        config.wf(),
        names_apart(names),
        holds(config, feed, names, start, disk, parameters, snapshots, histories),
    ensures
        ({
            let reached = after_action(
                config,
                disk,
                feed,
                Action::Perform {
                    step: tick_step(config, parameters as int) as i64,
                    activity: Activity::ExportParameters,
                },
            );
            tick_step(config, parameters as int) as i64 == tick_step(config, parameters as int)
                ==> reached.1 && holds(
                config,
                feed,
                names,
                start,
                reached.0,
                parameters + 1,
                snapshots,
                histories,
            )
        }),
{
    let step = tick_step(config, parameters as int);
    if step as i64 == step {
        let prefix = config.export_file_name_prefix@;
        let name = system_parameters_name(prefix);
        let header = csv_record(system_parameters_columns());
        let line = tick_parameters_line(config, feed, parameters as int);
        let entries = seq![Entry { name: name, destination: disk.found(name), line: line }];
        lemma_tick_steps(config, parameters as int, 0);
        assert(entries_match(disk, entries));
        lemma_append_logs(disk, config.export_directory@, header, entries, step);
        reveal_with_fuel(after_logs, 2);
        let after = after_logs(disk, header, entries, step, 1);
        lemma_after_logs_names(disk, header, entries, step, 1);
        let lines = Seq::new(parameters, |k: int| tick_parameters_line(config, feed, k));
        let more = Seq::new(
            (parameters + 1) as nat,
            |k: int| tick_parameters_line(config, feed, k),
        );
        assert(more.drop_last() =~= lines);
        lemma_one_more_line(header, lines, more);
        assert(after.files[name] == Node::File(parameters_log(config, feed, parameters + 1)));
        assert(after.files.dom() =~= written_names(
            config,
            names,
            parameters + 1,
            snapshots,
            histories,
        ));
        assert forall|k: int| 0 <= k < snapshots implies after.files[#[trigger] tick_snapshot_name(
            config,
            k,
        )] == Node::File(tick_snapshot_content(config, feed, k)) by {
            lemma_snapshot_is_not_parameters(prefix, tick_step(config, k));
        }
        if histories > 0 {
            assert forall|i: int| 0 <= i < names.len() implies after.files[body_history_name(
                prefix,
                #[trigger] names[i],
            )] == Node::File(body_log(config, feed, i, histories)) by {
                lemma_history_is_not_parameters(prefix, names[i]);
            }
        }
    }
}

/// What a snapshot export adds to the directory of a run.
proof fn lemma_snapshot_step(
    config: Config,
    feed: spec_fn(int) -> Telemetry,
    names: Seq<Seq<char>>,
    start: Disk,
    disk: Disk,
    parameters: nat,
    snapshots: nat,
    histories: nat,
)
    requires
        config.wf(),
        names_apart(names),
        holds(config, feed, names, start, disk, parameters, snapshots, histories),
    ensures
        ({
            let reached = after_action(
                config,
                disk,
                feed,
                Action::Perform {
                    step: tick_step(config, snapshots as int) as i64,
                    activity: Activity::ExportSnapshot,
                },
            );
            tick_step(config, snapshots as int) as i64 == tick_step(config, snapshots as int)
                ==> reached.1 && holds(
                config,
                feed,
                names,
                start,
                reached.0,
                parameters,
                snapshots + 1,
                histories,
            )
        }),
{
    let step = tick_step(config, snapshots as int);
    if step as i64 == step {
        let prefix = config.export_file_name_prefix@;
        let name = tick_snapshot_name(config, snapshots as int);
        let bodies = feed(step).bodies;
        let time = feed(step).time;
        lemma_snapshot(
            disk,
            config.export_directory@,
            name,
            csv_record(snapshot_columns()),
            bodies.map_values(|b: BodyText| csv_record(snapshot_row(time, b))),
        );
        let after = disk.carry_out(system_snapshot_plan(config, bodies, step, time)).0;
        assert(after.files.dom() =~= written_names(
            config,
            names,
            parameters,
            snapshots + 1,
            histories,
        ));
        lemma_snapshot_is_not_parameters(prefix, step);
        assert forall|k: int| 0 <= k < snapshots + 1 implies after.files[#[trigger] tick_snapshot_name(
            config,
            k,
        )] == Node::File(tick_snapshot_content(config, feed, k)) by {
            if k < snapshots {
                lemma_tick_steps(config, k, snapshots as int);
                lemma_snapshot_names_differ(prefix, tick_step(config, k), step);
            }
        }
        if histories > 0 {
            assert forall|i: int| 0 <= i < names.len() implies after.files[body_history_name(
                prefix,
                #[trigger] names[i],
            )] == Node::File(body_log(config, feed, i, histories)) by {
                lemma_history_is_not_snapshot(prefix, names[i], step);
            }
        }
    }
}

/// What an export of the bodies adds to the directory of a run.
proof fn lemma_bodies_step(
    config: Config,
    feed: spec_fn(int) -> Telemetry,
    names: Seq<Seq<char>>,
    start: Disk,
    disk: Disk,
    parameters: nat,
    snapshots: nat,
    histories: nat,
)
    requires
        config.wf(),
        names_apart(names),
        bodies_named(feed(tick_step(config, histories as int)).bodies, names),
        holds(config, feed, names, start, disk, parameters, snapshots, histories),
    ensures
        ({
            let reached = after_action(
                config,
                disk,
                feed,
                Action::Perform {
                    step: tick_step(config, histories as int) as i64,
                    activity: Activity::ExportBodies,
                },
            );
            tick_step(config, histories as int) as i64 == tick_step(config, histories as int)
                ==> reached.1 && holds(
                config,
                feed,
                names,
                start,
                reached.0,
                parameters,
                snapshots,
                histories + 1,
            )
        }),
{
    let step = tick_step(config, histories as int);
    if step as i64 == step {
        let prefix = config.export_file_name_prefix@;
        let header = csv_record(body_history_columns());
        let bodies = feed(step).bodies;
        let time = feed(step).time;
        let found = found_histories(config, disk, bodies);
        let entries = found.map_values(|h: History| body_history_entry(prefix, h, time));
        let count = entries.len();
        lemma_tick_steps(config, histories as int, 0);
        assert forall|i: int| 0 <= i < count implies (#[trigger] entries[i]).name
            == body_history_name(prefix, names[i]) && entries[i].destination == disk.found(
            entries[i].name,
        ) && entries[i].destination != Destination::Other && entries[i].line == tick_body_line(
            config,
            feed,
            i,
            histories as int,
        ) by {
            assert(bodies[i].name == names[i]);
            assert(found[i].body == bodies[i]);
        }
        assert(entries_match(disk, entries));
        assert(names_differ(entries, count)) by {
            assert forall|i: int, j: int| 0 <= i < j < count implies (#[trigger] entries[i]).name
                != (#[trigger] entries[j]).name by {
                assert(names[i] != names[j]);
                lemma_body_history_names_differ(prefix, names[i], names[j]);
            }
        }
        lemma_append_logs(disk, config.export_directory@, header, entries, step);
        let after = after_logs(disk, header, entries, step, count);
        lemma_after_logs_present(disk, header, entries, step, count);
        lemma_after_logs_names(disk, header, entries, step, count);
        lemma_entry_names(config, names, entries, count);
        assert(after.files.dom() =~= written_names(
            config,
            names,
            parameters,
            snapshots,
            histories + 1,
        ));
        assert forall|i: int| 0 <= i < names.len() implies after.files[body_history_name(
            prefix,
            #[trigger] names[i],
        )] == Node::File(body_log(config, feed, i, histories + 1)) by {
            lemma_after_logs_written(disk, header, entries, step, count, i);
            assert(entries[i].name == body_history_name(prefix, names[i]));
            let lines = Seq::new(histories, |k: int| tick_body_line(config, feed, i, k));
            let more = Seq::new(
                (histories + 1) as nat,
                |k: int| tick_body_line(config, feed, i, k),
            );
            assert(more.drop_last() =~= lines);
            lemma_one_more_line(header, lines, more);
            if histories > 0 {
                assert(disk.files.dom().contains(entries[i].name));
            }
        }
        let parameters_file = system_parameters_name(prefix);
        assert forall|j: int| 0 <= j < count implies (#[trigger] entries[j]).name
            != parameters_file by {
            lemma_history_is_not_parameters(prefix, names[j]);
        }
        lemma_after_logs_untouched(disk, header, entries, step, count, parameters_file);
        assert forall|k: int| 0 <= k < snapshots implies after.files[#[trigger] tick_snapshot_name(
            config,
            k,
        )] == Node::File(tick_snapshot_content(config, feed, k)) by {
            let snapshot_file = tick_snapshot_name(config, k);
            assert forall|j: int| 0 <= j < count implies (#[trigger] entries[j]).name
                != snapshot_file by {
                lemma_history_is_not_snapshot(prefix, names[j], tick_step(config, k));
            }
            lemma_after_logs_untouched(disk, header, entries, step, count, snapshot_file);
        }
    }
}

/// The snapshot files of the first `ticks` ticks are `ticks` files.
proof fn lemma_snapshot_names_count(config: Config, ticks: nat)
    requires
        config.wf(),
    ensures
        snapshot_names(config, ticks).finite(),
        snapshot_names(config, ticks).len() == ticks,
        forall|name: Seq<char>|
            snapshot_names(config, ticks).contains(name) ==> exists|k: int|
                0 <= k < ticks && name == #[trigger] tick_snapshot_name(config, k),
    decreases ticks,
{
    if ticks > 0 {
        let before = snapshot_names(config, (ticks - 1) as nat);
        let added = tick_snapshot_name(config, ticks - 1);
        lemma_snapshot_names_count(config, (ticks - 1) as nat);
        if before.contains(added) {
            let k = choose|k: int|
                0 <= k < ticks - 1 && added == #[trigger] tick_snapshot_name(config, k);
            lemma_tick_steps(config, k, ticks - 1);
            lemma_snapshot_names_differ(
                config.export_file_name_prefix@,
                tick_step(config, k),
                tick_step(config, ticks - 1),
            );
        }
        assert forall|name: Seq<char>|
            snapshot_names(config, ticks).contains(name) implies exists|k: int|
            0 <= k < ticks && name == #[trigger] tick_snapshot_name(config, k) by {
            if name == added {
                assert(name == tick_snapshot_name(config, ticks - 1));
            } else {
                let k = choose|k: int|
                    0 <= k < ticks - 1 && name == #[trigger] tick_snapshot_name(config, k);
                assert(0 <= k < ticks && name == tick_snapshot_name(config, k));
            }
        }
    }
}

/// The histories of the first `m` bodies are `m` files.
proof fn lemma_history_names_count(config: Config, names: Seq<Seq<char>>, m: nat)
    requires
        names.no_duplicates(),
        m <= names.len(),
    ensures
        history_names(config, names, m).finite(),
        history_names(config, names, m).len() == m,
        forall|name: Seq<char>|
            history_names(config, names, m).contains(name) ==> exists|i: int|
                0 <= i < m && name == body_history_name(
                    config.export_file_name_prefix@,
                    #[trigger] names[i],
                ),
    decreases m,
{
    if m > 0 {
        let prefix = config.export_file_name_prefix@;
        let before = history_names(config, names, (m - 1) as nat);
        let added = body_history_name(prefix, names[m - 1]);
        lemma_history_names_count(config, names, (m - 1) as nat);
        if before.contains(added) {
            let i = choose|i: int|
                0 <= i < m - 1 && added == body_history_name(prefix, #[trigger] names[i]);
            assert(names[i] != names[m - 1]);
            lemma_body_history_names_differ(prefix, names[i], names[m - 1]);
        }
        assert forall|name: Seq<char>|
            history_names(config, names, m).contains(name) implies exists|i: int|
            0 <= i < m && name == body_history_name(prefix, #[trigger] names[i]) by {
            if name == added {
                assert(0 <= m - 1 < m && name == body_history_name(prefix, names[m - 1]));
            } else {
                let i = choose|i: int|
                    0 <= i < m - 1 && name == body_history_name(prefix, #[trigger] names[i]);
                assert(0 <= i < m && name == body_history_name(prefix, names[i]));
            }
        }
    }
}

/// How many files a run has written once it has made the given numbers of
/// exports of each kind: one log of aggregated parameters, one snapshot
/// file per snapshot export, and one history per body.
pub proof fn lemma_written_names_count(
    config: Config,
    names: Seq<Seq<char>>,
    parameters: nat,
    snapshots: nat,
    histories: nat,
)
    requires
        config.wf(),
        names_apart(names),
    ensures
        written_names(config, names, parameters, snapshots, histories).finite(),
        written_names(config, names, parameters, snapshots, histories).len() == (if parameters > 0 {
            1nat
        } else {
            0
        }) + snapshots + (if histories > 0 {
            names.len()
        } else {
            0
        }),
{
    let prefix = config.export_file_name_prefix@;
    let log = system_parameters_name(prefix);
    let one: Set<Seq<char>> = if parameters > 0 {
        set![log]
    } else {
        Set::empty()
    };
    let two = snapshot_names(config, snapshots);
    let three: Set<Seq<char>> = if histories > 0 {
        history_names(config, names, names.len())
    } else {
        Set::empty()
    };
    lemma_snapshot_names_count(config, snapshots);
    lemma_history_names_count(config, names, names.len());
    assert(one.disjoint(two)) by {
        assert forall|name: Seq<char>| one.contains(name) && two.contains(name) implies false by {
            let k = choose|k: int|
                0 <= k < snapshots && name == #[trigger] tick_snapshot_name(config, k);
            lemma_snapshot_is_not_parameters(prefix, tick_step(config, k));
        }
    }
    assert((one + two).disjoint(three)) by {
        assert forall|name: Seq<char>| (one + two).contains(name) && three.contains(
            name,
        ) implies false by {
            let i = choose|i: int|
                0 <= i < names.len() && name == body_history_name(prefix, #[trigger] names[i]);
            if one.contains(name) {
                lemma_history_is_not_parameters(prefix, names[i]);
            } else {
                let k = choose|k: int|
                    0 <= k < snapshots && name == #[trigger] tick_snapshot_name(config, k);
                lemma_history_is_not_snapshot(prefix, names[i], tick_step(config, k));
            }
        }
    }
    vstd::set_lib::lemma_set_disjoint_lens(one, two);
    vstd::set_lib::lemma_set_disjoint_lens(one + two, three);
}

/// How many exports of a kind a run in which nothing fails has made among
/// the first `n` things it asked for.
pub open spec fn exports_made(config: Config, activity: Activity, n: nat) -> nat {
    performed(config, activity, n).len()
}

/// While nothing fails, the directory of a run holds what the exports made
/// so far have written, and every export made so far went well.
proof fn lemma_run_files_so_far(
    config: Config,
    start: Disk,
    feed: spec_fn(int) -> Telemetry,
    names: Seq<Seq<char>>,
    n: nat,
)
    requires
        config.wf(),
        start.wf(),
        start.usable(),
        start.files == Map::<Seq<char>, Node>::empty(),
        names_apart(names),
        forall|step: int| bodies_named(#[trigger] feed(step).bodies, names),
    ensures
        after_run(config, start, feed, n).1,
        holds(
            config,
            feed,
            names,
            start,
            after_run(config, start, feed, n).0,
            exports_made(config, Activity::ExportParameters, n),
            exports_made(config, Activity::ExportSnapshot, n),
            exports_made(config, Activity::ExportBodies, n),
        ),
    decreases n,
{
    if n == 0 {
        assert(start.files.dom() =~= written_names(config, names, 0, 0, 0));
    } else {
        let m = (n - 1) as nat;
        lemma_run_files_so_far(config, start, feed, names, m);
        let before = after_run(config, start, feed, m).0;
        let parameters = exports_made(config, Activity::ExportParameters, m);
        let snapshots = exports_made(config, Activity::ExportSnapshot, m);
        let histories = exports_made(config, Activity::ExportBodies, m);
        match action_at(config, m) {
            Action::Perform { step, activity } => {
                if activity == Activity::ExportParameters {
                    lemma_exports_so_far(config, activity, n);
                    assert(performed(config, activity, n)[parameters as int] == step);
                    lemma_parameters_step(
                        config,
                        feed,
                        names,
                        start,
                        before,
                        parameters,
                        snapshots,
                        histories,
                    );
                } else if activity == Activity::ExportSnapshot {
                    lemma_exports_so_far(config, activity, n);
                    assert(performed(config, activity, n)[snapshots as int] == step);
                    lemma_snapshot_step(
                        config,
                        feed,
                        names,
                        start,
                        before,
                        parameters,
                        snapshots,
                        histories,
                    );
                } else if activity == Activity::ExportBodies {
                    lemma_exports_so_far(config, activity, n);
                    assert(performed(config, activity, n)[histories as int] == step);
                    lemma_bodies_step(
                        config,
                        feed,
                        names,
                        start,
                        before,
                        parameters,
                        snapshots,
                        histories,
                    );
                }
            },
            _ => {},
        }
    }
}

/// What a whole run leaves in the export directory.
///
/// Take a run in which nothing fails, against a directory that is empty or
/// does not exist yet, of a system whose bodies keep their names, where no
/// history file can be taken for a file of another kind. Then every export
/// succeeds, and when the run is over the directory holds exactly these
/// files, with `ticks = steps / export_step + 1`:
///
/// - if the aggregated parameters are exported, their log, holding the
///   header record and `ticks` lines, the line of tick `k` being the record
///   of step `k * export_step`;
/// - if snapshots are exported, `ticks` snapshot files, the one of tick `k`
///   named after step `k * export_step` and holding the header record and
///   one record per body;
/// - if the bodies are exported, one history per body, holding the header
///   record and `ticks` lines, one per tick.
///
/// No export touches the file of another, and the directory holds no other
/// file: with all exports switched on these are `1 + ticks + bodies` files,
/// six for two bodies and two steps with telemetry at every step.
pub proof fn lemma_run_files(
    config: Config,
    start: Disk,
    feed: spec_fn(int) -> Telemetry,
    names: Seq<Seq<char>>,
    n: nat,
)
    requires
        config.wf(),
        start.wf(),
        start.usable(),
        start.files == Map::<Seq<char>, Node>::empty(),
        names_apart(names),
        forall|step: int| bodies_named(#[trigger] feed(step).bodies, names),
        state_after(config, n) is Finished,
    ensures
        ({
            let ticks = (config.steps / config.export_step + 1) as nat;
            let parameters = if config.export_system_parameters_history {
                ticks
            } else {
                0
            };
            let snapshots = if config.export_system_state {
                ticks
            } else {
                0
            };
            let histories = if config.export_body_history {
                ticks
            } else {
                0
            };
            let left = after_run(config, start, feed, n);
            let prefix = config.export_file_name_prefix@;
            &&& ticks == config.steps / config.export_step + 1
            &&& left.1
            &&& holds(config, feed, names, start, left.0, parameters, snapshots, histories)
            &&& left.0.files.dom() == written_names(config, names, parameters, snapshots, histories)
            &&& left.0.files.dom().finite()
            &&& left.0.files.dom().len() == (if config.export_system_parameters_history {
                1nat
            } else {
                0
            }) + snapshots + (if config.export_body_history {
                names.len()
            } else {
                0
            })
            &&& config.export_system_parameters_history ==> left.0.files[system_parameters_name(
                prefix,
            )] == Node::File(parameters_log(config, feed, ticks))
            &&& config.export_system_state ==> forall|k: int|
                0 <= k < ticks ==> left.0.files[#[trigger] tick_snapshot_name(config, k)]
                    == Node::File(tick_snapshot_content(config, feed, k))
            &&& config.export_body_history ==> forall|i: int|
                0 <= i < names.len() ==> left.0.files[body_history_name(
                    prefix,
                    #[trigger] names[i],
                )] == Node::File(body_log(config, feed, i, ticks))
        }),
{
    lemma_run_files_so_far(config, start, feed, names, n);
    lemma_run_performs_what_is_due(config, Activity::ExportParameters, n);
    lemma_run_performs_what_is_due(config, Activity::ExportSnapshot, n);
    lemma_run_performs_what_is_due(config, Activity::ExportBodies, n);
    lemma_exports_are_due_at_ticks(config, Activity::ExportParameters);
    lemma_exports_are_due_at_ticks(config, Activity::ExportSnapshot);
    lemma_exports_are_due_at_ticks(config, Activity::ExportBodies);
    lemma_exports_so_far(config, Activity::ExportParameters, n);
    let ticks = (config.steps / config.export_step + 1) as nat;
    lemma_written_names_count(
        config,
        names,
        if config.export_system_parameters_history {
            ticks
        } else {
            0
        },
        if config.export_system_state {
            ticks
        } else {
            0
        },
        if config.export_body_history {
            ticks
        } else {
            0
        },
    );
}

/// Whether the first export of a run has anything to write or a directory
/// to create: it has, unless the only export switched on is that of the
/// bodies, there is no body, and something sits at the directory's path.
pub open spec fn first_export_needs_directory(
    config: Config,
    start: Disk,
    feed: spec_fn(int) -> Telemetry,
) -> bool {
    ||| config.export_system_parameters_history
    ||| config.export_system_state
    ||| config.export_body_history && (feed(0).bodies.len() > 0 || start.folder is Missing)
}

/// Without the export directory a run writes nothing.
///
/// Where the directory cannot be had, because its path holds something that
/// is not a directory or because it cannot be created, the first export of
/// a run fails and leaves the directory as it was: no file is created, no
/// header and no row is written. The run is aborted at step 0 and asks for
/// nothing more.
pub proof fn lemma_run_needs_directory(
    config: Config,
    start: Disk,
    feed: spec_fn(int) -> Telemetry,
    n: nat,
)
    requires
        config.wf(),
        !start.usable(),
        first_export_needs_directory(config, start, feed),
    ensures
        action_at(config, 0) matches Action::Perform { step, activity } && {
            &&& step == 0
            &&& activity == Activity::ExportParameters || activity == Activity::ExportSnapshot
                || activity == Activity::ExportBodies
            &&& after_action(config, start, feed, action_at(config, 0)) == (start, false)
            &&& n >= 1 ==> action_after_failure(config, 0, n) == Action::Stop(
                RunStatus::Aborted { step, activity },
            )
            &&& n >= 2 ==> state_after_failure(config, 0, n) == RunState::Finished(
                RunStatus::Aborted { step, activity },
            )
        },
{
    let prefix = config.export_file_name_prefix@;
    assert(0int % (config.export_step as int) == 0) by {
        vstd::arithmetic::div_mod::lemma_fundamental_div_mod_converse(
            0,
            config.export_step as int,
            0,
            0,
        );
    }
    reveal_with_fuel(crate::simulation::due_from, 6);
    reveal_with_fuel(state_after, 2);
    lemma_failure_ends_run(config, 0, n);
    let bodies = feed(0).bodies;
    let time = feed(0).time;
    if config.export_system_parameters_history {
        let name = system_parameters_name(prefix);
        lemma_append_logs_need_directory(
            start,
            config.export_directory@,
            csv_record(system_parameters_columns()),
            seq![
                Entry {
                    name: name,
                    destination: start.found(name),
                    line: single_line(
                        csv_record(system_parameters_row(0, time, feed(0).parameters)),
                    ),
                },
            ],
            0,
        );
    } else if config.export_system_state {
        lemma_snapshot_needs_directory(
            start,
            config.export_directory@,
            snapshot_name(prefix, 0),
            csv_record(snapshot_columns()),
            bodies.map_values(|b: BodyText| csv_record(snapshot_row(time, b))),
        );
    } else {
        lemma_append_logs_need_directory(
            start,
            config.export_directory@,
            csv_record(body_history_columns()),
            found_histories(config, start, bodies).map_values(
                |h: History| body_history_entry(prefix, h, time),
            ),
            0,
        );
    }
}

} // verus!
