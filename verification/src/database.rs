//! Migrating the database: when it is copied aside first, under which name, and in which
//! order the steps follow.

use vstd::prelude::*;
use vstd::string::*;

verus! {

/// Some bundled migration has not been applied.
pub open spec fn has_pending(applied: Seq<i64>, bundled: Seq<i64>) -> bool {
    exists|i: int| 0 <= i < bundled.len() && !applied.contains(#[trigger] bundled[i])
}

fn is_applied(applied: &Vec<i64>, version: i64) -> (b: bool)
    ensures
        b == applied@.contains(version),
{
    let mut i: usize = 0;
    while i < applied.len()
        invariant
            i <= applied@.len(),
            forall|j: int| 0 <= j < i ==> applied@[j] != version,
        decreases applied@.len() - i,
    {
        if applied[i] == version {
            return true;
        }
        i += 1;
    }
    false
}

/// Whether the database is copied aside before migrations are run: it has been migrated
/// before, so that there is something to preserve, and some bundled migration is
/// pending.
pub fn needs_snapshot(applied: &Vec<i64>, bundled: &Vec<i64>) -> (b: bool)
    ensures
        b == (applied@.len() > 0 && has_pending(applied@, bundled@)),
{
    if applied.len() == 0 {
        return false;
    }
    let mut i: usize = 0;
    while i < bundled.len()
        invariant
            i <= bundled@.len(),
            applied@.len() > 0,
            forall|j: int| 0 <= j < i ==> applied@.contains(#[trigger] bundled@[j]),
        decreases bundled@.len() - i,
    {
        if !is_applied(applied, bundled[i]) {
            return true;
        }
        i += 1;
    }
    false
}

/// The name of the snapshot of a database file: the name of the file, or the default one
/// where the path has none, with `.pre-migration.bak` appended.
pub fn pre_migration_snapshot_name(file_name: Option<&str>) -> (r: String)
    ensures
        r@ == (match file_name {
            Some(name) => name@,
            None => "fabro.sqlite3"@,
        }) + ".pre-migration.bak"@,
{
    let mut r = match file_name {
        Some(name) => name.to_owned(),
        None => "fabro.sqlite3".to_owned(),
    };
    r.append(".pre-migration.bak");
    r
}

/// A step of migrating a database.
#[derive(Debug, Clone, Copy, PartialEq, Eq, Structural)]
pub enum MigrationStep {
    /// Remove the snapshot of an earlier migration.
    RemoveStaleSnapshot,
    /// Write the snapshot.
    WriteSnapshot,
    /// Make the snapshot private to its owner.
    RestrictSnapshot,
    /// Apply the migrations.
    RunMigrations,
    /// All is done.
    Done,
    /// A step failed.
    Failed,
}

/// How a step ended.
#[derive(Debug, Clone, Copy, PartialEq, Eq, Structural)]
pub enum StepEnd {
    Succeeded,
    /// What the step was to work on is not there.
    NotFound,
    Failed,
}

/// The first step: where the database has applied `applied` and the migrations `bundled`
/// are at hand.
pub fn begin_migration(applied: &Vec<i64>, bundled: &Vec<i64>) -> (r: MigrationStep)
    ensures
        r == first_step(applied@, bundled@),
{
    if needs_snapshot(applied, bundled) {
        MigrationStep::RemoveStaleSnapshot
    } else {
        MigrationStep::RunMigrations
    }
}

/// The first step.
pub open spec fn first_step(applied: Seq<i64>, bundled: Seq<i64>) -> MigrationStep {
    if applied.len() > 0 && has_pending(applied, bundled) {
        MigrationStep::RemoveStaleSnapshot
    } else {
        MigrationStep::RunMigrations
    }
}

/// The step that follows. Only a stale snapshot may be missing.
pub open spec fn following(step: MigrationStep, end: StepEnd) -> MigrationStep {
    match step {
        MigrationStep::RemoveStaleSnapshot => if end == StepEnd::Failed {
            MigrationStep::Failed
        } else {
            MigrationStep::WriteSnapshot
        },
        MigrationStep::WriteSnapshot => if end == StepEnd::Succeeded {
            MigrationStep::RestrictSnapshot
        } else {
            MigrationStep::Failed
        },
        MigrationStep::RestrictSnapshot => if end == StepEnd::Succeeded {
            MigrationStep::RunMigrations
        } else {
            MigrationStep::Failed
        },
        MigrationStep::RunMigrations => if end == StepEnd::Succeeded {
            MigrationStep::Done
        } else {
            MigrationStep::Failed
        },
        MigrationStep::Done => MigrationStep::Done,
        MigrationStep::Failed => MigrationStep::Failed,
    }
}

/// The step that follows where `step` ended so.
pub fn after_step(step: MigrationStep, end: StepEnd) -> (r: MigrationStep)
    ensures
        r == following(step, end),
{
    match (step, end) {
        (MigrationStep::RemoveStaleSnapshot, StepEnd::Succeeded) => MigrationStep::WriteSnapshot,
        (MigrationStep::RemoveStaleSnapshot, StepEnd::NotFound) => MigrationStep::WriteSnapshot,
        (MigrationStep::WriteSnapshot, StepEnd::Succeeded) => MigrationStep::RestrictSnapshot,
        (MigrationStep::RestrictSnapshot, StepEnd::Succeeded) => MigrationStep::RunMigrations,
        (MigrationStep::RunMigrations, StepEnd::Succeeded) => MigrationStep::Done,
        (MigrationStep::Done, _) => MigrationStep::Done,
        _ => MigrationStep::Failed,
    }
}

/// The step that is reached from `step` where the steps end as `ends` says.
pub open spec fn reached(step: MigrationStep, ends: Seq<StepEnd>) -> MigrationStep
    decreases ends.len(),
{
    if ends.len() == 0 {
        step
    } else {
        following(reached(step, ends.drop_last()), ends.last())
    }
}

/// A fresh database is not copied, nor is one that is up to date.
pub proof fn snapshots_precede_schema_changes_only(applied: Seq<i64>, bundled: Seq<i64>)
    requires
        applied.len() == 0 || forall|i: int|
            0 <= i < bundled.len() ==> applied.contains(#[trigger] bundled[i]),
    ensures
        first_step(applied, bundled) == MigrationStep::RunMigrations,
{
}

/// No snapshot, no schema change: where a database that was migrated before has pending
/// migrations, they are applied only behind a snapshot that was written and made private.
pub proof fn schema_changes_follow_a_snapshot(
    applied: Seq<i64>,
    bundled: Seq<i64>,
    ends: Seq<StepEnd>,
)
    requires
        applied.len() > 0,
        has_pending(applied, bundled),
        reached(first_step(applied, bundled), ends) == MigrationStep::RunMigrations || reached(
            first_step(applied, bundled),
            ends,
        ) == MigrationStep::Done,
    ensures
        ends.len() >= 3,
        reached(first_step(applied, bundled), ends.take(1)) == MigrationStep::WriteSnapshot,
        ends[1] == StepEnd::Succeeded,
        reached(first_step(applied, bundled), ends.take(2)) == MigrationStep::RestrictSnapshot,
        ends[2] == StepEnd::Succeeded,
{
    lemma_path(ends);
}

/// What the step that is reached says of how the steps ended.
proof fn lemma_path(ends: Seq<StepEnd>)
    ensures
        ({
            let first = MigrationStep::RemoveStaleSnapshot;
            match reached(first, ends) {
                MigrationStep::RemoveStaleSnapshot => ends.len() == 0,
                MigrationStep::WriteSnapshot => ends.len() == 1,
                MigrationStep::RestrictSnapshot => ends.len() == 2 && ends[1]
                    == StepEnd::Succeeded && reached(first, ends.take(1))
                    == MigrationStep::WriteSnapshot,
                MigrationStep::RunMigrations | MigrationStep::Done => ends.len() >= 3 && ends[1]
                    == StepEnd::Succeeded && ends[2] == StepEnd::Succeeded && reached(
                    first,
                    ends.take(1),
                ) == MigrationStep::WriteSnapshot && reached(first, ends.take(2))
                    == MigrationStep::RestrictSnapshot,
                MigrationStep::Failed => true,
            }
        }),
    decreases ends.len(),
{
    if ends.len() > 0 {
        let before = ends.drop_last();
        lemma_path(before);
        if ends.len() == 2 {
            assert(before =~= ends.take(1));
        } else if ends.len() == 3 {
            assert(before =~= ends.take(2));
            assert(before.take(1) =~= ends.take(1));
        } else if ends.len() > 3 {
            assert(before.take(1) =~= ends.take(1));
            assert(before.take(2) =~= ends.take(2));
        }
    }
}

/// A database is copied aside exactly where it has been migrated before and a version is
/// bundled that it has not applied: an applied version more, or one that is bundled less,
/// never makes a copy necessary by itself.
pub proof fn copies_are_made_before_pending_migrations(
    applied: &Vec<i64>,
    bundled: &Vec<i64>,
    b: bool,
    step: MigrationStep,
    version: i64,
)
    requires
        call_ensures(needs_snapshot, (applied, bundled), b),
        call_ensures(begin_migration, (applied, bundled), step),
    ensures
        applied@.len() > 0 && bundled@.contains(version) && !applied@.contains(version) ==> b,
        applied@.len() == 0 ==> !b,
        b ==> exists|v: i64| #[trigger] bundled@.contains(v) && !applied@.contains(v),
        b <==> step == MigrationStep::RemoveStaleSnapshot,
        !b <==> step == MigrationStep::RunMigrations,
{
    if bundled@.contains(version) {
        let k = choose|k: int| 0 <= k < bundled@.len() && bundled@[k] == version;
        assert(applied@.contains(version) == applied@.contains(bundled@[k]));
    }
    if b {
        let k = choose|k: int| 0 <= k < bundled@.len() && !applied@.contains(#[trigger] bundled@[k]);
        assert(bundled@.contains(bundled@[k]));
    }
}

/// Each step that succeeds leads to the next one: the old copy is removed, the new one
/// written and made private, and the migrations run. A step that fails ends in failure,
/// and what is over stays as it is. Only the old copy may be missing.
pub proof fn steps_follow_in_order(step: MigrationStep, end: StepEnd, r: MigrationStep)
    requires
        call_ensures(after_step, (step, end), r),
    ensures
        end == StepEnd::Succeeded ==> {
            &&& step == MigrationStep::RemoveStaleSnapshot ==> r == MigrationStep::WriteSnapshot
            &&& step == MigrationStep::WriteSnapshot ==> r == MigrationStep::RestrictSnapshot
            &&& step == MigrationStep::RestrictSnapshot ==> r == MigrationStep::RunMigrations
            &&& step == MigrationStep::RunMigrations ==> r == MigrationStep::Done
        },
        end == StepEnd::Failed && step != MigrationStep::Done ==> r == MigrationStep::Failed,
        end == StepEnd::NotFound && step == MigrationStep::RemoveStaleSnapshot ==> r
            == MigrationStep::WriteSnapshot,
        end == StepEnd::NotFound && step != MigrationStep::RemoveStaleSnapshot && step
            != MigrationStep::Done ==> r == MigrationStep::Failed,
        step == MigrationStep::Done ==> r == MigrationStep::Done,
        step == MigrationStep::Failed ==> r == MigrationStep::Failed,
{
}

/// The copy stands beside its database: its name is that of the file with an ending, so
/// that two databases have two copies and none is its own.
pub proof fn copies_have_names_of_their_own(a: &str, b: &str, copy_a: String, copy_b: String)
    requires
        call_ensures(pre_migration_snapshot_name, (Some(a),), copy_a),
        call_ensures(pre_migration_snapshot_name, (Some(b),), copy_b),
    ensures
        copy_a@ == a@ + ".pre-migration.bak"@,
        copy_a@ == copy_b@ ==> a@ == b@,
        copy_a@ != a@,
{
    reveal_strlit(".pre-migration.bak");
    assert(copy_a@.take(a@.len() as int) =~= a@);
    assert(copy_b@.take(b@.len() as int) =~= b@);
}

} // verus!
