//! We added new Kubernetes settings to reserve pids for Kubernetes and system
//! components; they must be removed again on downgrade.

use vstd::prelude::*;
use crate::Direction;
use crate::common_migrations::{AddSettingsMigration, spec_remove_settings, strs_view};
use crate::datastore::{MigrationData, MigrationError};

verus! {

/// The settings this version step added.
pub open spec fn added_settings() -> Seq<Seq<char>> {
    seq![
        "settings.kubernetes.kube-reserved.pid"@,
        "settings.kubernetes.system-reserved.pid"@,
    ]
}

/// Apply this version step in the given direction: a no-op on upgrade, and
/// removal of the added settings on downgrade.
pub fn run(direction: Direction, input: MigrationData) -> (r: Result<
    MigrationData,
    MigrationError,
>)
    requires
        input.wf(),
    ensures
        direction is Forward ==> r == Result::<MigrationData, MigrationError>::Ok(input),
        direction is Backward ==> r is Ok && r->Ok_0.wf() && r->Ok_0@ == spec_remove_settings(
            input@,
            added_settings(),
        ),
{
    let names: &[&str] = &[
        "settings.kubernetes.kube-reserved.pid",
        "settings.kubernetes.system-reserved.pid",
    ];
    proof {
        assert(strs_view(names@) =~= added_settings());
    }
    let mut migration = AddSettingsMigration(names);
    match direction {
        Direction::Forward => migration.forward(input),
        Direction::Backward => migration.backward(input),
    }
}

} // verus!
