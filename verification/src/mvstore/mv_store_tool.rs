use vstd::prelude::*;
use crate::engine::constant;
use crate::util::chars::str_concat;

verus! {

/// A step of cleaning up after an interrupted compaction.
pub enum CleanUpAction {
    /// Delete this file.
    Delete(String),
    /// Move the first file to the second.
    Move(String, String),
}

/// The view of a clean-up step: delete one file, or move one to another.
pub enum CleanUpStep {
    Delete(Seq<char>),
    Move(Seq<char>, Seq<char>),
}

/// The view of a clean-up action.
pub open spec fn step_of(a: CleanUpAction) -> CleanUpStep {
    match a {
        CleanUpAction::Delete(f) => CleanUpStep::Delete(f@),
        CleanUpAction::Move(f, t) => CleanUpStep::Move(f@, t@),
    }
}

/// The steps that clean up after an interrupted compaction of the store file
/// `file_path`: a left-over temporary file is deleted; a left-over new file is
/// deleted where the store file exists, and moved to the store file where it
/// does not.
pub open spec fn clean_up_steps(file_path: Seq<char>, temp_exists: bool, new_exists: bool, file_exists: bool) -> Seq<
    CleanUpStep,
> {
    let temp = file_path + constant::SUFFIX_MV_STORE_TEMP_FILE@;
    let new_file = file_path + constant::SUFFIX_MV_STORE_NEW_FILE@;
    let first: Seq<CleanUpStep> = if temp_exists {
        seq![CleanUpStep::Delete(temp)]
    } else {
        seq![]
    };
    let second: Seq<CleanUpStep> = if new_exists {
        if file_exists {
            seq![CleanUpStep::Delete(new_file)]
        } else {
            seq![CleanUpStep::Move(new_file, file_path)]
        }
    } else {
        seq![]
    };
    first + second
}

/// The steps that clean up after an interrupted compaction of the store file
/// `file_path`, given which of the temporary file, the new file and the store
/// file exist; see `clean_up_steps`.
pub fn compact_clean_up(file_path: &str, temp_exists: bool, new_exists: bool, file_exists: bool) -> (r: Vec<
    CleanUpAction,
>)
    ensures
        r@.map_values(|a: CleanUpAction| step_of(a)) == clean_up_steps(file_path@, temp_exists, new_exists, file_exists),
{
    let mut actions: Vec<CleanUpAction> = Vec::new();
    if temp_exists {
        actions.push(CleanUpAction::Delete(str_concat(file_path, constant::SUFFIX_MV_STORE_TEMP_FILE)));
    }
    if new_exists {
        let new_path = str_concat(file_path, constant::SUFFIX_MV_STORE_NEW_FILE);
        if file_exists {
            actions.push(CleanUpAction::Delete(new_path));
        } else {
            actions.push(CleanUpAction::Move(new_path, crate::util::chars::to_owned_string(file_path)));
        }
    }
    proof {
        assert(actions@.map_values(|a: CleanUpAction| step_of(a)) =~= clean_up_steps(
            file_path@,
            temp_exists,
            new_exists,
            file_exists,
        ));
    }
    actions
}

} // verus!
