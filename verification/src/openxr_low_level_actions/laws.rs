//! What holds of the action subsystem over any run of calls.
//!
//! The functions of [`crate::openxr_low_level_actions`] each say what one
//! call does. The proofs here put calls in a row: any number of
//! `get_space` calls on one pose action, and any run of the creation of the
//! action sets.

use vstd::prelude::*;

use crate::openxr_low_level_actions::binding::SuisOxrBindingSetBuilderView;
use crate::openxr_low_level_actions::space_table::drained;
use crate::openxr_low_level_actions::pending_steps;
use crate::openxr_low_level_actions::SuisOxrActionSetupView;
use crate::openxr_low_level_actions::SuisOxrSpaceActionView;

verus! {

/// One call of `get_space` that the runtime answered with a new space.
pub struct SuisOxrSpaceCall {
    pub path: u64,
    pub space: u64,
}

/// The pose action after the calls `calls`, made in their order.
pub open spec fn after_calls(
    action: SuisOxrSpaceActionView,
    calls: Seq<SuisOxrSpaceCall>,
) -> SuisOxrSpaceActionView
    decreases calls.len(),
{
    if calls.len() == 0 {
        action
    } else {
        after_calls(action, calls.drop_last()).get_space(calls.last().path, calls.last().space)
    }
}

/// The spaces that the calls `calls` handed back for destruction, in their order.
pub open spec fn retired_by(action: SuisOxrSpaceActionView, calls: Seq<SuisOxrSpaceCall>) -> Seq<
    u64,
>
    decreases calls.len(),
{
    if calls.len() == 0 {
        Seq::empty()
    } else {
        let earlier = retired_by(action, calls.drop_last());
        match after_calls(action, calls.drop_last()).superseded(
            calls.last().path,
            calls.last().space,
        ) {
            Some(space) => earlier.push(space),
            None => earlier,
        }
    }
}

/// Whether `space` is live in `table`, under some path.
pub open spec fn is_live(table: Map<u64, u64>, space: u64) -> bool {
    exists|path: u64| #[trigger] table.contains_key(path) && table[path] == space
}

/// No space is live under two paths of `table`.
pub open spec fn one_path_per_space(table: Map<u64, u64>) -> bool {
    forall|p: u64, q: u64|
        #[trigger] table.contains_key(p) && #[trigger] table.contains_key(q) && table[p] == table[q]
            ==> p == q
}

/// Whether `space` was ever held: live at the start, or made by one of the calls.
pub open spec fn was_held(
    action: SuisOxrSpaceActionView,
    calls: Seq<SuisOxrSpaceCall>,
    space: u64,
) -> bool {
    is_live(action.last_values, space) || exists|i: int|
        0 <= i < calls.len() && (#[trigger] calls[i]).space == space
}

/// The runtime gave every call a space of its own: one that no other call
/// got and that was not live at the start; and at the start no space was
/// live under two paths.
pub open spec fn fresh_spaces(action: SuisOxrSpaceActionView, calls: Seq<SuisOxrSpaceCall>) -> bool {
    &&& one_path_per_space(action.last_values)
    &&& forall|i: int, j: int|
        0 <= i < j < calls.len() ==> (#[trigger] calls[i]).space != (#[trigger] calls[j]).space
    &&& forall|i: int|
        0 <= i < calls.len() ==> !is_live(action.last_values, (#[trigger] calls[i]).space)
}

/// After any run of `get_space` calls a path holds one space, the one
/// that the last call for the path brought; a path that no call named
/// holds what it held.
pub proof fn lemma_last_call_is_live(
    action: SuisOxrSpaceActionView,
    calls: Seq<SuisOxrSpaceCall>,
    path: u64,
)
    ensures
        after_calls(action, calls).action == action.action,
        (forall|i: int| 0 <= i < calls.len() ==> (#[trigger] calls[i]).path != path) ==> {
            &&& after_calls(action, calls).last_values.contains_key(path)
                == action.last_values.contains_key(path)
            &&& action.last_values.contains_key(path) ==> after_calls(
                action,
                calls,
            ).last_values[path] == action.last_values[path]
        },
        forall|i: int|
            0 <= i < calls.len() && (#[trigger] calls[i]).path == path && (forall|j: int|
                i < j < calls.len() ==> (#[trigger] calls[j]).path != path) ==> {
                &&& after_calls(action, calls).last_values.contains_key(path)
                &&& after_calls(action, calls).last_values[path] == calls[i].space
            },
    decreases calls.len(),
{
    if calls.len() > 0 {
        let init = calls.drop_last();
        lemma_last_call_is_live(action, init, path);
        assert forall|i: int|
            0 <= i < calls.len() && (#[trigger] calls[i]).path == path && (forall|j: int|
                i < j < calls.len() ==> (#[trigger] calls[j]).path != path) implies {
            &&& after_calls(action, calls).last_values.contains_key(path)
            &&& after_calls(action, calls).last_values[path] == calls[i].space
        } by {
            if i < calls.len() - 1 {
                assert(init[i] == calls[i]);
                assert(calls[calls.len() - 1].path != path);
                assert forall|j: int| i < j < init.len() implies (#[trigger] init[j]).path
                    != path by {
                    assert(init[j] == calls[j]);
                }
            }
        }
        if forall|i: int| 0 <= i < calls.len() ==> (#[trigger] calls[i]).path != path {
            assert(calls[calls.len() - 1].path != path);
            assert forall|i: int| 0 <= i < init.len() implies (#[trigger] init[i]).path != path by {
                assert(init[i] == calls[i]);
            }
        }
    }
}

/// Where the runtime gives every call a space of its own, no space is
/// lost and none is destroyed twice: after any run of `get_space` calls,
/// every space that was ever held is either still live, under one path, or
/// was handed back for destruction exactly once, and never both.
pub proof fn lemma_retired_exactly_once(
    action: SuisOxrSpaceActionView,
    calls: Seq<SuisOxrSpaceCall>,
)
    requires
        fresh_spaces(action, calls),
    ensures
        one_path_per_space(after_calls(action, calls).last_values),
        retired_by(action, calls).no_duplicates(),
        forall|space: u64|
            was_held(action, calls, space) <==> is_live(
                after_calls(action, calls).last_values,
                space,
            ) || retired_by(action, calls).contains(space),
        forall|space: u64|
            !(is_live(after_calls(action, calls).last_values, space) && retired_by(
                action,
                calls,
            ).contains(space)),
    decreases calls.len(),
{
    let after = after_calls(action, calls).last_values;
    let retired = retired_by(action, calls);
    if calls.len() == 0 {
        assert forall|space: u64| !retired.contains(space) by {
            if retired.contains(space) {
                let x = retired.index_of(space);
                assert(retired[x] == space);
            }
        }
    } else {
        let init = calls.drop_last();
        let call = calls.last();
        let before = after_calls(action, init).last_values;
        let earlier = retired_by(action, init);
        assert(fresh_spaces(action, init)) by {
            assert forall|i: int, j: int| 0 <= i < j < init.len() implies (#[trigger] init[i]).space
                != (#[trigger] init[j]).space by {
                assert(init[i] == calls[i] && init[j] == calls[j]);
            }
            assert forall|i: int| 0 <= i < init.len() implies !is_live(
                action.last_values,
                (#[trigger] init[i]).space,
            ) by {
                assert(init[i] == calls[i]);
            }
        }
        lemma_retired_exactly_once(action, init);
        assert(!was_held(action, init, call.space)) by {
            assert(calls[calls.len() - 1] == call);
            if exists|i: int| 0 <= i < init.len() && (#[trigger] init[i]).space == call.space {
                let i = choose|i: int|
                    0 <= i < init.len() && (#[trigger] init[i]).space == call.space;
                assert(init[i] == calls[i]);
            }
        }
        assert(!is_live(before, call.space));
        assert(!earlier.contains(call.space));
        assert(after == before.insert(call.path, call.space));
        assert(after.contains_key(call.path) && after[call.path] == call.space);
        assert(is_live(after, call.space));
        assert(one_path_per_space(after)) by {
            assert forall|p: u64, q: u64|
                #[trigger] after.contains_key(p) && #[trigger] after.contains_key(q) && after[p]
                    == after[q] implies p == q by {
                if p != call.path {
                    assert(before.contains_key(p));
                }
                if q != call.path {
                    assert(before.contains_key(q));
                }
            }
        }
        if before.contains_key(call.path) {
            let gone = before[call.path];
            assert(is_live(before, gone));
            assert(gone != call.space);
            assert(retired == earlier.push(gone));
            assert(!earlier.contains(gone));
            assert(!is_live(after, gone)) by {
                if is_live(after, gone) {
                    let p = choose|p: u64| #[trigger] after.contains_key(p) && after[p] == gone;
                    assert(p != call.path);
                    assert(before.contains_key(p));
                }
            }
            assert forall|x: int, y: int| 0 <= x < y < retired.len() implies retired[x]
                != retired[y] by {
                if y == earlier.len() {
                    assert(earlier.contains(earlier[x]));
                }
            }
            assert forall|space: u64| retired.contains(space) <==> earlier.contains(space) || space
                == gone by {
                if retired.contains(space) {
                    let x = retired.index_of(space);
                    assert(retired[x] == space);
                    if x < earlier.len() {
                        assert(earlier[x] == space);
                    }
                }
                if earlier.contains(space) {
                    let x = earlier.index_of(space);
                    assert(earlier[x] == space);
                    assert(retired[x] == space);
                }
                if space == gone {
                    assert(retired[earlier.len() as int] == space);
                }
            }
            assert forall|space: u64| is_live(after, space) <==> (is_live(before, space) && space
                != gone) || space == call.space by {
                if is_live(after, space) && space != call.space {
                    let p = choose|p: u64| #[trigger] after.contains_key(p) && after[p] == space;
                    assert(before.contains_key(p));
                }
                if is_live(before, space) && space != gone {
                    let p = choose|p: u64| #[trigger] before.contains_key(p) && before[p] == space;
                    assert(after.contains_key(p));
                }
            }
        } else {
            assert(retired == earlier);
            assert forall|space: u64| is_live(after, space) <==> is_live(before, space) || space
                == call.space by {
                if is_live(after, space) && space != call.space {
                    let p = choose|p: u64| #[trigger] after.contains_key(p) && after[p] == space;
                    assert(before.contains_key(p));
                }
                if is_live(before, space) {
                    let p = choose|p: u64| #[trigger] before.contains_key(p) && before[p] == space;
                    assert(after.contains_key(p));
                }
            }
        }
        assert forall|space: u64| was_held(action, calls, space) <==> was_held(action, init, space)
            || space == call.space by {
            if exists|i: int| 0 <= i < calls.len() && (#[trigger] calls[i]).space == space {
                let i = choose|i: int| 0 <= i < calls.len() && (#[trigger] calls[i]).space == space;
                if i < init.len() {
                    assert(init[i] == calls[i]);
                }
            }
            if exists|i: int| 0 <= i < init.len() && (#[trigger] init[i]).space == space {
                let i = choose|i: int| 0 <= i < init.len() && (#[trigger] init[i]).space == space;
                assert(calls[i] == init[i]);
            }
            if space == call.space {
                assert(calls[calls.len() - 1].space == space);
            }
        }
    }
}

/// Where no space is live under two paths, the teardown hands back every
/// live space exactly once.
pub proof fn lemma_drained_exactly_once(table: Map<u64, u64>, handles: Seq<u64>)
    requires
        drained(table, handles),
        one_path_per_space(table),
    ensures
        handles.no_duplicates(),
        forall|space: u64| handles.contains(space) <==> is_live(table, space),
{
    let paths = choose|paths: Seq<u64>|
        #![trigger paths.no_duplicates()]
        paths.no_duplicates() && paths.to_set() == table.dom() && handles == paths.map_values(
            |p: u64| table[p],
        );
    assert forall|x: int, y: int| 0 <= x < y < handles.len() implies handles[x] != handles[y] by {
        assert(paths.to_set().contains(paths[x]));
        assert(paths.to_set().contains(paths[y]));
        assert(table.contains_key(paths[x]) && table.contains_key(paths[y]));
    }
    assert forall|space: u64| handles.contains(space) <==> is_live(table, space) by {
        if handles.contains(space) {
            let x = handles.index_of(space);
            assert(handles[x] == space);
            assert(paths.to_set().contains(paths[x]));
            assert(table.contains_key(paths[x]));
        }
        if is_live(table, space) {
            let p = choose|p: u64| #[trigger] table.contains_key(p) && table[p] == space;
            assert(paths.to_set().contains(p));
            let x = paths.index_of(p);
            assert(paths[x] == p);
            assert(handles[x] == space);
        }
    }
}

/// The creation of the action sets comes to an end: as long as there is
/// a request, taking in its answer, whatever it is, leaves fewer requests
/// to come. And it is at its end exactly when none is left.
pub proof fn lemma_setup_terminates<F, V>(
    setup: SuisOxrActionSetupView<F, V>,
    outcome: Option<u64>,
)
    requires
        setup.wf(),
    ensures
        setup.advance(outcome).wf(),
        setup.request() is Finished <==> setup.steps_left() == 0,
        !(setup.request() is Finished) ==> setup.advance(outcome).steps_left() < setup.steps_left(),
        setup.request() is Finished ==> setup.advance(outcome) == setup,
{
    if setup.open is None && setup.pending.len() > 0 {
        assert(pending_steps(setup.pending) == 1 + setup.pending[0].actions.len() + pending_steps(
            setup.pending.drop_first(),
        ));
    }
}

/// A failure never takes back what was created: whatever the runtime
/// answers, the sets that were done before the answer are done after it,
/// unchanged and in the same places.
pub proof fn lemma_created_sets_stay<F, V>(
    setup: SuisOxrActionSetupView<F, V>,
    outcome: Option<u64>,
)
    ensures
        setup.created.is_prefix_of(setup.advance(outcome).created),
        outcome is None ==> setup.advance(outcome).created.len() <= setup.created.len() + 1,
{
}

/// A set that the runtime could not create leaves nothing behind: the
/// set is dropped from what is still to be asked for, with all its actions,
/// and nothing else changes.
pub proof fn lemma_failed_set_is_absent<F, V>(setup: SuisOxrActionSetupView<F, V>)
    requires
        setup.request() is CreateActionSet,
    ensures
        setup.advance(None) == (SuisOxrActionSetupView {
            pending: setup.pending.drop_first(),
            ..setup
        }),
{
}

/// A configuration is not changed once it is handed out: declaring one
/// more set makes a configuration that has every set of the earlier one, as
/// it was and in its place, and the new set behind them.
pub proof fn lemma_declared_sets_stay(builder: SuisOxrBindingSetBuilderView)
    ensures
        builder.bindings.is_prefix_of(builder.bindings.push(builder.set)),
        builder.bindings.push(builder.set).len() == builder.bindings.len() + 1,
        builder.bindings.push(builder.set).last() == builder.set,
{
}

/// A configuration that was used up has nothing left to create: the
/// creation that starts from the empty configuration asks for nothing and
/// hands out nothing.
pub proof fn lemma_nothing_left_to_consume<F, V>(outcome: Option<u64>)
    ensures
        SuisOxrActionSetupView::<F, V>::start(Seq::empty()).request() is Finished,
        SuisOxrActionSetupView::<F, V>::start(Seq::empty()).created.len() == 0,
        SuisOxrActionSetupView::<F, V>::start(Seq::empty()).advance(outcome)
            == SuisOxrActionSetupView::<F, V>::start(Seq::empty()),
{
}

} // verus!
