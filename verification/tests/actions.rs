use bevy_suis::openxr_low_level_actions::binding::{SuisOxrActionType, SuisOxrBindings};
use bevy_suis::openxr_low_level_actions::{
    attach_actions, clear_last_action_values, create_actions, create_suis_oxr_action,
    destroy_action_spaces, suggest_bindings, sync_sets, SuisOxrAction, SuisOxrActionSetup,
    SuisOxrCreatedSet, SuisOxrSetupRequest, SuisOxrSpaceAction, SuisOxrSpaceUpdate,
    SuisOxrSuggestedBinding, SuisOxrTypedAction,
};

type Vec2 = (f32, f32);
type Action = SuisOxrAction<f32, Vec2>;
type Setup = SuisOxrActionSetup<f32, Vec2>;
type Created = SuisOxrCreatedSet<f32, Vec2>;

const NULL_PATH: u64 = 0;

/// Runs the creation with a runtime that gives out the handles 1, 2, 3...
/// and fails on every request that names one of `failing`.
fn run(bindings: SuisOxrBindings, failing: &[&str]) -> (Vec<Created>, Vec<SuisOxrSetupRequest>) {
    let mut setup: Setup = create_actions(bindings);
    let mut asked = Vec::new();
    let mut next: u64 = 1;
    loop {
        let request = setup.request();
        let name = match request {
            SuisOxrSetupRequest::CreateActionSet { name, .. } => name,
            SuisOxrSetupRequest::CreateAction { name, .. } => name,
            SuisOxrSetupRequest::Finished => break,
        };
        asked.push(request);
        let outcome: Result<u64, &'static str> = if failing.contains(&name) {
            Err("runtime failure")
        } else {
            next += 1;
            Ok(next - 1)
        };
        setup = setup.advance(outcome);
    }
    (setup.finish(), asked)
}

fn grip_configuration() -> SuisOxrBindings {
    SuisOxrBindings::default()
        .add_set("main", "Main")
        .add_action_xr_space("grip", "Grip")
        .add_profile_bindings("simple_controller")
        .add_binding("/user/hand/left/input/grip/pose")
        .finish()
        .finish()
        .finish()
}

#[test]
fn edge_detection_over_two_frames() {
    let mut a: SuisOxrTypedAction<bool> = SuisOxrTypedAction::new(1);
    let path = 5;
    a.clear_last_values();
    assert_eq!(a.get_current_value::<()>(path, Ok(false)), Ok(false));
    a.clear_last_values();
    assert_eq!(a.get_current_value::<()>(path, Ok(true)), Ok(true));
    assert_eq!(a.get_last_value(path), Some(false));
}

#[test]
fn typed_action_keeps_its_handle() {
    let a: SuisOxrTypedAction<bool> = SuisOxrTypedAction::new(77);
    assert_eq!(a.action(), 77);
    assert_eq!(a.get_last_value(0), None);
}

#[test]
fn first_value_of_a_frame_is_the_one_kept() {
    let mut a: SuisOxrTypedAction<u8> = SuisOxrTypedAction::new(1);
    assert_eq!(a.get_current_value::<()>(5, Ok(3)), Ok(3));
    assert_eq!(a.get_current_value::<()>(5, Ok(4)), Ok(4));
    assert_eq!(a.get_current_value::<()>(6, Ok(9)), Ok(9));
    assert_eq!(a.get_last_value(5), None);
    a.clear_last_values();
    assert_eq!(a.get_last_value(5), Some(3));
    assert_eq!(a.get_last_value(6), Some(9));
}

#[test]
fn last_value_of_a_path_that_was_not_read() {
    let mut a: SuisOxrTypedAction<bool> = SuisOxrTypedAction::new(1);
    a.get_current_value::<()>(5, Ok(true)).unwrap();
    a.clear_last_values();
    assert_eq!(a.get_last_value(6), None);
    assert_eq!(a.get_last_value(5), Some(true));
    a.clear_last_values();
    assert_eq!(a.get_last_value(5), None);
}

#[test]
fn a_failed_read_is_handed_on_and_keeps_nothing() {
    let mut a: SuisOxrTypedAction<bool> = SuisOxrTypedAction::new(1);
    assert_eq!(a.get_current_value(5, Err("lost")), Err("lost"));
    assert_eq!(a.get_current_value::<&str>(5, Ok(true)), Ok(true));
    a.clear_last_values();
    assert_eq!(a.get_last_value(5), Some(true));
    assert_eq!(a.get_current_value(5, Err(404)), Err(404));
    a.clear_last_values();
    assert_eq!(a.get_last_value(5), None);
}

#[test]
fn typed_action_of_a_number_and_of_a_pair() {
    let mut f: SuisOxrTypedAction<f32> = SuisOxrTypedAction::new(1);
    assert_eq!(f.get_current_value::<()>(5, Ok(0.25)), Ok(0.25));
    f.clear_last_values();
    assert_eq!(f.get_last_value(5), Some(0.25));
    let mut v: SuisOxrTypedAction<Vec2> = SuisOxrTypedAction::new(2);
    assert_eq!(v.get_current_value::<()>(5, Ok((0.5, -1.0))), Ok((0.5, -1.0)));
    assert_eq!(v.get_last_value(5), None);
    v.clear_last_values();
    assert_eq!(v.get_last_value(5), Some((0.5, -1.0)));
}

#[test]
fn get_space_supersedes_and_retires() {
    let mut a = SuisOxrSpaceAction::new(3);
    assert_eq!(a.action(), 3);
    assert_eq!(a.live_space(NULL_PATH), None);
    assert_eq!(
        a.get_space::<()>(NULL_PATH, Ok(100)),
        Ok(SuisOxrSpaceUpdate { space: 100, retired: None })
    );
    assert_eq!(a.live_space(NULL_PATH), Some(100));
    assert_eq!(
        a.get_space::<()>(NULL_PATH, Ok(101)),
        Ok(SuisOxrSpaceUpdate { space: 101, retired: Some(100) })
    );
    assert_eq!(a.live_space(NULL_PATH), Some(101));
}

#[test]
fn get_space_with_the_same_handle_retires_nothing() {
    let mut a = SuisOxrSpaceAction::new(3);
    a.get_space::<()>(7, Ok(100)).unwrap();
    assert_eq!(
        a.get_space::<()>(7, Ok(100)),
        Ok(SuisOxrSpaceUpdate { space: 100, retired: None })
    );
    assert_eq!(a.live_space(7), Some(100));
}

#[test]
fn get_space_keeps_the_paths_apart() {
    let mut a = SuisOxrSpaceAction::new(3);
    a.get_space::<()>(1, Ok(100)).unwrap();
    assert_eq!(
        a.get_space::<()>(2, Ok(200)),
        Ok(SuisOxrSpaceUpdate { space: 200, retired: None })
    );
    assert_eq!(
        a.get_space::<()>(1, Ok(101)),
        Ok(SuisOxrSpaceUpdate { space: 101, retired: Some(100) })
    );
    assert_eq!(a.live_space(1), Some(101));
    assert_eq!(a.live_space(2), Some(200));
}

#[test]
fn get_space_hands_an_error_on_and_changes_nothing() {
    let mut a = SuisOxrSpaceAction::new(3);
    a.get_space::<&str>(1, Ok(100)).unwrap();
    assert_eq!(a.get_space(1, Err("no session")), Err("no session"));
    assert_eq!(a.live_space(1), Some(100));
    assert_eq!(a.get_space(2, Err("no session")), Err("no session"));
    assert_eq!(a.live_space(2), None);
}

#[test]
fn every_superseded_space_is_retired_once() {
    let mut a = SuisOxrSpaceAction::new(3);
    let mut retired = Vec::new();
    for space in 100..110u64 {
        let update = a.get_space::<()>(space % 2, Ok(space)).unwrap();
        assert_eq!(update.space, space);
        assert_ne!(update.retired, Some(space));
        retired.extend(update.retired);
    }
    assert_eq!(retired, vec![100, 101, 102, 103, 104, 105, 106, 107]);
    assert_eq!(a.live_space(0), Some(108));
    assert_eq!(a.live_space(1), Some(109));
}

#[test]
fn drain_spaces_hands_back_every_space() {
    let mut a = SuisOxrSpaceAction::new(3);
    a.get_space::<()>(1, Ok(100)).unwrap();
    a.get_space::<()>(2, Ok(200)).unwrap();
    a.get_space::<()>(3, Ok(300)).unwrap();
    let mut spaces = a.drain_spaces();
    spaces.sort();
    assert_eq!(spaces, vec![100, 200, 300]);
    assert_eq!(a.live_space(1), None);
    assert_eq!(a.live_space(2), None);
    assert_eq!(a.drain_spaces(), Vec::<u64>::new());
    assert_eq!(a.action(), 3);
}

#[test]
fn create_suis_oxr_action_follows_the_declared_type() {
    let bindings = SuisOxrBindings::default()
        .add_set("s", "S")
        .add_action_bool("a", "A")
        .finish()
        .add_action_f32("b", "B")
        .finish()
        .add_action_vec2("c", "C")
        .finish()
        .add_action_xr_space("d", "D")
        .finish()
        .finish();
    let set = bindings.set_at(0);
    let a: Action = create_suis_oxr_action::<f32, Vec2, ()>(set.action_at(0), Ok(11)).unwrap();
    assert!(matches!(a, SuisOxrAction::Bool(_)));
    assert_eq!(a.as_raw(), 11);
    assert_eq!(a.action_type(), SuisOxrActionType::Bool);
    let b: Action = create_suis_oxr_action::<f32, Vec2, ()>(set.action_at(1), Ok(12)).unwrap();
    assert!(matches!(b, SuisOxrAction::F32(_)));
    assert_eq!(b.as_raw(), 12);
    let c: Action = create_suis_oxr_action::<f32, Vec2, ()>(set.action_at(2), Ok(13)).unwrap();
    assert!(matches!(c, SuisOxrAction::Vec2(_)));
    assert_eq!(c.action_type(), SuisOxrActionType::Vec2);
    let d: Action = create_suis_oxr_action::<f32, Vec2, ()>(set.action_at(3), Ok(14)).unwrap();
    assert!(matches!(d, SuisOxrAction::Space(_)));
    assert_eq!(d.as_raw(), 14);
    let e = create_suis_oxr_action::<f32, Vec2, &str>(set.action_at(3), Err("refused"));
    assert!(matches!(e, Err("refused")));
}

#[test]
fn end_to_end_one_set_one_space_action() {
    let (mut sets, asked) = run(grip_configuration(), &[]);
    assert_eq!(
        asked,
        vec![
            SuisOxrSetupRequest::CreateActionSet { name: "main", localized_name: "Main", priority: 0 },
            SuisOxrSetupRequest::CreateAction {
                set: 1,
                action_type: SuisOxrActionType::Space,
                name: "grip",
                localized_name: "Grip",
            },
        ]
    );
    assert_eq!(sets.len(), 1);
    let set = &mut sets[0].set;
    assert_eq!(set.name, "main");
    assert_eq!(set.localized_name, "Main");
    assert!(set.active);
    assert_eq!(set.set, 1);
    assert_eq!(set.actions.len(), 1);
    let action = match set.actions.first_mut().unwrap() {
        SuisOxrAction::Space(v) => v,
        _ => panic!("the action is not a space action"),
    };
    assert_eq!(action.action(), 2);
    let first = action.get_space::<()>(NULL_PATH, Ok(500)).unwrap();
    assert_eq!(first, SuisOxrSpaceUpdate { space: 500, retired: None });
    let second = action.get_space::<()>(NULL_PATH, Ok(501)).unwrap();
    assert_eq!(second.retired, Some(first.space));
    assert_ne!(second.space, first.space);
    assert_eq!(action.live_space(NULL_PATH), Some(second.space));
}

#[test]
fn partial_failure_keeps_the_set_declared_before() {
    let bindings = SuisOxrBindings::default()
        .add_set("A", "Set A")
        .add_action_bool("press", "Press")
        .finish()
        .finish()
        .add_set("B", "Set B")
        .add_action_bool("hold", "Hold")
        .finish()
        .finish();
    let (mut sets, asked) = run(bindings, &["B"]);
    assert_eq!(asked.len(), 3);
    assert_eq!(
        asked[2],
        SuisOxrSetupRequest::CreateActionSet { name: "B", localized_name: "Set B", priority: 0 }
    );
    assert_eq!(sets.len(), 1);
    assert_eq!(sets[0].set.name, "A");
    assert_eq!(sets[0].set.actions.len(), 1);
    assert!(sets.iter().all(|s| s.set.name != "B"));
    match &mut sets[0].set.actions[0] {
        SuisOxrAction::Bool(a) => {
            assert_eq!(a.get_current_value::<()>(1, Ok(true)), Ok(true));
        }
        _ => panic!("the action is not a bool action"),
    }
}

#[test]
fn a_failed_set_does_not_stop_the_sets_behind_it() {
    let bindings = SuisOxrBindings::default()
        .add_set("A", "Set A")
        .add_action_bool("x", "X")
        .finish()
        .add_action_bool("y", "Y")
        .finish()
        .finish()
        .add_set("B", "Set B")
        .add_action_f32("z", "Z")
        .finish()
        .finish();
    let (sets, asked) = run(bindings, &["A"]);
    assert_eq!(asked.len(), 3);
    assert_eq!(sets.len(), 1);
    assert_eq!(sets[0].set.name, "B");
    assert_eq!(sets[0].set.set, 1);
    assert_eq!(sets[0].set.actions.len(), 1);
    assert_eq!(sets[0].set.actions[0].as_raw(), 2);
    assert_eq!(sets[0].bindings.name(), "B");
}

#[test]
fn a_failed_action_is_left_out_alone() {
    let bindings = SuisOxrBindings::default()
        .add_set("A", "Set A")
        .add_action_bool("x", "X")
        .add_profile_bindings("/p")
        .add_binding("/x/click")
        .finish()
        .finish()
        .add_action_f32("y", "Y")
        .add_profile_bindings("/p")
        .add_binding("/y/value")
        .finish()
        .finish()
        .add_action_vec2("z", "Z")
        .add_profile_bindings("/p")
        .add_binding("/z/pos")
        .finish()
        .finish()
        .finish();
    let (sets, asked) = run(bindings, &["y"]);
    assert_eq!(asked.len(), 4);
    assert_eq!(sets.len(), 1);
    let created = &sets[0];
    assert_eq!(created.set.actions.len(), 2);
    assert_eq!(created.set.actions[0].action_type(), SuisOxrActionType::Bool);
    assert_eq!(created.set.actions[0].as_raw(), 2);
    assert_eq!(created.set.actions[1].action_type(), SuisOxrActionType::Vec2);
    assert_eq!(created.set.actions[1].as_raw(), 3);
    assert_eq!(created.bindings.action_count(), 2);
    assert_eq!(created.bindings.action_at(0).name(), "x");
    assert_eq!(created.bindings.action_at(1).name(), "z");
    let suggested = suggest_bindings(&sets);
    assert_eq!(
        suggested,
        vec![
            SuisOxrSuggestedBinding {
                action: 2,
                interaction_profile: "/p",
                bindings: vec!["/x/click"],
            },
            SuisOxrSuggestedBinding {
                action: 3,
                interaction_profile: "/p",
                bindings: vec!["/z/pos"],
            },
        ]
    );
}

#[test]
fn a_set_whose_actions_all_fail_is_still_created() {
    let bindings = SuisOxrBindings::default()
        .add_set("A", "Set A")
        .add_action_bool("x", "X")
        .finish()
        .finish();
    let (sets, _) = run(bindings, &["x"]);
    assert_eq!(sets.len(), 1);
    assert_eq!(sets[0].set.actions.len(), 0);
    assert_eq!(sets[0].bindings.action_count(), 0);
}

#[test]
fn a_set_without_actions_is_created_at_once() {
    let bindings = SuisOxrBindings::default().add_set("A", "Set A").finish();
    let mut setup: Setup = create_actions(bindings);
    assert_eq!(
        setup.request(),
        SuisOxrSetupRequest::CreateActionSet { name: "A", localized_name: "Set A", priority: 0 }
    );
    setup = setup.advance::<()>(Ok(9));
    assert_eq!(setup.request(), SuisOxrSetupRequest::Finished);
    let sets = setup.finish();
    assert_eq!(sets.len(), 1);
    assert_eq!(sets[0].set.set, 9);
}

#[test]
fn the_empty_configuration_asks_for_nothing() {
    let mut bindings = grip_configuration();
    let _used = bindings.take();
    let mut setup: Setup = create_actions(bindings.take());
    assert_eq!(setup.request(), SuisOxrSetupRequest::Finished);
    setup = setup.advance::<()>(Ok(1));
    assert_eq!(setup.request(), SuisOxrSetupRequest::Finished);
    assert_eq!(setup.finish().len(), 0);
}

#[test]
fn finish_before_the_end_hands_out_what_is_done() {
    let bindings = SuisOxrBindings::default()
        .add_set("A", "Set A")
        .finish()
        .add_set("B", "Set B")
        .add_action_bool("x", "X")
        .finish()
        .finish();
    let mut setup: Setup = create_actions(bindings);
    setup = setup.advance::<()>(Ok(1));
    setup = setup.advance::<()>(Ok(2));
    assert!(matches!(setup.request(), SuisOxrSetupRequest::CreateAction { set: 2, .. }));
    let sets = setup.finish();
    assert_eq!(sets.len(), 1);
    assert_eq!(sets[0].set.name, "A");
}

#[test]
fn suggest_bindings_lists_every_profile_of_every_action() {
    let bindings = SuisOxrBindings::default()
        .add_set("A", "Set A")
        .add_action_bool("x", "X")
        .add_profile_bindings("/profile/one")
        .add_binding("/a")
        .add_binding("/b")
        .finish()
        .add_profile_bindings("/profile/two")
        .add_binding("/c")
        .finish()
        .finish()
        .add_action_bool("unbound", "Unbound")
        .finish()
        .finish()
        .add_set("B", "Set B")
        .add_action_xr_space("grip", "Grip")
        .add_profile_bindings("/profile/one")
        .add_binding("/d")
        .finish()
        .finish()
        .finish();
    let (sets, _) = run(bindings, &[]);
    assert_eq!(
        suggest_bindings(&sets),
        vec![
            SuisOxrSuggestedBinding {
                action: 2,
                interaction_profile: "/profile/one",
                bindings: vec!["/a", "/b"],
            },
            SuisOxrSuggestedBinding { action: 2, interaction_profile: "/profile/two", bindings: vec!["/c"] },
            SuisOxrSuggestedBinding { action: 5, interaction_profile: "/profile/one", bindings: vec!["/d"] },
        ]
    );
}

#[test]
fn suggest_bindings_of_nothing() {
    let sets: Vec<Created> = Vec::new();
    assert_eq!(suggest_bindings(&sets), Vec::new());
}

#[test]
fn attach_takes_every_set_and_sync_the_active_ones() {
    let bindings = SuisOxrBindings::default()
        .add_set("A", "Set A")
        .finish()
        .add_set("B", "Set B")
        .finish()
        .add_set("C", "Set C")
        .finish();
    let (mut sets, _) = run(bindings, &[]);
    assert_eq!(attach_actions(&sets), vec![1, 2, 3]);
    assert_eq!(sync_sets(&sets), vec![1, 2, 3]);
    sets[1].set.active = false;
    assert_eq!(attach_actions(&sets), vec![1, 2, 3]);
    assert_eq!(sync_sets(&sets), vec![1, 3]);
    sets[0].set.active = false;
    sets[2].set.active = false;
    assert_eq!(sync_sets(&sets), Vec::<u64>::new());
}

#[test]
fn clear_last_action_values_rotates_every_typed_action() {
    let bindings = SuisOxrBindings::default()
        .add_set("A", "Set A")
        .add_action_bool("x", "X")
        .finish()
        .add_action_xr_space("grip", "Grip")
        .finish()
        .finish()
        .add_set("B", "Set B")
        .add_action_f32("y", "Y")
        .finish()
        .add_action_vec2("z", "Z")
        .finish()
        .finish();
    let (mut sets, _) = run(bindings, &[]);
    if let SuisOxrAction::Bool(a) = &mut sets[0].set.actions[0] {
        a.get_current_value::<()>(1, Ok(true)).unwrap();
    }
    if let SuisOxrAction::Space(a) = &mut sets[0].set.actions[1] {
        a.get_space::<()>(1, Ok(900)).unwrap();
    }
    if let SuisOxrAction::F32(a) = &mut sets[1].set.actions[0] {
        a.get_current_value::<()>(1, Ok(0.5)).unwrap();
    }
    if let SuisOxrAction::Vec2(a) = &mut sets[1].set.actions[1] {
        a.get_current_value::<()>(1, Ok((1.0, 2.0))).unwrap();
    }
    clear_last_action_values(&mut sets);
    match &sets[0].set.actions[0] {
        SuisOxrAction::Bool(a) => assert_eq!(a.get_last_value(1), Some(true)),
        _ => panic!("the action is not a bool action"),
    }
    match &sets[0].set.actions[1] {
        SuisOxrAction::Space(a) => assert_eq!(a.live_space(1), Some(900)),
        _ => panic!("the action is not a space action"),
    }
    match &sets[1].set.actions[0] {
        SuisOxrAction::F32(a) => assert_eq!(a.get_last_value(1), Some(0.5)),
        _ => panic!("the action is not a number action"),
    }
    match &sets[1].set.actions[1] {
        SuisOxrAction::Vec2(a) => assert_eq!(a.get_last_value(1), Some((1.0, 2.0))),
        _ => panic!("the action is not a pair action"),
    }
    clear_last_action_values(&mut sets);
    match &sets[0].set.actions[0] {
        SuisOxrAction::Bool(a) => assert_eq!(a.get_last_value(1), None),
        _ => panic!("the action is not a bool action"),
    }
    assert_eq!(sets[0].set.name, "A");
    assert_eq!(sets[1].set.set, 4);
}

#[test]
fn destroy_action_spaces_drains_every_space_action() {
    let bindings = SuisOxrBindings::default()
        .add_set("A", "Set A")
        .add_action_xr_space("left", "Left")
        .finish()
        .add_action_bool("x", "X")
        .finish()
        .finish()
        .add_set("B", "Set B")
        .add_action_xr_space("right", "Right")
        .finish()
        .finish();
    let (mut sets, _) = run(bindings, &[]);
    if let SuisOxrAction::Space(a) = &mut sets[0].set.actions[0] {
        a.get_space::<()>(1, Ok(900)).unwrap();
        a.get_space::<()>(2, Ok(901)).unwrap();
    }
    if let SuisOxrAction::Bool(a) = &mut sets[0].set.actions[1] {
        a.get_current_value::<()>(1, Ok(true)).unwrap();
    }
    if let SuisOxrAction::Space(a) = &mut sets[1].set.actions[0] {
        a.get_space::<()>(1, Ok(902)).unwrap();
    }
    let mut destroyed = destroy_action_spaces(&mut sets);
    assert_eq!(&destroyed[2..], &[902]);
    destroyed.sort();
    assert_eq!(destroyed, vec![900, 901, 902]);
    match &sets[0].set.actions[0] {
        SuisOxrAction::Space(a) => {
            assert_eq!(a.live_space(1), None);
            assert_eq!(a.live_space(2), None);
        }
        _ => panic!("the action is not a space action"),
    }
    assert_eq!(destroy_action_spaces(&mut sets), Vec::<u64>::new());
    clear_last_action_values(&mut sets);
    match &sets[0].set.actions[1] {
        SuisOxrAction::Bool(a) => assert_eq!(a.get_last_value(1), Some(true)),
        _ => panic!("the action is not a bool action"),
    }
    assert_eq!(sets.len(), 2);
    assert_eq!(sets[1].set.actions.len(), 1);
}

#[test]
fn action_drain_spaces_of_a_typed_action_is_empty() {
    let mut a: Action = SuisOxrAction::Bool(SuisOxrTypedAction::new(4));
    assert_eq!(a.drain_spaces(), Vec::<u64>::new());
    a.clear_last_values();
    assert_eq!(a.as_raw(), 4);
}
