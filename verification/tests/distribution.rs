use bevy_suis::entity_table::EntityTable;
use bevy_suis::frame_map::FrameRotated;
use bevy_suis::{clear_handler_old_input, setup_input, InputData, InputHandler, InputMethod};

type Capture = fn(&InputData<u32>) -> bool;

fn never(_: &InputData<u32>) -> bool {
    false
}

fn always(_: &InputData<u32>) -> bool {
    true
}

fn handler() -> InputHandler<u32, Capture> {
    InputHandler::new(never as Capture)
}

fn method(payload: u32, order: &[u64]) -> InputMethod<u32> {
    InputMethod { input_data: payload, handler_order: order.to_vec(), captured_by: None }
}

#[test]
fn frame_rotated_starts_empty() {
    let frames: FrameRotated<u8> = FrameRotated::new();
    assert_eq!(frames.get_current(0), None);
    assert_eq!(frames.get_previous(0), None);
}

#[test]
fn frame_rotated_rotate_moves_current_to_previous() {
    let mut frames: FrameRotated<u8> = FrameRotated::new();
    frames.insert(1, 10);
    frames.insert(2, 20);
    frames.rotate();
    assert_eq!(frames.get_current(1), None);
    assert_eq!(frames.get_current(2), None);
    assert_eq!(frames.get_previous(1), Some(&10));
    assert_eq!(frames.get_previous(2), Some(&20));
    frames.insert(1, 11);
    frames.rotate();
    assert_eq!(frames.get_previous(1), Some(&11));
    assert_eq!(frames.get_previous(2), None);
}

#[test]
fn frame_rotated_insert_replaces() {
    let mut frames: FrameRotated<u8> = FrameRotated::new();
    frames.insert(1, 10);
    frames.insert(1, 11);
    assert_eq!(frames.get_current(1), Some(&11));
}

#[test]
fn frame_rotated_insert_if_absent_keeps_first() {
    let mut frames: FrameRotated<u8> = FrameRotated::new();
    frames.insert_if_absent(1, 10);
    frames.insert_if_absent(1, 11);
    frames.insert_if_absent(2, 20);
    assert_eq!(frames.get_current(1), Some(&10));
    assert_eq!(frames.get_current(2), Some(&20));
    assert_eq!(frames.get_previous(1), None);
}

#[test]
fn entity_table_insert_get_remove() {
    let mut table: EntityTable<u32> = EntityTable::new();
    assert_eq!(table.len(), 0);
    assert_eq!(table.insert(7, 70), None);
    assert_eq!(table.insert(9, 90), None);
    assert_eq!(table.len(), 2);
    assert_eq!(table.get(7), Some(&70));
    assert_eq!(table.get(9), Some(&90));
    assert_eq!(table.get(8), None);
    assert_eq!(table.insert(7, 71), Some(70));
    assert_eq!(table.len(), 2);
    assert_eq!(table.get(7), Some(&71));
    assert_eq!(table.remove(7), Some(71));
    assert_eq!(table.remove(7), None);
    assert_eq!(table.len(), 1);
    assert_eq!(table.get(7), None);
    assert_eq!(table.get(9), Some(&90));
}

#[test]
fn entity_table_slots_keep_their_order() {
    let mut table: EntityTable<u32> = EntityTable::new();
    table.insert(5, 50);
    table.insert(3, 30);
    table.insert(4, 40);
    assert_eq!(table.position(5), Some(0));
    assert_eq!(table.position(3), Some(1));
    assert_eq!(table.position(4), Some(2));
    assert_eq!(table.position(6), None);
    assert_eq!(table.entity_at(1), 3);
    assert_eq!(*table.item_at(1), 30);
    *table.item_mut(1) = 31;
    assert_eq!(table.get(3), Some(&31));
    table.remove(5);
    assert_eq!(table.position(3), Some(0));
    assert_eq!(table.position(4), Some(1));
}

#[test]
fn handler_starts_empty_and_keeps_its_condition() {
    let h: InputHandler<u32, Capture> = InputHandler::new(always as Capture);
    assert_eq!(h.current_data(1), None);
    assert_eq!(h.previous_frame_data(1), None);
    assert!((h.capture_condition)(&InputData(3)));
}

#[test]
fn handler_receive_then_rotate() {
    let mut h = handler();
    h.receive(1, 100);
    h.receive(2, 200);
    assert_eq!(h.current_data(1), Some(&100));
    assert_eq!(h.current_data(2), Some(&200));
    h.rotate();
    assert_eq!(h.current_data(1), None);
    assert_eq!(h.previous_frame_data(1), Some(&100));
    assert_eq!(h.previous_frame_data(2), Some(&200));
}

#[test]
fn rotate_phase_rotates_every_handler() {
    let mut handlers: EntityTable<InputHandler<u32, Capture>> = EntityTable::new();
    let mut a = handler();
    a.receive(1, 11);
    let mut b = handler();
    b.receive(2, 22);
    handlers.insert(10, a);
    handlers.insert(20, b);
    handlers.insert(30, handler());
    clear_handler_old_input(&mut handlers);
    assert_eq!(handlers.len(), 3);
    let a = handlers.get(10).unwrap();
    assert_eq!(a.current_data(1), None);
    assert_eq!(a.previous_frame_data(1), Some(&11));
    let b = handlers.get(20).unwrap();
    assert_eq!(b.current_data(2), None);
    assert_eq!(b.previous_frame_data(2), Some(&22));
    assert_eq!(b.previous_frame_data(1), None);
    let c = handlers.get(30).unwrap();
    assert_eq!(c.previous_frame_data(1), None);
}

#[test]
fn rotate_phase_twice_empties_both_frames() {
    let mut handlers: EntityTable<InputHandler<u32, Capture>> = EntityTable::new();
    let mut a = handler();
    a.receive(1, 11);
    handlers.insert(10, a);
    clear_handler_old_input(&mut handlers);
    clear_handler_old_input(&mut handlers);
    let a = handlers.get(10).unwrap();
    assert_eq!(a.current_data(1), None);
    assert_eq!(a.previous_frame_data(1), None);
}

#[test]
fn distribute_reaches_every_listed_handler() {
    let mut methods: EntityTable<InputMethod<u32>> = EntityTable::new();
    methods.insert(1, method(111, &[10, 20]));
    methods.insert(2, method(222, &[20]));
    let mut handlers: EntityTable<InputHandler<u32, Capture>> = EntityTable::new();
    handlers.insert(10, handler());
    handlers.insert(20, handler());
    handlers.insert(30, handler());
    setup_input(&methods, &mut handlers);
    let a = handlers.get(10).unwrap();
    assert_eq!(a.current_data(1), Some(&111));
    assert_eq!(a.current_data(2), None);
    let b = handlers.get(20).unwrap();
    assert_eq!(b.current_data(1), Some(&111));
    assert_eq!(b.current_data(2), Some(&222));
    let c = handlers.get(30).unwrap();
    assert_eq!(c.current_data(1), None);
    assert_eq!(c.current_data(2), None);
}

#[test]
fn distribute_keys_by_method_not_by_handler() {
    let mut methods: EntityTable<InputMethod<u32>> = EntityTable::new();
    methods.insert(1, method(111, &[10]));
    let mut handlers: EntityTable<InputHandler<u32, Capture>> = EntityTable::new();
    handlers.insert(10, handler());
    setup_input(&methods, &mut handlers);
    let a = handlers.get(10).unwrap();
    assert_eq!(a.current_data(1), Some(&111));
    assert_eq!(a.current_data(10), None);
}

#[test]
fn distribute_passes_over_a_removed_handler() {
    let mut methods: EntityTable<InputMethod<u32>> = EntityTable::new();
    methods.insert(1, method(111, &[10, 20, 30]));
    let mut handlers: EntityTable<InputHandler<u32, Capture>> = EntityTable::new();
    handlers.insert(10, handler());
    handlers.insert(20, handler());
    handlers.insert(30, handler());
    assert!(handlers.remove(20).is_some());
    setup_input(&methods, &mut handlers);
    assert_eq!(handlers.len(), 2);
    assert!(handlers.get(20).is_none());
    assert_eq!(handlers.get(10).unwrap().current_data(1), Some(&111));
    assert_eq!(handlers.get(30).unwrap().current_data(1), Some(&111));
}

#[test]
fn distribute_with_no_handlers_at_all() {
    let mut methods: EntityTable<InputMethod<u32>> = EntityTable::new();
    methods.insert(1, method(111, &[10, 20]));
    let mut handlers: EntityTable<InputHandler<u32, Capture>> = EntityTable::new();
    setup_input(&methods, &mut handlers);
    assert_eq!(handlers.len(), 0);
}

#[test]
fn distribute_ignores_capture() {
    let mut methods: EntityTable<InputMethod<u32>> = EntityTable::new();
    let mut m = method(5, &[10, 20]);
    m.captured_by = Some(10);
    methods.insert(1, m);
    let mut handlers: EntityTable<InputHandler<u32, Capture>> = EntityTable::new();
    handlers.insert(10, InputHandler::new(always as Capture));
    handlers.insert(20, InputHandler::new(never as Capture));
    setup_input(&methods, &mut handlers);
    assert_eq!(handlers.get(10).unwrap().current_data(1), Some(&5));
    assert_eq!(handlers.get(20).unwrap().current_data(1), Some(&5));
    assert_eq!(methods.get(1).unwrap().captured_by, Some(10));
}

#[test]
fn distribute_with_a_handler_listed_twice() {
    let mut methods: EntityTable<InputMethod<u32>> = EntityTable::new();
    methods.insert(1, method(9, &[10, 10]));
    let mut handlers: EntityTable<InputHandler<u32, Capture>> = EntityTable::new();
    handlers.insert(10, handler());
    setup_input(&methods, &mut handlers);
    assert_eq!(handlers.get(10).unwrap().current_data(1), Some(&9));
}

#[test]
fn distribute_keeps_what_other_methods_brought() {
    let mut handlers: EntityTable<InputHandler<u32, Capture>> = EntityTable::new();
    let mut h = handler();
    h.receive(7, 70);
    h.receive(1, 1);
    handlers.insert(10, h);
    let mut methods: EntityTable<InputMethod<u32>> = EntityTable::new();
    methods.insert(1, method(111, &[10]));
    setup_input(&methods, &mut handlers);
    let h = handlers.get(10).unwrap();
    assert_eq!(h.current_data(7), Some(&70));
    assert_eq!(h.current_data(1), Some(&111));
    assert_eq!(h.previous_frame_data(7), None);
}

#[test]
fn two_frames_show_the_change_of_a_payload() {
    let mut methods: EntityTable<InputMethod<u32>> = EntityTable::new();
    methods.insert(1, method(0, &[10]));
    let mut handlers: EntityTable<InputHandler<u32, Capture>> = EntityTable::new();
    handlers.insert(10, handler());

    clear_handler_old_input(&mut handlers);
    setup_input(&methods, &mut handlers);

    methods.item_mut(0).input_data = 1;
    clear_handler_old_input(&mut handlers);
    setup_input(&methods, &mut handlers);

    let h = handlers.get(10).unwrap();
    assert_eq!(h.previous_frame_data(1), Some(&0));
    assert_eq!(h.current_data(1), Some(&1));
}

#[test]
fn distribute_copies_a_payload_that_is_not_copy() {
    let mut methods: EntityTable<InputMethod<String>> = EntityTable::new();
    methods.insert(
        1,
        InputMethod {
            input_data: String::from("pinch"),
            handler_order: vec![10, 20],
            captured_by: None,
        },
    );
    let mut handlers: EntityTable<InputHandler<String, u8>> = EntityTable::new();
    handlers.insert(10, InputHandler::new(0));
    handlers.insert(20, InputHandler::new(1));
    setup_input(&methods, &mut handlers);
    assert_eq!(handlers.get(10).unwrap().current_data(1), Some(&String::from("pinch")));
    assert_eq!(handlers.get(20).unwrap().current_data(1), Some(&String::from("pinch")));
    assert_eq!(methods.get(1).unwrap().input_data, "pinch");
    assert_eq!(handlers.get(20).unwrap().capture_condition, 1);
}
