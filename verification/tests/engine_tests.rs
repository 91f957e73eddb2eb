use turbo_tasks::backend::TaskState;
use turbo_tasks::backend::SharedReference;
use turbo_tasks::raw_vc::{ReadAndMapPoll, ReadPoll, ResolveTypeError};
use turbo_tasks::task::{TraitType, ValueType};
use turbo_tasks::manager::{ReadError, TurboTasks};
use turbo_tasks::raw_vc::RawVc;
use turbo_tasks::registry::Registry;
use turbo_tasks::task::{NativeFunction, TaskStep};

const FUEL: u64 = 1000;
const INTEGER_TY: usize = 4;
const FILE_CONTENT_TY: usize = 3;

fn int_bytes(v: u64) -> Vec<u8> {
    v.to_le_bytes().to_vec()
}

fn int_of(bytes: &[u8]) -> u64 {
    u64::from_le_bytes(bytes.try_into().unwrap())
}

fn registry_with(functions: Vec<(&str, u64, Vec<TaskStep>)>) -> Registry {
    let mut reg = Registry::new();
    for (name, descriptor, body) in functions {
        reg.register_function(name.to_string(), NativeFunction { descriptor, body });
    }
    reg
}

#[test]
fn memoized_spawn_yields_one_task_and_one_execution() {
    // double: integer -> integer
    let reg = registry_with(vec![(
        "double",
        1,
        vec![
            TaskStep::MulAcc(2),
            TaskStep::PublishAcc(0, INTEGER_TY),
            TaskStep::OutputCell(0),
        ],
    )]);
    let mut tt = TurboTasks::new(reg);
    let h1 = tt.spawn(0, 3);
    let h2 = tt.spawn(0, 3);
    assert_eq!(h1, h2);

    let r1 = h1.into_read().drive(&mut tt, FUEL).unwrap();
    let r2 = h2.into_read().drive(&mut tt, FUEL).unwrap();
    assert_eq!(int_of(&r1.1), 6);
    assert_eq!(int_of(&r2.1), 6);

    let c1 = h1.resolve(&mut tt, FUEL).unwrap();
    let c2 = h2.resolve(&mut tt, FUEL).unwrap();
    assert_eq!(c1, c2);
    assert!(c1.is_resolved());

    // exactly one execution of `double` has occurred
    assert_eq!(tt.tasks[0].executions, 1);
}

#[test]
fn distinct_fingerprints_make_distinct_tasks() {
    let reg = registry_with(vec![(
        "double",
        1,
        vec![
            TaskStep::MulAcc(2),
            TaskStep::PublishAcc(0, INTEGER_TY),
            TaskStep::OutputCell(0),
        ],
    )]);
    let mut tt = TurboTasks::new(reg);
    let h3 = tt.spawn(0, 3);
    let h4 = tt.spawn(0, 4);
    assert_ne!(h3, h4);
    let r3 = h3.into_read().drive(&mut tt, FUEL).unwrap();
    let r4 = h4.into_read().drive(&mut tt, FUEL).unwrap();
    assert_eq!(int_of(&r3.1), 6);
    assert_eq!(int_of(&r4.1), 8);
}

#[test]
fn invalidation_reexecutes_reader_exactly_once() {
    // task 0: external source; task 1 reads its cell 0 and adds one
    let reg = registry_with(vec![
        ("source", 1, vec![]),
        (
            "add_one",
            2,
            vec![
                TaskStep::ReadCell(0, 0),
                TaskStep::AddAcc(1),
                TaskStep::PublishAcc(0, INTEGER_TY),
                TaskStep::OutputCell(0),
            ],
        ),
    ]);
    let mut tt = TurboTasks::new(reg);
    let _source = tt.spawn(0, 0);
    tt.publish_cell(0, 0, Some(INTEGER_TY), int_bytes(10));
    let ha = tt.spawn(1, 0);

    let r = ha.into_read().drive(&mut tt, FUEL).unwrap();
    assert_eq!(int_of(&r.1), 11);
    assert_eq!(tt.tasks[1].executions, 1);

    // external invalidation: a new value with an advanced version
    let v_before = tt.tasks[0].cells[0].version;
    tt.publish_cell(0, 0, Some(INTEGER_TY), int_bytes(20));
    assert!(tt.tasks[0].cells[0].version > v_before);
    assert!(matches!(tt.tasks[1].state, TaskState::Dirty));

    let r = ha.into_read().drive(&mut tt, FUEL).unwrap();
    assert_eq!(int_of(&r.1), 21);
    assert_eq!(tt.tasks[1].executions, 2);
}

#[test]
fn equal_republish_keeps_version_and_readers() {
    // task 0 publishes 42; task 1 reads task 0's cell
    let reg = registry_with(vec![
        (
            "answer",
            1,
            vec![
                TaskStep::PublishBytes(0, Some(INTEGER_TY), int_bytes(42)),
                TaskStep::OutputCell(0),
            ],
        ),
        (
            "reader",
            2,
            vec![
                TaskStep::ReadCell(0, 0),
                TaskStep::PublishAcc(0, INTEGER_TY),
                TaskStep::OutputCell(0),
            ],
        ),
    ]);
    let mut tt = TurboTasks::new(reg);
    let hb = tt.spawn(0, 0);
    let hr = tt.spawn(1, 0);
    let _ = hb.into_read().drive(&mut tt, FUEL).unwrap();
    let _ = hr.into_read().drive(&mut tt, FUEL).unwrap();
    let version_before = tt.tasks[0].cells[0].version;
    assert!(matches!(tt.tasks[1].state, TaskState::Done));

    // forced re-run publishes 42 again
    tt.tasks[0].state = TaskState::Scheduled;
    assert!(tt.turn(FUEL));
    assert_eq!(tt.tasks[0].executions, 2);

    // the cell's version did not advance; the reader was not woken
    assert_eq!(tt.tasks[0].cells[0].version, version_before);
    assert!(matches!(tt.tasks[1].state, TaskState::Done));
}

#[test]
fn strongly_consistent_read_sees_fresh_value() {
    // task 0: source; task 1 derives from it; task 2 derives from task 1
    let reg = registry_with(vec![
        ("source", 1, vec![]),
        (
            "derive",
            2,
            vec![
                TaskStep::ReadCell(0, 0),
                TaskStep::MulAcc(10),
                TaskStep::PublishAcc(0, INTEGER_TY),
                TaskStep::OutputCell(0),
            ],
        ),
        (
            "derive_again",
            3,
            vec![
                TaskStep::ReadOutput(1),
                TaskStep::AddAcc(1),
                TaskStep::PublishAcc(0, INTEGER_TY),
                TaskStep::OutputCell(0),
            ],
        ),
    ]);
    let mut tt = TurboTasks::new(reg);
    let _s = tt.spawn(0, 0);
    tt.publish_cell(0, 0, Some(INTEGER_TY), int_bytes(5));
    let _hd = tt.spawn(1, 0);
    let hc = tt.spawn(2, 0);

    let r = hc.into_read().drive(&mut tt, FUEL).unwrap();
    assert_eq!(int_of(&r.1), 51);

    // invalidate the source
    tt.publish_cell(0, 0, Some(INTEGER_TY), int_bytes(7));

    // a strongly-consistent read returns the value derived from the new
    // source
    let r = hc
        .into_strongly_consistent_read()
        .drive(&mut tt, FUEL)
        .unwrap();
    assert_eq!(int_of(&r.1), 71);
}

#[test]
fn typed_read_mismatch_is_type_mismatch() {
    let reg = registry_with(vec![(
        "file_content",
        1,
        vec![
            TaskStep::PublishBytes(0, Some(FILE_CONTENT_TY), b"contents".to_vec()),
            TaskStep::OutputCell(0),
        ],
    )]);
    let mut tt = TurboTasks::new(reg);
    let h = tt.spawn(0, 0);
    let content = h.into_read().drive(&mut tt, FUEL).unwrap();
    assert!(matches!(
        content.cast(INTEGER_TY),
        Err(ReadError::TypeMismatch)
    ));
    assert_eq!(content.cast(FILE_CONTENT_TY).unwrap(), b"contents".to_vec());
}

#[test]
fn task_error_is_memoized_with_same_cause() {
    let reg = registry_with(vec![(
        "exploder",
        1,
        vec![TaskStep::Fail("boom".to_string())],
    )]);
    let mut tt = TurboTasks::new(reg);
    let he = tt.spawn(0, 0);
    match he.into_read().drive(&mut tt, FUEL) {
        Err(ReadError::TaskError(msg)) => assert_eq!(msg, "boom"),
        _ => panic!(),
    }
    match he.into_read().drive(&mut tt, FUEL) {
        Err(ReadError::TaskError(msg)) => assert_eq!(msg, "boom"),
        _ => panic!(),
    }
    assert_eq!(tt.tasks[0].executions, 1);
}

#[test]
fn resolve_is_idempotent() {
    let reg = registry_with(vec![(
        "double",
        1,
        vec![
            TaskStep::MulAcc(2),
            TaskStep::PublishAcc(0, INTEGER_TY),
            TaskStep::OutputCell(0),
        ],
    )]);
    let mut tt = TurboTasks::new(reg);
    let h = tt.spawn(0, 21);
    let once = h.resolve(&mut tt, FUEL).unwrap();
    let twice = once.resolve(&mut tt, FUEL).unwrap();
    assert_eq!(once, twice);
    assert!(once.is_resolved());
    assert!(!h.is_resolved());
    assert_eq!(h.get_task_id(), once.get_task_id());
}

#[test]
fn read_after_resolve_returns_same_payload() {
    let reg = registry_with(vec![(
        "double",
        1,
        vec![
            TaskStep::MulAcc(2),
            TaskStep::PublishAcc(0, INTEGER_TY),
            TaskStep::OutputCell(0),
        ],
    )]);
    let mut tt = TurboTasks::new(reg);
    let h = tt.spawn(0, 21);
    let through_handle = h.into_read().drive(&mut tt, FUEL).unwrap();
    let cell = h.resolve(&mut tt, FUEL).unwrap();
    let through_cell = cell.into_read().drive(&mut tt, FUEL).unwrap();
    assert_eq!(through_handle.0, through_cell.0);
    assert_eq!(through_handle.1, through_cell.1);
}

#[test]
fn reading_an_empty_cell_is_no_content() {
    // publishes nothing to cell 1 but points its output there
    let reg = registry_with(vec![(
        "hollow",
        1,
        vec![
            TaskStep::PublishBytes(0, Some(INTEGER_TY), int_bytes(1)),
            TaskStep::OutputCell(1),
        ],
    )]);
    let mut tt = TurboTasks::new(reg);
    let h = tt.spawn(0, 0);
    match h.into_read().drive(&mut tt, FUEL) {
        Err(ReadError::NoContent) => {}
        _ => panic!(),
    }
}

#[test]
fn untracked_read_records_no_edge() {
    let reg = registry_with(vec![(
        "double",
        1,
        vec![
            TaskStep::MulAcc(2),
            TaskStep::PublishAcc(0, INTEGER_TY),
            TaskStep::OutputCell(0),
        ],
    )]);
    let mut tt = TurboTasks::new(reg);
    let h = tt.spawn(0, 8);
    let r = h.into_read_untracked(&mut tt, FUEL).unwrap();
    assert_eq!(int_of(&r.1), 16);
    let r = h
        .into_strongly_consistent_read_untracked(&mut tt, FUEL)
        .unwrap();
    assert_eq!(int_of(&r.1), 16);
    // no reader was executing, so no dependents were registered
    assert!(tt.tasks[0].cells[0].dependents.is_empty());
}

#[test]
fn cell_versions_are_monotone() {
    let reg = registry_with(vec![("source", 1, vec![])]);
    let mut tt = TurboTasks::new(reg);
    let _h = tt.spawn(0, 0);
    let mut last = 0u64;
    for round in 0..5u64 {
        tt.publish_cell(0, 0, Some(INTEGER_TY), int_bytes(round));
        let version = tt.tasks[0].cells[0].version;
        assert!(version >= last);
        last = version;
        tt.invalidate(0, 0);
        let version = tt.tasks[0].cells[0].version;
        assert!(version >= last);
        last = version;
    }
}

#[test]
fn resolve_value_and_trait_distinguish_types() {
    let mut reg = registry_with(vec![
        (
            "file_content",
            1,
            vec![
                TaskStep::PublishBytes(0, Some(0), b"x".to_vec()),
                TaskStep::OutputCell(0),
            ],
        ),
        (
            "untyped",
            2,
            vec![
                TaskStep::PublishBytes(0, None, b"y".to_vec()),
                TaskStep::OutputCell(0),
            ],
        ),
    ]);
    // value type 0 implements trait 0 but not trait 1
    reg.register_trait_type("readable".to_string(), TraitType { descriptor: 10 });
    reg.register_value_type(
        "file_content_ty".to_string(),
        ValueType {
            descriptor: 20,
            traits: vec![0],
        },
    );
    let mut tt = TurboTasks::new(reg);
    let h = tt.spawn(0, 0);
    let hu = tt.spawn(1, 0);

    let same = h.resolve_value(&mut tt, 0, FUEL).unwrap();
    assert_eq!(same, Some(RawVc::TaskCell(0, 0)));
    let other = h.resolve_value(&mut tt, 9, FUEL).unwrap();
    assert_eq!(other, None);

    let member = h.resolve_trait(&mut tt, 0, FUEL).unwrap();
    assert_eq!(member, Some(RawVc::TaskCell(0, 0)));
    let nonmember = h.resolve_trait(&mut tt, 1, FUEL).unwrap();
    assert_eq!(nonmember, None);

    match hu.resolve_value(&mut tt, 0, FUEL) {
        Err(ResolveTypeError::UntypedContent) => {}
        _ => panic!(),
    }
}

#[test]
fn self_dependency_is_a_cycle_error() {
    let reg = registry_with(vec![(
        "navel_gazer",
        1,
        vec![TaskStep::ReadOutput(0), TaskStep::OutputCell(0)],
    )]);
    let mut tt = TurboTasks::new(reg);
    let h = tt.spawn(0, 0);
    match h.into_read().drive(&mut tt, FUEL) {
        Err(ReadError::TaskError(msg)) => {
            assert_eq!(msg, "read depends on a task that is executing")
        }
        _ => panic!(),
    }
}

#[test]
fn missing_index_on_rerun_is_cleared_and_invalidated() {
    // first run fills cells 0 and 1; runs after an invalidation read the
    // switch cell and only fill cell 0
    let reg = registry_with(vec![
        ("switch", 1, vec![]),
        (
            "shrinking",
            2,
            vec![
                TaskStep::ReadCell(0, 0),
                TaskStep::PublishAcc(0, INTEGER_TY),
                TaskStep::PublishBytes(1, Some(INTEGER_TY), int_bytes(9)),
                TaskStep::OutputCell(0),
            ],
        ),
    ]);
    let mut tt = TurboTasks::new(reg);
    let _s = tt.spawn(0, 0);
    tt.publish_cell(0, 0, Some(INTEGER_TY), int_bytes(1));
    let h = tt.spawn(1, 0);
    let _ = h.into_read().drive(&mut tt, FUEL).unwrap();
    assert!(tt.tasks[1].cells[1].content.is_some());

    // re-run a body that no longer publishes cell 1
    tt.registry.functions[1].0.body = vec![
        TaskStep::ReadCell(0, 0),
        TaskStep::PublishAcc(0, INTEGER_TY),
        TaskStep::OutputCell(0),
    ];
    tt.publish_cell(0, 0, Some(INTEGER_TY), int_bytes(2));
    let _ = h.into_read().drive(&mut tt, FUEL).unwrap();
    assert!(tt.tasks[1].cells[1].content.is_none());
}

#[test]
fn run_once_spawns_and_reads() {
    let reg = registry_with(vec![(
        "double",
        1,
        vec![
            TaskStep::MulAcc(2),
            TaskStep::PublishAcc(0, INTEGER_TY),
            TaskStep::OutputCell(0),
        ],
    )]);
    let mut tt = TurboTasks::new(reg);
    let r = tt.run_once(0, 6, FUEL).unwrap();
    assert_eq!(int_of(&r.1), 12);
    // the same key is reused on the next entry
    let r = tt.run_once(0, 6, FUEL).unwrap();
    assert_eq!(int_of(&r.1), 12);
    assert_eq!(tt.tasks.len(), 1);
    assert_eq!(tt.tasks[0].executions, 1);
}

#[test]
fn polling_with_manual_turns_reaches_the_value() {
    let reg = registry_with(vec![(
        "double",
        1,
        vec![
            TaskStep::MulAcc(2),
            TaskStep::PublishAcc(0, INTEGER_TY),
            TaskStep::OutputCell(0),
        ],
    )]);
    let mut tt = TurboTasks::new(reg);
    let h = tt.spawn(0, 5);
    let mut fut = h.into_read();
    let mut rounds = 0;
    loop {
        match fut.poll(&mut tt, FUEL) {
            ReadPoll::Ready(r) => {
                assert_eq!(int_of(&r.unwrap().1), 10);
                break;
            }
            ReadPoll::Pending => {
                assert!(tt.turn(FUEL));
                rounds += 1;
                assert!(rounds < 10);
            }
        }
    }
}

#[test]
fn explicit_invalidate_marks_done_reader_dirty() {
    let reg = registry_with(vec![
        ("source", 1, vec![]),
        (
            "add_one",
            2,
            vec![
                TaskStep::ReadCell(0, 0),
                TaskStep::AddAcc(1),
                TaskStep::PublishAcc(0, INTEGER_TY),
                TaskStep::OutputCell(0),
            ],
        ),
    ]);
    let mut tt = TurboTasks::new(reg);
    let _s = tt.spawn(0, 0);
    tt.publish_cell(0, 0, Some(INTEGER_TY), int_bytes(10));
    let ha = tt.spawn(1, 0);
    let _ = ha.into_read().drive(&mut tt, FUEL).unwrap();
    assert!(matches!(tt.tasks[1].state, TaskState::Done));

    // version advances without a content change; the reader goes dirty
    tt.invalidate(0, 0);
    assert!(matches!(tt.tasks[1].state, TaskState::Dirty));

    // content unchanged, so the re-run publishes an equal value
    let r = ha.into_read().drive(&mut tt, FUEL).unwrap();
    assert_eq!(int_of(&r.1), 11);
    assert_eq!(tt.tasks[1].executions, 2);
}

#[test]
fn notify_scheduled_tasks_is_a_hint() {
    let reg = registry_with(vec![("source", 1, vec![])]);
    let mut tt = TurboTasks::new(reg);
    let _h = tt.spawn(0, 0);
    tt.notify_scheduled_tasks();
    assert_eq!(tt.tasks.len(), 1);
}

#[test]
fn zero_fuel_read_is_exhausted() {
    let reg = registry_with(vec![(
        "double",
        1,
        vec![
            TaskStep::MulAcc(2),
            TaskStep::PublishAcc(0, INTEGER_TY),
            TaskStep::OutputCell(0),
        ],
    )]);
    let mut tt = TurboTasks::new(reg);
    let h = tt.spawn(0, 1);
    match h.into_read().drive(&mut tt, 0) {
        Err(ReadError::FuelExhausted) => {}
        _ => panic!(),
    }
}

#[test]
fn resolve_value_on_empty_cell_is_no_content() {
    let reg = registry_with(vec![("source", 1, vec![])]);
    let mut tt = TurboTasks::new(reg);
    let _h = tt.spawn(0, 0);
    let cell = RawVc::TaskCell(0, 0);
    match cell.resolve_value(&mut tt, 0, FUEL) {
        Err(ResolveTypeError::NoContent) => {}
        _ => panic!(),
    }
}

#[test]
fn resolve_value_on_failed_task_is_task_error() {
    let reg = registry_with(vec![(
        "exploder",
        1,
        vec![TaskStep::Fail("boom".to_string())],
    )]);
    let mut tt = TurboTasks::new(reg);
    let h = tt.spawn(0, 0);
    match h.resolve_value(&mut tt, 0, FUEL) {
        Err(ResolveTypeError::TaskError(msg)) => assert_eq!(msg, "boom"),
        _ => panic!(),
    }
}

#[test]
fn mapped_read_reaches_the_projected_result() {
    let reg = registry_with(vec![(
        "double",
        1,
        vec![
            TaskStep::MulAcc(2),
            TaskStep::PublishAcc(0, INTEGER_TY),
            TaskStep::OutputCell(0),
        ],
    )]);
    let mut tt = TurboTasks::new(reg);
    let h = tt.spawn(0, 5);
    let mut fut = h.into_read().map(|c: &SharedReference| &c.1);
    let mut rounds = 0;
    loop {
        match fut.poll(&mut tt, FUEL) {
            ReadAndMapPoll::Ready(r) => {
                assert!(r.is_ok());
                break;
            }
            ReadAndMapPoll::Pending => {
                assert!(tt.turn(FUEL));
                rounds += 1;
                assert!(rounds < 10);
            }
        }
    }
}
