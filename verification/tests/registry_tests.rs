use turbo_tasks::registry::Registry;
use turbo_tasks::task::{NativeFunction, TaskStep, TraitType, ValueType};

fn function(descriptor: u64) -> NativeFunction {
    NativeFunction {
        descriptor,
        body: vec![TaskStep::OutputCell(0)],
    }
}

#[test]
fn function_registration_assigns_dense_ids() {
    let mut reg = Registry::new();
    reg.register_function("alpha".to_string(), function(100));
    reg.register_function("beta".to_string(), function(200));
    assert_eq!(reg.get_function_id_by_global_name("alpha"), Some(0));
    assert_eq!(reg.get_function_id_by_global_name("beta"), Some(1));
    assert_eq!(reg.get_function_id_by_global_name("gamma"), None);
    assert_eq!(reg.get_function(0).descriptor, 100);
    assert_eq!(reg.get_function(1).descriptor, 200);
    assert_eq!(reg.get_function_global_name(0), "alpha");
    assert_eq!(reg.get_function_global_name(1), "beta");
    assert_eq!(reg.get_function_id(&function(200)), 1);
}

#[test]
fn function_registration_is_idempotent() {
    let mut reg = Registry::new();
    reg.register_function("alpha".to_string(), function(100));
    reg.register_function("alpha again".to_string(), function(100));
    assert_eq!(reg.functions.len(), 1);
    assert_eq!(reg.get_function_id(&function(100)), 0);
    // the second registration changed nothing, not even the name table
    assert_eq!(reg.get_function_id_by_global_name("alpha again"), None);
}

#[test]
fn value_type_registration_and_lookup() {
    let mut reg = Registry::new();
    reg.register_value_type(
        "file_content".to_string(),
        ValueType {
            descriptor: 7,
            traits: vec![0, 2],
        },
    );
    assert_eq!(reg.get_value_type_id_by_global_name("file_content"), Some(0));
    assert_eq!(reg.get_value_type(0).descriptor, 7);
    assert!(reg.get_value_type(0).has_trait(2));
    assert!(!reg.get_value_type(0).has_trait(1));
    assert_eq!(reg.get_value_type_global_name(0), "file_content");
    assert_eq!(
        reg.get_value_type_id(&ValueType {
            descriptor: 7,
            traits: vec![],
        }),
        0
    );
}

#[test]
fn trait_type_registration_and_lookup() {
    let mut reg = Registry::new();
    reg.register_trait_type("asset".to_string(), TraitType { descriptor: 9 });
    reg.register_trait_type("asset".to_string(), TraitType { descriptor: 9 });
    assert_eq!(reg.trait_types.len(), 1);
    assert_eq!(reg.get_trait_type_id_by_global_name("asset"), Some(0));
    assert_eq!(reg.get_trait(0).descriptor, 9);
    assert_eq!(reg.get_trait_type_global_name(0), "asset");
    assert_eq!(reg.get_trait_type_id(&TraitType { descriptor: 9 }), 0);
}
