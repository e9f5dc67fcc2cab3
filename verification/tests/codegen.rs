use ferrum::runtime::codegen::{
    plan_task, task_struct_name_of, TaskExpansion, TaskMacroError, TaskParam, TaskSignature,
};

fn signature(name: &str, has_return_type: bool, params: Vec<TaskParam>) -> TaskSignature {
    TaskSignature {
        name: name.to_string(),
        has_return_type,
        params,
    }
}

fn named(name: &str) -> TaskParam {
    TaskParam::Named(name.to_string())
}

#[test]
fn task_type_is_named_after_the_function() {
    assert_eq!(task_struct_name_of("simple_computation"), "SimpleComputationTask");
    assert_eq!(task_struct_name_of("simple_computation_2"), "SimpleComputation2Task");
    assert_eq!(task_struct_name_of("run"), "RunTask");
    assert_eq!(task_struct_name_of("_private__helper_"), "PrivateHelperTask");
    assert_eq!(task_struct_name_of(""), "Task");
    assert_eq!(task_struct_name_of("alreadyCamel"), "AlreadyCamelTask");
    assert_eq!(task_struct_name_of("ßtraße_ünder"), "SStraßeÜnderTask");
}

#[test]
fn function_with_plain_parameters_is_expanded() {
    let plan = plan_task(&signature("my_task", true, vec![named("name"), named("count")]));
    assert_eq!(
        plan,
        Ok(TaskExpansion {
            struct_name: "MyTaskTask".to_string(),
            param_names: vec!["name".to_string(), "count".to_string()],
        })
    );
    assert_eq!(
        plan_task(&signature("f", true, vec![])),
        Ok(TaskExpansion {
            struct_name: "FTask".to_string(),
            param_names: vec![],
        })
    );
}

#[test]
fn function_without_return_type_is_refused_first() {
    assert_eq!(
        plan_task(&signature("f", false, vec![TaskParam::Receiver])),
        Err(TaskMacroError::MissingReturnType)
    );
    assert_eq!(
        TaskMacroError::MissingReturnType.message(),
        "Task functions must have a return type"
    );
}

#[test]
fn first_parameter_that_cannot_be_captured_is_reported() {
    assert_eq!(
        plan_task(&signature(
            "f",
            true,
            vec![named("a"), TaskParam::Receiver, TaskParam::Pattern]
        )),
        Err(TaskMacroError::SelfParameter(1))
    );
    assert_eq!(
        plan_task(&signature(
            "f",
            true,
            vec![TaskParam::Pattern, TaskParam::Receiver]
        )),
        Err(TaskMacroError::UnsupportedPattern(0))
    );
    assert_eq!(
        TaskMacroError::SelfParameter(1).message(),
        "Task functions cannot have self parameters"
    );
    assert_eq!(
        TaskMacroError::UnsupportedPattern(0).message(),
        "Only simple parameter names are supported"
    );
}
