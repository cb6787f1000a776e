use whisp::importer::builtinimporter::BuiltinImporter;
use whisp::module::loader::ModuleLoader;
use whisp::module::spec::ModuleSpec;
use whisp::object::WhispObj;

// The module's source, as the loader would read it from `./tests/test.w`.
const TEST_MODULE: &str = "
    def maximum(a, b) {
        if a > b {
            return a;
        } else {
            return b;
        }
    }
";

#[test]
fn test_exec_module_loads_and_evals_file() {
    let mut importer = BuiltinImporter::new();

    let spec = ModuleSpec {
        name: "test".to_string(),
        loader: Box::new(BuiltinImporter::new()),
        module_search_locations: vec!["./tests/".to_string()],
    };
    let mut module = importer.create_module(spec);
    let result = importer.exec_module(&mut module, TEST_MODULE);

    assert!(result.is_ok());

    assert!(module.lookup("maximum").is_some());

    match module.lookup("maximum") {
        Some(WhispObj::Function { .. }) => {
            // The function value is present.
        },
        Some(val) => panic!("Expected `maximum` to be a Function, got {:?}", val),
        None => panic!("Function `maximum` not found in scope"),
    }
}

#[test]
fn module_keeps_builtins_and_bindings_after_exec() {
    let mut importer = BuiltinImporter::new();
    let spec = ModuleSpec::new("m".to_string(), Box::new(BuiltinImporter::new()), vec![]);
    let mut module = importer.create_module(spec);
    assert_eq!(module.name, "m");
    let result = importer.exec_module(&mut module, "let x = 41; x = x + 1;");
    assert!(result.is_ok());
    assert_eq!(module.lookup("x"), Some(WhispObj::Int(42)));
    assert!(matches!(module.lookup("print"), Some(WhispObj::BuiltInFunction { .. })));
    // The session has handed all its scopes over to the module.
    assert_eq!(importer.whisp.eval.env.stack.len(), 0);
}

#[test]
fn module_reports_parse_and_exec_errors() {
    let mut importer = BuiltinImporter::new();
    let spec = ModuleSpec::new("m".to_string(), Box::new(BuiltinImporter::new()), vec![]);
    let mut module = importer.create_module(spec);
    let err = importer.exec_module(&mut module, "y = 1;").unwrap_err();
    assert_eq!(err.message(), "ModuleExecError: Undeclared variable 'y'.");
    let err = importer.exec_module(&mut module, "1 / 0;").unwrap_err();
    assert_eq!(err.message(), "ModuleExecError: Division by zero");
    assert!(module.scope.is_empty());
}
