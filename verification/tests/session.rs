use repl_core::ast::Expr;
use repl_core::ast::Lambda;
use repl_core::ast::Let;
use repl_core::ast::Lit;
use repl_core::ast::Pat;
use repl_core::ast::Top;
use repl_core::compiler::compile;
use repl_core::data::Context;
use repl_core::display::print_data;
use repl_core::engine::run;
use repl_core::error::DynamicError;
use repl_core::error::EvalError;
use repl_core::error::RuntimeError;
use repl_core::error::StaticError;
use repl_core::evaler::eval;
use repl_core::instr::Data;
use repl_core::instr::Func;
use repl_core::instr::FunctionTable;
use repl_core::instr::Instr;
use repl_core::instr::Symbol;
use repl_core::numbers::Num;
use repl_core::runtime::Heap;
use repl_core::runtime::HeapAddress;
use repl_core::runtime::RuntimeData;

fn num(x: f64) -> Num {
    Num { bits: x.to_bits(), text: x.to_string() }
}

fn lit_num(x: f64) -> Lit {
    Lit::Number(num(x))
}

fn data_num(x: f64) -> RuntimeData {
    RuntimeData::Number(num(x))
}

fn let_var(name: &str, e: Expr) -> Let {
    Let { pattern: Pat::Variable(name.to_string()), expr: e }
}

#[test]
fn compiling_and_executing_list_allocates_one_container() {
    let mut ctx = Context::new();
    let expr = Expr::Literal(Lit::List(vec![lit_num(1.0), lit_num(2.0)]));
    let prog = compile(&expr, &ctx.address_map, &mut ctx.functions).unwrap();
    ctx.functions.insert(Func(0), prog);
    let result = run(&ctx.functions, &mut ctx.heap).unwrap();
    match result {
        Some(Data::Value(RuntimeData::Address(a))) => assert_eq!(a.0, 0),
        other => panic!("expected an address, got {:?}", other),
    }
    assert_eq!(ctx.heap.len(), 1);
    match ctx.heap.get(HeapAddress(0)) {
        Some(RuntimeData::List(items)) => {
            assert_eq!(items.len(), 2);
            assert_eq!(items[0], data_num(1.0));
            assert_eq!(items[1], data_num(2.0));
        },
        other => panic!("expected a list in the heap, got {:?}", other),
    }
}

#[test]
fn rebinding_fails_and_keeps_first_binding() {
    let mut ctx = Context::new();
    let first = Top { lets: vec![let_var("X", Expr::Literal(lit_num(5.0)))], expr: None };
    assert_eq!(eval(first, &mut ctx), Ok(None));

    let second = Top { lets: vec![let_var("X", Expr::Literal(lit_num(6.0)))], expr: None };
    assert_eq!(
        eval(second, &mut ctx),
        Err(EvalError::Runtime(RuntimeError::CannotSetBoundVariable("X".to_string())))
    );

    let read_back = Top {
        lets: vec![],
        expr: Some(Expr::Literal(Lit::Variable("X".to_string()))),
    };
    assert_eq!(eval(read_back, &mut ctx), Ok(Some("5".to_string())));
}

#[test]
fn earlier_lets_of_a_failing_form_stay_committed() {
    let mut ctx = Context::new();
    let form = Top {
        lets: vec![
            let_var("A", Expr::Literal(lit_num(1.0))),
            let_var("A", Expr::Literal(lit_num(2.0))),
        ],
        expr: None,
    };
    assert_eq!(
        eval(form, &mut ctx),
        Err(EvalError::Runtime(RuntimeError::CannotSetBoundVariable("A".to_string())))
    );
    let read_back = Top {
        lets: vec![],
        expr: Some(Expr::Literal(Lit::Variable("A".to_string()))),
    };
    assert_eq!(eval(read_back, &mut ctx), Ok(Some("1".to_string())));
}

#[test]
fn lambda_duplicate_names_fail_before_emitting() {
    let mut ctx = Context::new();
    let lam = Lambda {
        params: vec![Pat::Variable("A".to_string()), Pat::Variable("A".to_string())],
        body: Box::new(Top {
            lets: vec![],
            expr: Some(Expr::Literal(Lit::Variable("A".to_string()))),
        }),
    };
    let expr = Expr::Literal(Lit::Lambda(lam));
    match compile(&expr, &ctx.address_map, &mut ctx.functions) {
        Err(StaticError::DuplicateVariableDefinitions(n)) => assert_eq!(n, "A"),
        other => panic!("expected a duplicate-name error, got {:?}", other),
    }
    assert_eq!(ctx.functions.len(), 0);
}

#[test]
fn lambda_duplicate_between_params_and_body_fails() {
    let mut ctx = Context::new();
    let lam = Lambda {
        params: vec![Pat::Variable("A".to_string())],
        body: Box::new(Top {
            lets: vec![let_var("A", Expr::Literal(lit_num(1.0)))],
            expr: None,
        }),
    };
    let expr = Expr::Literal(Lit::Lambda(lam));
    match compile(&expr, &ctx.address_map, &mut ctx.functions) {
        Err(StaticError::DuplicateVariableDefinitions(n)) => assert_eq!(n, "A"),
        other => panic!("expected a duplicate-name error, got {:?}", other),
    }
}

#[test]
fn scalar_render_round_trip_number() {
    let mut ctx = Context::new();
    let form = Top { lets: vec![], expr: Some(Expr::Literal(lit_num(5.0))) };
    assert_eq!(eval(form, &mut ctx), Ok(Some("5".to_string())));
}

#[test]
fn scalar_render_round_trip_fractional_number() {
    let mut ctx = Context::new();
    let form = Top { lets: vec![], expr: Some(Expr::Literal(lit_num(3.14))) };
    assert_eq!(eval(form, &mut ctx), Ok(Some("3.14".to_string())));
}

#[test]
fn scalar_render_round_trip_string() {
    let mut ctx = Context::new();
    let form = Top {
        lets: vec![],
        expr: Some(Expr::Literal(Lit::String("hi".to_string()))),
    };
    assert_eq!(eval(form, &mut ctx), Ok(Some("\"hi\"".to_string())));
}

#[test]
fn scalar_render_round_trip_symbol() {
    let mut ctx = Context::new();
    let form = Top {
        lets: vec![],
        expr: Some(Expr::Literal(Lit::Symbol("foo".to_string()))),
    };
    assert_eq!(eval(form, &mut ctx), Ok(Some("foo".to_string())));
}

#[test]
fn heap_addresses_never_reused() {
    let mut heap = Heap::new();
    let mut previous: Option<u64> = None;
    for i in 0..8 {
        let a = heap.insert_new(data_num(i as f64));
        if let Some(p) = previous {
            assert!(p < a.0);
        }
        assert_eq!(a.0, i as u64);
        previous = Some(a.0);
    }
    assert_eq!(heap.len(), 8);
}

#[test]
fn empty_form_produces_no_output() {
    let mut ctx = Context::new();
    let form = Top { lets: vec![], expr: None };
    assert_eq!(eval(form, &mut ctx), Ok(None));
}

#[test]
fn run_without_entry_produces_no_result() {
    let functions = FunctionTable::new();
    let mut heap = Heap::new();
    assert_eq!(run(&functions, &mut heap), Ok(None));
}

#[test]
fn undefined_variable_is_static_error() {
    let mut ctx = Context::new();
    let form = Top {
        lets: vec![],
        expr: Some(Expr::Literal(Lit::Variable("NOPE".to_string()))),
    };
    assert_eq!(
        eval(form, &mut ctx),
        Err(EvalError::Static(StaticError::VariableNotDefined("NOPE".to_string())))
    );
}

#[test]
fn call_expression_is_an_explicit_todo() {
    let mut ctx = Context::new();
    let call = Expr::Call(
        Box::new(Expr::Literal(Lit::Variable("F".to_string()))),
        vec![],
    );
    let form = Top { lets: vec![], expr: Some(call) };
    assert_eq!(eval(form, &mut ctx), Err(EvalError::Static(StaticError::Todo)));
}

#[test]
fn top_level_mismatch_is_pattern_match_failed() {
    let mut ctx = Context::new();
    let form = Top {
        lets: vec![Let {
            pattern: Pat::Number(5f64.to_bits()),
            expr: Expr::Literal(Lit::String("s".to_string())),
        }],
        expr: None,
    };
    assert_eq!(
        eval(form, &mut ctx),
        Err(EvalError::Runtime(RuntimeError::PatternMatchFailed))
    );
}

#[test]
fn destructuring_let_binds_each_name() {
    let mut ctx = Context::new();
    let form = Top {
        lets: vec![Let {
            pattern: Pat::Tuple(vec![
                Pat::Variable("A".to_string()),
                Pat::Variable("B".to_string()),
            ]),
            expr: Expr::Literal(Lit::Tuple(vec![lit_num(1.0), lit_num(2.0)])),
        }],
        expr: Some(Expr::Literal(Lit::Variable("B".to_string()))),
    };
    assert_eq!(eval(form, &mut ctx), Ok(Some("2".to_string())));
}

#[test]
fn lambda_reference_renders_as_function_tag() {
    let mut ctx = Context::new();
    let bind = Top {
        lets: vec![let_var(
            "F",
            Expr::Literal(Lit::Lambda(Lambda {
                params: vec![Pat::Variable("A".to_string())],
                body: Box::new(Top { lets: vec![], expr: None }),
            })),
        )],
        expr: None,
    };
    assert_eq!(eval(bind, &mut ctx), Ok(None));
    let read_back = Top {
        lets: vec![],
        expr: Some(Expr::Literal(Lit::Variable("F".to_string()))),
    };
    assert_eq!(eval(read_back, &mut ctx), Ok(Some("Function: 1".to_string())));
}

#[test]
fn nested_compound_values_render_recursively() {
    let mut ctx = Context::new();
    let form = Top {
        lets: vec![],
        expr: Some(Expr::Literal(Lit::List(vec![
            lit_num(1.0),
            Lit::Tuple(vec![lit_num(2.0), lit_num(3.0)]),
        ]))),
    };
    assert_eq!(
        eval(form, &mut ctx),
        Ok(Some("Address( List( 1, Address( Tuple( 2, 3 ) ) ) )".to_string()))
    );
}

#[test]
fn push_into_wrong_shape_is_type_mismatch() {
    let mut heap = Heap::new();
    let a = heap.insert_new(data_num(1.0));
    match heap.push_into_list(a, data_num(2.0)) {
        Err(DynamicError::TypeMismatch { expected, observed }) => {
            assert_eq!(expected, "RuntimeData::List");
            assert_eq!(observed, "?");
        },
        other => panic!("expected a type mismatch, got {:?}", other),
    }
}

#[test]
fn push_at_unassigned_address_cannot_find_it() {
    let mut heap = Heap::new();
    assert_eq!(
        heap.push_into_tuple(HeapAddress(7), data_num(1.0)),
        Err(DynamicError::CannotFindHeapAddress)
    );
}

#[test]
fn reading_an_unwritten_register_cannot_find_local() {
    let mut functions = FunctionTable::new();
    functions.insert(Func(0), vec![Instr::Return(Symbol(1))]);
    let mut heap = Heap::new();
    assert_eq!(
        run(&functions, &mut heap),
        Err(EvalError::Dynamic(DynamicError::CannotFindLocal))
    );
}

#[test]
fn panic_on_false_aborts_the_run() {
    let mut functions = FunctionTable::new();
    functions.insert(
        Func(0),
        vec![
            Instr::LoadValue(Symbol(1), RuntimeData::Symbol("false".to_string())),
            Instr::PanicOnFalse(Symbol(1), "boom".to_string()),
        ],
    );
    let mut heap = Heap::new();
    assert_eq!(
        run(&functions, &mut heap),
        Err(EvalError::Dynamic(DynamicError::Panic("boom".to_string())))
    );
}

#[test]
fn pattern_match_instruction_binds_into_heap() {
    let mut functions = FunctionTable::new();
    functions.insert(
        Func(0),
        vec![
            Instr::LoadValue(Symbol(1), data_num(7.0)),
            repl_core::instr::pattern_match(
                Symbol(1),
                Pat::Variable("V".to_string()),
                Symbol(2),
                vec![("V".to_string(), Symbol(3))],
            ),
            Instr::Return(Symbol(2)),
        ],
    );
    let mut heap = Heap::new();
    let result = run(&functions, &mut heap).unwrap();
    assert_eq!(result, Some(Data::Value(RuntimeData::Symbol("true".to_string()))));
    assert_eq!(heap.len(), 1);
    assert_eq!(heap.get(HeapAddress(0)), Some(&data_num(7.0)));
}

#[test]
fn render_follows_address_chains() {
    let mut heap = Heap::new();
    let inner = heap.insert_new(data_num(4.0));
    let outer = heap.insert_new(RuntimeData::Address(inner));
    let depth = heap.len();
    assert_eq!(
        print_data(&RuntimeData::Address(outer), &heap, depth),
        "Address( Address( 4 ) )"
    );
}

#[test]
fn render_guards_against_dangling_addresses() {
    let heap = Heap::new();
    assert_eq!(print_data(&RuntimeData::Address(HeapAddress(9)), &heap, 5), "?");
}

#[test]
fn error_messages_have_their_exact_texts() {
    assert_eq!(
        StaticError::DuplicateVariableDefinitions("v".to_string()).message(),
        "encountered duplicate variable definitions: v"
    );
    assert_eq!(
        StaticError::VariableNotDefined("v".to_string()).message(),
        "encountered undefined variable: v"
    );
    assert_eq!(StaticError::Todo.message(), "TODO");
    assert_eq!(DynamicError::Panic("p".to_string()).message(), "panic: p");
    assert_eq!(
        DynamicError::TypeMismatch { expected: "a".to_string(), observed: "b".to_string() }
            .message(),
        "type mismatch expected a, but found b"
    );
    assert_eq!(DynamicError::CannotFindHeapAddress.message(), "cannot find heap address");
    assert_eq!(
        RuntimeError::VariableNotFound("v".to_string()).message(),
        "could not find variable:  v"
    );
    assert_eq!(
        RuntimeError::CannotSetBoundVariable("v".to_string()).message(),
        "cannot set already bound variable:  v"
    );
    assert_eq!(
        RuntimeError::CannotPatternMatchAgainstLambda.message(),
        "cannot pattern match against a lambda"
    );
    assert_eq!(RuntimeError::PatternMatchFailed.message(), "pattern match failed");
}

#[test]
fn render_depth_guard_stops_on_self_reference() {
    let mut heap = Heap::new();
    let a = heap.insert_new(RuntimeData::Address(HeapAddress(0)));
    assert_eq!(a.0, 0);
    let depth = heap.len();
    assert_eq!(print_data(&RuntimeData::Address(a), &heap, depth), "Address( ? )");
}

#[test]
fn function_tags_render_multi_digit_ids() {
    let heap = Heap::new();
    assert_eq!(
        print_data(&RuntimeData::Function(Func(1234)), &heap, 1),
        "Function: 1234"
    );
    assert_eq!(print_data(&RuntimeData::Function(Func(0)), &heap, 1), "Function: 0");
}

#[test]
fn smallest_duplicated_name_is_reported() {
    // Parameters bind B, B, A, A: both names repeat; sorting the names
    // and scanning adjacent pairs reports A, the smaller one.
    let mut ctx = Context::new();
    let lam = Lambda {
        params: vec![
            Pat::Variable("B".to_string()),
            Pat::Variable("B".to_string()),
            Pat::Variable("A".to_string()),
            Pat::Variable("A".to_string()),
        ],
        body: Box::new(Top { lets: vec![], expr: None }),
    };
    let expr = Expr::Literal(Lit::Lambda(lam));
    match compile(&expr, &ctx.address_map, &mut ctx.functions) {
        Err(StaticError::DuplicateVariableDefinitions(n)) => assert_eq!(n, "A"),
        other => panic!("expected a duplicate-name error, got {:?}", other),
    }
}
