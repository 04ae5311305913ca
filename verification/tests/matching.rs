use repl_core::ast::Expr;
use repl_core::ast::Lambda;
use repl_core::ast::Let;
use repl_core::ast::Lit;
use repl_core::ast::Pat;
use repl_core::ast::Top;
use repl_core::error::RuntimeError;
use repl_core::numbers::Num;
use repl_core::pattern_matcher::pattern_match;
use repl_core::pattern_matcher::BoundData;
use repl_core::pattern_matcher::MatchResult;
use repl_core::runtime::RuntimeData;

fn num(x: f64) -> Num {
    Num { bits: x.to_bits(), text: x.to_string() }
}

fn data_num(x: f64) -> RuntimeData {
    RuntimeData::Number(num(x))
}

fn env_of(r: MatchResult) -> Vec<BoundData> {
    match r {
        MatchResult::Env(env) => env,
        other => panic!("expected bindings, got {:?}", other),
    }
}

#[test]
fn todo() {}

#[test]
fn wildcard_matches_any_value_with_empty_bindings() {
    let values = vec![
        data_num(1.5),
        RuntimeData::String("s".to_string()),
        RuntimeData::Symbol("sym".to_string()),
        RuntimeData::List(vec![data_num(1.0)]),
        RuntimeData::Tuple(vec![]),
    ];
    for v in &values {
        let env = env_of(pattern_match(&Pat::Wild, v));
        assert_eq!(env.len(), 0);
    }
}

#[test]
fn variable_matches_any_value_and_binds_it() {
    let v = RuntimeData::String("payload".to_string());
    let env = env_of(pattern_match(&Pat::Variable("V".to_string()), &v));
    assert_eq!(env.len(), 1);
    assert_eq!(env[0].name, "V");
    assert_eq!(env[0].data, RuntimeData::String("payload".to_string()));
}

#[test]
fn duplicate_name_detection_is_fatal() {
    let pattern = Pat::Tuple(vec![
        Pat::At("X".to_string(), Box::new(Pat::Wild)),
        Pat::Variable("X".to_string()),
    ]);
    let value = RuntimeData::Tuple(vec![data_num(1.0), data_num(2.0)]);
    match pattern_match(&pattern, &value) {
        MatchResult::Fatal(RuntimeError::CannotSetBoundVariable(name)) => {
            assert_eq!(name, "X");
        },
        other => panic!("expected fatal duplicate, got {:?}", other),
    }
}

#[test]
fn list_with_rest_splits() {
    let pattern = Pat::List(
        vec![Pat::Number(1f64.to_bits())],
        Some(Box::new(Pat::Variable("R".to_string()))),
    );
    let value = RuntimeData::List(vec![data_num(1.0), data_num(2.0), data_num(3.0)]);
    let env = env_of(pattern_match(&pattern, &value));
    assert_eq!(env.len(), 1);
    assert_eq!(env[0].name, "R");
    assert_eq!(env[0].data, RuntimeData::List(vec![data_num(2.0), data_num(3.0)]));
}

#[test]
fn list_arity_too_short_is_no_match() {
    let pattern = Pat::List(vec![Pat::Number(1f64.to_bits()), Pat::Number(2f64.to_bits())], None);
    let value = RuntimeData::List(vec![data_num(1.0)]);
    assert_eq!(pattern_match(&pattern, &value), MatchResult::NoMatch);
}

#[test]
fn tuple_arity_mismatch_is_no_match() {
    let pattern = Pat::Tuple(vec![Pat::Wild]);
    let value = RuntimeData::Tuple(vec![data_num(1.0), data_num(2.0)]);
    assert_eq!(pattern_match(&pattern, &value), MatchResult::NoMatch);
}

#[test]
fn nan_never_matches_itself() {
    let pattern = Pat::Number(f64::NAN.to_bits());
    let value = data_num(f64::NAN);
    assert_eq!(pattern_match(&pattern, &value), MatchResult::NoMatch);
}

#[test]
fn zeros_of_both_signs_match() {
    let pattern = Pat::Number(0.0f64.to_bits());
    let value = data_num(-0.0);
    let env = env_of(pattern_match(&pattern, &value));
    assert_eq!(env.len(), 0);
}

#[test]
fn scalar_literals_match_on_exact_equality() {
    let env = env_of(pattern_match(
        &Pat::String("a".to_string()),
        &RuntimeData::String("a".to_string()),
    ));
    assert_eq!(env.len(), 0);
    assert_eq!(
        pattern_match(&Pat::String("a".to_string()), &RuntimeData::String("b".to_string())),
        MatchResult::NoMatch
    );
    let env = env_of(pattern_match(
        &Pat::Symbol("ok".to_string()),
        &RuntimeData::Symbol("ok".to_string()),
    ));
    assert_eq!(env.len(), 0);
    assert_eq!(
        pattern_match(&Pat::Symbol("ok".to_string()), &RuntimeData::String("ok".to_string())),
        MatchResult::NoMatch
    );
}

#[test]
fn at_binds_whole_value_after_sub_bindings() {
    let pattern = Pat::At(
        "W".to_string(),
        Box::new(Pat::Tuple(vec![Pat::Variable("A".to_string()), Pat::Wild])),
    );
    let value = RuntimeData::Tuple(vec![data_num(1.0), data_num(2.0)]);
    let env = env_of(pattern_match(&pattern, &value));
    assert_eq!(env.len(), 2);
    assert_eq!(env[0].name, "A");
    assert_eq!(env[0].data, data_num(1.0));
    assert_eq!(env[1].name, "W");
    assert_eq!(env[1].data, value);
}

#[test]
fn function_value_matches_only_unconditional_patterns() {
    let value = RuntimeData::Function(repl_core::instr::Func(3));
    assert_eq!(env_of(pattern_match(&Pat::Wild, &value)).len(), 0);
    assert_eq!(
        pattern_match(&Pat::Symbol("f".to_string()), &value),
        MatchResult::NoMatch
    );
    assert_eq!(
        pattern_match(&Pat::Tuple(vec![]), &value),
        MatchResult::NoMatch
    );
}

#[test]
fn bound_variables_should_return_all_variables_in_top_scope() {
    // let X = 5; let Y = 6; let Z @ _ = 7; let { W } = 8; let H @ { N } = 9;
    let top = Top {
        lets: vec![
            Let {
                pattern: Pat::Variable("X".to_string()),
                expr: Expr::Literal(Lit::Number(num(5.0))),
            },
            Let {
                pattern: Pat::Variable("Y".to_string()),
                expr: Expr::Literal(Lit::Number(num(6.0))),
            },
            Let {
                pattern: Pat::At("Z".to_string(), Box::new(Pat::Wild)),
                expr: Expr::Literal(Lit::Number(num(7.0))),
            },
            Let {
                pattern: Pat::Tuple(vec![Pat::Variable("W".to_string())]),
                expr: Expr::Literal(Lit::Number(num(8.0))),
            },
            Let {
                pattern: Pat::At(
                    "H".to_string(),
                    Box::new(Pat::Tuple(vec![Pat::Variable("N".to_string())])),
                ),
                expr: Expr::Literal(Lit::Number(num(9.0))),
            },
        ],
        expr: None,
    };

    let output = top.variables_to_bind();

    assert_eq!(output, vec!["X", "Y", "Z", "W", "H", "N"]);
}

#[test]
fn bound_variables_should_return_no_inner_scope_variables() {
    // let X = fun(A, B, C) { let D = 8; }; let Y = 6; let Z @ _ = 7;
    // let { W } = 8; let H @ { N } = 9;
    let top = Top {
        lets: vec![
            Let {
                pattern: Pat::Variable("X".to_string()),
                expr: Expr::Literal(Lit::Lambda(Lambda {
                    params: vec![
                        Pat::Variable("A".to_string()),
                        Pat::Variable("B".to_string()),
                        Pat::Variable("C".to_string()),
                    ],
                    body: Box::new(Top {
                        lets: vec![Let {
                            pattern: Pat::Variable("D".to_string()),
                            expr: Expr::Literal(Lit::Number(num(8.0))),
                        }],
                        expr: None,
                    }),
                })),
            },
            Let {
                pattern: Pat::Variable("Y".to_string()),
                expr: Expr::Literal(Lit::Number(num(6.0))),
            },
            Let {
                pattern: Pat::At("Z".to_string(), Box::new(Pat::Wild)),
                expr: Expr::Literal(Lit::Number(num(7.0))),
            },
            Let {
                pattern: Pat::Tuple(vec![Pat::Variable("W".to_string())]),
                expr: Expr::Literal(Lit::Number(num(8.0))),
            },
            Let {
                pattern: Pat::At(
                    "H".to_string(),
                    Box::new(Pat::Tuple(vec![Pat::Variable("N".to_string())])),
                ),
                expr: Expr::Literal(Lit::Number(num(9.0))),
            },
        ],
        expr: None,
    };

    let output = top.variables_to_bind();

    assert_eq!(output, vec!["X", "Y", "Z", "W", "H", "N"]);
}
