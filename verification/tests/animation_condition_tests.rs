use chronos_engine::animation::{AnimCondition, AnimParam};

#[test]
fn test_condition_bool_equals() {
    let params = vec![AnimParam::Bool {
        name: "grounded".to_string(),
        value: true,
    }];
    let cond = AnimCondition::BoolEquals {
        param: "grounded".to_string(),
        value: true,
    };
    assert!(cond.evaluate(&params));

    let cond_false = AnimCondition::BoolEquals {
        param: "grounded".to_string(),
        value: false,
    };
    assert!(!cond_false.evaluate(&params));
}

#[test]
fn test_condition_float_greater_than() {
    let params = vec![AnimParam::Float {
        name: "speed".to_string(),
        value: 3.5f32.to_bits(),
    }];
    let cond = AnimCondition::FloatGreaterThan {
        param: "speed".to_string(),
        threshold: 3.0f32.to_bits(),
    };
    assert!(cond.evaluate(&params));

    let cond_high = AnimCondition::FloatGreaterThan {
        param: "speed".to_string(),
        threshold: 4.0f32.to_bits(),
    };
    assert!(!cond_high.evaluate(&params));
}

#[test]
fn test_condition_float_less_than() {
    let params = vec![AnimParam::Float {
        name: "health".to_string(),
        value: 25.0f32.to_bits(),
    }];
    let cond = AnimCondition::FloatLessThan {
        param: "health".to_string(),
        threshold: 50.0f32.to_bits(),
    };
    assert!(cond.evaluate(&params));

    let cond_low = AnimCondition::FloatLessThan {
        param: "health".to_string(),
        threshold: 10.0f32.to_bits(),
    };
    assert!(!cond_low.evaluate(&params));
}

#[test]
fn test_condition_trigger_active() {
    let params = vec![AnimParam::Trigger {
        name: "shoot".to_string(),
        triggered: true,
    }];
    let cond = AnimCondition::TriggerActive {
        param: "shoot".to_string(),
    };
    assert!(cond.evaluate(&params));

    let params_off = vec![AnimParam::Trigger {
        name: "shoot".to_string(),
        triggered: false,
    }];
    assert!(!cond.evaluate(&params_off));
}

#[test]
fn test_condition_int_equals() {
    let params = vec![AnimParam::Int {
        name: "weapon".to_string(),
        value: 2,
    }];
    let cond = AnimCondition::IntEquals {
        param: "weapon".to_string(),
        value: 2,
    };
    assert!(cond.evaluate(&params));

    let cond_wrong = AnimCondition::IntEquals {
        param: "weapon".to_string(),
        value: 5,
    };
    assert!(!cond_wrong.evaluate(&params));
}

// --- AnimTransition Tests ---


#[test]
fn float_conditions_order_negatives_and_reject_nan() {
    let params = vec![
        AnimParam::Float { name: "x".to_string(), value: (-2.0f32).to_bits() },
        AnimParam::Float { name: "n".to_string(), value: f32::NAN.to_bits() },
    ];
    let lt = AnimCondition::FloatLessThan { param: "x".to_string(), threshold: (-1.0f32).to_bits() };
    assert!(lt.evaluate(&params));
    let gt = AnimCondition::FloatGreaterThan { param: "x".to_string(), threshold: (-3.0f32).to_bits() };
    assert!(gt.evaluate(&params));
    let nan_gt = AnimCondition::FloatGreaterThan { param: "n".to_string(), threshold: 0.0f32.to_bits() };
    assert!(!nan_gt.evaluate(&params));
    let other = AnimCondition::FloatLessThan { param: "y".to_string(), threshold: 5.0f32.to_bits() };
    assert!(!other.evaluate(&params));
    assert_eq!(params[0].name(), "x");
}
