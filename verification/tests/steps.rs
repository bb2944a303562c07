use trace_reader::cli_structs::Steps;

#[test]
fn default_settings_give_steps_from_half_a_million_down_to_fifty() {
    let steps = Steps { min_step_size: 50, step_mul_coef: 10, num_step_passes: 5 };
    assert!(steps.is_valid());
    assert_eq!(steps.step_size(4), 500_000);
    assert_eq!(steps.step_size(3), 50_000);
    assert_eq!(steps.step_size(2), 5_000);
    assert_eq!(steps.step_size(1), 500);
    assert_eq!(steps.step_size(0), 50);
}

#[test]
fn a_coefficient_of_one_keeps_the_step() {
    let steps = Steps { min_step_size: 7, step_mul_coef: 1, num_step_passes: 4_000_000_000 };
    assert!(steps.is_valid());
    assert_eq!(steps.step_size(3_999_999_999), 7);
    assert_eq!(steps.step_size(0), 7);
}

#[test]
fn steps_below_one_are_refused() {
    assert!(!Steps { min_step_size: 0, step_mul_coef: 10, num_step_passes: 5 }.is_valid());
    assert!(!Steps { min_step_size: -50, step_mul_coef: 10, num_step_passes: 5 }.is_valid());
    assert!(!Steps { min_step_size: 50, step_mul_coef: 0, num_step_passes: 5 }.is_valid());
    assert!(!Steps { min_step_size: 50, step_mul_coef: -2, num_step_passes: 5 }.is_valid());
}

#[test]
fn a_largest_step_that_does_not_fit_is_refused() {
    let fits = Steps { min_step_size: 1, step_mul_coef: 2, num_step_passes: 63 };
    assert!(fits.is_valid());
    assert_eq!(fits.step_size(62), 1_i64 << 62);
    assert!(!Steps { min_step_size: 1, step_mul_coef: 2, num_step_passes: 64 }.is_valid());
    assert!(!Steps { min_step_size: 50, step_mul_coef: 10, num_step_passes: 19 }.is_valid());
    assert!(Steps { min_step_size: 50, step_mul_coef: 10, num_step_passes: 18 }.is_valid());
}

#[test]
fn no_pass_is_a_valid_setting() {
    assert!(Steps { min_step_size: 50, step_mul_coef: 10, num_step_passes: 0 }.is_valid());
    assert!(!Steps { min_step_size: 1, step_mul_coef: 1, num_step_passes: u32::MAX }.is_valid());
}
