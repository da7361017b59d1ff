use torpedo_duel::varyings::transform_feedback_varyings;

#[test]
fn varyings_are_position_and_velocity() {
    let names = transform_feedback_varyings();
    assert_eq!(names, Ok(vec![String::from("vPosition"), String::from("vVelocity")]));
}
