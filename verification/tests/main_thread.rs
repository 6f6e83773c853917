use bevy_wasm_tasks::{MainThreadRunConfiguration, Phase};

#[test]
fn the_default_configuration_targets_the_update_phase() {
    let c = MainThreadRunConfiguration::default();
    assert_eq!(c.schedule, Phase::Update);
}

#[test]
fn named_constructors_target_their_phase() {
    assert_eq!(MainThreadRunConfiguration::on_first().schedule, Phase::First);
    assert_eq!(
        MainThreadRunConfiguration::on_pre_update().schedule,
        Phase::PreUpdate
    );
    assert_eq!(
        MainThreadRunConfiguration::on_update().schedule,
        Phase::Update
    );
    assert_eq!(
        MainThreadRunConfiguration::on_post_update().schedule,
        Phase::PostUpdate
    );
    assert_eq!(MainThreadRunConfiguration::on_last().schedule, Phase::Last);
}

#[test]
fn with_schedule_retargets_a_configuration() {
    let c = MainThreadRunConfiguration::new_with_schedule(Phase::First);
    assert_eq!(c.schedule, Phase::First);
    let c = c.with_schedule(Phase::Last);
    assert_eq!(c.schedule, Phase::Last);
}
