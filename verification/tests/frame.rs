use torpedo_duel::explosion::{Bank, ExplosionCycle};
use torpedo_duel::frame::{advance_clock, vehicle_draw, KillRecord, VehicleDraw};

#[test]
fn clock_steps_and_telescopes() {
    assert_eq!(advance_clock(100, 116), (16, 116));
    assert_eq!(advance_clock(7, 7), (0, 7));
    let (d1, c1) = advance_clock(0, 40);
    let (d2, c2) = advance_clock(c1, 95);
    assert_eq!(d1 + d2, 95);
    assert_eq!(c2, 95);
}

#[test]
fn kill_record_sticks() {
    let mut record = KillRecord::new((0.0f32, 0.0f32));
    assert!(!record.killed);
    record.record(false, (0.3, 0.3));
    assert!(!record.killed);
    assert_eq!(record.at, (0.0, 0.0));
    record.record(true, (0.31, -0.2));
    assert!(record.killed);
    assert_eq!(record.at, (0.31, -0.2));
    record.record(false, (0.5, 0.5));
    assert!(record.killed);
    assert_eq!(record.at, (0.31, -0.2));
    record.record(true, (0.6, 0.1));
    assert!(record.killed);
    assert_eq!(record.at, (0.6, 0.1));
}

#[test]
fn killed_vehicle_draws_explosion() {
    assert_eq!(vehicle_draw(true), VehicleDraw::Explosion);
    assert_eq!(vehicle_draw(false), VehicleDraw::Vehicle);
}

#[test]
fn explosion_banks_ping_pong() {
    let mut cycle = ExplosionCycle::new();
    assert_eq!(cycle, ExplosionCycle { switch: true, vertex_array: Bank::A, transform_feedback: Bank::B });
    assert_eq!(cycle.capture_bank(), Bank::B);
    cycle.advance();
    assert_eq!(cycle, ExplosionCycle { switch: false, vertex_array: Bank::B, transform_feedback: Bank::A });
    assert_eq!(cycle.capture_bank(), Bank::A);
    assert_ne!(cycle.capture_bank(), cycle.vertex_array);
    cycle.advance();
    assert_eq!(cycle, ExplosionCycle::new());
}

#[test]
fn explosion_reset_keeps_switch() {
    let mut cycle = ExplosionCycle::new();
    cycle.advance();
    cycle.reset();
    assert_eq!(cycle, ExplosionCycle { switch: false, vertex_array: Bank::A, transform_feedback: Bank::B });
    assert_eq!(cycle.capture_bank(), cycle.vertex_array);
    let mut fresh = ExplosionCycle::new();
    fresh.reset();
    assert_eq!(fresh, ExplosionCycle::new());
}
