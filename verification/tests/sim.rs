use aicars::agent::Agent;
use aicars::evolution::{select_parent, Population};
use aicars::geom::seg_hit;
use aicars::math::{iroot10, isqrt};
use aicars::nn::{squash, Model};
use aicars::rng::{noise_centered, random_index};
use aicars::track::Track;
use aicars::trig::{cos_units, pseudo_angle, sin_units};
use aicars::vehicle::Vehicle;
use aicars::{div_trunc, mul_div};

fn square_track() -> Track {
    let anchors = vec![(0i64, 0i64), (102400, 0), (102400, 102400), (0, 102400)];
    Track::new(anchors, 10240)
}

#[test]
fn track_construction_deterministic() {
    let t1 = square_track();
    let t2 = square_track();
    assert_eq!(t1.inner_points, t2.inner_points);
    assert_eq!(t1.outer_points, t2.outer_points);
    assert_eq!(t1.inner_segments, t2.inner_segments);
    assert_eq!(t1.outer_segments, t2.outer_segments);
    assert_eq!(t1.start_pos, t2.start_pos);
}

#[test]
fn track_shapes_and_start() {
    let t = square_track();
    assert_eq!(t.inner_points.len(), 4);
    assert_eq!(t.outer_points.len(), 4);
    assert_eq!(t.inner_segments.len(), 5);
    assert_eq!(t.outer_segments.len(), 5);
    assert_eq!(t.start_pos, (-30720, 0));
}

#[test]
fn raycast_square_hits_inner_first() {
    let t = square_track();
    // From the center rightward: the inner boundary sits a damped offset
    // inside x = 100, so the hit lands near 95 pixels, well before the
    // outer boundary past 100 pixels.
    let hit = t.raycast_boundaries((51200, 51200), (1024, 0));
    let d = hit.expect("a closed track surrounds the center");
    assert!(43000 <= d && d <= 47000, "distance {d}");
    let x_hit = 51200 + d;
    assert!(88 * 1024 <= x_hit && x_hit <= 99 * 1024);
}

#[test]
fn raycast_matches_manual_minimum() {
    let t = square_track();
    let o = (40000i64, 60000i64);
    let dir = (cos_units(2000), sin_units(2000));
    let mut best: Option<i64> = None;
    for seg in t.inner_segments.iter().chain(t.outer_segments.iter()) {
        if let Some(d) = seg_hit(o, dir, seg.0, seg.1) {
            best = Some(match best {
                None => d,
                Some(b) => b.min(d),
            });
        }
    }
    assert_eq!(t.raycast_boundaries(o, dir), best);
}

#[test]
fn segment_behind_origin_is_missed() {
    // Both endpoints lie strictly behind the rightward ray.
    let r = seg_hit((0, 0), (1024, 0), (-1024, -1024), (-1024, 1024));
    assert_eq!(r, None);
    // The same segment ahead of the origin is hit one pixel away.
    let r2 = seg_hit((0, 0), (1024, 0), (1024, -1024), (1024, 1024));
    assert_eq!(r2, Some(1024));
}

#[test]
fn raycast_checkpoint_segment() {
    let t = square_track();
    // The crossing segment at index 1 joins the inner and outer points
    // symmetrically around the anchor (100, 0), so a rightward ray along
    // y = 0 crosses it exactly at the anchor.
    let d = t.raycast_checkpoint((90000, 0), (1024, 0), 1);
    assert_eq!(d, Some(12400));
}

#[test]
fn trig_exact_values() {
    assert_eq!(sin_units(0), 0);
    assert_eq!(sin_units(4096), 1024);
    assert_eq!(sin_units(8192), 0);
    assert_eq!(sin_units(12288), -1024);
    assert_eq!(cos_units(0), 1024);
    assert_eq!(cos_units(8192), -1024);
    assert_eq!(pseudo_angle(1, 0), 0);
    assert_eq!(pseudo_angle(0, 1), 1024);
    assert_eq!(pseudo_angle(-1, 0), 2048);
    assert_eq!(pseudo_angle(0, -1), 3072);
}

#[test]
fn math_helpers_exact() {
    assert_eq!(div_trunc(-7, 2), -3);
    assert_eq!(div_trunc(7, 2), 3);
    assert_eq!(mul_div(7, -3, 2), -10);
    assert_eq!(isqrt(24), 4);
    assert_eq!(isqrt(25), 5);
    assert_eq!(iroot10(1023), 1);
    assert_eq!(iroot10(1024), 2);
    assert_eq!(squash(0), 0);
    assert_eq!(squash(1024), 512);
    assert_eq!(squash(-1024), -512);
}

#[test]
fn model_outputs_bounded_and_shape_kept() {
    let mut m = Model::init();
    let x: Vec<i64> = (0..13).map(|i| i * 1000).collect();
    let y = m.forward(&x);
    assert_eq!(y.len(), 4);
    for v in &y {
        assert!(-1024 < *v && *v < 1024);
    }
    m.mutate(31);
    assert_eq!(m.l1.weights.len(), 10);
    assert_eq!(m.l1.weights[0].len(), 13);
    assert_eq!(m.l3.weights.len(), 4);
    assert_eq!(m.l3.weights[0].len(), 10);
    let y2 = m.forward(&x);
    assert_eq!(y2.len(), 4);
    for v in &y2 {
        assert!(-1024 < *v && *v < 1024);
    }
}

#[test]
fn crossover_takes_entries_from_either_parent() {
    let mut a = Model::init();
    let b = Model::init();
    let a_before = a.l1.weights.clone();
    a.crossover(&b, 0);
    assert_eq!(a.l1.weights, a_before);
    a.crossover(&b, 1024);
    assert_eq!(a.l1.weights, b.l1.weights);
    assert_eq!(a.l3.bias, b.l3.bias);
}

#[test]
fn selection_index_in_range() {
    let pop = Population::new(7, 4);
    for _ in 0..200 {
        let idx = select_parent(&pop.agents);
        assert!(idx < 7);
    }
}

#[test]
fn random_index_below_bound() {
    for _ in 0..200 {
        assert!(random_index(5) < 5);
    }
}

#[test]
fn noise_is_centered_and_bounded() {
    let mut seen_distinct = false;
    let first = noise_centered(1024);
    for _ in 0..100 {
        let v = noise_centered(1024);
        assert!(-6144 <= v && v <= 6144);
        if v != first {
            seen_distinct = true;
        }
    }
    assert!(seen_distinct);
}

#[test]
fn evolve_with_zero_alive_changes_nothing() {
    let mut pop = Population::new(4, 4);
    pop.countdown = 0;
    pop.avg_fitness = 777;
    for a in pop.agents.iter_mut() {
        a.is_dead = true;
    }
    let r = pop.evolve(4);
    assert_eq!(r, None);
    assert_eq!(pop.avg_fitness, 777);
    assert!(pop.agents.iter().all(|a| a.is_dead));
    assert_eq!(pop.agents.len(), 4);
}

#[test]
fn evolve_replaces_dead_and_reports_average() {
    let mut pop = Population::new(3, 4);
    pop.countdown = 0;
    pop.agents[0].is_dead = true;
    pop.agents[0].fitness = -5000;
    pop.agents[1].fitness = 2000;
    pop.agents[2].fitness = 4000;
    let r = pop.evolve(4);
    assert_eq!(r, Some(3000));
    assert_eq!(pop.avg_fitness, 3000);
    assert!(!pop.agents[0].is_dead);
    assert_eq!(pop.agents[0].fitness, 5120);
    assert_eq!(pop.agents[1].fitness, 2000);
    assert_eq!(pop.agents[2].fitness, 4000);
}

#[test]
fn evolve_warmup_only_counts_down() {
    let mut pop = Population::new(2, 4);
    assert_eq!(pop.countdown, 10);
    let r = pop.evolve(4);
    assert_eq!(r, None);
    assert_eq!(pop.countdown, 9);
}

#[test]
fn agent_timeout_dies_after_one_update() {
    let t = square_track();
    let mut a = Agent::with_pose(Model::init(), (51200, 51200), 0, 4);
    a.to_live = 51;
    a.update(&t, 102);
    assert!(a.is_dead);
    // Death by timeout carries no penalty and commits nothing else.
    assert_eq!(a.to_live, 51);
    assert_eq!(a.fitness, 5120);
    assert_eq!(a.next_cp, 1);
}

#[test]
fn checkpoint_advance_and_replenish() {
    let mut a = Agent::with_pose(Model::init(), (51200, 51200), 0, 4);
    assert_eq!(a.next_cp, 1);
    assert_eq!(a.to_live, 8192);
    assert_eq!(a.time_per_cp, 4096);
    // A reading of 25 pixels is under the 30-pixel threshold.
    a.apply_checkpoint(Some(25600), 4);
    assert_eq!(a.next_cp, 2);
    assert_eq!(a.to_live, 8192 + 4096);
    assert_eq!(a.time_per_cp, 4096);
    assert_eq!(a.fitness, 5120 + 102400);
}

#[test]
fn checkpoint_not_close_changes_nothing() {
    let mut a = Agent::with_pose(Model::init(), (51200, 51200), 0, 4);
    a.apply_checkpoint(Some(30720), 4);
    assert_eq!(a.next_cp, 1);
    assert_eq!(a.to_live, 8192);
    a.apply_checkpoint(None, 4);
    assert_eq!(a.next_cp, 1);
    assert_eq!(a.fitness, 5120);
}

#[test]
fn checkpoint_lap_wrap_shrinks_budget() {
    let mut a = Agent::with_pose(Model::init(), (51200, 51200), 0, 4);
    a.next_cp = 3;
    a.apply_checkpoint(Some(0), 4);
    // Wrapped to 0: lap bonus 2000 * to_live / time_per_cp = 2000 * 2 = 4000.
    assert_eq!(a.next_cp, 0);
    assert_eq!(a.fitness, 5120 + 4096000 + 102400);
    a.apply_checkpoint(Some(0), 4);
    // First crossing of the new lap: the budget shrinks by a quarter.
    assert_eq!(a.next_cp, 1);
    assert_eq!(a.time_per_cp, 3072);
}

#[test]
fn kinematics_full_throttle_one_second() {
    let t = square_track();
    let mut v = Vehicle::new((0, 0), 0);
    v.update(1024, 0, 1024);
    assert_eq!(v.vel, 102400);
    assert_eq!(v.heading, 0);
    assert_eq!(v.pos, (102400, 0));
    let readings = v.sense(&t, 8192);
    assert_eq!(readings.len(), 11);
    assert!(readings.iter().all(|d| 0 <= *d && *d <= 0x100_0000));
}

#[test]
fn sense_sees_the_square_walls() {
    let t = square_track();
    let v = Vehicle::new((51200, 51200), 0);
    let readings = v.sense(&t, 8192);
    assert_eq!(readings.len(), 11);
    assert!(readings.iter().any(|d| *d > 0));
}

#[test]
fn dead_agent_never_changes() {
    let t = square_track();
    let mut a = Agent::with_pose(Model::init(), (51200, 51200), 0, 4);
    a.is_dead = true;
    a.fitness = 42;
    a.update(&t, 102);
    assert!(a.is_dead);
    assert_eq!(a.fitness, 42);
    assert_eq!(a.to_live, 8192);
}

#[test]
fn population_tick_keeps_size() {
    let t = square_track();
    let mut pop = Population::new(5, 4);
    for _ in 0..3 {
        pop.tick(&t, 102);
        assert_eq!(pop.agents.len(), 5);
    }
}

#[test]
fn tanh_squashes_in_place() {
    let act = aicars::nn::Tanh {};
    let mut v: Vec<i64> = vec![0, 1024, -1024, 4096];
    act.forward(&mut v);
    assert_eq!(v, vec![0, 512, -512, 819]);
}

#[test]
fn collision_near_wall_but_not_at_center() {
    let t = square_track();
    let center = Vehicle::new((51200, 51200), 0);
    assert!(!center.check_collision(&t));
    // Facing the right wall from close by: the rear probe ray reaches the
    // boundary within the rear clearance.
    let jammed = Vehicle::new((94000, 51200), 0);
    assert!(jammed.check_collision(&t));
}

#[test]
fn linear_forward_is_affine() {
    let l = aicars::nn::Linear {
        n_in: 2,
        n_out: 1,
        weights: vec![vec![16384, 1024]],
        bias: vec![7],
    };
    // (16384 * 1024 + 1024 * 2048) / 1024 + 7.
    let y = l.forward(&vec![1024, 2048]);
    assert_eq!(y, vec![16384 + 2048 + 7]);
}

#[test]
fn mutation_with_zero_rate_is_identity() {
    let mut m = Model::init();
    let w1 = m.l1.weights.clone();
    let b3 = m.l3.bias.clone();
    m.mutate(0);
    assert_eq!(m.l1.weights, w1);
    assert_eq!(m.l3.bias, b3);
}

#[test]
fn duplicate_copies_every_parameter() {
    let m = Model::init();
    let d = m.duplicate();
    assert_eq!(d.l1.weights, m.l1.weights);
    assert_eq!(d.l1.bias, m.l1.bias);
    assert_eq!(d.l3.weights, m.l3.weights);
    assert_eq!(d.l3.bias, m.l3.bias);
}

#[test]
fn population_tick_advances_alive_agents() {
    let t = square_track();
    let mut pop = Population::new(3, 4);
    let ttl_before: Vec<i64> = pop.agents.iter().map(|a| a.to_live).collect();
    pop.tick(&t, 102);
    for (a, before) in pop.agents.iter().zip(ttl_before.iter()) {
        // An alive agent consumed time (possibly replenished at a
        // checkpoint, impossible from the spawn box in one tick).
        if !a.is_dead {
            assert!(a.to_live < *before);
        }
    }
}
