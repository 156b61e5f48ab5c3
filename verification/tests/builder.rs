use std::cell::Cell;
use std::cell::RefCell;
use walk_scaling::builder::generate_walk;
use walk_scaling::builder::run_batch;
use walk_scaling::builder::OracleError;
use walk_scaling::builder::Progress;
use walk_scaling::builder::TraceBuilder;
use walk_scaling::builder::Turn;
use walk_scaling::double::DoubleBits;
use walk_scaling::fit::check_log_fit;
use walk_scaling::kinds::GridType;
use walk_scaling::kinds::WalkType;
use walk_scaling::plan::OracleRequest;
use walk_scaling::plan::Plan;
use walk_scaling::plan::WalkSetup;
use walk_scaling::planner::Sampling;
use walk_scaling::sequence::gen_arithm;
use walk_scaling::trace::Measurement;
use walk_scaling::trace::WalkResult;

fn bits(x: f64) -> DoubleBits {
    DoubleBits { bits: x.to_bits() }
}

fn setup(sampling: Sampling) -> WalkSetup {
    WalkSetup { seed: 3, walk_type: WalkType::Simple, grid_type: GridType::Square, sampling }
}

fn steps_of(request: &OracleRequest) -> i32 {
    match *request {
        OracleRequest::Walks { num_steps, .. } => num_steps,
        OracleRequest::BucketedWalks { num_buckets, steps_per_bucket, .. } => {
            num_buckets * steps_per_bucket
        }
    }
}

fn square_root_law(turn: Turn) -> Result<Measurement, String> {
    let steps = steps_of(&turn.request) as f64;
    Ok(Measurement { mean: bits(2.0 * steps.powf(0.5)), variance: bits(0.01) })
}

fn five_buckets() -> Plan {
    let buckets = gen_arithm(20, 5, 5);
    let demands = vec![90, 100, 110, 119, 127];
    Plan::new(&setup(Sampling::Direct), &buckets, &demands).unwrap()
}

#[test]
fn trace_of_a_square_root_law() {
    let plan = five_buckets();
    let trace = generate_walk(&plan, square_root_law).unwrap();
    assert_eq!(trace.len(), 5);
    assert_eq!(trace.steps(), vec![20, 25, 30, 35, 40]);
    for (i, sample) in trace.samples().iter().enumerate() {
        let steps = 20 + 5 * i as i32;
        assert_eq!(
            *sample,
            WalkResult {
                num_steps: steps,
                num_walks: 500,
                mean: bits(2.0 * (steps as f64).powf(0.5)),
                variance: bits(0.01),
            }
        );
        assert_eq!(f64::from_bits(sample.variance.bits), 0.01);
    }
    assert_eq!(f64::from_bits(trace.samples()[1].mean.bits), 10.0);
    assert_eq!(check_log_fit(&trace), Ok(()));
}

#[test]
fn trace_asks_each_turn_once_and_in_order() {
    let plan = five_buckets();
    let asked = RefCell::new(Vec::new());
    let ask = |turn: Turn| -> Result<Measurement, ()> {
        asked.borrow_mut().push(turn);
        Ok(Measurement { mean: bits(turn.position as f64 + 1.0), variance: bits(0.0) })
    };
    let trace = generate_walk(&plan, ask).unwrap();
    let asked = asked.into_inner();
    assert_eq!(asked.len(), 5);
    for (i, turn) in asked.iter().enumerate() {
        assert_eq!(*turn, Turn { position: i, total: 5, request: plan.requests()[i] });
    }
    for (i, sample) in trace.samples().iter().enumerate() {
        assert_eq!(f64::from_bits(sample.mean.bits), (i + 1) as f64);
    }
}

#[test]
fn trace_keeps_walk_counts_of_its_plan() {
    let plan = Plan::new(&setup(Sampling::Direct), &vec![100, 10000], &vec![200, 2000]).unwrap();
    let trace = generate_walk(&plan, square_root_law).unwrap();
    assert_eq!(trace.samples()[0].num_walks, 500);
    assert_eq!(trace.samples()[1].num_walks, 2000);
    assert_eq!(f64::from_bits(trace.samples()[1].mean.bits), 200.0);
}

#[test]
fn trace_of_a_bucketed_sweep_counts_all_steps() {
    let plan =
        Plan::new(&setup(Sampling::Bucketed { steps_per_sample: 4 }), &vec![25, 100], &vec![0, 0])
            .unwrap();
    let trace = generate_walk(&plan, square_root_law).unwrap();
    assert_eq!(trace.steps(), vec![100, 400]);
    assert_eq!(f64::from_bits(trace.samples()[0].mean.bits), 20.0);
    assert_eq!(f64::from_bits(trace.samples()[1].mean.bits), 40.0);
}

#[test]
fn trace_of_a_geometric_sweep() {
    let buckets: Vec<i32> = (0..4).map(|i| (10.0 * 2.0f64.powi(i)).ceil() as i32).collect();
    assert_eq!(buckets, vec![10, 20, 40, 80]);
    let planner = |total: i32| ((total as f64).sqrt() * 200.0).ceil() as i64;
    let plan = Plan::with_planner(&setup(Sampling::Direct), &buckets, planner).unwrap();
    let trace = generate_walk(&plan, square_root_law).unwrap();
    assert_eq!(trace.steps(), vec![10, 20, 40, 80]);
    let walks: Vec<i64> = trace.samples().iter().map(|s| s.num_walks).collect();
    assert_eq!(walks, vec![633, 895, 1265, 1789]);
}

#[test]
fn trace_of_an_empty_plan() {
    let plan = Plan::new(&setup(Sampling::Direct), &vec![], &vec![]).unwrap();
    let asked = Cell::new(0usize);
    let trace = generate_walk(&plan, |_turn: Turn| -> Result<Measurement, ()> {
        asked.set(asked.get() + 1);
        Err(())
    })
    .unwrap();
    assert_eq!(trace.len(), 0);
    assert_eq!(asked.get(), 0);
}

#[test]
fn oracle_failure_on_third_bucket_of_five_aborts_the_trace() {
    let plan = five_buckets();
    let asked = Cell::new(0usize);
    let ask = |turn: Turn| -> Result<Measurement, String> {
        asked.set(asked.get() + 1);
        if turn.position == 2 {
            Err(format!("no walk of {} steps", steps_of(&turn.request)))
        } else {
            square_root_law(turn)
        }
    };
    let outcome = generate_walk(&plan, ask);
    match outcome {
        Ok(_) => panic!("a trace came out of a failed sweep"),
        Err(failure) => {
            assert_eq!(
                failure,
                OracleError { bucket: 2, cause: "no walk of 30 steps".to_string() }
            );
        }
    }
    assert_eq!(asked.get(), 3);
}

#[test]
fn batch_goes_on_after_a_failed_trace() {
    let failing = five_buckets();
    let sound =
        Plan::new(&setup(Sampling::Direct), &gen_arithm(100, 100, 3), &vec![0, 0, 0]).unwrap();
    let plans = vec![failing, sound];
    let asked = RefCell::new(Vec::new());
    let ask = |turn: Turn| -> Result<Measurement, i32> {
        asked.borrow_mut().push((turn.position, turn.total));
        if steps_of(&turn.request) == 30 {
            Err(-7)
        } else {
            Ok(Measurement { mean: bits(steps_of(&turn.request) as f64), variance: bits(1.0) })
        }
    };
    let outcomes = run_batch(&plans, ask);
    assert_eq!(outcomes.len(), 2);
    match &outcomes[0] {
        Ok(_) => panic!("a trace came out of a failed sweep"),
        Err(failure) => assert_eq!(*failure, OracleError { bucket: 2, cause: -7 }),
    }
    match &outcomes[1] {
        Ok(trace) => {
            assert_eq!(trace.steps(), vec![100, 200, 300]);
            assert_eq!(f64::from_bits(trace.samples()[2].mean.bits), 300.0);
        }
        Err(_) => panic!("the second sweep was not carried out"),
    }
    assert_eq!(asked.into_inner(), vec![(0, 5), (1, 5), (2, 5), (0, 3), (1, 3), (2, 3)]);
}

#[test]
fn batch_of_nothing() {
    let outcomes = run_batch(&Vec::new(), square_root_law);
    assert!(outcomes.is_empty());
}

#[test]
fn batch_keeps_the_order_of_its_plans() {
    let plans = vec![
        Plan::new(&setup(Sampling::Direct), &vec![7], &vec![0]).unwrap(),
        Plan::new(&setup(Sampling::Direct), &vec![], &vec![]).unwrap(),
        Plan::new(&setup(Sampling::Direct), &vec![9, 11], &vec![0, 0]).unwrap(),
    ];
    let outcomes = run_batch(&plans, square_root_law);
    let steps: Vec<Vec<i32>> = outcomes.iter().map(|o| o.as_ref().unwrap().steps()).collect();
    assert_eq!(steps, vec![vec![7], vec![], vec![9, 11]]);
}

#[test]
fn builder_step_by_step() {
    let plan = Plan::new(&setup(Sampling::Direct), &vec![20, 25], &vec![90, 1000]).unwrap();
    let first = Measurement { mean: bits(1.5), variance: bits(0.25) };
    let second = Measurement { mean: bits(2.5), variance: bits(0.5) };
    let (builder, turn) = match TraceBuilder::start::<()>(&plan) {
        Progress::Ask(builder, turn) => (builder, turn),
        _ => panic!("the first request was not asked"),
    };
    assert_eq!(turn, Turn { position: 0, total: 2, request: plan.requests()[0] });
    let (builder, turn) = match builder.step::<()>(Ok(first)) {
        Progress::Ask(builder, turn) => (builder, turn),
        _ => panic!("the second request was not asked"),
    };
    assert_eq!(turn, Turn { position: 1, total: 2, request: plan.requests()[1] });
    let trace = match builder.step::<()>(Ok(second)) {
        Progress::Done(trace) => trace,
        _ => panic!("the trace was not completed"),
    };
    assert_eq!(
        trace.samples(),
        &vec![
            WalkResult { num_steps: 20, num_walks: 500, mean: bits(1.5), variance: bits(0.25) },
            WalkResult { num_steps: 25, num_walks: 1000, mean: bits(2.5), variance: bits(0.5) },
        ]
    );
}

#[test]
fn builder_failure_on_the_first_bucket() {
    let plan = five_buckets();
    let builder = match TraceBuilder::start::<&str>(&plan) {
        Progress::Ask(builder, _) => builder,
        _ => panic!("the first request was not asked"),
    };
    match builder.step(Err("out of memory")) {
        Progress::Aborted(failure) => {
            assert_eq!(failure, OracleError { bucket: 0, cause: "out of memory" })
        }
        _ => panic!("the failure did not end the trace"),
    }
}

#[test]
fn builder_failure_on_the_last_bucket() {
    let plan = Plan::new(&setup(Sampling::Direct), &vec![20, 25], &vec![90, 1000]).unwrap();
    let measured = Measurement { mean: bits(1.5), variance: bits(0.25) };
    let builder = match TraceBuilder::start::<u8>(&plan) {
        Progress::Ask(builder, _) => builder,
        _ => panic!("the first request was not asked"),
    };
    let builder = match builder.step::<u8>(Ok(measured)) {
        Progress::Ask(builder, _) => builder,
        _ => panic!("the second request was not asked"),
    };
    match builder.step(Err(9u8)) {
        Progress::Aborted(failure) => assert_eq!(failure, OracleError { bucket: 1, cause: 9 }),
        _ => panic!("the failure did not end the trace"),
    }
}

#[test]
fn builder_of_an_empty_plan_is_done() {
    let plan = Plan::new(&setup(Sampling::Direct), &vec![], &vec![]).unwrap();
    match TraceBuilder::start::<()>(&plan) {
        Progress::Done(trace) => assert_eq!(trace.len(), 0),
        _ => panic!("an empty plan asked a request"),
    }
}
