use typestate::{InState, Peripheral, State, Stateful, ValidTransition};

#[derive(Copy, Clone, Debug, PartialEq, Eq)]
struct Stop;
#[derive(Copy, Clone, Debug, PartialEq, Eq)]
struct Idle;
#[derive(Copy, Clone, Debug, PartialEq, Eq)]
struct Configured;
#[derive(Copy, Clone, Debug, PartialEq, Eq)]
struct Running;

impl State for Stop {}
impl State for Idle {}
impl State for Configured {}
impl State for Running {}

#[derive(Clone, Debug, PartialEq, Eq)]
struct I2cBus {
    num: u32,
    log: Vec<u32>,
}

impl Peripheral for I2cBus {
    type State = Stop;
}

impl InState<Stop> for I2cBus {}
impl InState<Idle> for I2cBus {}
impl InState<Configured> for I2cBus {}
impl InState<Running> for I2cBus {}

impl ValidTransition<Stop, Idle> for I2cBus {}
impl ValidTransition<Idle, Configured> for I2cBus {}
impl ValidTransition<Configured, Running> for I2cBus {}
impl ValidTransition<Running, Idle> for I2cBus {}
impl ValidTransition<Idle, Stop> for I2cBus {}

fn fresh(num: u32) -> I2cBus {
    I2cBus { num, log: Vec::new() }
}

#[test]
fn constructor_initial_state() {
    let w: Stateful<I2cBus, Stop> = Stateful::new::<Stop>(fresh(42));
    assert_eq!(w.get().num, 42);
    // The constructor's result carries the declared initial tag: asserting
    // it via expect type-checks exactly because the tags agree.
    let w = w.expect::<Stop>();
    assert_eq!(w.get().num, 42);
}

#[test]
fn transition_carries_value() {
    let w: Stateful<I2cBus, Stop> = Stateful::new::<Stop>(fresh(7));
    let w: Stateful<I2cBus, Idle> = w.transition::<Idle>();
    assert_eq!(w.get().num, 7);
}

#[test]
fn with_callback_runs_once() {
    let w: Stateful<I2cBus, Stop> = Stateful::new::<Stop>(fresh(1));
    let (w, got) = w.with_callback(|mut w: Stateful<I2cBus, Stop>| {
        w.peripheral.num += 1;
        let seen = w.peripheral.num;
        (w, seen)
    });
    assert_eq!(got, 2);
    assert_eq!(w.get().num, 2);
}

#[test]
fn effect_precedes_callback() {
    let w: Stateful<I2cBus, Stop> = Stateful::new::<Stop>(fresh(0));
    let (w, _) = w.transition_with::<Idle, _, _, _>(
        |mut p: I2cBus| {
            p.log.push(1);
            p
        },
        |mut w: Stateful<I2cBus, Idle>| {
            w.peripheral.log.push(2);
            (w, ())
        },
    );
    // The transition effect's observable action lands before the
    // callback's, for every invocation.
    assert_eq!(w.get().log, vec![1, 2]);
}

#[test]
fn full_cycle_ends_stopped() {
    // States {Stop, Idle, Configured, Running}, initial Stop, edges
    // Stop->Idle, Idle->Configured(num), Configured->Running,
    // Running->Idle, Idle->Stop. Drive
    // new -> start -> configure(1000) -> run -> idle -> configure(123)
    //     -> run -> idle -> stop
    // and end statically tagged Stop.
    let w: Stateful<I2cBus, Stop> = Stateful::new::<Stop>(fresh(0));
    let (w, _) = w.transition_with::<Idle, _, _, _>(
        |p: I2cBus| p,
        |w: Stateful<I2cBus, Idle>| (w, ()),
    );
    let (w, _) = w.transition_with::<Configured, _, _, _>(
        |mut p: I2cBus| {
            p.num = 1000;
            p
        },
        |w: Stateful<I2cBus, Configured>| (w, ()),
    );
    let (w, _) = w.transition_with::<Running, _, _, _>(
        |p: I2cBus| p,
        |w: Stateful<I2cBus, Running>| (w, ()),
    );
    let (w, _) = w.transition_with::<Idle, _, _, _>(
        |p: I2cBus| p,
        |w: Stateful<I2cBus, Idle>| (w, ()),
    );
    let (w, _) = w.transition_with::<Configured, _, _, _>(
        |mut p: I2cBus| {
            p.num = 123;
            p
        },
        |w: Stateful<I2cBus, Configured>| (w, ()),
    );
    assert_eq!(w.get().num, 123);
    let (w, _) = w.transition_with::<Running, _, _, _>(
        |p: I2cBus| p,
        |w: Stateful<I2cBus, Running>| (w, ()),
    );
    let (w, _) = w.transition_with::<Idle, _, _, _>(
        |p: I2cBus| p,
        |w: Stateful<I2cBus, Idle>| (w, ()),
    );
    let (w, _) = w.transition_with::<Stop, _, _, _>(
        |p: I2cBus| p,
        |w: Stateful<I2cBus, Stop>| (w, ()),
    );
    // Statically known to be stopped again.
    let w = w.expect::<Stop>();
    assert_eq!(w.get().num, 123);
}

#[derive(Copy, Clone, Debug, PartialEq, Eq)]
struct Lone;
impl State for Lone {}

#[derive(Clone, Debug, PartialEq, Eq)]
struct Dev {
    ticks: u32,
}
impl Peripheral for Dev {
    type State = Lone;
}
impl InState<Lone> for Dev {}
impl ValidTransition<Lone, Lone> for Dev {}

#[test]
fn declared_self_loop_is_callable() {
    let w: Stateful<Dev, Lone> = Stateful::new::<Lone>(Dev { ticks: 0 });
    let w: Stateful<Dev, Lone> = w.transition::<Lone>();
    assert_eq!(w.get().ticks, 0);
}
