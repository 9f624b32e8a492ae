use appfront::reactive::ReactiveGraph;

#[test]
fn effect_is_notified_only_for_signals_it_read() {
    let mut g = ReactiveGraph::new();
    let a = g.add_signal();
    let b = g.add_signal();
    let e = g.add_effect();
    g.begin_run(e);
    assert_eq!(g.running(), Some(e));
    g.track_read(a);
    g.end_run();
    assert_eq!(g.running(), None);
    assert!(g.notify(b).is_empty(), "unrelated signal must not trigger a rerun");
    assert_eq!(g.notify(a), vec![e], "a dependency must trigger a rerun");
}

#[test]
fn repeated_reads_subscribe_once() {
    let mut g = ReactiveGraph::new();
    let a = g.add_signal();
    let e = g.add_effect();
    g.begin_run(e);
    g.track_read(a);
    g.track_read(a);
    g.end_run();
    assert_eq!(g.notify(a), vec![e]);
}

#[test]
fn dropped_effect_is_never_notified() {
    let mut g = ReactiveGraph::new();
    let a = g.add_signal();
    let e = g.add_effect();
    g.begin_run(e);
    g.track_read(a);
    g.end_run();
    g.drop_effect(e);
    assert!(g.notify(a).is_empty());
}

#[test]
fn dependencies_are_recomputed_on_each_run() {
    let mut g = ReactiveGraph::new();
    let cond = g.add_signal();
    let a = g.add_signal();
    let b = g.add_signal();
    let e = g.add_effect();
    g.begin_run(e);
    g.track_read(cond);
    g.track_read(a);
    g.end_run();
    assert!(g.notify(b).is_empty());
    assert_eq!(g.notify(cond), vec![e]);
    // The rerun now takes the other branch.
    g.begin_run(e);
    g.track_read(cond);
    g.track_read(b);
    g.end_run();
    assert!(g.notify(a).is_empty(), "no longer depends on a");
    assert_eq!(g.notify(b), vec![e]);
}

#[test]
fn reads_outside_any_run_subscribe_nothing() {
    let mut g = ReactiveGraph::new();
    let a = g.add_signal();
    let e = g.add_effect();
    g.track_read(a);
    assert!(g.notify(a).is_empty());
    let e2 = g.add_effect();
    g.begin_run(e);
    g.begin_run(e2);
    g.track_read(a);
    g.end_run();
    assert_eq!(g.running(), Some(e));
    g.end_run();
    assert_eq!(g.notify(a), vec![e2], "only the innermost run subscribes");
}
