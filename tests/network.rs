use spring_network::{Action, DanglingSpring, Endpoints, Link, Network, Run, SpringKind};

#[test]
fn ids_start_at_zero_and_follow_insertion_order() {
    let mut net = Network::new();
    assert_eq!(net.add_point(), 0);
    assert_eq!(net.add_point(), 1);
    assert_eq!(net.add_spring(0, 1), 0);
    assert_eq!(net.add_point(), 2);
    assert_eq!(net.add_torsion(0, 2), 1);
    assert_eq!(net.add_spring(1, 2), 2);
    assert_eq!(net.point_count(), 3);
    assert_eq!(net.spring_count(), 3);
}

#[test]
fn springs_keep_their_ids() {
    let mut net = Network::new();
    net.add_point();
    net.add_point();
    net.add_point();
    net.add_spring(1, 2);
    net.add_spring(0, 2);
    net.add_spring(0, 1);
    net.add_torsion(0, 1);
    assert_eq!(net.spring(0), Some(Link::new(1, 2, SpringKind::Length)));
    assert_eq!(net.spring(1), Some(Link::new(0, 2, SpringKind::Length)));
    assert_eq!(net.spring(2), Some(Link::new(0, 1, SpringKind::Length)));
    assert_eq!(net.spring(3), Some(Link::new(0, 1, SpringKind::Torsion)));
    assert_eq!(net.spring(4), None);
}

#[test]
fn add_link_appends_any_kind() {
    let mut net = Network::new();
    net.add_point();
    net.add_point();
    let link = Link::new(1, 0, SpringKind::Torsion);
    assert_eq!(net.add_link(link), 0);
    assert_eq!(net.spring(0), Some(link));
}

#[test]
fn empty_network_resolves_to_nothing() {
    let net = Network::new();
    assert_eq!(net.point_count(), 0);
    assert_eq!(net.spring_count(), 0);
    assert_eq!(net.resolve(), Ok(vec![]));
}

#[test]
fn resolve_gives_endpoints_in_spring_order() {
    let mut net = Network::new();
    net.add_point();
    net.add_point();
    net.add_point();
    net.add_spring(1, 2);
    net.add_spring(0, 2);
    net.add_torsion(0, 1);
    net.add_spring(2, 2);
    assert_eq!(
        net.resolve(),
        Ok(vec![
            Endpoints { start: 1, end: 2, kind: SpringKind::Length },
            Endpoints { start: 0, end: 2, kind: SpringKind::Length },
            Endpoints { start: 0, end: 1, kind: SpringKind::Torsion },
            Endpoints { start: 2, end: 2, kind: SpringKind::Length },
        ])
    );
}

#[test]
fn resolve_reports_first_dangling_spring() {
    let mut net = Network::new();
    net.add_point();
    net.add_point();
    net.add_spring(0, 1);
    net.add_spring(0, 2);
    net.add_torsion(5, 0);
    assert_eq!(net.resolve(), Err(DanglingSpring { spring_id: 1 }));
}

#[test]
fn resolve_checks_start_as_well_as_end() {
    let mut net = Network::new();
    net.add_point();
    net.add_torsion(1, 0);
    assert_eq!(net.resolve(), Err(DanglingSpring { spring_id: 0 }));
}

#[test]
fn dangling_spring_is_fixed_by_adding_the_point() {
    let mut net = Network::new();
    net.add_point();
    net.add_spring(0, 1);
    assert_eq!(net.resolve(), Err(DanglingSpring { spring_id: 0 }));
    net.add_point();
    assert_eq!(net.resolve(), Ok(vec![Endpoints { start: 0, end: 1, kind: SpringKind::Length }]));
}

fn drive(steps: u64, calls: usize) -> Vec<Action> {
    let mut run = Run::new(steps);
    let mut out = Vec::new();
    for _ in 0..calls {
        out.push(run.next());
    }
    out
}

#[test]
fn run_of_zero_steps_emits_once() {
    assert_eq!(drive(0, 3), vec![Action::Emit, Action::Finish, Action::Finish]);
}

#[test]
fn run_alternates_steps_and_records() {
    assert_eq!(
        drive(2, 7),
        vec![
            Action::Emit,
            Action::Advance,
            Action::Emit,
            Action::Advance,
            Action::Emit,
            Action::Finish,
            Action::Finish,
        ]
    );
}

#[test]
fn run_emits_one_more_record_than_steps() {
    let actions = drive(100, 250);
    let emits = actions.iter().filter(|a| **a == Action::Emit).count();
    let advances = actions.iter().filter(|a| **a == Action::Advance).count();
    assert_eq!(emits, 101);
    assert_eq!(advances, 100);
    assert_eq!(actions[201], Action::Finish);
}

#[test]
fn two_runs_hand_out_the_same_actions() {
    assert_eq!(drive(5, 20), drive(5, 20));
}
