use circuit_sim::elements::capacitor::{Capacitor, Companion};
use circuit_sim::elements::current_source::CurrentSource;
use circuit_sim::elements::ground::Ground;
use circuit_sim::elements::resistor::Resistor;
use circuit_sim::elements::voltage_source::VoltageSource;
use circuit_sim::elements::wire::Wire;
use circuit_sim::elements::{CalculatedCurrent, Element, Node, Nodes};
use circuit_sim::quantity::{Quantity, Sign, Term};
use circuit_sim::solver::equation::{Builder, Equation, Error};
use circuit_sim::solver::linear_system::{InputStamp, Stamp};
use circuit_sim::solver::solve::{step, step_equation, System as Stepper};
use circuit_sim::solver::system::System;
use circuit_sim::solver::stamp_static::{
    assign_branches, build_static, count_branches, count_nodes, create_static_equation, on_branch,
    takes_branch, top_node,
};

fn plus(quantity: Quantity<f64>) -> Term<f64> {
    Term { sign: Sign::Plus, quantity }
}

fn minus(quantity: Quantity<f64>) -> Term<f64> {
    Term { sign: Sign::Minus, quantity }
}

fn cell(row: usize, col: usize, term: Term<f64>) -> Stamp<f64> {
    Stamp { row, col, term }
}

fn built(builder: Builder<f64>) -> Equation<f64> {
    builder.build().unwrap()
}

#[test]
fn a_new_system_is_empty() {
    let builder: Builder<f64> = Builder::new(4, 2);
    assert_eq!(builder.nodes(), 4);
    assert_eq!(builder.voltage_sources(), 2);
    assert_eq!(builder.voltage_sources_stamped(), 0);

    let builder: Builder<f64> = Builder::new(4, 0);
    let equation = built(builder);
    assert_eq!(equation.size(), 3);
    assert!(equation.admittances().is_empty());
    assert!(equation.inputs().is_empty());

    let smallest: Builder<f64> = Builder::new(1, 0);
    assert_eq!(built(smallest).size(), 0);
}

#[test]
fn a_conductance_is_four_stamps_in_order() {
    let mut builder = Builder::new(3, 0);
    builder.stamp_conductance(0.5, 1, 2);
    let g = Quantity::Value(0.5);
    assert_eq!(
        built(builder).admittances(),
        &vec![cell(0, 0, plus(g)), cell(1, 1, plus(g)), cell(0, 1, minus(g)), cell(1, 0, minus(g))]
    );
}

#[test]
fn a_resistor_is_the_reciprocal_conductance() {
    let mut builder = Builder::new(3, 0);
    builder.stamp_resistor(5.0, 2, 1);
    let g = Quantity::Reciprocal(5.0);
    assert_eq!(
        built(builder).admittances(),
        &vec![cell(1, 1, plus(g)), cell(0, 0, plus(g)), cell(1, 0, minus(g)), cell(0, 1, minus(g))]
    );
}

#[test]
fn ground_takes_no_stamp() {
    let mut builder = Builder::new(3, 0);
    builder.stamp_nodal_admittance(0, 1, plus(Quantity::One));
    builder.stamp_nodal_admittance(2, 0, plus(Quantity::One));
    builder.stamp_input(0, plus(Quantity::One));
    builder.stamp_conductance(3.0, 0, 0);
    builder.stamp_current_source(3.0, 0, 0);
    builder.stamp_conductance(2.0, 0, 2);
    builder.stamp_current_source(4.0, 1, 0);
    let equation = built(builder);
    assert_eq!(equation.admittances(), &vec![cell(1, 1, plus(Quantity::Value(2.0)))]);
    assert_eq!(equation.inputs(), &vec![InputStamp { row: 0, term: minus(Quantity::Value(4.0)) }]);
}

#[test]
fn a_current_source_is_two_stamps() {
    let mut builder = Builder::new(3, 0);
    builder.stamp_current_source(5.0, 1, 2);
    let i = Quantity::Value(5.0);
    assert_eq!(
        built(builder).inputs(),
        &vec![InputStamp { row: 0, term: minus(i) }, InputStamp { row: 1, term: plus(i) }]
    );
}

#[test]
fn a_voltage_source_is_stamped_on_the_row_of_its_branch() {
    let mut builder = Builder::new(3, 2);
    builder.stamp_voltage_source(5.0, 1, 2, 1);
    assert_eq!(builder.voltage_sources_stamped(), 1);
    builder.stamp_voltage_source(7.0, 0, 1, 0);
    assert_eq!(builder.voltage_sources_stamped(), 2);
    let equation = built(builder);
    assert_eq!(equation.size(), 4);
    // branch 1 is node number 3 + 1, row 3; branch 0 is row 2
    assert_eq!(
        equation.admittances(),
        &vec![
            cell(3, 0, minus(Quantity::One)),
            cell(3, 1, plus(Quantity::One)),
            cell(0, 3, plus(Quantity::One)),
            cell(1, 3, minus(Quantity::One)),
            cell(2, 0, plus(Quantity::One)),
            cell(0, 2, minus(Quantity::One)),
        ]
    );
    assert_eq!(
        equation.inputs(),
        &vec![
            InputStamp { row: 3, term: plus(Quantity::Value(5.0)) },
            InputStamp { row: 2, term: plus(Quantity::Value(7.0)) },
        ]
    );
}

#[test]
fn a_source_beyond_the_declared_ones_is_counted_and_skipped() {
    let mut builder = Builder::new(3, 1);
    builder.stamp_voltage_source(5.0, 1, 2, 0);
    // nothing is asked of the branch or the nodes of a source that is skipped
    builder.stamp_voltage_source(9.0, 17, 23, 40);
    builder.stamp_branch(Quantity::Zero, 1, 2, 0);
    assert_eq!(builder.voltage_sources_stamped(), 3);
    match builder.build() {
        Err(Error::IncorrectBranchCount { expected, stamped }) => {
            assert_eq!((expected, stamped), (1, 3));
        }
        _ => panic!("oh no"),
    }
}

#[test]
fn too_few_sources_fail_the_build() {
    let mut builder = Builder::new(3, 2);
    builder.stamp_voltage_source(5.0, 1, 2, 0);
    match builder.build() {
        Err(Error::IncorrectBranchCount { expected, stamped }) => {
            assert_eq!((expected, stamped), (2, 1));
        }
        _ => panic!("oh no"),
    }
}

#[test]
fn elements_are_stamped_by_their_kind() {
    let mut builder = Builder::new(4, 3);
    let elements = vec![
        Element::Resistor(Resistor::new(10.0, (1, 0))),
        Element::CurrentSource(CurrentSource::new(2.0, 0, 3)),
        Element::VoltageSource(on_voltage_branch(VoltageSource::new(5.0, 1, 2), 0)),
        Element::Ground(Ground { node: 2, index: 1 }),
        Element::Wire(Wire { node_indexes: (3, 1), index: 2 }),
        Element::Capacitor(Capacitor::new(1e-6, (1, 2))),
    ];
    builder.stamp_elements(&elements).unwrap();
    assert_eq!(builder.voltage_sources_stamped(), 3);
    let equation = built(builder);
    let one = Quantity::One;
    assert_eq!(
        equation.admittances(),
        &vec![
            cell(0, 0, plus(Quantity::Reciprocal(10.0))),
            // the voltage source, branch 0: row 3
            cell(3, 0, minus(one)),
            cell(3, 1, plus(one)),
            cell(0, 3, plus(one)),
            cell(1, 3, minus(one)),
            // the ground, branch 1: row 4, from node 0 to node 2
            cell(4, 1, plus(one)),
            cell(1, 4, minus(one)),
            // the wire, branch 2: row 5
            cell(5, 2, minus(one)),
            cell(5, 0, plus(one)),
            cell(2, 5, plus(one)),
            cell(0, 5, minus(one)),
        ]
    );
    assert_eq!(
        equation.inputs(),
        &vec![
            InputStamp { row: 2, term: plus(Quantity::Value(2.0)) },
            InputStamp { row: 3, term: plus(Quantity::Value(5.0)) },
            InputStamp { row: 4, term: plus(Quantity::Zero) },
            InputStamp { row: 5, term: plus(Quantity::Zero) },
        ]
    );
}

fn on_voltage_branch(source: VoltageSource<f64>, branch: usize) -> VoltageSource<f64> {
    match on_branch(&Element::VoltageSource(source), branch) {
        Element::VoltageSource(source) => source,
        _ => panic!("oh no"),
    }
}

#[test]
fn an_element_off_the_system_is_refused() {
    let refused: Vec<Element<f64>> = vec![
        Element::Resistor(Resistor::new(10.0, (1, 3))),
        Element::Resistor(Resistor::new(10.0, (3, 1))),
        Element::CurrentSource(CurrentSource::new(1.0, 0, 7)),
        Element::VoltageSource(VoltageSource::new(5.0, 3, 1)),
        Element::VoltageSource(on_voltage_branch(VoltageSource::new(5.0, 1, 2), 1)),
        Element::Ground(Ground { node: 3, index: 0 }),
        Element::Ground(Ground { node: 1, index: 1 }),
        Element::Wire(Wire { node_indexes: (0, 3), index: 0 }),
        Element::Wire(Wire { node_indexes: (0, 1), index: 2 }),
    ];
    for element in &refused {
        let mut builder = Builder::new(3, 1);
        builder.stamp_conductance(1.0, 1, 2);
        assert!(matches!(builder.stamp_element(element), Err(Error::TopologyOutOfRange)));
        assert_eq!(builder.voltage_sources_stamped(), 0);
        builder.stamp_voltage_source(1.0, 0, 1, 0);
        let equation = built(builder);
        assert_eq!(equation.admittances().len(), 6);
        assert_eq!(equation.inputs().len(), 1);
    }
}

#[test]
fn stamping_stops_at_the_first_element_that_is_refused() {
    let elements = vec![
        Element::Resistor(Resistor::new(10.0, (1, 2))),
        Element::CurrentSource(CurrentSource::new(1.0, 0, 9)),
        Element::Resistor(Resistor::new(20.0, (1, 2))),
    ];
    let mut builder = Builder::new(3, 0);
    assert!(matches!(builder.stamp_elements(&elements), Err(Error::TopologyOutOfRange)));
    let equation = built(builder);
    assert_eq!(equation.admittances().len(), 4);
    assert!(equation.inputs().is_empty());
}

#[test]
fn a_circuit_is_measured_by_its_elements() {
    let none: Vec<Element<f64>> = Vec::new();
    assert_eq!(count_nodes(&none), Some(0));
    assert_eq!(count_branches(&none), 0);

    let elements: Vec<Element<f64>> = vec![
        Element::Resistor(Resistor::new(10.0, (1, 6))),
        Element::Wire(Wire::new(2, 3)),
        Element::Capacitor(Capacitor::new(1.0, (9, 0))),
        Element::Ground(Ground::new(4)),
        Element::VoltageSource(VoltageSource::new(1.0, 0, 1)),
        Element::CurrentSource(CurrentSource::new(1.0, 3, 2)),
    ];
    assert_eq!(count_nodes(&elements), Some(10));
    assert_eq!(count_branches(&elements), 3);
    assert_eq!(elements.iter().map(top_node).collect::<Vec<_>>(), vec![6, 3, 9, 4, 1, 3]);
    assert_eq!(
        elements.iter().map(takes_branch).collect::<Vec<_>>(),
        vec![false, true, false, true, true, false]
    );

    let beyond: Vec<Element<f64>> = vec![Element::Resistor(Resistor::new(10.0, (0, usize::MAX)))];
    assert_eq!(count_nodes(&beyond), None);
}

#[test]
fn branches_are_numbered_in_the_order_of_the_elements() {
    let mut elements: Vec<Element<f64>> = vec![
        Element::Wire(Wire { node_indexes: (2, 3), index: 7 }),
        Element::Resistor(Resistor::new(10.0, (1, 6))),
        Element::Ground(Ground { node: 4, index: 7 }),
        Element::Capacitor(Capacitor::new(1.0, (9, 0))),
        Element::VoltageSource(VoltageSource::new(1.0, 0, 1)),
    ];
    assign_branches(&mut elements);
    let branches: Vec<Option<usize>> = elements
        .iter()
        .map(|element| match element {
            Element::VoltageSource(v) => Some(v.index),
            Element::Ground(g) => Some(g.index),
            Element::Wire(w) => Some(w.index),
            _ => None,
        })
        .collect();
    assert_eq!(branches, vec![Some(0), None, Some(1), None, Some(2)]);
    match elements[4] {
        Element::VoltageSource(v) => {
            assert_eq!(v.voltage, Quantity::Value(1.0));
            assert_eq!(v.node_indexes, (0, 1));
        }
        _ => panic!("oh no"),
    }
    assert_eq!(format!("{:?}", elements[0]), format!("{:?}", Element::<f64>::Wire(Wire { node_indexes: (2, 3), index: 0 })));
}

#[test]
fn the_static_system_takes_its_dimensions_from_the_elements() {
    let mut elements: Vec<Element<f64>> = vec![
        Element::Resistor(Resistor::new(10.0, (1, 2))),
        Element::Capacitor(Capacitor::new(1.0, (4, 0))),
        Element::Wire(Wire::new(2, 3)),
    ];
    let equation = create_static_equation(&mut elements);
    assert_eq!(equation.nodes(), 5);
    assert_eq!(equation.voltage_sources(), 1);
    assert_eq!(equation.size(), 5);
    // the capacitor is not part of the static system
    assert_eq!(equation.admittances().len(), 8);
    assert_eq!(equation.inputs(), &vec![InputStamp { row: 4, term: plus(Quantity::Zero) }]);
}

#[test]
fn a_circuit_without_elements_has_no_system() {
    let mut none: Vec<Element<f64>> = Vec::new();
    assert!(matches!(build_static(&mut none), Err(Error::TopologyOutOfRange)));

    let mut beyond: Vec<Element<f64>> = vec![
        Element::Wire(Wire { node_indexes: (0, usize::MAX), index: 5 }),
    ];
    assert!(matches!(build_static(&mut beyond), Err(Error::TopologyOutOfRange)));
    assert!(matches!(beyond[0], Element::Wire(Wire { index: 5, .. })));

    // as many nodes as can be numbered, and one row too many
    let mut full: Vec<Element<f64>> = vec![
        Element::Wire(Wire::new(0, usize::MAX - 1)),
        Element::Wire(Wire::new(0, 1)),
    ];
    assert!(matches!(build_static(&mut full), Err(Error::TopologyOutOfRange)));
    full.pop();
    let largest = build_static(&mut full).unwrap();
    assert_eq!((largest.nodes(), largest.size()), (usize::MAX, usize::MAX));

    let mut one: Vec<Element<f64>> = vec![Element::Resistor(Resistor::new(1.0, (0, 0)))];
    let equation = build_static(&mut one).unwrap();
    assert_eq!((equation.nodes(), equation.size()), (1, 0));
}

#[test]
fn unknowns_are_split_into_voltages_and_currents() {
    let mut builder = Builder::new(3, 2);
    builder.stamp_voltage_source(1.0, 0, 1, 0).stamp_voltage_source(1.0, 1, 2, 1);
    let equation = built(builder);
    let solution = equation.solution(&vec![1.5, 2.5, 3.5, 4.5]);
    assert_eq!(
        solution.voltages(),
        vec![Quantity::Zero, Quantity::Value(1.5), Quantity::Value(2.5)]
    );
    assert_eq!(solution.currents(), vec![Quantity::Value(3.5), Quantity::Value(4.5)]);
    assert_eq!(solution.voltage(2), Some(Quantity::Value(2.5)));
    assert_eq!(solution.voltage(3), None);
    assert_eq!(solution.current(1), Some(Quantity::Value(4.5)));
    assert_eq!(solution.current(2), None);

    let only_ground: Equation<f64> = built(Builder::new(1, 0));
    let solution = only_ground.solution(&Vec::new());
    assert_eq!(solution.voltages(), vec![Quantity::Zero]);
    assert!(solution.currents().is_empty());
}

#[test]
fn a_failed_solve_is_handed_on() {
    let equation: Equation<f64> = built(Builder::new(2, 0));
    match equation.resolve(Err(String::from("singular"))) {
        Err(Error::Unsolvable(reason)) => assert_eq!(reason, "singular"),
        _ => panic!("oh no"),
    }
    let solution = equation.resolve(Ok(vec![8.0])).unwrap();
    assert_eq!(solution.voltages(), vec![Quantity::Zero, Quantity::Value(8.0)]);
}

#[test]
fn voltages_are_published_to_all_terminals_or_to_none() {
    let equation: Equation<f64> = built(Builder::new(3, 0));
    let solution = equation.solution(&vec![1.5, 2.5]);

    let mut terminals = Nodes(vec![
        Node { index: 2, voltage: Quantity::Value(9.0) },
        Node { index: 0, voltage: Quantity::Value(9.0) },
        Node { index: 1, voltage: Quantity::Zero },
    ]);
    solution.publish_voltages(&mut terminals).unwrap();
    assert_eq!(
        terminals.0,
        vec![
            Node { index: 2, voltage: Quantity::Value(2.5) },
            Node { index: 0, voltage: Quantity::Zero },
            Node { index: 1, voltage: Quantity::Value(1.5) },
        ]
    );

    let mut terminals = Nodes(vec![
        Node { index: 1, voltage: Quantity::Value(9.0) },
        Node { index: 3, voltage: Quantity::Value(9.0) },
    ]);
    assert!(matches!(solution.publish_voltages(&mut terminals), Err(Error::TopologyOutOfRange)));
    assert_eq!(
        terminals.0,
        vec![
            Node { index: 1, voltage: Quantity::Value(9.0) },
            Node { index: 3, voltage: Quantity::Value(9.0) },
        ]
    );
}

#[test]
fn a_current_is_published_for_a_branch_of_the_system() {
    let mut builder = Builder::new(2, 1);
    builder.stamp_voltage_source(1.0, 0, 1, 0);
    let solution = built(builder).solution(&vec![1.0, 0.25]);

    let mut current = CalculatedCurrent::default();
    solution.publish_current(0, &mut current).unwrap();
    assert_eq!(current, CalculatedCurrent(Quantity::Value(0.25)));
    assert!(matches!(solution.publish_current(1, &mut current), Err(Error::TopologyOutOfRange)));
    assert_eq!(current, CalculatedCurrent(Quantity::Value(0.25)));
}

#[test]
fn a_companion_is_a_conductance_and_a_source_against_the_terminals() {
    let template: Equation<f64> = built(Builder::new(4, 0));
    let companions = vec![
        Capacitor::new(1e-6, (3, 1)).companion(2.0, 0.5),
        Capacitor::new(1e-6, (0, 2)).companion(4.0, 0.25),
    ];
    assert_eq!(companions[0], Companion { conductance: 2.0, current: 0.5, node_indexes: (3, 1) });
    let step = step_equation(&template, &companions).unwrap();
    let (g, h) = (Quantity::Value(2.0), Quantity::Value(4.0));
    assert_eq!(
        step.admittances(),
        &vec![
            cell(2, 2, plus(g)),
            cell(0, 0, plus(g)),
            cell(2, 0, minus(g)),
            cell(0, 2, minus(g)),
            cell(1, 1, plus(h)),
        ]
    );
    assert_eq!(
        step.inputs(),
        &vec![
            InputStamp { row: 0, term: minus(Quantity::Value(0.5)) },
            InputStamp { row: 2, term: plus(Quantity::Value(0.5)) },
            InputStamp { row: 1, term: minus(Quantity::Value(0.25)) },
        ]
    );
    assert!(template.admittances().is_empty());
    assert!(template.inputs().is_empty());
}

#[test]
fn a_capacitor_off_the_system_has_no_step() {
    let template: Equation<f64> = built(Builder::new(3, 0));
    let companions = vec![
        Companion { conductance: 2.0, current: 0.5, node_indexes: (1, 2) },
        Companion { conductance: 2.0, current: 0.5, node_indexes: (3, 1) },
    ];
    assert!(matches!(step_equation(&template, &companions), Err(Error::TopologyOutOfRange)));

    let mut equation = template.clone();
    let refused = equation.stamp_capacitor(companions[1]);
    assert!(matches!(refused, Err(Error::TopologyOutOfRange)));
    assert!(equation.admittances().is_empty());
    equation.stamp_capacitor(companions[0]).unwrap();
    assert_eq!(equation.admittances().len(), 4);
    assert_eq!(equation.inputs().len(), 2);
}

#[test]
fn entries_take_in_their_terms_oldest_first() {
    let mut builder = Builder::new(3, 0);
    builder.stamp_conductance(1.0, 1, 2);
    builder.stamp_conductance(2.0, 1, 0);
    builder.stamp_conductance(3.0, 2, 1);
    builder.stamp_current_source(4.0, 1, 2);
    builder.stamp_current_source(5.0, 0, 1);
    let equation = built(builder);
    // a sum that shows the order: each term appends its digit
    let digits = |sum: f64, term: Term<f64>| match (term.sign, term.quantity) {
        (Sign::Plus, Quantity::Value(value)) => sum * 10.0 + value,
        (Sign::Minus, Quantity::Value(value)) => sum * 10.0 + value + 5.0,
        _ => panic!("oh no"),
    };
    let dense = equation.evaluate(0.0, digits).unwrap();
    assert_eq!(dense.size, 2);
    // (1,1): +1, +2, +3; (1,2): -1, -3; (2,1): -1, -3; (2,2): +1, +3
    assert_eq!(dense.admittances, vec![123.0, 68.0, 68.0, 13.0]);
    // row 1: -4, +5; row 2: +4
    assert_eq!(dense.inputs, vec![95.0, 4.0]);

    let empty: Equation<f64> = built(Builder::new(1, 0));
    let dense = empty.evaluate(0.0, digits).unwrap();
    assert_eq!((dense.size, dense.admittances.len(), dense.inputs.len()), (0, 0, 0));
}

#[test]
fn a_kernel_decides_the_solve() {
    let equation = || -> Equation<f64> {
        let mut builder = Builder::new(2, 1);
        builder.stamp_voltage_source(1.0, 0, 1, 0);
        built(builder)
    };

    let solution = equation().solve(|_| Ok(vec![1.0, 0.25])).unwrap();
    assert_eq!(solution.voltages(), vec![Quantity::Zero, Quantity::Value(1.0)]);
    assert_eq!(solution.currents(), vec![Quantity::Value(0.25)]);

    match equation().solve(|_| Err(String::from("no pivot"))) {
        Err(Error::Unsolvable(reason)) => assert_eq!(reason, "no pivot"),
        _ => panic!("oh no"),
    }
    assert!(matches!(equation().solve(|_| Ok(vec![1.0])), Err(Error::Unsolvable(_))));
    assert!(matches!(equation().solve(|_| Ok(vec![1.0, 2.0, 3.0])), Err(Error::Unsolvable(_))));

    // the kernel is given the equation itself
    let seen = equation().solve(|given| {
        Ok(vec![given.admittances().len() as f64, given.inputs().len() as f64])
    });
    assert_eq!(seen.unwrap().currents(), vec![Quantity::Value(1.0)]);
}

fn some_terminals() -> Vec<Nodes<f64>> {
    vec![
        Nodes(vec![
            Node { index: 1, voltage: Quantity::Value(9.0) },
            Node { index: 0, voltage: Quantity::Value(9.0) },
        ]),
        Nodes(Vec::new()),
        Nodes(vec![Node { index: 2, voltage: Quantity::Zero }]),
    ]
}

#[test]
fn a_solution_is_published_to_everything_or_to_nothing() {
    let mut builder = Builder::new(3, 2);
    builder.stamp_voltage_source(1.0, 0, 1, 0).stamp_voltage_source(1.0, 1, 2, 1);
    let solution = built(builder).solution(&vec![1.5, 2.5, 3.5, 4.5]);

    let mut terminals = some_terminals();
    let mut currents = vec![CalculatedCurrent(Quantity::Value(7.0)); 3];
    assert!(solution.covers(&terminals[0]));
    solution.publish(&mut terminals, &vec![1, 0, 1], &mut currents).unwrap();
    assert_eq!(
        terminals[0].0,
        vec![
            Node { index: 1, voltage: Quantity::Value(1.5) },
            Node { index: 0, voltage: Quantity::Zero },
        ]
    );
    assert!(terminals[1].0.is_empty());
    assert_eq!(terminals[2].0, vec![Node { index: 2, voltage: Quantity::Value(2.5) }]);
    assert_eq!(
        currents,
        vec![
            CalculatedCurrent(Quantity::Value(4.5)),
            CalculatedCurrent(Quantity::Value(3.5)),
            CalculatedCurrent(Quantity::Value(4.5)),
        ]
    );

    // a branch that the solution lacks
    let mut terminals = some_terminals();
    let mut currents = vec![CalculatedCurrent(Quantity::Value(7.0)); 2];
    let refused = solution.publish(&mut terminals, &vec![0, 2], &mut currents);
    assert!(matches!(refused, Err(Error::TopologyOutOfRange)));
    assert_eq!(terminals[0].0, some_terminals()[0].0);
    assert_eq!(terminals[2].0, some_terminals()[2].0);
    assert_eq!(currents, vec![CalculatedCurrent(Quantity::Value(7.0)); 2]);

    // a node that the solution lacks
    let mut terminals = some_terminals();
    terminals.push(Nodes(vec![Node { index: 3, voltage: Quantity::Value(9.0) }]));
    assert!(!solution.covers(&terminals[3]));
    let refused = solution.publish(&mut terminals, &vec![0, 1], &mut currents);
    assert!(matches!(refused, Err(Error::TopologyOutOfRange)));
    assert_eq!(terminals[0].0, some_terminals()[0].0);
    assert_eq!(terminals[2].0, some_terminals()[2].0);
    assert_eq!(currents, vec![CalculatedCurrent(Quantity::Value(7.0)); 2]);
}

#[test]
fn a_step_that_fails_is_skipped() {
    let mut builder = Builder::new(3, 1);
    builder.stamp_voltage_source(5.0, 0, 1, 0);
    let template = built(builder);
    let companions = vec![Capacitor::new(1e-6, (1, 2)).companion(2.0, 0.5)];
    let branches = vec![0];
    let untouched = vec![CalculatedCurrent(Quantity::Value(7.0))];

    // the kernel fails
    let mut terminals = some_terminals();
    let mut currents = untouched.clone();
    let stepped = step(
        &template,
        &companions,
        |_| Err(String::from("singular")),
        &mut terminals,
        &branches,
        &mut currents,
    );
    match stepped {
        Err(Error::Unsolvable(reason)) => assert_eq!(reason, "singular"),
        _ => panic!("oh no"),
    }
    assert_eq!(terminals[0].0, some_terminals()[0].0);
    assert_eq!(currents, untouched);

    // a capacitor is off the system: the kernel is not asked
    let stepped = step(
        &template,
        &vec![Capacitor::new(1e-6, (1, 3)).companion(2.0, 0.5)],
        |_| panic!("oh no"),
        &mut terminals,
        &branches,
        &mut currents,
    );
    assert!(matches!(stepped, Err(Error::TopologyOutOfRange)));
    assert_eq!(terminals[0].0, some_terminals()[0].0);
    assert_eq!(currents, untouched);

    // a source is on a branch that the system lacks
    let stepped = step(
        &template,
        &companions,
        |_| Ok(vec![5.0, 4.0, 0.125]),
        &mut terminals,
        &vec![1],
        &mut currents,
    );
    assert!(matches!(stepped, Err(Error::TopologyOutOfRange)));
    assert_eq!(terminals[2].0, some_terminals()[2].0);
    assert_eq!(currents, untouched);

    // nothing fails: the kernel is given the template with the companion
    let stepped = step(
        &template,
        &companions,
        |equation| {
            assert_eq!(equation.admittances().len(), 2 + 4);
            assert_eq!(equation.inputs().len(), 1 + 2);
            Ok(vec![5.0, 4.0, 0.125])
        },
        &mut terminals,
        &branches,
        &mut currents,
    );
    let solution = stepped.unwrap();
    assert_eq!(solution.voltage(2), Some(Quantity::Value(4.0)));
    assert_eq!(terminals[0].0[0].voltage, Quantity::Value(5.0));
    assert_eq!(terminals[0].0[1].voltage, Quantity::Zero);
    assert_eq!(terminals[2].0[0].voltage, Quantity::Value(4.0));
    assert_eq!(currents, vec![CalculatedCurrent(Quantity::Value(0.125))]);
    assert_eq!(template.admittances().len(), 2);
}

#[test]
fn a_run_that_fails_publishes_nothing() {
    let mut none: Vec<Element<f64>> = Vec::new();
    let mut terminals = some_terminals();
    let mut currents = Vec::new();
    let ran = System::new().run(&mut none, |_| panic!("oh no"), &mut terminals, &mut currents);
    assert!(matches!(ran, Err(Error::TopologyOutOfRange)));
    assert_eq!(terminals[0].0, some_terminals()[0].0);

    let mut elements: Vec<Element<f64>> = vec![
        Element::Resistor(Resistor::new(10.0, (1, 2))),
        Element::Wire(Wire { node_indexes: (2, 0), index: 9 }),
    ];
    let mut currents = vec![CalculatedCurrent(Quantity::Value(7.0)); 3];
    let failing = |_: &Equation<f64>| Err(String::from("singular"));
    let ran = System::default().run(&mut elements, failing, &mut terminals, &mut currents);
    assert!(matches!(ran, Err(Error::Unsolvable(_))));
    assert_eq!(terminals[0].0, some_terminals()[0].0);
    assert_eq!(currents, vec![CalculatedCurrent(Quantity::Value(7.0)); 3]);
    // the branches were numbered all the same
    assert!(matches!(elements[1], Element::Wire(Wire { index: 0, .. })));

    let given = |equation: &Equation<f64>| {
        assert_eq!((equation.nodes(), equation.voltage_sources()), (3, 1));
        Ok(vec![1.0, 2.0, 3.0])
    };
    let solution = System::new().run(&mut elements, given, &mut terminals, &mut currents).unwrap();
    assert_eq!(solution.currents(), vec![Quantity::Value(3.0)]);
    assert_eq!(terminals[0].0[0].voltage, Quantity::Value(1.0));
    assert_eq!(terminals[2].0[0].voltage, Quantity::Value(2.0));
    assert_eq!(currents, vec![CalculatedCurrent(Quantity::Value(3.0))]);
}

#[test]
fn a_transient_solver_counts_its_steps() {
    let mut builder = Builder::new(3, 1);
    builder.stamp_voltage_source(5.0, 0, 1, 0);
    let template = built(builder);
    let stamps = (template.admittances().clone(), template.inputs().clone());
    let companions = vec![Capacitor::new(1e-6, (1, 2)).companion(2.0, 0.5)];
    let branches = vec![0];
    let mut terminals = some_terminals();
    let mut currents = Vec::new();

    let mut stepper = Stepper::new();
    assert_eq!(stepper, Stepper { steps: 0, skipped: 0 });
    assert_eq!(Stepper::default(), stepper);

    let solved = |_: &Equation<f64>| Ok(vec![5.0, 4.0, 0.125]);
    let failed = |_: &Equation<f64>| Err(String::from("singular"));

    stepper.run(&template, &companions, solved, &mut terminals, &branches, &mut currents).unwrap();
    assert_eq!(stepper, Stepper { steps: 1, skipped: 0 });
    assert_eq!(terminals[2].0[0].voltage, Quantity::Value(4.0));
    assert_eq!(currents, vec![CalculatedCurrent(Quantity::Value(0.125))]);

    let stepped = stepper.run(&template, &companions, failed, &mut terminals, &branches, &mut currents);
    assert!(matches!(stepped, Err(Error::Unsolvable(_))));
    assert_eq!(stepper, Stepper { steps: 2, skipped: 1 });
    assert_eq!(terminals[2].0[0].voltage, Quantity::Value(4.0));
    assert_eq!(currents, vec![CalculatedCurrent(Quantity::Value(0.125))]);

    stepper.run(&template, &companions, solved, &mut terminals, &branches, &mut currents).unwrap();
    assert_eq!(stepper, Stepper { steps: 3, skipped: 1 });

    let mut full = Stepper { steps: usize::MAX, skipped: usize::MAX };
    let _ = full.run(&template, &companions, failed, &mut terminals, &branches, &mut currents);
    assert_eq!(full, Stepper { steps: usize::MAX, skipped: usize::MAX });

    // however many steps ran, the template is what it was
    assert_eq!(template.admittances(), &stamps.0);
    assert_eq!(template.inputs(), &stamps.1);
    assert_eq!((template.nodes(), template.voltage_sources()), (3, 1));
}
