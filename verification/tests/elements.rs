use circuit_sim::elements::capacitor::{Capacitor, CompanionModel, IntegrationMethod};
use circuit_sim::elements::current_source::CurrentSource;
use circuit_sim::elements::ground::Ground;
use circuit_sim::elements::resistor::Resistor;
use circuit_sim::elements::voltage_source::VoltageSource;
use circuit_sim::elements::wire::Wire;
use circuit_sim::elements::{
    capacitor, current_source, ground, resistor, voltage_source, wire, CalculatedCurrent,
    CircuitElement, DerivedCurrent, Node, Nodes,
};
use circuit_sim::quantity::{Quantity, Sign, Term};

#[test]
fn an_element_is_shown_by_its_name() {
    let names = [
        (resistor::NAME, "Resistor"),
        (capacitor::NAME, "Capacitor"),
        (current_source::NAME, "Current source"),
        (voltage_source::NAME, "Voltage source"),
        (wire::NAME, "Wire"),
        (ground::NAME, "Ground"),
    ];
    for (name, expected) in names {
        assert_eq!(name, expected);
        assert_eq!(CircuitElement::new(name).display_name(), expected);
    }
}

#[test]
fn terminals_start_on_ground_at_zero() {
    let node: Node<f64> = Node::default();
    assert_eq!(node, Node { index: 0, voltage: Quantity::Zero });

    let nodes: Nodes<f64> = Nodes::new(3);
    assert_eq!(nodes.0, vec![node, node, node]);
    assert!(Nodes::<f64>::new(0).0.is_empty());
}

#[test]
fn currents_start_at_zero() {
    assert_eq!(CalculatedCurrent::<f64>::default(), CalculatedCurrent(Quantity::Zero));
    assert_eq!(DerivedCurrent::<f64>::default(), DerivedCurrent(Quantity::Zero));
}

#[test]
fn a_resistor_gives_its_resistance_and_its_conductance() {
    let mut resistor = Resistor::new(1e3, (0, 1));
    assert_eq!(resistor.resistance(), 1e3);
    assert_eq!(resistor.conductance(), Quantity::Reciprocal(1e3));
    resistor.set_resistance(50.0);
    assert_eq!(resistor.resistance(), 50.0);
    assert_eq!(resistor.conductance(), Quantity::Reciprocal(50.0));
    assert_eq!(resistor.node_indexes, (0, 1));
}

#[test]
fn sources_name_their_nodes() {
    let source = CurrentSource::new(0.01, 4, 2);
    assert_eq!(source.current, 0.01);
    assert_eq!((source.node_index_from(), source.node_index_to()), (4, 2));

    let source = VoltageSource::new(5.0, 3, 7);
    assert_eq!(source.voltage, Quantity::Value(5.0));
    assert_eq!(source.index, 0);
    assert_eq!((source.node_index_from(), source.node_index_to()), (3, 7));

    let zero: VoltageSource<f64> = VoltageSource::zero();
    assert_eq!(zero.voltage, Quantity::Zero);
    assert_eq!(zero.index, 0);
    assert_eq!((zero.node_index_from(), zero.node_index_to()), (0, 1));

    let moved = source.between(1, 2);
    assert_eq!(moved.voltage, Quantity::Value(5.0));
    assert_eq!((moved.node_index_from(), moved.node_index_to()), (1, 2));

    assert_eq!(Ground::new(3), Ground { node: 3, index: 0 });
    assert_eq!(Wire::new(3, 4), Wire { node_indexes: (3, 4), index: 0 });
}

#[test]
fn a_capacitor_is_fresh_until_its_first_step() {
    let mut capacitor = Capacitor::new(10e-6, (0, 1));
    assert_eq!(capacitor.capacitance, 10e-6);
    assert_eq!(capacitor.node_indexes, (0, 1));
    assert_eq!(capacitor.carried_current(), Quantity::Zero);
    assert_eq!(capacitor.companion_model, CompanionModel::Norton);
    assert_eq!(capacitor.integration_method, IntegrationMethod::Trapezoidal);

    capacitor.carry(0.125);
    assert_eq!(capacitor.carried_current(), Quantity::Value(0.125));
    capacitor.carry(0.0);
    assert_eq!(capacitor.carried_current(), Quantity::Value(0.0));
    assert_eq!(capacitor.capacitance, 10e-6);
    assert_eq!(capacitor.node_indexes, (0, 1));
}

#[test]
fn terms_are_signed_quantities() {
    let term = Term::minus(Quantity::Reciprocal(4.0));
    assert_eq!(term, Term { sign: Sign::Minus, quantity: Quantity::Reciprocal(4.0) });
    let term = Term::plus(Quantity::<f64>::One);
    assert_eq!(term, Term { sign: Sign::Plus, quantity: Quantity::One });
}
