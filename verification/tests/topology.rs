use coupler::bus::{BusDir, BusInfo, BusLayout, Layout, Topology, TopologyError};

fn bus(name: &str, dir: BusDir) -> BusInfo {
    BusInfo { name: name.to_string(), dir }
}

fn stereo_in_out() -> Topology {
    Topology::new(
        vec![bus("input", BusDir::In), bus("output", BusDir::Out)],
        vec![
            Layout { formats: vec![BusLayout::Stereo, BusLayout::Stereo] },
            Layout { formats: vec![BusLayout::Mono, BusLayout::Mono] },
        ],
    )
    .unwrap()
}

#[test]
fn channels_per_format() {
    assert_eq!(BusLayout::Mono.channels(), 1);
    assert_eq!(BusLayout::Stereo.channels(), 2);
}

#[test]
fn buses_keep_their_declared_names_and_directions() {
    let topology = stereo_in_out();
    assert_eq!(topology.bus_name(0), "input");
    assert_eq!(topology.bus_name(1), "output");
    assert!(matches!(topology.bus_dir(0), BusDir::In));
    assert!(matches!(topology.bus_dir(1), BusDir::Out));
}

#[test]
fn first_layout_is_the_default() {
    let topology = stereo_in_out();
    assert_eq!(topology.bus_count(), 2);
    assert_eq!(topology.channel_count(0), 2);
    assert_eq!(topology.channel_count(1), 2);
    assert_eq!(topology.input_channel_total(), 2);
    assert_eq!(topology.output_channel_total(), 2);
}

#[test]
fn resolve_installs_a_legal_layout() {
    let mut topology = stereo_in_out();
    let mono = Layout { formats: vec![BusLayout::Mono, BusLayout::Mono] };
    assert!(topology.resolve(&mono));
    assert_eq!(topology.channel_count(0), 1);
    assert_eq!(topology.channel_count(1), 1);
}

#[test]
fn failed_resolve_changes_nothing() {
    // An illegal combination is refused and every channel-count query keeps
    // answering under the previously active layout.
    let mut topology = stereo_in_out();
    let mixed = Layout { formats: vec![BusLayout::Mono, BusLayout::Stereo] };
    assert!(!topology.resolve(&mixed));
    assert_eq!(topology.channel_count(0), 2);
    assert_eq!(topology.channel_count(1), 2);
}

#[test]
fn membership_is_whole_combination_not_per_bus() {
    // Mono/Mono and Stereo/Stereo are legal; Stereo/Mono is not, even though
    // each bus's format appears in some legal layout.
    let mut topology = stereo_in_out();
    let crossed = Layout { formats: vec![BusLayout::Stereo, BusLayout::Mono] };
    assert!(!topology.resolve(&crossed));
}

#[test]
fn disabled_bus_contributes_no_channels() {
    let mut topology = stereo_in_out();
    topology.set_bus_enabled(0, false);
    assert_eq!(topology.channel_count(0), 0);
    assert_eq!(topology.input_channel_total(), 0);
    assert_eq!(topology.output_channel_total(), 2);
    topology.set_bus_enabled(0, true);
    assert_eq!(topology.channel_count(0), 2);
}

#[test]
fn empty_layout_set_is_rejected() {
    let r = Topology::new(vec![bus("input", BusDir::In)], vec![]);
    assert!(matches!(r, Err(TopologyError::NoLayouts)));
}

#[test]
fn short_layout_is_rejected() {
    let r = Topology::new(
        vec![bus("input", BusDir::In), bus("output", BusDir::Out)],
        vec![Layout { formats: vec![BusLayout::Stereo] }],
    );
    assert!(matches!(r, Err(TopologyError::LayoutSizeMismatch)));
}

#[test]
fn in_out_bus_counts_on_both_sides() {
    let topology = Topology::new(
        vec![bus("main", BusDir::InOut)],
        vec![Layout { formats: vec![BusLayout::Stereo] }],
    )
    .unwrap();
    assert_eq!(topology.input_channel_total(), 2);
    assert_eq!(topology.output_channel_total(), 2);
}
