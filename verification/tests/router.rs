use coupler::buffers::{route, ChannelSource, HostBlock, RouteError, ScratchStorage};
use coupler::bus::{BusDir, BusInfo, BusLayout, Layout, Topology};

fn bus(name: &str, dir: BusDir) -> BusInfo {
    BusInfo { name: name.to_string(), dir }
}

fn stereo_in_out() -> Topology {
    Topology::new(
        vec![bus("input", BusDir::In), bus("output", BusDir::Out)],
        vec![Layout { formats: vec![BusLayout::Stereo, BusLayout::Stereo] }],
    )
    .unwrap()
}

fn block(buffers: Vec<Vec<u32>>, inputs: Vec<usize>, outputs: Vec<usize>, len: usize) -> HostBlock {
    HostBlock {
        block_len: len,
        buffers,
        input_channels: inputs,
        output_channels: outputs,
        input_bus_counts: vec![2],
        output_bus_counts: vec![2],
    }
}

#[test]
fn aliased_inputs_read_from_a_copy() {
    // The host hands the same two buffers as input and output. The view's
    // input channels must yield the original content from a copy, and writes
    // through the output channels must not change what the inputs yield
    // within the same call.
    let topology = stereo_in_out();
    let mut scratch = ScratchStorage::new(4, 2).unwrap();
    let host = block(
        vec![vec![1, 2, 3, 4], vec![5, 6, 7, 8]],
        vec![0, 1],
        vec![0, 1],
        4,
    );
    let view = route(&topology, &mut scratch, &host).unwrap();

    assert!(matches!(view.inputs[0], ChannelSource::Scratch(_)));
    assert!(matches!(view.inputs[1], ChannelSource::Scratch(_)));

    let mut host = host;
    for i in 0..4 {
        view.write_output(&mut host, 0, i, 100 + i as u32);
        view.write_output(&mut host, 1, i, 200 + i as u32);
    }
    for i in 0..4 {
        assert_eq!(view.read_input(&scratch, &host, 0, i), 1 + i as u32);
        assert_eq!(view.read_input(&scratch, &host, 1, i), 5 + i as u32);
        assert_eq!(view.read_output(&host, 0, i), 100 + i as u32);
        assert_eq!(view.read_output(&host, 1, i), 200 + i as u32);
    }
}

#[test]
fn disjoint_buffers_leave_scratch_untouched() {
    // With disjoint input and output buffers no copy happens: a sentinel
    // written into scratch beforehand survives the call, and results do not
    // depend on it.
    let topology = stereo_in_out();
    let mut scratch = ScratchStorage::new(4, 2).unwrap();
    scratch.load(0, &vec![91, 92, 93, 94]);
    scratch.load(1, &vec![81, 82, 83, 84]);

    let host = block(
        vec![vec![1, 2, 3, 4], vec![5, 6, 7, 8], vec![0, 0, 0, 0], vec![0, 0, 0, 0]],
        vec![0, 1],
        vec![2, 3],
        4,
    );
    let view = route(&topology, &mut scratch, &host).unwrap();

    assert_eq!(view.inputs[0], ChannelSource::Host(0));
    assert_eq!(view.inputs[1], ChannelSource::Host(1));
    for i in 0..4 {
        assert_eq!(scratch.read(0, i), 91 + i as u32);
        assert_eq!(scratch.read(1, i), 81 + i as u32);
        assert_eq!(view.read_input(&scratch, &host, 0, i), 1 + i as u32);
        assert_eq!(view.read_input(&scratch, &host, 1, i), 5 + i as u32);
    }
}

#[test]
fn in_place_bus_keeps_its_buffer() {
    // An input-output bus legitimately owns one read-write buffer per
    // channel: no copy, the input view is the host buffer itself.
    let topology = Topology::new(
        vec![bus("main", BusDir::InOut)],
        vec![Layout { formats: vec![BusLayout::Stereo] }],
    )
    .unwrap();
    let mut scratch = ScratchStorage::new(4, 2).unwrap();
    let host = block(
        vec![vec![1, 2, 3, 4], vec![5, 6, 7, 8]],
        vec![0, 1],
        vec![0, 1],
        4,
    );
    let view = route(&topology, &mut scratch, &host).unwrap();
    assert_eq!(view.inputs[0], ChannelSource::Host(0));
    assert_eq!(view.inputs[1], ChannelSource::Host(1));
}

#[test]
fn per_bus_channel_ranges_follow_the_layout() {
    let topology = stereo_in_out();
    let mut scratch = ScratchStorage::new(4, 2).unwrap();
    let host = block(
        vec![vec![0; 4], vec![0; 4], vec![0; 4], vec![0; 4]],
        vec![0, 1],
        vec![2, 3],
        4,
    );
    let view = route(&topology, &mut scratch, &host).unwrap();
    assert_eq!(view.input_ranges, vec![(0, 2), (2, 2)]);
    assert_eq!(view.output_ranges, vec![(0, 0), (0, 2)]);
    assert_eq!(view.outputs, vec![2, 3]);
    assert_eq!(view.block_len, 4);
}

#[test]
fn channel_count_mismatch_rejects_the_block() {
    let topology = stereo_in_out();
    let mut scratch = ScratchStorage::new(4, 2).unwrap();
    let mut host = block(vec![vec![0; 4], vec![0; 4], vec![0; 4]], vec![0], vec![1, 2], 4);
    host.input_bus_counts = vec![1];
    assert!(matches!(route(&topology, &mut scratch, &host), Err(RouteError::ShapeMismatch)));
}

#[test]
fn over_long_block_is_rejected() {
    let topology = stereo_in_out();
    let mut scratch = ScratchStorage::new(4, 2).unwrap();
    let host = block(
        vec![vec![0; 5], vec![0; 5], vec![0; 5], vec![0; 5]],
        vec![0, 1],
        vec![2, 3],
        5,
    );
    assert!(matches!(route(&topology, &mut scratch, &host), Err(RouteError::BlockTooLong)));
}

#[test]
fn undersized_scratch_is_rejected() {
    let topology = stereo_in_out();
    let mut scratch = ScratchStorage::new(4, 1).unwrap();
    let host = block(
        vec![vec![0; 4], vec![0; 4], vec![0; 4], vec![0; 4]],
        vec![0, 1],
        vec![2, 3],
        4,
    );
    assert!(matches!(route(&topology, &mut scratch, &host), Err(RouteError::ScratchTooSmall)));
}

#[test]
fn two_inputs_sharing_one_aliased_buffer_share_a_copy() {
    // Both input channels arrive on the same buffer, which is also an output
    // buffer: one copy serves both, and scratch sized to the smaller channel
    // total still suffices.
    let topology = stereo_in_out();
    let mut scratch = ScratchStorage::new(4, 2).unwrap();
    let host = block(
        vec![vec![7, 7, 7, 7], vec![0; 4]],
        vec![0, 0],
        vec![0, 1],
        4,
    );
    let view = route(&topology, &mut scratch, &host).unwrap();
    assert_eq!(view.inputs[0], view.inputs[1]);
    assert!(matches!(view.inputs[0], ChannelSource::Scratch(_)));
    for i in 0..4 {
        assert_eq!(view.read_input(&scratch, &host, 0, i), 7);
        assert_eq!(view.read_input(&scratch, &host, 1, i), 7);
    }
}
