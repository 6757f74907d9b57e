use coupler::buffers::{BufferView, HostBlock, RouteError, ScratchStorage};
use coupler::bus::{BusDir, BusInfo, BusLayout, Layout, TopologyError};
use coupler::events::{Event, EventType, ParamChange, Segment};
use coupler::process::{
    ActivateError, Engine, EngineError, ParamDesc, ProcessError, Processor,
};
use coupler::sync::Side;

/// A processor that records every call the engine makes and copies each
/// input channel to the matching output channel, segment by segment.
struct CopyProcessor {
    set_calls: Vec<(u32, u64)>,
    resets: usize,
    segments_seen: Vec<Segment>,
}

impl CopyProcessor {
    fn new() -> CopyProcessor {
        CopyProcessor { set_calls: Vec::new(), resets: 0, segments_seen: Vec::new() }
    }
}

impl Processor for CopyProcessor {
    fn set_param(&mut self, id: u32, value: u64) {
        self.set_calls.push((id, value));
    }

    fn reset(&mut self) {
        self.resets += 1;
    }

    fn process(
        &mut self,
        view: &BufferView,
        scratch: &ScratchStorage,
        block: &mut HostBlock,
        _events: &Vec<Event>,
        segment: &Segment,
    ) {
        self.segments_seen.push(*segment);
        let channels = if view.inputs.len() < view.outputs.len() {
            view.inputs.len()
        } else {
            view.outputs.len()
        };
        for c in 0..channels {
            for i in segment.start..segment.end {
                let v = view.read_input(scratch, block, c, i);
                view.write_output(block, c, i, v);
            }
        }
    }
}

fn bus(name: &str, dir: BusDir) -> BusInfo {
    BusInfo { name: name.to_string(), dir }
}

fn gain_engine() -> Engine {
    Engine::new(
        vec![bus("input", BusDir::In), bus("output", BusDir::Out)],
        vec![Layout { formats: vec![BusLayout::Stereo, BusLayout::Stereo] }],
        vec![ParamDesc { id: 7, name: "gain".to_string(), default: 0, steps: None }],
    )
    .unwrap()
}

fn stereo_layout() -> Layout {
    Layout { formats: vec![BusLayout::Stereo, BusLayout::Stereo] }
}

fn disjoint_block(len: usize) -> HostBlock {
    HostBlock {
        block_len: len,
        buffers: vec![
            vec![1; len],
            vec![2; len],
            vec![0; len],
            vec![0; len],
        ],
        input_channels: vec![0, 1],
        output_channels: vec![2, 3],
        input_bus_counts: vec![2],
        output_bus_counts: vec![2],
    }
}

#[test]
fn a_block_end_to_end() {
    // Activate a stereo in/out layout with blocks of four samples; a control
    // side edit reaches the processor exactly once inside the next process
    // call; a second call with no further edit delivers nothing.
    let mut engine = gain_engine();
    engine.activate(&stereo_layout(), 48000f64.to_bits(), 4).unwrap();

    let gain = 0.5f64.to_bits();
    engine.set_param(Side::Model, 0, gain);

    let mut processor = CopyProcessor::new();
    let (block, report) = engine
        .process(&mut processor, disjoint_block(4), &Vec::new())
        .unwrap();
    assert_eq!(report.delivered, vec![(0, gain)]);
    assert_eq!(processor.set_calls, vec![(7, gain)]);
    assert_eq!(report.segments, vec![Segment { start: 0, end: 4, first_event: 0, end_event: 0 }]);
    assert_eq!(block.buffers[2], vec![1; 4]);
    assert_eq!(block.buffers[3], vec![2; 4]);

    let (_, report) = engine
        .process(&mut processor, disjoint_block(4), &Vec::new())
        .unwrap();
    assert_eq!(report.delivered, Vec::new());
    assert_eq!(processor.set_calls, vec![(7, gain)]);
}

#[test]
fn events_drive_the_segmentation() {
    let mut engine = gain_engine();
    engine.activate(&stereo_layout(), 48000f64.to_bits(), 8).unwrap();
    let mut processor = CopyProcessor::new();
    let events = vec![
        Event { offset: 2, event: EventType::ParamChange(ParamChange { id: 7, value: 3 }) },
        Event { offset: 6, event: EventType::ParamChange(ParamChange { id: 7, value: 4 }) },
    ];
    let mut block = disjoint_block(8);
    block.buffers = vec![vec![9; 8], vec![9; 8], vec![0; 8], vec![0; 8]];
    let (block, report) = engine.process(&mut processor, block, &events).unwrap();
    assert_eq!(
        report.segments,
        vec![
            Segment { start: 0, end: 2, first_event: 0, end_event: 0 },
            Segment { start: 2, end: 6, first_event: 0, end_event: 1 },
            Segment { start: 6, end: 8, first_event: 1, end_event: 2 },
        ]
    );
    assert_eq!(processor.segments_seen, report.segments);
    assert_eq!(block.buffers[2], vec![9; 8]);
}

/// Overwrites every output sample first, then copies the inputs over: only
/// a de-aliased input view can still see the original samples afterwards.
struct ClobberThenCopy;

impl Processor for ClobberThenCopy {
    fn set_param(&mut self, _id: u32, _value: u64) {}

    fn reset(&mut self) {}

    fn process(
        &mut self,
        view: &BufferView,
        scratch: &ScratchStorage,
        block: &mut HostBlock,
        _events: &Vec<Event>,
        segment: &Segment,
    ) {
        for c in 0..view.outputs.len() {
            for i in segment.start..segment.end {
                view.write_output(block, c, i, 999);
            }
        }
        for c in 0..view.inputs.len() {
            for i in segment.start..segment.end {
                let v = view.read_input(scratch, block, c, i);
                view.write_output(block, c, i, v);
            }
        }
    }
}

#[test]
fn aliased_host_buffers_still_process_correctly() {
    // The host hands the same two buffers as input and output (in-place
    // processing). The processor clobbers the outputs before reading the
    // inputs; the routed view still yields the original input samples.
    let mut engine = gain_engine();
    engine.activate(&stereo_layout(), 48000f64.to_bits(), 4).unwrap();
    let mut processor = ClobberThenCopy;
    let aliased = HostBlock {
        block_len: 4,
        buffers: vec![vec![1, 2, 3, 4], vec![5, 6, 7, 8]],
        input_channels: vec![0, 1],
        output_channels: vec![0, 1],
        input_bus_counts: vec![2],
        output_bus_counts: vec![2],
    };
    let (block, _) = engine.process(&mut processor, aliased, &Vec::new()).unwrap();
    assert_eq!(block.buffers[0], vec![1, 2, 3, 4]);
    assert_eq!(block.buffers[1], vec![5, 6, 7, 8]);
}

#[test]
fn automation_events_reach_the_model_side() {
    // Host automation arrives on the audio thread inside process; the model
    // side hears of it on its next poll, coalesced to the last value. An
    // event with an id no parameter claims writes nothing.
    let mut engine = gain_engine();
    engine.activate(&stereo_layout(), 48000f64.to_bits(), 4).unwrap();
    let mut processor = CopyProcessor::new();
    let events = vec![
        Event { offset: 0, event: EventType::ParamChange(ParamChange { id: 7, value: 3 }) },
        Event { offset: 1, event: EventType::ParamChange(ParamChange { id: 99, value: 8 }) },
        Event { offset: 2, event: EventType::ParamChange(ParamChange { id: 7, value: 4 }) },
    ];
    engine.process(&mut processor, disjoint_block(4), &events).unwrap();
    assert_eq!(engine.get_param(0), 4);
    assert_eq!(engine.poll(Side::Model), vec![(0, 4)]);
    assert_eq!(engine.poll(Side::Model), Vec::new());
}

#[test]
fn processing_before_activation_is_rejected() {
    let mut engine = gain_engine();
    let mut processor = CopyProcessor::new();
    let r = engine.process(&mut processor, disjoint_block(4), &Vec::new());
    assert!(matches!(r, Err(ProcessError::Inactive)));
}

#[test]
fn unsorted_or_out_of_block_events_are_rejected() {
    let mut engine = gain_engine();
    engine.activate(&stereo_layout(), 48000f64.to_bits(), 4).unwrap();
    let mut processor = CopyProcessor::new();

    let out_of_block = vec![
        Event { offset: 4, event: EventType::ParamChange(ParamChange { id: 7, value: 1 }) },
    ];
    let r = engine.process(&mut processor, disjoint_block(4), &out_of_block);
    assert!(matches!(r, Err(ProcessError::InvalidTimeline)));

    let unsorted = vec![
        Event { offset: 3, event: EventType::ParamChange(ParamChange { id: 7, value: 1 }) },
        Event { offset: 1, event: EventType::ParamChange(ParamChange { id: 7, value: 2 }) },
    ];
    let r = engine.process(&mut processor, disjoint_block(4), &unsorted);
    assert!(matches!(r, Err(ProcessError::InvalidTimeline)));
}

#[test]
fn a_rejected_block_delivers_nothing() {
    // Validation comes before the drain: after a rejected call the pending
    // edit is still there for the next, accepted one.
    let mut engine = gain_engine();
    engine.activate(&stereo_layout(), 48000f64.to_bits(), 4).unwrap();
    engine.set_param(Side::Model, 0, 9);
    let mut processor = CopyProcessor::new();

    let r = engine.process(&mut processor, disjoint_block(5), &Vec::new());
    assert!(matches!(r, Err(ProcessError::Rejected(RouteError::BlockTooLong))));
    assert!(processor.set_calls.is_empty());

    let (_, report) = engine
        .process(&mut processor, disjoint_block(4), &Vec::new())
        .unwrap();
    assert_eq!(report.delivered, vec![(0, 9)]);
}

#[test]
fn unsupported_layout_does_not_activate() {
    let mut engine = gain_engine();
    let mono = Layout { formats: vec![BusLayout::Mono, BusLayout::Mono] };
    let r = engine.activate(&mono, 48000f64.to_bits(), 4);
    assert!(matches!(r, Err(ActivateError::UnsupportedLayout)));
    assert!(!engine.is_active());
}

#[test]
fn deactivation_stops_processing() {
    let mut engine = gain_engine();
    engine.activate(&stereo_layout(), 48000f64.to_bits(), 4).unwrap();
    engine.deactivate();
    let mut processor = CopyProcessor::new();
    let r = engine.process(&mut processor, disjoint_block(4), &Vec::new());
    assert!(matches!(r, Err(ProcessError::Inactive)));
}

#[test]
fn reset_flushes_pending_changes_and_resets() {
    let mut engine = gain_engine();
    engine.set_param(Side::Model, 0, 5);
    let mut processor = CopyProcessor::new();
    engine.reset(&mut processor);
    assert_eq!(processor.set_calls, vec![(7, 5)]);
    assert_eq!(processor.resets, 1);
    assert_eq!(engine.poll(Side::Processor), Vec::new());
}

#[test]
fn oversized_activation_fails_before_processing() {
    let mut engine = gain_engine();
    let r = engine.activate(&stereo_layout(), 48000f64.to_bits(), usize::MAX);
    assert!(matches!(r, Err(ActivateError::TooLarge)));
    assert!(!engine.is_active());
}

#[test]
fn a_declaration_without_layouts_is_rejected() {
    let r = Engine::new(vec![bus("input", BusDir::In)], vec![], vec![]);
    assert!(matches!(r, Err(EngineError::Topology(TopologyError::NoLayouts))));
}

#[test]
fn duplicate_param_ids_are_rejected() {
    let r = Engine::new(
        vec![bus("input", BusDir::In)],
        vec![Layout { formats: vec![BusLayout::Stereo] }],
        vec![
            ParamDesc { id: 7, name: "a".to_string(), default: 0, steps: None },
            ParamDesc { id: 7, name: "b".to_string(), default: 0, steps: Some(4) },
        ],
    );
    assert!(matches!(r, Err(EngineError::DuplicateParamId)));
}

#[test]
fn the_engine_reports_its_buses() {
    let engine = gain_engine();
    assert_eq!(engine.bus_name(0), "input");
    assert_eq!(engine.bus_name(1), "output");
    assert!(matches!(engine.bus_dir(0), BusDir::In));
    assert!(matches!(engine.bus_dir(1), BusDir::Out));
}

#[test]
fn polling_through_the_engine_matches_the_channel() {
    let mut engine = gain_engine();
    assert_eq!(engine.param_count(), 1);
    assert_eq!(engine.find_param(7), Some(0));
    assert_eq!(engine.find_param(8), None);
    engine.set_param(Side::Processor, 0, 42);
    assert_eq!(engine.poll(Side::Model), vec![(0, 42)]);
    engine.mark_all();
    assert_eq!(engine.poll(Side::Model), vec![(0, 42)]);
    assert_eq!(engine.poll(Side::Processor), vec![(0, 42)]);
}

#[test]
fn resolve_through_the_engine_keeps_failed_candidates_out() {
    let mut engine = Engine::new(
        vec![bus("main", BusDir::InOut)],
        vec![
            Layout { formats: vec![BusLayout::Stereo] },
            Layout { formats: vec![BusLayout::Mono] },
        ],
        vec![],
    )
    .unwrap();
    assert_eq!(engine.bus_count(), 1);
    assert_eq!(engine.channel_count(0), 2);
    assert!(engine.resolve(&Layout { formats: vec![BusLayout::Mono] }));
    assert_eq!(engine.channel_count(0), 1);
    assert!(!engine.resolve(&Layout { formats: vec![] }));
    assert_eq!(engine.channel_count(0), 1);
}
