use bevy_webgl2::graph::{resolve_inputs, GraphError, NodeOutputs, SlotEdge};

#[test]
fn inputs_come_from_published_outputs() {
    let mut outputs = NodeOutputs::new();
    outputs.publish(1, vec![Some(10), None, Some(12)]);
    outputs.publish(2, vec![Some(20)]);
    let edges = vec![
        Some(SlotEdge { output_node: 1, output_index: 2 }),
        Some(SlotEdge { output_node: 2, output_index: 0 }),
    ];
    assert_eq!(resolve_inputs(&outputs, &edges), Ok(vec![12, 20]));
    outputs.publish(1, vec![Some(11), None, Some(13)]);
    assert_eq!(resolve_inputs(&outputs, &edges), Ok(vec![13, 20]));
}

#[test]
fn unresolved_inputs_fail() {
    let mut outputs = NodeOutputs::new();
    outputs.publish(1, vec![Some(10), None]);
    let missing_node = vec![Some(SlotEdge { output_node: 9, output_index: 0 })];
    assert_eq!(resolve_inputs(&outputs, &missing_node), Err(GraphError::NodeInputsNotSet));
    let unset = vec![Some(SlotEdge { output_node: 1, output_index: 1 })];
    assert_eq!(resolve_inputs(&outputs, &unset), Err(GraphError::OutputNotSet));
    let out_of_range = vec![Some(SlotEdge { output_node: 1, output_index: 5 })];
    assert_eq!(resolve_inputs(&outputs, &out_of_range), Err(GraphError::OutputNotSet));
    let no_edge = vec![Some(SlotEdge { output_node: 1, output_index: 0 }), None];
    assert_eq!(resolve_inputs(&outputs, &no_edge), Err(GraphError::NoEdge));
    assert_eq!(resolve_inputs(&outputs, &vec![]), Ok(vec![]));
    assert!(outputs.get(1).is_some());
    assert!(outputs.get(3).is_none());
}
