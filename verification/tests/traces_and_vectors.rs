use scene_config::config_file::parse_config;
use scene_config::number::Real;
use scene_config::scene::{Marker, TraceEvent, Visibility};
use scene_config::traces::{TraceAction, TraceInfo};
use scene_config::vectors::{
    spawn_vectors_in_config, vector_visibility_after, Vector, VectorEvent, VectorsVisibility,
};

fn vector(origin: &str, target: &str, scale: f64) -> Vector {
    Vector(
        Marker(origin.to_string(), Visibility::Visible),
        Marker(target.to_string(), Visibility::Visible),
        Real::from_bits(scale.to_bits()),
    )
}

#[test]
fn traces_are_added_once() {
    let mut traces = TraceInfo::default();
    assert_eq!(traces.start_frame, 0);
    assert_eq!(traces.end_frame, 0);
    assert!(!traces.is_trace_added("A".to_string()));
    assert_eq!(traces.handle(&TraceEvent::AddTraceEvent("A".to_string())), TraceAction::Redraw);
    assert_eq!(traces.handle(&TraceEvent::AddTraceEvent("B".to_string())), TraceAction::Redraw);
    assert_eq!(traces.handle(&TraceEvent::AddTraceEvent("A".to_string())), TraceAction::Redraw);
    assert_eq!(traces.points, vec!["A", "B"]);
    assert!(traces.is_trace_added("A".to_string()));
    assert_eq!(traces.handle(&TraceEvent::UpdateTraceEvent), TraceAction::Redraw);
    assert_eq!(traces.points, vec!["A", "B"]);
}

#[test]
fn traces_are_taken_away() {
    let mut traces = TraceInfo::default();
    traces.add_point("A".to_string());
    traces.add_point("B".to_string());
    traces.add_point("A".to_string());
    traces.add_point("C".to_string());
    assert_eq!(
        traces.handle(&TraceEvent::DespawnTraceEvent("A".to_string())),
        TraceAction::Despawn("A".to_string())
    );
    assert_eq!(traces.points, vec!["B", "C"]);
    traces.remove_point("X".to_string());
    assert_eq!(traces.points, vec!["B", "C"]);
    assert_eq!(traces.handle(&TraceEvent::DespawnAllTracesEvent), TraceAction::DespawnAll);
    assert!(traces.points.is_empty());
}

#[test]
fn hidden_vectors_are_remembered() {
    let mut hidden = VectorsVisibility::new();
    let a = vector("O", "X", 1.0);
    let b = vector("O", "Y", 1.0);
    assert!(hidden.is_vector_visible(&a));
    hidden.hide_vector(a.duplicate());
    hidden.hide_vector(a.duplicate());
    assert!(!hidden.is_vector_visible(&a));
    assert!(hidden.is_vector_visible(&b));
    assert!(hidden.is_vector_visible(&vector("O", "X", 2.0)));
    hidden.show_vector(&a);
    assert!(hidden.is_vector_visible(&a));
    hidden.hide_all_vectors(vec![a.duplicate(), b.duplicate()]);
    assert!(!hidden.is_vector_visible(&a));
    assert!(!hidden.is_vector_visible(&b));
    hidden.show_vector(&a);
    assert!(hidden.is_vector_visible(&a));
    assert!(!hidden.is_vector_visible(&b));
    hidden.show_all_vectors();
    assert!(hidden.is_vector_visible(&b));
}

#[test]
fn an_event_gives_a_vector_its_visibility() {
    let a = vector("O", "X", 1.0);
    let b = vector("O", "Y", 1.0);
    assert_eq!(vector_visibility_after(&VectorEvent::HideAllVectorsEvent, &a), Some(Visibility::Hidden));
    assert_eq!(vector_visibility_after(&VectorEvent::ShowAllVectorsEvent, &a), Some(Visibility::Visible));
    assert_eq!(
        vector_visibility_after(&VectorEvent::HideVectorEvent(a.duplicate()), &a),
        Some(Visibility::Hidden)
    );
    assert_eq!(vector_visibility_after(&VectorEvent::HideVectorEvent(a.duplicate()), &b), None);
    assert_eq!(
        vector_visibility_after(&VectorEvent::ShowVectorEvent(b.duplicate()), &b),
        Some(Visibility::Visible)
    );
    assert_eq!(vector_visibility_after(&VectorEvent::ShowVectorEvent(b.duplicate()), &a), None);
}

#[test]
fn the_vectors_of_a_configuration_are_planned() {
    let file = parse_config("[c]\nvectors = [[\"O\", [\"X\", \"Y\"], 2.0], [\"P\", \"Z\"]]\n[d]\npoint_size = 1.0\n")
        .expect("the text is a document");
    let planned = spawn_vectors_in_config("c", &file);
    assert_eq!(planned.len(), 3);
    assert!(planned[0].same(&vector("O", "X", 2.0)));
    assert!(planned[1].same(&vector("O", "Y", 2.0)));
    assert!(planned[2].same(&vector("P", "Z", 1.0)));
    assert!(spawn_vectors_in_config("d", &file).is_empty());
    assert!(spawn_vectors_in_config("e", &file).is_empty());
}
