pub mod action_executor;
pub mod node_graph;
