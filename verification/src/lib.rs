//! Routing of Discreet Log Contract messages between Lightning peers through a
//! proxy node: the wire form of a routed message, its segmentation, the routing
//! decisions of a node and the decisions of the loops that drive it.
pub mod city_tavern;
pub mod dlc;
pub mod errors;
pub mod form_laws;
pub mod laws;
pub mod meaning_laws;
pub mod midnight_rider;
pub mod node;
pub mod relay;
pub mod routed_message;
pub mod segmentation;
pub mod wire;

