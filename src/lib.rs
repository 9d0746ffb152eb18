//! Command ingestion pipeline of a remotely driven visual stimulus display:
//! reply records and length-prefix framing, the per-connection protocol
//! state machine, the coalescing mailbox between connections and the render
//! loop, and the scene state that the render loop owns.
pub mod messages;
pub mod proto;
pub mod codec;
pub mod mailbox;
pub mod scene;
pub mod connection;
pub mod render_loop;
