//! The verified core of the temper desktop app: resource references, the
//! temper connection state, the registry of live agent conversations and the
//! decisions of the conversation loop.
pub mod text;
pub mod resource_ref;
pub mod temper;
pub mod stop_reason;
pub mod conversations;
pub mod conversation_loop;
