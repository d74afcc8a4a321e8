//! The core of a multi-room chat service: credential, session and room
//! stores, the room-scoped broadcast router, the session gate and the
//! decisions of a live chat connection, each with a machine-checked contract.

pub mod connection;
pub mod gate;
pub mod invite_users_view;
pub mod login_view;
pub mod manager;
pub mod new_room_view;
pub mod pages;
pub mod router;
pub mod text;
pub mod utils;
