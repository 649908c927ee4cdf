pub mod forwarding;
pub mod order;
pub mod strmap;
pub mod text;
