pub mod launch;
pub mod manifest;
pub mod model;
pub mod order;
pub mod paths;
pub mod plan;
pub mod strmap;
pub mod text;
