pub mod aksis;
pub mod html;
pub mod obs;
