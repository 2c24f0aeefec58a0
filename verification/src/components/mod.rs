pub mod renderable;
