//! A renderer that batches drawing operations into a frame of vertices,
//! indices and draw commands, and plans how the frame is replayed on the GPU.
pub mod geometry;
pub mod maps;
pub mod vertices;
pub mod pipeline;
pub mod blit;
pub mod render;
pub mod plan;
pub mod laws;
