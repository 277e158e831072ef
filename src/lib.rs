//! Playlist download core: sanitised file names, the existence guard, the
//! stale-file reconciler, and an MP3 sink that buffers PCM and encodes it.
pub mod names;
pub mod track;
pub mod catalog;
mod lame;
pub mod sink;
