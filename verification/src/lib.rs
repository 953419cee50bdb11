//! Flit: a small drop box for text, links and files, with share links and guest drops.
//! The verified core of the server: the inbox, the share and drop registries, and the
//! text handling that decides what a request gets back.

pub mod flit;
pub mod headers;
pub mod ids;
pub mod inbox;
pub mod item;
pub mod laws;
pub mod limits;
pub mod outside;
pub mod pages;
pub mod text;
