//! A small diagram library: it parses a textual component-diagram
//! description into a diagram model and renders that model as a
//! character grid drawn with box-drawing borders.
//!
//! Text flows through the library in one direction: the [`parser`]
//! turns a description into the declared elements of [`plant_uml`],
//! the [`repository`] maps them to the [`diagram`] model, and the
//! [`presenter`] builds a tree of drawable [`element`]s — text leaves,
//! borders, groups — whose draw pass fills a [`grid`] that the
//! [`view_model`] exposes as text.  Every element is abstracted by the
//! mathematical [`model`], over which all the contracts and the
//! library's laws are stated.

pub mod border;
pub mod chars;
pub mod composite;
pub mod diagram;
pub mod element;
pub mod file_repository;
pub mod grid;
pub mod model;
pub mod parser;
pub mod plant_uml;
pub mod position;
pub mod presenter;
pub mod repository;
pub mod text;
pub mod use_cases;
pub mod view_model;
