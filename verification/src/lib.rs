//! What a browser window decides: tabs and where they have been, what a load asks
//! for and waits for, and which surface an input belongs to.
//!
//! The engine that parses, styles and draws a page is not here. A page is held as
//! the plain facts the window reads of it, and what the engine has to do about a
//! decision is handed back as a value.

pub mod markup;
pub mod text;
pub mod images;
pub mod system;
pub mod tab;
pub mod zoom;
pub mod browser;
pub mod surface;
pub mod find;
pub mod address;
pub mod strip;
pub mod navigation;
pub mod needs;
pub mod offering;
pub mod pages;
pub mod input;
pub mod keys;
pub mod frames;
pub mod driving;
pub mod promises;
pub mod journeys;
pub mod departures;
pub mod commands;
pub mod deliveries;
pub mod gathering;
pub mod arriving;
pub mod asking;
pub mod building;
