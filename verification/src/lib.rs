//! Simulation core of a small 2D action-adventure: a player explores a
//! bounded arena, fights spawned enemies, collects items, gathers quest
//! artefacts and finally defeats a boss.
//!
//! The whole core works on integers.  Lengths and coordinates are counted in
//! thousandths of a world unit, time in milliseconds and speeds in world units
//! per second, so that `speed * elapsed` is directly a length.  Rendering,
//! windowing and input devices are left to the embedding program, which hands
//! in elapsed time and control signals and reads the state back.
//!
//! A session is a [`game::Game`]; its mathematical model is a
//! [`game::GameView`], and every step of the simulation is stated as a
//! function on such models:
//!
//! - [`simulation`] holds the step itself, [`Game::update`](game::Game);
//! - [`collisions`] resolves pickups and combat;
//! - [`objective`] sends the boss in and declares victory;
//! - [`spawner`] places items and enemies, with [`random`] numbers;
//! - [`input`] heeds the control signals;
//! - [`arena`], [`player`], [`enemy`] and [`items`] hold the parts of a
//!   session, [`geometry`] the arithmetic they share, [`events`] what a step
//!   reports and [`ui`] what the display needs.
pub mod arena;
pub mod collisions;
pub mod enemy;
pub mod events;
pub mod game;
pub mod geometry;
pub mod input;
pub mod items;
pub mod objective;
pub mod player;
pub mod random;
pub mod simulation;
pub mod spawner;
pub mod ui;
