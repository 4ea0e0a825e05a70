//! Scaffolding for layered TypeScript back ends: reads the models of a Prisma
//! schema and renders, for a chosen model, its domain entity, its persistence
//! mapper and its repository pair, together with the paths they belong at.

pub mod code_gen;
pub mod laws;
pub mod parser;
pub mod strings;
pub mod text;
