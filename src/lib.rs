//! Bed management for health facilities: facilities (unidades de saúde), the
//! beds they own (leitos) and the patients assigned to those beds
//! (pacientes), kept in three related tables with verified operations.

pub mod model;
pub mod ident;
pub mod keyed;
pub mod store;
pub mod routes;
pub mod laws;
